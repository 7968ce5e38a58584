//! Which weight files a model repository is loaded from.
//!
//! A repository either holds one `model.safetensors` file or shards the
//! weights over several files listed in `model.safetensors.index.json`,
//! whose `weight_map` maps each tensor to the file holding it.

use vstd::prelude::*;
use serde_json::Error as JsonError;

verus! {

/// The texts of a sequence of strings.
pub open spec fn texts(s: Seq<String>) -> Seq<Seq<char>> {
    s.map_values(|x: String| x@)
}

/// The texts of `s` with repeats left out, each at its first place.
pub open spec fn dedup(s: Seq<Seq<char>>) -> Seq<Seq<char>>
    decreases s.len(),
{
    if s.len() == 0 {
        Seq::empty()
    } else {
        let rest = dedup(s.drop_last());
        if rest.contains(s.last()) {
            rest
        } else {
            rest.push(s.last())
        }
    }
}

/// The single weight file of an unsharded repository.
pub open spec fn single_weights_file() -> Seq<char> {
    seq!['m', 'o', 'd', 'e', 'l', '.', 's', 'a', 'f', 'e', 't', 'e', 'n', 's', 'o', 'r', 's']
}

/// Every weight file is downloaded once: the list has no repeats, and it
/// names exactly the files that the index names.
pub proof fn lemma_dedup_unique_and_complete(s: Seq<Seq<char>>)
    ensures
        forall|i: int, j: int|
            0 <= i < j < dedup(s).len() ==> #[trigger] dedup(s)[i] != #[trigger] dedup(s)[j],
        forall|x: Seq<char>| #[trigger] dedup(s).contains(x) <==> s.contains(x),
    decreases s.len(),
{
    if s.len() > 0 {
        let init = s.drop_last();
        lemma_dedup_unique_and_complete(init);
        let rest = dedup(init);
        assert forall|x: Seq<char>| #[trigger] dedup(s).contains(x) <==> s.contains(x) by {
            if s.contains(x) {
                let k = choose|k: int| 0 <= k < s.len() && s[k] == x;
                if k < s.len() - 1 {
                    assert(init[k] == x);
                    assert(init.contains(x));
                    assert(rest.contains(x));
                    if !rest.contains(s.last()) {
                        let m = choose|m: int| 0 <= m < rest.len() && rest[m] == x;
                        assert(rest.push(s.last())[m] == x);
                    }
                } else {
                    if !rest.contains(s.last()) {
                        assert(rest.push(s.last())[rest.len() as int] == x);
                    }
                }
            }
            if dedup(s).contains(x) {
                let m = choose|m: int| 0 <= m < dedup(s).len() && dedup(s)[m] == x;
                if m < rest.len() {
                    assert(rest[m] == x);
                    assert(rest.contains(x));
                    let k = choose|k: int| 0 <= k < init.len() && init[k] == x;
                    assert(s[k] == x);
                } else {
                    assert(x == s.last());
                    assert(s[s.len() - 1] == x);
                }
            }
        }
    }
}

/// A weight index without a `weight_map` object.
#[derive(Debug, PartialEq, Eq, Structural)]
pub struct InvalidWeightIndex;

/// The files to download, given the repository's weight index: `None` where
/// the repository has no index, `Some(None)` where the index has no
/// `weight_map` object, and otherwise the file named for each tensor.
/// Each file is listed once.
pub fn weight_files(index: Option<Option<Vec<String>>>) -> (r: Result<Vec<String>, InvalidWeightIndex>)
    ensures
        match index {
            None => r matches Ok(files) && texts(files@) == seq![single_weights_file()],
            Some(None) => r == Err::<Vec<String>, InvalidWeightIndex>(InvalidWeightIndex),
            Some(Some(names)) => r matches Ok(files) && texts(files@) == dedup(texts(names@)),
        },
{
    match index {
        None => Ok(single_file_list()),
        Some(None) => Err(InvalidWeightIndex),
        Some(Some(names)) => Ok(unique_names(&names)),
    }
}

/// The list holding the single weight file of an unsharded repository.
fn single_file_list() -> (files: Vec<String>)
    ensures
        texts(files@) == seq![single_weights_file()],
{
    let mut files: Vec<String> = Vec::new();
    proof { reveal_strlit("model.safetensors"); }
    files.push(String::from_str("model.safetensors"));
    proof {
        assert(files@[0]@ =~= single_weights_file());
        assert(texts(files@) =~= seq![single_weights_file()]);
    }
    files
}

/// Whether some string of `v` has the text of `s`.
fn contains_name(v: &Vec<String>, s: &String) -> (b: bool)
    ensures
        b == texts(v@).contains(s@),
{
    let mut i: usize = 0;
    while i < v.len()
        invariant
            i <= v.len(),
            forall|j: int| 0 <= j < i ==> v@[j]@ != s@,
        decreases v.len() - i,
    {
        if v[i] == *s {
            assert(texts(v@)[i as int] == s@);
            return true;
        }
        i = i + 1;
    }
    proof {
        if texts(v@).contains(s@) {
            let j = choose|j: int| 0 <= j < texts(v@).len() && texts(v@)[j] == s@;
            assert(v@[j]@ == s@);
        }
    }
    false
}

/// The strings of `names`, each text once, at its first place.
pub fn unique_names(names: &Vec<String>) -> (r: Vec<String>)
    ensures
        texts(r@) == dedup(texts(names@)),
{
    let mut r: Vec<String> = Vec::new();
    let mut i: usize = 0;
    while i < names.len()
        invariant
            i <= names.len(),
            texts(r@) == dedup(texts(names@.subrange(0, i as int))),
        decreases names.len() - i,
    {
        let ghost prefix = names@.subrange(0, i as int + 1);
        proof {
            assert(texts(prefix).drop_last() =~= texts(names@.subrange(0, i as int)));
            assert(texts(prefix).last() == names@[i as int]@);
        }
        if !contains_name(&r, &names[i]) {
            let n = names[i].clone();
            let ghost before = r@;
            r.push(n);
            proof {
                assert(texts(r@) =~= texts(before).push(names@[i as int]@));
            }
        }
        i = i + 1;
    }
    proof {
        assert(names@.subrange(0, names.len() as int) =~= names@);
    }
    r
}


#[verifier::external_type_specification]
#[verifier::external_body]
pub struct ExJsonError(JsonError);

/// A field of a JSON document, looked up by key: absent (or the document
/// is no object), present but no object, or an object whose values are
/// each read as a string where they are one.
pub enum JsonField {
    Missing,
    NotObject,
    Object(Vec<Option<String>>),
}

/// The texts of a sequence of optional strings.
pub open spec fn opt_texts(s: Seq<Option<String>>) -> Seq<Option<Seq<char>>> {
    s.map_values(|x: Option<String>| match x {
        Some(t) => Some(t@),
        None => None,
    })
}

/// The abstract value of a looked-up field: `None` where it is absent,
/// `Some(None)` where it is no object, and otherwise the texts of its
/// values (`None` for a value that is no string).
pub open spec fn field_view(f: JsonField) -> Option<Option<Seq<Option<Seq<char>>>>> {
    match f {
        JsonField::Missing => None,
        JsonField::NotObject => Some(None),
        JsonField::Object(v) => Some(Some(opt_texts(v@))),
    }
}

/// What parsing `bytes` as JSON and looking up `key` gives: `None` where
/// the bytes are no JSON text, and otherwise the field's abstract value,
/// its object's values in the order the JSON map gives them.
pub uninterp spec fn json_field(bytes: Seq<u8>, key: Seq<char>) -> Option<
    Option<Option<Seq<Option<Seq<char>>>>>,
>;

/// `serde_json::from_slice::<serde_json::Value>` followed by
/// `Value::get(key)`: the looked-up field, its object's values converted
/// with `Value::as_str`. The JSON error where the bytes do not parse.
#[verifier::external_body]
fn json_object_field(bytes: &[u8], key: &str) -> (r: Result<JsonField, JsonError>)
    ensures
        match r {
            Ok(f) => json_field(bytes@, key@) == Some(field_view(f)),
            Err(_) => json_field(bytes@, key@) is None,
        },
{
    let json: serde_json::Value = serde_json::from_slice(bytes)?;
    match json.get(key) {
        None => Ok(JsonField::Missing),
        Some(serde_json::Value::Object(map)) => Ok(JsonField::Object(
            map.values().map(|v| v.as_str().map(|t| t.to_string())).collect(),
        )),
        Some(_) => Ok(JsonField::NotObject),
    }
}

/// The key of the weight index that maps each tensor to its file.
pub open spec fn weight_map_key() -> Seq<char> {
    seq!['w', 'e', 'i', 'g', 'h', 't', '_', 'm', 'a', 'p']
}

/// Why a weight index names no files.
pub enum WeightIndexError {
    /// The index is no JSON text.
    NotJson(JsonError),
    /// The index has no `weight_map` object.
    NoWeightMap,
    /// A value of `weight_map` is not a file name (a JSON string).
    NotAFileName,
}

/// Whether every value is a string.
pub open spec fn all_names(s: Seq<Option<Seq<char>>>) -> bool {
    forall|i: int| 0 <= i < s.len() ==> #[trigger] s[i] is Some
}

/// The texts of values that are all strings.
pub open spec fn unwrap_names(s: Seq<Option<Seq<char>>>) -> Seq<Seq<char>> {
    s.map_values(|x: Option<Seq<char>>| x.unwrap())
}

/// The strings of `v` where all of them are present.
fn all_present(v: Vec<Option<String>>) -> (r: Option<Vec<String>>)
    ensures
        match r {
            Some(names) => all_names(opt_texts(v@)) && texts(names@) == unwrap_names(opt_texts(v@)),
            None => !all_names(opt_texts(v@)),
        },
{
    let ghost all = v@;
    let mut names: Vec<String> = Vec::new();
    for x in it: v.into_iter()
        invariant
            it.seq() == all,
            names.len() == it.index(),
            forall|j: int| 0 <= j < it.index() ==> (#[trigger] all[j]) is Some && names@[j]@ == all[j].unwrap()@,
    {
        match x {
            Some(t) => names.push(t),
            None => {
                proof {
                    assert(opt_texts(all)[it.index() as int] is None);
                }
                return None;
            },
        }
    }
    proof {
        assert forall|i: int| 0 <= i < all.len() implies #[trigger] opt_texts(all)[i] is Some by {
            assert(all[i] is Some);
        }
        assert(texts(names@) =~= unwrap_names(opt_texts(all)));
    }
    Some(names)
}

/// The files to download, given the bytes of the repository's weight index
/// (`None` where it has none). An unsharded repository loads
/// `model.safetensors`; a sharded one loads each file that `weight_map`
/// names, once.
pub fn weight_files_from_index(index: Option<&[u8]>) -> (r: Result<Vec<String>, WeightIndexError>)
    ensures
        match index {
            None => r matches Ok(files) && texts(files@) == seq![single_weights_file()],
            Some(b) => match json_field(b@, weight_map_key()) {
                None => r matches Err(WeightIndexError::NotJson(_)),
                Some(None) => r matches Err(WeightIndexError::NoWeightMap),
                Some(Some(None)) => r matches Err(WeightIndexError::NoWeightMap),
                Some(Some(Some(vals))) => if all_names(vals) {
                    r matches Ok(files) && texts(files@) == dedup(unwrap_names(vals))
                } else {
                    r matches Err(WeightIndexError::NotAFileName)
                },
            },
        },
{
    match index {
        None => Ok(single_file_list()),
        Some(b) => {
            let key = "weight_map";
            proof {
                reveal_strlit("weight_map");
                assert(key@ =~= weight_map_key());
            }
            match json_object_field(b, key) {
                Err(e) => Err(WeightIndexError::NotJson(e)),
                Ok(JsonField::Missing) => Err(WeightIndexError::NoWeightMap),
                Ok(JsonField::NotObject) => Err(WeightIndexError::NoWeightMap),
                Ok(JsonField::Object(vals)) => match all_present(vals) {
                    None => Err(WeightIndexError::NotAFileName),
                    Some(names) => Ok(unique_names(&names)),
                },
            }
        },
    }
}

} // verus!
