//! Request bookkeeping of the gRPC service: span ids for request logs and
//! the registry of served models.

use vstd::prelude::*;
use vstd::string::StrSliceExecFns;
use crate::grpc_service::configuration::{is_hyphen_position, is_lower_hex, is_uuid_v4_text, new_uuid_v4_text};

verus! {

/// Where the first `-` of `s` stands, or the length of `s` where none does.
pub open spec fn first_hyphen(s: Seq<char>) -> nat
    decreases s.len(),
{
    if s.len() == 0 {
        0
    } else if s[0] == '-' {
        0
    } else {
        1 + first_hyphen(s.drop_first())
    }
}

/// The text of `s` before its first `-`: the first piece that splitting at
/// `-` gives.
pub open spec fn first_field(s: Seq<char>) -> Seq<char> {
    s.take(first_hyphen(s) as int)
}

proof fn lemma_first_hyphen_at(s: Seq<char>, k: nat)
    requires
        k <= s.len(),
        forall|i: int| 0 <= i < k ==> #[trigger] s[i] != '-',
        k < s.len() ==> s[k as int] == '-',
    ensures
        first_hyphen(s) == k,
    decreases s.len(),
{
    if s.len() > 0 && k > 0 {
        assert forall|i: int| 0 <= i < k - 1 implies #[trigger] s.drop_first()[i] != '-' by {
            assert(s.drop_first()[i] == s[i + 1]);
        }
        lemma_first_hyphen_at(s.drop_first(), (k - 1) as nat);
    }
}

/// The text of `s` before its first `-`.
pub fn span_id(s: &str) -> (id: String)
    ensures
        id@ == first_field(s@),
{
    let n = s.unicode_len();
    let mut k: usize = 0;
    let mut found: bool = false;
    while k < n && !found
        invariant
            n == s@.len(),
            k <= n,
            forall|i: int| 0 <= i < k ==> #[trigger] s@[i] != '-',
            found ==> k < n && s@[k as int] == '-',
        decreases n - k + (if found { 0int } else { 1int }),
    {
        if s.get_char(k) == '-' {
            found = true;
        } else {
            k = k + 1;
        }
    }
    proof {
        lemma_first_hyphen_at(s@, k as nat);
    }
    let piece = s.substring_char(0, k);
    String::from_str(piece)
}

/// A fresh id for the log span of an incoming request: the first group of a
/// random UUID.
pub fn new_span_id() -> (id: String)
    ensures
        id@.len() == 8,
        forall|i: int| 0 <= i < 8 ==> #[trigger] is_lower_hex(id@[i]),
{
    let u = new_uuid_v4_text();
    let id = span_id(u.as_str());
    proof {
        lemma_span_id_of_uuid(u@);
    }
    id
}

/// The span id taken from a random UUID is its first group: 8 hex digits.
pub proof fn lemma_span_id_of_uuid(u: Seq<char>)
    requires
        is_uuid_v4_text(u),
    ensures
        first_field(u).len() == 8,
        forall|i: int| 0 <= i < 8 ==> #[trigger] is_lower_hex(first_field(u)[i]),
{
    assert forall|i: int| 0 <= i < 8 implies #[trigger] u[i] != '-' by {
        assert(is_lower_hex(u[i]));
    }
    assert(u[8] == '-');
    lemma_first_hyphen_at(u, 8);
    assert forall|i: int| 0 <= i < 8 implies #[trigger] is_lower_hex(first_field(u)[i]) by {
        assert(first_field(u)[i] == u[i]);
        assert(!is_hyphen_position(i));
    }
}


/// The ids of the models the service serves, as last read from the
/// database.
pub struct Registry {
    models: Vec<String>,
}

impl View for Registry {
    type V = Seq<Seq<char>>;

    closed spec fn view(&self) -> Seq<Seq<char>> {
        self.models@.map_values(|m: String| m@)
    }
}

impl Registry {
    /// A registry with no model.
    pub fn new() -> (r: Self)
        ensures
            r@ == Seq::<Seq<char>>::empty(),
    {
        let r = Registry { models: Vec::new() };
        assert(r@ =~= Seq::<Seq<char>>::empty());
        r
    }

    /// Replaces the registered models with those read from the database.
    pub fn refresh(&mut self, models: Vec<String>)
        ensures
            final(self)@ == models@.map_values(|m: String| m@),
    {
        self.models = models;
    }

    /// The registered models, in the order they were read.
    pub fn snapshot(&self) -> (models: Vec<String>)
        ensures
            models@.map_values(|m: String| m@) == self@,
    {
        let mut out: Vec<String> = Vec::new();
        let mut i: usize = 0;
        while i < self.models.len()
            invariant
                i <= self.models.len(),
                out.len() == i,
                forall|j: int| 0 <= j < i ==> #[trigger] out@[j]@ == self.models@[j]@,
            decreases self.models.len() - i,
        {
            let m = self.models[i].clone();
            out.push(m);
            i = i + 1;
        }
        proof {
            assert(out@.map_values(|m: String| m@) =~= self@);
        }
        out
    }

    /// How many models are registered.
    pub fn len(&self) -> (n: usize)
        ensures
            n == self@.len(),
    {
        self.models.len()
    }
}

/// What a listing gives back of a refresh: after the registry is refreshed
/// with some models, a snapshot lists exactly those models, in order.
pub proof fn lemma_snapshot_after_refresh(models: Seq<String>, refreshed: Seq<Seq<char>>, listed: Seq<String>)
    requires
        refreshed == models.map_values(|m: String| m@),
        listed.map_values(|m: String| m@) == refreshed,
    ensures
        listed.len() == models.len(),
        forall|i: int| 0 <= i < models.len() ==> #[trigger] listed[i]@ == models[i]@,
{
    assert(listed.map_values(|m: String| m@).len() == listed.len());
    assert(models.map_values(|m: String| m@).len() == models.len());
    assert forall|i: int| 0 <= i < models.len() implies #[trigger] listed[i]@ == models[i]@ by {
        assert(listed.map_values(|m: String| m@)[i] == listed[i]@);
        assert(models.map_values(|m: String| m@)[i] == models[i]@);
    }
}

} // verus!
