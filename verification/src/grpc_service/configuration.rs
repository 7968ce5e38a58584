//! The model registry's records and random registries for testing.

use vstd::prelude::*;

verus! {

/// What a registered model works on.
#[derive(Clone, Copy, Debug, PartialEq, Eq, Structural)]
pub enum ModelType {
    Text,
    Image,
}

/// A registered model.
#[derive(Debug)]
pub struct ModelSpec {
    /// The model's id in the registry.
    pub model_id: String,
    /// What the model works on.
    pub model_type: ModelType,
}

/// Marker for settings read from the environment.
pub struct Settings;

/// Marker for database settings read from the environment.
pub struct DatabaseSettings;

/// Whether `c` is a lower-case hexadecimal digit.
pub open spec fn is_lower_hex(c: char) -> bool {
    ('0' <= c && c <= '9') || ('a' <= c && c <= 'f')
}

/// Where the hyphens of a hyphenated UUID stand.
pub open spec fn is_hyphen_position(i: int) -> bool {
    i == 8 || i == 13 || i == 18 || i == 23
}

/// The hyphenated lower-case text of a random (version 4, RFC 4122 variant)
/// UUID: 32 hex digits in groups of 8, 4, 4, 4 and 12, the version digit
/// `4` and a variant digit among `8`, `9`, `a`, `b`.
pub open spec fn is_uuid_v4_text(s: Seq<char>) -> bool {
    &&& s.len() == 36
    &&& forall|i: int|
        0 <= i < 36 ==> if is_hyphen_position(i) {
            #[trigger] s[i] == '-'
        } else {
            is_lower_hex(s[i])
        }
    &&& s[14] == '4'
    &&& (s[19] == '8' || s[19] == '9' || s[19] == 'a' || s[19] == 'b')
}

/// `uuid::Uuid::new_v4()` written with `to_string()`: a fresh random UUID in
/// its hyphenated lower-case form. Which UUID comes out is left open.
#[verifier::external_body]
pub(crate) fn new_uuid_v4_text() -> (s: String)
    ensures
        is_uuid_v4_text(s@),
{
    uuid::Uuid::new_v4().to_string()
}

/// How many models a random registry holds.
pub const RANDOM_REGISTRY_SIZE: usize = 32;

/// A registry of image models with fresh random ids.
pub fn generate_random_registry() -> (r: Vec<ModelSpec>)
    ensures
        r.len() == RANDOM_REGISTRY_SIZE,
        forall|i: int|
            0 <= i < r.len() ==> #[trigger] r@[i].model_type == ModelType::Image
                && is_uuid_v4_text(r@[i].model_id@),
{
    let mut r: Vec<ModelSpec> = Vec::new();
    let mut i: usize = 0;
    while i < RANDOM_REGISTRY_SIZE
        invariant
            i <= RANDOM_REGISTRY_SIZE,
            r.len() == i,
            forall|j: int|
                0 <= j < r.len() ==> #[trigger] r@[j].model_type == ModelType::Image
                    && is_uuid_v4_text(r@[j].model_id@),
        decreases RANDOM_REGISTRY_SIZE - i,
    {
        r.push(ModelSpec { model_id: new_uuid_v4_text(), model_type: ModelType::Image });
        i = i + 1;
    }
    r
}

} // verus!
