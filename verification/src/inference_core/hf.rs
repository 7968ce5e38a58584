//! Models as sources of generated tokens.

use vstd::prelude::*;

verus! {

/// A sequence of token ids.
pub type Tokens = Vec<u32>;

/// How many tokens the stand-in model produces.
pub const TEMP_MODEL_TOKENS: u32 = 10;

/// A stand-in model that produces the tokens 0, 1, ..., 9 whatever the
/// prompt.
pub struct TempModel;

impl TempModel {
    /// The tokens the stand-in model streams back, in order.
    pub fn stream_tokens(&self) -> (t: Tokens)
        ensures
            t@.len() == TEMP_MODEL_TOKENS,
            forall|i: int| 0 <= i < t@.len() ==> #[trigger] t@[i] == i,
    {
        let mut t: Vec<u32> = Vec::new();
        let mut i: u32 = 0;
        while i < TEMP_MODEL_TOKENS
            invariant
                i <= TEMP_MODEL_TOKENS,
                t@.len() == i,
                forall|j: int| 0 <= j < t@.len() ==> #[trigger] t@[j] == j,
            decreases TEMP_MODEL_TOKENS - i,
        {
            t.push(i);
            i = i + 1;
        }
        t
    }
}

} // verus!
