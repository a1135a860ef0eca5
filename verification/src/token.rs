//! Token identifiers.

use vstd::prelude::*;

verus! {

/// The identifier of a token in a model's vocabulary.
#[derive(Clone, Copy, Debug, PartialEq, Eq, Structural)]
pub struct LlamaToken(pub i32);

/// The bare identifiers of a run of tokens.
pub open spec fn token_ids(tokens: Seq<LlamaToken>) -> Seq<i32> {
    Seq::new(tokens.len(), |i: int| tokens[i].0)
}

} // verus!
