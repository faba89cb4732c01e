use vstd::prelude::*;

verus! {

/// Token counts as a provider reports them. The library relays them unchanged.
#[derive(Clone, Copy, Debug, PartialEq, Eq, Structural)]
pub struct Usage {
    pub prompt_tokens: i32,
    pub completion_tokens: i32,
    pub total_tokens: i32,
}

} // verus!
