//! System instruction encoders.

use vstd::prelude::*;
use crate::encode::{EncodedInst, plain};

verus! {

/// The NOP instruction word.
pub open spec fn nop_word() -> u32 {
    0xD503_201F
}

/// Encode NOP: `0xD503201F`.
pub fn encode_nop() -> (r: EncodedInst)
    ensures
        r@ == plain(nop_word()),
{
    EncodedInst::new(0xD503_201F)
}

} // verus!
