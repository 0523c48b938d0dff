//! Naming of multiplexer targets.

use vstd::prelude::*;
use crate::text::{decimal, decimal_string, concat3};

verus! {

/// The target that addresses window `index` of session `session`: `session:index`.
pub open spec fn window_target_spec(session: Seq<char>, index: u32) -> Seq<char> {
    session + seq![':'] + decimal(index as nat)
}

/// The target for window `index` of `session`.
pub fn window_target(session: &str, index: u32) -> (r: String)
    ensures
        r@ == window_target_spec(session@, index),
{
    let digits = decimal_string(index as u64);
    proof {
        reveal_strlit(":");
    }
    concat3(session, ":", digits.as_str())
}

} // verus!
