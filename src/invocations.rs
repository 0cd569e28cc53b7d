//! The label that sorts counted invocations by the parity of their argument.
use vstd::prelude::*;

verus! {

pub open spec fn parity_label(i: u64) -> Seq<char> {
    if i % 2 == 0 {
        "even"@
    } else {
        "odd"@
    }
}

/// The value of the `type` label for an invocation with argument `i`.
pub fn invocation_label(i: u64) -> (r: &'static str)
    ensures
        r@ == parity_label(i),
{
    if i % 2 == 0 {
        "even"
    } else {
        "odd"
    }
}

} // verus!
