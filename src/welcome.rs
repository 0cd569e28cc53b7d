//! The greeting a newcomer answers with.
use vstd::prelude::*;

verus! {

pub fn greeting() -> (r: &'static str)
    ensures
        r@ == "I'm ready to go!"@,
{
    "I'm ready to go!"
}

} // verus!
