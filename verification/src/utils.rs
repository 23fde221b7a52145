use vstd::prelude::*;

verus! {

/// The smaller of two coordinates.
pub fn min(a: i64, b: i64) -> (r: i64)
    ensures
        r == (if a < b { a } else { b }),
{
    if a < b {
        a
    } else {
        b
    }
}

/// The larger of two coordinates.
pub fn max(a: i64, b: i64) -> (r: i64)
    ensures
        r == (if a < b { b } else { a }),
{
    if a < b {
        b
    } else {
        a
    }
}

} // verus!
