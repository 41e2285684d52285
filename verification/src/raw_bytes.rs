//! Helpers for raw byte buffers.

use vstd::prelude::*;

verus! {

/// Splits at the first NUL: the slice before it, and its position (the
/// whole slice and its length when no NUL occurs).
pub fn split_at_null(bytes: &[u8]) -> (r: (&[u8], usize))
    ensures
        r.1 <= bytes@.len(),
        forall|m: int| 0 <= m < r.1 ==> bytes@[m] != 0,
        r.1 < bytes@.len() ==> bytes@[r.1 as int] == 0,
        r.0@ == bytes@.subrange(0, r.1 as int),
{
    let mut end: usize = 0;
    while end < bytes.len() && bytes[end] != 0
        invariant
            end <= bytes@.len(),
            forall|m: int| 0 <= m < end ==> bytes@[m] != 0,
        decreases bytes@.len() - end,
    {
        end = end + 1;
    }
    (&bytes[0..end], end)
}

} // verus!
