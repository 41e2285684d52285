//! A window view into a byte buffer: the verified core of the
//! position-tracked reader.

use vstd::prelude::*;

verus! {

/// The `len`-byte window of `data` at `pos`; fails when the window would
/// reach past the end.
pub fn cast_at(data: &[u8], pos: usize, len: usize) -> (r: Option<&[u8]>)
    ensures
        r is Some <==> pos + len <= data@.len(),
        r matches Some(w) ==> w@ == data@.subrange(pos as int, pos + len),
{
    if pos <= data.len() && len <= data.len() - pos {
        Some(&data[pos..pos + len])
    } else {
        None
    }
}

} // verus!
