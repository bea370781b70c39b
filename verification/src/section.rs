//! The record framing of a frame-information section: each record opens
//! with a 32-bit length, and a zero length is the end marker of the table.

use vstd::prelude::*;
use crate::bytes::{spec_le, read_u32_le};

verus! {

/// The byte range of the record body starting at `pos`, or `None` for the
/// end marker, a truncated record, or the unsupported 64-bit length form.
pub open spec fn spec_entry_body(data: Seq<u8>, pos: int) -> Option<(int, int)> {
    if pos < 0 || pos + 4 > data.len() {
        None
    } else {
        let len = spec_le(data, pos, 4);
        if len == 0 || len >= 0xffff_ffff {
            None
        } else if pos + 4 + len <= data.len() {
            Some((pos + 4, pos + 4 + len))
        } else {
            None
        }
    }
}

/// Whether the record at `pos` is the zero-length end marker: an iterator
/// over the table stops here.
pub fn is_end_marker(data: &[u8], pos: usize) -> (r: bool)
    ensures
        r == (pos + 4 <= data@.len() && spec_le(data@, pos as int, 4) == 0),
{
    match read_u32_le(data, pos) {
        Some((len, _)) => len == 0,
        None => false,
    }
}

/// Reads the length header at `pos`, yielding the record's body range.
pub fn entry_body(data: &[u8], pos: usize) -> (r: Option<(usize, usize)>)
    ensures
        r matches Some(p) ==> spec_entry_body(data@, pos as int) == Some((p.0 as int, p.1 as int))
            && pos < p.0 <= p.1 <= data@.len(),
        r is None ==> spec_entry_body(data@, pos as int) is None,
{
    match read_u32_le(data, pos) {
        None => None,
        Some((len, body)) => {
            if len == 0 || len >= 0xffff_ffff {
                None
            } else if len <= (data.len() - body) as u64 {
                Some((body, body + len as usize))
            } else {
                None
            }
        },
    }
}

} // verus!
