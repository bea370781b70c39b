//! LEB128 decoding, the variable-length integer format DWARF uses
//! throughout the call-frame information.

use vstd::prelude::*;

verus! {

/// Largest recursive-tail value for which a ULEB128 continuation still fits
/// in 64 bits (`(tail * 128 + payload) < 2^64` for every payload).
pub const ULEB_TAIL_MAX: u64 = 0x0200_0000_0000_0000;

/// Unsigned LEB128 value starting at `pos`: `None` on a truncated
/// encoding, otherwise the (unbounded) value and the position just past it.
pub open spec fn spec_uleb(data: Seq<u8>, pos: int) -> Option<(nat, int)>
    decreases data.len() - pos,
{
    if pos < 0 || pos >= data.len() {
        None
    } else if data[pos] < 0x80 {
        Some((data[pos] as nat, pos + 1))
    } else {
        match spec_uleb(data, pos + 1) {
            None => None,
            Some((v, end)) => Some((((data[pos] & 0x7f) as nat + v * 128) as nat, end)),
        }
    }
}

/// Signed LEB128 value starting at `pos`, sign-extended from its final
/// byte: `None` on a truncated encoding.
pub open spec fn spec_sleb(data: Seq<u8>, pos: int) -> Option<(int, int)>
    decreases data.len() - pos,
{
    if pos < 0 || pos >= data.len() {
        None
    } else if data[pos] < 0x80 {
        let low = data[pos] as int;
        if data[pos] & 0x40 != 0 {
            Some((low - 0x80, pos + 1))
        } else {
            Some((low, pos + 1))
        }
    } else {
        match spec_sleb(data, pos + 1) {
            None => None,
            Some((v, end)) => Some(((data[pos] & 0x7f) as int + v * 128, end)),
        }
    }
}

/// A successful spec-level decode ends inside the sequence, past where it
/// began.
pub proof fn lemma_uleb_end(data: Seq<u8>, pos: int)
    ensures
        spec_uleb(data, pos) matches Some((v, end)) ==> pos < end <= data.len(),
    decreases data.len() - pos,
{
    if 0 <= pos < data.len() && data[pos] >= 0x80 {
        lemma_uleb_end(data, pos + 1);
    }
}

/// A successful spec-level decode ends inside the sequence, past where it
/// began.
pub proof fn lemma_sleb_end(data: Seq<u8>, pos: int)
    ensures
        spec_sleb(data, pos) matches Some((v, end)) ==> pos < end <= data.len(),
    decreases data.len() - pos,
{
    if 0 <= pos < data.len() && data[pos] >= 0x80 {
        lemma_sleb_end(data, pos + 1);
    }
}

/// Reads an unsigned LEB128 value.  Returns `None` exactly when the
/// encoding is truncated or its value does not fit in 64 bits.
pub fn read_uleb128(data: &[u8], pos: usize) -> (r: Option<(u64, usize)>)
    ensures
        match spec_uleb(data@, pos as int) {
            Some((v, end)) => if v < 0x1_0000_0000_0000_0000 {
                r == Some((v as u64, end as usize))
            } else {
                r is None
            },
            None => r is None,
        },
        r matches Some((v, end)) ==> pos < end <= data@.len(),
        spec_uleb(data@, pos as int) matches Some((v, end)) ==> pos < end <= data@.len(),
    decreases data@.len() - pos,
{
    proof {
        lemma_uleb_end(data@, pos as int);
    }
    if pos >= data.len() {
        return None;
    }
    let b = data[pos];
    if b < 0x80 {
        Some((b as u64, pos + 1))
    } else {
        match read_uleb128(data, pos + 1) {
            None => None,
            Some((v, end)) => {
                if v < ULEB_TAIL_MAX {
                    proof {
                        assert(b & 0x7f < 0x80) by (bit_vector);
                    }
                    Some(((b & 0x7f) as u64 + v * 128, end))
                } else {
                    proof {
                        let tail = spec_uleb(data@, pos as int + 1).unwrap().0;
                        assert((data@[pos as int] & 0x7f) as nat + tail * 128
                            >= 0x1_0000_0000_0000_0000) by {
                            assert(tail >= ULEB_TAIL_MAX);
                            assert(tail * 128 >= ULEB_TAIL_MAX * 128) by (nonlinear_arith)
                                requires
                                    tail >= ULEB_TAIL_MAX,
                            ;
                        }
                    }
                    None
                }
            },
        }
    }
}

/// Reads a signed LEB128 value.  Returns `None` exactly when the encoding
/// is truncated or its value does not fit in a signed 64-bit word.
pub fn read_sleb128(data: &[u8], pos: usize) -> (r: Option<(i64, usize)>)
    ensures
        match spec_sleb(data@, pos as int) {
            Some((v, end)) => if i64::MIN <= v <= i64::MAX {
                r == Some((v as i64, end as usize))
            } else {
                r is None
            },
            None => r is None,
        },
        r matches Some((v, end)) ==> pos < end <= data@.len(),
        spec_sleb(data@, pos as int) matches Some((v, end)) ==> pos < end <= data@.len(),
    decreases data@.len() - pos,
{
    proof {
        lemma_sleb_end(data@, pos as int);
    }
    if pos >= data.len() {
        return None;
    }
    let b = data[pos];
    if b < 0x80 {
        if b & 0x40 != 0 {
            Some((b as i64 - 0x80, pos + 1))
        } else {
            Some((b as i64, pos + 1))
        }
    } else {
        match read_sleb128(data, pos + 1) {
            None => None,
            Some((v, end)) => {
                if -0x0100_0000_0000_0000 <= v && v < 0x0100_0000_0000_0000 {
                    proof {
                        assert(b & 0x7f < 0x80) by (bit_vector);
                    }
                    Some(((b & 0x7f) as i64 + v * 128, end))
                } else {
                    proof {
                        let tail = spec_sleb(data@, pos as int + 1).unwrap().0;
                        let low = (b & 0x7f) as int;
                        assert(b & 0x7f < 0x80) by (bit_vector);
                        if tail >= 0x0100_0000_0000_0000 {
                            assert(tail * 128 >= 0x0100_0000_0000_0000 * 128) by (nonlinear_arith)
                                requires
                                    tail >= 0x0100_0000_0000_0000,
                            ;
                        } else {
                            assert(tail * 128 <= (-0x0100_0000_0000_0001) * 128)
                                by (nonlinear_arith)
                                requires
                                    tail <= -0x0100_0000_0000_0001,
                            ;
                        }
                    }
                    None
                }
            },
        }
    }
}

} // verus!
