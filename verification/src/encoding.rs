//! DWARF pointer encodings (`DW_EH_PE_*`): a value format in the low
//! nibble, a relative-application base in the high nibble, and an indirect
//! bit that reads the final pointer through memory.

use vstd::prelude::*;
use crate::bytes::{spec_le, read_u16_le, read_u32_le, read_u64_le};
use crate::leb::{spec_uleb, spec_sleb, read_uleb128, read_sleb128};
use crate::mem::Memory;
use vstd::wrapping::u64_specs;

verus! {

/// The encoding that means no value is present.
pub const PE_OMIT: u8 = 0xff;

/// An encoded value's raw bits and the position just past them: the low
/// nibble of `enc` picks the format, signed formats arriving sign-extended
/// as machine words.  `None` on a truncated read or an unsupported format.
pub open spec fn spec_raw_value(data: Seq<u8>, pos: int, enc: u8) -> Option<(u64, int)> {
    let fmt = enc & 0x0f;
    if fmt == 0x00 {
        // Absolute pointer: one machine word.
        if pos + 8 <= data.len() && pos >= 0 {
            Some((spec_le(data, pos, 8) as u64, pos + 8))
        } else {
            None
        }
    } else if fmt == 0x01 {
        match spec_uleb(data, pos) {
            Some((v, e)) => if v < 0x1_0000_0000_0000_0000 {
                Some((v as u64, e))
            } else {
                None
            },
            None => None,
        }
    } else if fmt == 0x02 {
        if pos + 2 <= data.len() && pos >= 0 {
            Some((spec_le(data, pos, 2) as u64, pos + 2))
        } else {
            None
        }
    } else if fmt == 0x03 {
        if pos + 4 <= data.len() && pos >= 0 {
            Some((spec_le(data, pos, 4) as u64, pos + 4))
        } else {
            None
        }
    } else if fmt == 0x04 {
        if pos + 8 <= data.len() && pos >= 0 {
            Some((spec_le(data, pos, 8) as u64, pos + 8))
        } else {
            None
        }
    } else if fmt == 0x09 {
        match spec_sleb(data, pos) {
            Some((v, e)) => if -0x8000_0000_0000_0000 <= v < 0x8000_0000_0000_0000 {
                Some((crate::expr::to_u64_wrap(v as i64), e))
            } else {
                None
            },
            None => None,
        }
    } else if fmt == 0x0a {
        if pos + 2 <= data.len() && pos >= 0 {
            let w = spec_le(data, pos, 2);
            let v: u64 = if w >= 0x8000 {
                (w + 0xffff_ffff_ffff_0000) as u64
            } else {
                w as u64
            };
            Some((v, pos + 2))
        } else {
            None
        }
    } else if fmt == 0x0b {
        if pos + 4 <= data.len() && pos >= 0 {
            let w = spec_le(data, pos, 4);
            let v: u64 = if w >= 0x8000_0000 {
                (w + 0xffff_ffff_0000_0000) as u64
            } else {
                w as u64
            };
            Some((v, pos + 4))
        } else {
            None
        }
    } else if fmt == 0x0c {
        if pos + 8 <= data.len() && pos >= 0 {
            Some((spec_le(data, pos, 8) as u64, pos + 8))
        } else {
            None
        }
    } else {
        None
    }
}

/// The base the high nibble applies: nothing, the encoded bytes' own
/// address, the text-relative base, or the data-relative base.  Other
/// applications are not supported and fault.
pub open spec fn spec_base(enc: u8, here: u64, text_base: u64, data_base: u64) -> Option<u64> {
    let app = enc & 0x70;
    if app == 0x00 {
        Some(0)
    } else if app == 0x10 {
        Some(here)
    } else if app == 0x20 {
        Some(text_base)
    } else if app == 0x30 {
        Some(data_base)
    } else {
        None
    }
}

/// The pointer an encoded value denotes: the raw bits plus the applied
/// base (address arithmetic wraps), read through memory once more when the
/// indirect bit is set.  `here` is the address the encoded bytes
/// themselves sit at.
pub open spec fn spec_encoded_pointer(
    data: Seq<u8>,
    pos: int,
    enc: u8,
    here: u64,
    text_base: u64,
    data_base: u64,
    mem: Memory,
) -> Option<(u64, int)> {
    if enc == PE_OMIT {
        None
    } else {
        match spec_raw_value(data, pos, enc) {
            None => None,
            Some((raw, end)) => match spec_base(enc, here, text_base, data_base) {
                None => None,
                Some(base) => {
                    let addr = u64_specs::wrapping_add(raw, base);
                    if enc & 0x80 != 0 {
                        match mem.spec_read_u64(addr) {
                            Some(v) => Some((v, end)),
                            None => None,
                        }
                    } else {
                        Some((addr, end))
                    }
                },
            },
        }
    }
}

/// Reads the raw bits of an encoded value.
#[verifier::rlimit(60)]
pub fn raw_read(data: &[u8], pos: usize, enc: u8) -> (r: Option<(u64, usize)>)
    ensures
        match spec_raw_value(data@, pos as int, enc) {
            Some((v, e)) => r == Some((v, e as usize)) && pos < e <= data@.len(),
            None => r is None,
        },
{
    let fmt = enc & 0x0f;
    if fmt == 0x00 || fmt == 0x04 || fmt == 0x0c {
        match read_u64_le(data, pos) {
            Some((v, e)) => Some((v, e)),
            None => None,
        }
    } else if fmt == 0x01 {
        read_uleb128(data, pos)
    } else if fmt == 0x02 {
        read_u16_le(data, pos)
    } else if fmt == 0x03 {
        read_u32_le(data, pos)
    } else if fmt == 0x09 {
        match read_sleb128(data, pos) {
            Some((v, e)) => {
                let u: u64 = if v < 0 {
                    (v + 0x7fff_ffff_ffff_ffff + 1) as u64 + 0x8000_0000_0000_0000
                } else {
                    v as u64
                };
                Some((u, e))
            },
            None => None,
        }
    } else if fmt == 0x0a {
        match read_u16_le(data, pos) {
            Some((w, e)) => {
                let v: u64 = if w >= 0x8000 {
                    w + 0xffff_ffff_ffff_0000
                } else {
                    w
                };
                Some((v, e))
            },
            None => None,
        }
    } else if fmt == 0x0b {
        match read_u32_le(data, pos) {
            Some((w, e)) => {
                let v: u64 = if w >= 0x8000_0000 {
                    w + 0xffff_ffff_0000_0000
                } else {
                    w
                };
                Some((v, e))
            },
            None => None,
        }
    } else {
        None
    }
}

/// Skips an encoded value, yielding the position past it.
pub fn raw_skip(data: &[u8], pos: usize, enc: u8) -> (r: Option<usize>)
    ensures
        match spec_raw_value(data@, pos as int, enc) {
            Some((v, e)) => r == Some(e as usize) && pos < e <= data@.len(),
            None => r is None,
        },
{
    match raw_read(data, pos, enc) {
        Some((_v, e)) => Some(e),
        None => None,
    }
}

/// Reads an encoded pointer, honouring the value format, the relative
/// base, and the indirect bit.
pub fn read_encoded_pointer(
    data: &[u8],
    pos: usize,
    enc: u8,
    here: u64,
    text_base: u64,
    data_base: u64,
    mem: &Memory,
) -> (r: Option<(u64, usize)>)
    requires
        mem.wf(),
    ensures
        match spec_encoded_pointer(data@, pos as int, enc, here, text_base, data_base, *mem) {
            Some((v, e)) => r == Some((v, e as usize)) && pos < e <= data@.len(),
            None => r is None,
        },
{
    if enc == PE_OMIT {
        return None;
    }
    let (raw, end) = match raw_read(data, pos, enc) {
        Some(p) => p,
        None => {
            return None;
        },
    };
    let app = enc & 0x70;
    let base: u64 = if app == 0x00 {
        0
    } else if app == 0x10 {
        here
    } else if app == 0x20 {
        text_base
    } else if app == 0x30 {
        data_base
    } else {
        return None;
    };
    let addr = raw.wrapping_add(base);
    if enc & 0x80 != 0 {
        match mem.read_u64(addr) {
            Some(v) => Some((v, end)),
            None => None,
        }
    } else {
        Some((addr, end))
    }
}

} // verus!
