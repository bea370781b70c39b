//! Parsing CIE and FDE records out of raw frame-information bytes: the
//! version and augmentation string of a CIE (`z`, `L`, `P`, `R`, `S`, `B`;
//! any other augmentation without a leading `z` is fatal), the alignment
//! factors and return-address register, and an FDE's encoded addresses and
//! LSDA against its family's declared encodings.  Records carry their
//! instruction bytes; the 32-bit length framing lives in `section`.

use vstd::prelude::*;
use crate::bytes::spec_le;
use crate::encoding::{PE_OMIT, spec_raw_value, spec_encoded_pointer, raw_read, raw_skip,
    read_encoded_pointer};
use crate::entry::{Cie, Fde};
use crate::leb::{spec_uleb, spec_sleb, read_uleb128, read_sleb128};
use crate::mem::Memory;
use crate::section::{spec_entry_body, entry_body};

verus! {

/// A parsed Common Information Entry together with the pointer encodings
/// its augmentation declared for the family's FDEs.
pub struct CieRecord {
    pub cie: Cie,
    /// Encoding of FDE addresses (augmentation `R`); absolute word when
    /// absent.
    pub fde_encoding: u8,
    /// Encoding of the LSDA pointer (augmentation `L`); omitted when
    /// absent.
    pub lsda_encoding: u8,
}

/// The augmentation flags `(personality, lsda encoding, fde encoding,
/// signal frame)` and where their data ends.
pub ghost struct SpecAug {
    pub personality: bool,
    pub lsda_enc: u8,
    pub fde_enc: u8,
    pub signal: bool,
    pub end: int,
}

/// Augmentation characters in `data[spos..send]` applied in order to the
/// augmentation data at `p`.  `L` and `R` take one encoding byte, `P` an
/// encoding byte and the personality pointer itself, `S` and `B` no data;
/// any other character is fatal.
pub open spec fn spec_aug(
    data: Seq<u8>,
    spos: int,
    send: int,
    p: int,
    acc: SpecAug,
) -> Option<SpecAug>
    decreases send - spos,
{
    if spos >= send {
        Some(SpecAug { end: p, ..acc })
    } else {
        let c = data[spos];
        if c == 0x4c {
            if 0 <= p < data.len() {
                spec_aug(data, spos + 1, send, p + 1, SpecAug { lsda_enc: data[p], ..acc })
            } else {
                None
            }
        } else if c == 0x50 {
            if 0 <= p < data.len() {
                match spec_raw_value(data, p + 1, data[p]) {
                    Some((_v, e)) => spec_aug(
                        data,
                        spos + 1,
                        send,
                        e,
                        SpecAug { personality: true, ..acc },
                    ),
                    None => None,
                }
            } else {
                None
            }
        } else if c == 0x52 {
            if 0 <= p < data.len() {
                spec_aug(data, spos + 1, send, p + 1, SpecAug { fde_enc: data[p], ..acc })
            } else {
                None
            }
        } else if c == 0x53 {
            spec_aug(data, spos + 1, send, p, SpecAug { signal: true, ..acc })
        } else if c == 0x42 {
            spec_aug(data, spos + 1, send, p, acc)
        } else {
            None
        }
    }
}

/// First NUL at or after `pos`, short of `limit`.
pub open spec fn spec_find_nul(data: Seq<u8>, pos: int, limit: int) -> Option<int>
    decreases limit - pos,
{
    if pos < 0 || pos >= limit || pos >= data.len() {
        None
    } else if data[pos] == 0 {
        Some(pos)
    } else {
        spec_find_nul(data, pos + 1, limit)
    }
}

/// Applies the augmentation characters.
#[verifier::loop_isolation(false)]
fn apply_aug(data: &[u8], spos: usize, send: usize, p: usize) -> (r: Option<
    (bool, u8, u8, bool, usize),
>)
    requires
        spos <= send <= data@.len(),
        p <= data@.len(),
    ensures
        match spec_aug(
            data@,
            spos as int,
            send as int,
            p as int,
            (SpecAug { personality: false, lsda_enc: PE_OMIT, fde_enc: 0x00, signal: false, end: 0 }),
        ) {
            Some(a) => r == Some((a.personality, a.lsda_enc, a.fde_enc, a.signal, a.end as usize))
                && p <= a.end <= data@.len(),
            None => r is None,
        },
{
    let ghost acc0 = SpecAug {
        personality: false,
        lsda_enc: PE_OMIT,
        fde_enc: 0x00,
        signal: false,
        end: 0,
    };
    let ghost goal = spec_aug(data@, spos as int, send as int, p as int, acc0);
    let mut s: usize = spos;
    let mut q: usize = p;
    let mut personality = false;
    let mut lsda_enc: u8 = PE_OMIT;
    let mut fde_enc: u8 = 0x00;
    let mut signal = false;
    loop
        invariant
            spos <= s <= send,
            p <= q <= data@.len(),
            spec_aug(
                data@,
                s as int,
                send as int,
                q as int,
                (SpecAug { personality, lsda_enc, fde_enc, signal, end: 0 }),
            ) == goal,
        decreases send - s,
    {
        if s >= send {
            return Some((personality, lsda_enc, fde_enc, signal, q));
        }
        let c = data[s];
        if c == 0x4c {
            if q < data.len() {
                lsda_enc = data[q];
                q += 1;
            } else {
                return None;
            }
        } else if c == 0x50 {
            if q < data.len() {
                let enc = data[q];
                match raw_skip(data, q + 1, enc) {
                    Some(e) => {
                        personality = true;
                        q = e;
                    },
                    None => {
                        return None;
                    },
                }
            } else {
                return None;
            }
        } else if c == 0x52 {
            if q < data.len() {
                fde_enc = data[q];
                q += 1;
            } else {
                return None;
            }
        } else if c == 0x53 {
            signal = true;
        } else if c == 0x42 {
        } else {
            return None;
        }
        s += 1;
    }
}

/// Finds the NUL ending the augmentation string.
#[verifier::loop_isolation(false)]
fn find_nul(data: &[u8], pos: usize, limit: usize) -> (r: Option<usize>)
    requires
        pos <= limit <= data@.len(),
    ensures
        match spec_find_nul(data@, pos as int, limit as int) {
            Some(n) => r == Some(n as usize) && pos <= n < limit,
            None => r is None,
        },
{
    let mut n: usize = pos;
    loop
        invariant
            pos <= n <= limit,
            spec_find_nul(data@, n as int, limit as int) == spec_find_nul(
                data@,
                pos as int,
                limit as int,
            ),
        decreases limit - n,
    {
        if n >= limit {
            return None;
        }
        if data[n] == 0 {
            return Some(n);
        }
        n += 1;
    }
}

/// The CIE starting at `pos`, as `parse_cie` reads it: the scalar fields,
/// the encodings its augmentation declared, and the initial-instruction
/// range.  Fatal conditions (`None`): a truncated or terminator record, a
/// non-zero id, an unsupported version, a non-empty augmentation string
/// without the leading `z`, an unknown augmentation character, overrun
/// augmentation data, a zero code-alignment factor, an out-of-range
/// alignment factor, or a return-address register no snapshot carries.
pub open spec fn spec_parse_cie(data: Seq<u8>, pos: int) -> Option<(SpecAug, u64, i64, u16, int, int)> {
    match spec_entry_body(data, pos) {
        None => None,
        Some((body, end)) => {
            if end - body < 5 {
                None
            } else if spec_le(data, body, 4) != 0 {
                None
            } else {
                let version = data[body + 4];
                if version != 1 && version != 3 && version != 4 {
                    None
                } else {
                    match spec_find_nul(data, body + 5, end) {
                        None => None,
                        Some(nul) => spec_parse_cie_tail(data, body, end, version, nul),
                    }
                }
            }
        },
    }
}

/// The remainder of a CIE after its augmentation string: alignment
/// factors, return-address register, augmentation data, and the
/// instruction range `(aug, code_align, data_align, ra, instr_start, end)`.
pub open spec fn spec_parse_cie_tail(data: Seq<u8>, body: int, end: int, version: u8, nul: int) -> Option<
    (SpecAug, u64, i64, u16, int, int),
> {
    let aug_start = body + 5;
    let has_z = nul > aug_start && data[aug_start] == 0x7a;
    if nul > aug_start && !has_z {
        None
    } else if version == 4 && !(nul + 3 <= data.len() && data[nul + 1] == 8 && data[nul + 2]
        == 0) {
        None
    } else {
        let ca_pos: int = if version == 4 {
            nul + 3
        } else {
            nul + 1
        };
        match spec_uleb(data, ca_pos) {
            None => None,
            Some((ca, p1)) => if ca < 1 || ca >= 0x1_0000_0000_0000_0000 {
                None
            } else {
                match spec_sleb(data, p1) {
                    None => None,
                    Some((da, p2)) => if !(-0x8000_0000_0000_0000 <= da < 0x8000_0000_0000_0000) {
                        None
                    } else {
                        let ra_parse: Option<(int, int)> = if version == 1 {
                            if 0 <= p2 < data.len() {
                                Some((data[p2] as int, p2 + 1))
                            } else {
                                None
                            }
                        } else {
                            match spec_uleb(data, p2) {
                                Some((v, e)) => if v < 0x1_0000_0000_0000_0000 {
                                    Some((v as int, e))
                                } else {
                                    None
                                },
                                None => None,
                            }
                        };
                        match ra_parse {
                            None => None,
                            Some((ra, p3)) => if !(0 <= ra < crate::arch::ADDRESSABLE_REGS) {
                                None
                            } else if !has_z {
                                if p3 <= end {
                                    Some(
                                        (
                                            (SpecAug {
                                                personality: false,
                                                lsda_enc: PE_OMIT,
                                                fde_enc: 0x00,
                                                signal: false,
                                                end: p3,
                                            }),
                                            ca as u64,
                                            da as i64,
                                            ra as u16,
                                            p3,
                                            end,
                                        ),
                                    )
                                } else {
                                    None
                                }
                            } else {
                                match spec_uleb(data, p3) {
                                    None => None,
                                    Some((auglen, p4)) => if p4 + auglen > end {
                                        None
                                    } else {
                                        match spec_aug(
                                            data,
                                            aug_start + 1,
                                            nul,
                                            p4,
                                            (SpecAug {
                                                personality: false,
                                                lsda_enc: PE_OMIT,
                                                fde_enc: 0x00,
                                                signal: false,
                                                end: 0,
                                            }),
                                        ) {
                                            None => None,
                                            Some(a) => if a.end > p4 + auglen {
                                                None
                                            } else {
                                                Some(
                                                    (
                                                        a,
                                                        ca as u64,
                                                        da as i64,
                                                        ra as u16,
                                                        p4 + auglen,
                                                        end,
                                                    ),
                                                )
                                            },
                                        }
                                    },
                                }
                            },
                        }
                    },
                }
            },
        }
    }
}

/// Copies `data[a..b]` into an owned vector.
#[verifier::loop_isolation(false)]
fn copy_range(data: &[u8], a: usize, b: usize) -> (r: Vec<u8>)
    requires
        a <= b <= data@.len(),
    ensures
        r@ == data@.subrange(a as int, b as int),
{
    let mut v: Vec<u8> = Vec::new();
    let mut i: usize = a;
    while i < b
        invariant
            a <= i <= b,
            v@.len() == i - a,
            forall|t: int| 0 <= t < v@.len() ==> v@[t] == data@[a + t],
        decreases b - i,
    {
        v.push(data[i]);
        i += 1;
    }
    proof {
        assert(v@ =~= data@.subrange(a as int, b as int));
    }
    v
}

/// Parses the CIE at `pos` and returns its record and the position past
/// it, per `spec_parse_cie`.
#[verifier::rlimit(100)]
#[verifier::spinoff_prover]
pub fn parse_cie(data: &[u8], pos: usize) -> (r: Option<(CieRecord, usize)>)
    ensures
        match spec_parse_cie(data@, pos as int) {
            Some((aug, ca, da, ra, istart, e)) => r matches Some((rec, next)) && next == e
                && rec.cie.code_align == ca && rec.cie.data_align == da && rec.cie.ra_register
                == ra && rec.cie.signal_frame == aug.signal && rec.cie.has_personality
                == aug.personality && rec.fde_encoding == aug.fde_enc && rec.lsda_encoding
                == aug.lsda_enc && rec.cie.instructions@ == data@.subrange(istart, e)
                && rec.cie.wf(),
            None => r is None,
        },
{
    let (body, end) = match entry_body(data, pos) {
        Some(p) => p,
        None => {
            return None;
        },
    };
    if end - body < 5 {
        return None;
    }
    let (id, _) = match crate::bytes::read_u32_le(data, body) {
        Some(p) => p,
        None => {
            return None;
        },
    };
    if id != 0 {
        return None;
    }
    let version = data[body + 4];
    if version != 1 && version != 3 && version != 4 {
        return None;
    }
    let aug_start = body + 5;
    let nul = match find_nul(data, aug_start, end) {
        Some(n) => n,
        None => {
            return None;
        },
    };
    let has_z = nul > aug_start && data[aug_start] == 0x7a;
    if nul > aug_start && !has_z {
        return None;
    }
    // A version-4 CIE carries the address and segment sizes; only the
    // machine word and a flat address space are supported.
    let ca_pos: usize = if version == 4 {
        if data.len() - nul >= 3 && data[nul + 1] == 8 && data[nul + 2] == 0 {
            nul + 3
        } else {
            return None;
        }
    } else {
        nul + 1
    };
    let (ca, p1) = match read_uleb128(data, ca_pos) {
        Some(p) => p,
        None => {
            return None;
        },
    };
    if ca < 1 {
        return None;
    }
    let (da, p2) = match read_sleb128(data, p1) {
        Some(p) => p,
        None => {
            return None;
        },
    };
    let (ra, p3): (u64, usize) = if version == 1 {
        if p2 < data.len() {
            (data[p2] as u64, p2 + 1)
        } else {
            return None;
        }
    } else {
        match read_uleb128(data, p2) {
            Some(p) => p,
            None => {
                return None;
            },
        }
    };
    if ra >= crate::arch::ADDRESSABLE_REGS as u64 {
        return None;
    }
    if !has_z {
        if p3 > end {
            return None;
        }
        let instructions = copy_range(data, p3, end);
        return Some(
            (
                CieRecord {
                    cie: Cie {
                        code_align: ca,
                        data_align: da,
                        ra_register: ra as u16,
                        signal_frame: false,
                        has_personality: false,
                        instructions,
                    },
                    fde_encoding: 0x00,
                    lsda_encoding: PE_OMIT,
                },
                end,
            ),
        );
    }
    let (auglen, p4) = match read_uleb128(data, p3) {
        Some(p) => p,
        None => {
            return None;
        },
    };
    if p4 > end || auglen > (end - p4) as u64 {
        return None;
    }
    let aug_end = p4 + auglen as usize;
    let (personality, lsda_enc, fde_enc, signal, consumed) = match apply_aug(
        data,
        aug_start + 1,
        nul,
        p4,
    ) {
        Some(a) => a,
        None => {
            return None;
        },
    };
    if consumed > aug_end {
        return None;
    }
    let instructions = copy_range(data, aug_end, end);
    Some(
        (
            CieRecord {
                cie: Cie {
                    code_align: ca,
                    data_align: da,
                    ra_register: ra as u16,
                    signal_frame: signal,
                    has_personality: personality,
                    instructions,
                },
                fde_encoding: fde_enc,
                lsda_encoding: lsda_enc,
            },
            end,
        ),
    )
}

/// The FDE starting at `pos` against its family's encodings:
/// `(initial_location, address_range, lsda, instr_start, end)`.  The
/// covered range's start is read with the declared FDE encoding — `here`
/// being the field's own address, `section_base + field position` — its
/// length with that encoding's value format alone, and the LSDA with the
/// `L` encoding when one was declared.
pub open spec fn spec_parse_fde(
    data: Seq<u8>,
    pos: int,
    fde_enc: u8,
    lsda_enc: u8,
    section_base: u64,
    mem: Memory,
) -> Option<(u64, u64, u64, int, int)> {
    match spec_entry_body(data, pos) {
        None => None,
        Some((body, end)) => {
            if end - body < 4 || spec_le(data, body, 4) == 0 {
                None
            } else {
                match spec_encoded_pointer(
                    data,
                    body + 4,
                    fde_enc,
                    ((section_base + body + 4) % 0x1_0000_0000_0000_0000) as u64,
                    0,
                    0,
                    mem,
                ) {
                    None => None,
                    Some((initial, p1)) => match spec_raw_value(data, p1, fde_enc & 0x0f) {
                        None => None,
                        Some((range, p2)) => match spec_uleb(data, p2) {
                            None => None,
                            Some((auglen, p3)) => if p3 + auglen > end {
                                None
                            } else if lsda_enc == PE_OMIT {
                                Some((initial, range, 0, p3 + auglen, end))
                            } else {
                                match spec_encoded_pointer(
                                    data,
                                    p3,
                                    lsda_enc,
                                    ((section_base + p3) % 0x1_0000_0000_0000_0000) as u64,
                                    0,
                                    0,
                                    mem,
                                ) {
                                    Some((l, p4)) => if p4 <= p3 + auglen {
                                        Some((initial, range, l, p3 + auglen, end))
                                    } else {
                                        None
                                    },
                                    None => None,
                                }
                            },
                        },
                    },
                }
            }
        },
    }
}

/// Parses the FDE at `pos` against its family's record; the returned FDE
/// carries a zero CIE index for the caller to fix to the family's slot.
#[verifier::rlimit(100)]
#[verifier::spinoff_prover]
pub fn parse_fde(data: &[u8], pos: usize, rec: &CieRecord, section_base: u64, mem: &Memory) -> (r:
    Option<(Fde, usize)>)
    requires
        mem.wf(),
        section_base + data@.len() <= 0xffff_ffff_ffff_ffff,
    ensures
        match spec_parse_fde(
            data@,
            pos as int,
            rec.fde_encoding,
            rec.lsda_encoding,
            section_base,
            *mem,
        ) {
            Some((initial, range, lsda, istart, e)) => r matches Some((fde, next)) && next == e
                && fde.initial_location == initial && fde.address_range == range && fde.lsda
                == lsda && fde.cie_index == 0 && fde.instructions@ == data@.subrange(istart, e),
            None => r is None,
        },
{
    let data_len = data.len();
    proof {
        assert(data@.len() == data_len as int);
    }
    let (body, end) = match entry_body(data, pos) {
        Some(p) => p,
        None => {
            return None;
        },
    };
    if end - body < 4 {
        return None;
    }
    let (id, _) = match crate::bytes::read_u32_le(data, body) {
        Some(p) => p,
        None => {
            return None;
        },
    };
    if id == 0 {
        return None;
    }
    let here = section_base + (body as u64 + 4);
    proof {
        assert(here == ((section_base + body + 4) % 0x1_0000_0000_0000_0000) as u64);
    }
    let (initial, p1) = match read_encoded_pointer(
        data,
        body + 4,
        rec.fde_encoding,
        here,
        0,
        0,
        mem,
    ) {
        Some(p) => p,
        None => {
            return None;
        },
    };
    let (range, p2) = match raw_read(data, p1, rec.fde_encoding & 0x0f) {
        Some(p) => p,
        None => {
            return None;
        },
    };
    let (auglen, p3) = match read_uleb128(data, p2) {
        Some(p) => p,
        None => {
            return None;
        },
    };
    if p3 > end || auglen > (end - p3) as u64 {
        return None;
    }
    let instr_start = p3 + auglen as usize;
    let lsda: u64 = if rec.lsda_encoding == PE_OMIT {
        0
    } else {
        let lhere = section_base + p3 as u64;
        proof {
            assert(lhere == ((section_base + p3) % 0x1_0000_0000_0000_0000) as u64);
        }
        match read_encoded_pointer(data, p3, rec.lsda_encoding, lhere, 0, 0, mem) {
            Some((l, p4)) => {
                if p4 <= instr_start {
                    l
                } else {
                    return None;
                }
            },
            None => {
                return None;
            },
        }
    };
    let instructions = copy_range(data, instr_start, end);
    Some(
        (
            Fde {
                cie_index: 0,
                initial_location: initial,
                address_range: range,
                lsda,
                instructions,
            },
            end,
        ),
    )
}

} // verus!
