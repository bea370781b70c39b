//! Little-endian fixed-width reads out of a byte sequence, as the
//! call-frame information encodes addresses and deltas on this target.

use vstd::prelude::*;

verus! {

/// The `n`-byte little-endian value starting at `pos` (callers keep
/// `pos + n` within the sequence).
pub open spec fn spec_le(data: Seq<u8>, pos: int, n: nat) -> nat
    decreases n,
{
    if n == 0 {
        0
    } else {
        data[pos] as nat + 256 * spec_le(data, pos + 1, (n - 1) as nat)
    }
}

/// `256^n`, the number of values `n` bytes can take.
pub open spec fn pow256(n: nat) -> nat
    decreases n,
{
    if n == 0 {
        1
    } else {
        256 * pow256((n - 1) as nat)
    }
}

/// `n` little-endian bytes never exceed `256^n - 1`.
pub proof fn lemma_le_bound(data: Seq<u8>, pos: int, n: nat)
    ensures
        spec_le(data, pos, n) < pow256(n),
    decreases n,
{
    if n > 0 {
        lemma_le_bound(data, pos + 1, (n - 1) as nat);
    }
}

/// Reads a 2-byte little-endian value.
pub fn read_u16_le(data: &[u8], pos: usize) -> (r: Option<(u64, usize)>)
    ensures
        pos + 2 <= data@.len() ==> r == Some(
            (spec_le(data@, pos as int, 2) as u64, (pos + 2) as usize),
        ),
        pos + 2 > data@.len() ==> r is None,
        r matches Some((v, end)) ==> v < 0x1_0000,
        spec_le(data@, pos as int, 2) < 0x1_0000,
{
    proof {
        reveal_with_fuel(spec_le, 3);
        reveal_with_fuel(pow256, 3);
        lemma_le_bound(data@, pos as int, 2);
    }
    if pos < data.len() && data.len() - pos >= 2 {
        Some((data[pos] as u64 + 256 * (data[pos + 1] as u64), pos + 2))
    } else {
        None
    }
}

/// Reads a 4-byte little-endian value.
pub fn read_u32_le(data: &[u8], pos: usize) -> (r: Option<(u64, usize)>)
    ensures
        pos + 4 <= data@.len() ==> r == Some(
            (spec_le(data@, pos as int, 4) as u64, (pos + 4) as usize),
        ),
        pos + 4 > data@.len() ==> r is None,
        r matches Some((v, end)) ==> v < 0x1_0000_0000,
        spec_le(data@, pos as int, 4) < 0x1_0000_0000,
{
    proof {
        reveal_with_fuel(spec_le, 5);
        reveal_with_fuel(pow256, 5);
        lemma_le_bound(data@, pos as int, 4);
        lemma_le_bound(data@, pos as int + 1, 3);
        lemma_le_bound(data@, pos as int + 2, 2);
        lemma_le_bound(data@, pos as int + 3, 1);
    }
    if pos < data.len() && data.len() - pos >= 4 {
        let b0 = data[pos] as u64;
        let b1 = data[pos + 1] as u64;
        let b2 = data[pos + 2] as u64;
        let b3 = data[pos + 3] as u64;
        Some((b0 + 256 * (b1 + 256 * (b2 + 256 * b3)), pos + 4))
    } else {
        None
    }
}

/// Reads an 8-byte little-endian value.
pub fn read_u64_le(data: &[u8], pos: usize) -> (r: Option<(u64, usize)>)
    ensures
        pos + 8 <= data@.len() ==> r == Some(
            (spec_le(data@, pos as int, 8) as u64, (pos + 8) as usize),
        ),
        pos + 8 > data@.len() ==> r is None,
{
    proof {
        reveal_with_fuel(spec_le, 9);
        reveal_with_fuel(pow256, 9);
        lemma_le_bound(data@, pos as int, 8);
        lemma_le_bound(data@, pos as int + 1, 7);
        lemma_le_bound(data@, pos as int + 2, 6);
        lemma_le_bound(data@, pos as int + 3, 5);
        lemma_le_bound(data@, pos as int + 4, 4);
        lemma_le_bound(data@, pos as int + 5, 3);
        lemma_le_bound(data@, pos as int + 6, 2);
        lemma_le_bound(data@, pos as int + 7, 1);
    }
    if pos < data.len() && data.len() - pos >= 8 {
        let b0 = data[pos] as u64;
        let b1 = data[pos + 1] as u64;
        let b2 = data[pos + 2] as u64;
        let b3 = data[pos + 3] as u64;
        let b4 = data[pos + 4] as u64;
        let b5 = data[pos + 5] as u64;
        let b6 = data[pos + 6] as u64;
        let b7 = data[pos + 7] as u64;
        Some(
            (
                b0 + 256 * (b1 + 256 * (b2 + 256 * (b3 + 256 * (b4 + 256 * (b5 + 256 * (b6 + 256
                    * b7)))))),
                pos + 8,
            ),
        )
    } else {
        None
    }
}

} // verus!
