use vstd::prelude::*;

verus! {

/// The generator polynomial of the CRC-32 that PSI sections carry.
pub const CRC32_POLY: u32 = 0x04C1_1DB7;

/// One step of the bitwise CRC-32 register: shift left, fold in the polynomial
/// when a one fell out.
pub open spec fn crc_shift(c: u32) -> u32 {
    if c & 0x8000_0000u32 != 0 {
        (c << 1u32) ^ 0x04C1_1DB7u32
    } else {
        c << 1u32
    }
}

/// `n` steps of the register.
pub open spec fn crc_shifts(c: u32, n: nat) -> u32
    decreases n,
{
    if n == 0 {
        c
    } else {
        crc_shifts(crc_shift(c), (n - 1) as nat)
    }
}

/// The register after one more byte.
pub open spec fn crc_byte(c: u32, b: u8) -> u32 {
    crc_shifts(c ^ ((b as u32) << 24u32), 8)
}

/// CRC-32/MPEG-2 of `s`: initial value all ones, no reflection, no final xor.
pub open spec fn crc32_of(s: Seq<u8>) -> u32
    decreases s.len(),
{
    if s.len() == 0 {
        0xFFFF_FFFFu32
    } else {
        crc_byte(crc32_of(s.drop_last()), s.last())
    }
}

fn crc_step(c: u32, b: u8) -> (r: u32)
    ensures
        r == crc_byte(c, b),
{
    let mut cur: u32 = c ^ ((b as u32) << 24u32);
    let mut k: u32 = 0;
    while k < 8
        invariant
            k <= 8,
            crc_shifts(cur, (8 - k) as nat) == crc_byte(c, b),
        decreases 8 - k,
    {
        let next: u32 = if cur & 0x8000_0000u32 != 0 {
            (cur << 1u32) ^ CRC32_POLY
        } else {
            cur << 1u32
        };
        assert(next == crc_shift(cur));
        cur = next;
        k = k + 1;
    }
    cur
}

/// Computes the CRC-32/MPEG-2 of `data`. A section followed by its own checksum
/// gives zero.
pub fn crc32(data: &[u8]) -> (r: u32)
    ensures
        r == crc32_of(data@),
{
    let mut c: u32 = 0xFFFF_FFFF;
    let mut i: usize = 0;
    while i < data.len()
        invariant
            i <= data@.len(),
            c == crc32_of(data@.subrange(0, i as int)),
        decreases data@.len() - i,
    {
        proof {
            let next = data@.subrange(0, i + 1);
            assert(next.drop_last() =~= data@.subrange(0, i as int));
        }
        c = crc_step(c, data[i]);
        i = i + 1;
    }
    proof {
        assert(data@.subrange(0, data@.len() as int) =~= data@);
    }
    c
}

} // verus!
