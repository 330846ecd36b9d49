//! CRC-32 with the reflected polynomial 0xEDB88320, initial value
//! 0xFFFFFFFF and a final complement, computed bit by bit.

use vstd::prelude::*;
use crate::le::{read_u32, u32_at};

verus! {

/// The reflected CRC-32 polynomial.
pub const CRC_POLY: u32 = 0xEDB8_8320;

/// One step of the shift register: the lowest bit leaves, and the
/// polynomial is added if that bit was set.
pub open spec fn crc_shift(x: u32) -> u32 {
    if x & 1 == 1 {
        (x >> 1) ^ CRC_POLY
    } else {
        x >> 1
    }
}

/// `n` steps of the shift register.
pub open spec fn crc_shift_n(x: u32, n: nat) -> u32
    decreases n,
{
    if n == 0 {
        x
    } else {
        crc_shift(crc_shift_n(x, (n - 1) as nat))
    }
}

/// The register after one more message byte.
pub open spec fn crc_update(crc: u32, b: u8) -> u32 {
    (crc >> 8) ^ crc_shift_n((crc ^ (b as u32)) & 0xFF, 8)
}

/// The register after all of `bytes`, starting from 0xFFFFFFFF.
pub open spec fn crc_register(bytes: Seq<u8>) -> u32
    decreases bytes.len(),
{
    if bytes.len() == 0 {
        0xFFFF_FFFFu32
    } else {
        crc_update(crc_register(bytes.drop_last()), bytes.last())
    }
}

/// The CRC-32 of `bytes`.
pub open spec fn crc32_of(bytes: Seq<u8>) -> u32 {
    !crc_register(bytes)
}

/// `bytes` with the four bytes of the header's checksum field set to zero.
pub open spec fn zero_crc_field(bytes: Seq<u8>) -> Seq<u8> {
    Seq::new(bytes.len(), |i: int| if 32 <= i < 36 { 0u8 } else { bytes[i] })
}

/// Whether the checksum stored in the header of `bytes` is the CRC-32 of the
/// whole image taken with that field zeroed.
pub open spec fn crc_verifies(bytes: Seq<u8>) -> bool {
    bytes.len() >= 36 && u32_at(bytes, 32) == crc32_of(zero_crc_field(bytes))
}

/// Feeds one byte to the shift register.
fn update(crc: u32, b: u8) -> (next: u32)
    ensures
        next == crc_update(crc, b),
{
    let mut x: u32 = (crc ^ (b as u32)) & 0xFF;
    let ghost x0 = x;
    let mut k: u32 = 0;
    while k < 8
        invariant
            k <= 8,
            x == crc_shift_n(x0, k as nat),
        decreases 8 - k,
    {
        x = if x & 1 == 1 { (x >> 1) ^ CRC_POLY } else { x >> 1 };
        k = k + 1;
    }
    (crc >> 8) ^ x
}

/// Computes the CRC-32 of `bytes`.
pub fn crc32(bytes: &[u8]) -> (crc: u32)
    ensures
        crc == crc32_of(bytes@),
{
    let mut reg: u32 = 0xFFFF_FFFF;
    let mut i: usize = 0;
    while i < bytes.len()
        invariant
            i <= bytes.len(),
            reg == crc_register(bytes@.subrange(0, i as int)),
        decreases bytes.len() - i,
    {
        reg = update(reg, bytes[i]);
        proof {
            let next = bytes@.subrange(0, i + 1);
            assert(next.drop_last() =~= bytes@.subrange(0, i as int));
        }
        i = i + 1;
    }
    assert(bytes@.subrange(0, i as int) =~= bytes@);
    !reg
}

/// Computes the checksum that the header of `image` should hold: the CRC-32
/// of the image with the checksum field taken as zero.
pub fn image_crc32(image: &[u8]) -> (crc: u32)
    ensures
        crc == crc32_of(zero_crc_field(image@)),
{
    let ghost z = zero_crc_field(image@);
    let mut reg: u32 = 0xFFFF_FFFF;
    let mut i: usize = 0;
    while i < image.len()
        invariant
            i <= image.len(),
            z == zero_crc_field(image@),
            reg == crc_register(z.subrange(0, i as int)),
        decreases image.len() - i,
    {
        let b: u8 = if 32 <= i && i < 36 { 0 } else { image[i] };
        reg = update(reg, b);
        proof {
            let next = z.subrange(0, i + 1);
            assert(next.drop_last() =~= z.subrange(0, i as int));
        }
        i = i + 1;
    }
    assert(z.subrange(0, i as int) =~= z);
    !reg
}

/// Checks the checksum stored in the header of `image`.
pub fn verify_image_crc(image: &[u8]) -> (ok: bool)
    ensures
        ok == crc_verifies(image@),
{
    if image.len() < 36 {
        return false;
    }
    read_u32(image, 32) == image_crc32(image)
}

} // verus!
