//! Packing of colour channels into 32-bit pixels and their big-endian layout.

use vstd::prelude::*;
use byteorder::{BigEndian, WriteBytesExt};

verus! {

/// The 32-bit value whose bytes, from the most significant down, are
/// `r`, `g`, `b` and zero.
pub open spec fn rgb_value(r: u8, g: u8, b: u8) -> int {
    r * 0x100_0000 + g * 0x1_0000 + b * 0x100
}

/// The four bytes of `v`, most significant first.
pub open spec fn be_bytes(v: u32) -> Seq<u8> {
    seq![
        ((v >> 24u32) & 0xff) as u8,
        ((v >> 16u32) & 0xff) as u8,
        ((v >> 8u32) & 0xff) as u8,
        (v & 0xff) as u8,
    ]
}

/// Packs three colour channels into one `u32`: red in the top byte, then
/// green, then blue, with the lowest byte left at zero.
pub fn from_rgb(r: u8, g: u8, b: u8) -> (v: u32)
    ensures
        v == rgb_value(r, g, b),
{
    let v = (r as u32) << 24 | (g as u32) << 16 | (b as u32) << 8;
    assert((r as u32) << 24 | (g as u32) << 16 | (b as u32) << 8
        == r * 0x100_0000 + g * 0x1_0000 + b * 0x100) by (bit_vector);
    v
}

/// Written most significant byte first, a packed pixel reads red, green,
/// blue and a zero byte.
pub proof fn lemma_rgb_value_be_bytes(r: u8, g: u8, b: u8)
    ensures
        0 <= rgb_value(r, g, b) <= u32::MAX,
        be_bytes(rgb_value(r, g, b) as u32) == seq![r, g, b, 0u8],
{
    let v = (r * 0x100_0000 + g * 0x1_0000 + b * 0x100) as u32;
    assert(v >> 24u32 & 0xff == r as u32 && v >> 16u32 & 0xff == g as u32 && v >> 8u32 & 0xff
        == b as u32 && v & 0xff == 0) by (bit_vector)
        requires
            v == r * 0x100_0000 + g * 0x1_0000 + b * 0x100,
    ;
    assert(be_bytes(v) =~= seq![r, g, b, 0u8]);
}

/// Calls `WriteBytesExt::write_u32::<BigEndian>` on the tail of `buf` that
/// starts at `pos`. byteorder writes the four bytes of `n`, most significant
/// first, through `Write::write_all`, which for a byte slice with room for
/// them copies them to its front and succeeds.
#[verifier::external_body]
pub(crate) fn write_u32_be(buf: &mut [u8], pos: usize, n: u32)
    requires
        pos + 4 <= old(buf)@.len(),
    ensures
        final(buf)@ == old(buf)@.take(pos as int) + be_bytes(n) + old(buf)@.skip(pos + 4),
{
    let mut tail: &mut [u8] = &mut buf[pos..];
    tail.write_u32::<BigEndian>(n).unwrap();
}

} // verus!
