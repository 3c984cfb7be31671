//! The size of a PNG image, read from its header.
use vstd::prelude::*;

verus! {

/// The big-endian number held by the four bytes of `b` from `i` on.
pub open spec fn be_u32(b: Seq<u8>, i: int) -> int {
    b[i] * 0x100_0000 + b[i + 1] * 0x1_0000 + b[i + 2] * 0x100 + b[i + 3]
}

/// Whether bytes start like a PNG file: long enough to hold the header
/// chunk, and with `PNG` in the signature's second to fourth bytes.
pub open spec fn png_header_ok(b: Seq<u8>) -> bool {
    &&& b.len() >= 24
    &&& b[1] == 0x50u8
    &&& b[2] == 0x4eu8
    &&& b[3] == 0x47u8
}

fn be_u32_at(b: &[u8], i: usize) -> (r: u32)
    requires
        i + 4 <= b@.len(),
    ensures
        r == be_u32(b@, i as int),
{
    (b[i] as u32) * 0x100_0000 + (b[i + 1] as u32) * 0x1_0000 + (b[i + 2] as u32) * 0x100 + (b[i + 3] as u32)
}

/// The width and height of a PNG image: the header chunk that follows the
/// signature holds them, big-endian, in bytes 16 to 23. `None` for bytes
/// that do not start like a PNG file.
pub fn png_size(bytes: &[u8]) -> (r: Option<(u32, u32)>)
    ensures
        r is Some <==> png_header_ok(bytes@),
        r matches Some((w, h)) ==> w == be_u32(bytes@, 16) && h == be_u32(bytes@, 20),
{
    if bytes.len() < 24 || bytes[1] != 0x50u8 || bytes[2] != 0x4eu8 || bytes[3] != 0x47u8 {
        return None;
    }
    Some((be_u32_at(bytes, 16), be_u32_at(bytes, 20)))
}

} // verus!
