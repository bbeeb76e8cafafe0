//! Bounds-checked little-endian reads out of a raw byte buffer, plus the
//! small helpers for copying ranges and turning ASCII bytes into strings.

use vstd::bytes::{spec_u16_from_le_bytes, spec_u32_from_le_bytes, u16_from_le_bytes,
    u32_from_le_bytes};
use vstd::prelude::*;
use vstd::slice::slice_subrange;

verus! {

/// The little-endian 16-bit value stored at byte offset `i` of `s`.
pub open spec fn le16_at(s: Seq<u8>, i: int) -> u16
    recommends
        0 <= i,
        i + 2 <= s.len(),
{
    spec_u16_from_le_bytes(s.subrange(i, i + 2))
}

/// The little-endian 32-bit value stored at byte offset `i` of `s`.
pub open spec fn le32_at(s: Seq<u8>, i: int) -> u32
    recommends
        0 <= i,
        i + 4 <= s.len(),
{
    spec_u32_from_le_bytes(s.subrange(i, i + 4))
}

/// Reads the little-endian 16-bit value at byte offset `off`.
pub fn read_u16_at(image: &Vec<u8>, off: usize) -> (r: u16)
    requires
        off + 2 <= image@.len(),
    ensures
        r == le16_at(image@, off as int),
{
    let _n = image.len();
    u16_from_le_bytes(slice_subrange(image.as_slice(), off, off + 2))
}

/// Reads the little-endian 32-bit value at byte offset `off`.
pub fn read_u32_at(image: &Vec<u8>, off: usize) -> (r: u32)
    requires
        off + 4 <= image@.len(),
    ensures
        r == le32_at(image@, off as int),
{
    let _n = image.len();
    u32_from_le_bytes(slice_subrange(image.as_slice(), off, off + 4))
}

/// Copies `image[start..end)` into a fresh vector.
pub fn copy_range(image: &Vec<u8>, start: usize, end: usize) -> (r: Vec<u8>)
    requires
        start <= end,
        end <= image@.len(),
    ensures
        r@ == image@.subrange(start as int, end as int),
{
    let mut out: Vec<u8> = Vec::new();
    let mut i: usize = start;
    while i < end
        invariant
            start <= i <= end,
            end <= image@.len(),
            out@ == image@.subrange(start as int, i as int),
        decreases end - i,
    {
        out.push(image[i]);
        i = i + 1;
        proof {
            assert(out@ =~= image@.subrange(start as int, i as int));
        }
    }
    out
}

/// The characters a byte sequence stands for, one character per byte, each
/// with the byte's own code.
pub open spec fn ascii_view(b: Seq<u8>) -> Seq<char> {
    Seq::new(b.len(), |i: int| b[i] as char)
}

/// Relies on `String::from_utf8_lossy`: a buffer of bytes below 0x80 is valid
/// UTF-8 and decodes to the characters with the same codes.
#[verifier::external_body]
pub fn ascii_to_string(b: &Vec<u8>) -> (r: String)
    requires
        forall|i: int| 0 <= i < b@.len() ==> b@[i] < 0x80,
    ensures
        r@ == ascii_view(b@),
{
    String::from_utf8_lossy(b.as_slice()).into_owned()
}

} // verus!
