//! Byte layout of table entries.
//!
//! Keys and values cross the system-call boundary as raw bytes.  Every
//! multi-byte field of a redirect-table entry is a 32-bit word stored
//! least-significant byte first, matching the layout the kernel and the
//! restricted program agree on for a little-endian host.
//!
//! An entry that can chain a program is two words: the payload (a queue
//! size or a target device index) followed by the chained-program field.
//! The second word is direction-dependent: written as a process-local
//! program handle (zero or, reinterpreted as a signed word, a negative
//! number means "none"), read back as the global program identifier the
//! kernel normalized it to.

use vstd::prelude::*;

verus! {

/// The little-endian bytes of `x`.
pub open spec fn u32_le(x: u32) -> Seq<u8> {
    seq![
        (x % 0x100) as u8,
        ((x / 0x100) % 0x100) as u8,
        ((x / 0x10000) % 0x100) as u8,
        ((x / 0x1000000) % 0x100) as u8,
    ]
}

/// The 32-bit word stored least-significant byte first in `s`.
pub open spec fn le_u32(s: Seq<u8>) -> u32
    recommends
        s.len() == 4,
{
    (s[0] + s[1] * 0x100 + s[2] * 0x10000 + s[3] * 0x1000000) as u32
}

/// The two-word layout of an entry that carries a chained-program field:
/// the payload word, then the program field.
pub open spec fn two_u32_le(payload: u32, program_field: u32) -> Seq<u8> {
    u32_le(payload) + u32_le(program_field)
}

/// Decoding the four little-endian bytes of a word yields the word back.
pub proof fn lemma_le_u32_of_u32_le(x: u32)
    ensures
        le_u32(u32_le(x)) == x,
{
    assert(x % 0x100 + ((x / 0x100) % 0x100) * 0x100 + ((x / 0x10000) % 0x100) * 0x10000 + ((x
        / 0x1000000) % 0x100) * 0x1000000 == x) by (bit_vector);
}

/// The two words of a chained-capable entry sit in its first and second
/// four bytes.
pub proof fn lemma_two_u32_le_parts(payload: u32, program_field: u32)
    ensures
        two_u32_le(payload, program_field).len() == 8,
        two_u32_le(payload, program_field).subrange(0, 4) == u32_le(payload),
        two_u32_le(payload, program_field).subrange(4, 8) == u32_le(program_field),
{
    assert(two_u32_le(payload, program_field).subrange(0, 4) =~= u32_le(payload));
    assert(two_u32_le(payload, program_field).subrange(4, 8) =~= u32_le(program_field));
}

/// Encodes `x` as its four little-endian bytes.
pub fn u32_to_le(x: u32) -> (r: Vec<u8>)
    ensures
        r@ == u32_le(x),
{
    let mut r: Vec<u8> = Vec::new();
    r.push((x % 0x100) as u8);
    r.push(((x / 0x100) % 0x100) as u8);
    r.push(((x / 0x10000) % 0x100) as u8);
    r.push(((x / 0x1000000) % 0x100) as u8);
    proof {
        assert(r@ =~= u32_le(x));
    }
    r
}

/// Encodes a two-word entry as its eight little-endian bytes.
pub fn two_u32_to_le(payload: u32, program_field: u32) -> (r: Vec<u8>)
    ensures
        r@ == two_u32_le(payload, program_field),
{
    let mut r = u32_to_le(payload);
    let mut second = u32_to_le(program_field);
    r.append(&mut second);
    r
}

/// Decodes the word stored least-significant byte first at offset `off`.
pub fn le_to_u32_at(b: &Vec<u8>, off: usize) -> (r: u32)
    requires
        off + 4 <= b.len(),
    ensures
        r == le_u32(b@.subrange(off as int, off as int + 4)),
{
    let b0: u32 = b[off] as u32;
    let b1: u32 = b[off + 1] as u32;
    let b2: u32 = b[off + 2] as u32;
    let b3: u32 = b[off + 3] as u32;
    b0 + b1 * 0x100 + b2 * 0x10000 + b3 * 0x1000000
}

} // verus!
