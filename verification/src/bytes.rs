//! Little-endian values out of target memory.
use vstd::prelude::*;

verus! {

/// The 32-bit value at `at`, least significant byte first.
pub open spec fn le32(bytes: Seq<u8>, at: int) -> u32 {
    (bytes[at] + 0x100 * bytes[at + 1] + 0x1_0000 * bytes[at + 2] + 0x100_0000 * bytes[at
        + 3]) as u32
}

/// The 64-bit value at `at`, least significant byte first.
pub open spec fn le64(bytes: Seq<u8>, at: int) -> u64 {
    (le32(bytes, at) + 0x1_0000_0000 * le32(bytes, at + 4)) as u64
}

/// A 32-bit value read as a signed one.
pub open spec fn signed32(value: u32) -> i32 {
    if value < 0x8000_0000 {
        value as i32
    } else {
        (value - 0x1_0000_0000) as i32
    }
}

/// Reads the 32-bit value at `at`.
pub fn read_le32(bytes: &[u8], at: usize) -> (value: u32)
    requires
        at + 4 <= bytes@.len(),
    ensures
        value == le32(bytes@, at as int),
{
    bytes[at] as u32 + 0x100 * (bytes[at + 1] as u32) + 0x1_0000 * (bytes[at + 2] as u32)
        + 0x100_0000 * (bytes[at + 3] as u32)
}

/// Reads the 64-bit value at `at`.
pub fn read_le64(bytes: &[u8], at: usize) -> (value: u64)
    requires
        at + 8 <= bytes@.len(),
    ensures
        value == le64(bytes@, at as int),
{
    let length: usize = bytes.len();
    assert(at + 8 <= length);
    let low: u32 = read_le32(bytes, at);
    let high: u32 = read_le32(bytes, at + 4);
    low as u64 + 0x1_0000_0000 * (high as u64)
}

/// Reads the signed 32-bit value at `at`.
pub fn read_le_i32(bytes: &[u8], at: usize) -> (value: i32)
    requires
        at + 4 <= bytes@.len(),
    ensures
        value == signed32(le32(bytes@, at as int)),
{
    let value: u32 = read_le32(bytes, at);
    if value < 0x8000_0000 {
        value as i32
    } else {
        (value as i64 - 0x1_0000_0000) as i32
    }
}

/// A number's bytes are its digits, the lowest first.
pub proof fn the_lowest_byte_comes_first(bytes: Seq<u8>, at: int)
    ensures
        le32(bytes, at) as int % 0x100 == bytes[at],
        le32(bytes, at) as int / 0x100 % 0x100 == bytes[at + 1],
        le32(bytes, at) as int / 0x1_0000 % 0x100 == bytes[at + 2],
        le32(bytes, at) as int / 0x100_0000 == bytes[at + 3],
        le64(bytes, at) as int % 0x1_0000_0000 == le32(bytes, at),
        le64(bytes, at) as int / 0x1_0000_0000 == le32(bytes, at + 4),
{
}

/// A signed number is the unsigned one of its bytes, or that less two to their bits where its
/// highest bit is set.
pub proof fn the_highest_bit_is_the_sign(value: u32)
    ensures
        signed32(value) == value || signed32(value) == value - 0x1_0000_0000,
        signed32(value) < 0 <==> value >= 0x8000_0000,
        signed32(value) as int % 0x1_0000_0000 == value as int % 0x1_0000_0000,
{
}

} // verus!
