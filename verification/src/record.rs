//! Numbers and fixed fields in a record of bytes, least significant byte first.

use vstd::prelude::*;

verus! {

/// The two-byte number that starts at `at`.
pub open spec fn u16_at(bytes: Seq<u8>, at: int) -> int {
    bytes[at] as int + 0x100 * bytes[at + 1] as int
}

/// The four-byte number that starts at `at`.
pub open spec fn u32_at(bytes: Seq<u8>, at: int) -> int {
    u16_at(bytes, at) + 0x1_0000 * u16_at(bytes, at + 2)
}

/// The eight-byte number that starts at `at`.
pub open spec fn u64_at(bytes: Seq<u8>, at: int) -> int {
    u32_at(bytes, at) + 0x1_0000_0000 * u32_at(bytes, at + 4)
}

/// The signed four-byte number that starts at `at`, in two's complement.
pub open spec fn i32_at(bytes: Seq<u8>, at: int) -> int {
    let n = u32_at(bytes, at);
    if n < 0x8000_0000 {
        n
    } else {
        n - 0x1_0000_0000
    }
}

/// Reads a two-byte number.
pub fn read_u16(bytes: &[u8], at: usize) -> (n: u16)
    requires
        at + 2 <= bytes.len(),
    ensures
        n == u16_at(bytes@, at as int),
{
    bytes[at] as u16 + 0x100 * (bytes[at + 1] as u16)
}

/// Reads a four-byte number.
pub fn read_u32(bytes: &[u8], at: usize) -> (n: u32)
    requires
        at + 4 <= bytes.len(),
    ensures
        n == u32_at(bytes@, at as int),
{
    read_u16(bytes, at) as u32 + 0x1_0000 * (read_u16(bytes, at + 2) as u32)
}

/// Reads an eight-byte number.
pub fn read_u64(bytes: &[u8], at: usize) -> (n: u64)
    requires
        at + 8 <= bytes.len(),
    ensures
        n == u64_at(bytes@, at as int),
{
    read_u32(bytes, at) as u64 + 0x1_0000_0000 * (read_u32(bytes, at + 4) as u64)
}

/// Reads a signed four-byte number.
pub fn read_i32(bytes: &[u8], at: usize) -> (n: i32)
    requires
        at + 4 <= bytes.len(),
    ensures
        n == i32_at(bytes@, at as int),
{
    let n = read_u32(bytes, at);
    if n < 0x8000_0000 {
        n as i32
    } else {
        (n as i64 - 0x1_0000_0000) as i32
    }
}

/// Reads a field of 256 bytes.
pub fn read_256(bytes: &[u8], at: usize) -> (field: [u8; 256])
    requires
        at + 256 <= bytes.len(),
    ensures
        field@ == bytes@.subrange(at as int, at + 256),
{
    let mut field = [0u8;256];
    for i in 0..256usize
        invariant
            at + 256 <= bytes.len(),
            forall|k: int| 0 <= k < i ==> field@[k] == bytes@[at + k],
    {
        field[i] = bytes[at + i];
    }
    assert(field@ =~= bytes@.subrange(at as int, at + 256));
    field
}

/// Reads a field of 128 bytes.
pub fn read_128(bytes: &[u8], at: usize) -> (field: [u8; 128])
    requires
        at + 128 <= bytes.len(),
    ensures
        field@ == bytes@.subrange(at as int, at + 128),
{
    let mut field = [0u8;128];
    for i in 0..128usize
        invariant
            at + 128 <= bytes.len(),
            forall|k: int| 0 <= k < i ==> field@[k] == bytes@[at + k],
    {
        field[i] = bytes[at + i];
    }
    assert(field@ =~= bytes@.subrange(at as int, at + 128));
    field
}

} // verus!
