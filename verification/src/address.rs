//! IPv4 addresses in dotted form.

use crate::number::{decimal, to_decimal};
use vstd::prelude::*;

verus! {

/// Four numbers with dots between them.
pub open spec fn dotted(a: nat, b: nat, c: nat, d: nat) -> Seq<char> {
    decimal(a) + "."@ + decimal(b) + "."@ + decimal(c) + "."@ + decimal(d)
}

/// The byte of a number that `step` stands in front of, counting in steps of 256.
pub open spec fn byte_at(n: u32, step: nat) -> nat {
    (n as nat / step) % 256
}

/// The address whose first number is the highest byte.
pub open spec fn dotted_from_high(n: u32) -> Seq<char> {
    dotted(byte_at(n, 0x100_0000), byte_at(n, 0x1_0000), byte_at(n, 0x100), byte_at(n, 1))
}

/// The address whose first number is the lowest byte.
pub open spec fn dotted_from_low(n: u32) -> Seq<char> {
    dotted(byte_at(n, 1), byte_at(n, 0x100), byte_at(n, 0x1_0000), byte_at(n, 0x100_0000))
}

/// Writes four numbers with dots between them.
fn write_dotted(a: u32, b: u32, c: u32, d: u32) -> (s: String)
    ensures
        s@ == dotted(a as nat, b as nat, c as nat, d as nat),
{
    let mut s = to_decimal(a as u64);
    s.push_str(".");
    s.push_str(to_decimal(b as u64).as_str());
    s.push_str(".");
    s.push_str(to_decimal(c as u64).as_str());
    s.push_str(".");
    s.push_str(to_decimal(d as u64).as_str());
    s
}

/// Writes the address whose first number is the highest byte.
pub fn from_high(n: u32) -> (s: String)
    ensures
        s@ == dotted_from_high(n),
{
    write_dotted((n / 0x100_0000) % 256, (n / 0x1_0000) % 256, (n / 0x100) % 256, n % 256)
}

/// Writes the address whose first number is the lowest byte.
pub fn from_low(n: u32) -> (s: String)
    ensures
        s@ == dotted_from_low(n),
{
    write_dotted(n % 256, (n / 0x100) % 256, (n / 0x1_0000) % 256, (n / 0x100_0000) % 256)
}

} // verus!
