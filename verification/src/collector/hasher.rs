//! SHA-256 of files.

use crate::number::{decimal, digit_value, is_digit, to_decimal};
use sha2::{Digest, Sha256};
use vstd::prelude::*;

verus! {

/// The largest file that is hashed, 50 MiB.
pub const MAX_HASH_SIZE: u64 = 52_428_800;

/// The 32 bytes that `Sha256::digest` gives for data.
pub uninterp spec fn sha256(data: Seq<u8>) -> Seq<u8>;

/// `Sha256::digest`. The contract names the bytes, and claims that there are 32.
#[verifier::external_body]
fn digest(data: &[u8]) -> (hash: Vec<u8>)
    ensures
        hash@ == sha256(data@),
        hash@.len() == 32,
{
    Sha256::digest(data).to_vec()
}

/// The hexadecimal digit, in small letters, of a number below sixteen.
pub open spec fn hex_digit(d: int) -> char {
    if d < 10 {
        (48 + d) as char
    } else {
        (87 + d) as char
    }
}

/// Two hexadecimal digits for each byte.
pub open spec fn hex_text(data: Seq<u8>) -> Seq<char> {
    Seq::new(
        data.len() * 2,
        |i: int|
            if i % 2 == 0 {
                hex_digit(data[i / 2] as int / 16)
            } else {
                hex_digit(data[i / 2] as int % 16)
            },
    )
}

/// `hex::encode`: two hexadecimal digits for each byte, in small letters.
#[verifier::external_body]
fn hex_encode(data: &[u8]) -> (text: String)
    ensures
        text@ == hex_text(data@),
{
    hex::encode(data)
}

/// A file that is too large to be hashed.
#[derive(Debug, Clone, Copy, PartialEq, Eq, Structural)]
pub struct TooLarge {
    pub size: u64,
}

impl TooLarge {
    /// The message for the user.
    pub fn message(&self) -> (s: String)
        ensures
            s@ == "Fichier trop grand pour être haché ("@ + decimal(self.size as nat) + " octets)"@,
    {
        let mut s = "Fichier trop grand pour être haché (".to_owned();
        s.push_str(to_decimal(self.size).as_str());
        s.push_str(" octets)");
        s
    }
}

/// Refuses a file that is too large to be hashed.
pub fn check_size(size: u64) -> (verdict: Result<(), TooLarge>)
    ensures
        verdict == if size > MAX_HASH_SIZE {
            Err::<(), TooLarge>(TooLarge { size })
        } else {
            Ok(())
        },
{
    if size > MAX_HASH_SIZE {
        Err(TooLarge { size })
    } else {
        Ok(())
    }
}

/// The SHA-256 of data, in hexadecimal.
pub fn sha256_hex(data: &[u8]) -> (text: String)
    ensures
        text@ == hex_text(sha256(data@)),
        text@.len() == 64,
{
    hex_encode(digest(data).as_slice())
}

/// The SHA-256, in hexadecimal, of a file of the given size that holds the given data.
pub fn sha256_file(size: u64, data: &[u8]) -> (text: Result<String, TooLarge>)
    ensures
        match text {
            Ok(s) => size <= MAX_HASH_SIZE && s@ == hex_text(sha256(data@)) && s@.len() == 64,
            Err(e) => size > MAX_HASH_SIZE && e.size == size,
        },
{
    match check_size(size) {
        Ok(()) => Ok(sha256_hex(data)),
        Err(e) => Err(e),
    }
}

/// Each byte is written as two digits that write it in hexadecimal, and so the bytes can be told
/// from the text.
pub proof fn law_bytes_are_told_by_digits(data: Seq<u8>, i: int)
    requires
        0 <= i < data.len(),
    ensures
        hex_text(data).len() == 2 * data.len(),
        digit_value(hex_text(data)[2 * i]) * 16 + digit_value(hex_text(data)[2 * i + 1]) == data[i],
        is_digit(hex_text(data)[2 * i], 16),
        is_digit(hex_text(data)[2 * i + 1], 16),
{
    let n = data[i] as int;
    assert((2 * i) % 2 == 0 && (2 * i) / 2 == i);
    assert((2 * i + 1) % 2 == 1 && (2 * i + 1) / 2 == i);
    assert(hex_text(data)[2 * i] == hex_digit(n / 16));
    assert(hex_text(data)[2 * i + 1] == hex_digit(n % 16));
    assert(digit_value(hex_digit(n / 16)) == n / 16);
    assert(digit_value(hex_digit(n % 16)) == n % 16);
}

/// A file is hashed if and only if it has at most fifty mebibytes, the limit included;
/// one that is larger is refused with its size.
pub proof fn law_large_files_are_refused(
    size: u64,
    data: &[u8],
    verdict: Result<(), TooLarge>,
    text: Result<String, TooLarge>,
)
    requires
        call_ensures(check_size, (size,), verdict),
        call_ensures(sha256_file, (size, data), text),
    ensures
        verdict is Ok <==> size <= 50 * 1024 * 1024,
        text is Ok <==> size <= 50 * 1024 * 1024,
        verdict matches Err(e) ==> e.size == size,
        text matches Err(e) ==> e.size == size,
        text matches Ok(s) ==> s@ == hex_text(sha256(data@)),
{
}

/// The size of a file that is too large is told in the message.
pub proof fn law_size_is_told(refused: &TooLarge, message: String)
    requires
        call_ensures(TooLarge::message, (refused,), message),
    ensures
        message@ == "Fichier trop grand pour être haché ("@ + decimal(refused.size as nat)
            + " octets)"@,
{
}

} // verus!
