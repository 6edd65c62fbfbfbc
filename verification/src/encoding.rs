//! Texts held in bytes.

use vstd::prelude::*;
use vstd::string::StringSliceAdditionalSpecFns;
use vstd::utf8::{decode_utf8, encode_utf8_decode_utf8, valid_utf8};

verus! {

/// The text that `String::from_utf8_lossy` reads from bytes.
pub uninterp spec fn utf8_lossy(bytes: Seq<u8>) -> Seq<char>;

/// `std::str::from_utf8`, without the reason of a refusal: the text that the bytes encode,
/// where they are valid UTF-8.
#[verifier::external_body]
fn from_utf8<'a>(bytes: &'a [u8]) -> (content: Option<&'a str>)
    ensures
        content is Some <==> valid_utf8(bytes@),
        content matches Some(s) ==> s.spec_bytes() == bytes@,
{
    std::str::from_utf8(bytes).ok()
}

/// The first `n` bytes are characters of ASCII.
pub open spec fn ascii_bytes(bytes: Seq<u8>, n: int) -> bool {
    0 <= n <= bytes.len() && forall|i: int| 0 <= i < n ==> #[trigger] bytes[i] < 128
}

/// The first `n` characters are characters of ASCII.
pub open spec fn ascii_chars(text: Seq<char>, n: int) -> bool {
    0 <= n <= text.len() && forall|i: int| 0 <= i < n ==> (#[trigger] text[i]) as int <= 127
}

/// The first `n` bytes and the first `n` characters are the same.
pub open spec fn same_head(bytes: Seq<u8>, text: Seq<char>, n: int) -> bool {
    n <= bytes.len() && n <= text.len() && forall|i: int|
        0 <= i < n ==> (#[trigger] text[i]) as int == bytes[i]
}

/// The characters of ASCII that stand at the beginning of bytes stand at the beginning of the
/// text too, one for one, and the other way round.
pub open spec fn keeps_ascii_head(bytes: Seq<u8>, text: Seq<char>) -> bool {
    &&& forall|n: int| #[trigger] ascii_bytes(bytes, n) ==> same_head(bytes, text, n)
    &&& forall|n: int| #[trigger] ascii_chars(text, n) ==> same_head(bytes, text, n)
}

/// `String::from_utf8_lossy`. The contract names the text, and claims that it is the encoded
/// text where the bytes are valid UTF-8, and that, valid or not, what stands in ASCII at the
/// beginning is kept: what is not valid is replaced by a character outside ASCII, and no byte
/// of ASCII is part of what is not valid.
#[verifier::external_body]
pub(crate) fn from_utf8_lossy(bytes: &[u8]) -> (content: String)
    ensures
        content@ == utf8_lossy(bytes@),
        valid_utf8(bytes@) ==> content@ == decode_utf8(bytes@),
        keeps_ascii_head(bytes@, content@),
{
    String::from_utf8_lossy(bytes).into_owned()
}

/// The number of bytes before the first zero byte.
pub open spec fn terminated_len(bytes: Seq<u8>) -> nat
    decreases bytes.len(),
{
    if bytes.len() == 0 || bytes[0] == 0 {
        0
    } else {
        1 + terminated_len(bytes.drop_first())
    }
}

/// The bytes before the first zero byte.
pub open spec fn terminated(bytes: Seq<u8>) -> Seq<u8> {
    bytes.take(terminated_len(bytes) as int)
}

/// The text of bytes that are not valid UTF-8.
pub const INVALID_UTF8: &'static str = "<invalid utf8>";

/// The text that the bytes encode, or the mark of invalid bytes.
pub open spec fn utf8_or_mark(bytes: Seq<u8>) -> Seq<char> {
    if valid_utf8(bytes) {
        decode_utf8(bytes)
    } else {
        INVALID_UTF8@
    }
}

/// What the length before the first zero byte means: no zero byte in front of it, and one right
/// behind it unless the bytes end there.
pub proof fn lemma_terminated_len(bytes: Seq<u8>)
    ensures
        terminated_len(bytes) <= bytes.len(),
        forall|i: int| 0 <= i < terminated_len(bytes) ==> bytes[i] != 0,
        terminated_len(bytes) < bytes.len() ==> bytes[terminated_len(bytes) as int] == 0,
    decreases bytes.len(),
{
    if bytes.len() > 0 && bytes[0] != 0 {
        let rest = bytes.drop_first();
        lemma_terminated_len(rest);
        assert forall|i: int| 0 <= i < terminated_len(bytes) implies bytes[i] != 0 by {
            if i > 0 {
                assert(rest[i - 1] != 0);
            }
        }
    }
}

/// A length with these two properties is the length before the first zero byte.
proof fn lemma_terminated_len_is(bytes: Seq<u8>, n: int)
    requires
        0 <= n <= bytes.len(),
        forall|i: int| 0 <= i < n ==> bytes[i] != 0,
        n < bytes.len() ==> bytes[n] == 0,
    ensures
        terminated_len(bytes) == n,
{
    lemma_terminated_len(bytes);
    if n < terminated_len(bytes) {
        assert(bytes[n] != 0);
    }
}

/// Cuts bytes off at the first zero byte.
pub fn until_zero(bytes: &[u8]) -> (head: &[u8])
    ensures
        head@ == terminated(bytes@),
{
    let n = bytes.len();
    let mut end: usize = 0;
    while end < n && bytes[end] != 0
        invariant
            end <= n == bytes@.len(),
            forall|i: int| 0 <= i < end ==> bytes@[i] != 0,
        decreases n - end,
    {
        end = end + 1;
    }
    proof {
        lemma_terminated_len_is(bytes@, end as int);
    }
    &bytes[0..end]
}

/// Reads the text before the first zero byte.
pub fn text_until_zero(bytes: &[u8]) -> (content: &str)
    ensures
        content@ == utf8_or_mark(terminated(bytes@)),
{
    match from_utf8(until_zero(bytes)) {
        Some(s) => {
            proof {
                encode_utf8_decode_utf8(s@);
            }
            s
        },
        None => INVALID_UTF8,
    }
}

} // verus!
