//! Texts as sequences of characters: comparing, searching, cutting and building them.

use vstd::prelude::*;
use vstd::string::StringSliceAdditionalSpecFns;
use vstd::utf8::{char_is_scalar, encode_utf8, encode_utf8_decode_utf8, is_ascii_chars};

verus! {

/// `String::push` appends the given character to the end of the string.
pub assume_specification[ String::push ](s: &mut String, c: char)
    ensures
        final(s)@ == old(s)@.push(c),
;

/// `String::push_str` appends the given text to the end of the string.
pub assume_specification[ String::push_str ](s: &mut String, tail: &str)
    ensures
        final(s)@ == old(s)@ + tail@,
;

/// The text that `str::to_lowercase` makes of a text.
pub uninterp spec fn lowercase(s: Seq<char>) -> Seq<char>;

/// The small letter of an ASCII capital; any other character as it is.
pub open spec fn ascii_lower(c: char) -> char {
    if 'A' <= c <= 'Z' {
        (c as u32 + 32) as char
    } else {
        c
    }
}

/// The text with its ASCII capitals turned into small letters.
pub open spec fn small_letters(s: Seq<char>) -> Seq<char> {
    s.map_values(|c: char| ascii_lower(c))
}

/// `str::to_lowercase`. The contract names the text, and says what it is where all characters
/// are ASCII: the capitals become small letters.
#[verifier::external_body]
pub(crate) fn to_lowercase(s: &str) -> (r: String)
    ensures
        r@ == lowercase(s@),
        is_ascii_chars(s@) ==> r@ == small_letters(s@),
{
    s.to_lowercase()
}

/// The characters of each string of a list.
pub open spec fn texts(list: Seq<String>) -> Seq<Seq<char>> {
    list.map_values(|s: String| s@)
}

/// The characters of an optional string.
pub open spec fn opt_text(s: Option<String>) -> Option<Seq<char>> {
    match s {
        Some(s) => Some(s@),
        None => None,
    }
}

/// `part` occurs in `whole` as a contiguous run.
pub open spec fn contains_text(whole: Seq<char>, part: Seq<char>) -> bool {
    exists|i: int| #[trigger] occurs_at(whole, part, i)
}

/// `part` stands in `whole` from position `i` on.
pub open spec fn occurs_at(whole: Seq<char>, part: Seq<char>, i: int) -> bool {
    0 <= i && i + part.len() <= whole.len() && whole.subrange(i, i + part.len()) == part
}

/// The characters that Unicode gives the property White_Space.
pub open spec fn is_whitespace(c: char) -> bool {
    let u = c as u32;
    ||| 0x09 <= u <= 0x0d
    ||| u == 0x20
    ||| u == 0x85
    ||| u == 0xa0
    ||| u == 0x1680
    ||| 0x2000 <= u <= 0x200a
    ||| u == 0x2028
    ||| u == 0x2029
    ||| u == 0x202f
    ||| u == 0x205f
    ||| u == 0x3000
}

/// `s` without the whitespace at its start.
pub open spec fn trim_start(s: Seq<char>) -> Seq<char>
    decreases s.len(),
{
    if s.len() > 0 && is_whitespace(s[0]) {
        trim_start(s.drop_first())
    } else {
        s
    }
}

/// `s` without the whitespace at its end.
pub open spec fn trim_end(s: Seq<char>) -> Seq<char>
    decreases s.len(),
{
    if s.len() > 0 && is_whitespace(s.last()) {
        trim_end(s.drop_last())
    } else {
        s
    }
}

/// `s` without the whitespace at either end.
pub open spec fn trimmed(s: Seq<char>) -> Seq<char> {
    trim_end(trim_start(s))
}

/// `s` with every `from` replaced by `to`.
pub open spec fn replaced(s: Seq<char>, from: char, to: Seq<char>) -> Seq<char>
    decreases s.len(),
{
    if s.len() == 0 {
        s
    } else if s.last() == from {
        replaced(s.drop_last(), from, to) + to
    } else {
        replaced(s.drop_last(), from, to).push(s.last())
    }
}

/// A text is replaced part by part.
pub proof fn lemma_replaced_adds(a: Seq<char>, b: Seq<char>, from: char, to: Seq<char>)
    ensures
        replaced(a + b, from, to) == replaced(a, from, to) + replaced(b, from, to),
    decreases b.len(),
{
    if b.len() == 0 {
        assert(a + b =~= a);
        assert(replaced(b, from, to) =~= Seq::<char>::empty());
    } else {
        assert((a + b).drop_last() =~= a + b.drop_last());
        lemma_replaced_adds(a, b.drop_last(), from, to);
        assert(replaced(a + b, from, to) =~= replaced(a, from, to) + replaced(b, from, to));
    }
}

/// `n` spaces.
pub open spec fn spaces(n: nat) -> Seq<char> {
    Seq::new(n, |i: int| ' ')
}

/// `s` filled up with spaces on the right to at least `width` characters.
pub open spec fn padded(s: Seq<char>, width: nat) -> Seq<char> {
    if s.len() < width {
        s + spaces((width - s.len()) as nat)
    } else {
        s
    }
}

/// `s` filled up with spaces on the left to at least `width` characters.
pub open spec fn padded_left(s: Seq<char>, width: nat) -> Seq<char> {
    if s.len() < width {
        spaces((width - s.len()) as nat) + s
    } else {
        s
    }
}

/// The characters of a text, as a vector.
pub fn to_chars(s: &str) -> (chars: Vec<char>)
    ensures
        chars@ == s@,
{
    let mut chars: Vec<char> = Vec::new();
    for c in it: s.chars()
        invariant
            it.seq() == s@,
            chars@ == s@.take(it.index()),
    {
        chars.push(c);
        assert(s@.take(it.index() + 1) =~= s@.take(it.index() as int).push(c));
    }
    assert(s@.take(s@.len() as int) =~= s@);
    chars
}

/// The text made of the given characters.
pub fn from_chars(chars: &[char]) -> (s: String)
    ensures
        s@ == chars@,
{
    let mut s = String::new();
    for i in 0..chars.len()
        invariant
            s@ == chars@.take(i as int),
    {
        s.push(chars[i]);
        assert(chars@.take(i + 1) =~= chars@.take(i as int).push(chars@[i as int]));
    }
    assert(chars@.take(chars@.len() as int) =~= chars@);
    s
}

/// Two texts with the same encoding hold the same characters.
proof fn lemma_bytes_determine_text(a: &str, b: &str)
    ensures
        a.spec_bytes() == b.spec_bytes() ==> a@ == b@,
{
    encode_utf8_decode_utf8(a@);
    encode_utf8_decode_utf8(b@);
}

/// Tells whether two texts hold the same characters.
pub fn same_text(a: &str, b: &str) -> (same: bool)
    ensures
        same == (a@ == b@),
{
    let x = a.as_bytes();
    let y = b.as_bytes();
    proof {
        lemma_bytes_determine_text(a, b);
    }
    if x.len() != y.len() {
        return false;
    }
    for i in 0..x.len()
        invariant
            x@ == a.spec_bytes(),
            y@ == b.spec_bytes(),
            x@.len() == y@.len(),
            x@.take(i as int) == y@.take(i as int),
    {
        if x[i] != y[i] {
            assert(a.spec_bytes()[i as int] != b.spec_bytes()[i as int]);
            return false;
        }
        assert(x@.take(i + 1) =~= x@.take(i as int).push(x@[i as int]));
        assert(y@.take(i + 1) =~= y@.take(i as int).push(y@[i as int]));
    }
    assert(x@.take(x@.len() as int) =~= x@);
    assert(y@.take(y@.len() as int) =~= y@);
    true
}

/// Tells whether `part` stands in `whole` from position `at` on.
fn stands_at(whole: &[char], part: &[char], at: usize) -> (found: bool)
    requires
        at + part@.len() <= whole@.len(),
    ensures
        found == occurs_at(whole@, part@, at as int),
{
    let n = whole.len();
    for j in 0..part.len()
        invariant
            at + part@.len() <= n == whole@.len(),
            forall|k: int| 0 <= k < j ==> whole@[at + k] == part@[k],
    {
        if whole[at + j] != part[j] {
            assert(whole@.subrange(at as int, at + part@.len())[j as int] != part@[j as int]);
            return false;
        }
    }
    assert(whole@.subrange(at as int, at + part@.len()) =~= part@);
    true
}

/// Tells whether `whole` starts with `part`.
pub fn starts_with(whole: &str, part: &str) -> (found: bool)
    ensures
        found == part@.is_prefix_of(whole@),
{
    let w = to_chars(whole);
    let p = to_chars(part);
    if p.len() > w.len() {
        return false;
    }
    stands_at(w.as_slice(), p.as_slice(), 0)
}

/// Tells whether `whole` ends with `part`.
pub fn ends_with(whole: &str, part: &str) -> (found: bool)
    ensures
        found == part@.is_suffix_of(whole@),
{
    let w = to_chars(whole);
    let p = to_chars(part);
    if p.len() > w.len() {
        return false;
    }
    let at: usize = w.len() - p.len();
    assert(at + part@.len() == whole@.len());
    stands_at(w.as_slice(), p.as_slice(), at)
}

/// Tells whether `part` occurs in `whole`.
pub fn contains(whole: &str, part: &str) -> (found: bool)
    ensures
        found == contains_text(whole@, part@),
{
    let w = to_chars(whole);
    let p = to_chars(part);
    if p.len() > w.len() {
        return false;
    }
    let last: usize = w.len() - p.len();
    let mut at: usize = 0;
    while at <= last
        invariant
            w@ == whole@,
            p@ == part@,
            p@.len() <= w@.len(),
            last == w@.len() - p@.len(),
            at <= last + 1,
            forall|i: int| 0 <= i < at ==> !occurs_at(whole@, part@, i),
        decreases last + 1 - at,
    {
        if stands_at(w.as_slice(), p.as_slice(), at) {
            return true;
        }
        if at == last {
            return false;
        }
        at = at + 1;
    }
    false
}

/// Tells whether Unicode gives a character the property White_Space.
pub fn whitespace(c: char) -> (yes: bool)
    ensures
        yes == is_whitespace(c),
{
    let u = c as u32;
    (0x09 <= u && u <= 0x0d) || u == 0x20 || u == 0x85 || u == 0xa0 || u == 0x1680 || (0x2000 <= u
        && u <= 0x200a) || u == 0x2028 || u == 0x2029 || u == 0x202f || u == 0x205f || u == 0x3000
}

/// Cuts the whitespace off both ends.
pub fn trim(s: &[char]) -> (t: &[char])
    ensures
        t@ == trimmed(s@),
{
    let n = s.len();
    let mut start: usize = 0;
    assert(s@.skip(0) =~= s@);
    while start < n && whitespace(s[start])
        invariant
            start <= n == s@.len(),
            trim_start(s@) == trim_start(s@.skip(start as int)),
        decreases n - start,
    {
        assert(s@.skip(start as int).drop_first() =~= s@.skip(start + 1));
        start = start + 1;
    }
    assert(trim_start(s@) == s@.skip(start as int));
    let mut end: usize = n;
    assert(s@.skip(start as int) =~= s@.subrange(start as int, end as int));
    while start < end && whitespace(s[end - 1])
        invariant
            start <= end <= n == s@.len(),
            trimmed(s@) == trim_end(s@.subrange(start as int, end as int)),
        decreases end,
    {
        assert(s@.subrange(start as int, end as int).drop_last() =~= s@.subrange(
            start as int,
            end - 1,
        ));
        end = end - 1;
    }
    &s[start..end]
}

/// Replaces every `from` by `to`.
pub fn replace(s: &str, from: char, to: &str) -> (r: String)
    ensures
        r@ == replaced(s@, from, to@),
{
    let mut r = String::new();
    for c in it: s.chars()
        invariant
            it.seq() == s@,
            r@ == replaced(s@.take(it.index()), from, to@),
    {
        assert(s@.take(it.index() + 1).drop_last() =~= s@.take(it.index() as int));
        if c == from {
            r.push_str(to);
        } else {
            r.push(c);
        }
    }
    assert(s@.take(s@.len() as int) =~= s@);
    r
}

/// A run of `n` spaces.
fn blank(n: usize) -> (r: String)
    ensures
        r@ == spaces(n as nat),
{
    let mut r = String::new();
    for i in 0..n
        invariant
            r@ == spaces(i as nat),
    {
        r.push(' ');
        assert(spaces((i + 1) as nat) =~= spaces(i as nat).push(' '));
    }
    r
}

/// Fills a text up with spaces on the right.
pub fn pad(s: &str, width: usize) -> (r: String)
    ensures
        r@ == padded(s@, width as nat),
{
    let mut r = s.to_owned();
    let len = to_chars(s).len();
    if len < width {
        r.push_str(blank(width - len).as_str());
    }
    r
}

/// Fills a text up with spaces on the left.
pub fn pad_left(s: &str, width: usize) -> (r: String)
    ensures
        r@ == padded_left(s@, width as nat),
{
    let len = to_chars(s).len();
    if len < width {
        let mut r = blank(width - len);
        r.push_str(s);
        r
    } else {
        s.to_owned()
    }
}

/// How many bytes a character takes in UTF-8.
pub open spec fn char_width(c: char) -> nat {
    let u = c as u32;
    if u < 0x80 {
        1
    } else if u < 0x800 {
        2
    } else if u < 0x10000 {
        3
    } else {
        4
    }
}

/// How many bytes a text takes in UTF-8.
pub open spec fn byte_len(s: Seq<char>) -> nat
    decreases s.len(),
{
    if s.len() == 0 {
        0
    } else {
        byte_len(s.drop_last()) + char_width(s.last())
    }
}

/// The number of characters of the longest beginning of a text that takes less than `max` bytes;
/// nought where there is none.
pub open spec fn cut_len(s: Seq<char>, max: nat) -> nat
    decreases s.len(),
{
    if s.len() == 0 || byte_len(s) < max {
        s.len()
    } else {
        cut_len(s.drop_last(), max)
    }
}

/// A text that fits `max` bytes; otherwise its longest beginning that takes less, and an
/// ellipsis.
pub open spec fn truncated(s: Seq<char>, max: nat) -> Seq<char> {
    if byte_len(s) <= max {
        s
    } else {
        s.take(cut_len(s, max) as int) + "…"@
    }
}

/// A longer beginning of a text takes more bytes.
proof fn lemma_byte_len_grows(s: Seq<char>, j: int, k: int)
    requires
        0 <= j <= k <= s.len(),
    ensures
        byte_len(s.take(j)) + (k - j) <= byte_len(s.take(k)) <= byte_len(s.take(j)) + 4 * (k - j),
    decreases k - j,
{
    if j < k {
        lemma_byte_len_grows(s, j, k - 1);
        assert(s.take(k).drop_last() =~= s.take(k - 1));
    }
}

/// The width of a character.
fn width(c: char) -> (n: usize)
    ensures
        n == char_width(c),
{
    let u = c as u32;
    if u < 0x80 {
        1
    } else if u < 0x800 {
        2
    } else if u < 0x10000 {
        3
    } else {
        4
    }
}

/// The number of characters after which a text is cut.
fn find_cut(chars: &[char], max: usize) -> (k: usize)
    ensures
        k == cut_len(chars@, max as nat),
        k <= chars@.len(),
{
    let mut bytes: usize = 0;
    let len = chars.len();
    assert(chars@.take(0) =~= Seq::<char>::empty());
    for k in 0..len
        invariant
            len == chars@.len(),
            bytes == byte_len(chars@.take(k as int)),
            k == 0 || bytes < max,
    {
        let w = width(chars[k]);
        assert(chars@.take(k + 1).drop_last() =~= chars@.take(k as int));
        if bytes >= max || w >= max - bytes {
            proof {
                lemma_cut_len(chars@, max as nat, k as int);
            }
            return k;
        }
        bytes = bytes + w;
    }
    assert(chars@.take(len as int) =~= chars@);
    len
}

/// A text is cut where one more character would take too many bytes.
proof fn lemma_cut_len(s: Seq<char>, max: nat, k: int)
    requires
        0 <= k < s.len(),
        k == 0 || byte_len(s.take(k)) < max,
        byte_len(s.take(k + 1)) >= max,
    ensures
        cut_len(s, max) == k,
    decreases s.len(),
{
    reveal_with_fuel(cut_len, 2);
    assert(s.take(s.len() as int) =~= s);
    if k + 1 < s.len() {
        lemma_byte_len_grows(s, k + 1, s.len() as int);
    }
    let front = s.drop_last();
    assert(front.take(k) =~= s.take(k));
    if k + 1 < s.len() {
        assert(front.take(k + 1) =~= s.take(k + 1));
        lemma_cut_len(front, max, k);
    } else {
        assert(front =~= s.take(k));
    }
}

/// How many bytes a text takes, as far as it is not more than `max`.
fn fits(chars: &[char], max: usize) -> (yes: bool)
    ensures
        yes == (byte_len(chars@) <= max),
{
    let mut left: usize = max;
    let len = chars.len();
    assert(chars@.take(0) =~= Seq::<char>::empty());
    for k in 0..len
        invariant
            len == chars@.len(),
            left + byte_len(chars@.take(k as int)) == max,
    {
        let w = width(chars[k]);
        assert(chars@.take(k + 1).drop_last() =~= chars@.take(k as int));
        if w > left {
            proof {
                lemma_byte_len_grows(chars@, k + 1, len as int);
                assert(chars@.take(len as int) =~= chars@);
            }
            return false;
        }
        left = left - w;
    }
    assert(chars@.take(len as int) =~= chars@);
    true
}

/// A text that takes no more than `max` bytes stays as it is. A longer one is cut between two
/// characters so that less than `max` bytes of it are left, and an ellipsis is put behind them.
pub fn truncate(s: &str, max: usize) -> (t: String)
    ensures
        t@ == truncated(s@, max as nat),
{
    let chars = to_chars(s);
    if fits(chars.as_slice(), max) {
        return s.to_owned();
    }
    let k = find_cut(chars.as_slice(), max);
    let mut t = from_chars(&chars.as_slice()[0..k]);
    assert(t@ =~= s@.take(k as int));
    t.push_str("…");
    t
}

/// Every character of a text is a blank.
pub open spec fn all_blank(s: Seq<char>) -> bool {
    forall|i: int| 0 <= i < s.len() ==> is_whitespace(#[trigger] s[i])
}

/// A space, a tab and the ends of lines are blanks; the visible characters of ASCII are not.
pub proof fn law_blanks_of_ascii(c: char)
    ensures
        c == ' ' || c == '\t' || c == '\n' || c == '\r' ==> is_whitespace(c),
        '!' <= c <= '~' ==> !is_whitespace(c),
        c == '\0' ==> !is_whitespace(c),
{
}

/// What stands between blanks is left of a text that is trimmed, with the blanks inside it; of a
/// text of blanks nothing is left.
pub proof fn law_only_ends_are_trimmed(before: Seq<char>, core: Seq<char>, behind: Seq<char>)
    requires
        all_blank(before),
        all_blank(behind),
        core.len() > 0 ==> !is_whitespace(core[0]) && !is_whitespace(core[core.len() - 1]),
    ensures
        trimmed(before + core + behind) == core,
    decreases before.len(),
{
    let s = before + core + behind;
    if before.len() > 0 {
        assert(is_whitespace(before[0]));
        let rest = before.drop_first();
        assert forall|i: int| 0 <= i < rest.len() implies is_whitespace(#[trigger] rest[i]) by {
            assert(is_whitespace(before[i + 1]));
        }
        assert(s.drop_first() =~= rest + core + behind);
        law_only_ends_are_trimmed(rest, core, behind);
    } else if core.len() > 0 {
        assert(s =~= core + behind);
        lemma_trim_end(core, behind);
    } else {
        assert(s =~= behind);
        lemma_trim_blanks(behind);
        assert(core =~= Seq::<char>::empty());
    }
}

/// Nothing is left of blanks.
proof fn lemma_trim_blanks(s: Seq<char>)
    requires
        all_blank(s),
    ensures
        trimmed(s) == Seq::<char>::empty(),
    decreases s.len(),
{
    if s.len() > 0 {
        assert(is_whitespace(s[0]));
        let rest = s.drop_first();
        assert forall|i: int| 0 <= i < rest.len() implies is_whitespace(#[trigger] rest[i]) by {
            assert(is_whitespace(s[i + 1]));
        }
        lemma_trim_blanks(rest);
    } else {
        assert(s =~= Seq::<char>::empty());
    }
}

/// Blanks at the end go, up to the last character that is none.
proof fn lemma_trim_end(core: Seq<char>, behind: Seq<char>)
    requires
        all_blank(behind),
        core.len() > 0,
        !is_whitespace(core[core.len() - 1]),
    ensures
        trim_end(core + behind) == core,
    decreases behind.len(),
{
    let s = core + behind;
    if behind.len() > 0 {
        assert(is_whitespace(behind[behind.len() - 1]));
        let rest = behind.drop_last();
        assert forall|i: int| 0 <= i < rest.len() implies is_whitespace(#[trigger] rest[i]) by {
            assert(is_whitespace(behind[i]));
        }
        assert(s.drop_last() =~= core + rest);
        lemma_trim_end(core, rest);
    } else {
        assert(s =~= core);
    }
}

/// Every character that is to be replaced makes room for the new text; what stands before it and
/// behind it is treated on its own, and a text without it stays.
pub proof fn law_replaced_one_by_one(a: Seq<char>, from: char, b: Seq<char>, to: Seq<char>)
    ensures
        replaced(a + seq![from] + b, from, to) == replaced(a, from, to) + to + replaced(
            b,
            from,
            to,
        ),
        (forall|i: int| 0 <= i < a.len() ==> a[i] != from) ==> replaced(a, from, to) == a,
    decreases a.len(),
{
    lemma_replaced_adds(a + seq![from], b, from, to);
    lemma_replaced_adds(a, seq![from], from, to);
    assert(replaced(seq![from], from, to) =~= to) by {
        assert(seq![from].drop_last() =~= Seq::<char>::empty());
        assert(replaced(seq![from].drop_last(), from, to) =~= Seq::<char>::empty());
    }
    assert(replaced(a + seq![from] + b, from, to) =~= replaced(a, from, to) + to + replaced(
        b,
        from,
        to,
    ));
    if forall|i: int| 0 <= i < a.len() ==> a[i] != from {
        if a.len() > 0 {
            law_replaced_one_by_one(a.drop_last(), from, b, to);
            assert(a.drop_last().push(a.last()) =~= a);
        }
    }
}

/// A text that is filled up keeps all its characters and gets spaces, on the right or on the
/// left, until it is as wide as asked. One that is wide enough stays.
pub proof fn law_filled_up(s: Seq<char>, width: nat)
    ensures
        s.len() >= width ==> padded(s, width) == s && padded_left(s, width) == s,
        s.len() < width ==> {
            &&& padded(s, width).len() == width
            &&& padded(s, width).take(s.len() as int) == s
            &&& forall|i: int| s.len() <= i < width ==> #[trigger] padded(s, width)[i] == ' '
            &&& padded_left(s, width).len() == width
            &&& padded_left(s, width).skip(width - s.len()) == s
            &&& forall|i: int|
                0 <= i < width - s.len() ==> #[trigger] padded_left(s, width)[i] == ' '
        },
{
    if s.len() < width {
        assert(padded(s, width).take(s.len() as int) =~= s);
        assert(padded_left(s, width).skip(width - s.len()) =~= s);
    }
}

/// A text takes as many bytes as its encoding in UTF-8 has.
pub proof fn law_bytes_of_text(s: Seq<char>)
    ensures
        byte_len(s) == encode_utf8(s).len(),
    decreases s.len(),
{
    if s.len() > 0 {
        law_bytes_of_text(s.drop_first());
        lemma_byte_len_front(s);
        char_is_scalar(s[0]);
    }
}

/// The bytes of a text are those of its first character and those of the rest.
proof fn lemma_byte_len_front(s: Seq<char>)
    requires
        s.len() > 0,
    ensures
        byte_len(s) == char_width(s[0]) + byte_len(s.drop_first()),
    decreases s.len(),
{
    if s.len() == 1 {
        assert(s.drop_last() =~= Seq::<char>::empty());
        assert(s.drop_first() =~= Seq::<char>::empty());
    } else {
        lemma_byte_len_front(s.drop_last());
        assert(s.drop_last().drop_first() =~= s.drop_first().drop_last());
    }
}

/// A text that is not too long stays whole. A longer one loses its end: what is left are its
/// first characters, as many as take less than `max` bytes, and an ellipsis.
pub proof fn law_cut_to_fit(s: Seq<char>, max: nat, j: int)
    ensures
        encode_utf8(s).len() <= max ==> truncated(s, max) == s,
        encode_utf8(s).len() > max ==> {
            let kept = truncated(s, max).len() - 1;
            &&& 0 <= kept < s.len()
            &&& truncated(s, max) == s.take(kept) + "…"@
            &&& kept > 0 ==> encode_utf8(s.take(kept)).len() < max
            &&& kept < j <= s.len() ==> encode_utf8(s.take(j)).len() >= max
        },
{
    law_bytes_of_text(s);
    reveal_strlit("…");
    if byte_len(s) > max {
        let kept = truncated(s, max).len() - 1;
        lemma_cut_between(s, max);
        law_bytes_of_text(s.take(kept));
        if kept < j <= s.len() {
            law_bytes_of_text(s.take(j));
            lemma_byte_len_grows(s, kept + 1, j);
        }
    }
}

/// Where a text is cut.
proof fn lemma_cut_between(s: Seq<char>, max: nat)
    requires
        byte_len(s) >= max,
        s.len() > 0,
    ensures
        ({
            let k = cut_len(s, max) as int;
            &&& k < s.len()
            &&& k == 0 || byte_len(s.take(k)) < max
            &&& byte_len(s.take(k + 1)) >= max
        }),
    decreases s.len(),
{
    let front = s.drop_last();
    let k = cut_len(s, max) as int;
    assert(s.take(s.len() as int) =~= s);
    if front.len() == 0 || byte_len(front) < max {
        assert(cut_len(s, max) == cut_len(front, max));
        assert(k == front.len());
        assert(s.take(k) =~= front);
    } else {
        lemma_cut_between(front, max);
        assert(front.take(k) =~= s.take(k));
        assert(front.take(k + 1) =~= s.take(k + 1));
    }
}

/// Small letters: a capital of ASCII becomes its small letter, which lies thirty-two places
/// behind it, and every other character of ASCII stays.
pub proof fn law_small_letters(s: Seq<char>, i: int)
    requires
        0 <= i < s.len(),
    ensures
        small_letters(s).len() == s.len(),
        'A' <= s[i] <= 'Z' ==> small_letters(s)[i] as int == s[i] as int + 32,
        !('A' <= s[i] <= 'Z') ==> small_letters(s)[i] == s[i],
{
}

/// The blanks beyond ASCII: those of print and of the scripts that have their own, and none of
/// the characters between them.
pub proof fn law_blanks_beyond_ascii(c: char)
    requires
        c > '\u{7f}',
    ensures
        is_whitespace(c) <==> c == '\u{85}' || c == '\u{a0}' || c == '\u{1680}' || ('\u{2000}' <= c
            <= '\u{200a}') || c == '\u{2028}' || c == '\u{2029}' || c == '\u{202f}' || c
            == '\u{205f}' || c == '\u{3000}',
{
}

} // verus!
