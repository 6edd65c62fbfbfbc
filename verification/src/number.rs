//! Whole numbers written in text, and read back from it.

use vstd::prelude::*;

verus! {

/// The character of a digit below ten.
pub open spec fn digit_char(d: int) -> char {
    (48 + d) as char
}

/// The decimal digits of `n`, without leading zeros.
pub open spec fn decimal(n: nat) -> Seq<char>
    decreases n,
{
    if n < 10 {
        seq![digit_char(n as int)]
    } else {
        decimal(n / 10).push(digit_char((n % 10) as int))
    }
}

/// The decimal digits of `n`, behind a minus sign where it is negative.
pub open spec fn signed_decimal(n: int) -> Seq<char> {
    if n < 0 {
        seq!['-'] + decimal((-n) as nat)
    } else {
        decimal(n as nat)
    }
}

/// What a character counts as a digit, letters of either case counting from ten on.
pub open spec fn digit_value(c: char) -> int {
    if '0' <= c <= '9' {
        c as int - '0' as int
    } else if 'a' <= c <= 'z' {
        c as int - 'a' as int + 10
    } else if 'A' <= c <= 'Z' {
        c as int - 'A' as int + 10
    } else {
        -1
    }
}

/// `c` is a digit of the given base.
pub open spec fn is_digit(c: char, base: int) -> bool {
    0 <= digit_value(c) < base
}

/// Every character is a digit of the given base.
pub open spec fn all_digits(s: Seq<char>, base: int) -> bool {
    forall|i: int| 0 <= i < s.len() ==> is_digit(#[trigger] s[i], base)
}

/// The number that the digits of `s` write in the given base.
pub open spec fn digits_value(s: Seq<char>, base: int) -> int
    decreases s.len(),
{
    if s.len() == 0 {
        0
    } else {
        digits_value(s.drop_last(), base) * base + digit_value(s.last())
    }
}

/// The digits behind an optional plus sign.
pub open spec fn after_plus(s: Seq<char>) -> Seq<char> {
    if s.len() > 0 && s[0] == '+' {
        s.drop_first()
    } else {
        s
    }
}

/// The number of at most `max` that `s` writes: an optional plus sign and at least one digit.
pub open spec fn unsigned_value(s: Seq<char>, base: int, max: int) -> Option<int> {
    let digits = after_plus(s);
    if digits.len() > 0 && all_digits(digits, base) && digits_value(digits, base) <= max {
        Some(digits_value(digits, base))
    } else {
        None
    }
}

/// The number between `min` and `max` that `s` writes in decimal: an optional sign and at least
/// one digit.
pub open spec fn signed_value(s: Seq<char>, min: int, max: int) -> Option<int> {
    if s.len() > 0 && s[0] == '-' {
        let digits = s.drop_first();
        if digits.len() > 0 && all_digits(digits, 10) && min <= -digits_value(digits, 10) {
            Some(-digits_value(digits, 10))
        } else {
            None
        }
    } else {
        unsigned_value(s, 10, max)
    }
}

/// Reading digits one by one never gives a negative number.
pub proof fn lemma_digits_value_nonnegative(s: Seq<char>, base: int)
    requires
        base > 0,
        all_digits(s, base),
    ensures
        digits_value(s, base) >= 0,
    decreases s.len(),
{
    if s.len() > 0 {
        assert forall|i: int| 0 <= i < s.drop_last().len() implies is_digit(
            #[trigger] s.drop_last()[i],
            base,
        ) by {
            assert(is_digit(s[i], base));
        }
        lemma_digits_value_nonnegative(s.drop_last(), base);
        assert(is_digit(s[s.len() - 1], base));
        let v = digits_value(s.drop_last(), base);
        assert(v * base >= 0) by (nonlinear_arith)
            requires
                v >= 0,
                base > 0,
        ;
    }
}

/// A longer run of digits writes a number at least as large.
proof fn lemma_digits_value_grows(s: Seq<char>, base: int, n: int)
    requires
        base > 0,
        all_digits(s, base),
        0 <= n <= s.len(),
    ensures
        digits_value(s.take(n), base) <= digits_value(s, base),
    decreases s.len() - n,
{
    if n < s.len() {
        lemma_digits_value_grows(s, base, n + 1);
        let shorter = s.take(n);
        let longer = s.take(n + 1);
        assert(longer.drop_last() =~= shorter);
        assert(all_digits(shorter, base)) by {
            assert forall|i: int| 0 <= i < shorter.len() implies is_digit(
                #[trigger] shorter[i],
                base,
            ) by {
                assert(is_digit(s[i], base));
            }
        }
        lemma_digits_value_nonnegative(shorter, base);
        assert(is_digit(s[n], base));
        let v = digits_value(shorter, base);
        assert(v * base >= v) by (nonlinear_arith)
            requires
                v >= 0,
                base > 0,
        ;
    } else {
        assert(s.take(n) =~= s);
    }
}

/// What is written in decimal is read back as the same number.
pub proof fn law_decimal_reads_back(n: nat, max: int)
    requires
        n <= max,
    ensures
        unsigned_value(decimal(n), 10, max) == Some(n as int),
{
    lemma_decimal_digits(n);
    assert(is_digit(decimal(n)[0], 10));
    assert(after_plus(decimal(n)) == decimal(n));
}

/// A signed number written in decimal is read back as the same number.
pub proof fn law_signed_decimal_reads_back(n: int, min: int, max: int)
    requires
        min <= n <= max,
    ensures
        signed_value(signed_decimal(n), min, max) == Some(n),
{
    if n < 0 {
        lemma_decimal_digits((-n) as nat);
        assert(signed_decimal(n).drop_first() =~= decimal((-n) as nat));
    } else {
        lemma_decimal_digits(n as nat);
        assert(is_digit(decimal(n as nat)[0], 10));
        law_decimal_reads_back(n as nat, max);
    }
}

/// The decimal digits of a number are digits, at least one of them, and write that number.
pub proof fn lemma_decimal_digits(n: nat)
    ensures
        decimal(n).len() > 0,
        all_digits(decimal(n), 10),
        digits_value(decimal(n), 10) == n,
    decreases n,
{
    if n < 10 {
        let s = decimal(n);
        assert(s.drop_last() =~= Seq::<char>::empty());
        assert(digits_value(s.drop_last(), 10) == 0);
        assert(digit_value(digit_char(n as int)) == n);
    } else {
        lemma_decimal_digits(n / 10);
        let s = decimal(n);
        let d = (n % 10) as int;
        assert(digit_value(digit_char(d)) == d);
        assert(s.drop_last() =~= decimal(n / 10));
        assert forall|i: int| 0 <= i < s.len() implies is_digit(#[trigger] s[i], 10) by {
            if i < s.len() - 1 {
                assert(is_digit(decimal(n / 10)[i], 10));
            }
        }
    }
}

/// Writes a number in decimal.
pub fn to_decimal(n: u64) -> (s: String)
    ensures
        s@ == decimal(n as nat),
    decreases n,
{
    if n < 10 {
        let mut s = String::new();
        s.push((48u8 + n as u8) as char);
        assert(s@ =~= decimal(n as nat));
        s
    } else {
        let mut s = to_decimal(n / 10);
        s.push((48u8 + (n % 10) as u8) as char);
        s
    }
}

/// Writes a signed number in decimal.
pub fn to_signed_decimal(n: i64) -> (s: String)
    ensures
        s@ == signed_decimal(n as int),
{
    if n < 0 {
        let mut s = String::new();
        s.push('-');
        let size: u64 = (0i128 - n as i128) as u64;
        s.push_str(to_decimal(size).as_str());
        assert(s@ =~= signed_decimal(n as int));
        s
    } else {
        to_decimal(n as u64)
    }
}

/// The value of a digit of the given base.
fn read_digit(c: char, base: u64) -> (d: Option<u64>)
    requires
        base <= 36,
    ensures
        d is Some <==> is_digit(c, base as int),
        d matches Some(v) ==> v == digit_value(c),
{
    let d: u64 = if '0' <= c && c <= '9' {
        c as u64 - '0' as u64
    } else if 'a' <= c && c <= 'z' {
        c as u64 - 'a' as u64 + 10
    } else if 'A' <= c && c <= 'Z' {
        c as u64 - 'A' as u64 + 10
    } else {
        36
    };
    if d < base {
        Some(d)
    } else {
        None
    }
}

/// Reads a run of digits that writes a number of at most `max`.
fn read_digits(s: &[char], base: u64, max: u64) -> (v: Option<u64>)
    requires
        2 <= base <= 36,
    ensures
        v is Some <==> all_digits(s@, base as int) && digits_value(s@, base as int) <= max,
        v matches Some(n) ==> n == digits_value(s@, base as int),
{
    let mut value: u64 = 0;
    for i in 0..s.len()
        invariant
            2 <= base <= 36,
            all_digits(s@.take(i as int), base as int),
            value == digits_value(s@.take(i as int), base as int) <= max,
    {
        let ghost next = s@.take(i + 1);
        assert(next.drop_last() =~= s@.take(i as int));
        match read_digit(s[i], base) {
            Some(d) => {
                proof {
                    assert(all_digits(next, base as int)) by {
                        assert forall|k: int| 0 <= k < next.len() implies is_digit(
                            #[trigger] next[k],
                            base as int,
                        ) by {
                            if k < i {
                                assert(is_digit(s@.take(i as int)[k], base as int));
                            }
                        }
                    }
                    assert(value * base <= u64::MAX * 36) by (nonlinear_arith)
                        requires
                            0 <= value <= u64::MAX,
                            0 <= base <= 36,
                    ;
                }
                let wide: u128 = value as u128 * base as u128 + d as u128;
                assert(wide == digits_value(next, base as int));
                if wide > max as u128 {
                    proof {
                        if all_digits(s@, base as int) {
                            lemma_digits_value_grows(s@, base as int, i + 1);
                        }
                    }
                    return None;
                }
                value = wide as u64;
            },
            None => {
                assert(!is_digit(s@[i as int], base as int));
                return None;
            },
        }
    }
    assert(s@.take(s@.len() as int) =~= s@);
    Some(value)
}

/// Reads an unsigned number of at most `max`: an optional plus sign and at least one digit.
pub fn read_unsigned(s: &[char], base: u64, max: u64) -> (v: Option<u64>)
    requires
        2 <= base <= 36,
    ensures
        v is Some <==> unsigned_value(s@, base as int, max as int) is Some,
        v matches Some(n) ==> unsigned_value(s@, base as int, max as int) == Some(n as int),
{
    let n = s.len();
    let start: usize = if n > 0 && s[0] == '+' {
        1
    } else {
        0
    };
    let digits = &s[start..n];
    assert(digits@ =~= after_plus(s@));
    if digits.len() == 0 {
        return None;
    }
    read_digits(digits, base, max)
}

/// Reads a number that fits 32 bits with a sign.
pub fn read_i32(s: &[char]) -> (v: Option<i32>)
    ensures
        v is Some <==> signed_value(s@, i32::MIN as int, i32::MAX as int) is Some,
        v matches Some(n) ==> signed_value(s@, i32::MIN as int, i32::MAX as int) == Some(n as int),
{
    let n = s.len();
    if n > 0 && s[0] == '-' {
        let digits = &s[1..n];
        assert(digits@ =~= s@.drop_first());
        if digits.len() == 0 {
            return None;
        }
        match read_digits(digits, 10, 0x8000_0000) {
            Some(size) => {
                proof {
                    lemma_digits_value_nonnegative(digits@, 10);
                }
                Some((0i64 - size as i64) as i32)
            },
            None => None,
        }
    } else {
        match read_unsigned(s, 10, 0x7fff_ffff) {
            Some(v) => {
                proof {
                    lemma_digits_value_nonnegative(after_plus(s@), 10);
                }
                Some(v as i32)
            },
            None => None,
        }
    }
}

/// A number in decimal: a single digit stands for itself, and one more digit behind a number
/// makes it ten times as large and adds the digit. No other number but nought starts with a
/// nought.
pub proof fn law_decimal_digit_by_digit(n: nat, d: nat)
    requires
        d < 10,
    ensures
        decimal(d) == seq![(48 + d) as char],
        n > 0 ==> decimal(10 * n + d) == decimal(n) + seq![(48 + d) as char],
        n > 0 ==> decimal(n)[0] != '0',
    decreases n,
{
    let more = 10 * n + d;
    assert(more / 10 == n && more % 10 == d);
    if n > 0 {
        assert(decimal(more) =~= decimal(n) + seq![(48 + d) as char]);
        if n >= 10 {
            law_decimal_digit_by_digit(n / 10, d);
            assert(decimal(n)[0] == decimal(n / 10)[0]) by {
                lemma_decimal_digits(n / 10);
            }
        }
    }
}

/// What is read as a number without a sign: digits, a plus sign being allowed in front of them
/// and noughts having no influence there. Nothing, a lone plus sign, a text with any other
/// character, and a number above the limit are refused.
pub proof fn law_numbers_without_sign(s: Seq<char>, n: nat, max: int, i: int)
    ensures
        n <= max ==> unsigned_value(seq!['+'] + decimal(n), 10, max) == Some(n as int),
        n <= max ==> unsigned_value(seq!['0'] + decimal(n), 10, max) == Some(n as int),
        n > max ==> unsigned_value(decimal(n), 10, max) is None,
        unsigned_value(Seq::empty(), 10, max) is None,
        unsigned_value(seq!['+'], 10, max) is None,
        0 < i < s.len() && !('0' <= s[i] <= '9') ==> unsigned_value(s, 10, max) is None,
        s.len() > 0 && !('0' <= s[0] <= '9') && s[0] != '+' ==> unsigned_value(s, 10, max) is None,
{
    lemma_decimal_digits(n);
    let digits = decimal(n);
    assert(is_digit(digits[0], 10));
    assert(after_plus(digits) == digits);
    assert(after_plus(seq!['+'] + digits) =~= digits);
    let longer = seq!['0'] + digits;
    lemma_leading_nought(digits, 10);
    assert(after_plus(longer) == longer);
    assert forall|k: int| 0 <= k < longer.len() implies is_digit(#[trigger] longer[k], 10) by {
        if k > 0 {
            assert(is_digit(digits[k - 1], 10));
        }
    }
    assert(after_plus(seq!['+']) =~= Seq::<char>::empty());
    let rest = after_plus(s);
    if 0 < i < s.len() && !('0' <= s[i] <= '9') {
        let k = if s[0] == '+' {
            i - 1
        } else {
            i
        };
        assert(rest[k] == s[i]);
        assert(!is_digit(rest[k], 10));
    }
    if s.len() > 0 && !('0' <= s[0] <= '9') && s[0] != '+' {
        assert(!is_digit(rest[0], 10));
    }
}

/// A nought in front changes no number.
proof fn lemma_leading_nought(s: Seq<char>, base: int)
    ensures
        digits_value(seq!['0'] + s, base) == digits_value(s, base),
    decreases s.len(),
{
    let longer = seq!['0'] + s;
    if s.len() == 0 {
        assert(longer.drop_last() =~= Seq::<char>::empty());
        assert(longer.last() == '0');
        assert(digits_value(longer.drop_last(), base) == 0);
    } else {
        lemma_leading_nought(s.drop_last(), base);
        assert(longer.drop_last() =~= seq!['0'] + s.drop_last());
    }
}

/// Digits above nine are letters, small or capital alike, and no other character is a digit.
pub proof fn law_letters_are_digits(d: int, c: char)
    requires
        0 <= d < 6,
    ensures
        digit_value((97 + d) as char) == 10 + d,
        digit_value((65 + d) as char) == 10 + d,
        is_digit(c, 10) <==> '0' <= c <= '9',
        is_digit(c, 16) <==> '0' <= c <= '9' || 'a' <= c <= 'f' || 'A' <= c <= 'F',
{
}

/// A negative number has a minus sign in front of its digits, and only one.
pub proof fn law_signs(n: nat, s: Seq<char>, min: int, max: int)
    requires
        min <= 0 <= max,
    ensures
        n > 0 ==> signed_decimal(-(n as int)) == seq!['-'] + decimal(n),
        signed_decimal(n as int) == decimal(n),
        signed_value(seq!['-'], min, max) is None,
        signed_value(Seq::empty(), min, max) is None,
        s.len() > 0 && s[0] != '-' ==> signed_value(s, min, max) == unsigned_value(s, 10, max),
        -(n as int) < min ==> signed_value(seq!['-'] + decimal(n), min, max) is None,
{
    lemma_decimal_digits(n);
    assert((seq!['-'] + decimal(n)).drop_first() =~= decimal(n));
    assert(seq!['-'].drop_first() =~= Seq::<char>::empty());
}

} // verus!
