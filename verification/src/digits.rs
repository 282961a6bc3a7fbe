//! Decimal digits: their values, the decimal notation of integers, and the syntax of `u64`
//! literals as accepted by `str::parse::<u64>`.

use vstd::prelude::*;
use vstd::arithmetic::power::pow;

verus! {

/// An ASCII decimal digit.
pub open spec fn is_ascii_digit(c: char) -> bool {
    '0' <= c && c <= '9'
}

/// The value of an ASCII decimal digit.
pub open spec fn digit_value(c: char) -> nat {
    ((c as int) - ('0' as int)) as nat
}

/// The ASCII digit for `d < 10`.
pub open spec fn digit_char(d: nat) -> char {
    ((d + ('0' as int)) as u32) as char
}

/// Every character of `s` is an ASCII decimal digit.
pub open spec fn all_ascii_digits(s: Seq<char>) -> bool {
    forall|i: int| 0 <= i < s.len() ==> #[trigger] is_ascii_digit(s[i])
}

/// The value of a string of decimal digits, most significant first.
pub open spec fn digits_value(s: Seq<char>) -> nat
    decreases s.len(),
{
    if s.len() == 0 {
        0
    } else {
        digits_value(s.drop_last()) * 10 + digit_value(s.last())
    }
}

/// The decimal notation of `n`, without leading zeros ("0" for zero).
pub open spec fn decimal(n: nat) -> Seq<char>
    decreases n,
{
    if n < 10 {
        seq![digit_char(n)]
    } else {
        decimal(n / 10).push(digit_char(n % 10))
    }
}

/// A string of `k` zeros.
pub open spec fn zeros(k: nat) -> Seq<char> {
    Seq::new(k, |i: int| '0')
}

/// `s` padded on the left with zeros to at least `width` characters, as by `format!("{s:0>width$}")`.
pub open spec fn pad_left_zeros(s: Seq<char>, width: nat) -> Seq<char> {
    if s.len() >= width {
        s
    } else {
        zeros((width - s.len()) as nat) + s
    }
}

/// The result of `str::parse::<u64>` on `s`: an optional `+` sign, then at least one ASCII digit,
/// and a value that fits in a `u64`.
pub open spec fn spec_parse_u64(s: Seq<char>) -> Option<nat> {
    let d = if s.len() > 0 && s[0] == '+' { s.drop_first() } else { s };
    if d.len() > 0 && all_ascii_digits(d) && digits_value(d) <= u64::MAX {
        Some(digits_value(d))
    } else {
        None
    }
}

pub proof fn lemma_digit_char(d: nat)
    requires
        d < 10,
    ensures
        is_ascii_digit(digit_char(d)),
        digit_value(digit_char(d)) == d,
{
    assert(('0' as int) == 48);
    assert(('9' as int) == 57);
}

pub proof fn lemma_decimal(n: nat)
    ensures
        all_ascii_digits(decimal(n)),
        digits_value(decimal(n)) == n,
        decimal(n).len() >= 1,
        decimal(n)[0] == '0' ==> n == 0,
    decreases n,
{
    if n < 10 {
        lemma_digit_char(n);
        assert(decimal(n).drop_last() =~= Seq::<char>::empty());
        assert(digits_value(decimal(n)) == digits_value(decimal(n).drop_last()) * 10
            + digit_value(decimal(n).last()));
    } else {
        lemma_decimal(n / 10);
        lemma_digit_char(n % 10);
        let s = decimal(n);
        assert(s.drop_last() =~= decimal(n / 10));
        assert(s.last() == digit_char(n % 10));
        assert(digits_value(s) == digits_value(decimal(n / 10)) * 10 + digit_value(s.last()));
        assert(s[0] == decimal(n / 10)[0]);
    }
}

pub proof fn lemma_digits_value_append(a: Seq<char>, b: Seq<char>)
    ensures
        digits_value(a + b) == digits_value(a) * pow(10, b.len()) + digits_value(b),
    decreases b.len(),
{
    vstd::arithmetic::power::lemma_pow0(10);
    if b.len() == 0 {
        assert(a + b =~= a);
    } else {
        lemma_digits_value_append(a, b.drop_last());
        assert((a + b).drop_last() =~= a + b.drop_last());
        assert((a + b).last() == b.last());
        vstd::arithmetic::power::lemma_pow_adds(10, (b.len() - 1) as nat, 1);
        vstd::arithmetic::power::lemma_pow1(10);
        let p = pow(10, (b.len() - 1) as nat);
        assert(digits_value(a) * p * 10 == digits_value(a) * (p * 10)) by (nonlinear_arith);
        assert((digits_value(a) * p + digits_value(b.drop_last())) * 10 == digits_value(a) * p * 10
            + digits_value(b.drop_last()) * 10) by (nonlinear_arith);
    }
}

pub proof fn lemma_zeros_value(k: nat)
    ensures
        digits_value(zeros(k)) == 0,
        all_ascii_digits(zeros(k)),
    decreases k,
{
    if k > 0 {
        lemma_zeros_value((k - 1) as nat);
        assert(zeros(k).drop_last() =~= zeros((k - 1) as nat));
        assert(digit_value('0') == 0);
    }
}

pub proof fn lemma_leading_zeros_value(k: nat, s: Seq<char>)
    ensures
        digits_value(zeros(k) + s) == digits_value(s),
{
    lemma_digits_value_append(zeros(k), s);
    lemma_zeros_value(k);
}

/// The decimal notation of `n`.
pub fn decimal_chars(n: u64) -> (v: Vec<char>)
    ensures
        v@ == decimal(n as nat),
    decreases n,
{
    if n < 10 {
        let c = char_of_digit(n);
        let mut v = Vec::new();
        v.push(c);
        assert(v@ =~= seq![digit_char(n as nat)]);
        v
    } else {
        let mut v = decimal_chars(n / 10);
        let c = char_of_digit(n % 10);
        v.push(c);
        v
    }
}

/// The ASCII digit for `d`.
pub fn char_of_digit(d: u64) -> (c: char)
    requires
        d < 10,
    ensures
        c == digit_char(d as nat),
{
    let b: u8 = (d as u8) + 48;
    b as char
}


pub proof fn lemma_pow10_step(e: nat)
    ensures
        pow(10, e + 1) == 10 * pow(10, e),
        pow(10, e) >= 1,
        pow(10, 0) == 1,
{
    reveal(pow);
    vstd::arithmetic::power::lemma_pow_positive(10, e);
    assert(pow(10, e + 1) == 10 * pow(10, (e + 1 - 1) as nat));
}

pub proof fn lemma_digits_value_bound(s: Seq<char>)
    requires
        all_ascii_digits(s),
    ensures
        digits_value(s) < pow(10, s.len()),
    decreases s.len(),
{
    lemma_pow10_step(0);
    if s.len() > 0 {
        let t = s.drop_last();
        assert(all_ascii_digits(t)) by {
            assert forall|i: int| 0 <= i < t.len() implies #[trigger] is_ascii_digit(t[i]) by {
                assert(t[i] == s[i]);
            }
        }
        lemma_digits_value_bound(t);
        lemma_pow10_step(t.len());
        assert(is_ascii_digit(s[s.len() - 1]));
        assert(digit_value(s.last()) <= 9);
    }
}

/// A prefix of a digit string has a value no larger than the whole.
pub proof fn lemma_digits_value_prefix(s: Seq<char>, k: int)
    requires
        0 <= k <= s.len(),
    ensures
        digits_value(s.take(k)) <= digits_value(s),
{
    lemma_digits_value_append(s.take(k), s.skip(k));
    assert(s.take(k) + s.skip(k) =~= s);
    vstd::arithmetic::power::lemma_pow_positive(10, s.skip(k).len());
    let a = digits_value(s.take(k));
    let p = pow(10, s.skip(k).len());
    assert(a * p >= a) by (nonlinear_arith)
        requires
            p >= 1,
    ;
}

/// Whether a non-ASCII character is a decimal digit of Unicode (general category Nd), which is
/// what the `\d` class of the `regex` crate matches.
pub uninterp spec fn is_unicode_digit(c: char) -> bool;

/// Whether `c` is matched by `\d`: the ten ASCII digits, and the Unicode decimal digits beyond
/// ASCII.
pub open spec fn is_xs_digit(c: char) -> bool {
    if (c as u32) < 128 {
        is_ascii_digit(c)
    } else {
        is_unicode_digit(c)
    }
}

/// Matches `c` against the `regex` crate's `\d` class (Unicode decimal digits). The contract says
/// only that the answer is the one named `is_unicode_digit`; it is called for non-ASCII characters.
#[verifier::external_body]
fn regex_unicode_digit(c: char) -> (r: bool)
    ensures
        r == is_unicode_digit(c),
{
    let mut buf = [0u8; 4];
    match regex::Regex::new(r"^\d$") {
        Ok(re) => re.is_match(c.encode_utf8(&mut buf)),
        Err(_) => false,
    }
}

/// Whether `c` is a decimal digit in the sense of `\d`.
pub fn xs_digit(c: char) -> (r: bool)
    ensures
        r == is_xs_digit(c),
{
    if (c as u32) < 128 {
        '0' <= c && c <= '9'
    } else {
        regex_unicode_digit(c)
    }
}

} // verus!
