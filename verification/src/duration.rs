//! The xs:duration type of XML Schema (ISO 8601 durations such as `PT1M30.5S`), as used in MPD
//! manifests: parsing to a number of seconds and nanoseconds, and serialization.

use vstd::prelude::*;
use vstd::arithmetic::power::pow;
use crate::DashMpdError;
use crate::digits::{
    all_ascii_digits, digits_value, digit_value, is_ascii_digit, decimal, pad_left_zeros,
    lemma_digits_value_prefix, lemma_pow10_step, decimal_chars,
    zeros, is_xs_digit, xs_digit, lemma_decimal, lemma_zeros_value, lemma_leading_zeros_value, lemma_digits_value_append,
};
use crate::text::{chars_of, push_char, push_chars};

verus! {

/// A span of time: whole seconds and a nanosecond part.
#[derive(Debug, Clone, Copy, PartialEq, Eq, Structural)]
pub struct XsDuration {
    pub secs: u64,
    pub nanos: u32,
}

impl XsDuration {
    /// The nanosecond part is below one second.
    pub open spec fn wf(self) -> bool {
        self.nanos < 1_000_000_000
    }

    /// A duration of `secs` seconds plus `nanos` nanoseconds, carrying whole seconds out of
    /// `nanos` as `std::time::Duration::new` does.
    pub fn new(secs: u64, nanos: u32) -> (d: XsDuration)
        requires
            secs + nanos / 1_000_000_000 <= u64::MAX,
        ensures
            d.wf(),
            d.secs == secs + nanos / 1_000_000_000,
            d.nanos == nanos % 1_000_000_000,
    {
        XsDuration { secs: secs + (nanos / 1_000_000_000) as u64, nanos: nanos % 1_000_000_000 }
    }

    /// The whole seconds.
    pub fn as_secs(&self) -> (r: u64)
        ensures
            r == self.secs,
    {
        self.secs
    }

    /// The nanosecond part.
    pub fn subsec_nanos(&self) -> (r: u32)
        ensures
            r == self.nanos,
    {
        self.nanos
    }
}

/// The length of the run of `\d` characters starting at position `i`.
pub open spec fn digit_run(s: Seq<char>, i: int) -> nat
    decreases s.len() - i,
{
    if 0 <= i < s.len() && is_xs_digit(s[i]) {
        1 + digit_run(s, i + 1)
    } else {
        0
    }
}

/// The digits of a component `<digits><letter>` at position `p`, if there is one.
pub open spec fn unit_digits(s: Seq<char>, p: int, letter: char) -> Option<Seq<char>> {
    let r = digit_run(s, p);
    if r > 0 && p + r < s.len() && s[p + r] == letter {
        Some(s.subrange(p, p + r))
    } else {
        None
    }
}

/// The position after the component `<digits><letter>` at `p`, or `p` if there is none.
pub open spec fn unit_end(s: Seq<char>, p: int, letter: char) -> int {
    let r = digit_run(s, p);
    if r > 0 && p + r < s.len() && s[p + r] == letter {
        p + r + 1
    } else {
        p
    }
}

/// The seconds component `<digits>[(.|,)<digits>]S` at position `p`: its whole digits and its
/// fractional digits.
pub open spec fn seconds_digits(s: Seq<char>, p: int) -> Option<(Seq<char>, Option<Seq<char>>)> {
    let r1 = digit_run(s, p);
    let q = p + r1;
    let r2 = digit_run(s, q + 1);
    if r1 == 0 {
        None
    } else if q < s.len() && (s[q] == '.' || s[q] == ',') && r2 > 0 && q + 1 + r2 < s.len()
        && s[q + 1 + r2] == 'S' {
        Some((s.subrange(p, q), Some(s.subrange(q + 1, q + 1 + r2))))
    } else if q < s.len() && s[q] == 'S' {
        Some((s.subrange(p, q), None))
    } else {
        None
    }
}

/// The components found in an xs:duration string.
pub struct XsDurationFields {
    pub negative: bool,
    pub years: Option<Seq<char>>,
    pub months: Option<Seq<char>>,
    pub weeks: Option<Seq<char>>,
    pub days: Option<Seq<char>>,
    pub has_time: bool,
    pub hours: Option<Seq<char>>,
    pub minutes: Option<Seq<char>>,
    pub seconds: Option<Seq<char>>,
    pub fraction: Option<Seq<char>>,
}

/// The components of `s` as matched, from its start, by the pattern
/// `[+-]?P(\d+Y)?(\d+M)?(\d+W)?(\d+D)?(T(\d+H)?(\d+M)?(\d+([.,]\d+)?S)?)?`; characters after the
/// match are ignored. `None` when `s` does not start with `P`, `+P` or `-P`.
pub open spec fn xs_duration_fields(s: Seq<char>) -> Option<XsDurationFields> {
    let signed = s.len() >= 2 && (s[0] == '+' || s[0] == '-') && s[1] == 'P';
    if !signed && !(s.len() >= 1 && s[0] == 'P') {
        None
    } else {
        let p0: int = if signed { 2 } else { 1 };
        let p1 = unit_end(s, p0, 'Y');
        let p2 = unit_end(s, p1, 'M');
        let p3 = unit_end(s, p2, 'W');
        let p4 = unit_end(s, p3, 'D');
        let t = p4 < s.len() && s[p4] == 'T';
        let p5 = p4 + 1;
        let p6 = unit_end(s, p5, 'H');
        let p7 = unit_end(s, p6, 'M');
        let (sec_whole, sec_frac) = match seconds_digits(s, p7) {
            Some(parts) => (Some(parts.0), parts.1),
            None => (None, None),
        };
        Some(XsDurationFields {
            negative: signed && s[0] == '-',
            years: unit_digits(s, p0, 'Y'),
            months: unit_digits(s, p1, 'M'),
            weeks: unit_digits(s, p2, 'W'),
            days: unit_digits(s, p3, 'D'),
            has_time: t,
            hours: if t { unit_digits(s, p5, 'H') } else { None },
            minutes: if t { unit_digits(s, p6, 'M') } else { None },
            seconds: if t { sec_whole } else { None },
            fraction: if t { sec_frac } else { None },
        })
    }
}

/// The number of UTF-8 bytes that encode `c`.
pub open spec fn utf8_len(c: char) -> nat {
    if (c as u32) < 128 {
        1
    } else if (c as u32) < 2048 {
        2
    } else if (c as u32) < 65536 {
        3
    } else {
        4
    }
}

/// How many leading characters of `d` fill exactly `min(budget, bytes of d)` bytes; `None` when
/// that byte count falls inside a character.
pub open spec fn fit_len(d: Seq<char>, budget: int) -> Option<nat>
    decreases d.len(),
{
    if budget <= 0 || d.len() == 0 {
        Some(0)
    } else if utf8_len(d[0]) <= budget {
        match fit_len(d.drop_first(), budget - utf8_len(d[0])) {
            Some(k) => Some(k + 1),
            None => None,
        }
    } else {
        None
    }
}

/// The value of a run of `\d` characters as a `u64`: `None` unless all are ASCII digits and the
/// value fits (as `str::parse::<u64>` decides on such a run).
pub open spec fn digits_u64(d: Seq<char>) -> Option<nat> {
    if all_ascii_digits(d) && digits_value(d) <= u64::MAX {
        Some(digits_value(d))
    } else {
        None
    }
}

/// The nanoseconds given by the fractional digits `d` of the seconds component: the leading
/// digits that fill 9 bytes (at most), right-padded with zeros to 9 digits; `Some(0)` when the
/// 9-byte cut falls inside a character; `None` when a retained digit is not ASCII.
pub open spec fn fraction_nanos(d: Seq<char>) -> Option<nat> {
    match fit_len(d, 9) {
        None => Some(0),
        Some(k) => if all_ascii_digits(d.take(k as int)) {
            Some((digits_value(d.take(k as int)) * pow(10, (9 - k) as nat)) as nat)
        } else {
            None
        },
    }
}

/// Accumulation of the components into a number of seconds.
pub enum SecondsSum {
    Total(nat),
    Malformed,
    Overflow,
}

/// Adds the component `comp`, worth `unit` seconds each, to `acc`.
pub open spec fn add_component(acc: SecondsSum, comp: Option<Seq<char>>, unit: nat) -> SecondsSum {
    match acc {
        SecondsSum::Total(t) => match comp {
            None => SecondsSum::Total(t),
            Some(d) => match digits_u64(d) {
                None => SecondsSum::Malformed,
                Some(v) => if t + v * unit > u64::MAX {
                    SecondsSum::Overflow
                } else {
                    SecondsSum::Total(t + v * unit)
                },
            },
        },
        other => other,
    }
}

/// The seconds of all components, added in the order seconds, minutes, hours, days, weeks,
/// months (30 days), years (365 days).
pub open spec fn fields_seconds(f: XsDurationFields) -> SecondsSum {
    let a1 = add_component(SecondsSum::Total(0), f.seconds, 1);
    let a2 = add_component(a1, f.minutes, 60);
    let a3 = add_component(a2, f.hours, 3600);
    let a4 = add_component(a3, f.days, 86400);
    let a5 = add_component(a4, f.weeks, 604800);
    let a6 = add_component(a5, f.months, 2592000);
    add_component(a6, f.years, 31536000)
}

/// The outcome of parsing an xs:duration string.
pub enum DurationParse {
    /// Seconds and nanoseconds.
    Value(nat, nat),
    /// Rejected, with the error message.
    Invalid(Seq<char>),
    /// The number of seconds does not fit in a `u64`.
    Overflow,
}

/// What parsing `s` as an xs:duration gives.
pub open spec fn spec_parse_xs_duration(s: Seq<char>) -> DurationParse {
    match xs_duration_fields(s) {
        None => DurationParse::Invalid(
            seq!['c','o','u','l','d','n','\'','t',' ','p','a','r','s','e',' ','X','S',' ','d','u','r','a','t','i','o','n'],
        ),
        Some(f) => if !f.has_time && f.years is None && f.months is None && f.weeks is None
            && f.days is None {
            DurationParse::Invalid(seq!['e','m','p','t','y'])
        } else {
            let ns = if f.fraction is Some { fraction_nanos(f.fraction->0) } else { Some(0) };
            match ns {
                None => DurationParse::Invalid(s),
                Some(nanos) => match fields_seconds(f) {
                    SecondsSum::Malformed => DurationParse::Invalid(s),
                    SecondsSum::Overflow => DurationParse::Overflow,
                    SecondsSum::Total(secs) => if f.negative {
                        DurationParse::Invalid(
                            seq!['c','a','n','\'','t',' ','r','e','p','r','e','s','e','n','t',' ','n','e','g','a','t','i','v','e',' ','d','u','r','a','t','i','o','n','s'],
                        )
                    } else {
                        DurationParse::Value(secs, nanos)
                    },
                },
            }
        },
    }
}

} // verus!

verus! {

/// The digits `v[a..b]` designated by a range, if any.
pub open spec fn range_chars(v: Seq<char>, r: Option<(usize, usize)>) -> Option<Seq<char>> {
    match r {
        Some(ab) => Some(v.subrange(ab.0 as int, ab.1 as int)),
        None => None,
    }
}

/// A range lies within `v`.
pub open spec fn range_ok(v: Seq<char>, r: Option<(usize, usize)>) -> bool {
    match r {
        Some(ab) => ab.0 <= ab.1 <= v.len(),
        None => true,
    }
}

/// The components of an xs:duration string, as ranges of its characters.
struct FieldRanges {
    negative: bool,
    years: Option<(usize, usize)>,
    months: Option<(usize, usize)>,
    weeks: Option<(usize, usize)>,
    days: Option<(usize, usize)>,
    has_time: bool,
    hours: Option<(usize, usize)>,
    minutes: Option<(usize, usize)>,
    seconds: Option<(usize, usize)>,
    fraction: Option<(usize, usize)>,
}

/// The ranges designate the components `f` of `v`.
spec fn ranges_match(v: Seq<char>, r: FieldRanges, f: XsDurationFields) -> bool {
    &&& r.negative == f.negative
    &&& r.has_time == f.has_time
    &&& range_chars(v, r.years) == f.years && range_ok(v, r.years)
    &&& range_chars(v, r.months) == f.months && range_ok(v, r.months)
    &&& range_chars(v, r.weeks) == f.weeks && range_ok(v, r.weeks)
    &&& range_chars(v, r.days) == f.days && range_ok(v, r.days)
    &&& range_chars(v, r.hours) == f.hours && range_ok(v, r.hours)
    &&& range_chars(v, r.minutes) == f.minutes && range_ok(v, r.minutes)
    &&& range_chars(v, r.seconds) == f.seconds && range_ok(v, r.seconds)
    &&& range_chars(v, r.fraction) == f.fraction && range_ok(v, r.fraction)
}

/// The length of the run of `\d` characters at `i`.
fn digit_run_at(v: &Vec<char>, i: usize) -> (r: usize)
    requires
        i <= v.len(),
    ensures
        r == digit_run(v@, i as int),
        i + r <= v.len(),
{
    let mut j = i;
    while j < v.len() && xs_digit(v[j])
        invariant
            i <= j <= v.len(),
            digit_run(v@, i as int) == (j - i) + digit_run(v@, j as int),
        decreases v.len() - j,
    {
        j = j + 1;
    }
    j - i
}

/// The component `<digits><letter>` at `p`: the range of its digits.
fn unit_at(v: &Vec<char>, p: usize, letter: char) -> (r: (Option<(usize, usize)>, usize))
    requires
        p <= v.len(),
    ensures
        range_chars(v@, r.0) == unit_digits(v@, p as int, letter),
        range_ok(v@, r.0),
        r.1 == unit_end(v@, p as int, letter),
        r.1 <= v.len(),
{
    let n = digit_run_at(v, p);
    if n > 0 && p + n < v.len() && v[p + n] == letter {
        (Some((p, p + n)), p + n + 1)
    } else {
        (None, p)
    }
}

/// The seconds component at `p`: the ranges of its whole and fractional digits.
fn seconds_at(v: &Vec<char>, p: usize) -> (r: (Option<(usize, usize)>, Option<(usize, usize)>))
    requires
        p <= v.len(),
    ensures
        ({
            let (w, fr) = match seconds_digits(v@, p as int) {
                Some(parts) => (Some(parts.0), parts.1),
                None => (None, None),
            };
            range_chars(v@, r.0) == w && range_chars(v@, r.1) == fr
        }),
        range_ok(v@, r.0),
        range_ok(v@, r.1),
{
    let r1 = digit_run_at(v, p);
    let q = p + r1;
    if r1 == 0 {
        return (None, None);
    }
    if q < v.len() && (v[q] == '.' || v[q] == ',') {
        let r2 = digit_run_at(v, q + 1);
        if r2 > 0 && q + 1 + r2 < v.len() && v[q + 1 + r2] == 'S' {
            return (Some((p, q)), Some((q + 1, q + 1 + r2)));
        }
    }
    if q < v.len() && v[q] == 'S' {
        (Some((p, q)), None)
    } else {
        (None, None)
    }
}

/// Matches the xs:duration pattern at the start of `v`.
fn scan_fields(v: &Vec<char>) -> (r: Option<FieldRanges>)
    ensures
        match xs_duration_fields(v@) {
            None => r is None,
            Some(f) => r is Some && ranges_match(v@, r->0, f),
        },
{
    let signed = v.len() >= 2 && (v[0] == '+' || v[0] == '-') && v[1] == 'P';
    if !signed && !(v.len() >= 1 && v[0] == 'P') {
        return None;
    }
    let p0: usize = if signed { 2 } else { 1 };
    let (years, p1) = unit_at(v, p0, 'Y');
    let (months, p2) = unit_at(v, p1, 'M');
    let (weeks, p3) = unit_at(v, p2, 'W');
    let (days, p4) = unit_at(v, p3, 'D');
    let has_time = p4 < v.len() && v[p4] == 'T';
    let mut hours = None;
    let mut minutes = None;
    let mut seconds = None;
    let mut fraction = None;
    if has_time {
        let (h, p6) = unit_at(v, p4 + 1, 'H');
        let (m, p7) = unit_at(v, p6, 'M');
        let (sw, sf) = seconds_at(v, p7);
        hours = h;
        minutes = m;
        seconds = sw;
        fraction = sf;
    }
    Some(FieldRanges {
        negative: signed && v[0] == '-',
        years,
        months,
        weeks,
        days,
        has_time,
        hours,
        minutes,
        seconds,
        fraction,
    })
}

} // verus!

verus! {

/// The value of the ASCII digit `c`.
fn digit_of(c: char) -> (d: u32)
    requires
        is_ascii_digit(c),
    ensures
        d as nat == digit_value(c),
        d < 10,
{
    (c as u32) - ('0' as u32)
}

/// `v[a..b]` read as a `u64` (see `digits_u64`).
pub(crate) fn range_u64(v: &Vec<char>, a: usize, b: usize) -> (r: Option<u64>)
    requires
        a <= b <= v.len(),
    ensures
        match digits_u64(v@.subrange(a as int, b as int)) {
            Some(x) => r == Some(x as u64),
            None => r is None,
        },
{
    let ghost d = v@.subrange(a as int, b as int);
    let mut val: u64 = 0;
    let mut j = a;
    while j < b
        invariant
            a <= j <= b <= v.len(),
            d == v@.subrange(a as int, b as int),
            all_ascii_digits(d.take(j - a)),
            val == digits_value(d.take(j - a)),
        decreases b - j,
    {
        let c = v[j];
        if !('0' <= c && c <= '9') {
            assert(!is_ascii_digit(d[j - a]));
            return None;
        }
        let ghost t = d.take(j + 1 - a);
        assert(t.drop_last() =~= d.take(j - a));
        assert(t.last() == c);
        assert(all_ascii_digits(t)) by {
            assert forall|i: int| 0 <= i < t.len() implies #[trigger] is_ascii_digit(t[i]) by {
                if i < t.len() - 1 {
                    assert(t[i] == d.take(j - a)[i]);
                }
            }
        }
        let dg = digit_of(c) as u64;
        match val.checked_mul(10) {
            None => {
                proof {
                    if all_ascii_digits(d) {
                        lemma_digits_value_prefix(d, j + 1 - a);
                        assert(d.take(j + 1 - a) == t);
                    }
                }
                return None;
            },
            Some(m) => match m.checked_add(dg) {
                None => {
                    proof {
                        if all_ascii_digits(d) {
                            lemma_digits_value_prefix(d, j + 1 - a);
                            assert(d.take(j + 1 - a) == t);
                        }
                    }
                    return None;
                },
                Some(x) => {
                    val = x;
                },
            },
        }
        j = j + 1;
    }
    assert(d.take(b - a) =~= d);
    Some(val)
}

/// The number of UTF-8 bytes that encode `c`.
fn utf8_len_of(c: char) -> (n: u32)
    ensures
        n as nat == utf8_len(c),
{
    let x = c as u32;
    if x < 128 {
        1
    } else if x < 2048 {
        2
    } else if x < 65536 {
        3
    } else {
        4
    }
}

/// The nanoseconds given by the fractional digits `v[a..b]` (see `fraction_nanos`).
fn range_nanos(v: &Vec<char>, a: usize, b: usize) -> (r: Option<u32>)
    requires
        a <= b <= v.len(),
    ensures
        match fraction_nanos(v@.subrange(a as int, b as int)) {
            Some(x) => r == Some(x as u32) && x < 1_000_000_000,
            None => r is None,
        },
{
    let ghost d = v@.subrange(a as int, b as int);
    let mut budget: u32 = 9;
    let mut i = a;
    assert(d.skip(0) =~= d);
    while budget > 0 && i < b
        invariant
            a <= i <= b <= v.len(),
            d == v@.subrange(a as int, b as int),
            (i - a) + budget <= 9,
            budget <= 9,
            fit_len(d.skip(i - a), budget as int) is None <==> fit_len(d, 9) is None,
            fit_len(d.skip(i - a), budget as int) is Some ==> fit_len(d, 9)->0
                == fit_len(d.skip(i - a), budget as int)->0 + (i - a),
        decreases b - i,
    {
        let l = utf8_len_of(v[i]);
        let ghost rest = d.skip(i - a);
        assert(rest[0] == v@[i as int]);
        assert(rest.drop_first() =~= d.skip(i + 1 - a));
        if l > budget {
            assert(fit_len(rest, budget as int) is None);
            return Some(0);
        }
        budget = budget - l;
        i = i + 1;
    }
    let k = i - a;
    assert(fit_len(d, 9) == Some(k as nat));
    // the retained digits must be ASCII
    let mut val: u32 = 0;
    let mut j = a;
    proof {
        lemma_pow10_step(0);
    }
    assert(d.take(0) =~= Seq::<char>::empty());
    while j < i
        invariant
            a <= j <= i <= b <= v.len(),
            k == i - a,
            i - a <= 9,
            d.len() == b - a,
            fit_len(d, 9) == Some(k as nat),
            d == v@.subrange(a as int, b as int),
            all_ascii_digits(d.take(j - a)),
            val == digits_value(d.take(j - a)),
            val < pow(10, (j - a) as nat),
        decreases i - j,
    {
        let c = v[j];
        if !('0' <= c && c <= '9') {
            assert(d[j - a] == v@[j as int]);
            assert(d.take(k as int)[j - a] == d[j - a]);
            assert(!is_ascii_digit(d.take(k as int)[j - a]));
            return None;
        }
        let ghost t = d.take(j + 1 - a);
        assert(t.drop_last() =~= d.take(j - a));
        assert(t.last() == c);
        assert(all_ascii_digits(t)) by {
            assert forall|q: int| 0 <= q < t.len() implies #[trigger] is_ascii_digit(t[q]) by {
                if q < t.len() - 1 {
                    assert(t[q] == d.take(j - a)[q]);
                }
            }
        }
        proof {
            lemma_pow10_step((j - a) as nat);
            lemma_pow_le_1e9((j + 1 - a) as nat);
        }
        val = val * 10 + digit_of(c);
        j = j + 1;
    }
    let ghost ss = d.take(k as int);
    assert(d.take(i - a) == ss);
    let ghost base = val as nat;
    let mut m = k;
    proof {
        lemma_pow10_step(0);
        assert((m - k) as nat == 0);
        assert(base * pow(10, 0) == base);
    }
    while m < 9
        invariant
            k <= m <= 9,
            val == base * pow(10, (m - k) as nat),
            val < pow(10, m as nat),
        decreases 9 - m,
    {
        proof {
            lemma_pow10_step((m - k) as nat);
            lemma_pow10_step(m as nat);
            lemma_pow_le_1e9((m + 1) as nat);
            assert(base * pow(10, (m - k) as nat) * 10 == base * (10 * pow(10, (m - k) as nat)))
                by (nonlinear_arith);
            assert((m + 1 - k) as nat == (m - k) as nat + 1);
        }
        val = val * 10;
        m = m + 1;
    }
    proof {
        lemma_pow_le_1e9(9);
        lemma_pow10_step(9);
    }
    Some(val)
}

proof fn lemma_pow_le_1e9(e: nat)
    requires
        e <= 9,
    ensures
        pow(10, e) <= 1_000_000_000,
{
    reveal_with_fuel(pow, 10);
    assert(pow(10, 9) == 1_000_000_000);
    vstd::arithmetic::power::lemma_pow_adds(10, e, (9 - e) as nat);
    vstd::arithmetic::power::lemma_pow_positive(10, (9 - e) as nat);
    vstd::arithmetic::power::lemma_pow_positive(10, e);
    let x = pow(10, e);
    let y = pow(10, (9 - e) as nat);
    assert(x <= x * y) by (nonlinear_arith)
        requires
            y >= 1,
            x >= 1,
    ;
}

} // verus!

verus! {

/// The running sum of the components.
enum SumState {
    Total(u64),
    Malformed,
    Overflow,
}

spec fn sum_view(s: SumState) -> SecondsSum {
    match s {
        SumState::Total(t) => SecondsSum::Total(t as nat),
        SumState::Malformed => SecondsSum::Malformed,
        SumState::Overflow => SecondsSum::Overflow,
    }
}

/// Adds the component `v[range]`, worth `unit` seconds each, to `acc`.
fn add_range_component(v: &Vec<char>, acc: SumState, comp: Option<(usize, usize)>, unit: u64) -> (r: SumState)
    requires
        range_ok(v@, comp),
    ensures
        sum_view(r) == add_component(sum_view(acc), range_chars(v@, comp), unit as nat),
{
    match acc {
        SumState::Total(t) => match comp {
            None => SumState::Total(t),
            Some((a, b)) => match range_u64(v, a, b) {
                None => SumState::Malformed,
                Some(x) => match x.checked_mul(unit) {
                    None => SumState::Overflow,
                    Some(p) => match t.checked_add(p) {
                        None => SumState::Overflow,
                        Some(total) => SumState::Total(total),
                    },
                },
            },
        },
        other => other,
    }
}

/// The outcome of parsing, in executable form.
enum ParseOutcome {
    Value(XsDuration),
    Invalid(String),
    Overflow,
}

spec fn outcome_matches(o: ParseOutcome, p: DurationParse) -> bool {
    match p {
        DurationParse::Value(secs, nanos) => o == ParseOutcome::Value(
            XsDuration { secs: secs as u64, nanos: nanos as u32 },
        ),
        DurationParse::Invalid(msg) => o matches ParseOutcome::Invalid(m) && m@ == msg,
        DurationParse::Overflow => o is Overflow,
    }
}

fn parse_outcome(s: &str) -> (o: ParseOutcome)
    ensures
        outcome_matches(o, spec_parse_xs_duration(s@)),
        o matches ParseOutcome::Value(d) ==> d.wf(),
{
    let v = chars_of(s);
    let fields = match scan_fields(&v) {
        None => {
            let m = "couldn't parse XS duration".to_owned();
            proof {
                reveal_strlit("couldn't parse XS duration");
            }
            assert(m@ =~= seq!['c','o','u','l','d','n','\'','t',' ','p','a','r','s','e',' ','X','S',' ','d','u','r','a','t','i','o','n']);
            return ParseOutcome::Invalid(m);
        },
        Some(f) => f,
    };
    let ghost f = xs_duration_fields(v@)->0;
    if !fields.has_time && fields.years.is_none() && fields.months.is_none()
        && fields.weeks.is_none() && fields.days.is_none() {
        let m = "empty".to_owned();
        proof {
            reveal_strlit("empty");
        }
        assert(m@ =~= seq!['e','m','p','t','y']);
        return ParseOutcome::Invalid(m);
    }
    let nanos: u32 = match fields.fraction {
        None => 0,
        Some((a, b)) => match range_nanos(&v, a, b) {
            None => {
                return ParseOutcome::Invalid(s.to_owned());
            },
            Some(n) => n,
        },
    };
    let acc = add_range_component(&v, SumState::Total(0), fields.seconds, 1);
    let acc = add_range_component(&v, acc, fields.minutes, 60);
    let acc = add_range_component(&v, acc, fields.hours, 3600);
    let acc = add_range_component(&v, acc, fields.days, 86400);
    let acc = add_range_component(&v, acc, fields.weeks, 604800);
    let acc = add_range_component(&v, acc, fields.months, 2592000);
    let acc = add_range_component(&v, acc, fields.years, 31536000);
    match acc {
        SumState::Malformed => ParseOutcome::Invalid(s.to_owned()),
        SumState::Overflow => ParseOutcome::Overflow,
        SumState::Total(secs) => {
            if fields.negative {
                let m = "can't represent negative durations".to_owned();
                proof {
                    reveal_strlit("can't represent negative durations");
                }
                assert(m@ =~= seq!['c','a','n','\'','t',' ','r','e','p','r','e','s','e','n','t',' ','n','e','g','a','t','i','v','e',' ','d','u','r','a','t','i','o','n','s']);
                ParseOutcome::Invalid(m)
            } else {
                ParseOutcome::Value(XsDuration { secs, nanos })
            }
        },
    }
}

/// Whether the number of seconds written in the xs:duration string `s` is too large for a `u64`
/// (the inputs that `parse_xs_duration` does not accept).
pub fn xs_duration_overflows(s: &str) -> (r: bool)
    ensures
        r == (spec_parse_xs_duration(s@) is Overflow),
{
    match parse_outcome(s) {
        ParseOutcome::Overflow => true,
        _ => false,
    }
}

/// Parses an xs:duration string such as `PT1M30.5S` or `P1Y2M3DT4H5M6.7S`. Years count 365 days,
/// months 30 days; fractional digits are kept to nanosecond precision (truncated). Negative
/// durations are rejected.
pub fn parse_xs_duration(s: &str) -> (r: Result<XsDuration, DashMpdError>)
    requires
        !(spec_parse_xs_duration(s@) is Overflow),
    ensures
        match spec_parse_xs_duration(s@) {
            DurationParse::Value(secs, nanos) => r == Ok::<XsDuration, DashMpdError>(
                XsDuration { secs: secs as u64, nanos: nanos as u32 },
            ),
            DurationParse::Invalid(msg) => r matches Err(DashMpdError::InvalidDuration(m)) && m@
                == msg,
            DurationParse::Overflow => false,
        },
        r matches Ok(d) ==> d.wf(),
{
    match parse_outcome(s) {
        ParseOutcome::Value(d) => Ok(d),
        ParseOutcome::Invalid(m) => Err(DashMpdError::InvalidDuration(m)),
        ParseOutcome::Overflow => {
            assert(false);
            Err(DashMpdError::Other(String::new()))
        },
    }
}

} // verus!

verus! {

/// `s` without its trailing `'0'` characters.
pub open spec fn trim_trailing_zeros(s: Seq<char>) -> Seq<char>
    decreases s.len(),
{
    if s.len() > 0 && s.last() == '0' {
        trim_trailing_zeros(s.drop_last())
    } else {
        s
    }
}

/// The fractional part written for `nanos` nanoseconds: empty for zero, otherwise a point and the
/// nine-digit zero-padded value without its trailing zeros.
pub open spec fn xs_fraction(nanos: nat) -> Seq<char> {
    if nanos > 0 {
        seq!['.'] + trim_trailing_zeros(pad_left_zeros(decimal(nanos), 9))
    } else {
        Seq::<char>::empty()
    }
}

/// The xs:duration text written for `d`: `PT<h>H<m>M<s>[.<frac>]S` when it lasts an hour or more,
/// `PT<m>M<s>[.<frac>]S` when it lasts a minute or more, `PT<s>[.<frac>]S` otherwise.
pub open spec fn spec_serialize_xs_duration(d: XsDuration) -> Seq<char> {
    let seconds = d.secs as nat;
    let minutes = seconds / 60;
    let hours = if minutes > 59 { minutes / 60 } else { 0 };
    let f = xs_fraction(d.nanos as nat);
    if hours > 0 {
        seq!['P', 'T'] + decimal(hours) + seq!['H'] + decimal(minutes % 60) + seq!['M']
            + decimal(seconds % 60) + f + seq!['S']
    } else if minutes > 0 {
        seq!['P', 'T'] + decimal(minutes) + seq!['M'] + decimal(seconds % 60) + f + seq!['S']
    } else {
        seq!['P', 'T'] + decimal(seconds) + f + seq!['S']
    }
}

/// Appends the fractional part for `nanos` to `out`.
fn push_fraction(out: &mut String, nanos: u32)
    ensures
        final(out)@ == old(out)@ + xs_fraction(nanos as nat),
{
    if nanos == 0 {
        assert(xs_fraction(0) =~= Seq::<char>::empty());
        assert(old(out)@ + Seq::<char>::empty() =~= old(out)@);
        return;
    }
    let dg = decimal_chars(nanos as u64);
    let mut padded: Vec<char> = Vec::new();
    let mut z: usize = 0;
    let width: usize = if dg.len() < 9 { 9 - dg.len() } else { 0 };
    while z < width
        invariant
            z <= width,
            padded@ == crate::digits::zeros(z as nat),
        decreases width - z,
    {
        padded.push('0');
        z = z + 1;
        assert(padded@ =~= crate::digits::zeros(z as nat));
    }
    let mut i: usize = 0;
    while i < dg.len()
        invariant
            i <= dg.len(),
            padded@ == crate::digits::zeros(width as nat) + dg@.take(i as int),
        decreases dg.len() - i,
    {
        padded.push(dg[i]);
        assert(dg@.take(i as int).push(dg@[i as int]) =~= dg@.take(i + 1));
        i = i + 1;
    }
    assert(dg@.take(dg.len() as int) =~= dg@);
    assert(padded@ =~= pad_left_zeros(decimal(nanos as nat), 9));
    while padded.len() > 0 && padded[padded.len() - 1] == '0'
        invariant
            trim_trailing_zeros(padded@) == trim_trailing_zeros(pad_left_zeros(decimal(nanos as nat), 9)),
        decreases padded.len(),
    {
        padded.pop();
    }
    push_char(out, '.');
    push_chars(out, padded.as_slice());
    assert(old(out)@.push('.') + padded@ =~= old(out)@ + xs_fraction(nanos as nat));
}

/// Appends the decimal notation of `n` to `out`.
fn push_decimal(out: &mut String, n: u64)
    ensures
        final(out)@ == old(out)@ + decimal(n as nat),
{
    let dg = decimal_chars(n);
    push_chars(out, dg.as_slice());
}

/// Writes `d` in xs:duration format, with hour and minute counts when it lasts that long,
/// without trailing zeros, and with the fractional seconds to nanosecond precision. For example
/// 3600 s and 40 000 000 ns give `PT1H0M0.04S`.
pub fn serialize_xs_duration(d: &XsDuration) -> (r: String)
    ensures
        r@ == spec_serialize_xs_duration(*d),
{
    let seconds = d.secs;
    let minutes = seconds / 60;
    let hours = if minutes > 59 { minutes / 60 } else { 0 };
    let mut out = String::new();
    push_char(&mut out, 'P');
    push_char(&mut out, 'T');
    if hours > 0 {
        push_decimal(&mut out, hours);
        push_char(&mut out, 'H');
        push_decimal(&mut out, minutes % 60);
        push_char(&mut out, 'M');
        push_decimal(&mut out, seconds % 60);
    } else if minutes > 0 {
        push_decimal(&mut out, minutes);
        push_char(&mut out, 'M');
        push_decimal(&mut out, seconds % 60);
    } else {
        push_decimal(&mut out, seconds);
    }
    push_fraction(&mut out, d.nanos);
    push_char(&mut out, 'S');
    assert(out@ =~= spec_serialize_xs_duration(*d));
    out
}

} // verus!

verus! {

proof fn lemma_digit_run_exact(s: Seq<char>, i: int, n: nat)
    requires
        0 <= i,
        i + n < s.len(),
        forall|k: int| i <= k < i + n ==> #[trigger] is_ascii_digit(s[k]),
        !is_ascii_digit(s[i + n]),
        (s[i + n] as u32) < 128,
    ensures
        digit_run(s, i) == n,
    decreases n,
{
    if n > 0 {
        lemma_digit_run_exact(s, i + 1, (n - 1) as nat);
        assert(is_ascii_digit(s[i]));
    }
}

/// A component `<digits><letter>` made of the digits `d` at `p`.
proof fn lemma_component(s: Seq<char>, p: int, d: Seq<char>, letter: char)
    requires
        0 <= p,
        p + d.len() < s.len(),
        d.len() > 0,
        all_ascii_digits(d),
        s.subrange(p, p + d.len()) == d,
        s[p + d.len()] == letter,
        !is_ascii_digit(letter),
        (letter as u32) < 128,
    ensures
        unit_digits(s, p, letter) == Some(d),
        unit_end(s, p, letter) == p + d.len() + 1,
{
    assert forall|k: int| p <= k < p + d.len() implies #[trigger] is_ascii_digit(s[k]) by {
        assert(s[k] == d[k - p]);
    }
    lemma_digit_run_exact(s, p, d.len());
}

/// No component with the letter `letter` starts at `p` when `s[p]` is an ASCII non-digit.
proof fn lemma_no_component(s: Seq<char>, p: int, letter: char)
    requires
        0 <= p < s.len(),
        !is_ascii_digit(s[p]),
        (s[p] as u32) < 128,
    ensures
        unit_digits(s, p, letter) is None,
        unit_end(s, p, letter) == p,
{
    lemma_digit_run_exact(s, p, 0);
}

proof fn lemma_trim(s: Seq<char>)
    ensures
        trim_trailing_zeros(s).len() <= s.len(),
        s =~= trim_trailing_zeros(s) + zeros((s.len() - trim_trailing_zeros(s).len()) as nat),
    decreases s.len(),
{
    if s.len() > 0 && s.last() == '0' {
        lemma_trim(s.drop_last());
        let t = trim_trailing_zeros(s.drop_last());
        let k = (s.drop_last().len() - t.len()) as nat;
        assert(s =~= s.drop_last().push('0'));
        assert(zeros(k).push('0') =~= zeros(k + 1));
        assert(s =~= t + zeros(k + 1));
    } else {
        assert(s =~= s + zeros(0));
    }
}

proof fn lemma_decimal_len(n: nat, k: nat)
    requires
        k >= 1,
        n < pow(10, k),
    ensures
        decimal(n).len() <= k,
    decreases n,
{
    if n >= 10 {
        lemma_pow10_step((k - 1) as nat);
        if k == 1 {
            assert(pow(10, 1) == 10 * pow(10, 0));
            lemma_pow10_step(0);
        } else {
            assert(n / 10 < pow(10, (k - 1) as nat));
            lemma_decimal_len(n / 10, (k - 1) as nat);
        }
    }
}

proof fn lemma_fit_ascii(d: Seq<char>, budget: int)
    requires
        forall|i: int| 0 <= i < d.len() ==> #[trigger] is_ascii_digit(d[i]),
        d.len() <= budget,
    ensures
        fit_len(d, budget) == Some(d.len()),
    decreases d.len(),
{
    if d.len() > 0 {
        assert(is_ascii_digit(d[0]));
        assert forall|i: int| 0 <= i < d.drop_first().len() implies #[trigger] is_ascii_digit(
            d.drop_first()[i],
        ) by {
            assert(d.drop_first()[i] == d[i + 1]);
        }
        lemma_fit_ascii(d.drop_first(), budget - 1);
    }
}

/// The digits written after the point for `nanos`, and what they are worth when read back.
proof fn lemma_fraction_digits(nanos: nat)
    requires
        0 < nanos < 1_000_000_000,
    ensures
        ({
            let t = trim_trailing_zeros(pad_left_zeros(decimal(nanos), 9));
            &&& t.len() > 0
            &&& all_ascii_digits(t)
            &&& fraction_nanos(t) == Some(nanos)
        }),
{
    let dn = decimal(nanos);
    lemma_decimal(nanos);
    reveal_with_fuel(pow, 10);
    lemma_decimal_len(nanos, 9);
    let p9 = pad_left_zeros(dn, 9);
    let w = (9 - dn.len()) as nat;
    assert(p9 =~= zeros(w) + dn);
    lemma_zeros_value(w);
    lemma_leading_zeros_value(w, dn);
    assert(all_ascii_digits(p9)) by {
        assert forall|i: int| 0 <= i < p9.len() implies #[trigger] is_ascii_digit(p9[i]) by {
            if i < w {
                assert(p9[i] == '0');
            } else {
                assert(p9[i] == dn[i - w]);
            }
        }
    }
    let t = trim_trailing_zeros(p9);
    lemma_trim(p9);
    let k = (9 - t.len()) as nat;
    assert(p9 =~= t + zeros(k));
    assert(all_ascii_digits(t)) by {
        assert forall|i: int| 0 <= i < t.len() implies #[trigger] is_ascii_digit(t[i]) by {
            assert(t[i] == p9[i]);
        }
    }
    lemma_digits_value_append(t, zeros(k));
    lemma_zeros_value(k);
    assert(digits_value(p9) == nanos);
    if t.len() == 0 {
        assert(p9 =~= zeros(k));
        assert(false);
    }
    lemma_fit_ascii(t, 9);
    assert(t.take(t.len() as int) =~= t);
    assert(fit_len(t, 9) == Some(t.len()));
    assert(digits_value(t) * pow(10, k) == nanos);
    assert((9 - t.len()) as nat == k);
}

/// The seconds component written as `se`, the fraction for `nanos`, and `S`.
proof fn lemma_seconds_tail(s: Seq<char>, p: int, se: Seq<char>, nanos: nat)
    requires
        0 <= p <= s.len(),
        nanos < 1_000_000_000,
        se.len() > 0,
        all_ascii_digits(se),
        s.subrange(p, s.len() as int) == se + xs_fraction(nanos) + seq!['S'],
    ensures
        seconds_digits(s, p) == Some(
            (
                se,
                if nanos > 0 {
                    Some(trim_trailing_zeros(pad_left_zeros(decimal(nanos), 9)))
                } else {
                    None
                },
            ),
        ),
{
    let tail = s.subrange(p, s.len() as int);
    let q = p + se.len();
    assert(tail.len() == s.len() - p);
    assert(tail.len() == se.len() + xs_fraction(nanos).len() + 1);
    assert forall|k: int| p <= k < q implies #[trigger] is_ascii_digit(s[k]) by {
        assert(s[k] == tail[k - p]);
        assert(tail[k - p] == se[k - p]);
    }
    assert(s.subrange(p, q) =~= se) by {
        assert forall|k: int| 0 <= k < se.len() implies s.subrange(p, q)[k] == se[k] by {
            assert(s[p + k] == tail[k]);
        }
    }
    if nanos > 0 {
        let t = trim_trailing_zeros(pad_left_zeros(decimal(nanos), 9));
        lemma_fraction_digits(nanos);
        assert(tail =~= se + seq!['.'] + t + seq!['S']);
        assert(s[q] == tail[se.len() as int]);
        assert(s[q] == '.');
        assert forall|k: int| q + 1 <= k < q + 1 + t.len() implies #[trigger] is_ascii_digit(s[k]) by {
            assert(s[k] == tail[k - p]);
            assert(tail[k - p] == t[k - q - 1]);
        }
        assert(s[q + 1 + t.len()] == tail[q + 1 + t.len() - p]);
        assert(s[q + 1 + t.len()] == 'S');
        lemma_digit_run_exact(s, q + 1, t.len());
        assert(s.subrange(q + 1, q + 1 + t.len()) =~= t) by {
            assert forall|k: int| 0 <= k < t.len() implies s.subrange(q + 1, q + 1 + t.len())[k]
                == t[k] by {
                assert(s[q + 1 + k] == tail[q + 1 + k - p]);
            }
        }
        lemma_digit_run_exact(s, p, se.len());
    } else {
        assert(tail =~= se + seq!['S']);
        assert(s[q] == tail[se.len() as int]);
        assert(s[q] == 'S');
        lemma_digit_run_exact(s, p, se.len());
    }
}

/// The components that parsing finds in the text written for `d`.
spec fn serialized_fields(d: XsDuration) -> XsDurationFields {
    let seconds = d.secs as nat;
    let minutes = seconds / 60;
    let hours = if minutes > 59 { minutes / 60 } else { 0 };
    XsDurationFields {
        negative: false,
        years: None,
        months: None,
        weeks: None,
        days: None,
        has_time: true,
        hours: if hours > 0 { Some(decimal(hours)) } else { None },
        minutes: if minutes > 0 { Some(decimal(minutes % 60)) } else { None },
        seconds: Some(decimal(seconds % 60)),
        fraction: if d.nanos > 0 {
            Some(trim_trailing_zeros(pad_left_zeros(decimal(d.nanos as nat), 9)))
        } else {
            None
        },
    }
}

proof fn lemma_serialized_prefix(s: Seq<char>)
    requires
        s.len() >= 3,
        s[0] == 'P',
        s[1] == 'T',
    ensures
        unit_digits(s, 1, 'Y') is None && unit_end(s, 1, 'Y') == 1,
        unit_digits(s, 1, 'M') is None && unit_end(s, 1, 'M') == 1,
        unit_digits(s, 1, 'W') is None && unit_end(s, 1, 'W') == 1,
        unit_digits(s, 1, 'D') is None && unit_end(s, 1, 'D') == 1,
{
    lemma_no_component(s, 1, 'Y');
    lemma_no_component(s, 1, 'M');
    lemma_no_component(s, 1, 'W');
    lemma_no_component(s, 1, 'D');
}

#[verifier::rlimit(50)]
proof fn lemma_fields_with_hours(d: XsDuration)
    requires
        d.wf(),
        d.secs / 60 > 59,
    ensures
        xs_duration_fields(spec_serialize_xs_duration(d)) == Some(serialized_fields(d)),
{
    let s = spec_serialize_xs_duration(d);
    let seconds = d.secs as nat;
    let minutes = seconds / 60;
    let hours = minutes / 60;
    let f = xs_fraction(d.nanos as nat);
    let h = decimal(hours);
    let mi = decimal(minutes % 60);
    let se = decimal(seconds % 60);
    lemma_decimal(hours);
    lemma_decimal(minutes % 60);
    lemma_decimal(seconds % 60);
    assert(s =~= seq!['P', 'T'] + h + seq!['H'] + mi + seq!['M'] + se + f + seq!['S']);
    lemma_serialized_prefix(s);
    let hl = h.len() as int;
    assert(s.subrange(2, 2 + hl) =~= h);
    assert(s[2 + hl] == 'H');
    lemma_component(s, 2, h, 'H');
    let p6: int = 3 + hl;
    let ml = mi.len() as int;
    assert(s.subrange(p6, p6 + ml) =~= mi);
    assert(s[p6 + ml] == 'M');
    lemma_component(s, p6, mi, 'M');
    let p7: int = p6 + ml + 1;
    assert(s.subrange(p7, s.len() as int) =~= se + f + seq!['S']);
    lemma_seconds_tail(s, p7, se, d.nanos as nat);
}

#[verifier::rlimit(50)]
proof fn lemma_fields_with_minutes(d: XsDuration)
    requires
        d.wf(),
        0 < d.secs / 60 <= 59,
    ensures
        xs_duration_fields(spec_serialize_xs_duration(d)) == Some(serialized_fields(d)),
{
    let s = spec_serialize_xs_duration(d);
    let seconds = d.secs as nat;
    let minutes = seconds / 60;
    let f = xs_fraction(d.nanos as nat);
    let mi = decimal(minutes);
    let se = decimal(seconds % 60);
    lemma_decimal(minutes);
    lemma_decimal(seconds % 60);
    assert(minutes % 60 == minutes);
    assert(s =~= seq!['P', 'T'] + mi + seq!['M'] + se + f + seq!['S']);
    lemma_serialized_prefix(s);
    let ml = mi.len() as int;
    assert(s.subrange(2, 2 + ml) =~= mi);
    assert(s[2 + ml] == 'M');
    lemma_component(s, 2, mi, 'M');
    assert(unit_digits(s, 2, 'H') is None);
    assert(unit_end(s, 2, 'H') == 2);
    let p7: int = 3 + ml;
    assert(s.subrange(p7, s.len() as int) =~= se + f + seq!['S']);
    lemma_seconds_tail(s, p7, se, d.nanos as nat);
}

#[verifier::rlimit(50)]
proof fn lemma_fields_seconds_only(d: XsDuration)
    requires
        d.wf(),
        d.secs / 60 == 0,
    ensures
        xs_duration_fields(spec_serialize_xs_duration(d)) == Some(serialized_fields(d)),
{
    let s = spec_serialize_xs_duration(d);
    let seconds = d.secs as nat;
    let f = xs_fraction(d.nanos as nat);
    let se = decimal(seconds);
    lemma_decimal(seconds);
    assert(seconds % 60 == seconds);
    assert(s =~= seq!['P', 'T'] + se + f + seq!['S']);
    lemma_serialized_prefix(s);
    assert(s.subrange(2, s.len() as int) =~= se + f + seq!['S']);
    lemma_seconds_tail(s, 2, se, d.nanos as nat);
    assert forall|k: int| 2 <= k < 2 + (se.len() as int) implies #[trigger] is_ascii_digit(s[k]) by {
        assert(s[k] == se[k - 2]);
    }
    assert(s[2 + (se.len() as int)] == (f + seq!['S'])[0]);
    if d.nanos > 0 {
        assert(s[2 + (se.len() as int)] == '.');
    } else {
        assert(s[2 + (se.len() as int)] == 'S');
    }
    lemma_digit_run_exact(s, 2, se.len());
}

/// The components of the serialized text add up to the duration.
proof fn lemma_serialized_value(d: XsDuration)
    requires
        d.wf(),
    ensures
        fields_seconds(serialized_fields(d)) == SecondsSum::Total(d.secs as nat),
        serialized_fields(d).fraction is Some ==> fraction_nanos(serialized_fields(d).fraction->0)
            == Some(d.nanos as nat),
{
    let seconds = d.secs as nat;
    let minutes = seconds / 60;
    let hours = if minutes > 59 { minutes / 60 } else { 0 };
    lemma_decimal(hours);
    lemma_decimal(minutes % 60);
    lemma_decimal(seconds % 60);
    if d.nanos > 0 {
        lemma_fraction_digits(d.nanos as nat);
    }
    assert(seconds == minutes * 60 + seconds % 60);
    if minutes > 59 {
        assert(minutes == hours * 60 + minutes % 60);
    } else {
        assert(minutes % 60 == minutes);
    }
}

/// Serializing a duration and parsing the text back gives the same duration.
pub proof fn lemma_xs_duration_roundtrip(d: XsDuration)
    requires
        d.wf(),
    ensures
        spec_parse_xs_duration(spec_serialize_xs_duration(d)) == DurationParse::Value(
            d.secs as nat,
            d.nanos as nat,
        ),
{
    if d.secs / 60 > 59 {
        lemma_fields_with_hours(d);
    } else if d.secs / 60 > 0 {
        lemma_fields_with_minutes(d);
    } else {
        lemma_fields_seconds_only(d);
    }
    lemma_serialized_value(d);
}

} // verus!
