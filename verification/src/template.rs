//! URL templates of SegmentTemplate elements (`$Number$`, `$Time%05d$`, ...), and small URL and
//! XML helpers used when planning downloads.

use vstd::prelude::*;
use crate::digits::{is_xs_digit, xs_digit, is_ascii_digit, digit_value, pad_left_zeros, zeros};
use crate::text::{chars_of, string_from_chars, occurs_at, occurs_at_exec, opt_view};

verus! {

/// The values substituted for the identifiers of a URL template. An identifier whose value is
/// absent is left in place.
#[derive(Debug, Clone, Default)]
pub struct TemplateParams {
    /// Value of `$RepresentationID$`.
    pub representation_id: Option<String>,
    /// Value of `$Number$`.
    pub number: Option<String>,
    /// Value of `$Time$`.
    pub time: Option<String>,
    /// Value of `$Bandwidth$`.
    pub bandwidth: Option<String>,
}

/// `s` with every occurrence of `pat`, from left to right and without overlap, replaced by `v`
/// (as `str::replace` does).
pub open spec fn replace_all(s: Seq<char>, pat: Seq<char>, v: Seq<char>) -> Seq<char>
    decreases s.len(),
{
    if pat.len() == 0 || s.len() < pat.len() {
        s
    } else if s.take(pat.len() as int) == pat {
        v + replace_all(s.skip(pat.len() as int), pat, v)
    } else {
        seq![s[0]] + replace_all(s.skip(1), pat, v)
    }
}

/// The pattern `$<name>%0<d>d$`, where `<d>` is one `\d` character, is found at position `i`.
pub open spec fn width_pattern_at(s: Seq<char>, name: Seq<char>, i: int) -> bool {
    let head = seq!['$'] + name + seq!['%', '0'];
    let j = i + head.len();
    occurs_at(s, head, i) && j + 2 < s.len() && is_xs_digit(s[j]) && s[j + 1] == 'd' && s[j + 2]
        == '$'
}

/// The first position at or after `i` where `width_pattern_at` holds.
pub open spec fn first_width_pattern(s: Seq<char>, name: Seq<char>, i: int) -> Option<int>
    decreases s.len() - i,
{
    if i < 0 || i >= s.len() {
        None
    } else if width_pattern_at(s, name, i) {
        Some(i)
    } else {
        first_width_pattern(s, name, i + 1)
    }
}

/// One identifier of the template: every `$<name>$` is replaced by the value, then the first
/// `$<name>%0<d>d$` is replaced by the value left-padded with zeros to `<d>` characters (when `<d>`
/// is an ASCII digit).
pub open spec fn resolve_identifier(s: Seq<char>, name: Seq<char>, val: Option<Seq<char>>) -> Seq<char> {
    match val {
        None => s,
        Some(v) => {
            let s1 = replace_all(s, seq!['$'] + name + seq!['$'], v);
            match first_width_pattern(s1, name, 0) {
                None => s1,
                Some(i) => {
                    let j = i + name.len() + 3;
                    if is_ascii_digit(s1[j]) {
                        s1.take(i) + pad_left_zeros(v, digit_value(s1[j])) + s1.skip(j + 3)
                    } else {
                        s1
                    }
                },
            }
        },
    }
}

pub open spec fn name_representation_id() -> Seq<char> {
    seq!['R', 'e', 'p', 'r', 'e', 's', 'e', 'n', 't', 'a', 't', 'i', 'o', 'n', 'I', 'D']
}

pub open spec fn name_number() -> Seq<char> {
    seq!['N', 'u', 'm', 'b', 'e', 'r']
}

pub open spec fn name_time() -> Seq<char> {
    seq!['T', 'i', 'm', 'e']
}

pub open spec fn name_bandwidth() -> Seq<char> {
    seq!['B', 'a', 'n', 'd', 'w', 'i', 'd', 't', 'h']
}

/// The URL given by the template `t`: the identifiers RepresentationID, Number, Time and
/// Bandwidth are resolved in that order.
pub open spec fn spec_resolve_url_template(t: Seq<char>, p: TemplateParams) -> Seq<char> {
    resolve_template_values(
        t,
        opt_view(p.representation_id),
        opt_view(p.number),
        opt_view(p.time),
        opt_view(p.bandwidth),
    )
}

/// The URL given by the template `t` for the values of RepresentationID, Number, Time and
/// Bandwidth, resolved in that order.
pub open spec fn resolve_template_values(
    t: Seq<char>,
    representation_id: Option<Seq<char>>,
    number: Option<Seq<char>>,
    time: Option<Seq<char>>,
    bandwidth: Option<Seq<char>>,
) -> Seq<char> {
    let s1 = resolve_identifier(t, name_representation_id(), representation_id);
    let s2 = resolve_identifier(s1, name_number(), number);
    let s3 = resolve_identifier(s2, name_time(), time);
    resolve_identifier(s3, name_bandwidth(), bandwidth)
}

/// `s` with every occurrence of `pat` replaced by `v`.
fn replace_all_exec(s: &Vec<char>, pat: &Vec<char>, v: &Vec<char>) -> (r: Vec<char>)
    ensures
        r@ == replace_all(s@, pat@, v@),
{
    if pat.len() == 0 {
        return s.clone();
    }
    let mut out: Vec<char> = Vec::new();
    let mut i: usize = 0;
    assert(s@.skip(0) =~= s@);
    while i < s.len()
        invariant
            i <= s.len(),
            pat@.len() > 0,
            replace_all(s@, pat@, v@) == out@ + replace_all(s@.skip(i as int), pat@, v@),
        decreases s.len() - i,
    {
        let ghost rest = s@.skip(i as int);
        if pat.len() <= s.len() - i && occurs_at_exec(s, pat, i) {
            assert(rest.take(pat.len() as int) =~= s@.subrange(i as int, i + pat.len()));
            assert(rest.skip(pat.len() as int) =~= s@.skip(i + pat.len()));
            let mut k: usize = 0;
            let ghost before = out@;
            while k < v.len()
                invariant
                    k <= v.len(),
                    out@ == before + v@.take(k as int),
                decreases v.len() - k,
            {
                out.push(v[k]);
                assert(v@.take(k as int).push(v@[k as int]) =~= v@.take(k + 1));
                k = k + 1;
            }
            assert(v@.take(v.len() as int) =~= v@);
            assert(before + (v@ + replace_all(s@.skip(i + pat.len()), pat@, v@)) =~= out@
                + replace_all(s@.skip(i + pat.len()), pat@, v@));
            i = i + pat.len();
        } else {
            if pat.len() <= s.len() - i {
                assert(rest.take(pat.len() as int) =~= s@.subrange(i as int, i + pat.len()));
            }
            assert(rest.skip(1) =~= s@.skip(i + 1));
            assert(rest[0] == s@[i as int]);
            let ghost before = out@;
            out.push(s[i]);
            assert(before + (seq![s@[i as int]] + replace_all(s@.skip(i + 1), pat@, v@)) =~= out@
                + replace_all(s@.skip(i + 1), pat@, v@));
            i = i + 1;
        }
    }
    assert(s@.skip(i as int) =~= Seq::<char>::empty());
    assert(out@ + Seq::<char>::empty() =~= out@);
    out
}

} // verus!

verus! {

/// The characters `$<name>%0`.
fn width_head(name: &Vec<char>) -> (h: Vec<char>)
    ensures
        h@ == seq!['$'] + name@ + seq!['%', '0'],
{
    let mut h: Vec<char> = Vec::new();
    h.push('$');
    let mut k: usize = 0;
    while k < name.len()
        invariant
            k <= name.len(),
            h@ == seq!['$'] + name@.take(k as int),
        decreases name.len() - k,
    {
        h.push(name[k]);
        assert(name@.take(k as int).push(name@[k as int]) =~= name@.take(k + 1));
        k = k + 1;
    }
    assert(name@.take(name.len() as int) =~= name@);
    h.push('%');
    h.push('0');
    assert(h@ =~= seq!['$'] + name@ + seq!['%', '0']);
    h
}

/// The first position where `$<name>%0<d>d$` occurs in `s`.
fn first_width_pattern_exec(s: &Vec<char>, name: &Vec<char>) -> (r: Option<usize>)
    ensures
        match r {
            Some(i) => first_width_pattern(s@, name@, 0) == Some(i as int),
            None => first_width_pattern(s@, name@, 0) is None,
        },
        r matches Some(i) ==> width_pattern_at(s@, name@, i as int),
{
    let head = width_head(name);
    let mut i: usize = 0;
    while i < s.len()
        invariant
            i <= s.len(),
            head@ == seq!['$'] + name@ + seq!['%', '0'],
            first_width_pattern(s@, name@, 0) == first_width_pattern(s@, name@, i as int),
        decreases s.len() - i,
    {
        if occurs_at_exec(s, &head, i) {
            let j = i + head.len();
            if j < s.len() && s.len() - j > 2 && xs_digit(s[j]) && s[j + 1] == 'd' && s[j + 2]
                == '$' {
                return Some(i);
            }
        }
        i = i + 1;
    }
    None
}

/// The characters of an optional value.
fn opt_chars(o: &Option<String>) -> (r: Option<Vec<char>>)
    ensures
        match opt_view(*o) {
            Some(v) => r is Some && r->0@ == v,
            None => r is None,
        },
{
    match o {
        Some(s) => Some(chars_of(s.as_str())),
        None => None,
    }
}

/// Resolves one identifier of the template (see `resolve_identifier`).
fn resolve_identifier_exec(s: Vec<char>, name: &Vec<char>, val: &Option<String>) -> (r: Vec<char>)
    ensures
        r@ == resolve_identifier(s@, name@, opt_view(*val)),
{
    let v = match opt_chars(val) {
        None => return s,
        Some(v) => v,
    };
    let mut ident: Vec<char> = Vec::new();
    ident.push('$');
    let mut k: usize = 0;
    while k < name.len()
        invariant
            k <= name.len(),
            ident@ == seq!['$'] + name@.take(k as int),
        decreases name.len() - k,
    {
        ident.push(name[k]);
        assert(name@.take(k as int).push(name@[k as int]) =~= name@.take(k + 1));
        k = k + 1;
    }
    assert(name@.take(name.len() as int) =~= name@);
    ident.push('$');
    assert(ident@ =~= seq!['$'] + name@ + seq!['$']);
    let s1 = replace_all_exec(&s, &ident, &v);
    match first_width_pattern_exec(&s1, name) {
        None => s1,
        Some(i) => {
            assert((seq!['$'] + name@ + seq!['%', '0']).len() == name.len() + 3);
            assert(i + name.len() + 3 + 2 < s1.len());
            let j = i + name.len() + 3;
            let c = s1[j];
            if '0' <= c && c <= '9' {
                let width = (c as u32 - '0' as u32) as usize;
                assert(width as nat == digit_value(c));
                assert(s1@[j as int] == c);
                let mut out: Vec<char> = Vec::new();
                let mut m: usize = 0;
                while m < i
                    invariant
                        m <= i,
                        i < s1.len(),
                        out@ == s1@.take(m as int),
                    decreases i - m,
                {
                    out.push(s1[m]);
                    assert(s1@.take(m as int).push(s1@[m as int]) =~= s1@.take(m + 1));
                    m = m + 1;
                }
                let mut z: usize = v.len();
                while z < width
                    invariant
                        v.len() <= z <= width || (z == v.len() && v.len() >= width),
                        out@ == s1@.take(i as int) + zeros((z - v.len()) as nat),
                    decreases width - z,
                {
                    out.push('0');
                    assert(zeros((z - v.len()) as nat).push('0') =~= zeros((z + 1 - v.len()) as nat));
                    z = z + 1;
                }
                let mut q: usize = 0;
                let ghost before = out@;
                while q < v.len()
                    invariant
                        q <= v.len(),
                        out@ == before + v@.take(q as int),
                    decreases v.len() - q,
                {
                    out.push(v[q]);
                    assert(v@.take(q as int).push(v@[q as int]) =~= v@.take(q + 1));
                    q = q + 1;
                }
                assert(v@.take(v.len() as int) =~= v@);
                if v.len() >= width {
                    assert(zeros(0) =~= Seq::<char>::empty());
                }
                assert(before + v@ =~= s1@.take(i as int) + pad_left_zeros(v@, digit_value(c)));
                let mut t: usize = j + 3;
                let ghost before2 = out@;
                while t < s1.len()
                    invariant
                        j + 3 <= t <= s1.len(),
                        out@ == before2 + s1@.subrange(j + 3, t as int),
                    decreases s1.len() - t,
                {
                    out.push(s1[t]);
                    assert(s1@.subrange(j + 3, t as int).push(s1@[t as int]) =~= s1@.subrange(
                        j + 3,
                        t + 1,
                    ));
                    t = t + 1;
                }
                assert(s1@.subrange(j + 3, s1.len() as int) =~= s1@.skip(j + 3));
                assert(out@ =~= s1@.take(i as int) + pad_left_zeros(v@, digit_value(c)) + s1@.skip(
                    j + 3,
                ));
                out
            } else {
                s1
            }
        },
    }
}

/// A vector holding the characters of a literal name.
fn name_chars(name: &str) -> (v: Vec<char>)
    ensures
        v@ == name@,
{
    chars_of(name)
}

/// Resolves the identifiers `$RepresentationID$`, `$Number$`, `$Time$` and `$Bandwidth$` of a
/// SegmentTemplate URL template, including the `$Number%06d$` form with a zero-padded width (the
/// only format tag that the DASH-IF guidelines permit).
pub fn resolve_url_template(template: &str, params: &TemplateParams) -> (r: String)
    ensures
        r@ == spec_resolve_url_template(template@, *params),
{
    let t = chars_of(template);
    let n1 = name_chars("RepresentationID");
    let n2 = name_chars("Number");
    let n3 = name_chars("Time");
    let n4 = name_chars("Bandwidth");
    proof {
        reveal_strlit("RepresentationID");
        reveal_strlit("Number");
        reveal_strlit("Time");
        reveal_strlit("Bandwidth");
    }
    assert(n1@ =~= name_representation_id());
    assert(n2@ =~= name_number());
    assert(n3@ =~= name_time());
    assert(n4@ =~= name_bandwidth());
    let s1 = resolve_identifier_exec(t, &n1, &params.representation_id);
    let s2 = resolve_identifier_exec(s1, &n2, &params.number);
    let s3 = resolve_identifier_exec(s2, &n3, &params.time);
    let s4 = resolve_identifier_exec(s3, &n4, &params.bandwidth);
    string_from_chars(s4.as_slice())
}

} // verus!

verus! {

/// `s` does not contain the character `c`.
pub open spec fn lacks_char(s: Seq<char>, c: char) -> bool {
    forall|i: int| 0 <= i < s.len() ==> s[i] != c
}

proof fn lemma_replace_absent(s: Seq<char>, pat: Seq<char>, v: Seq<char>)
    requires
        pat.len() > 0,
        pat[0] == '$',
        lacks_char(s, '$'),
    ensures
        replace_all(s, pat, v) == s,
    decreases s.len(),
{
    if s.len() >= pat.len() {
        assert(s.take(pat.len() as int)[0] != pat[0]);
        assert(s.take(pat.len() as int) != pat);
        assert(lacks_char(s.skip(1), '$')) by {
            assert forall|i: int| 0 <= i < s.skip(1).len() implies s.skip(1)[i] != '$' by {
                assert(s.skip(1)[i] == s[i + 1]);
            }
        }
        lemma_replace_absent(s.skip(1), pat, v);
        assert(seq![s[0]] + s.skip(1) =~= s);
    }
}

proof fn lemma_no_width_pattern(s: Seq<char>, name: Seq<char>, i: int)
    requires
        lacks_char(s, '$'),
        i >= 0,
    ensures
        first_width_pattern(s, name, i) is None,
    decreases s.len() - i,
{
    if i < s.len() {
        let head = seq!['$'] + name + seq!['%', '0'];
        if occurs_at(s, head, i) {
            assert(s.subrange(i, i + head.len())[0] == head[0]);
            assert(false);
        }
        lemma_no_width_pattern(s, name, i + 1);
    }
}

proof fn lemma_identifier_absent(s: Seq<char>, name: Seq<char>, val: Option<Seq<char>>)
    requires
        lacks_char(s, '$'),
    ensures
        resolve_identifier(s, name, val) == s,
{
    if val is Some {
        lemma_replace_absent(s, seq!['$'] + name + seq!['$'], val->0);
        lemma_no_width_pattern(s, name, 0);
    }
}

/// Replacing a pattern that starts with `$` passes over a prefix that holds no `$`.
proof fn lemma_replace_prefix(pre: Seq<char>, rest: Seq<char>, pat: Seq<char>, v: Seq<char>)
    requires
        pat.len() > 0,
        pat[0] == '$',
        lacks_char(pre, '$'),
    ensures
        replace_all(pre + rest, pat, v) == pre + replace_all(rest, pat, v),
    decreases pre.len(),
{
    let s = pre + rest;
    if pre.len() == 0 {
        assert(s =~= rest);
    } else if s.len() < pat.len() {
        assert(rest.len() < pat.len());
    } else {
        assert(s.take(pat.len() as int)[0] == pre[0]);
        assert(s.take(pat.len() as int) != pat);
        assert(lacks_char(pre.skip(1), '$')) by {
            assert forall|i: int| 0 <= i < pre.skip(1).len() implies pre.skip(1)[i] != '$' by {
                assert(pre.skip(1)[i] == pre[i + 1]);
            }
        }
        lemma_replace_prefix(pre.skip(1), rest, pat, v);
        assert(s.skip(1) =~= pre.skip(1) + rest);
        assert(seq![s[0]] + (pre.skip(1) + replace_all(rest, pat, v)) =~= pre + replace_all(rest, pat, v));
    }
}

/// Replacing a pattern that occurs nowhere in `s` leaves `s` unchanged.
proof fn lemma_replace_no_occurrence(s: Seq<char>, pat: Seq<char>, v: Seq<char>)
    requires
        pat.len() > 0,
        forall|i: int| !occurs_at(s, pat, i),
    ensures
        replace_all(s, pat, v) == s,
    decreases s.len(),
{
    if s.len() >= pat.len() {
        assert(!occurs_at(s, pat, 0));
        assert(s.take(pat.len() as int) =~= s.subrange(0, pat.len() as int));
        let t = s.skip(1);
        assert forall|i: int| !occurs_at(t, pat, i) by {
            if occurs_at(t, pat, i) {
                assert(t.subrange(i, i + pat.len()) =~= s.subrange(i + 1, i + 1 + pat.len()));
                assert(occurs_at(s, pat, i + 1));
            }
        }
        lemma_replace_no_occurrence(t, pat, v);
        assert(seq![s[0]] + t =~= s);
    }
}

/// No position at or after `i` holds a width pattern: none is found from `i` on.
proof fn lemma_no_width_pattern_from(s: Seq<char>, name: Seq<char>, i: int)
    requires
        i >= 0,
        forall|k: int| k >= i ==> !width_pattern_at(s, name, k),
    ensures
        first_width_pattern(s, name, i) is None,
    decreases s.len() - i,
{
    if i < s.len() {
        lemma_no_width_pattern_from(s, name, i + 1);
    }
}

/// The template `pre + "$<name>$" + suf`.
pub open spec fn identifier_template(pre: Seq<char>, name: Seq<char>, suf: Seq<char>) -> Seq<char> {
    pre + seq!['$'] + name + seq!['$'] + suf
}

/// The template `pre + "$Bandwidth$" + suf`.
pub open spec fn bandwidth_template(pre: Seq<char>, suf: Seq<char>) -> Seq<char> {
    identifier_template(pre, name_bandwidth(), suf)
}

/// The template `pre + "$RepresentationID$" + suf`.
pub open spec fn representation_id_template(pre: Seq<char>, suf: Seq<char>) -> Seq<char> {
    identifier_template(pre, name_representation_id(), suf)
}

/// In `pre + "$<name0>$" + suf`, where only the two delimiters are `$`, an identifier whose
/// name starts otherwise than `name0` is neither found as `$<name>$` nor as `$<name>%0<d>d$`,
/// so that resolving it changes nothing.
proof fn lemma_other_identifier_untouched(
    pre: Seq<char>,
    name0: Seq<char>,
    suf: Seq<char>,
    name: Seq<char>,
    val: Option<Seq<char>>,
)
    requires
        lacks_char(pre, '$'),
        lacks_char(name0, '$'),
        lacks_char(suf, '$'),
        name0.len() > 0,
        name.len() > 0,
        name[0] != name0[0],
    ensures
        resolve_identifier(identifier_template(pre, name0, suf), name, val) == identifier_template(
            pre,
            name0,
            suf,
        ),
{
    let t = identifier_template(pre, name0, suf);
    let a = pre.len() as int;
    let e = a + name0.len() + 1;
    assert(t.len() == e + 1 + suf.len());
    assert forall|k: int| 0 <= k < t.len() && t[k] == '$' implies k == a || k == e by {
        if k < a {
            assert(t[k] == pre[k]);
        } else if a < k < e {
            assert(t[k] == name0[k - a - 1]);
        } else if k > e {
            assert(t[k] == suf[k - e - 1]);
        }
    }
    assert(t[a + 1] == name0[0]);
    if val is Some {
        let pat = seq!['$'] + name + seq!['$'];
        assert forall|i: int| !occurs_at(t, pat, i) by {
            if occurs_at(t, pat, i) {
                assert(t.subrange(i, i + pat.len())[0] == pat[0]);
                assert(t[i] == '$');
                if i == a {
                    assert(t.subrange(i, i + pat.len())[1] == pat[1]);
                } else {
                    let last = i + pat.len() - 1;
                    assert(t.subrange(i, i + pat.len())[pat.len() - 1] == pat[pat.len() - 1]);
                    assert(t[last] == '$');
                }
            }
        }
        lemma_replace_no_occurrence(t, pat, val->0);
        assert forall|k: int| k >= 0 implies !width_pattern_at(t, name, k) by {
            let head = seq!['$'] + name + seq!['%', '0'];
            let j = k + head.len();
            if width_pattern_at(t, name, k) {
                assert(t.subrange(k, k + head.len())[0] == head[0]);
                assert(t[k] == '$');
                if k == a {
                    assert(t.subrange(k, k + head.len())[1] == head[1]);
                } else {
                    assert(t[j + 2] == '$');
                }
            }
        }
        lemma_no_width_pattern_from(t, name, 0);
    }
}

/// Resolving the identifier `name0` in `pre + "$<name0>$" + suf` with the value `v` gives
/// `pre + v + suf`, where none of `pre`, `name0`, `suf` and `v` holds a `$`.
proof fn lemma_resolve_own_identifier(pre: Seq<char>, name0: Seq<char>, suf: Seq<char>, v: Seq<char>)
    requires
        lacks_char(pre, '$'),
        lacks_char(name0, '$'),
        lacks_char(suf, '$'),
        lacks_char(v, '$'),
    ensures
        resolve_identifier(identifier_template(pre, name0, suf), name0, Some(v)) == pre + v + suf,
        lacks_char(pre + v + suf, '$'),
{
    let t = identifier_template(pre, name0, suf);
    let pat = seq!['$'] + name0 + seq!['$'];
    lemma_replace_prefix(pre, pat + suf, pat, v);
    assert(t =~= pre + (pat + suf));
    assert((pat + suf).take(pat.len() as int) =~= pat);
    assert((pat + suf).skip(pat.len() as int) =~= suf);
    lemma_replace_absent(suf, pat, v);
    let r = pre + v + suf;
    assert(replace_all(t, pat, v) =~= r);
    assert(lacks_char(r, '$'));
    lemma_no_width_pattern(r, name0, 0);
}

/// `pre + "$Bandwidth$" + suf`, where `pre`, `suf` and the bandwidth `b` hold no `$`, resolves to
/// `pre + b + suf`, whatever the value of `$RepresentationID$`.
pub proof fn lemma_resolve_bandwidth_template(
    pre: Seq<char>,
    suf: Seq<char>,
    id: Option<Seq<char>>,
    b: Seq<char>,
)
    requires
        lacks_char(pre, '$'),
        lacks_char(suf, '$'),
        lacks_char(b, '$'),
    ensures
        resolve_template_values(bandwidth_template(pre, suf), id, None, None, Some(b)) == pre + b + suf,
{
    assert(lacks_char(name_bandwidth(), '$'));
    lemma_other_identifier_untouched(pre, name_bandwidth(), suf, name_representation_id(), id);
    lemma_resolve_own_identifier(pre, name_bandwidth(), suf, b);
}

/// `pre + "$RepresentationID$" + suf`, where `pre`, `suf` and the id `v` hold no `$`, resolves
/// to `pre + v + suf`, whatever the bandwidth.
pub proof fn lemma_resolve_representation_id_template(
    pre: Seq<char>,
    suf: Seq<char>,
    v: Seq<char>,
    bandwidth: Option<Seq<char>>,
)
    requires
        lacks_char(pre, '$'),
        lacks_char(suf, '$'),
        lacks_char(v, '$'),
    ensures
        resolve_template_values(representation_id_template(pre, suf), Some(v), None, None, bandwidth) == pre
            + v + suf,
{
    assert(lacks_char(name_representation_id(), '$'));
    lemma_resolve_own_identifier(pre, name_representation_id(), suf, v);
    lemma_identifier_absent(pre + v + suf, name_bandwidth(), bandwidth);
}

/// The template `pre + "$Number$" + suf`.
pub open spec fn number_template(pre: Seq<char>, suf: Seq<char>) -> Seq<char> {
    identifier_template(pre, name_number(), suf)
}

/// The template `pre + "$Time$" + suf`.
pub open spec fn time_template(pre: Seq<char>, suf: Seq<char>) -> Seq<char> {
    identifier_template(pre, name_time(), suf)
}

/// `pre + "$Number$" + suf`, where `pre`, `suf` and the number `n` hold no `$`, resolves to
/// `pre + n + suf`, whatever the time.
pub proof fn lemma_resolve_number_template(pre: Seq<char>, suf: Seq<char>, n: Seq<char>, time: Option<Seq<char>>)
    requires
        lacks_char(pre, '$'),
        lacks_char(suf, '$'),
        lacks_char(n, '$'),
    ensures
        resolve_template_values(number_template(pre, suf), None, Some(n), time, None) == pre + n + suf,
{
    assert(lacks_char(name_number(), '$'));
    lemma_resolve_own_identifier(pre, name_number(), suf, n);
    lemma_identifier_absent(pre + n + suf, name_time(), time);
}

/// `pre + "$Time$" + suf`, where `pre`, `suf` and the time `t` hold no `$`, resolves to
/// `pre + t + suf`, whatever the number.
pub proof fn lemma_resolve_time_template(pre: Seq<char>, suf: Seq<char>, number: Option<Seq<char>>, t: Seq<char>)
    requires
        lacks_char(pre, '$'),
        lacks_char(suf, '$'),
        lacks_char(t, '$'),
    ensures
        resolve_template_values(time_template(pre, suf), None, number, Some(t), None) == pre + t + suf,
{
    assert(lacks_char(name_time(), '$'));
    lemma_other_identifier_untouched(pre, name_time(), suf, name_number(), number);
    lemma_resolve_own_identifier(pre, name_time(), suf, t);
}

/// The template `pre + "$<name>%0<d>d$" + suf`.
pub open spec fn width_template(pre: Seq<char>, name: Seq<char>, d: char, suf: Seq<char>) -> Seq<char> {
    pre + seq!['$'] + name + seq!['%', '0', d, 'd', '$'] + suf
}

/// The first width pattern at or after `i` is the one at `p` when none stands between.
proof fn lemma_first_width_pattern_at(s: Seq<char>, name: Seq<char>, i: int, p: int)
    requires
        0 <= i <= p,
        forall|k: int| i <= k < p ==> !width_pattern_at(s, name, k),
        width_pattern_at(s, name, p),
    ensures
        first_width_pattern(s, name, i) == Some(p),
    decreases p - i,
{
    if i < p {
        lemma_first_width_pattern_at(s, name, i + 1, p);
    }
}

/// Resolving the identifier `name` in `pre + "$<name>%0<d>d$" + suf` with the value `v` pads `v`
/// with zeros on the left to `d` characters.
proof fn lemma_resolve_width_identifier(pre: Seq<char>, name: Seq<char>, d: char, suf: Seq<char>, v: Seq<char>)
    requires
        lacks_char(pre, '$'),
        lacks_char(name, '$'),
        lacks_char(suf, '$'),
        is_ascii_digit(d),
    ensures
        resolve_identifier(width_template(pre, name, d, suf), name, Some(v)) == pre + pad_left_zeros(
            v,
            digit_value(d),
        ) + suf,
{
    let t = width_template(pre, name, d, suf);
    let a = pre.len() as int;
    let e = a + name.len() + 5;
    assert(t.len() == e + 1 + suf.len());
    assert forall|k: int| 0 <= k < t.len() && t[k] == '$' implies k == a || k == e by {
        if k < a {
            assert(t[k] == pre[k]);
        } else if a < k <= a + name.len() {
            assert(t[k] == name[k - a - 1]);
        } else if a + name.len() < k < e {
            assert(t[k] != '$');
        } else if k > e {
            assert(t[k] == suf[k - e - 1]);
        }
    }
    let pat = seq!['$'] + name + seq!['$'];
    assert(t[a + name.len() + 1] == '%');
    assert forall|i: int| !occurs_at(t, pat, i) by {
        if occurs_at(t, pat, i) {
            assert(t.subrange(i, i + pat.len())[0] == pat[0]);
            assert(t[i] == '$');
            let last = i + pat.len() - 1;
            assert(t.subrange(i, i + pat.len())[pat.len() - 1] == pat[pat.len() - 1]);
            assert(t[last] == '$');
        }
    }
    lemma_replace_no_occurrence(t, pat, v);
    let head = seq!['$'] + name + seq!['%', '0'];
    assert(t.subrange(a, a + head.len()) =~= head);
    assert(('9' as u32) == 57);
    assert(is_xs_digit(t[a + head.len()]));
    assert(width_pattern_at(t, name, a));
    assert forall|k: int| 0 <= k < a implies !width_pattern_at(t, name, k) by {
        if width_pattern_at(t, name, k) {
            assert(t.subrange(k, k + head.len())[0] == head[0]);
            assert(t[k] == pre[k]);
        }
    }
    lemma_first_width_pattern_at(t, name, 0, a);
    let j = a + name.len() + 3;
    assert(t[j] == d);
    assert(t.take(a) =~= pre);
    assert(t.skip(j + 3) =~= suf);
}

/// `pre + "$Number%0<d>d$" + suf`, where `pre`, `suf` and the number `n` hold no `$` and `<d>`
/// is an ASCII digit, resolves to `pre + n + suf` with `n` padded with zeros on the left to `d`
/// characters.
pub proof fn lemma_resolve_number_width_template(pre: Seq<char>, d: char, suf: Seq<char>, n: Seq<char>)
    requires
        lacks_char(pre, '$'),
        lacks_char(suf, '$'),
        is_ascii_digit(d),
    ensures
        resolve_template_values(width_template(pre, name_number(), d, suf), None, Some(n), None, None) == pre + (
        if n.len() >= digit_value(d) {
            n
        } else {
            Seq::new((digit_value(d) - n.len()) as nat, |i: int| '0') + n
        }) + suf,
{
    assert(lacks_char(name_number(), '$'));
    lemma_resolve_width_identifier(pre, name_number(), d, suf, n);
}

/// A URL template that holds no `$` is a plain URL: resolving it gives it back unchanged,
/// whatever the parameters.
pub proof fn lemma_template_without_identifiers(t: Seq<char>, p: TemplateParams)
    requires
        lacks_char(t, '$'),
    ensures
        spec_resolve_url_template(t, p) == t,
{
    lemma_identifier_absent(t, name_representation_id(), opt_view(p.representation_id));
    lemma_identifier_absent(t, name_number(), opt_view(p.number));
    lemma_identifier_absent(t, name_time(), opt_view(p.time));
    lemma_identifier_absent(t, name_bandwidth(), opt_view(p.bandwidth));
}

} // verus!
