//! Splitting strings at a separator character, and the numeric fields found that way: byte
//! ranges such as "45-67" and ratios such as "24/1" or "16:9".

use vstd::prelude::*;
use crate::DashMpdError;
use crate::digits::{spec_parse_u64, lemma_decimal, is_ascii_digit};
use crate::duration::range_u64;
use crate::text::{chars_of, string_from_chars, push_str, push_chars};
use crate::digits::{decimal, decimal_chars};
use crate::messages::{views, push_msg};

verus! {

/// The pieces of `s` between the occurrences of `c` (as `str::split` with a char pattern): one
/// more piece than there are occurrences, empty pieces included.
pub open spec fn split_char(s: Seq<char>, c: char) -> Seq<Seq<char>>
    decreases s.len(),
{
    if s.len() == 0 {
        seq![seq![]]
    } else {
        let p = split_char(s.drop_last(), c);
        if s.last() == c {
            p.push(seq![])
        } else {
            p.update(p.len() - 1, p.last().push(s.last()))
        }
    }
}

/// The pieces of `s` separated by `c`, without the final empty piece when there is one (as
/// `str::split_terminator` with a char pattern).
pub open spec fn split_terminator(s: Seq<char>, c: char) -> Seq<Seq<char>> {
    let p = split_char(s, c);
    if p.last().len() == 0 {
        p.drop_last()
    } else {
        p
    }
}

pub proof fn lemma_split_nonempty(s: Seq<char>, c: char)
    ensures
        split_char(s, c).len() >= 1,
    decreases s.len(),
{
    if s.len() > 0 {
        lemma_split_nonempty(s.drop_last(), c);
    }
}

/// The pieces of `s` between the occurrences of `c`.
pub fn split_at_char(s: &str, c: char) -> (r: Vec<String>)
    ensures
        views(r@) == split_char(s@, c),
{
    let v = chars_of(s);
    let mut pieces: Vec<String> = Vec::new();
    let mut cur: Vec<char> = Vec::new();
    let mut i: usize = 0;
    assert(v@.take(0) =~= seq![]);
    assert(views(pieces@).push(cur@) =~= split_char(v@.take(0), c));
    while i < v.len()
        invariant
            i <= v.len(),
            views(pieces@).push(cur@) == split_char(v@.take(i as int), c),
        decreases v.len() - i,
    {
        let ghost t = v@.take(i + 1);
        proof {
            assert(t.drop_last() =~= v@.take(i as int));
            lemma_split_nonempty(v@.take(i as int), c);
        }
        if v[i] == c {
            let piece = string_from_chars(cur.as_slice());
            push_msg(&mut pieces, piece);
            cur = Vec::new();
            assert(views(pieces@).push(cur@) =~= split_char(t, c));
        } else {
            cur.push(v[i]);
            assert(views(pieces@).push(cur@) =~= split_char(t, c));
        }
        i = i + 1;
    }
    assert(v@.take(v.len() as int) =~= v@);
    let last = string_from_chars(cur.as_slice());
    push_msg(&mut pieces, last);
    pieces
}

/// The pieces of `s` separated by `c`, without a final empty piece.
pub fn split_terminator_at(s: &str, c: char) -> (r: Vec<String>)
    ensures
        views(r@) == split_terminator(s@, c),
{
    let mut pieces = split_at_char(s, c);
    proof {
        lemma_split_nonempty(s@, c);
    }
    let n = pieces.len();
    if pieces[n - 1].as_str().is_empty() {
        let ghost before = pieces@;
        pieces.pop();
        assert(views(pieces@) =~= views(before).drop_last());
    }
    pieces
}

/// What `str::parse::<u64>` gives for `s`.
pub fn parse_u64(s: &str) -> (r: Option<u64>)
    ensures
        match spec_parse_u64(s@) {
            Some(x) => r == Some(x as u64),
            None => r is None,
        },
{
    let v = chars_of(s);
    if v.len() == 0 {
        return None;
    }
    let start: usize = if v[0] == '+' {
        1
    } else {
        0
    };
    if start == v.len() {
        return None;
    }
    let r = range_u64(&v, start, v.len());
    proof {
        let d = if s@.len() > 0 && s@[0] == '+' {
            s@.drop_first()
        } else {
            s@
        };
        assert(v@.subrange(start as int, v.len() as int) =~= d);
    }
    r
}

/// The byte range given by the specifier `range` (such as "45-67"): exactly two pieces separated
/// by '-' (a final empty piece not counting), each a `u64`.
pub open spec fn range_fields(range: Seq<char>) -> Option<(u64, u64)> {
    let v = split_terminator(range, '-');
    if v.len() != 2 {
        None
    } else {
        match (spec_parse_u64(v[0]), spec_parse_u64(v[1])) {
            (Some(start), Some(end)) => Some((start as u64, end as u64)),
            _ => None,
        }
    }
}

/// The message of the error for a range specifier that `range_fields` refuses.
pub open spec fn range_error_msg(range: Seq<char>) -> Seq<char> {
    let v = split_terminator(range, '-');
    if v.len() != 2 {
        "invalid range specifier: "@ + range
    } else if spec_parse_u64(v[0]) is None {
        "invalid start for range specifier"@
    } else {
        "invalid end for range specifier"@
    }
}

/// Parses a range specifier, such as the Initialization@range or SegmentBase@indexRange
/// attributes, of the form "45-67".
pub fn parse_range(range: &str) -> (r: Result<(u64, u64), DashMpdError>)
    ensures
        match r {
            Ok(p) => range_fields(range@) == Some(p),
            Err(e) => range_fields(range@) is None && (e matches DashMpdError::Parsing(m) && m@
                == range_error_msg(range@)),
        },
{
    let v = split_terminator_at(range, '-');
    if v.len() != 2 {
        let mut m = "invalid range specifier: ".to_owned();
        push_str(&mut m, range);
        return Err(DashMpdError::Parsing(m));
    }
    assert(v@[0]@ == views(v@)[0] && v@[1]@ == views(v@)[1]);
    let start = match parse_u64(v[0].as_str()) {
        Some(x) => x,
        None => return Err(DashMpdError::Parsing("invalid start for range specifier".to_owned())),
    };
    let end = match parse_u64(v[1].as_str()) {
        Some(x) => x,
        None => return Err(DashMpdError::Parsing("invalid end for range specifier".to_owned())),
    };
    Ok((start, end))
}

/// The two pieces of `s` around the first occurrence of `c` (as `str::split_once`).
pub open spec fn split_once_char(s: Seq<char>, c: char) -> Option<(Seq<char>, Seq<char>)> {
    let p = split_char(s, c);
    if p.len() < 2 {
        None
    } else {
        Some((p[0], s.skip(p[0].len() as int + 1)))
    }
}

/// The numerator and denominator of a ratio written `<num><sep><den>`, such as "24/1" for a
/// frame rate or "16:9" for an aspect ratio: the text is split at the first separator, and both
/// pieces must be `u64`s.
pub open spec fn spec_parse_ratio(s: Seq<char>, sep: char) -> Option<(u64, u64)> {
    match split_once_char(s, sep) {
        Some((num, den)) => match (spec_parse_u64(num), spec_parse_u64(den)) {
            (Some(n), Some(d)) => Some((n as u64, d as u64)),
            _ => None,
        },
        None => None,
    }
}

/// The index of the first occurrence of `c` in `v`, if any.
fn find_char(v: &Vec<char>, c: char) -> (r: Option<usize>)
    ensures
        match r {
            Some(i) => i < v.len() && v@[i as int] == c && forall|k: int| 0 <= k < i ==> v@[k] != c,
            None => forall|k: int| 0 <= k < v.len() ==> v@[k] != c,
        },
{
    let mut i: usize = 0;
    while i < v.len()
        invariant
            i <= v.len(),
            forall|k: int| 0 <= k < i ==> v@[k] != c,
        decreases v.len() - i,
    {
        if v[i] == c {
            return Some(i);
        }
        i = i + 1;
    }
    None
}

/// Without the separator, `s` is one piece.
proof fn lemma_split_without_sep(s: Seq<char>, c: char)
    requires
        forall|k: int| 0 <= k < s.len() ==> s[k] != c,
    ensures
        split_char(s, c) == seq![s],
    decreases s.len(),
{
    if s.len() > 0 {
        let t = s.drop_last();
        assert forall|k: int| 0 <= k < t.len() implies t[k] != c by {
            assert(t[k] == s[k]);
        }
        lemma_split_without_sep(t, c);
        assert(s.last() != c);
        assert(t.push(s.last()) =~= s);
        assert(seq![t].update(0, s) =~= seq![s]);
    } else {
        assert(s =~= seq![]);
    }
}

/// The pieces of a string with its first separator at `i` begin with the text before it.
proof fn lemma_split_first_piece(s: Seq<char>, c: char, i: int)
    requires
        0 <= i < s.len(),
        s[i] == c,
        forall|k: int| 0 <= k < i ==> s[k] != c,
    ensures
        split_char(s, c).len() >= 2,
        split_char(s, c)[0] == s.take(i),
    decreases s.len(),
{
    if s.len() == i + 1 {
        assert(s.drop_last() =~= s.take(i));
        lemma_split_without_sep(s.take(i), c);
    } else {
        let t = s.drop_last();
        assert(t[i] == c);
        assert forall|k: int| 0 <= k < i implies t[k] != c by {
            assert(t[k] == s[k]);
        }
        lemma_split_first_piece(t, c, i);
        assert(t.take(i) =~= s.take(i));
    }
}

/// The numerator and denominator of a ratio `<num><sep><den>`.
pub fn parse_ratio(s: &str, sep: char) -> (r: Option<(u64, u64)>)
    ensures
        r == spec_parse_ratio(s@, sep),
{
    let v = chars_of(s);
    match find_char(&v, sep) {
        None => {
            proof {
                lemma_split_without_sep(s@, sep);
            }
            None
        },
        Some(i) => {
            proof {
                lemma_split_first_piece(s@, sep, i as int);
            }
            let num = string_from_chars(&v.as_slice()[0..i]);
            let den = string_from_chars(&v.as_slice()[i + 1..v.len()]);
            assert(num@ =~= s@.take(i as int));
            assert(den@ =~= s@.skip(i + 1));
            match (parse_u64(num.as_str()), parse_u64(den.as_str())) {
                (Some(n), Some(d)) => Some((n, d)),
                _ => None,
            }
        },
    }
}

/// The characters with the Unicode `White_Space` property (as `char::is_whitespace` documents):
/// U+0009 to U+000D, U+0020, U+0085, U+00A0, U+1680, U+2000 to U+200A, U+2028, U+2029, U+202F,
/// U+205F and U+3000.
pub open spec fn is_white_space(c: char) -> bool {
    let u = c as u32;
    ||| 0x09 <= u <= 0x0d
    ||| u == 0x20
    ||| u == 0x85
    ||| u == 0xa0
    ||| u == 0x1680
    ||| 0x2000 <= u <= 0x200a
    ||| u == 0x2028
    ||| u == 0x2029
    ||| u == 0x202f
    ||| u == 0x205f
    ||| u == 0x3000
}

/// Whether `c` is a white space character.
pub fn white_space(c: char) -> (r: bool)
    ensures
        r == is_white_space(c),
{
    let u = c as u32;
    (0x09 <= u && u <= 0x0d) || u == 0x20 || u == 0x85 || u == 0xa0 || u == 0x1680 || (0x2000 <= u
        && u <= 0x200a) || u == 0x2028 || u == 0x2029 || u == 0x202f || u == 0x205f || u == 0x3000
}

/// The words of `s`: its maximal runs of characters that are not white space, in order (as
/// `str::split_whitespace` yields them).
pub open spec fn words(s: Seq<char>) -> Seq<Seq<char>>
    decreases s.len(),
{
    if s.len() == 0 {
        seq![]
    } else if is_white_space(s.last()) {
        words(s.drop_last())
    } else if s.len() >= 2 && !is_white_space(s[s.len() - 2]) {
        let w = words(s.drop_last());
        w.update(w.len() - 1, w.last().push(s.last()))
    } else {
        words(s.drop_last()).push(seq![s.last()])
    }
}

/// A string that ends with a character that is not white space has a last word.
proof fn lemma_words_nonempty(s: Seq<char>)
    requires
        s.len() > 0,
        !is_white_space(s.last()),
    ensures
        words(s).len() > 0,
    decreases s.len(),
{
    if s.len() >= 2 && !is_white_space(s[s.len() - 2]) {
        let t = s.drop_last();
        assert(t.last() == s[s.len() - 2]);
        lemma_words_nonempty(t);
    }
}

/// The words of `s`.
pub fn split_words(s: &str) -> (r: Vec<String>)
    ensures
        views(r@) == words(s@),
{
    let v = chars_of(s);
    let mut out: Vec<String> = Vec::new();
    let mut cur: Vec<char> = Vec::new();
    let mut i: usize = 0;
    assert(v@.take(0) =~= seq![]);
    assert(views(out@) =~= seq![]);
    while i < v.len()
        invariant
            i <= v.len(),
            cur@.len() > 0 <==> (i > 0 && !is_white_space(v@[i - 1])),
            cur@.len() > 0 ==> views(out@).push(cur@) == words(v@.take(i as int)),
            cur@.len() == 0 ==> views(out@) == words(v@.take(i as int)),
        decreases v.len() - i,
    {
        let ghost t = v@.take(i + 1);
        proof {
            assert(t.drop_last() =~= v@.take(i as int));
            assert(t.last() == v@[i as int]);
            if i > 0 {
                assert(t[t.len() - 2] == v@[i - 1]);
            }
        }
        let c = v[i];
        if white_space(c) {
            if cur.len() > 0 {
                let w = string_from_chars(cur.as_slice());
                push_msg(&mut out, w);
                cur = Vec::new();
            }
        } else {
            proof {
                if cur@.len() > 0 {
                    lemma_words_nonempty(v@.take(i as int));
                }
            }
            let ghost was_empty = cur@.len() == 0;
            proof {
                if was_empty {
                    assert(cur@ =~= seq![]);
                }
            }
            cur.push(c);
            proof {
                if cur@.len() > 1 {
                    let w = words(v@.take(i as int));
                    assert(views(out@).push(cur@) =~= w.update(w.len() - 1, w.last().push(c)));
                } else {
                    assert(views(out@).push(cur@) =~= words(v@.take(i as int)).push(seq![c]));
                }
            }
        }
        i = i + 1;
    }
    assert(v@.take(v.len() as int) =~= v@);
    if cur.len() > 0 {
        let w = string_from_chars(cur.as_slice());
        push_msg(&mut out, w);
    }
    out
}

/// The message of the error that `str::parse::<u64>` gives for a string it refuses.
pub uninterp spec fn u64_parse_error_text(s: Seq<char>) -> Seq<char>;

/// Calls `str::parse::<u64>`, which its documentation says accepts an optional `+` sign followed
/// by decimal digits whose value fits in a `u64` (no white space), and keeps the text of the
/// error (`ParseIntError` displayed) otherwise, named `u64_parse_error_text`.
#[verifier::external_body]
fn std_parse_u64(s: &str) -> (r: Result<u64, String>)
    ensures
        match r {
            Ok(v) => spec_parse_u64(s@) == Some(v as nat),
            Err(m) => spec_parse_u64(s@) is None && m@ == u64_parse_error_text(s@),
        },
{
    s.parse::<u64>().map_err(|e| e.to_string())
}

/// The unsigned integers of a whitespace-separated list (the XML Schema type UIntVectorType), or
/// the error for its first word that is not one.
pub open spec fn spec_parse_uint_vector(ws: Seq<Seq<char>>) -> Result<Seq<u64>, Seq<char>>
    decreases ws.len(),
{
    if ws.len() == 0 {
        Ok(seq![])
    } else {
        match spec_parse_uint_vector(ws.drop_last()) {
            Err(e) => Err(e),
            Ok(vals) => match spec_parse_u64(ws.last()) {
                Some(v) => Ok(vals.push(v as u64)),
                None => Err(u64_parse_error_text(ws.last())),
            },
        }
    }
}

/// Parses a whitespace-separated list of unsigned integers.
pub fn parse_uint_vector(s: &str) -> (r: Result<Vec<u64>, String>)
    ensures
        match spec_parse_uint_vector(words(s@)) {
            Ok(vals) => r matches Ok(v) && v@ == vals,
            Err(e) => r matches Err(m) && m@ == e,
        },
{
    let ws = split_words(s);
    let ghost all = views(ws@);
    let mut out: Vec<u64> = Vec::new();
    let mut i: usize = 0;
    assert(all.take(0) =~= seq![]);
    while i < ws.len()
        invariant
            i <= ws.len(),
            all == views(ws@),
            all == words(s@),
            spec_parse_uint_vector(all.take(i as int)) == Ok::<Seq<u64>, Seq<char>>(out@),
        decreases ws.len() - i,
    {
        proof {
            assert(all.take(i + 1).drop_last() =~= all.take(i as int));
            assert(all.take(i + 1).last() == ws@[i as int]@);
        }
        match std_parse_u64(ws[i].as_str()) {
            Ok(v) => out.push(v),
            Err(m) => {
                proof {
                    lemma_parse_uint_vector_error(all, i as int);
                }
                return Err(m);
            },
        }
        i = i + 1;
    }
    assert(all.take(ws.len() as int) =~= all);
    Ok(out)
}

/// An error in the first `i + 1` words stays the error of the whole list.
proof fn lemma_parse_uint_vector_error(ws: Seq<Seq<char>>, i: int)
    requires
        0 <= i < ws.len(),
        spec_parse_uint_vector(ws.take(i + 1)) is Err,
    ensures
        spec_parse_uint_vector(ws) == spec_parse_uint_vector(ws.take(i + 1)),
    decreases ws.len(),
{
    if i + 1 < ws.len() {
        assert(ws.drop_last().take(i + 1) =~= ws.take(i + 1));
        lemma_parse_uint_vector_error(ws.drop_last(), i);
    } else {
        assert(ws.take(i + 1) =~= ws);
    }
}

/// Each integer followed by a space.
pub open spec fn spec_format_uint_vector(v: Seq<u64>) -> Seq<char>
    decreases v.len(),
{
    if v.len() == 0 {
        seq![]
    } else {
        spec_format_uint_vector(v.drop_last()) + decimal(v.last() as nat) + seq![' ']
    }
}

/// The text of a list of unsigned integers: each followed by a space.
pub fn format_uint_vector(v: &Vec<u64>) -> (r: String)
    ensures
        r@ == spec_format_uint_vector(v@),
{
    let mut out = String::new();
    let mut i: usize = 0;
    assert(v@.take(0) =~= seq![]);
    while i < v.len()
        invariant
            i <= v.len(),
            out@ == spec_format_uint_vector(v@.take(i as int)),
        decreases v.len() - i,
    {
        assert(v@.take(i + 1).drop_last() =~= v@.take(i as int));
        let d = decimal_chars(v[i]);
        push_chars(&mut out, d.as_slice());
        crate::text::push_char(&mut out, ' ');
        i = i + 1;
    }
    assert(v@.take(v.len() as int) =~= v@);
    out
}

/// Characters that are not white space, appended after white space (or at the start), form one
/// more word.
proof fn lemma_words_extend(a: Seq<char>, d: Seq<char>)
    requires
        a.len() == 0 || is_white_space(a.last()),
        d.len() > 0,
        forall|k: int| 0 <= k < d.len() ==> !is_white_space(#[trigger] d[k]),
    ensures
        words(a + d) == words(a).push(d),
    decreases d.len(),
{
    let s = a + d;
    if d.len() == 1 {
        assert(s.drop_last() =~= a);
        assert(s.last() == d[0]);
        if a.len() > 0 {
            assert(s[s.len() - 2] == a.last());
        }
        assert(seq![d[0]] =~= d);
    } else {
        let e = d.drop_last();
        assert forall|k: int| 0 <= k < e.len() implies !is_white_space(#[trigger] e[k]) by {
            assert(e[k] == d[k]);
        }
        lemma_words_extend(a, e);
        assert(s.drop_last() =~= a + e);
        assert(s.last() == d.last());
        assert(s[s.len() - 2] == d[d.len() - 2]);
        let w = words(a + e);
        assert(w.update(w.len() - 1, w.last().push(s.last())) =~= words(a).push(d)) by {
            assert(e.push(d.last()) =~= d);
        }
    }
}

pub open spec fn decimals(v: Seq<u64>) -> Seq<Seq<char>> {
    v.map_values(|n: u64| decimal(n as nat))
}

/// The words of a formatted list are the decimal notations of its integers.
proof fn lemma_words_of_format(v: Seq<u64>)
    ensures
        words(spec_format_uint_vector(v)) == decimals(v),
        spec_format_uint_vector(v).len() == 0 || is_white_space(spec_format_uint_vector(v).last()),
    decreases v.len(),
{
    if v.len() == 0 {
        assert(decimals(v) =~= seq![]);
    } else {
        let u = v.drop_last();
        lemma_words_of_format(u);
        let a = spec_format_uint_vector(u);
        let d = decimal(v.last() as nat);
        lemma_decimal(v.last() as nat);
        assert forall|k: int| 0 <= k < d.len() implies !is_white_space(#[trigger] d[k]) by {
            assert(is_ascii_digit(d[k]));
        }
        lemma_words_extend(a, d);
        let s = a + d + seq![' '];
        assert(s.drop_last() =~= a + d);
        assert(is_white_space(s.last()));
        assert(decimals(v) =~= decimals(u).push(d));
    }
}

/// A list of unsigned integers written out (each followed by a space) reads back as the same
/// list.
pub proof fn lemma_uint_vector_roundtrip(v: Seq<u64>)
    ensures
        spec_parse_uint_vector(words(spec_format_uint_vector(v))) == Ok::<Seq<u64>, Seq<char>>(v),
    decreases v.len(),
{
    lemma_words_of_format(v);
    lemma_parse_decimals(v);
}

proof fn lemma_parse_decimals(v: Seq<u64>)
    ensures
        spec_parse_uint_vector(decimals(v)) == Ok::<Seq<u64>, Seq<char>>(v),
    decreases v.len(),
{
    if v.len() > 0 {
        let u = v.drop_last();
        lemma_parse_decimals(u);
        assert(decimals(v).drop_last() =~= decimals(u));
        let d = decimal(v.last() as nat);
        lemma_decimal(v.last() as nat);
        assert(is_ascii_digit(d[0]));
        assert(spec_parse_u64(d) == Some(v.last() as nat));
        assert(u.push(v.last()) =~= v);
    } else {
        assert(decimals(v) =~= seq![]);
        assert(v =~= seq![]);
    }
}

} // verus!
