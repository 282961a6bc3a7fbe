//! Small decisions taken while planning a download: whether a manifest is live, which URLs are
//! absolute or fetchable, names of output files, and how network failures are reported.

use vstd::prelude::*;
use vstd::utf8::{valid_utf8, decode_utf8};
use crate::DashMpdError;
use crate::mpd::MPD;
use crate::digits::{decimal, decimal_chars};
use crate::text::{
    chars_of, string_from_chars, str_eq, starts_with, has_prefix, occurs_at, occurs_at_exec,
    push_str, push_chars,
};

verus! {

/// The manifest describes a live (dynamic) presentation.
pub open spec fn spec_mpd_is_dynamic(mpd: MPD) -> bool {
    mpd.mpdtype matches Some(t) && t@ == "dynamic"@
}

/// Whether the manifest's `@type` is "dynamic" (a live stream).
pub fn mpd_is_dynamic(mpd: &MPD) -> (r: bool)
    ensures
        r == spec_mpd_is_dynamic(*mpd),
{
    if let Some(mpdtype) = &mpd.mpdtype {
        return str_eq(mpdtype.as_str(), "dynamic");
    }
    false
}

pub open spec fn spec_is_absolute_url(s: Seq<char>) -> bool {
    has_prefix(s, "http://"@) || has_prefix(s, "https://"@) || has_prefix(s, "file://"@)
        || has_prefix(s, "ftp://"@)
}

/// Whether `s` starts with one of the schemes http, https, file and ftp followed by "://".
pub fn is_absolute_url(s: &str) -> (r: bool)
    ensures
        r == spec_is_absolute_url(s@),
{
    starts_with(s, "http://") || starts_with(s, "https://") || starts_with(s, "file://")
        || starts_with(s, "ftp://")
}

/// The value of `@xlink:href` that means that the element is to be removed from the manifest.
pub open spec fn resolve_to_zero() -> Seq<char> {
    "urn:mpeg:dash:resolve-to-zero:2013"@
}

/// Whether an `@xlink:href` value designates content to be fetched: it is not empty, and it is
/// not "urn:mpeg:dash:resolve-to-zero:2013" (for which, as DASH-IF-IOP-v4.0 says, no HTTP GET
/// request is issued and the in-MPD element is removed).
pub fn fetchable_xlink_href(href: &str) -> (r: bool)
    ensures
        r == (href@.len() > 0 && href@ != resolve_to_zero()),
{
    !href.is_empty() && !str_eq(href, "urn:mpeg:dash:resolve-to-zero:2013")
}

/// Whether an element whose `@xlink:href` attribute is `href` is to be removed from the
/// manifest.
pub fn element_resolves_to_zero(href: &Option<String>) -> (r: bool)
    ensures
        r == (href matches Some(h) && h@ == resolve_to_zero()),
{
    match href {
        Some(h) => str_eq(h.as_str(), "urn:mpeg:dash:resolve-to-zero:2013"),
        None => false,
    }
}

/// The first position of `pat` in `s`, if it occurs.
pub open spec fn first_occurrence(s: Seq<char>, pat: Seq<char>, i: int) -> Option<int>
    decreases s.len() + 1 - i,
{
    if i < 0 || i + pat.len() > s.len() {
        None
    } else if occurs_at(s, pat, i) {
        Some(i)
    } else {
        first_occurrence(s, pat, i + 1)
    }
}

/// The input without its XML declaration: when it begins with "<?xml" and holds "?>", the text
/// after the first "?>"; otherwise the whole input.
pub open spec fn spec_skip_xml_preamble(s: Seq<char>) -> Seq<char> {
    if has_prefix(s, "<?xml"@) {
        match first_occurrence(s, "?>"@, 0) {
            Some(p) => s.skip(p + 2),
            None => s,
        }
    } else {
        s
    }
}

/// The text of `input` after its XML declaration ("<?xml ... ?>"), or all of it when it has none.
pub fn skip_xml_preamble(input: &str) -> (r: String)
    ensures
        r@ == spec_skip_xml_preamble(input@),
{
    if starts_with(input, "<?xml") {
        let v = chars_of(input);
        let pat = chars_of("?>");
        let ghost s = input@;
        let ghost p = pat@;
        proof {
            reveal_strlit("?>");
        }
        let mut i: usize = 0;
        while i < v.len() && pat.len() <= v.len() - i
            invariant
                v@ == s,
                pat@ == p,
                p == "?>"@,
                p.len() == 2,
                s == input@,
                has_prefix(s, "<?xml"@),
                0 <= i <= v.len(),
                first_occurrence(s, p, 0) == first_occurrence(s, p, i as int),
            decreases v.len() - i,
        {
            if occurs_at_exec(&v, &pat, i) {
                let r = string_from_chars(&v.as_slice()[i + pat.len()..v.len()]);
                assert(r@ =~= s.skip(i + p.len()));
                return r;
            }
            i = i + 1;
        }
    }
    input.to_owned()
}

/// The characters of `s` that remain after removing the prefix `p`, when `s` begins with it.
pub open spec fn strip_prefix(s: Seq<char>, p: Seq<char>) -> Seq<char> {
    if has_prefix(s, p) {
        s.skip(p.len() as int)
    } else {
        s
    }
}

/// The characters of `s` that remain after removing the suffix `p`, when `s` ends with it.
pub open spec fn strip_suffix(s: Seq<char>, p: Seq<char>) -> Seq<char> {
    if p.len() <= s.len() && s.skip(s.len() - p.len()) == p {
        s.take(s.len() - p.len())
    } else {
        s
    }
}

/// The part of a manifest URL that names the output file: without the scheme "http://",
/// "https://" or "file://" (the first that matches), then without "www.", then without "ftp.",
/// then without the suffix ".mpd".
pub open spec fn url_name_part(url: Seq<char>) -> Seq<char> {
    let a = if has_prefix(url, "http://"@) {
        strip_prefix(url, "http://"@)
    } else if has_prefix(url, "https://"@) {
        strip_prefix(url, "https://"@)
    } else {
        strip_prefix(url, "file://"@)
    };
    let b = strip_prefix(a, "www."@);
    let c = strip_prefix(b, "ftp."@);
    strip_suffix(c, ".mpd"@)
}

fn strip_prefix_exec(s: Vec<char>, p: &str) -> (r: Vec<char>)
    ensures
        r@ == strip_prefix(s@, p@),
{
    let pv = chars_of(p);
    if occurs_at_exec(&s, &pv, 0) {
        let mut r: Vec<char> = Vec::new();
        let mut i = pv.len();
        while i < s.len()
            invariant
                pv.len() <= i <= s.len(),
                r@ == s@.subrange(pv.len() as int, i as int),
            decreases s.len() - i,
        {
            r.push(s[i]);
            assert(r@ =~= s@.subrange(pv.len() as int, i + 1));
            i = i + 1;
        }
        assert(r@ =~= s@.skip(pv.len() as int));
        r
    } else {
        s
    }
}

fn strip_suffix_exec(s: Vec<char>, p: &str) -> (r: Vec<char>)
    ensures
        r@ == strip_suffix(s@, p@),
{
    let pv = chars_of(p);
    if pv.len() <= s.len() && occurs_at_exec(&s, &pv, s.len() - pv.len()) {
        let k = s.len() - pv.len();
        assert(s@.subrange(k as int, k + pv.len()) =~= s@.skip(k as int));
        let mut r: Vec<char> = Vec::new();
        let mut i: usize = 0;
        while i < k
            invariant
                k <= s.len(),
                i <= k,
                r@ == s@.take(i as int),
            decreases k - i,
        {
            r.push(s[i]);
            assert(r@ =~= s@.take(i + 1));
            i = i + 1;
        }
        r
    } else {
        proof {
            if pv.len() <= s.len() {
                let k = s.len() - pv.len();
                assert(s@.subrange(k as int, k + pv.len()) =~= s@.skip(k as int));
            }
        }
        s
    }
}

/// What `sanitise_file_name::sanitise_with_options` returns for a name, with the default
/// options but for the length limit.
pub uninterp spec fn sanitised_file_name(name: Seq<char>, length_limit: nat) -> Seq<char>;

/// Calls `sanitise_file_name::sanitise_with_options` with the crate's default options
/// (`Options::DEFAULT`) and the given `length_limit`, which the crate documents as illegally
/// small below 10. The result is a function of the name and the limit and is named
/// `sanitised_file_name`; nothing more is claimed of it.
#[verifier::external_body]
fn sanitise_name(name: &str, length_limit: usize) -> (r: String)
    requires
        length_limit >= 10,
    ensures
        r@ == sanitised_file_name(name@, length_limit as nat),
{
    let mut options = sanitise_file_name::Options::DEFAULT;
    options.length_limit = length_limit;
    sanitise_file_name::sanitise_with_options(name, &options)
}

/// The output file name derived from a manifest URL: the name part of the URL, sanitised as a
/// file name of at most 150 bytes, with the extension ".mp4" (the default container).
pub open spec fn spec_filename_from_url(url: Seq<char>) -> Seq<char> {
    sanitised_file_name(url_name_part(url), 150) + ".mp4"@
}

/// A name for the output file, derived from the URL of the manifest.
pub fn generate_filename_from_url(url: &str) -> (r: String)
    ensures
        r@ == spec_filename_from_url(url@),
{
    let v = chars_of(url);
    let a = if starts_with(url, "http://") {
        strip_prefix_exec(v, "http://")
    } else if starts_with(url, "https://") {
        strip_prefix_exec(v, "https://")
    } else {
        strip_prefix_exec(v, "file://")
    };
    let b = strip_prefix_exec(a, "www.");
    let c = strip_prefix_exec(b, "ftp.");
    let d = strip_suffix_exec(c, ".mpd");
    let name = string_from_chars(d.as_slice());
    let mut r = sanitise_name(name.as_str(), 150);
    push_str(&mut r, ".mp4");
    r
}

/// The file name for the content of Period number `period` (counted from 1) of a manifest whose
/// content is saved under the file name `stem.ext`: "stem-p3.ext" for the third Period.
pub fn period_file_name(stem: &str, extension: &str, period: u8) -> (r: String)
    ensures
        r@ == stem@ + "-p"@ + decimal(period as nat) + "."@ + extension@,
{
    let mut r = stem.to_owned();
    push_str(&mut r, "-p");
    let d = decimal_chars(period as u64);
    push_chars(&mut r, d.as_slice());
    push_str(&mut r, ".");
    push_str(&mut r, extension);
    r
}

/// The position of the last `c` in `s`, or -1 when there is none.
pub open spec fn last_index_of(s: Seq<char>, c: char) -> int
    decreases s.len(),
{
    if s.len() == 0 {
        -1
    } else if s.last() == c {
        s.len() - 1
    } else {
        last_index_of(s.drop_last(), c)
    }
}

proof fn lemma_last_index_bounds(s: Seq<char>, c: char)
    ensures
        -1 <= last_index_of(s, c) < s.len(),
        last_index_of(s, c) >= 0 ==> s[last_index_of(s, c)] == c,
    decreases s.len(),
{
    if s.len() > 0 && s.last() != c {
        lemma_last_index_bounds(s.drop_last(), c);
    }
}

/// One more than the position of the last `c` in `v` (0 when there is none).
fn last_index_after(v: &Vec<char>, c: char) -> (r: usize)
    ensures
        r == last_index_of(v@, c) + 1,
{
    let mut i: usize = v.len();
    assert(v@.take(i as int) =~= v@);
    while i > 0
        invariant
            i <= v.len(),
            last_index_of(v@, c) == last_index_of(v@.take(i as int), c),
        decreases i,
    {
        assert(v@.take(i as int).drop_last() =~= v@.take(i - 1));
        assert(v@.take(i as int).last() == v@[i - 1]);
        if v[i - 1] == c {
            return i;
        }
        i = i - 1;
    }
    0
}

fn chars_range(v: &Vec<char>, a: usize, b: usize) -> (r: String)
    requires
        a <= b <= v.len(),
    ensures
        r@ == v@.subrange(a as int, b as int),
{
    let mut r = String::new();
    let mut i: usize = a;
    while i < b
        invariant
            a <= i <= b <= v.len(),
            r@ == v@.subrange(a as int, i as int),
        decreases b - i,
    {
        crate::text::push_char(&mut r, v[i]);
        assert(v@.subrange(a as int, i + 1) =~= v@.subrange(a as int, i as int).push(v@[i as int]));
        i = i + 1;
    }
    r
}

/// Where the content of a Period is saved.
#[derive(Debug, Clone)]
pub enum PeriodPath {
    /// At this path.
    Path(String),
    /// In a temporary file whose name starts with this prefix and has this extension (when the
    /// output path has no file stem and extension to build a name from).
    Temporary(String, String),
}

/// The directory part (up to and including the last `/`), the file stem and the extension of a
/// path written with `/` separators whose file name has an extension (a `.` after its first
/// character); none otherwise.
pub open spec fn path_stem_extension(base: Seq<char>) -> Option<(Seq<char>, Seq<char>, Seq<char>)> {
    let sl = last_index_of(base, '/');
    let dir = base.take(sl + 1);
    let name = base.skip(sl + 1);
    let dot = last_index_of(name, '.');
    if dot > 0 && name != ".."@ {
        Some((dir, name.take(dot), name.skip(dot + 1)))
    } else {
        None
    }
}

/// The path of the output of Period number `period` (counted from 1) of a manifest whose content
/// is saved at `base`: the first Period is saved at `base` itself; a later one beside it, with
/// "-pN" added to the file stem ("foo.mkv" gives "foo-p2.mkv" for the second Period); without a
/// file stem and extension, in a temporary file named "dashmpd-pN" with extension "mp4".
pub open spec fn spec_output_path_for_period(base: Seq<char>, period: nat) -> Result<Seq<char>, (Seq<char>, Seq<char>)> {
    if period == 1 {
        Ok(base)
    } else {
        match path_stem_extension(base) {
            Some((dir, stem, ext)) => Ok(dir + stem + "-p"@ + decimal(period) + "."@ + ext),
            None => Err(("dashmpd-p"@ + decimal(period), "mp4"@)),
        }
    }
}

/// Where the content of Period number `period` is saved (see `spec_output_path_for_period`); the
/// path is read as text with `/` separators.
pub fn output_path_for_period(base: &str, period: u8) -> (r: PeriodPath)
    requires
        period > 0,
    ensures
        match spec_output_path_for_period(base@, period as nat) {
            Ok(p) => r matches PeriodPath::Path(q) && q@ == p,
            Err((prefix, ext)) => r matches PeriodPath::Temporary(q, e) && q@ == prefix && e@ == ext,
        },
{
    if period == 1 {
        return PeriodPath::Path(base.to_owned());
    }
    let v = chars_of(base);
    proof {
        lemma_last_index_bounds(base@, '/');
    }
    let start: usize = last_index_after(&v, '/');
    let ghost sl = start - 1;
    let name_chars = {
        let mut n: Vec<char> = Vec::new();
        let mut i: usize = start;
        while i < v.len()
            invariant
                start <= i <= v.len(),
                n@ == v@.subrange(start as int, i as int),
            decreases v.len() - i,
        {
            n.push(v[i]);
            assert(v@.subrange(start as int, i + 1) =~= v@.subrange(start as int, i as int).push(v@[i as int]));
            i = i + 1;
        }
        n
    };
    assert(name_chars@ =~= base@.skip(sl + 1));
    proof {
        lemma_last_index_bounds(name_chars@, '.');
    }
    let dot_after = last_index_after(&name_chars, '.');
    let is_dotdot = name_chars.len() == 2 && name_chars[0] == '.' && name_chars[1] == '.';
    proof {
        reveal_strlit("..");
        if name_chars@ == ".."@ {
            assert(name_chars@[0] == '.' && name_chars@[1] == '.');
        }
        if is_dotdot {
            assert(name_chars@ =~= ".."@);
        }
    }
    if dot_after > 1 && !is_dotdot {
        let d: usize = dot_after - 1;
        let ghost dot = d as int;
        let mut p = chars_range(&v, 0, start);
        assert(v@.subrange(0, start as int) =~= base@.take(sl + 1));
        let stem = chars_range(&name_chars, 0, d);
        assert(name_chars@.subrange(0, d as int) =~= name_chars@.take(dot as int));
        push_str(&mut p, stem.as_str());
        push_str(&mut p, "-p");
        let n = decimal_chars(period as u64);
        push_chars(&mut p, n.as_slice());
        push_str(&mut p, ".");
        let ext = chars_range(&name_chars, d + 1, name_chars.len());
        assert(name_chars@.subrange(d + 1, name_chars.len() as int) =~= name_chars@.skip(dot + 1));
        push_str(&mut p, ext.as_str());
        PeriodPath::Path(p)
    } else {
        let mut q = "dashmpd-p".to_owned();
        let n = decimal_chars(period as u64);
        push_chars(&mut q, n.as_slice());
        PeriodPath::Temporary(q, "mp4".to_owned())
    }
}

/// What `String::from_utf8_lossy` returns for a byte string.
pub uninterp spec fn utf8_lossy(bytes: Seq<u8>) -> Seq<char>;

/// Calls `String::from_utf8_lossy`, which decodes the bytes as UTF-8, replacing invalid
/// sequences by U+FFFD REPLACEMENT CHARACTER; for valid UTF-8 its documentation says that the
/// string is returned as it is. The result is named `utf8_lossy`; the contract states that it is
/// the decoded text when the bytes are valid UTF-8, and nothing about the replacements.
#[verifier::external_body]
fn from_utf8_lossy(bytes: &[u8]) -> (r: String)
    ensures
        r@ == utf8_lossy(bytes@),
        valid_utf8(bytes@) ==> r@ == decode_utf8(bytes@),
{
    String::from_utf8_lossy(bytes).into_owned()
}

/// The most output of an external program that is shown to the user, in bytes.
pub const PROCESS_OUTPUT_LIMIT: usize = 4096;

/// The text of the first 4096 bytes (at most) of what an external program printed on stdout or
/// stderr, decoded leniently as UTF-8.
pub fn partial_process_output(output: &[u8]) -> (r: String)
    ensures
        r@ == utf8_lossy(output@.take(if output.len() < 4096 { output.len() as int } else { 4096 })),
        valid_utf8(output@.take(if output.len() < 4096 { output.len() as int } else { 4096 })) ==> r@
            == decode_utf8(output@.take(if output.len() < 4096 { output.len() as int } else { 4096 })),
{
    let len = if output.len() < PROCESS_OUTPUT_LIMIT {
        output.len()
    } else {
        PROCESS_OUTPUT_LIMIT
    };
    let head = &output[0..len];
    assert(head@ =~= output@.take(len as int));
    from_utf8_lossy(head)
}

/// An HTTP status that signals a transient failure: 408 Request Timeout, 429 Too Many Requests,
/// 503 Service Unavailable or 504 Gateway Timeout.
pub open spec fn transient_status(s: u16) -> bool {
    s == 408 || s == 429 || s == 503 || s == 504
}

/// Whether a failed HTTP request is worth retrying: it timed out, or the server answered with a
/// transient status.
pub fn transient_error_p(is_timeout: bool, status: Option<u16>) -> (r: bool)
    ensures
        r == (is_timeout || (status matches Some(s) && transient_status(s))),
{
    if is_timeout {
        return true;
    }
    if let Some(s) = status {
        if s == 408 || s == 429 || s == 503 || s == 504 {
            return true;
        }
    }
    false
}

/// The error for a failed network request, described by `why` and the details of the failure:
/// a timeout, a connection failure, or another network error.
pub fn network_error(why: &str, is_timeout: bool, is_connect: bool, detail: &str) -> (r: DashMpdError)
    ensures
        is_timeout ==> (r matches DashMpdError::NetworkTimeout(m) && m@ == why@ + ": "@ + detail@),
        !is_timeout && is_connect ==> (r matches DashMpdError::NetworkConnect(m) && m@ == why@
            + ": "@ + detail@),
        !is_timeout && !is_connect ==> (r matches DashMpdError::Network(m) && m@ == why@ + ": "@
            + detail@),
{
    let mut m = why.to_owned();
    push_str(&mut m, ": ");
    push_str(&mut m, detail);
    if is_timeout {
        DashMpdError::NetworkTimeout(m)
    } else if is_connect {
        DashMpdError::NetworkConnect(m)
    } else {
        DashMpdError::Network(m)
    }
}

/// The error for content that could not be parsed, described by `why` and the details.
pub fn parse_error(why: &str, detail: &str) -> (r: DashMpdError)
    ensures
        r matches DashMpdError::Parsing(m) && m@ == why@ + ": "@ + detail@,
{
    let mut m = why.to_owned();
    push_str(&mut m, ": ");
    push_str(&mut m, detail);
    DashMpdError::Parsing(m)
}

} // verus!
