//! URLs, held as their serialization: parsing with the `url` crate, joining a relative URL to a
//! base, and merging the BaseURL elements of a manifest.

use vstd::prelude::*;
use crate::DashMpdError;
use crate::planning::{spec_is_absolute_url, is_absolute_url, parse_error};

verus! {

/// The parts of a parsed URL that the library reads.
#[derive(Debug, Clone, PartialEq, Eq)]
pub struct ParsedUrl {
    /// The serialization of the URL.
    pub text: String,
    /// Its scheme, in lower case.
    pub scheme: String,
    /// Its query string, without the '?'.
    pub query: Option<String>,
    /// Its username (empty when there is none).
    pub username: String,
    /// Its password, if any.
    pub password: Option<String>,
}

/// What the `url` crate makes of a string: a URL, or a parse error (the error's debug text).
#[derive(Debug, Clone, PartialEq, Eq)]
pub enum UrlParseOutcome {
    Parsed(ParsedUrl),
    /// A relative URL, refused for want of a base URL.
    RelativeWithoutBase(String),
    /// Any other parse error.
    Invalid(String),
}

/// The outcome of `url::Url::parse` on a string.
pub uninterp spec fn url_parse(u: Seq<char>) -> UrlParseOutcome;

/// Calls `url::Url::parse`, which parses an absolute URL by the WHATWG URL standard, and reads
/// the serialization, scheme, query, username and password of the URL, or the error
/// (`RelativeUrlWithoutBase` told apart). The outcome is a function of the string alone and is
/// named `url_parse`; nothing more is claimed.
#[verifier::external_body]
pub(crate) fn parse_url(u: &str) -> (r: UrlParseOutcome)
    ensures
        r == url_parse(u@),
{
    match url::Url::parse(u) {
        Ok(url) => UrlParseOutcome::Parsed(
            ParsedUrl {
                text: url.to_string(),
                scheme: url.scheme().to_string(),
                query: url.query().map(|q| q.to_string()),
                username: url.username().to_string(),
                password: url.password().map(|p| p.to_string()),
            },
        ),
        Err(e @ url::ParseError::RelativeUrlWithoutBase) => UrlParseOutcome::RelativeWithoutBase(
            format!("{e:#?}"),
        ),
        Err(e) => UrlParseOutcome::Invalid(format!("{e:#?}")),
    }
}

/// The outcome of `url::Url::join` of `input` onto the URL whose serialization is `base`.
pub uninterp spec fn url_join(base: Seq<char>, input: Seq<char>) -> UrlParseOutcome;

/// Calls `url::Url::join`, which parses `input` as a URL reference relative to the base URL (the
/// base, a serialization, is read back with `Url::parse`; when it does not parse, that error is
/// the outcome). The outcome is a function of the two strings and is named `url_join`; nothing
/// more is claimed.
#[verifier::external_body]
fn join_url(base: &str, input: &str) -> (r: UrlParseOutcome)
    ensures
        r == url_join(base@, input@),
{
    match url::Url::parse(base).and_then(|b| b.join(input)) {
        Ok(url) => UrlParseOutcome::Parsed(
            ParsedUrl {
                text: url.to_string(),
                scheme: url.scheme().to_string(),
                query: url.query().map(|q| q.to_string()),
                username: url.username().to_string(),
                password: url.password().map(|p| p.to_string()),
            },
        ),
        Err(e @ url::ParseError::RelativeUrlWithoutBase) => UrlParseOutcome::RelativeWithoutBase(
            format!("{e:#?}"),
        ),
        Err(e) => UrlParseOutcome::Invalid(format!("{e:#?}")),
    }
}

/// The serialization of the URL `u` after `url::Url::set_query` with `query`.
pub uninterp spec fn url_with_query(u: Seq<char>, query: Option<Seq<char>>) -> Seq<char>;

/// Calls `url::Url::set_query` on the URL whose serialization is `u` (read back with
/// `Url::parse`; a string that does not parse is returned as it is) and returns the new
/// serialization. The result is a function of the two arguments and is named
/// `url_with_query`; nothing more is claimed.
#[verifier::external_body]
fn set_url_query(u: &str, query: &Option<String>) -> (r: String)
    ensures
        r@ == url_with_query(u@, crate::text::opt_view(*query)),
{
    match url::Url::parse(u) {
        Ok(mut url) => {
            url.set_query(query.as_deref());
            url.to_string()
        },
        Err(_) => u.to_string(),
    }
}

/// The error text of an outcome that is not a URL.
pub open spec fn outcome_error(o: UrlParseOutcome) -> Seq<char> {
    match o {
        UrlParseOutcome::RelativeWithoutBase(d) => d@,
        UrlParseOutcome::Invalid(d) => d@,
        UrlParseOutcome::Parsed(p) => p.text@,
    }
}

/// The query of the URL `u` (none when `u` does not parse).
pub open spec fn query_of(u: Seq<char>) -> Option<Seq<char>> {
    match url_parse(u) {
        UrlParseOutcome::Parsed(p) => crate::text::opt_view(p.query),
        _ => None,
    }
}

/// The result of merging the BaseURL `new` into the current base URL `current`: an absolute
/// `new` is parsed on its own; a relative one is joined to `current`, and when the result has no
/// query it takes the query of `current`.
pub open spec fn spec_merge_baseurls(current: Seq<char>, new: Seq<char>) -> Result<Seq<char>, Seq<char>> {
    if spec_is_absolute_url(new) {
        match url_parse(new) {
            UrlParseOutcome::Parsed(p) => Ok(p.text@),
            o => Err("parsing BaseURL"@ + ": "@ + outcome_error(o)),
        }
    } else {
        match url_join(current, new) {
            UrlParseOutcome::Parsed(m) => if m.query is None {
                Ok(url_with_query(m.text@, query_of(current)))
            } else {
                Ok(m.text@)
            },
            o => Err("joining base with BaseURL"@ + ": "@ + outcome_error(o)),
        }
    }
}

/// Merges the BaseURL `new` into the current base URL `current` (the manifest's URL, the URL it
/// redirected to, or an enclosing BaseURL). The query of the current URL is kept when the merged
/// URL has none: merging "/video42.mp4" into "https://example.com/manifest.mpd?auth=secret"
/// gives "https://example.com/video42.mp4?auth=secret", and a query of the new URL takes
/// precedence.
pub fn merge_baseurls(current: &str, new: &str) -> (r: Result<String, DashMpdError>)
    ensures
        match r {
            Ok(u) => spec_merge_baseurls(current@, new@) == Ok::<Seq<char>, Seq<char>>(u@),
            Err(e) => e matches DashMpdError::Parsing(m) && spec_merge_baseurls(current@, new@)
                == Err::<Seq<char>, Seq<char>>(m@),
        },
{
    if is_absolute_url(new) {
        match parse_url(new) {
            UrlParseOutcome::Parsed(p) => Ok(p.text),
            UrlParseOutcome::RelativeWithoutBase(d) => Err(parse_error("parsing BaseURL", d.as_str())),
            UrlParseOutcome::Invalid(d) => Err(parse_error("parsing BaseURL", d.as_str())),
        }
    } else {
        match join_url(current, new) {
            UrlParseOutcome::Parsed(m) => {
                if m.query.is_none() {
                    let q = match parse_url(current) {
                        UrlParseOutcome::Parsed(c) => c.query,
                        _ => None,
                    };
                    let r = set_url_query(m.text.as_str(), &q);
                    assert(crate::text::opt_view(q) == query_of(current@));
                    Ok(r)
                } else {
                    Ok(m.text)
                }
            },
            UrlParseOutcome::RelativeWithoutBase(d) => Err(
                parse_error("joining base with BaseURL", d.as_str()),
            ),
            UrlParseOutcome::Invalid(d) => Err(parse_error("joining base with BaseURL", d.as_str())),
        }
    }
}

} // verus!
