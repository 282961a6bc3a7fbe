//! The end of an XML document that may be followed by trailing content (as in the XML payload of
//! an `stpp` subtitle sample).

use vstd::prelude::*;
use crate::text::opt_view;

verus! {

/// The tokens that matter for finding the end of the root element.
#[derive(Debug, Clone, Copy, PartialEq, Eq, Structural)]
pub enum XmlTokenKind {
    /// The start of an element (`<name`).
    ElementStart,
    /// A closing tag (`</name>`).
    CloseEnd,
    /// The end of an empty element (`/>`).
    EmptyEnd,
    /// Any other token.
    Other,
}

/// Why no end of the XML content was found.
#[derive(Debug, Clone, PartialEq, Eq)]
pub enum XmlEndError {
    /// The tokenizer failed; its error text.
    Token(String),
    /// The root element is not closed.
    Unclosed,
}

/// The tokens of `input` (their kind and the byte position where each ends) as the `xmlparser`
/// tokenizer yields them, and the text of the error that ended the tokenization, if one did.
pub uninterp spec fn xml_tokens(input: Seq<char>) -> (Seq<(XmlTokenKind, usize)>, Option<Seq<char>>);

/// Runs `xmlparser::Tokenizer` over the input, keeping the kind of each token and the end of its
/// span, until the tokenizer ends (after an error it yields nothing more). The result is a
/// function of the input and is named `xml_tokens`; nothing more is claimed.
#[verifier::external_body]
fn tokenize_xml(input: &str) -> (r: (Vec<(XmlTokenKind, usize)>, Option<String>))
    ensures
        (r.0@, opt_view(r.1)) == xml_tokens(input@),
{
    let mut tokens = Vec::new();
    for token in xmlparser::Tokenizer::from(input) {
        let token = match token {
            Ok(t) => t,
            Err(e) => return (tokens, Some(e.to_string())),
        };
        let kind = match token {
            xmlparser::Token::ElementStart { .. } => XmlTokenKind::ElementStart,
            xmlparser::Token::ElementEnd { end: xmlparser::ElementEnd::Close(..), .. } => XmlTokenKind::CloseEnd,
            xmlparser::Token::ElementEnd { end: xmlparser::ElementEnd::Empty, .. } => XmlTokenKind::EmptyEnd,
            _ => XmlTokenKind::Other,
        };
        tokens.push((kind, token.span().end()));
    }
    (tokens, None)
}

/// The end position of the element that closes the nesting begun before token `i` at `depth`:
/// element starts deepen it, closing tags and empty-element ends make it shallower, and the token
/// that brings it back to zero closes the root element.
pub open spec fn root_end_from(tokens: Seq<(XmlTokenKind, usize)>, i: int, depth: int) -> Option<usize>
    decreases tokens.len() - i,
{
    if i < 0 || i >= tokens.len() {
        None
    } else {
        match tokens[i].0 {
            XmlTokenKind::ElementStart => root_end_from(tokens, i + 1, depth + 1),
            XmlTokenKind::Other => root_end_from(tokens, i + 1, depth),
            _ => if depth - 1 == 0 {
                Some(tokens[i].1)
            } else {
                root_end_from(tokens, i + 1, depth - 1)
            },
        }
    }
}

/// The end of the XML content, given the tokens of the input and the tokenizer's error.
pub open spec fn spec_xml_endpos(tokens: Seq<(XmlTokenKind, usize)>, error: Option<Seq<char>>) -> Result<
    usize,
    Option<Seq<char>>,
> {
    match root_end_from(tokens, 0, 0) {
        Some(p) => Ok(p),
        None => Err(error),
    }
}

/// The byte position where the root element ends, given the tokens of the input and the error
/// that ended their tokenization: an error met before the root element closes is reported, and
/// so is a root element that never closes.
pub fn xml_endpos_from_tokens(tokens: &Vec<(XmlTokenKind, usize)>, error: &Option<String>) -> (r: Result<usize, XmlEndError>)
    ensures
        match spec_xml_endpos(tokens@, opt_view(*error)) {
            Ok(p) => r == Ok::<usize, XmlEndError>(p),
            Err(Some(e)) => r matches Err(XmlEndError::Token(m)) && m@ == e,
            Err(None) => r == Err::<usize, XmlEndError>(XmlEndError::Unclosed),
        },
{
    // The depth is the count of element starts less the count of element ends.
    let mut starts: usize = 0;
    let mut ends: usize = 0;
    let mut i: usize = 0;
    while i < tokens.len()
        invariant
            i <= tokens.len(),
            starts + ends <= i,
            root_end_from(tokens@, 0, 0) == root_end_from(tokens@, i as int, starts - ends),
        decreases tokens.len() - i,
    {
        let (kind, end) = tokens[i];
        match kind {
            XmlTokenKind::ElementStart => {
                starts = starts + 1;
            },
            XmlTokenKind::Other => {},
            _ => {
                ends = ends + 1;
                if starts == ends {
                    return Ok(end);
                }
            },
        }
        i = i + 1;
    }
    match error {
        Some(e) => Err(XmlEndError::Token(e.clone())),
        None => Err(XmlEndError::Unclosed),
    }
}

/// The byte position in `input` (a well-formed XML document potentially followed by trailing
/// content) where the XML content ends: the end of the closing tag of the root element.
pub fn identify_xml_endpos(input: &str) -> (r: Result<usize, XmlEndError>)
    ensures
        ({
            let (tokens, error) = xml_tokens(input@);
            match spec_xml_endpos(tokens, error) {
                Ok(p) => r == Ok::<usize, XmlEndError>(p),
                Err(Some(e)) => r matches Err(XmlEndError::Token(m)) && m@ == e,
                Err(None) => r == Err::<usize, XmlEndError>(XmlEndError::Unclosed),
            }
        }),
{
    let (tokens, error) = tokenize_xml(input);
    xml_endpos_from_tokens(&tokens, &error)
}

} // verus!
