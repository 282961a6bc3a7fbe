//! WebVTT subtitles that arrive as a stream of fragments: the fragments are collected in order
//! and merged into a single VTT document.

use vstd::prelude::*;
use vstd::utf8::{valid_utf8, decode_utf8};
use crate::DashMpdError;
use crate::messages::{views, concat_all, push_msg};
use crate::text::push_str;

verus! {

/// A VTT document assembled from fragments.
#[derive(Clone, Debug)]
pub struct VttDocument {
    contents: Vec<String>,
    warned_binary_contents: bool,
}

impl View for VttDocument {
    /// The fragments added so far, in order.
    type V = Seq<Seq<char>>;

    closed spec fn view(&self) -> Seq<Seq<char>> {
        views(self.contents@)
    }
}

/// Calls `std::str::from_utf8`, which its documentation says returns the string when the bytes
/// are valid UTF-8 and an error otherwise; the string holds the characters that the bytes
/// encode.
#[verifier::external_body]
fn utf8_text(bytes: &[u8]) -> (r: Option<String>)
    ensures
        r is Some <==> valid_utf8(bytes@),
        r matches Some(s) ==> s@ == decode_utf8(bytes@),
{
    match std::str::from_utf8(bytes) {
        Ok(s) => Some(s.to_string()),
        Err(_) => None,
    }
}

impl VttDocument {
    /// Whether binary (non UTF-8) content has been met and ignored.
    pub closed spec fn warned(&self) -> bool {
        self.warned_binary_contents
    }

    /// An empty document.
    pub fn new() -> (d: VttDocument)
        ensures
            d@ == Seq::<Seq<char>>::empty(),
            !d.warned(),
    {
        let d = VttDocument { contents: Vec::new(), warned_binary_contents: false };
        assert(d@ =~= Seq::<Seq<char>>::empty());
        d
    }

    /// Adds the VTT content held in `bytes`: UTF-8 text is added as a fragment; other binary
    /// content is ignored (and noted, so that the user is warned once).
    pub fn add_bytes(&mut self, bytes: &[u8]) -> (r: Result<(), DashMpdError>)
        ensures
            r is Ok,
            valid_utf8(bytes@) ==> final(self)@ == old(self)@.push(decode_utf8(bytes@)),
            valid_utf8(bytes@) ==> final(self).warned() == old(self).warned(),
            !valid_utf8(bytes@) ==> final(self)@ == old(self)@ && final(self).warned(),
    {
        match utf8_text(bytes) {
            Some(s) => {
                let r = self.add_content(s.as_str());
                r
            },
            None => {
                if !self.warned_binary_contents {
                    self.warned_binary_contents = true;
                }
                Ok(())
            },
        }
    }

    /// Adds a fragment of VTT content.
    pub fn add_content(&mut self, content: &str) -> (r: Result<(), DashMpdError>)
        ensures
            r is Ok,
            final(self)@ == old(self)@.push(content@),
            final(self).warned() == old(self).warned(),
    {
        push_msg(&mut self.contents, content.to_owned());
        Ok(())
    }

    /// The complete VTT document: the merge (concatenation) of all the fragments added so far.
    pub fn to_string(&mut self) -> (r: String)
        ensures
            r@ == concat_all(old(self)@),
            final(self)@ == old(self)@,
            final(self).warned() == old(self).warned(),
    {
        let mut out = String::new();
        let mut i: usize = 0;
        let ghost v = views(self.contents@);
        assert(v.take(0) =~= seq![]);
        while i < self.contents.len()
            invariant
                i <= self.contents.len(),
                v == views(self.contents@),
                out@ == concat_all(v.take(i as int)),
            decreases self.contents.len() - i,
        {
            assert(v.take(i + 1).drop_last() =~= v.take(i as int));
            push_str(&mut out, self.contents[i].as_str());
            i = i + 1;
        }
        assert(v.take(self.contents.len() as int) =~= v);
        out
    }
}

impl Default for VttDocument {
    fn default() -> (d: Self)
        ensures
            d@ == Seq::<Seq<char>>::empty(),
    {
        Self::new()
    }
}

/// The text of a document is the text of the fragments it was given, one after the other:
/// adding a fragment appends it to the text.
pub proof fn lemma_vtt_text_appends(fragments: Seq<Seq<char>>, c: Seq<char>)
    ensures
        concat_all(fragments.push(c)) == concat_all(fragments) + c,
{
    assert(fragments.push(c).drop_last() =~= fragments);
}

} // verus!
