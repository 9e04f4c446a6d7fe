//! The input cursor: an in-memory sequence of extended grapheme clusters
//! with a current offset. Primitives peek the current grapheme, consume it,
//! and ask for the zero-based grapheme offset; a peek past the end returns
//! the end-of-input sentinel instead of faulting.

use unicode_segmentation::UnicodeSegmentation;
use vstd::prelude::*;

verus! {

/// The decomposition of a string into its ordered extended grapheme
/// clusters, each given as its characters.
pub uninterp spec fn graphemes_of(s: Seq<char>) -> Seq<Seq<char>>;

/// Relies on unicode_segmentation's `UnicodeSegmentation::graphemes` with
/// extended clusters: the decomposition depends on the characters alone.
#[verifier::external_body]
pub(crate) fn split_graphemes(s: &str) -> (r: Vec<String>)
    ensures
        r@.map_values(|g: String| g@) == graphemes_of(s@),
{
    s.graphemes(true).map(|g| g.to_string()).collect()
}

/// The mathematical model of a cursor: the grapheme clusters of the whole
/// input and the current offset into them.
#[verifier::ext_equal]
pub struct StreamModel {
    pub graphemes: Seq<Seq<char>>,
    pub offset: int,
}

impl StreamModel {
    /// The offset never runs past the end of the input.
    pub open spec fn wf(self) -> bool {
        0 <= self.offset <= self.graphemes.len()
    }

    /// Every grapheme has been consumed.
    pub open spec fn exhausted(self) -> bool {
        self.offset >= self.graphemes.len()
    }

    /// The grapheme under the cursor, or the empty end-of-input sentinel.
    pub open spec fn peek(self) -> Seq<char> {
        if self.offset < self.graphemes.len() {
            self.graphemes[self.offset]
        } else {
            Seq::empty()
        }
    }
}

/// An in-memory cursor over the grapheme clusters of an input string.
pub struct Stream {
    graphemes: Vec<String>,
    offset: usize,
}

impl View for Stream {
    type V = StreamModel;

    closed spec fn view(&self) -> StreamModel {
        StreamModel {
            graphemes: self.graphemes@.map_values(|g: String| g@),
            offset: self.offset as int,
        }
    }
}

impl Stream {
    /// A cursor at the start of `input`, decomposed into extended grapheme
    /// clusters.
    pub fn new(input: &str) -> (r: Stream)
        ensures
            r@.graphemes == graphemes_of(input@),
            r@.offset == 0,
            r@.wf(),
    {
        Stream { graphemes: split_graphemes(input), offset: 0 }
    }

    /// Peek the current grapheme without consuming it; at the end of the
    /// input this returns the explicit sentinel `None` instead of faulting.
    pub fn next(&self) -> (r: Option<&String>)
        requires
            self@.wf(),
        ensures
            match r {
                Some(g) => !self@.exhausted() && g@ == self@.peek(),
                None => self@.exhausted(),
            },
    {
        if self.offset < self.graphemes.len() {
            Some(&self.graphemes[self.offset])
        } else {
            None
        }
    }

    /// Consume the current grapheme, advancing the offset by one grapheme.
    pub fn read(&mut self)
        requires
            old(self)@.wf(),
            !old(self)@.exhausted(),
        ensures
            final(self)@.graphemes == old(self)@.graphemes,
            final(self)@.offset == old(self)@.offset + 1,
            final(self)@.wf(),
    {
        let len = self.graphemes.len();
        proof {
            assert(self@.graphemes.len() == self.graphemes@.len());
        }
        self.offset = self.offset + 1;
    }

    /// The current zero-based grapheme offset.
    pub fn position(&self) -> (r: usize)
        ensures
            r as int == self@.offset,
    {
        self.offset
    }
}

} // verus!
