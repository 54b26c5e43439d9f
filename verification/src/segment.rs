//! Checkable segments of a document.
//!
//! A segment owns the extracted text of one query match (or the whole
//! document), its classification, and an ordered list of breakpoints mapping
//! segment offsets back to offsets of the original document: looking up the
//! greatest breakpoint at or below a segment offset and adding the remainder
//! yields the original offset.

use vstd::prelude::*;

use crate::position::{line_scan, position_in, position_spec, Position};
use crate::rules::NodeType;

verus! {

/// A checkable excerpt of a document, with its offset mapping.
#[derive(Debug, Clone)]
pub struct Segment {
    /// The extracted text, UTF-8 bytes.
    pub text: Vec<u8>,
    /// How the text is classified for tagging.
    pub node_type: NodeType,
    /// Breakpoints (segment offset, original offset), in segment order.
    pub ranges: Vec<(usize, usize)>,
}

impl Segment {
    /// A segment's mapping must cover offset 0 and its breakpoints must be
    /// recorded at strictly increasing segment offsets.
    pub open spec fn wf(&self) -> bool {
        &&& self.ranges@.len() > 0
        &&& self.ranges@[0].0 == 0
        &&& forall|i: int|
            0 <= i < self.ranges@.len() - 1 ==> (#[trigger] self.ranges@[i]).0
                < self.ranges@[i + 1].0
    }
}

/// The greatest breakpoint recorded at or below segment offset `o`.
pub open spec fn breakpoint_of(ranges: Seq<(usize, usize)>, o: int) -> (usize, usize)
    decreases ranges.len(),
{
    if ranges.len() == 0 {
        (0usize, 0usize)
    } else if ranges.last().0 <= o {
        ranges.last()
    } else {
        breakpoint_of(ranges.drop_last(), o)
    }
}

pub proof fn lemma_breakpoint_of_covers(ranges: Seq<(usize, usize)>, o: int)
    requires
        ranges.len() > 0,
        ranges[0].0 == 0,
        0 <= o,
    ensures
        breakpoint_of(ranges, o).0 <= o,
        exists|i: int| 0 <= i < ranges.len() && ranges[i] == breakpoint_of(ranges, o),
    decreases ranges.len(),
{
    if ranges.last().0 <= o {
        assert(ranges[ranges.len() - 1] == breakpoint_of(ranges, o));
    } else {
        lemma_breakpoint_of_covers(ranges.drop_last(), o);
        let i = choose|i: int|
            0 <= i < ranges.drop_last().len() && ranges.drop_last()[i] == breakpoint_of(
                ranges.drop_last(),
                o,
            );
        assert(ranges[i] == breakpoint_of(ranges, o));
    }
}

/// The original-document offset that segment offset `o` corresponds to,
/// clamped to the document's length.
pub open spec fn mapped_offset(ranges: Seq<(usize, usize)>, o: int, doc_len: int) -> int {
    let bp = breakpoint_of(ranges, o);
    let raw = bp.1 + (o - bp.0);
    if raw > doc_len {
        doc_len
    } else {
        raw
    }
}

/// A byte that may start a character: anything but a UTF-8 continuation byte.
/// Offsets at or past the end of the text also count as boundaries.
pub open spec fn is_boundary(text: Seq<u8>, i: int) -> bool {
    i >= text.len() || text[i] < 128 || text[i] >= 192
}

/// The first character boundary at or after `i`.
pub open spec fn next_boundary(text: Seq<u8>, i: int) -> int
    decreases text.len() - i,
    when 0 <= i <= text.len()
{
    if is_boundary(text, i) {
        i
    } else {
        next_boundary(text, i + 1)
    }
}

pub proof fn lemma_next_boundary_bounds(text: Seq<u8>, i: int)
    requires
        0 <= i <= text.len(),
    ensures
        i <= next_boundary(text, i) <= text.len(),
    decreases text.len() - i,
{
    if !is_boundary(text, i) {
        lemma_next_boundary_bounds(text, i + 1);
    }
}

/// Where `map_position` sends segment offset `o`: the corresponding original
/// offset, moved forward to a character boundary.
pub open spec fn original_offset_spec(ranges: Seq<(usize, usize)>, o: int, doc: Seq<u8>) -> int {
    next_boundary(doc, mapped_offset(ranges, o, doc.len() as int))
}

impl Segment {
    /// Maps an offset of this segment's text to a line/character position of
    /// the original document `document_text`. Offsets beyond the mapped
    /// region land at the document's end; an offset that lands inside a
    /// multi-byte character is moved forward to the next boundary. That
    /// forward move is defensive: a checker offset should always land on a
    /// boundary, and one that does not may point at an off-by-one further
    /// up the pipeline rather than here.
    pub fn map_position(&self, document_text: &Vec<u8>, offset: usize) -> (p: Position)
        requires
            self.wf(),
        ensures
            p == position_spec(
                document_text@,
                original_offset_spec(self.ranges@, offset as int, document_text@),
            ),
    {
        let doc_len = document_text.len();
        // Find the greatest breakpoint at or below `offset`.
        let mut i: usize = self.ranges.len();
        proof {
            assert(self.ranges@.take(i as int) =~= self.ranges@);
        }
        while i > 1 && self.ranges[i - 1].0 > offset
            invariant
                1 <= i <= self.ranges@.len(),
                self.wf(),
                breakpoint_of(self.ranges@, offset as int) == breakpoint_of(
                    self.ranges@.take(i as int),
                    offset as int,
                ),
            decreases i,
        {
            proof {
                assert(self.ranges@.take(i as int).drop_last() =~= self.ranges@.take(i - 1));
                assert(self.ranges@.take(i as int).last() == self.ranges@[i - 1]);
            }
            i = i - 1;
        }
        proof {
            assert(self.ranges@.take(i as int).last() == self.ranges@[i - 1]);
            if self.ranges@[i - 1].0 > offset {
                // Only possible for i == 1; the first breakpoint is at 0.
                assert(self.ranges@[0].0 == 0);
            }
        }
        let (key, value) = self.ranges[i - 1];
        let diff = offset - key;
        let mapped = if diff > doc_len || value > doc_len - diff {
            doc_len
        } else {
            value + diff
        };
        // Move forward to a character boundary.
        let mut o = mapped;
        while o < doc_len && document_text[o] >= 128 && document_text[o] < 192
            invariant
                mapped <= o <= doc_len,
                doc_len == document_text@.len(),
                next_boundary(document_text@, mapped as int) == next_boundary(
                    document_text@,
                    o as int,
                ),
            decreases doc_len - o,
        {
            o = o + 1;
        }
        position_in(document_text, o)
    }
}

/// For every offset of a well-formed segment, the position produced by
/// `map_position` equals what a naive line scan of the whole original
/// document yields at the corresponding original offset.
pub proof fn lemma_map_position_matches_line_scan(
    ranges: Seq<(usize, usize)>,
    doc: Seq<u8>,
    offset: int,
)
    requires
        ranges.len() > 0,
        ranges[0].0 == 0,
        0 <= offset,
        doc.len() <= usize::MAX,
    ensures
        ({
            let o = original_offset_spec(ranges, offset, doc);
            line_scan(doc, o) == (
                position_spec(doc, o).line as int,
                position_spec(doc, o).character as int,
            )
        }),
{
    lemma_breakpoint_of_covers(ranges, offset);
    lemma_next_boundary_bounds(doc, mapped_offset(ranges, offset, doc.len() as int));
    let o = original_offset_spec(ranges, offset, doc);
    crate::position::lemma_position_agrees_with_line_scan(doc, o);
    crate::position::lemma_line_breaks_le_len(doc.take(o));
    crate::position::lemma_line_start_bounds(doc.take(o));
}

} // verus!
