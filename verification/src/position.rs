//! Line/character positions inside a byte buffer.
//!
//! Document text is kept as UTF-8 bytes. A position is zero-based: the line
//! is the number of line feeds before the offset, the character the number of
//! bytes since the most recent line feed.

use vstd::prelude::*;

verus! {

/// A zero-based line/character position in a document.
#[derive(Clone, Copy, Debug, PartialEq, Eq, Structural)]
pub struct Position {
    pub line: usize,
    pub character: usize,
}

/// A line feed, the only line terminator the bridge recognizes.
pub open spec fn is_line_break(b: u8) -> bool {
    b == 10u8
}

/// Number of line breaks in `s`.
pub open spec fn line_breaks_in(s: Seq<u8>) -> nat
    decreases s.len(),
{
    if s.len() == 0 {
        0
    } else {
        line_breaks_in(s.drop_last()) + if is_line_break(s.last()) {
            1nat
        } else {
            0nat
        }
    }
}

/// Offset just after the last line break of `s`, or 0 when `s` has none:
/// where the line containing `s.len()` starts.
pub open spec fn line_start_in(s: Seq<u8>) -> int
    decreases s.len(),
{
    if s.len() == 0 {
        0
    } else if is_line_break(s.last()) {
        s.len() as int
    } else {
        line_start_in(s.drop_last())
    }
}

/// The position of byte offset `o` in `text`: line `line_breaks_in` of the
/// prefix, character counted from the latest line break.
pub open spec fn position_spec(text: Seq<u8>, o: int) -> Position {
    Position {
        line: line_breaks_in(text.take(o)) as usize,
        character: (o - line_start_in(text.take(o))) as usize,
    }
}

/// A naive left-to-right line scan: the oracle the position computation is
/// proved against. Starting from line 0, character 0, each byte before `o`
/// either opens a new line or advances the character count.
pub open spec fn line_scan(s: Seq<u8>, o: int) -> (int, int)
    decreases o,
{
    if o <= 0 {
        (0, 0)
    } else {
        let p = line_scan(s, o - 1);
        if is_line_break(s[o - 1]) {
            (p.0 + 1, 0)
        } else {
            (p.0, p.1 + 1)
        }
    }
}

pub proof fn lemma_line_breaks_le_len(s: Seq<u8>)
    ensures
        line_breaks_in(s) <= s.len(),
    decreases s.len(),
{
    if s.len() > 0 {
        lemma_line_breaks_le_len(s.drop_last());
    }
}

pub proof fn lemma_line_start_bounds(s: Seq<u8>)
    ensures
        0 <= line_start_in(s) <= s.len(),
    decreases s.len(),
{
    if s.len() > 0 && !is_line_break(s.last()) {
        lemma_line_start_bounds(s.drop_last());
    }
}

/// The direct position computation agrees with the naive line-scan oracle at
/// every offset of the text.
pub proof fn lemma_position_agrees_with_line_scan(text: Seq<u8>, o: int)
    requires
        0 <= o <= text.len(),
    ensures
        line_scan(text, o).0 == line_breaks_in(text.take(o)),
        line_scan(text, o).1 == o - line_start_in(text.take(o)),
    decreases o,
{
    lemma_line_start_bounds(text.take(o));
    lemma_line_breaks_le_len(text.take(o));
    if o > 0 {
        lemma_position_agrees_with_line_scan(text, o - 1);
        assert(text.take(o).drop_last() =~= text.take(o - 1));
        assert(text.take(o).last() == text[o - 1]);
        lemma_line_start_bounds(text.take(o - 1));
        lemma_line_breaks_le_len(text.take(o - 1));
        if is_line_break(text[o - 1]) {
            assert(line_breaks_in(text.take(o)) == line_breaks_in(text.take(o - 1)) + 1);
            assert(line_start_in(text.take(o)) == o);
        } else {
            assert(line_breaks_in(text.take(o)) == line_breaks_in(text.take(o - 1)));
            assert(line_start_in(text.take(o)) == line_start_in(text.take(o - 1)));
        }
    }
}

/// Computes the position of `offset` in `text` by a single scan.
pub fn position_in(text: &Vec<u8>, offset: usize) -> (p: Position)
    requires
        offset <= text@.len(),
    ensures
        p == position_spec(text@, offset as int),
{
    let mut line: usize = 0;
    let mut character: usize = 0;
    let mut i: usize = 0;
    while i < offset
        invariant
            i <= offset <= text@.len(),
            line == line_breaks_in(text@.take(i as int)),
            character as int == i - line_start_in(text@.take(i as int)),
        decreases offset - i,
    {
        proof {
            assert(text@.take(i + 1).drop_last() =~= text@.take(i as int));
            lemma_line_breaks_le_len(text@.take(i as int));
            lemma_line_start_bounds(text@.take(i as int));
        }
        if text[i] == 10u8 {
            line = line + 1;
            character = 0;
        } else {
            character = character + 1;
        }
        i = i + 1;
    }
    Position { line, character }
}

} // verus!
