//! Tagging segment text for the checker.
//!
//! Plain segments are sent as one checkable annotation. Markdown segments are
//! parsed into an event stream; literal text outside code blocks is
//! checkable, formatting syntax passes through verbatim, and some constructs
//! are replaced by plain-text stand-ins (a heading marker, a line break)
//! before the checker sees them.

use core::str::from_utf8;
use pulldown_cmark::Event::{Code, End, HardBreak, InlineHtml, SoftBreak, Start, Text};
use pulldown_cmark::Tag::{CodeBlock, Heading};
use pulldown_cmark::TagEnd::{
    BlockQuote, HtmlBlock, Image, Item, List, Paragraph, TableCell, TableHead, TableRow,
};
use pulldown_cmark::{Parser, TagEnd};
use vstd::prelude::*;
use vstd::math::max;
use vstd::slice::{slice_subrange, slice_to_vec};
use vstd::string::StringSliceAdditionalSpecFns;

use crate::rules::NodeType;
use crate::segment::Segment;

verus! {

/// The classes of markup events the tagger distinguishes.
#[derive(Clone, Copy, Debug, PartialEq, Eq, Structural)]
pub enum MdEventKind {
    /// Literal text.
    Text,
    /// A soft line break.
    SoftBreak,
    /// A hard line break.
    HardBreak,
    /// An inline code span.
    InlineCode,
    /// Inline raw HTML.
    InlineHtml,
    /// A heading opens.
    HeadingStart,
    /// A fenced or indented code block opens.
    CodeBlockStart,
    /// Any other construct opens.
    OtherStart,
    /// A code block closes.
    CodeBlockEnd,
    /// A paragraph, heading, list, item, quote, HTML block, table part or
    /// image closes.
    BlockEnd,
    /// Anything else, including ends of other constructs.
    Other,
}

/// One markup event: its class and the byte range of its source.
#[derive(Clone, Copy, Debug, PartialEq, Eq, Structural)]
pub struct MdEvent {
    pub kind: MdEventKind,
    pub start: usize,
    pub end: usize,
}

/// One tagged span of a checker request.
#[derive(Clone, Debug, PartialEq, Eq)]
pub enum Annotation {
    /// Prose the checker shall check.
    Checkable { text: Vec<u8> },
    /// Formatting syntax, passed through unchecked.
    Markup { markup: Vec<u8> },
    /// Formatting syntax the checker shall read as `replacement` instead.
    Interpreted { markup: Vec<u8>, replacement: Vec<u8> },
}

/// The mathematical value of an annotation.
pub enum AnnotationView {
    Checkable(Seq<u8>),
    Markup(Seq<u8>),
    Interpreted(Seq<u8>, Seq<u8>),
}

impl View for Annotation {
    type V = AnnotationView;

    open spec fn view(&self) -> AnnotationView {
        match self {
            Annotation::Checkable { text } => AnnotationView::Checkable(text@),
            Annotation::Markup { markup } => AnnotationView::Markup(markup@),
            Annotation::Interpreted { markup, replacement } => AnnotationView::Interpreted(
                markup@,
                replacement@,
            ),
        }
    }
}

impl DeepView for Annotation {
    type V = AnnotationView;

    open spec fn deep_view(&self) -> AnnotationView {
        self.view()
    }
}

/// Does `s` start with `p`?
pub open spec fn starts_with(s: Seq<u8>, p: Seq<u8>) -> bool {
    p.len() <= s.len() && s.take(p.len() as int) == p
}

/// `x` clamped into `0..=len`.
pub open spec fn clamp(x: int, len: int) -> int {
    if x > len {
        len
    } else if x < 0 {
        0
    } else {
        x
    }
}

/// Does an event of kind `k` open a construct? For those, the tagged source
/// range ends where the next event starts.
pub open spec fn is_start_kind(k: MdEventKind) -> bool {
    ||| k == MdEventKind::HeadingStart
    ||| k == MdEventKind::CodeBlockStart
    ||| k == MdEventKind::OtherStart
}

/// The raw end of event `j`'s own source: for a start event, the start of the
/// following event (its range would swallow the construct's content).
pub open spec fn raw_end(evs: Seq<MdEvent>, j: int) -> int {
    if is_start_kind(evs[j].kind) && j + 1 < evs.len() {
        evs[j + 1].start as int
    } else {
        evs[j].end as int
    }
}

/// Where event `j`'s tagged content starts: at its own (clamped) start, but
/// never before `last`, the end of what is already tagged.
pub open spec fn content_start(text: Seq<u8>, evs: Seq<MdEvent>, j: int, last: int) -> int {
    max(clamp(evs[j].start as int, text.len() as int), last)
}

/// Where event `j`'s tagged content ends; never before its start.
pub open spec fn content_end(text: Seq<u8>, evs: Seq<MdEvent>, j: int, last: int) -> int {
    max(clamp(raw_end(evs, j), text.len() as int), content_start(text, evs, j, last))
}

/// The source bytes tagged for event `j`.
pub open spec fn content_of(text: Seq<u8>, evs: Seq<MdEvent>, j: int, last: int) -> Seq<u8> {
    text.subrange(content_start(text, evs, j, last), content_end(text, evs, j, last))
}

/// The code-block nesting depth after event `j` is processed: code block
/// openings and `<code` HTML raise it, closings lower it (never below zero).
pub open spec fn depth_after(
    text: Seq<u8>,
    evs: Seq<MdEvent>,
    j: int,
    last: int,
    depth: int,
) -> int {
    let k = evs[j].kind;
    if k == MdEventKind::CodeBlockStart {
        depth + 1
    } else if k == MdEventKind::CodeBlockEnd {
        max(depth - 1, 0)
    } else if k == MdEventKind::InlineHtml {
        let c = content_of(text, evs, j, last);
        if starts_with(c, "<code".spec_bytes()) {
            depth + 1
        } else if starts_with(c, "</code".spec_bytes()) {
            max(depth - 1, 0)
        } else {
            depth
        }
    } else {
        depth
    }
}

/// The tagger's state before event `j`: the end of what is already tagged,
/// and the code-block nesting depth.
pub open spec fn md_state(text: Seq<u8>, evs: Seq<MdEvent>, j: int) -> (int, int)
    decreases j,
{
    if j <= 0 {
        (0, 0)
    } else {
        let (last, depth) = md_state(text, evs, j - 1);
        (content_end(text, evs, j - 1, last), depth_after(text, evs, j - 1, last, depth))
    }
}

/// The annotation event `j` is tagged as: literal text is checkable exactly
/// outside every code block; breaks, code and headings are interpreted as
/// plain-text stand-ins; everything else passes through as markup.
pub open spec fn main_annotation(text: Seq<u8>, evs: Seq<MdEvent>, j: int) -> AnnotationView {
    let (last, depth) = md_state(text, evs, j);
    let c = content_of(text, evs, j, last);
    match evs[j].kind {
        MdEventKind::Text => if depth == 0 {
            AnnotationView::Checkable(c)
        } else {
            AnnotationView::Markup(c)
        },
        MdEventKind::SoftBreak => AnnotationView::Interpreted(c, " ".spec_bytes()),
        MdEventKind::HardBreak => AnnotationView::Interpreted(c, "\n\n".spec_bytes()),
        MdEventKind::InlineCode => AnnotationView::Interpreted(c, "0".spec_bytes()),
        MdEventKind::InlineHtml => AnnotationView::Interpreted(c, "0".spec_bytes()),
        MdEventKind::HeadingStart => AnnotationView::Interpreted(c, "Heading: ".spec_bytes()),
        MdEventKind::CodeBlockStart => AnnotationView::Interpreted(c, "\n\n".spec_bytes()),
        MdEventKind::CodeBlockEnd => AnnotationView::Interpreted(c, "\n\n".spec_bytes()),
        MdEventKind::BlockEnd => AnnotationView::Interpreted(c, "\n".spec_bytes()),
        MdEventKind::OtherStart => AnnotationView::Markup(c),
        MdEventKind::Other => AnnotationView::Markup(c),
    }
}

/// What event `j` contributes: the verbatim gap since the previous event, if
/// any, then its own annotation.
pub open spec fn event_pieces(text: Seq<u8>, evs: Seq<MdEvent>, j: int) -> Seq<AnnotationView> {
    let (last, depth) = md_state(text, evs, j);
    let gap_end = clamp(evs[j].start as int, text.len() as int);
    if gap_end > last {
        seq![AnnotationView::Markup(text.subrange(last, gap_end)), main_annotation(text, evs, j)]
    } else {
        seq![main_annotation(text, evs, j)]
    }
}

/// The annotations of a markdown segment with source `text` and events `evs`.
pub open spec fn markdown_annotations(text: Seq<u8>, evs: Seq<MdEvent>) -> Seq<AnnotationView> {
    Seq::new(evs.len(), |j: int| event_pieces(text, evs, j)).flatten()
}

/// The annotations of a plain segment: its whole text, checkable.
pub open spec fn plain_annotations(text: Seq<u8>) -> Seq<AnnotationView> {
    seq![AnnotationView::Checkable(text)]
}

pub proof fn lemma_md_state_bounds(text: Seq<u8>, evs: Seq<MdEvent>, j: int)
    requires
        0 <= j,
    ensures
        0 <= md_state(text, evs, j).0 <= text.len(),
        0 <= md_state(text, evs, j).1 <= j,
    decreases j,
{
    if j > 0 {
        lemma_md_state_bounds(text, evs, j - 1);
    }
}

/// Does `v` start with `prefix`?
fn bytes_start_with(v: &Vec<u8>, prefix: &[u8]) -> (r: bool)
    ensures
        r == starts_with(v@, prefix@),
{
    if prefix.len() > v.len() {
        proof {
            assert(!starts_with(v@, prefix@));
        }
        return false;
    }
    let mut i: usize = 0;
    while i < prefix.len()
        invariant
            0 <= i <= prefix@.len() <= v@.len(),
            forall|k: int| 0 <= k < i ==> v@[k] == prefix@[k],
        decreases prefix@.len() - i,
    {
        if v[i] != prefix[i] {
            proof {
                assert(v@.take(prefix@.len() as int)[i as int] != prefix@[i as int]);
            }
            return false;
        }
        i = i + 1;
    }
    proof {
        assert(v@.take(prefix@.len() as int) =~= prefix@);
    }
    true
}

/// A copy of `text[a..b]`.
pub(crate) fn copy_range(text: &Vec<u8>, a: usize, b: usize) -> (r: Vec<u8>)
    requires
        a <= b <= text@.len(),
    ensures
        r@ == text@.subrange(a as int, b as int),
{
    slice_to_vec(slice_subrange(text.as_slice(), a, b))
}

/// Tags markdown source `text`, whose parse produced `events`, for the
/// checker: the exact annotation sequence is `markdown_annotations`.
pub fn annotate_markdown(text: &Vec<u8>, events: &Vec<MdEvent>) -> (r: Vec<Annotation>)
    ensures
        r.deep_view() == markdown_annotations(text@, events@),
{
    let len = text.len();
    let mut out: Vec<Annotation> = Vec::new();
    let mut last: usize = 0;
    let mut depth: usize = 0;
    let mut j: usize = 0;
    proof {
        assert(out.deep_view() =~= Seq::new(0, |k: int| event_pieces(text@, events@, k)).flatten());
    }
    while j < events.len()
        invariant
            j <= events@.len(),
            len == text@.len(),
            (last as int, depth as int) == md_state(text@, events@, j as int),
            last <= len,
            depth <= j,
            out.deep_view() == Seq::new(j as nat, |k: int| event_pieces(text@, events@, k)).flatten(),
        decreases events@.len() - j,
    {
        broadcast use vstd::seq_lib::group_seq_lib_default;

        let ghost pieces_before = Seq::new(j as nat, |k: int| event_pieces(text@, events@, k));
        let e = events[j];
        let e_start = if e.start > len {
            len
        } else {
            e.start
        };
        let raw_e = if (matches!(e.kind, MdEventKind::HeadingStart)
            || matches!(e.kind, MdEventKind::CodeBlockStart)
            || matches!(e.kind, MdEventKind::OtherStart)) && j + 1 < events.len() {
            events[j + 1].start
        } else {
            e.end
        };
        let cstart = if e_start > last {
            e_start
        } else {
            last
        };
        let raw_clamped = if raw_e > len {
            len
        } else {
            raw_e
        };
        let cend = if raw_clamped > cstart {
            raw_clamped
        } else {
            cstart
        };
        proof {
            assert(cstart as int == content_start(text@, events@, j as int, last as int));
            assert(cend as int == content_end(text@, events@, j as int, last as int));
        }
        if e_start > last {
            out.push(Annotation::Markup { markup: copy_range(text, last, e_start) });
        }
        let content = copy_range(text, cstart, cend);
        proof {
            assert(content@ == content_of(text@, events@, j as int, last as int));
        }
        let annotation: Annotation = match e.kind {
            MdEventKind::Text => {
                if depth == 0 {
                    Annotation::Checkable { text: content }
                } else {
                    Annotation::Markup { markup: content }
                }
            },
            MdEventKind::SoftBreak => Annotation::Interpreted {
                markup: content,
                replacement: " ".as_bytes_vec(),
            },
            MdEventKind::HardBreak => Annotation::Interpreted {
                markup: content,
                replacement: "\n\n".as_bytes_vec(),
            },
            MdEventKind::InlineCode => Annotation::Interpreted {
                markup: content,
                replacement: "0".as_bytes_vec(),
            },
            MdEventKind::InlineHtml => {
                if bytes_start_with(&content, "<code".as_bytes()) {
                    depth = depth + 1;
                } else if bytes_start_with(&content, "</code".as_bytes()) {
                    if depth > 0 {
                        depth = depth - 1;
                    }
                }
                Annotation::Interpreted { markup: content, replacement: "0".as_bytes_vec() }
            },
            MdEventKind::HeadingStart => Annotation::Interpreted {
                markup: content,
                replacement: "Heading: ".as_bytes_vec(),
            },
            MdEventKind::CodeBlockStart => {
                depth = depth + 1;
                Annotation::Interpreted { markup: content, replacement: "\n\n".as_bytes_vec() }
            },
            MdEventKind::CodeBlockEnd => {
                if depth > 0 {
                    depth = depth - 1;
                }
                Annotation::Interpreted { markup: content, replacement: "\n\n".as_bytes_vec() }
            },
            MdEventKind::BlockEnd => Annotation::Interpreted {
                markup: content,
                replacement: "\n".as_bytes_vec(),
            },
            MdEventKind::OtherStart => Annotation::Markup { markup: content },
            MdEventKind::Other => Annotation::Markup { markup: content },
        };
        out.push(annotation);
        proof {
            assert(out.deep_view() =~= pieces_before.flatten() + event_pieces(
                text@,
                events@,
                j as int,
            ));
            pieces_before.lemma_flatten_push(event_pieces(text@, events@, j as int));
            assert(Seq::new((j + 1) as nat, |k: int| event_pieces(text@, events@, k))
                =~= pieces_before.push(event_pieces(text@, events@, j as int)));
        }
        last = cend;
        j = j + 1;
    }
    proof {
        assert(Seq::new(j as nat, |k: int| event_pieces(text@, events@, k)) =~= Seq::new(
            events@.len(),
            |k: int| event_pieces(text@, events@, k),
        ));
    }
    out
}

/// What pulldown_cmark's parse of `text` yields: the class and source byte
/// range of each event, in stream order. The parse is a function of the text
/// alone, so its result carries a name; nothing is claimed about its value.
pub uninterp spec fn md_events_of(text: Seq<u8>) -> Seq<MdEvent>;

/// Relies on pulldown_cmark::Parser with into_offset_iter: parses the text
/// as CommonMark and hands out each event's class and source byte range, in
/// stream order. Text that is not valid UTF-8 is parsed as empty. The
/// variant grouping mirrors the tagger's classes; in particular, ends of
/// paragraphs, headings, lists, items, quotes, HTML blocks, table parts and
/// images count as block ends.
#[verifier::external_body]
fn parse_markdown(text: &Vec<u8>) -> (r: Vec<MdEvent>)
    ensures
        r@ == md_events_of(text@),
{
    Parser::new(from_utf8(text).unwrap_or("")).into_offset_iter().map(
        |(e, r)| MdEvent { start: r.start, end: r.end, kind: match e {
            Text(_) => MdEventKind::Text, SoftBreak => MdEventKind::SoftBreak,
            HardBreak => MdEventKind::HardBreak, Code(_) => MdEventKind::InlineCode,
            InlineHtml(_) => MdEventKind::InlineHtml, Start(Heading { .. }) => MdEventKind::HeadingStart,
            Start(CodeBlock(_)) => MdEventKind::CodeBlockStart, Start(_) => MdEventKind::OtherStart,
            End(TagEnd::CodeBlock) => MdEventKind::CodeBlockEnd, End(Paragraph | TagEnd::Heading(_) | List(_) | BlockQuote(_) | HtmlBlock | Item | TableHead | TableRow | TableCell | Image) => MdEventKind::BlockEnd,
            _ => MdEventKind::Other,
        } },
    ).collect()
}

/// What tagging a segment yields: its whole text as one checkable
/// annotation when plain, and `markdown_annotations` over the markdown
/// parse of the text otherwise.
pub open spec fn tag_markup_spec(text: Seq<u8>, node_type: NodeType) -> Seq<AnnotationView> {
    match node_type {
        NodeType::Text => plain_annotations(text),
        NodeType::Markdown => markdown_annotations(text, md_events_of(text)),
    }
}

impl Segment {
    /// Tags this segment's text for the checker: exactly `tag_markup_spec`
    /// of its text and classification.
    pub fn tag_markup(&self) -> (r: Vec<Annotation>)
        ensures
            r.deep_view() == tag_markup_spec(self.text@, self.node_type),
    {
        match self.node_type {
            NodeType::Text => {
                let mut out: Vec<Annotation> = Vec::new();
                out.push(Annotation::Checkable { text: slice_to_vec(self.text.as_slice()) });
                proof {
                    assert(out.deep_view() =~= plain_annotations(self.text@));
                }
                out
            },
            NodeType::Markdown => {
                let events = parse_markdown(&self.text);
                annotate_markdown(&self.text, &events)
            },
        }
    }
}

/// Tagging is a pure function of the segment's text and classification: any
/// two taggings of equal text and type yield the same annotation sequence,
/// so tagging a segment twice changes nothing.
pub proof fn lemma_tagging_idempotent(
    text: Seq<u8>,
    node_type: NodeType,
    r1: Seq<AnnotationView>,
    r2: Seq<AnnotationView>,
)
    requires
        r1 == tag_markup_spec(text, node_type),
        r2 == tag_markup_spec(text, node_type),
    ensures
        r1 == r2,
{
}

proof fn lemma_flatten_split<A>(s: Seq<Seq<A>>, j: int)
    requires
        0 <= j < s.len(),
    ensures
        s.flatten() == s.take(j).flatten() + s[j] + s.skip(j + 1).flatten(),
{
    assert(s =~= s.take(j) + seq![s[j]] + s.skip(j + 1));
    vstd::seq_lib::lemma_flatten_concat(s.take(j) + seq![s[j]], s.skip(j + 1));
    vstd::seq_lib::lemma_flatten_concat(s.take(j), seq![s[j]]);
    seq![s[j]].lemma_flatten_one_element();
}

/// Code-block nesting: the annotation tagged for a literal-text event is
/// checkable exactly when the event lies outside every code block, and the
/// event's pieces stand in the annotation sequence between those of its
/// neighbours.
pub proof fn lemma_code_block_nesting(text: Seq<u8>, evs: Seq<MdEvent>, j: int)
    requires
        0 <= j < evs.len(),
        evs[j].kind == MdEventKind::Text,
    ensures
        markdown_annotations(text, evs) == Seq::new(j as nat, |k: int| event_pieces(text, evs, k)).flatten()
            + event_pieces(text, evs, j) + Seq::new(
            (evs.len() - j - 1) as nat,
            |k: int| event_pieces(text, evs, j + 1 + k),
        ).flatten(),
        event_pieces(text, evs, j).last() == main_annotation(text, evs, j),
        md_state(text, evs, j).1 > 0 ==> main_annotation(text, evs, j) is Markup,
        md_state(text, evs, j).1 == 0 ==> main_annotation(text, evs, j) == AnnotationView::Checkable(
            content_of(text, evs, j, md_state(text, evs, j).0),
        ),
{
    let s = Seq::new(evs.len(), |k: int| event_pieces(text, evs, k));
    lemma_flatten_split(s, j);
    assert(s.take(j) =~= Seq::new(j as nat, |k: int| event_pieces(text, evs, k)));
    assert(s.skip(j + 1) =~= Seq::new((evs.len() - j - 1) as nat, |k: int| event_pieces(text, evs, j + 1 + k)));
}

} // verus!
