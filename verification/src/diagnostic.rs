//! Turning checker matches into editor diagnostics, and diagnostics into
//! quick-fix actions.
//!
//! Each checker match is filtered against the user dictionary (misspellings
//! of accepted words are suppressed), its offsets are mapped through the
//! segment's breakpoints into original-document positions, and the repair
//! metadata — the misspelled word, the rule identifier, up to ten replacement
//! candidates — rides along for later quick fixes and commands.

use vstd::prelude::*;
use vstd::math::min;

use crate::check::{CheckMatch, MatchKind};
use crate::markup::copy_range;
use crate::position::{position_spec, Position};
use crate::segment::{is_boundary, original_offset_spec, Segment};
use crate::session::{has_word, State};

verus! {

/// The repair metadata of a diagnostic.
#[derive(Clone, Debug)]
pub struct Meta {
    /// The misspelled word (bytes of the matched text), for "add to
    /// dictionary"; absent for grammar matches.
    pub missspelled: Option<Vec<u8>>,
    /// Up to ten replacement candidates, for quick fixes.
    pub replacements: Vec<String>,
    /// The rule identifier, for "disable rule"; absent for misspellings.
    pub rule: Option<String>,
}

/// One published diagnostic, in original-document coordinates.
#[derive(Clone, Debug)]
pub struct Diagnostic {
    pub start: Position,
    pub end: Position,
    pub message: String,
    pub meta: Meta,
}

/// Where a match ends in segment coordinates, saturated at the machine limit.
pub open spec fn match_end(m: CheckMatch) -> int {
    min(m.offset + m.length, usize::MAX as int)
}

/// The matched word: the match's bytes of the segment text, or empty when
/// the checker's offsets fall outside the text or inside a multi-byte
/// character.
pub open spec fn match_word(text: Seq<u8>, m: CheckMatch) -> Seq<u8> {
    if m.offset + m.length <= text.len() && is_boundary(text, m.offset as int) && is_boundary(
        text,
        m.offset + m.length,
    ) {
        text.subrange(m.offset as int, m.offset + m.length)
    } else {
        Seq::empty()
    }
}

/// Is the match suppressed: a misspelling whose word the dictionary accepts?
pub open spec fn suppressed(text: Seq<u8>, m: CheckMatch, dict: Seq<Vec<u8>>) -> bool {
    m.kind == MatchKind::Misspelling && has_word(dict, match_word(text, m))
}

/// Is `d` the diagnostic of match `m`: positions mapped through the segment's
/// breakpoints, the checker's message, and complete repair metadata?
pub open spec fn diagnostic_for(
    d: Diagnostic,
    seg_text: Seq<u8>,
    ranges: Seq<(usize, usize)>,
    doc: Seq<u8>,
    m: CheckMatch,
) -> bool {
    &&& d.start == position_spec(doc, original_offset_spec(ranges, m.offset as int, doc))
    &&& d.end == position_spec(doc, original_offset_spec(ranges, match_end(m), doc))
    &&& d.message == m.message
    &&& d.meta.replacements@ == m.replacements@.take(min(10, m.replacements@.len() as int))
    &&& (m.kind == MatchKind::Misspelling <==> d.meta.missspelled is Some)
    &&& (m.kind == MatchKind::Misspelling ==> (d.meta.missspelled matches Some(w) && w@
        == match_word(seg_text, m)))
    &&& d.meta.rule == if m.kind == MatchKind::Grammar {
        Some(m.rule_id)
    } else {
        None::<String>
    }
}

/// Are `r` exactly the diagnostics of the matches `ms`, in checker order,
/// with the suppressed matches dropped?
pub open spec fn diagnostics_for(
    r: Seq<Diagnostic>,
    seg_text: Seq<u8>,
    ranges: Seq<(usize, usize)>,
    doc: Seq<u8>,
    ms: Seq<CheckMatch>,
    dict: Seq<Vec<u8>>,
) -> bool
    decreases ms.len(),
{
    if ms.len() == 0 {
        r.len() == 0
    } else if suppressed(seg_text, ms[0], dict) {
        diagnostics_for(r, seg_text, ranges, doc, ms.drop_first(), dict)
    } else {
        &&& r.len() > 0
        &&& diagnostic_for(r[0], seg_text, ranges, doc, ms[0])
        &&& diagnostics_for(r.drop_first(), seg_text, ranges, doc, ms.drop_first(), dict)
    }
}

proof fn lemma_diagnostics_for_snoc(
    r: Seq<Diagnostic>,
    seg_text: Seq<u8>,
    ranges: Seq<(usize, usize)>,
    doc: Seq<u8>,
    ms: Seq<CheckMatch>,
    dict: Seq<Vec<u8>>,
    m: CheckMatch,
    d: Diagnostic,
)
    requires
        diagnostics_for(r, seg_text, ranges, doc, ms, dict),
    ensures
        suppressed(seg_text, m, dict) ==> diagnostics_for(r, seg_text, ranges, doc, ms.push(m), dict),
        !suppressed(seg_text, m, dict) && diagnostic_for(d, seg_text, ranges, doc, m)
            ==> diagnostics_for(r.push(d), seg_text, ranges, doc, ms.push(m), dict),
    decreases ms.len(),
{
    reveal_with_fuel(diagnostics_for, 3);
    if ms.len() == 0 {
        assert(ms.push(m)[0] == m);
        assert(ms.push(m).drop_first() =~= ms);
        assert(r.push(d)[0] == d);
        assert(r.push(d).drop_first() =~= r);
    } else {
        assert(ms.push(m)[0] == ms[0]);
        assert(ms.push(m).drop_first() =~= ms.drop_first().push(m));
        if suppressed(seg_text, ms[0], dict) {
            lemma_diagnostics_for_snoc(r, seg_text, ranges, doc, ms.drop_first(), dict, m, d);
        } else {
            assert(r.push(d)[0] == r[0]);
            assert(r.push(d).drop_first() =~= r.drop_first().push(d));
            lemma_diagnostics_for_snoc(
                r.drop_first(),
                seg_text,
                ranges,
                doc,
                ms.drop_first(),
                dict,
                m,
                d,
            );
        }
    }
}

/// Dictionary suppression: a misspelling match whose word the dictionary
/// holds yields no diagnostic; any other match — a different word at the same
/// offset, or a grammar match — yields exactly its diagnostic.
pub proof fn lemma_dictionary_suppression(
    r: Seq<Diagnostic>,
    seg_text: Seq<u8>,
    ranges: Seq<(usize, usize)>,
    doc: Seq<u8>,
    m: CheckMatch,
    dict: Seq<Vec<u8>>,
)
    requires
        diagnostics_for(r, seg_text, ranges, doc, seq![m], dict),
    ensures
        suppressed(seg_text, m, dict) ==> r.len() == 0,
        !suppressed(seg_text, m, dict) ==> r.len() == 1 && diagnostic_for(
            r[0],
            seg_text,
            ranges,
            doc,
            m,
        ),
{
    reveal_with_fuel(diagnostics_for, 3);
    assert(seq![m][0] == m);
    assert(seq![m].drop_first() =~= Seq::<CheckMatch>::empty());
    if !suppressed(seg_text, m, dict) {
        assert(r.drop_first().len() == 0);
    }
}

/// Takes up to ten replacement candidates of a match.
fn first_replacements(replacements: &Vec<String>) -> (r: Vec<String>)
    ensures
        r@ == replacements@.take(min(10, replacements@.len() as int)),
{
    let n = if replacements.len() > 10 {
        10
    } else {
        replacements.len()
    };
    let mut r: Vec<String> = Vec::new();
    let mut i: usize = 0;
    while i < n
        invariant
            i <= n <= replacements@.len(),
            r@.len() == i,
            forall|k: int| 0 <= k < i ==> r@[k] == replacements@[k],
        decreases n - i,
    {
        r.push(replacements[i].clone());
        i = i + 1;
    }
    proof {
        assert(r@ =~= replacements@.take(min(10, replacements@.len() as int)));
    }
    r
}

/// Does `i` sit on a character boundary of `text` (or at/past its end)?
fn boundary_at(text: &Vec<u8>, i: usize) -> (r: bool)
    ensures
        r == is_boundary(text@, i as int),
{
    i >= text.len() || text[i] < 128 || text[i] >= 192
}

/// Filters the checker's matches for one segment against the dictionary and
/// maps them into diagnostics in original-document coordinates, in checker
/// order. A match whose offsets fall outside the segment text, or inside a
/// multi-byte character, carries an empty word and is still mapped.
pub fn diagnose_matches(
    segment: &Segment,
    document_text: &Vec<u8>,
    matches: &Vec<CheckMatch>,
    state: &State,
) -> (r: Vec<Diagnostic>)
    requires
        segment.wf(),
    ensures
        diagnostics_for(
            r@,
            segment.text@,
            segment.ranges@,
            document_text@,
            matches@,
            state.dictionary@,
        ),
{
    let mut out: Vec<Diagnostic> = Vec::new();
    let mut i: usize = 0;
    proof {
        assert(matches@.take(0) =~= Seq::<CheckMatch>::empty());
    }
    while i < matches.len()
        invariant
            i <= matches@.len(),
            segment.wf(),
            diagnostics_for(
                out@,
                segment.text@,
                segment.ranges@,
                document_text@,
                matches@.take(i as int),
                state.dictionary@,
            ),
        decreases matches@.len() - i,
    {
        let ghost out0 = out@;
        let m = &matches[i];
        let in_bounds = m.length <= segment.text.len() && m.offset <= segment.text.len()
            - m.length;
        let word: Vec<u8> = if in_bounds && boundary_at(&segment.text, m.offset) && boundary_at(
            &segment.text,
            m.offset + m.length,
        ) {
            copy_range(&segment.text, m.offset, m.offset + m.length)
        } else {
            Vec::new()
        };
        proof {
            assert(word@ == match_word(segment.text@, matches@[i as int]));
        }
        let is_misspelling = matches!(m.kind, MatchKind::Misspelling);
        if is_misspelling && crate::session::dictionary_contains(&state.dictionary, &word) {
            // The user accepted this word: no diagnostic.
            proof {
                assert(suppressed(segment.text@, matches@[i as int], state.dictionary@));
                let dummy = vstd::pervasive::arbitrary::<Diagnostic>();
                lemma_diagnostics_for_snoc(
                    out0,
                    segment.text@,
                    segment.ranges@,
                    document_text@,
                    matches@.take(i as int),
                    state.dictionary@,
                    matches@[i as int],
                    dummy,
                );
            }
        } else {
            let start = segment.map_position(document_text, m.offset);
            let end_offset = if m.length > usize::MAX - m.offset {
                usize::MAX
            } else {
                m.offset + m.length
            };
            let end = segment.map_position(document_text, end_offset);
            let meta = Meta {
                missspelled: if is_misspelling {
                    Some(word)
                } else {
                    None
                },
                replacements: first_replacements(&m.replacements),
                rule: if is_misspelling {
                    None
                } else {
                    Some(m.rule_id.clone())
                },
            };
            let d = Diagnostic { start, end, message: m.message.clone(), meta };
            proof {
                assert(diagnostic_for(
                    d,
                    segment.text@,
                    segment.ranges@,
                    document_text@,
                    matches@[i as int],
                ));
            }
            out.push(d);
            proof {
                lemma_diagnostics_for_snoc(
                    out0,
                    segment.text@,
                    segment.ranges@,
                    document_text@,
                    matches@.take(i as int),
                    state.dictionary@,
                    matches@[i as int],
                    out@.last(),
                );
                assert(out@ =~= out0.push(out@.last()));
            }
        }
        proof {
            assert(matches@.take(i + 1) =~= matches@.take(i as int).push(matches@[i as int]));
        }
        i = i + 1;
    }
    proof {
        assert(matches@.take(matches@.len() as int) =~= matches@);
    }
    out
}

} // verus!
