//! Documents, loaded grammars, and segment extraction.
//!
//! A document owns its text and a syntax tree parsed with its language's
//! grammar. Extraction runs each configured rule's query over the tree; every
//! query match becomes one segment: the matched captures' text, concatenated
//! with line breaks, with a breakpoint recorded at each capture boundary.
//! A language without configured rules yields the whole document as a single
//! plain segment.

use vstd::prelude::*;
use vstd::math::max;
use vstd::slice::slice_to_vec;
use vstd::string::StringSliceAdditionalSpecFns;

use crate::markup::{clamp, copy_range};
use crate::position::Position;
use crate::rules::{language_index, Config, NodeType};
use crate::segment::{breakpoint_of, is_boundary, original_offset_spec, Segment};

verus! {

#[verifier::external_type_specification]
#[verifier::external_body]
pub struct ExGrammar(tree_sitter::Language);

#[verifier::external_type_specification]
#[verifier::external_body]
pub struct ExTree(tree_sitter::Tree);

#[verifier::external_type_specification]
#[verifier::external_body]
pub struct ExQuery(tree_sitter::Query);

/// Relies on tree_sitter::Language::clone: a handle to the same grammar.
#[verifier::external_body]
fn clone_grammar(grammar: &tree_sitter::Language) -> tree_sitter::Language {
    grammar.clone()
}

/// Relies on tree_sitter::Parser: parses `text` with `grammar` into a syntax
/// tree; None when the grammar's version is incompatible or parsing fails.
#[verifier::external_body]
fn parse_tree(grammar: &tree_sitter::Language, text: &Vec<u8>) -> Option<tree_sitter::Tree> {
    let mut parser = tree_sitter::Parser::new();
    parser.set_language(grammar).ok()?;
    parser.parse(text, None)
}

/// Relies on tree_sitter::Query::new: compiles a query pattern for the
/// grammar; None when the pattern is rejected.
#[verifier::external_body]
fn compile_query(grammar: &tree_sitter::Language, pattern: &String) -> Option<tree_sitter::Query> {
    tree_sitter::Query::new(grammar, pattern.as_str()).ok()
}

/// Relies on tree_sitter::Query::capture_names: the name of each capture of
/// the query, as bytes, in capture-index order.
#[verifier::external_body]
fn query_capture_names(query: &tree_sitter::Query) -> Vec<Vec<u8>> {
    query.capture_names().iter().map(|n| n.as_bytes().to_vec()).collect()
}

/// Relies on tree_sitter::QueryCursor::matches: runs the query over the
/// tree; for every match, every capture's index and the byte range of its
/// node, in match order.
#[verifier::external_body]
fn run_query(query: &tree_sitter::Query, tree: &tree_sitter::Tree, text: &Vec<u8>) -> Vec<
    Vec<(usize, usize, usize)>,
> {
    let mut cursor = tree_sitter::QueryCursor::new();
    cursor.matches(query, tree.root_node(), text.as_slice()).map(
        |m|
            m.captures.iter().map(
                |c| (c.index as usize, c.node.start_byte(), c.node.end_byte()),
            ).collect(),
    ).collect()
}

/// A loaded grammar and the name of its language.
pub struct LoadedLanguage {
    pub name: String,
    pub grammar: Option<tree_sitter::Language>,
}

impl LoadedLanguage {
    /// A language backed by a compiled grammar.
    pub fn new(name: String, grammar: tree_sitter::Language) -> (l: LoadedLanguage)
        ensures
            l.name == name,
    {
        LoadedLanguage { name, grammar: Some(grammar) }
    }

    /// A language without a grammar: its documents cannot be queried, only
    /// checked whole.
    pub fn plain(name: String) -> (l: LoadedLanguage)
        ensures
            l.name == name,
    {
        LoadedLanguage { name, grammar: None }
    }
}

impl Clone for LoadedLanguage {
    fn clone(&self) -> (l: Self)
        ensures
            l.name == self.name,
    {
        let grammar = match &self.grammar {
            Some(g) => Some(clone_grammar(g)),
            None => None,
        };
        LoadedLanguage { name: self.name.clone(), grammar }
    }
}

/// An open document: its text, its language, and the syntax tree of the text
/// (absent when the language has no usable grammar).
pub struct Document {
    pub text: Vec<u8>,
    pub language: LoadedLanguage,
    pub tree: Option<tree_sitter::Tree>,
}

impl Document {
    /// Builds a document by parsing `text` with the language's grammar. A
    /// document is replaced, not mutated: every text change builds a new one.
    pub fn new(text: Vec<u8>, language: LoadedLanguage) -> (d: Document)
        ensures
            d.text == text,
            d.language.name == language.name,
    {
        let tree = match &language.grammar {
            Some(g) => parse_tree(g, &text),
            None => None,
        };
        Document { text, language, tree }
    }
}

/// Is capture index `idx` ignored: named with a leading underscore?
pub open spec fn is_ignored(names: Seq<Seq<u8>>, idx: int) -> bool {
    0 <= idx < names.len() && names[idx].len() > 0 && names[idx][0] == '_' as u8
}

/// One step of building a segment from a match's captures: an ignored
/// capture contributes nothing; any other records a breakpoint at the text's
/// current length and appends its (clamped) node bytes and a line break.
pub open spec fn segment_build(
    doc: Seq<u8>,
    names: Seq<Seq<u8>>,
    captures: Seq<(usize, usize, usize)>,
    i: int,
    text: Seq<u8>,
    ranges: Seq<(usize, usize)>,
) -> (Seq<u8>, Seq<(usize, usize)>)
    decreases captures.len() - i,
{
    if i < 0 || i >= captures.len() {
        (text, ranges)
    } else {
        let (idx, s, e) = captures[i];
        if is_ignored(names, idx as int) {
            segment_build(doc, names, captures, i + 1, text, ranges)
        } else {
            let start = clamp(s as int, doc.len() as int);
            let end = max(clamp(e as int, doc.len() as int), start);
            segment_build(
                doc,
                names,
                captures,
                i + 1,
                text + doc.subrange(start, end) + seq![10u8],
                ranges.push((text.len() as usize, start as usize)),
            )
        }
    }
}

/// The segment of one query match: `segment_build` over its captures; a
/// match with no contributing captures gets the trivial mapping, so that
/// every segment is well-formed.
pub open spec fn match_segment(
    doc: Seq<u8>,
    names: Seq<Seq<u8>>,
    captures: Seq<(usize, usize, usize)>,
) -> (Seq<u8>, Seq<(usize, usize)>) {
    let (text, ranges) = segment_build(doc, names, captures, 0, Seq::empty(), Seq::empty());
    if ranges.len() == 0 {
        (text, seq![(0usize, 0usize)])
    } else {
        (text, ranges)
    }
}

/// Are the captures' node start offsets in document order?
pub open spec fn starts_non_decreasing(captures: Seq<(usize, usize, usize)>) -> bool {
    forall|a: int, b: int|
        0 <= a <= b < captures.len() ==> (#[trigger] captures[a]).1 <= (#[trigger] captures[b]).1
}

/// Are the breakpoints' original offsets non-decreasing?
pub open spec fn origins_non_decreasing(ranges: Seq<(usize, usize)>) -> bool {
    forall|k: int| 0 <= k < ranges.len() - 1 ==> (#[trigger] ranges[k]).1 <= ranges[k + 1].1
}

/// Builds the segment of one query match from its captures. When the
/// captures come in document order, the recorded breakpoints are
/// non-decreasing in the original offsets too.
pub fn segment_from_captures(
    doc: &Vec<u8>,
    names: &Vec<Vec<u8>>,
    captures: &Vec<(usize, usize, usize)>,
    node_type: NodeType,
) -> (s: Segment)
    ensures
        s.wf(),
        s.node_type == node_type,
        (s.text@, s.ranges@) == match_segment(doc@, names.deep_view(), captures@),
        starts_non_decreasing(captures@) ==> origins_non_decreasing(s.ranges@),
{
    let mut text: Vec<u8> = Vec::new();
    let mut ranges: Vec<(usize, usize)> = Vec::new();
    let mut i: usize = 0;
    proof {
        assert(text@ =~= Seq::<u8>::empty());
        assert(ranges@ =~= Seq::<(usize, usize)>::empty());
    }
    while i < captures.len()
        invariant
            i <= captures@.len(),
            segment_build(doc@, names.deep_view(), captures@, i as int, text@, ranges@)
                == segment_build(
                doc@,
                names.deep_view(),
                captures@,
                0,
                Seq::<u8>::empty(),
                Seq::<(usize, usize)>::empty(),
            ),
            ranges@.len() == 0 ==> text@.len() == 0,
            ranges@.len() > 0 ==> ranges@[0].0 == 0,
            starts_non_decreasing(captures@) ==> origins_non_decreasing(ranges@),
            (starts_non_decreasing(captures@) && ranges@.len() > 0) ==> (forall|k: int|
                i <= k < captures@.len() ==> ranges@.last().1 as int <= clamp(
                    (#[trigger] captures@[k]).1 as int,
                    doc@.len() as int,
                )),
            forall|k: int|
                0 <= k < ranges@.len() - 1 ==> (#[trigger] ranges@[k]).0 < ranges@[k + 1].0,
            forall|k: int| 0 <= k < ranges@.len() ==> (#[trigger] ranges@[k]).0 < text@.len(),
        decreases captures@.len() - i,
    {
        let ghost text0 = text@;
        let ghost ranges0 = ranges@;
        let (idx, s, e) = captures[i];
        let ignored = idx < names.len() && names[idx].len() > 0 && names[idx][0] == '_' as u8;
        proof {
            assert(ignored == is_ignored(names.deep_view(), idx as int));
        }
        if !ignored {
            let start = if s > doc.len() {
                doc.len()
            } else {
                s
            };
            let end_clamped = if e > doc.len() {
                doc.len()
            } else {
                e
            };
            let end = if end_clamped > start {
                end_clamped
            } else {
                start
            };
            proof {
                assert(start as int == clamp(captures@[i as int].1 as int, doc@.len() as int));
            }
            ranges.push((text.len(), start));
            let mut piece = copy_range(doc, start, end);
            text.append(&mut piece);
            text.push(10u8);
            proof {
                assert(text@ =~= text0 + doc@.subrange(start as int, end as int) + seq![10u8]);
            }
        }
        proof {
            assert(segment_build(doc@, names.deep_view(), captures@, i as int, text0, ranges0)
                == segment_build(doc@, names.deep_view(), captures@, i + 1, text@, ranges@));
        }
        i = i + 1;
    }
    if ranges.len() == 0 {
        ranges.push((0, 0));
    }
    Segment { text, node_type, ranges }
}

/// Builds the segments of one rule's query matches: exactly one segment per
/// match, in match order, each `match_segment` of its captures.
pub fn segments_of_matches(
    doc: &Vec<u8>,
    names: &Vec<Vec<u8>>,
    matches: &Vec<Vec<(usize, usize, usize)>>,
    node_type: NodeType,
) -> (ss: Vec<Segment>)
    ensures
        ss@.len() == matches@.len(),
        forall|k: int|
            0 <= k < matches@.len() ==> {
                &&& (#[trigger] ss@[k]).wf()
                &&& (ss@[k].text@, ss@[k].ranges@) == match_segment(
                    doc@,
                    names.deep_view(),
                    matches@[k]@,
                )
                &&& ss@[k].node_type == node_type
            },
{
    let mut ss: Vec<Segment> = Vec::new();
    let mut m: usize = 0;
    while m < matches.len()
        invariant
            m <= matches@.len(),
            ss@.len() == m,
            forall|k: int|
                0 <= k < m ==> {
                    &&& (#[trigger] ss@[k]).wf()
                    &&& (ss@[k].text@, ss@[k].ranges@) == match_segment(
                        doc@,
                        names.deep_view(),
                        matches@[k]@,
                    )
                    &&& ss@[k].node_type == node_type
                },
        decreases matches@.len() - m,
    {
        ss.push(segment_from_captures(doc, names, &matches[m], node_type));
        m = m + 1;
    }
    ss
}

impl Document {
    /// Extracts the checkable segments of this document. A language with no
    /// configured extraction rules yields exactly one plain segment holding
    /// the whole document text with the identity mapping. Otherwise every
    /// match of every rule's query yields one segment; a rule whose query
    /// does not compile is skipped, as is everything when the document has no
    /// tree. Every returned segment is well-formed.
    pub fn spell_checkable(&self, config: &Config) -> (segments: Vec<Segment>)
        ensures
            language_index(config.languages@, self.language.name@) == -1 ==> {
                &&& segments@.len() == 1
                &&& segments@[0].text@ == self.text@
                &&& segments@[0].node_type == NodeType::Text
                &&& segments@[0].ranges@ == seq![(0usize, 0usize)]
            },
            forall|k: int| 0 <= k < segments@.len() ==> (#[trigger] segments@[k]).wf(),
    {
        let mut segments: Vec<Segment> = Vec::new();
        match config.rules_for(&self.language.name) {
            None => {
                let mut ranges: Vec<(usize, usize)> = Vec::new();
                ranges.push((0, 0));
                segments.push(
                    Segment {
                        text: slice_to_vec(self.text.as_slice()),
                        node_type: NodeType::Text,
                        ranges,
                    },
                );
                proof {
                    assert(segments@[0].ranges@ =~= seq![(0usize, 0usize)]);
                }
            },
            Some(rules) => {
                let mut n: usize = 0;
                while n < rules.nodes.len()
                    invariant
                        forall|k: int|
                            0 <= k < segments@.len() ==> (#[trigger] segments@[k]).wf(),
                    decreases rules.nodes@.len() - n,
                {
                    let node = &rules.nodes[n];
                    n = n + 1;
                    let tree = match &self.tree {
                        Some(t) => t,
                        None => {
                            continue ;
                        },
                    };
                    let grammar = match &self.language.grammar {
                        Some(g) => g,
                        None => {
                            continue ;
                        },
                    };
                    let query = match compile_query(grammar, &node.query) {
                        Some(q) => q,
                        None => {
                            // The pattern does not compile: skip this rule.
                            continue ;
                        },
                    };
                    let names = query_capture_names(&query);
                    let matches = run_query(&query, tree, &self.text);
                    let ghost before = segments@;
                    let mut built = segments_of_matches(
                        &self.text,
                        &names,
                        &matches,
                        node.node_type,
                    );
                    let ghost built0 = built@;
                    segments.append(&mut built);
                    proof {
                        assert forall|k: int|
                            0 <= k < segments@.len() implies (#[trigger] segments@[k]).wf() by {
                            if k < before.len() {
                                assert(segments@[k] == before[k]);
                            } else {
                                assert(segments@[k] == built0[k - before.len()]);
                            }
                        }
                    }
                }
            },
        }
        segments
    }
}

/// A document without extraction rules becomes one plain segment whose
/// mapping sends offset 0 of the segment to line 0, character 0 of the
/// document (the document being valid UTF-8, its first byte starts a
/// character).
pub proof fn lemma_plain_extraction_origin(seg: Segment, doc: Seq<u8>)
    requires
        seg.ranges@ == seq![(0usize, 0usize)],
        doc.len() == 0 || is_boundary(doc, 0),
    ensures
        crate::position::position_spec(doc, original_offset_spec(seg.ranges@, 0, doc)) == (Position {
            line: 0,
            character: 0,
        }),
{
    assert(breakpoint_of(seg.ranges@, 0) == (0usize, 0usize));
    assert(original_offset_spec(seg.ranges@, 0, doc) == 0);
    assert(doc.take(0) =~= Seq::<u8>::empty());
}

/// The last `.` of `s`, or -1 when it has none.
pub open spec fn last_dot(s: Seq<u8>) -> int
    decreases s.len(),
{
    if s.len() == 0 {
        -1
    } else if s.last() == '.' as u8 {
        s.len() - 1
    } else {
        last_dot(s.drop_last())
    }
}

/// `s` with every `-` replaced by `_`.
pub open spec fn dash_to_underscore(s: Seq<u8>) -> Seq<u8> {
    s.map_values(
        |b: u8|
            if b == '-' as u8 {
                '_' as u8
            } else {
                b
            },
    )
}

pub proof fn lemma_last_dot_bounds(s: Seq<u8>)
    ensures
        -1 <= last_dot(s) < s.len(),
    decreases s.len(),
{
    if s.len() > 0 && s.last() != '.' as u8 {
        lemma_last_dot_bounds(s.drop_last());
    }
}

/// The grammar name and native entry-point symbol encoded in a grammar
/// library's file name: the name is everything before the last `.`, and the
/// symbol is `tree_sitter_` plus the name with `-` turned into `_`. A file
/// name without a `.` names no grammar.
pub fn grammar_symbol_name(file_name: &Vec<u8>) -> (r: Option<(Vec<u8>, Vec<u8>)>)
    ensures
        last_dot(file_name@) == -1 <==> r is None,
        r matches Some(p) ==> {
            &&& p.0@ == file_name@.take(last_dot(file_name@))
            &&& p.1@ == "tree_sitter_".spec_bytes() + dash_to_underscore(
                file_name@.take(last_dot(file_name@)),
            )
        },
{
    proof {
        lemma_last_dot_bounds(file_name@);
    }
    let mut i: usize = file_name.len();
    proof {
        assert(file_name@.take(i as int) =~= file_name@);
    }
    while i > 0 && file_name[i - 1] != '.' as u8
        invariant
            i <= file_name@.len(),
            last_dot(file_name@.take(i as int)) == last_dot(file_name@),
        decreases i,
    {
        proof {
            assert(file_name@.take(i as int).drop_last() =~= file_name@.take(i - 1));
            assert(file_name@.take(i as int).last() == file_name@[i - 1]);
        }
        i = i - 1;
    }
    if i == 0 {
        proof {
            assert(file_name@.take(0) =~= Seq::<u8>::empty());
        }
        return None;
    }
    proof {
        assert(file_name@.take(i as int).last() == file_name@[i - 1]);
        assert(last_dot(file_name@) == i - 1);
    }
    let name = copy_range(file_name, 0, i - 1);
    let mut symbol = "tree_sitter_".as_bytes_vec();
    let ghost prefix = symbol@;
    let mut k: usize = 0;
    while k < name.len()
        invariant
            k <= name@.len(),
            symbol@ =~= prefix + dash_to_underscore(name@.take(k as int)),
        decreases name@.len() - k,
    {
        let b = name[k];
        if b == '-' as u8 {
            symbol.push('_' as u8);
        } else {
            symbol.push(b);
        }
        proof {
            assert(dash_to_underscore(name@.take(k + 1)) =~= dash_to_underscore(
                name@.take(k as int),
            ).push(
                if name@[k as int] == '-' as u8 {
                    '_' as u8
                } else {
                    name@[k as int]
                },
            ));
        }
        k = k + 1;
    }
    proof {
        assert(name@.take(name@.len() as int) =~= name@);
    }
    Some((name, symbol))
}

} // verus!
