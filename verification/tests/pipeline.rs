use doc_spelling_ls::check::{CheckMatch, MatchKind};
use doc_spelling_ls::diagnostic::diagnose_matches;
use doc_spelling_ls::extract::{Document, LoadedLanguage};
use doc_spelling_ls::rules::Config;
use doc_spelling_ls::segment::Segment;
use doc_spelling_ls::session::State;

fn misspelling(offset: usize, length: usize) -> CheckMatch {
    CheckMatch {
        offset,
        length,
        message: "Possible spelling mistake found.".to_owned(),
        rule_id: "MORFOLOGIK_RULE_EN_US".to_owned(),
        kind: MatchKind::Misspelling,
        replacements: vec!["misspelled".to_owned()],
    }
}

fn whole_document(text: &str) -> (Segment, Vec<u8>) {
    let document = Document::new(
        text.as_bytes().to_vec(),
        LoadedLanguage::plain("rust".to_owned()),
    );
    let config = Config {
        grammars: Vec::new(),
        languages: Vec::new(),
    };
    let mut segments = document.spell_checkable(&config);
    assert_eq!(segments.len(), 1);
    let segment = segments.remove(0);
    assert_eq!(segment.text, text.as_bytes().to_vec());
    (segment, text.as_bytes().to_vec())
}

#[test]
fn misspelling_becomes_diagnostic() {
    let (segment, text) = whole_document("// misspeled word\nfn x(){}");
    let matches = vec![misspelling(3, 9)];
    let state = State::default();
    let diagnostics = diagnose_matches(&segment, &text, &matches, &state);
    assert_eq!(diagnostics.len(), 1);
    let d = &diagnostics[0];
    assert_eq!((d.start.line, d.start.character), (0, 3));
    assert_eq!((d.end.line, d.end.character), (0, 12));
    assert_eq!(d.message, "Possible spelling mistake found.");
    assert_eq!(d.meta.missspelled, Some(b"misspeled".to_vec()));
    assert_eq!(d.meta.rule, None);
    assert_eq!(d.meta.replacements, vec!["misspelled".to_owned()]);
}

#[test]
fn dictionary_word_is_suppressed() {
    let (segment, text) = whole_document("// misspeled word\nfn x(){}");
    let matches = vec![misspelling(3, 9)];
    let mut state = State::default();
    state.dictionary.push(b"misspeled".to_vec());
    let diagnostics = diagnose_matches(&segment, &text, &matches, &state);
    assert_eq!(diagnostics.len(), 0);
}

#[test]
fn different_word_with_same_rule_still_emits() {
    let (segment, text) = whole_document("// misspeled word\nfn x(){}");
    // Same rule and offset range as a dictionary entry for another word.
    let matches = vec![misspelling(3, 9)];
    let mut state = State::default();
    state.dictionary.push(b"word".to_vec());
    let diagnostics = diagnose_matches(&segment, &text, &matches, &state);
    assert_eq!(diagnostics.len(), 1);
}

#[test]
fn dictionary_does_not_suppress_grammar_matches() {
    let (segment, text) = whole_document("this are wrong");
    let matches = vec![CheckMatch {
        offset: 0,
        length: 8,
        message: "Agreement error.".to_owned(),
        rule_id: "STYLE_X".to_owned(),
        kind: MatchKind::Grammar,
        replacements: vec!["this is".to_owned()],
    }];
    let mut state = State::default();
    state.dictionary.push(b"this are".to_vec());
    let diagnostics = diagnose_matches(&segment, &text, &matches, &state);
    assert_eq!(diagnostics.len(), 1);
    assert_eq!(diagnostics[0].meta.rule, Some("STYLE_X".to_owned()));
    assert_eq!(diagnostics[0].meta.missspelled, None);
}

#[test]
fn replacements_are_capped_at_ten() {
    let (segment, text) = whole_document("// misspeled word\nfn x(){}");
    let mut m = misspelling(3, 9);
    m.replacements = (0..15).map(|i| format!("cand{i}")).collect();
    let state = State::default();
    let diagnostics = diagnose_matches(&segment, &text, &vec![m], &state);
    assert_eq!(diagnostics[0].meta.replacements.len(), 10);
    assert_eq!(diagnostics[0].meta.replacements[0], "cand0");
    assert_eq!(diagnostics[0].meta.replacements[9], "cand9");
}

#[test]
fn out_of_bounds_match_carries_empty_word() {
    let (segment, text) = whole_document("short");
    let matches = vec![misspelling(3, 900)];
    let state = State::default();
    let diagnostics = diagnose_matches(&segment, &text, &matches, &state);
    assert_eq!(diagnostics.len(), 1);
    assert_eq!(diagnostics[0].meta.missspelled, Some(Vec::new()));
}

#[test]
fn matches_keep_checker_order() {
    let (segment, text) = whole_document("aa bb\ncc dd");
    let matches = vec![misspelling(0, 2), misspelling(6, 2)];
    let state = State::default();
    let diagnostics = diagnose_matches(&segment, &text, &matches, &state);
    assert_eq!(diagnostics.len(), 2);
    assert_eq!(diagnostics[0].meta.missspelled, Some(b"aa".to_vec()));
    assert_eq!(diagnostics[1].meta.missspelled, Some(b"cc".to_vec()));
    assert_eq!((diagnostics[1].start.line, diagnostics[1].start.character), (1, 0));
}

#[test]
fn match_splitting_a_character_carries_empty_word() {
    // "é" is two bytes: a range ending inside it is invalid, so the word is
    // substituted by the empty string, as for out-of-bounds offsets.
    let (segment, text) = whole_document("élan vital");
    let matches = vec![misspelling(0, 1)];
    let state = State::default();
    let diagnostics = diagnose_matches(&segment, &text, &matches, &state);
    assert_eq!(diagnostics.len(), 1);
    assert_eq!(diagnostics[0].meta.missspelled, Some(Vec::new()));
}
