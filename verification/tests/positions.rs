use doc_spelling_ls::extract::{Document, LoadedLanguage};
use doc_spelling_ls::position::{position_in, Position};
use doc_spelling_ls::rules::Config;

/// A naive line scan, written independently as an oracle.
fn oracle(text: &[u8], offset: usize) -> (usize, usize) {
    let mut line = 0;
    let mut character = 0;
    for &b in &text[..offset] {
        if b == b'\n' {
            line += 1;
            character = 0;
        } else {
            character += 1;
        }
    }
    (line, character)
}

fn whole_document_segment(text: &str) -> (doc_spelling_ls::segment::Segment, Vec<u8>) {
    let document = Document::new(
        text.as_bytes().to_vec(),
        LoadedLanguage::plain("text".to_owned()),
    );
    let config = Config {
        grammars: Vec::new(),
        languages: Vec::new(),
    };
    let mut segments = document.spell_checkable(&config);
    assert_eq!(segments.len(), 1);
    (segments.remove(0), text.as_bytes().to_vec())
}

#[test]
fn position_in_matches_oracle() {
    let text = "first line\nsecond\n\nfourth line here".as_bytes().to_vec();
    for offset in 0..=text.len() {
        let p = position_in(&text, offset);
        let (line, character) = oracle(&text, offset);
        assert_eq!((p.line, p.character), (line, character));
    }
}

#[test]
fn map_position_round_trip_matches_oracle() {
    let (segment, text) = whole_document_segment("alpha beta\ngamma\ndelta");
    for offset in 0..text.len() {
        let p = segment.map_position(&text, offset);
        let (line, character) = oracle(&text, offset);
        assert_eq!((p.line, p.character), (line, character));
    }
}

#[test]
fn map_position_origin_is_zero() {
    let (segment, text) = whole_document_segment("// misspeled word\nfn x(){}");
    assert_eq!(
        segment.map_position(&text, 0),
        Position { line: 0, character: 0 }
    );
}

#[test]
fn map_position_second_line() {
    let (segment, text) = whole_document_segment("ab\ncd\nef");
    assert_eq!(
        segment.map_position(&text, 3),
        Position { line: 1, character: 0 }
    );
    assert_eq!(
        segment.map_position(&text, 7),
        Position { line: 2, character: 1 }
    );
}

#[test]
fn map_position_advances_to_character_boundary() {
    // "é" is two bytes; an offset inside it moves forward to the next
    // boundary, the following 'x'.
    let (segment, text) = whole_document_segment("é x");
    let p = segment.map_position(&text, 1);
    assert_eq!((p.line, p.character), (0, 2));
}

#[test]
fn map_position_clamps_past_end() {
    let (segment, text) = whole_document_segment("ab\ncd");
    let p = segment.map_position(&text, 100);
    assert_eq!((p.line, p.character), (1, 2));
}

#[test]
fn map_position_uses_breakpoints() {
    // A segment made of two excerpts of the document: "one\n" from offset 10
    // and "two\n" from offset 30.
    let segment = doc_spelling_ls::segment::Segment {
        text: b"one\ntwo\n".to_vec(),
        node_type: doc_spelling_ls::rules::NodeType::Text,
        ranges: vec![(0, 10), (4, 30)],
    };
    let mut document = vec![b'.'; 40];
    document[14] = b'\n';
    let p = segment.map_position(&document, 1);
    assert_eq!((p.line, p.character), (0, 11));
    // Offset 5 lies in the second excerpt: original offset 31.
    let p = segment.map_position(&document, 5);
    assert_eq!((p.line, p.character), (1, 16));
}
