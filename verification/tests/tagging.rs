use doc_spelling_ls::markup::Annotation;
use doc_spelling_ls::rules::NodeType;
use doc_spelling_ls::segment::Segment;

fn plain_segment(text: &str) -> Segment {
    Segment {
        text: text.as_bytes().to_vec(),
        node_type: NodeType::Text,
        ranges: vec![(0, 0)],
    }
}

fn markdown_segment(text: &str) -> Segment {
    Segment {
        text: text.as_bytes().to_vec(),
        node_type: NodeType::Markdown,
        ranges: vec![(0, 0)],
    }
}

fn checkable_texts(annotations: &[Annotation]) -> Vec<String> {
    annotations
        .iter()
        .filter_map(|a| match a {
            Annotation::Checkable { text } => Some(String::from_utf8(text.clone()).unwrap()),
            _ => None,
        })
        .collect()
}

#[test]
fn plain_segment_is_one_checkable_annotation() {
    let segment = plain_segment("hello wrld");
    let annotations = segment.tag_markup();
    assert_eq!(
        annotations,
        vec![Annotation::Checkable {
            text: b"hello wrld".to_vec()
        }]
    );
}

#[test]
fn plain_tagging_twice_is_identical() {
    let segment = plain_segment("some prose to check");
    assert_eq!(segment.tag_markup(), segment.tag_markup());
}

#[test]
fn markdown_tagging_twice_is_identical() {
    let segment = markdown_segment("# Title\n\nbody text\n\n```\ncode\n```\nafter\n");
    assert_eq!(segment.tag_markup(), segment.tag_markup());
}

#[test]
fn fenced_code_is_not_checkable_but_following_prose_is() {
    let segment = markdown_segment("```\nlet x = misteak;\n```\n\nreal prose here\n");
    let annotations = segment.tag_markup();
    let checkable = checkable_texts(&annotations);
    assert!(
        checkable.iter().all(|t| !t.contains("misteak")),
        "code content must not be checkable: {checkable:?}"
    );
    assert!(
        checkable.iter().any(|t| t.contains("real prose here")),
        "prose after the code block must be checkable: {checkable:?}"
    );
}

#[test]
fn heading_marker_becomes_heading_prefix() {
    let segment = markdown_segment("# Title\n");
    let annotations = segment.tag_markup();
    assert!(annotations.iter().any(|a| matches!(
        a,
        Annotation::Interpreted { replacement, .. } if replacement == b"Heading: "
    )));
    let checkable = checkable_texts(&annotations);
    assert!(checkable.iter().any(|t| t.contains("Title")));
}

#[test]
fn inline_code_becomes_placeholder() {
    let segment = markdown_segment("use `rustc` here\n");
    let annotations = segment.tag_markup();
    assert!(annotations.iter().any(|a| matches!(
        a,
        Annotation::Interpreted { markup, replacement } if markup.starts_with(b"`") && replacement == b"0"
    )));
}

#[test]
fn soft_break_becomes_space() {
    let segment = markdown_segment("one\ntwo\n");
    let annotations = segment.tag_markup();
    assert!(annotations.iter().any(|a| matches!(
        a,
        Annotation::Interpreted { replacement, .. } if replacement == b" "
    )));
}

#[test]
fn prose_between_markup_stays_checkable() {
    let segment = markdown_segment("plain **bold** tail\n");
    let annotations = segment.tag_markup();
    let joined = checkable_texts(&annotations).join("");
    assert!(joined.contains("plain "));
    assert!(joined.contains("bold"));
    assert!(joined.contains(" tail"));
}
