use doc_spelling_ls::actions::{code_actions, CodeFix};
use doc_spelling_ls::config::{default_executable, resolve_state_path};
use doc_spelling_ls::diagnostic::{Diagnostic, Meta};
use doc_spelling_ls::embedded::{archive_root, language_tool_binary, server_jar_path};
use doc_spelling_ls::extract::{grammar_symbol_name, segment_from_captures};
use doc_spelling_ls::lsp::{split, Error, ErrorCode};
use doc_spelling_ls::position::Position;
use doc_spelling_ls::rules::NodeType;

#[test]
fn segment_from_captures_concatenates_and_records_breakpoints() {
    let doc = b"....abc....defgh..".to_vec();
    // Capture 0 is named "_skip" and thus ignored; capture 1 contributes.
    let names = vec![b"_skip".to_vec(), b"text".to_vec()];
    let captures = vec![(0, 0, 2), (1, 4, 7), (1, 11, 16)];
    let segment = segment_from_captures(&doc, &names, &captures, NodeType::Text);
    assert_eq!(segment.text, b"abc\ndefgh\n".to_vec());
    assert_eq!(segment.ranges, vec![(0, 4), (4, 11)]);
    assert_eq!(segment.node_type, NodeType::Text);
}

#[test]
fn segment_from_captures_clamps_out_of_range_nodes() {
    let doc = b"abc".to_vec();
    let names = vec![b"t".to_vec()];
    let captures = vec![(0, 1, 99)];
    let segment = segment_from_captures(&doc, &names, &captures, NodeType::Markdown);
    assert_eq!(segment.text, b"bc\n".to_vec());
    assert_eq!(segment.ranges, vec![(0, 1)]);
}

#[test]
fn segment_without_captures_keeps_trivial_mapping() {
    let doc = b"abc".to_vec();
    let names = vec![b"_all".to_vec()];
    let captures = vec![(0, 0, 3)];
    let segment = segment_from_captures(&doc, &names, &captures, NodeType::Text);
    assert_eq!(segment.text, Vec::<u8>::new());
    assert_eq!(segment.ranges, vec![(0, 0)]);
}

#[test]
fn grammar_symbol_name_follows_file_name() {
    let (name, symbol) = grammar_symbol_name(&b"rust.so".to_vec()).unwrap();
    assert_eq!(name, b"rust".to_vec());
    assert_eq!(symbol, b"tree_sitter_rust".to_vec());
    let (name, symbol) = grammar_symbol_name(&b"c-sharp.so".to_vec()).unwrap();
    assert_eq!(name, b"c-sharp".to_vec());
    assert_eq!(symbol, b"tree_sitter_c_sharp".to_vec());
    assert_eq!(grammar_symbol_name(&b"nodot".to_vec()), None);
}

#[test]
fn archive_paths_are_derived_from_the_first_entry() {
    assert_eq!(
        archive_root(&b"LanguageTool-stable/readme.txt".to_vec()),
        b"LanguageTool-stable".to_vec()
    );
    assert_eq!(archive_root(&b"flat".to_vec()), b"flat".to_vec());
    assert_eq!(
        server_jar_path(&"/data".to_owned(), &b"LanguageTool-stable".to_vec()),
        b"/data/LanguageTool-stable/languagetool-server.jar".to_vec()
    );
}

#[test]
fn bundled_archive_is_empty_in_this_build() {
    assert_eq!(language_tool_binary(), Vec::<u8>::new());
}

#[test]
fn state_path_resolution() {
    assert_eq!(
        resolve_state_path(Some("/etc/sp/state.json".to_owned()), false, "/cfg".to_owned()),
        "/etc/sp/state.json"
    );
    assert_eq!(
        resolve_state_path(Some("/etc/sp".to_owned()), true, "/cfg".to_owned()),
        "/etc/sp/state.json"
    );
    assert_eq!(
        resolve_state_path(None, false, "/cfg".to_owned()),
        "/cfg/state.json"
    );
}

#[test]
fn default_executable_is_languagetool() {
    assert_eq!(default_executable(), "languagetool");
}

#[test]
fn error_codes_carry_protocol_values() {
    assert_eq!(ErrorCode::ParseError.code(), -32700);
    assert_eq!(ErrorCode::InvalidRequest.code(), -32600);
    assert_eq!(ErrorCode::MethodNotFound.code(), -32601);
    assert_eq!(ErrorCode::InvalidParams.code(), -32602);
    assert_eq!(ErrorCode::InternalError.code(), -32603);
    assert_eq!(ErrorCode::RequestCancelled.code(), -32800);
    let e = Error::method_not_found("unknown method".to_owned());
    assert_eq!(e.code, ErrorCode::MethodNotFound);
    assert_eq!(e.message, "unknown method");
    assert!(e.data.is_none());
}

#[test]
fn split_separates_ok_and_err() {
    assert_eq!(split(Ok::<u32, String>(7)), (Some(7), None));
    assert_eq!(
        split(Err::<u32, String>("bad".to_owned())),
        (None, Some("bad".to_owned()))
    );
}

#[test]
fn code_actions_cover_replacements_and_commands() {
    let uri = "file:///d.rs".to_owned();
    let diagnostic = Diagnostic {
        start: Position { line: 0, character: 3 },
        end: Position { line: 0, character: 12 },
        message: "m".to_owned(),
        meta: Meta {
            missspelled: Some(b"misspeled".to_vec()),
            replacements: vec!["misspelled".to_owned(), "dispelled".to_owned()],
            rule: None,
        },
    };
    let fixes = code_actions(&uri, &vec![diagnostic]);
    assert_eq!(fixes.len(), 3);
    match &fixes[0] {
        CodeFix::Replace { uri: u, start, end, value } => {
            assert_eq!(u, "file:///d.rs");
            assert_eq!((start.line, start.character), (0, 3));
            assert_eq!((end.line, end.character), (0, 12));
            assert_eq!(value, "misspelled");
        }
        other => panic!("expected a replacement, got {other:?}"),
    }
    assert!(matches!(&fixes[1], CodeFix::Replace { value, .. } if value == "dispelled"));
    assert!(
        matches!(&fixes[2], CodeFix::AddToDictionary { word } if word == &b"misspeled".to_vec())
    );
}

#[test]
fn code_actions_offer_disable_rule_for_grammar_matches() {
    let uri = "file:///d.rs".to_owned();
    let diagnostic = Diagnostic {
        start: Position { line: 1, character: 0 },
        end: Position { line: 1, character: 4 },
        message: "m".to_owned(),
        meta: Meta {
            missspelled: None,
            replacements: Vec::new(),
            rule: Some("STYLE_X".to_owned()),
        },
    };
    let fixes = code_actions(&uri, &vec![diagnostic]);
    assert_eq!(fixes.len(), 1);
    assert!(matches!(&fixes[0], CodeFix::DisableRule { rule } if rule == "STYLE_X"));
}
