use doc_spelling_ls::check::build_check_request;
use doc_spelling_ls::extract::{Document, LoadedLanguage};
use doc_spelling_ls::session::{apply_command, DirtySet, State, WorkspaceCommand};
use doc_spelling_ls::store::DocumentStore;

#[test]
fn options_lists_the_three_commands() {
    assert_eq!(
        WorkspaceCommand::options(),
        vec![
            "AddToDictionary".to_owned(),
            "DisableRule".to_owned(),
            "SetLanguage".to_owned()
        ]
    );
}

#[test]
fn command_names_round_trip() {
    for command in [
        WorkspaceCommand::AddToDictionary,
        WorkspaceCommand::DisableRule,
        WorkspaceCommand::SetLanguage,
    ] {
        assert_eq!(WorkspaceCommand::from_name(&command.name()), Some(command));
    }
    assert_eq!(WorkspaceCommand::from_name(&"Nope".to_owned()), None);
}

#[test]
fn default_state_is_english_and_empty() {
    let state = State::default();
    assert_eq!(state.language, "en-US");
    assert!(state.disabled_rules.is_empty());
    assert!(state.dictionary.is_empty());
}

#[test]
fn disable_rule_reaches_later_requests() {
    let mut state = State::default();
    let changed = apply_command(
        &mut state,
        WorkspaceCommand::DisableRule,
        "STYLE_X".to_owned(),
    );
    assert!(changed);
    // Any request built afterwards names the rule in its disabled list.
    let request = build_check_request(Vec::new(), &state);
    assert!(request.disabled_rules.contains(&"STYLE_X".to_owned()));
    let request2 = build_check_request(Vec::new(), &state);
    assert!(request2.disabled_rules.contains(&"STYLE_X".to_owned()));
}

#[test]
fn requests_always_disable_builtin_rules() {
    let request = build_check_request(Vec::new(), &State::default());
    assert_eq!(
        request.disabled_rules,
        vec!["WHITESPACE_RULE".to_owned(), "CONSECUTIVE_SPACES".to_owned()]
    );
}

#[test]
fn add_to_dictionary_deduplicates() {
    let mut state = State::default();
    assert!(apply_command(
        &mut state,
        WorkspaceCommand::AddToDictionary,
        "misspeled".to_owned()
    ));
    assert!(!apply_command(
        &mut state,
        WorkspaceCommand::AddToDictionary,
        "misspeled".to_owned()
    ));
    assert_eq!(state.dictionary, vec![b"misspeled".to_vec()]);
}

#[test]
fn set_language_replaces_the_tag() {
    let mut state = State::default();
    assert!(apply_command(
        &mut state,
        WorkspaceCommand::SetLanguage,
        "de-DE".to_owned()
    ));
    assert_eq!(state.language, "de-DE");
}

#[test]
fn dirty_set_deduplicates_and_drains() {
    let mut dirty = DirtySet::new();
    assert!(dirty.mark("file:///a.rs".to_owned()));
    assert!(dirty.mark("file:///b.rs".to_owned()));
    assert!(!dirty.mark("file:///a.rs".to_owned()));
    assert_eq!(dirty.len(), 2);
    let drained = dirty.drain();
    assert_eq!(
        drained,
        vec!["file:///a.rs".to_owned(), "file:///b.rs".to_owned()]
    );
    assert_eq!(dirty.len(), 0);
}

#[test]
fn document_store_replaces_on_open() {
    let mut store = DocumentStore::new();
    let uri = "file:///a.rs".to_owned();
    store.open(
        uri.clone(),
        Document::new(b"one".to_vec(), LoadedLanguage::plain("rust".to_owned())),
    );
    store.open(
        uri.clone(),
        Document::new(b"two".to_vec(), LoadedLanguage::plain("rust".to_owned())),
    );
    assert_eq!(store.get(&uri).unwrap().text, b"two".to_vec());
    assert_eq!(store.uris(), vec![uri.clone()]);
    let taken = store.take(&uri).unwrap();
    assert_eq!(taken.text, b"two".to_vec());
    assert!(store.get(&uri).is_none());
    assert!(store.take(&uri).is_none());
}

#[test]
fn document_store_keeps_other_documents() {
    let mut store = DocumentStore::new();
    store.open(
        "file:///a.rs".to_owned(),
        Document::new(b"a".to_vec(), LoadedLanguage::plain("rust".to_owned())),
    );
    store.open(
        "file:///b.rs".to_owned(),
        Document::new(b"b".to_vec(), LoadedLanguage::plain("rust".to_owned())),
    );
    store.take(&"file:///a.rs".to_owned());
    assert_eq!(store.get(&"file:///b.rs".to_owned()).unwrap().text, b"b".to_vec());
}
