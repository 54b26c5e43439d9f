//! Per-session suppression state and its commands.
//!
//! A session owns the set of disabled rule identifiers, the user dictionary,
//! and the active checker language. The three workspace commands mutate it;
//! every mutation invalidates the diagnostics of all open documents (the
//! surrounding application re-runs diagnosis and persists the state).

use vstd::prelude::*;
use vstd::string::{StringSliceAdditionalSpecFns, StrSliceExecFns};

verus! {

/// The mutable, persisted session state.
#[derive(Clone, Debug)]
pub struct State {
    /// Identifiers of rules the user disabled.
    pub disabled_rules: Vec<String>,
    /// Words (UTF-8 bytes) the user accepted; misspelling matches of these
    /// words are suppressed.
    pub dictionary: Vec<Vec<u8>>,
    /// The active checker language tag.
    pub language: String,
}

/// Does `rules` contain an identifier reading `rule`?
pub open spec fn has_rule(rules: Seq<String>, rule: Seq<char>) -> bool {
    exists|i: int| 0 <= i < rules.len() && (#[trigger] rules[i])@ == rule
}

/// Does `dict` contain the word `w`?
pub open spec fn has_word(dict: Seq<Vec<u8>>, w: Seq<u8>) -> bool {
    exists|i: int| 0 <= i < dict.len() && (#[trigger] dict[i])@ == w
}

impl Default for State {
    /// A fresh session: nothing disabled, an empty dictionary, American
    /// English.
    fn default() -> (s: Self)
        ensures
            s.disabled_rules@.len() == 0,
            s.dictionary@.len() == 0,
            s.language@ == "en-US"@,
    {
        State { disabled_rules: Vec::new(), dictionary: Vec::new(), language: "en-US".to_owned() }
    }
}

/// Is the word `w` in the dictionary `dict`? Comparison is exact and
/// case-sensitive.
pub fn dictionary_contains(dict: &Vec<Vec<u8>>, w: &Vec<u8>) -> (r: bool)
    ensures
        r == has_word(dict@, w@),
{
    let mut i: usize = 0;
    while i < dict.len()
        invariant
            i <= dict@.len(),
            forall|k: int| 0 <= k < i ==> (#[trigger] dict@[k])@ != w@,
        decreases dict@.len() - i,
    {
        if dict[i] == *w {
            proof {
                assert(dict@[i as int]@ =~= w@);
            }
            return true;
        }
        proof {
            assert(dict@[i as int]@ != w@);
        }
        i = i + 1;
    }
    false
}

/// Is the rule identifier `rule` among `rules`?
pub fn rules_contain(rules: &Vec<String>, rule: &String) -> (r: bool)
    ensures
        r == has_rule(rules@, rule@),
{
    let mut i: usize = 0;
    while i < rules.len()
        invariant
            i <= rules@.len(),
            forall|k: int| 0 <= k < i ==> (#[trigger] rules@[k])@ != rule@,
        decreases rules@.len() - i,
    {
        if rules[i] == *rule {
            return true;
        }
        i = i + 1;
    }
    false
}

impl State {
    /// Adds `word` to the dictionary unless it is already there; says whether
    /// the state changed.
    pub fn add_to_dictionary(&mut self, word: Vec<u8>) -> (changed: bool)
        ensures
            changed == !has_word(old(self).dictionary@, word@),
            final(self).dictionary@ == if changed {
                old(self).dictionary@.push(word)
            } else {
                old(self).dictionary@
            },
            has_word(final(self).dictionary@, word@),
            final(self).disabled_rules == old(self).disabled_rules,
            final(self).language == old(self).language,
    {
        if dictionary_contains(&self.dictionary, &word) {
            false
        } else {
            self.dictionary.push(word);
            proof {
                assert((final(self).dictionary@[old(self).dictionary@.len() as int])@ == word@);
            }
            true
        }
    }

    /// Disables the rule `rule` unless it already is; says whether the state
    /// changed.
    pub fn disable_rule(&mut self, rule: String) -> (changed: bool)
        ensures
            changed == !has_rule(old(self).disabled_rules@, rule@),
            final(self).disabled_rules@ == if changed {
                old(self).disabled_rules@.push(rule)
            } else {
                old(self).disabled_rules@
            },
            has_rule(final(self).disabled_rules@, rule@),
            final(self).dictionary == old(self).dictionary,
            final(self).language == old(self).language,
    {
        if rules_contain(&self.disabled_rules, &rule) {
            false
        } else {
            let ghost n = self.disabled_rules@.len();
            self.disabled_rules.push(rule);
            proof {
                assert((final(self).disabled_rules@[n as int])@ == rule@);
            }
            true
        }
    }

    /// Makes `language` the active checker language.
    pub fn set_language(&mut self, language: String)
        ensures
            final(self).language == language,
            final(self).disabled_rules == old(self).disabled_rules,
            final(self).dictionary == old(self).dictionary,
    {
        self.language = language;
    }
}

/// The three workspace commands the server advertises.
#[derive(Clone, Copy, Debug, PartialEq, Eq, Structural)]
pub enum WorkspaceCommand {
    AddToDictionary,
    DisableRule,
    SetLanguage,
}

/// The command named `n`, if any.
pub open spec fn command_from_name_spec(n: Seq<char>) -> Option<WorkspaceCommand> {
    if n == "AddToDictionary"@ {
        Some(WorkspaceCommand::AddToDictionary)
    } else if n == "DisableRule"@ {
        Some(WorkspaceCommand::DisableRule)
    } else if n == "SetLanguage"@ {
        Some(WorkspaceCommand::SetLanguage)
    } else {
        None
    }
}

impl WorkspaceCommand {
    /// The names of all workspace commands, as advertised to the editor.
    pub fn options() -> (r: Vec<String>)
        ensures
            r@.len() == 3,
            r@[0]@ == "AddToDictionary"@,
            r@[1]@ == "DisableRule"@,
            r@[2]@ == "SetLanguage"@,
    {
        let mut r: Vec<String> = Vec::new();
        r.push("AddToDictionary".to_owned());
        r.push("DisableRule".to_owned());
        r.push("SetLanguage".to_owned());
        r
    }

    /// The command named `name`, if any.
    pub fn from_name(name: &String) -> (r: Option<WorkspaceCommand>)
        ensures
            r == command_from_name_spec(name@),
    {
        if *name == "AddToDictionary".to_owned() {
            Some(WorkspaceCommand::AddToDictionary)
        } else if *name == "DisableRule".to_owned() {
            Some(WorkspaceCommand::DisableRule)
        } else if *name == "SetLanguage".to_owned() {
            Some(WorkspaceCommand::SetLanguage)
        } else {
            None
        }
    }

    /// The name of this command.
    pub fn name(&self) -> (r: String)
        ensures
            command_from_name_spec(r@) == Some(*self),
    {
        proof {
            broadcast use vstd::string::group_string_axioms;

            reveal_strlit("AddToDictionary");
            reveal_strlit("DisableRule");
            reveal_strlit("SetLanguage");
        }
        proof {
            assert("AddToDictionary"@.len() == 15);
            assert("DisableRule"@.len() == 11);
            assert("SetLanguage"@.len() == 11);
            assert("DisableRule"@[0] == 'D');
            assert("SetLanguage"@[0] == 'S');
        }
        match self {
            WorkspaceCommand::AddToDictionary => "AddToDictionary".to_owned(),
            WorkspaceCommand::DisableRule => "DisableRule".to_owned(),
            WorkspaceCommand::SetLanguage => "SetLanguage".to_owned(),
        }
    }
}

/// Applies a workspace command with its string argument to the session
/// state; says whether the state changed (re-diagnosis is always due).
pub fn apply_command(state: &mut State, command: WorkspaceCommand, argument: String) -> (changed:
    bool)
    ensures
        command == WorkspaceCommand::AddToDictionary ==> {
            &&& changed == !has_word(old(state).dictionary@, vstd::utf8::encode_utf8(argument@))
            &&& has_word(final(state).dictionary@, vstd::utf8::encode_utf8(argument@))
            &&& final(state).disabled_rules == old(state).disabled_rules
            &&& final(state).language == old(state).language
        },
        command == WorkspaceCommand::DisableRule ==> {
            &&& changed == !has_rule(old(state).disabled_rules@, argument@)
            &&& has_rule(final(state).disabled_rules@, argument@)
            &&& final(state).dictionary == old(state).dictionary
            &&& final(state).language == old(state).language
        },
        command == WorkspaceCommand::SetLanguage ==> {
            &&& final(state).language == argument
            &&& final(state).disabled_rules == old(state).disabled_rules
            &&& final(state).dictionary == old(state).dictionary
            &&& changed
        },
{
    match command {
        WorkspaceCommand::AddToDictionary => state.add_to_dictionary(argument.as_str().as_bytes_vec()),
        WorkspaceCommand::DisableRule => state.disable_rule(argument),
        WorkspaceCommand::SetLanguage => {
            state.set_language(argument);
            true
        },
    }
}

/// The set of documents awaiting re-diagnosis: a deduplicating queue of URIs.
#[derive(Debug)]
pub struct DirtySet {
    uris: Vec<String>,
}

impl DirtySet {
    /// The queued URIs.
    pub closed spec fn view(&self) -> Seq<String> {
        self.uris@
    }

    /// An empty dirty set.
    pub fn new() -> (s: Self)
        ensures
            s@.len() == 0,
    {
        DirtySet { uris: Vec::new() }
    }

    /// Marks `uri` dirty; a URI already queued is not queued twice.
    pub fn mark(&mut self, uri: String) -> (changed: bool)
        ensures
            changed == !has_rule(old(self)@, uri@),
            final(self)@ == if changed {
                old(self)@.push(uri)
            } else {
                old(self)@
            },
            has_rule(final(self)@, uri@),
    {
        if rules_contain(&self.uris, &uri) {
            false
        } else {
            let ghost n = self.uris@.len();
            self.uris.push(uri);
            proof {
                assert((self.uris@[n as int])@ == uri@);
            }
            true
        }
    }

    /// Takes all queued URIs, leaving the set empty.
    pub fn drain(&mut self) -> (r: Vec<String>)
        ensures
            r@ == old(self)@,
            final(self)@.len() == 0,
    {
        let mut taken: Vec<String> = Vec::new();
        core::mem::swap(&mut taken, &mut self.uris);
        taken
    }

    /// How many URIs are queued.
    pub fn len(&self) -> (n: usize)
        ensures
            n == self@.len(),
    {
        self.uris.len()
    }
}

} // verus!
