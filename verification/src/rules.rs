//! Per-language extraction rules: which syntax-tree queries produce checkable
//! segments, how the captured text is classified, and optional text
//! transforms written in a compact `/regex/replace/flags` form.

use vstd::prelude::*;
use vstd::string::StringSliceAdditionalSpecFns;

verus! {

/// How a segment's text is classified for tagging.
#[derive(Clone, Copy, Debug, PartialEq, Eq, Structural)]
pub enum NodeType {
    Text,
    Markdown,
}

/// A flag of a text transform.
#[derive(Clone, Copy, Debug, PartialEq, Eq, Structural)]
pub enum Flag {
    Break,
    Multiline,
}

/// A text transform: a regular expression, its replacement, and flags.
#[derive(Clone, Debug, PartialEq, Eq)]
pub struct Transform {
    pub regex: Vec<u8>,
    pub replace: Vec<u8>,
    pub flags: Vec<Flag>,
}

/// Why a transform string was rejected.
#[derive(Clone, Copy, Debug, PartialEq, Eq, Structural)]
pub enum TransformParseError {
    /// The string does not start with `/`.
    MissingLeadingSlash,
    /// The string contains an unescaped fourth `/`.
    ExtraSlash,
    /// A flag byte is neither `b` nor `m`.
    InvalidFlag(u8),
}

/// One extraction rule: a tree query, the classification of what it captures,
/// and per-capture transforms.
#[derive(Clone, Debug)]
pub struct Node {
    pub node_type: NodeType,
    pub query: String,
    pub transform: Vec<(String, Vec<Transform>)>,
}

/// The extraction rules of one language.
#[derive(Clone, Debug)]
pub struct LanguageRules {
    pub nodes: Vec<Node>,
}

/// Extraction configuration: where grammar libraries are searched for, and
/// the rules of each language, keyed by language name.
#[derive(Clone, Debug)]
pub struct Config {
    pub grammars: Vec<String>,
    pub languages: Vec<(String, LanguageRules)>,
}

impl Default for Config {
    /// The default configuration searches the common grammar directories and
    /// configures no per-language rules.
    fn default() -> (c: Self)
        ensures
            c.grammars@.len() == 2,
            c.grammars@[0]@ == "/usr/lib/helix/runtime/grammars"@,
            c.grammars@[1]@ == "/usr/lib/tree_sitter"@,
            c.languages@.len() == 0,
    {
        let mut grammars: Vec<String> = Vec::new();
        grammars.push("/usr/lib/helix/runtime/grammars".to_owned());
        grammars.push("/usr/lib/tree_sitter".to_owned());
        Config { grammars, languages: Vec::new() }
    }
}

/// Index of the first entry of `langs` whose key reads `name`, or -1.
pub open spec fn language_index(langs: Seq<(String, LanguageRules)>, name: Seq<char>) -> int
    decreases langs.len(),
{
    if langs.len() == 0 {
        -1
    } else if langs[0].0@ == name {
        0
    } else {
        let rest = language_index(langs.drop_first(), name);
        if rest == -1 {
            -1
        } else {
            rest + 1
        }
    }
}

pub proof fn lemma_language_index_bounds(langs: Seq<(String, LanguageRules)>, name: Seq<char>)
    ensures
        -1 <= language_index(langs, name) < langs.len(),
    decreases langs.len(),
{
    if langs.len() > 0 && langs[0].0@ != name {
        lemma_language_index_bounds(langs.drop_first(), name);
    }
}

impl Config {
    /// The extraction rules configured for the language called `name`, if any.
    pub fn rules_for(&self, name: &String) -> (r: Option<&LanguageRules>)
        ensures
            language_index(self.languages@, name@) == -1 <==> r is None,
            language_index(self.languages@, name@) >= 0 ==> r == Some(
                &self.languages@[language_index(self.languages@, name@)].1,
            ),
    {
        let mut i: usize = 0;
        proof {
            assert(self.languages@.skip(0) =~= self.languages@);
        }
        while i < self.languages.len()
            invariant
                i <= self.languages@.len(),
                language_index(self.languages@, name@) == if language_index(
                    self.languages@.skip(i as int),
                    name@,
                ) == -1 {
                    -1int
                } else {
                    language_index(self.languages@.skip(i as int), name@) + i
                },
            decreases self.languages@.len() - i,
        {
            proof {
                assert(self.languages@.skip(i as int).drop_first() =~= self.languages@.skip(
                    i + 1,
                ));
                assert(self.languages@.skip(i as int)[0] == self.languages@[i as int]);
            }
            if self.languages[i].0 == *name {
                proof {
                    assert(language_index(self.languages@.skip(i as int), name@) == 0);
                }
                return Some(&self.languages[i].1);
            }
            proof {
                lemma_language_index_bounds(self.languages@.skip(i + 1), name@);
                assert(language_index(self.languages@.skip(i as int), name@) == if language_index(
                    self.languages@.skip(i + 1),
                    name@,
                ) == -1 {
                    -1int
                } else {
                    language_index(self.languages@.skip(i + 1), name@) + 1
                });
            }
            i = i + 1;
        }
        proof {
            assert(self.languages@.skip(i as int) =~= Seq::<(String, LanguageRules)>::empty());
        }
        None
    }
}

/// Which section of a transform string is being read.
#[derive(Clone, Copy, Debug, PartialEq, Eq, Structural)]
pub enum Section {
    Regex,
    Replace,
    Flags,
}

/// The flag named by byte `b`, if any.
pub open spec fn flag_from_spec(b: u8) -> Option<Flag> {
    if b == 'b' as u8 {
        Some(Flag::Break)
    } else if b == 'm' as u8 {
        Some(Flag::Multiline)
    } else {
        None
    }
}

impl Flag {
    /// The flag named by byte `b`: `b` or `m`.
    pub fn try_from(value: u8) -> (r: Option<Flag>)
        ensures
            r == flag_from_spec(value),
    {
        if value == 'b' as u8 {
            Some(Flag::Break)
        } else if value == 'm' as u8 {
            Some(Flag::Multiline)
        } else {
            None
        }
    }
}

/// One parsing step's extension of the accumulated sections: byte `c` goes to
/// the section currently read (a flag byte must name a flag).
pub open spec fn section_push(
    st: Section,
    c: u8,
    regex: Seq<u8>,
    replace: Seq<u8>,
    flags: Seq<Flag>,
) -> Result<(Seq<u8>, Seq<u8>, Seq<Flag>), TransformParseError> {
    match st {
        Section::Regex => Ok((regex.push(c), replace, flags)),
        Section::Replace => Ok((regex, replace.push(c), flags)),
        Section::Flags => match flag_from_spec(c) {
            Some(f) => Ok((regex, replace, flags.push(f))),
            None => Err(TransformParseError::InvalidFlag(c)),
        },
    }
}

/// Scans `s` from position `i` in state (`st`, `esc`) with the sections
/// accumulated so far, to the parse of the whole string.
pub open spec fn scan_transform(
    s: Seq<u8>,
    i: int,
    st: Section,
    esc: bool,
    regex: Seq<u8>,
    replace: Seq<u8>,
    flags: Seq<Flag>,
) -> Result<(Seq<u8>, Seq<u8>, Seq<Flag>), TransformParseError>
    decreases s.len() - i,
{
    if i < 0 || i >= s.len() {
        Ok((regex, replace, flags))
    } else {
        let c = s[i];
        if esc {
            let pushed = if c == '/' as u8 {
                section_push(st, c, regex, replace, flags)
            } else {
                match section_push(st, '\\' as u8, regex, replace, flags) {
                    Ok((r1, r2, f)) => section_push(st, c, r1, r2, f),
                    Err(e) => Err(e),
                }
            };
            match pushed {
                Ok((r1, r2, f)) => scan_transform(s, i + 1, st, false, r1, r2, f),
                Err(e) => Err(e),
            }
        } else if c == '\\' as u8 {
            scan_transform(s, i + 1, st, true, regex, replace, flags)
        } else if c == '/' as u8 {
            match st {
                Section::Regex => scan_transform(
                    s,
                    i + 1,
                    Section::Replace,
                    false,
                    regex,
                    replace,
                    flags,
                ),
                Section::Replace => scan_transform(
                    s,
                    i + 1,
                    Section::Flags,
                    false,
                    regex,
                    replace,
                    flags,
                ),
                Section::Flags => Err(TransformParseError::ExtraSlash),
            }
        } else {
            match section_push(st, c, regex, replace, flags) {
                Ok((r1, r2, f)) => scan_transform(s, i + 1, st, false, r1, r2, f),
                Err(e) => Err(e),
            }
        }
    }
}

/// The parse of a whole transform string: it must start with `/`, and its
/// remainder is scanned as `/regex/replace/flags` with `\` escaping.
pub open spec fn parse_transform_spec(s: Seq<u8>) -> Result<
    (Seq<u8>, Seq<u8>, Seq<Flag>),
    TransformParseError,
> {
    if s.len() == 0 || s[0] != '/' as u8 {
        Err(TransformParseError::MissingLeadingSlash)
    } else {
        scan_transform(s, 1, Section::Regex, false, Seq::empty(), Seq::empty(), Seq::empty())
    }
}

impl Transform {
    /// Parses `/regex/replace/flags` (UTF-8 bytes of `original`); `\/` is an
    /// escaped slash, any other escaped byte keeps its backslash.
    pub fn from_str(original: &str) -> (r: Result<Transform, TransformParseError>)
        ensures
            match r {
                Ok(t) => parse_transform_spec(original.spec_bytes()) == Ok::<
                    _,
                    TransformParseError,
                >((t.regex@, t.replace@, t.flags@)),
                Err(e) => parse_transform_spec(original.spec_bytes()) == Err::<
                    (Seq<u8>, Seq<u8>, Seq<Flag>),
                    _,
                >(e),
            },
    {
        let s = original.as_bytes();
        if s.len() == 0 || s[0] != '/' as u8 {
            return Err(TransformParseError::MissingLeadingSlash);
        }
        let mut regex: Vec<u8> = Vec::new();
        let mut replace: Vec<u8> = Vec::new();
        let mut flags: Vec<Flag> = Vec::new();
        let mut st = Section::Regex;
        let mut esc = false;
        let mut i: usize = 1;
        proof {
            assert(regex@ =~= Seq::<u8>::empty());
            assert(replace@ =~= Seq::<u8>::empty());
            assert(flags@ =~= Seq::<Flag>::empty());
        }
        while i < s.len()
            invariant
                1 <= i <= s@.len(),
                s@ == original.spec_bytes(),
                parse_transform_spec(s@) == scan_transform(
                    s@,
                    i as int,
                    st,
                    esc,
                    regex@,
                    replace@,
                    flags@,
                ),
            decreases s@.len() - i,
        {
            let ghost i0 = i as int;
            let ghost st0 = st;
            let ghost esc0 = esc;
            let ghost r0 = regex@;
            let ghost p0 = replace@;
            let ghost f0 = flags@;
            let c = s[i];
            if esc {
                if c != '/' as u8 {
                    match st {
                        Section::Regex => regex.push('\\' as u8),
                        Section::Replace => replace.push('\\' as u8),
                        Section::Flags => {
                            match Flag::try_from('\\' as u8) {
                                Some(f) => flags.push(f),
                                None => {
                                    proof {
                                        assert(scan_transform(s@, i0, st0, esc0, r0, p0, f0)
                                            == Err::<(Seq<u8>, Seq<u8>, Seq<Flag>), _>(
                                            TransformParseError::InvalidFlag('\\' as u8),
                                        ));
                                    }
                                    return Err(TransformParseError::InvalidFlag('\\' as u8));
                                },
                            }
                        },
                    }
                }
                match st {
                    Section::Regex => regex.push(c),
                    Section::Replace => replace.push(c),
                    Section::Flags => {
                        match Flag::try_from(c) {
                            Some(f) => flags.push(f),
                            None => {
                                proof {
                                    assert(scan_transform(s@, i0, st0, esc0, r0, p0, f0) == Err::<
                                        (Seq<u8>, Seq<u8>, Seq<Flag>),
                                        _,
                                    >(TransformParseError::InvalidFlag(c)));
                                }
                                return Err(TransformParseError::InvalidFlag(c));
                            },
                        }
                    },
                }
                esc = false;
            } else if c == '\\' as u8 {
                esc = true;
            } else if c == '/' as u8 {
                match st {
                    Section::Regex => {
                        st = Section::Replace;
                    },
                    Section::Replace => {
                        st = Section::Flags;
                    },
                    Section::Flags => {
                        proof {
                            assert(scan_transform(s@, i0, st0, esc0, r0, p0, f0) == Err::<
                                (Seq<u8>, Seq<u8>, Seq<Flag>),
                                _,
                            >(TransformParseError::ExtraSlash));
                        }
                        return Err(TransformParseError::ExtraSlash);
                    },
                }
            } else {
                match st {
                    Section::Regex => regex.push(c),
                    Section::Replace => replace.push(c),
                    Section::Flags => {
                        match Flag::try_from(c) {
                            Some(f) => flags.push(f),
                            None => {
                                proof {
                                    assert(scan_transform(s@, i0, st0, esc0, r0, p0, f0) == Err::<
                                        (Seq<u8>, Seq<u8>, Seq<Flag>),
                                        _,
                                    >(TransformParseError::InvalidFlag(c)));
                                }
                                return Err(TransformParseError::InvalidFlag(c));
                            },
                        }
                    },
                }
            }
            i = i + 1;
            proof {
                assert(scan_transform(s@, i0, st0, esc0, r0, p0, f0) == scan_transform(
                    s@,
                    i as int,
                    st,
                    esc,
                    regex@,
                    replace@,
                    flags@,
                ));
            }
        }
        Ok(Transform { regex, replace, flags })
    }
}

} // verus!
