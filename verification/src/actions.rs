//! Quick-fix actions derived from published diagnostics.
//!
//! For each diagnostic the editor can offer: one text replacement per
//! candidate the checker proposed, an "add to dictionary" command for a
//! misspelled word, and a "disable rule" command for a grammar rule.

use vstd::prelude::*;

use crate::diagnostic::Diagnostic;
use crate::position::Position;

verus! {

/// One action the editor may offer for a diagnostic.
#[derive(Clone, Debug)]
pub enum CodeFix {
    /// Replace the diagnosed range of the document at `uri` with `value`.
    Replace { uri: String, start: Position, end: Position, value: String },
    /// Accept the word into the dictionary.
    AddToDictionary { word: Vec<u8> },
    /// Disable the rule with this identifier.
    DisableRule { rule: String },
}

/// How many actions one diagnostic yields.
pub open spec fn fix_count(d: Diagnostic) -> int {
    d.meta.replacements@.len() + (if d.meta.missspelled is Some {
        1int
    } else {
        0int
    }) + (if d.meta.rule is Some {
        1int
    } else {
        0int
    })
}

/// Are `r` the actions of diagnostic `d` at `uri`: its replacements in
/// order, then the dictionary command for its word, then the disable-rule
/// command for its rule?
pub open spec fn fixes_for(r: Seq<CodeFix>, uri: Seq<char>, d: Diagnostic) -> bool {
    &&& r.len() == fix_count(d)
    &&& forall|i: int|
        0 <= i < d.meta.replacements@.len() ==> ((#[trigger] r[i]) matches CodeFix::Replace {
            uri: u,
            start,
            end,
            value,
        } && u@ == uri && start == d.start && end == d.end && value == d.meta.replacements@[i])
    &&& (d.meta.missspelled matches Some(w) ==> (r[d.meta.replacements@.len() as int]
        matches CodeFix::AddToDictionary { word } && word@ == w@))
    &&& (d.meta.rule matches Some(ru) ==> (r[fix_count(d) - 1] matches CodeFix::DisableRule {
        rule,
    } && rule == ru))
}

/// Are `r` the concatenated actions of the diagnostics `ds`, in order?
pub open spec fn all_fixes_for(r: Seq<CodeFix>, uri: Seq<char>, ds: Seq<Diagnostic>) -> bool
    decreases ds.len(),
{
    if ds.len() == 0 {
        r.len() == 0
    } else {
        &&& r.len() >= fix_count(ds[0])
        &&& fixes_for(r.take(fix_count(ds[0])), uri, ds[0])
        &&& all_fixes_for(r.skip(fix_count(ds[0])), uri, ds.drop_first())
    }
}

proof fn lemma_all_fixes_snoc(
    r: Seq<CodeFix>,
    extra: Seq<CodeFix>,
    uri: Seq<char>,
    ds: Seq<Diagnostic>,
    d: Diagnostic,
)
    requires
        all_fixes_for(r, uri, ds),
        fixes_for(extra, uri, d),
    ensures
        all_fixes_for(r + extra, uri, ds.push(d)),
    decreases ds.len(),
{
    reveal_with_fuel(all_fixes_for, 3);
    if ds.len() == 0 {
        assert(ds.push(d)[0] == d);
        assert(r + extra =~= extra);
        assert(extra.take(fix_count(d)) =~= extra);
        assert(extra.skip(fix_count(d)) =~= Seq::<CodeFix>::empty());
        assert(ds.push(d).drop_first() =~= ds);
    } else {
        let c = fix_count(ds[0]);
        assert(ds.push(d)[0] == ds[0]);
        assert((r + extra).take(c) =~= r.take(c));
        assert((r + extra).skip(c) =~= r.skip(c) + extra);
        assert(ds.push(d).drop_first() =~= ds.drop_first().push(d));
        lemma_all_fixes_snoc(r.skip(c), extra, uri, ds.drop_first(), d);
    }
}

/// The actions for one diagnostic at `uri`.
fn fixes_of(uri: &String, d: &Diagnostic) -> (r: Vec<CodeFix>)
    ensures
        fixes_for(r@, uri@, *d),
{
    let mut r: Vec<CodeFix> = Vec::new();
    let mut i: usize = 0;
    while i < d.meta.replacements.len()
        invariant
            i <= d.meta.replacements@.len(),
            r@.len() == i,
            forall|k: int|
                0 <= k < i ==> ((#[trigger] r@[k]) matches CodeFix::Replace {
                    uri: u,
                    start,
                    end,
                    value,
                } && u@ == uri@ && start == d.start && end == d.end && value
                    == d.meta.replacements@[k]),
        decreases d.meta.replacements@.len() - i,
    {
        r.push(
            CodeFix::Replace {
                uri: uri.clone(),
                start: d.start,
                end: d.end,
                value: d.meta.replacements[i].clone(),
            },
        );
        i = i + 1;
    }
    if let Some(word) = &d.meta.missspelled {
        let ghost n = r@.len();
        r.push(CodeFix::AddToDictionary { word: word.clone() });
        proof {
            assert(r@[n as int] matches CodeFix::AddToDictionary { word: w } && w@
                == d.meta.missspelled->0@);
        }
    }
    if let Some(rule) = &d.meta.rule {
        r.push(CodeFix::DisableRule { rule: rule.clone() });
    }
    r
}

/// The quick-fix actions for the diagnostics of the document at `uri`: for
/// each diagnostic in order, its replacements, its dictionary command and its
/// disable-rule command.
pub fn code_actions(uri: &String, diagnostics: &Vec<Diagnostic>) -> (r: Vec<CodeFix>)
    ensures
        all_fixes_for(r@, uri@, diagnostics@),
{
    let mut out: Vec<CodeFix> = Vec::new();
    let mut i: usize = 0;
    proof {
        assert(diagnostics@.take(0) =~= Seq::<Diagnostic>::empty());
    }
    while i < diagnostics.len()
        invariant
            i <= diagnostics@.len(),
            all_fixes_for(out@, uri@, diagnostics@.take(i as int)),
        decreases diagnostics@.len() - i,
    {
        let ghost out0 = out@;
        let mut extra = fixes_of(uri, &diagnostics[i]);
        let ghost extra0 = extra@;
        out.append(&mut extra);
        proof {
            lemma_all_fixes_snoc(
                out0,
                extra0,
                uri@,
                diagnostics@.take(i as int),
                diagnostics@[i as int],
            );
            assert(diagnostics@.take(i + 1) =~= diagnostics@.take(i as int).push(
                diagnostics@[i as int],
            ));
        }
        i = i + 1;
    }
    proof {
        assert(diagnostics@.take(diagnostics@.len() as int) =~= diagnostics@);
    }
    out
}

} // verus!
