//! The map of open documents, keyed by their URI.
//!
//! A document is inserted on open, replaced wholesale on every change, and
//! dropped on close; at any time a URI maps to at most one document, the
//! latest stored — only that one is ever diagnosed.

use vstd::prelude::*;

use crate::extract::Document;

verus! {

/// The open documents of a session.
pub struct DocumentStore {
    entries: Vec<(String, Document)>,
}

/// The document stored for `uri` among `entries`, if any.
pub open spec fn store_lookup(entries: Seq<(String, Document)>, uri: Seq<char>) -> Option<
    Document,
>
    decreases entries.len(),
{
    if entries.len() == 0 {
        None
    } else if entries[0].0@ == uri {
        Some(entries[0].1)
    } else {
        store_lookup(entries.drop_first(), uri)
    }
}

/// No two entries share a URI.
pub open spec fn distinct_uris(entries: Seq<(String, Document)>) -> bool {
    forall|i: int, j: int|
        0 <= i < j < entries.len() ==> (#[trigger] entries[i]).0@ != (#[trigger] entries[j]).0@
}

proof fn lemma_store_lookup_absent(entries: Seq<(String, Document)>, uri: Seq<char>)
    requires
        forall|i: int| 0 <= i < entries.len() ==> (#[trigger] entries[i]).0@ != uri,
    ensures
        store_lookup(entries, uri) is None,
    decreases entries.len(),
{
    if entries.len() > 0 {
        assert(entries[0].0@ != uri);
        assert(forall|i: int|
            0 <= i < entries.drop_first().len() ==> (#[trigger] entries.drop_first()[i]).0@
                != uri);
        lemma_store_lookup_absent(entries.drop_first(), uri);
    }
}

proof fn lemma_store_lookup_none_means_absent(entries: Seq<(String, Document)>, uri: Seq<char>)
    requires
        store_lookup(entries, uri) is None,
    ensures
        forall|i: int| 0 <= i < entries.len() ==> (#[trigger] entries[i]).0@ != uri,
    decreases entries.len(),
{
    if entries.len() > 0 {
        lemma_store_lookup_none_means_absent(entries.drop_first(), uri);
        assert forall|i: int| 0 <= i < entries.len() implies (#[trigger] entries[i]).0@ != uri by {
            if i > 0 {
                assert(entries.drop_first()[i - 1] == entries[i]);
            }
        }
    }
}

proof fn lemma_store_lookup_push(
    entries: Seq<(String, Document)>,
    entry: (String, Document),
    uri: Seq<char>,
)
    requires
        store_lookup(entries, entry.0@) is None,
    ensures
        entry.0@ == uri ==> store_lookup(entries.push(entry), uri) == Some(entry.1),
        entry.0@ != uri ==> store_lookup(entries.push(entry), uri) == store_lookup(entries, uri),
    decreases entries.len(),
{
    if entries.len() == 0 {
        assert(entries.push(entry)[0] == entry);
        assert(entries.push(entry).drop_first() =~= entries);
    } else {
        assert(entries.push(entry)[0] == entries[0]);
        assert(entries.push(entry).drop_first() =~= entries.drop_first().push(entry));
        lemma_store_lookup_push(entries.drop_first(), entry, uri);
    }
}

proof fn lemma_store_lookup_remove(
    entries: Seq<(String, Document)>,
    i: int,
    uri: Seq<char>,
)
    requires
        distinct_uris(entries),
        0 <= i < entries.len(),
    ensures
        entries[i].0@ == uri ==> store_lookup(entries.remove(i), uri) is None,
        entries[i].0@ != uri ==> store_lookup(entries.remove(i), uri) == store_lookup(
            entries,
            uri,
        ),
    decreases entries.len(),
{
    if i == 0 {
        assert(entries.remove(0) =~= entries.drop_first());
        if entries[0].0@ == uri {
            assert forall|j: int|
                0 <= j < entries.drop_first().len() implies (#[trigger] entries.drop_first()[j]).0@
                != uri by {
                assert(entries.drop_first()[j] == entries[j + 1]);
            }
            lemma_store_lookup_absent(entries.drop_first(), uri);
        }
    } else {
        assert(entries.remove(i)[0] == entries[0]);
        assert(entries.remove(i).drop_first() =~= entries.drop_first().remove(i - 1));
        assert(entries.drop_first()[i - 1] == entries[i]);
        if entries[0].0@ != uri {
            assert(distinct_uris(entries.drop_first())) by {
                assert forall|a: int, b: int|
                    0 <= a < b < entries.drop_first().len() implies (#[trigger] entries.drop_first()[a]).0@
                    != (#[trigger] entries.drop_first()[b]).0@ by {
                    assert(entries.drop_first()[a] == entries[a + 1]);
                    assert(entries.drop_first()[b] == entries[b + 1]);
                }
            }
            lemma_store_lookup_remove(entries.drop_first(), i - 1, uri);
        }
    }
}

impl DocumentStore {
    /// Each URI maps to at most one document.
    pub closed spec fn wf(&self) -> bool {
        distinct_uris(self.entries@)
    }

    /// The document stored for `uri`, if any.
    pub closed spec fn lookup(&self, uri: Seq<char>) -> Option<Document> {
        store_lookup(self.entries@, uri)
    }

    /// An empty store.
    pub fn new() -> (s: Self)
        ensures
            s.wf(),
            forall|u: Seq<char>| s.lookup(u) is None,
    {
        let s = DocumentStore { entries: Vec::new() };
        proof {
            assert forall|u: Seq<char>| s.lookup(u) is None by {
                assert(s.entries@.len() == 0);
            }
        }
        s
    }

    /// The document stored for `uri`.
    pub fn get(&self, uri: &String) -> (r: Option<&Document>)
        ensures
            match r {
                Some(d) => self.lookup(uri@) == Some(*d),
                None => self.lookup(uri@) is None,
            },
    {
        let mut i: usize = 0;
        proof {
            assert(self.entries@.skip(0) =~= self.entries@);
        }
        while i < self.entries.len()
            invariant
                i <= self.entries@.len(),
                store_lookup(self.entries@, uri@) == store_lookup(
                    self.entries@.skip(i as int),
                    uri@,
                ),
            decreases self.entries@.len() - i,
        {
            proof {
                assert(self.entries@.skip(i as int)[0] == self.entries@[i as int]);
                assert(self.entries@.skip(i as int).drop_first() =~= self.entries@.skip(i + 1));
            }
            if self.entries[i].0 == *uri {
                return Some(&self.entries[i].1);
            }
            i = i + 1;
        }
        proof {
            assert(self.entries@.skip(i as int) =~= Seq::<(String, Document)>::empty());
        }
        None
    }

    /// Takes the document stored for `uri` out of the store.
    pub fn take(&mut self, uri: &String) -> (r: Option<Document>)
        requires
            old(self).wf(),
        ensures
            final(self).wf(),
            r == old(self).lookup(uri@),
            final(self).lookup(uri@) is None,
            forall|u: Seq<char>| u != uri@ ==> final(self).lookup(u) == old(self).lookup(u),
    {
        let ghost entries0 = self.entries@;
        let mut i: usize = 0;
        proof {
            assert(entries0.skip(0) =~= entries0);
        }
        while i < self.entries.len()
            invariant
                i <= self.entries@.len(),
                self.entries@ == entries0,
                entries0 == old(self).entries@,
                distinct_uris(entries0),
                forall|k: int| 0 <= k < i ==> (#[trigger] entries0[k]).0@ != uri@,
                store_lookup(entries0, uri@) == store_lookup(entries0.skip(i as int), uri@),
            decreases self.entries@.len() - i,
        {
            proof {
                assert(entries0.skip(i as int)[0] == entries0[i as int]);
                assert(entries0.skip(i as int).drop_first() =~= entries0.skip(i + 1));
            }
            if self.entries[i].0 == *uri {
                proof {
                    assert(store_lookup(entries0.skip(i as int), uri@) == Some(
                        entries0[i as int].1,
                    ));
                }
                let entry = self.entries.remove(i);
                proof {
                    assert(self.entries@ == entries0.remove(i as int));
                    assert(entry == entries0[i as int]);
                    lemma_store_lookup_remove(entries0, i as int, uri@);
                    assert forall|u: Seq<char>| u != uri@ implies store_lookup(self.entries@, u)
                        == store_lookup(entries0, u) by {
                        lemma_store_lookup_remove(entries0, i as int, u);
                    }
                    assert(distinct_uris(self.entries@)) by {
                        assert forall|a: int, b: int|
                            0 <= a < b < self.entries@.len() implies (#[trigger] self.entries@[a]).0@
                            != (#[trigger] self.entries@[b]).0@ by {
                            let a0 = if a < i {
                                a
                            } else {
                                a + 1
                            };
                            let b0 = if b < i {
                                b
                            } else {
                                b + 1
                            };
                            assert(self.entries@[a] == entries0[a0]);
                            assert(self.entries@[b] == entries0[b0]);
                        }
                    }
                }
                return Some(entry.1);
            }
            i = i + 1;
        }
        proof {
            assert(self.entries@.skip(i as int) =~= Seq::<(String, Document)>::empty());
        }
        None
    }

    /// Stores `document` for `uri`, replacing what was stored before: a
    /// change replaces the document, it never merges.
    pub fn open(&mut self, uri: String, document: Document)
        requires
            old(self).wf(),
        ensures
            final(self).wf(),
            final(self).lookup(uri@) == Some(document),
            forall|u: Seq<char>| u != uri@ ==> final(self).lookup(u) == old(self).lookup(u),
    {
        let _ = self.take(&uri);
        let ghost mid = self.entries@;
        proof {
            lemma_store_lookup_none_means_absent(mid, uri@);
        }
        self.entries.push((uri, document));
        proof {
            let entry = self.entries@.last();
            assert(self.entries@.drop_last() =~= mid);
            assert(self.entries@ =~= mid.push(entry));
            lemma_store_lookup_push(mid, entry, entry.0@);
            assert forall|u: Seq<char>| u != entry.0@ implies store_lookup(self.entries@, u)
                == store_lookup(mid, u) by {
                lemma_store_lookup_push(mid, entry, u);
            }
            assert forall|a: int, b: int|
                0 <= a < b < self.entries@.len() implies (#[trigger] self.entries@[a]).0@
                != (#[trigger] self.entries@[b]).0@ by {
                if b == self.entries@.len() - 1 {
                    assert(self.entries@[a] == mid[a]);
                }
            }
        }
    }

    /// The URIs of all open documents, in storage order.
    pub fn uris(&self) -> (r: Vec<String>)
        ensures
            r@.len() == self@.len(),
            forall|i: int| 0 <= i < r@.len() ==> r@[i] == self@[i].0,
    {
        let mut r: Vec<String> = Vec::new();
        let mut i: usize = 0;
        while i < self.entries.len()
            invariant
                i <= self.entries@.len(),
                r@.len() == i,
                forall|k: int| 0 <= k < i ==> r@[k] == self.entries@[k].0,
            decreases self.entries@.len() - i,
        {
            r.push(self.entries[i].0.clone());
            i = i + 1;
        }
        r
    }

    /// The stored entries.
    pub closed spec fn view(&self) -> Seq<(String, Document)> {
        self.entries@
    }
}

} // verus!
