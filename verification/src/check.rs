//! Checker requests, their results, the request cache, and the retry policy.
//!
//! A request is the annotation payload of one segment together with the
//! disabled-rule list and the language; identical requests are answered from
//! a bounded cache instead of reaching the backend again. Transport failures
//! are retried a fixed number of times with a fixed delay.

use vstd::prelude::*;

use crate::markup::{Annotation, AnnotationView};
use crate::session::{has_rule, State};

verus! {

/// How the checker classified a match.
#[derive(Clone, Copy, Debug, PartialEq, Eq, Structural)]
pub enum MatchKind {
    /// A misspelled word; the dictionary can suppress it.
    Misspelling,
    /// A grammar or style rule; it can be disabled by its identifier.
    Grammar,
}

/// One match returned by the checker, in segment-text coordinates.
#[derive(Clone, Debug)]
pub struct CheckMatch {
    pub offset: usize,
    pub length: usize,
    pub message: String,
    pub rule_id: String,
    pub kind: MatchKind,
    pub replacements: Vec<String>,
}

/// One request to the checker: the tagged text, what rules to skip, and the
/// language to check against.
#[derive(Clone, Debug)]
pub struct CheckRequest {
    pub annotations: Vec<Annotation>,
    pub disabled_rules: Vec<String>,
    pub language: String,
}

/// What identifies a request: the values of its annotations, disabled rules
/// and language.
pub open spec fn request_key(r: CheckRequest) -> (Seq<AnnotationView>, Seq<Seq<char>>, Seq<char>) {
    (r.annotations.deep_view(), r.disabled_rules.deep_view(), r.language@)
}

/// Builds the checker request for one segment's annotations: the disabled
/// rules are the session's, followed by the built-in exclusions for
/// whitespace false positives.
pub fn build_check_request(annotations: Vec<Annotation>, state: &State) -> (r: CheckRequest)
    ensures
        r.annotations == annotations,
        r.language == state.language,
        r.disabled_rules@.len() == state.disabled_rules@.len() + 2,
        forall|i: int|
            0 <= i < state.disabled_rules@.len() ==> r.disabled_rules@[i]
                == state.disabled_rules@[i],
        r.disabled_rules@[state.disabled_rules@.len() as int]@ == "WHITESPACE_RULE"@,
        r.disabled_rules@[state.disabled_rules@.len() as int + 1]@ == "CONSECUTIVE_SPACES"@,
{
    let mut disabled_rules: Vec<String> = Vec::new();
    let mut i: usize = 0;
    while i < state.disabled_rules.len()
        invariant
            i <= state.disabled_rules@.len(),
            disabled_rules@.len() == i,
            forall|k: int| 0 <= k < i ==> disabled_rules@[k] == state.disabled_rules@[k],
        decreases state.disabled_rules@.len() - i,
    {
        disabled_rules.push(state.disabled_rules[i].clone());
        i = i + 1;
    }
    disabled_rules.push("WHITESPACE_RULE".to_owned());
    disabled_rules.push("CONSECUTIVE_SPACES".to_owned());
    CheckRequest { annotations, disabled_rules, language: state.language.clone() }
}

/// A rule the session disabled is named in every request built from that
/// session, whatever the annotations: disabling a rule reaches all later
/// checker requests.
pub proof fn lemma_disabled_rule_reaches_request(
    state: State,
    request: CheckRequest,
    rule: Seq<char>,
)
    requires
        has_rule(state.disabled_rules@, rule),
        request.disabled_rules@.len() >= state.disabled_rules@.len(),
        forall|i: int|
            0 <= i < state.disabled_rules@.len() ==> request.disabled_rules@[i]
                == state.disabled_rules@[i],
    ensures
        has_rule(request.disabled_rules@, rule),
{
    let i = choose|i: int|
        0 <= i < state.disabled_rules@.len() && (#[trigger] state.disabled_rules@[i])@ == rule;
    assert((request.disabled_rules@[i])@ == rule);
}

/// Are the two byte vectors equal?
fn bytes_eq(a: &Vec<u8>, b: &Vec<u8>) -> (r: bool)
    ensures
        r == (a@ == b@),
{
    let r = a == b;
    proof {
        if r {
            assert(a@ =~= b@);
        } else if a@ == b@ {
            assert(false);
        }
    }
    r
}

/// Are two annotations the same span: same class, same bytes?
fn annotation_eq(a: &Annotation, b: &Annotation) -> (r: bool)
    ensures
        r == (a@ == b@),
{
    match (a, b) {
        (Annotation::Checkable { text: t1 }, Annotation::Checkable { text: t2 }) => bytes_eq(
            t1,
            t2,
        ),
        (Annotation::Markup { markup: m1 }, Annotation::Markup { markup: m2 }) => bytes_eq(m1, m2),
        (
            Annotation::Interpreted { markup: m1, replacement: r1 },
            Annotation::Interpreted { markup: m2, replacement: r2 },
        ) => bytes_eq(m1, m2) && bytes_eq(r1, r2),
        _ => false,
    }
}

/// Are the two annotation sequences equal?
fn annotations_eq(a: &Vec<Annotation>, b: &Vec<Annotation>) -> (r: bool)
    ensures
        r == (a.deep_view() == b.deep_view()),
{
    if a.len() != b.len() {
        proof {
            assert(a.deep_view().len() != b.deep_view().len());
        }
        return false;
    }
    let mut i: usize = 0;
    while i < a.len()
        invariant
            i <= a@.len(),
            a@.len() == b@.len(),
            forall|k: int| 0 <= k < i ==> a.deep_view()[k] == b.deep_view()[k],
        decreases a@.len() - i,
    {
        if !annotation_eq(&a[i], &b[i]) {
            proof {
                assert(a.deep_view()[i as int] != b.deep_view()[i as int]);
            }
            return false;
        }
        i = i + 1;
    }
    proof {
        assert(a.deep_view() =~= b.deep_view());
    }
    true
}

/// Are the two string lists equal?
fn strings_eq(a: &Vec<String>, b: &Vec<String>) -> (r: bool)
    ensures
        r == (a.deep_view() == b.deep_view()),
{
    if a.len() != b.len() {
        proof {
            assert(a.deep_view().len() != b.deep_view().len());
        }
        return false;
    }
    let mut i: usize = 0;
    while i < a.len()
        invariant
            i <= a@.len(),
            a@.len() == b@.len(),
            forall|k: int| 0 <= k < i ==> a.deep_view()[k] == b.deep_view()[k],
        decreases a@.len() - i,
    {
        if !(a[i] == b[i]) {
            proof {
                assert(a.deep_view()[i as int] != b.deep_view()[i as int]);
            }
            return false;
        }
        i = i + 1;
    }
    proof {
        assert(a.deep_view() =~= b.deep_view());
    }
    true
}

/// Do the two requests carry the same payload?
pub fn request_eq(a: &CheckRequest, b: &CheckRequest) -> (r: bool)
    ensures
        r == (request_key(*a) == request_key(*b)),
{
    let r = annotations_eq(&a.annotations, &b.annotations) && strings_eq(
        &a.disabled_rules,
        &b.disabled_rules,
    ) && a.language == b.language;
    proof {
        if a.annotations.deep_view() == b.annotations.deep_view() && a.disabled_rules.deep_view()
            == b.disabled_rules.deep_view() && a.language@ == b.language@ {
            assert(request_key(*a) == request_key(*b));
        }
    }
    r
}

/// A bounded cache of checker results, keyed by the request payload. When it
/// is full, the oldest entry is evicted.
#[derive(Debug)]
pub struct RequestCache {
    entries: Vec<(CheckRequest, Vec<CheckMatch>)>,
    capacity: usize,
}

/// The newest cached result for `key` among `entries`.
pub open spec fn cache_lookup(
    entries: Seq<(CheckRequest, Vec<CheckMatch>)>,
    key: (Seq<AnnotationView>, Seq<Seq<char>>, Seq<char>),
) -> Option<Vec<CheckMatch>>
    decreases entries.len(),
{
    if entries.len() == 0 {
        None
    } else if request_key(entries.last().0) == key {
        Some(entries.last().1)
    } else {
        cache_lookup(entries.drop_last(), key)
    }
}

/// Dropping the oldest entry loses cached results but never changes one: a
/// key still cached afterwards is cached with the same result.
proof fn lemma_cache_lookup_drop_first(
    entries: Seq<(CheckRequest, Vec<CheckMatch>)>,
    key: (Seq<AnnotationView>, Seq<Seq<char>>, Seq<char>),
)
    requires
        entries.len() > 0,
    ensures
        cache_lookup(entries.drop_first(), key) is Some ==> cache_lookup(entries, key)
            == cache_lookup(entries.drop_first(), key),
    decreases entries.len(),
{
    if entries.len() > 1 {
        assert(entries.drop_first().last() == entries.last());
        if request_key(entries.last().0) != key {
            assert(entries.drop_first().drop_last() =~= entries.drop_last().drop_first());
            lemma_cache_lookup_drop_first(entries.drop_last(), key);
        }
    }
}

impl RequestCache {
    /// The cache is usable: it holds at least one entry when full.
    pub closed spec fn wf(&self) -> bool {
        &&& self.capacity >= 1
        &&& self.entries@.len() <= self.capacity
    }

    /// The cached result for `key`, if any.
    pub closed spec fn lookup(
        &self,
        key: (Seq<AnnotationView>, Seq<Seq<char>>, Seq<char>),
    ) -> Option<Vec<CheckMatch>> {
        cache_lookup(self.entries@, key)
    }

    /// An empty cache that holds at most `capacity` results.
    pub fn new(capacity: usize) -> (c: Self)
        requires
            capacity >= 1,
        ensures
            c.wf(),
            forall|key: (Seq<AnnotationView>, Seq<Seq<char>>, Seq<char>)| c.lookup(key) is None,
    {
        RequestCache { entries: Vec::new(), capacity }
    }

    /// The cached result for `request`, if its payload was checked before and
    /// not evicted since: exactly what was inserted for that payload.
    pub fn get(&self, request: &CheckRequest) -> (r: Option<&Vec<CheckMatch>>)
        ensures
            match r {
                Some(v) => self.lookup(request_key(*request)) == Some(*v),
                None => self.lookup(request_key(*request)) is None,
            },
    {
        let mut i: usize = self.entries.len();
        proof {
            assert(self.entries@.take(i as int) =~= self.entries@);
        }
        while i > 0
            invariant
                i <= self.entries@.len(),
                cache_lookup(self.entries@, request_key(*request)) == cache_lookup(
                    self.entries@.take(i as int),
                    request_key(*request),
                ),
            decreases i,
        {
            proof {
                assert(self.entries@.take(i as int).last() == self.entries@[i - 1]);
                assert(self.entries@.take(i as int).drop_last() =~= self.entries@.take(i - 1));
            }
            if request_eq(&self.entries[i - 1].0, request) {
                return Some(&self.entries[i - 1].1);
            }
            i = i - 1;
        }
        None
    }

    /// Caches `matches` as the result for `request`. Afterwards the request's
    /// payload is cached with exactly this result; every other payload still
    /// cached kept its result (the oldest entry may have been evicted).
    pub fn insert(&mut self, request: CheckRequest, matches: Vec<CheckMatch>)
        requires
            old(self).wf(),
        ensures
            final(self).wf(),
            final(self).lookup(request_key(request)) == Some(matches),
            forall|key: (Seq<AnnotationView>, Seq<Seq<char>>, Seq<char>)|
                key != request_key(request) && final(self).lookup(key) is Some
                    ==> final(self).lookup(key) == old(self).lookup(key),
    {
        let ghost pre = self.entries@;
        if self.entries.len() >= self.capacity {
            self.entries.remove(0);
            proof {
                assert(self.entries@ =~= pre.drop_first());
            }
        }
        let ghost mid = self.entries@;
        self.entries.push((request, matches));
        proof {
            assert(self.entries@.last() == (request, matches));
            assert(self.entries@.drop_last() =~= mid);
            assert forall|key: (Seq<AnnotationView>, Seq<Seq<char>>, Seq<char>)|
                key != request_key(request) && cache_lookup(self.entries@, key) is Some implies cache_lookup(
                self.entries@,
                key,
            ) == cache_lookup(pre, key) by {
                assert(cache_lookup(self.entries@, key) == cache_lookup(mid, key));
                if mid =~= pre.drop_first() && pre.len() > 0 {
                    lemma_cache_lookup_drop_first(pre, key);
                }
            }
        }
    }
}

/// Identical checker requests are answered from the cache: once a result is
/// cached for a payload, looking up any request with the same annotations,
/// disabled rules and language yields that very result, so the backend is not
/// asked again.
pub proof fn lemma_identical_requests_hit_cache(
    cache: RequestCache,
    first: CheckRequest,
    second: CheckRequest,
    matches: Vec<CheckMatch>,
)
    requires
        cache.lookup(request_key(first)) == Some(matches),
        request_key(second) == request_key(first),
    ensures
        cache.lookup(request_key(second)) == Some(matches),
{
}

/// How checker transport failures are retried: at most `max_attempts`
/// attempts in all, each retry after `delay_seconds`.
#[derive(Clone, Copy, Debug, PartialEq, Eq, Structural)]
pub struct RetryPolicy {
    pub max_attempts: u64,
    pub delay_seconds: u64,
}

/// What to do after a failed attempt.
#[derive(Clone, Copy, Debug, PartialEq, Eq, Structural)]
pub enum RetryDecision {
    /// Try again after this many seconds.
    Retry(u64),
    /// Give up; the segment contributes no diagnostics.
    GiveUp,
}

impl RetryPolicy {
    /// The bridge's policy: up to ten attempts at the backend in all, one
    /// second apart — "up to 10 attempts" read as ten calls altogether, the
    /// first included.
    pub fn standard() -> (p: Self)
        ensures
            p.max_attempts == 10,
            p.delay_seconds == 1,
    {
        RetryPolicy { max_attempts: 10, delay_seconds: 1 }
    }

    /// Decides after the `failures`-th failed attempt: retry while fewer
    /// than `max_attempts` calls were made.
    pub fn after_failure(&self, failures: u64) -> (d: RetryDecision)
        ensures
            d == if failures >= self.max_attempts {
                RetryDecision::GiveUp
            } else {
                RetryDecision::Retry(self.delay_seconds)
            },
    {
        if failures >= self.max_attempts {
            RetryDecision::GiveUp
        } else {
            RetryDecision::Retry(self.delay_seconds)
        }
    }
}

} // verus!
