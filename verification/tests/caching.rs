use doc_spelling_ls::check::{
    build_check_request, CheckMatch, MatchKind, RequestCache, RetryDecision, RetryPolicy,
};
use doc_spelling_ls::markup::Annotation;
use doc_spelling_ls::session::State;

fn annotations(text: &str) -> Vec<Annotation> {
    vec![Annotation::Checkable {
        text: text.as_bytes().to_vec(),
    }]
}

fn result(message: &str) -> Vec<CheckMatch> {
    vec![CheckMatch {
        offset: 0,
        length: 1,
        message: message.to_owned(),
        rule_id: "R".to_owned(),
        kind: MatchKind::Grammar,
        replacements: Vec::new(),
    }]
}

#[test]
fn cache_hit_returns_inserted_result() {
    let state = State::default();
    let mut cache = RequestCache::new(16);
    let request = build_check_request(annotations("hello"), &state);
    assert!(cache.get(&request).is_none());
    cache.insert(request.clone(), result("first"));
    // The identical payload, built independently, hits the cache and gets
    // the original result back.
    let same = build_check_request(annotations("hello"), &state);
    let hit = cache.get(&same).expect("identical request must hit");
    assert_eq!(hit.len(), 1);
    assert_eq!(hit[0].message, "first");
}

#[test]
fn cache_distinguishes_payloads() {
    let state = State::default();
    let mut cache = RequestCache::new(16);
    cache.insert(build_check_request(annotations("one"), &state), result("a"));
    assert!(cache
        .get(&build_check_request(annotations("two"), &state))
        .is_none());
    let mut other = State::default();
    other.language = "de-DE".to_owned();
    assert!(cache
        .get(&build_check_request(annotations("one"), &other))
        .is_none());
    let mut disabled = State::default();
    disabled.disable_rule("STYLE_X".to_owned());
    assert!(cache
        .get(&build_check_request(annotations("one"), &disabled))
        .is_none());
}

#[test]
fn cache_update_wins_over_old_entry() {
    let state = State::default();
    let mut cache = RequestCache::new(16);
    let request = build_check_request(annotations("hello"), &state);
    cache.insert(request.clone(), result("old"));
    cache.insert(request.clone(), result("new"));
    assert_eq!(cache.get(&request).unwrap()[0].message, "new");
}

#[test]
fn cache_evicts_oldest_when_full() {
    let state = State::default();
    let mut cache = RequestCache::new(2);
    let first = build_check_request(annotations("one"), &state);
    let second = build_check_request(annotations("two"), &state);
    let third = build_check_request(annotations("three"), &state);
    cache.insert(first.clone(), result("1"));
    cache.insert(second.clone(), result("2"));
    cache.insert(third.clone(), result("3"));
    assert!(cache.get(&first).is_none(), "oldest entry is evicted");
    assert_eq!(cache.get(&second).unwrap()[0].message, "2");
    assert_eq!(cache.get(&third).unwrap()[0].message, "3");
}

#[test]
fn retry_policy_caps_total_attempts_at_ten() {
    let policy = RetryPolicy::standard();
    assert_eq!(policy.after_failure(1), RetryDecision::Retry(1));
    assert_eq!(policy.after_failure(9), RetryDecision::Retry(1));
    assert_eq!(policy.after_failure(10), RetryDecision::GiveUp);
}
