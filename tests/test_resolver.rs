use shortlink::resolver::{bump_last_char, initial_candidate, reserve_code, ResolveError, Resolver, Step};
use shortlink::store::{NewShortlink, ShortlinkStore};
use shortlink::time::Timestamp;

fn store_with(codes: &[&str]) -> ShortlinkStore {
    let mut store = ShortlinkStore::new();
    for code in codes {
        store.insert(NewShortlink {
            hash: code.to_string(),
            url: "https://taken.example".to_string(),
            expire_at: Timestamp { secs: 0, nanos: 0 },
        });
    }
    store
}

#[test]
fn bump_advances_last_character() {
    assert_eq!(bump_last_char(&"abcA".to_string()), "abcB");
    assert_eq!(bump_last_char(&"x9".to_string()), "x:");
    assert_eq!(bump_last_char(&"z".to_string()), "{");
    assert_eq!(bump_last_char(&"".to_string()), "");
}

#[test]
fn initial_candidate_ends_in_a() {
    let c = initial_candidate("https://example.com", "example", 9);
    assert_eq!(c, "6Xldem53A");
    assert_eq!(initial_candidate("https://example.com", "example", 1), "A");
}

#[test]
fn reserve_returns_first_when_free() {
    let store = store_with(&["zzzA"]);
    assert_eq!(reserve_code(&store, "abcA".to_string(), 4), Ok("abcA".to_string()));
}

#[test]
fn reserve_skips_taken_candidates() {
    let store = store_with(&["abcA", "abcB"]);
    let code = reserve_code(&store, "abcA".to_string(), 4).unwrap();
    assert_eq!(code, "abcC");
    assert!(!store.contains(&code));
}

#[test]
fn reserve_exhausts_budget_when_all_taken() {
    let store = store_with(&["abcA", "abcB", "abcC", "abcD"]);
    assert_eq!(
        reserve_code(&store, "abcA".to_string(), 4),
        Err(ResolveError::RetryBudgetExhausted { attempts: 4 })
    );
    assert_eq!(reserve_code(&store, "abcA".to_string(), 5), Ok("abcE".to_string()));
}

#[test]
fn reserve_with_zero_budget_fails() {
    let store = ShortlinkStore::new();
    assert_eq!(
        reserve_code(&store, "abcA".to_string(), 0),
        Err(ResolveError::RetryBudgetExhausted { attempts: 0 })
    );
}

#[test]
fn resolver_steps_through_candidates() {
    let mut r = Resolver::new("abcA".to_string(), 2);
    assert!(matches!(r.first_step(), Step::Probe(ref c) if c == "abcA"));
    assert!(matches!(r.on_lookup(true), Step::Probe(ref c) if c == "abcB"));
    assert!(matches!(r.on_lookup(true), Step::Exhausted(2)));
    assert_eq!(r.attempts, 2);

    let mut r = Resolver::new("abcA".to_string(), 2);
    assert!(matches!(r.on_lookup(true), Step::Probe(ref c) if c == "abcB"));
    assert!(matches!(r.on_lookup(false), Step::Reserved(ref c) if c == "abcB"));
}

#[test]
fn resolver_with_zero_budget_is_exhausted_at_once() {
    let r = Resolver::new("abcA".to_string(), 0);
    assert!(matches!(r.first_step(), Step::Exhausted(0)));
}
