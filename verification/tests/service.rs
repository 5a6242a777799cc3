use shortener::cache::StoreAppend;
use shortener::cache::TokenCache;
use shortener::errors::ServiceError;
use shortener::paths::LookupResult;
use shortener::paths::RedirectOutcome;
use shortener::paths::StoreWrite;
use shortener::paths::check_token;
use shortener::paths::redirect_cached;
use shortener::paths::redirect_resolve;
use shortener::paths::register_finish;
use shortener::paths::register_prepare;
use shortener::paths::registration_status;

fn registered(token: &str, target: &str) -> TokenCache {
    let mut cache = TokenCache::new();
    let r = register_finish(
        &mut cache,
        token.to_string(),
        target.to_string(),
        StoreWrite::Persisted,
    );
    assert!(r.is_ok());
    cache
}

#[test]
fn unregistered_token_is_not_found() {
    let mut cache = TokenCache::new();
    let token = "nosuchtk".to_string();
    assert!(redirect_cached(&mut cache, &token).is_none());
    let outcome = redirect_resolve(&mut cache, &token, LookupResult::Absent);
    assert!(matches!(outcome, RedirectOutcome::NotFound));
    assert_eq!(outcome.status(), 404);
    assert_eq!(cache.len(), 0);
}

#[test]
fn repeated_absence_never_populates_the_cache() {
    let mut cache = TokenCache::new();
    let token = "nosuchtk".to_string();
    for _ in 0..5 {
        assert!(redirect_cached(&mut cache, &token).is_none());
        let outcome = redirect_resolve(&mut cache, &token, LookupResult::Absent);
        assert!(matches!(outcome, RedirectOutcome::NotFound));
        assert_eq!(cache.len(), 0);
        assert!(!cache.contains(&token));
    }
}

#[test]
fn register_then_redirect_returns_the_target() {
    let mut cache = TokenCache::new();
    let result = register_finish(
        &mut cache,
        "ab3k9z1q".to_string(),
        "https://example.com".to_string(),
        StoreWrite::Persisted,
    );
    assert_eq!(registration_status(&result), 201);
    let response = result.unwrap();
    assert_eq!(response.token, "ab3k9z1q");
    assert_eq!(response.target, "https://example.com");

    let outcome = redirect_cached(&mut cache, &"ab3k9z1q".to_string()).unwrap();
    assert_eq!(outcome.status(), 307);
    match outcome {
        RedirectOutcome::TemporaryRedirect(location) => {
            assert_eq!(location, "https://example.com");
        }
        _ => panic!("expected a temporary redirect"),
    }
}

#[test]
fn example_ten_hits_one_count_row() {
    let mut cache = registered("ab3k9z1q", "https://example.com");
    let token = "ab3k9z1q".to_string();
    for _ in 0..10 {
        let outcome = redirect_cached(&mut cache, &token).unwrap();
        assert_eq!(outcome.status(), 307);
    }
    let record = cache.flush_read(0).unwrap();
    assert_eq!(record.token, "ab3k9z1q");
    assert_eq!(record.target, "https://example.com");
    assert_eq!(record.count, 10);
    cache.flush_commit(0, record.count);
    assert!(cache.flush_read(0).is_none());
}

#[test]
fn distinct_tokens_redirect_independently() {
    let mut cache = registered("tokenone", "https://one.example");
    let r = register_finish(
        &mut cache,
        "tokentwo".to_string(),
        "https://two.example".to_string(),
        StoreWrite::Persisted,
    );
    assert!(r.is_ok());
    match redirect_cached(&mut cache, &"tokenone".to_string()).unwrap() {
        RedirectOutcome::TemporaryRedirect(location) => assert_eq!(location, "https://one.example"),
        _ => panic!("expected a temporary redirect"),
    }
    match redirect_cached(&mut cache, &"tokentwo".to_string()).unwrap() {
        RedirectOutcome::TemporaryRedirect(location) => assert_eq!(location, "https://two.example"),
        _ => panic!("expected a temporary redirect"),
    }
    assert_eq!(cache.len(), 2);
}

#[test]
fn flush_keeps_hits_recorded_after_the_read() {
    let mut cache = registered("busytokn", "https://example.com");
    let token = "busytokn".to_string();
    for _ in 0..5 {
        redirect_cached(&mut cache, &token).unwrap();
    }
    let record = cache.flush_read(0).unwrap();
    assert_eq!(record.count, 5);
    // Three more hits land between the read and the commit.
    for _ in 0..3 {
        redirect_cached(&mut cache, &token).unwrap();
    }
    cache.flush_commit(0, record.count);
    let residual = cache.flush_read(0).unwrap();
    assert_eq!(residual.count, 3);
}

#[test]
fn successful_append_commits_the_captured_amount() {
    let mut cache = registered("busytokn", "https://example.com");
    let token = "busytokn".to_string();
    for _ in 0..6 {
        redirect_cached(&mut cache, &token).unwrap();
    }
    let record = cache.flush_read(0).unwrap();
    assert_eq!(record.count, 6);
    let verdict = cache.flush_apply(0, record.count, StoreAppend::Appended);
    assert!(verdict.is_ok());
    assert!(cache.flush_read(0).is_none());
}

#[test]
fn failed_append_aborts_without_subtracting() {
    let mut cache = registered("busytokn", "https://example.com");
    let token = "busytokn".to_string();
    for _ in 0..6 {
        redirect_cached(&mut cache, &token).unwrap();
    }
    let record = cache.flush_read(0).unwrap();
    let verdict = cache.flush_apply(0, record.count, StoreAppend::Failed);
    assert_eq!(verdict, Err(ServiceError::StorageFailure));
    // The unflushed counter survives for a later attempt.
    let retry = cache.flush_read(0).unwrap();
    assert_eq!(retry.count, 6);
    assert_eq!(retry.token, "busytokn");
}

#[test]
fn flush_subtracts_exactly_what_was_committed() {
    let mut cache = registered("busytokn", "https://example.com");
    let token = "busytokn".to_string();
    for _ in 0..4 {
        redirect_cached(&mut cache, &token).unwrap();
    }
    cache.flush_commit(0, 3);
    let record = cache.flush_read(0).unwrap();
    assert_eq!(record.count, 1);
}

#[test]
fn resolved_miss_populates_with_one_hit() {
    let mut cache = TokenCache::new();
    let token = "lazytokn".to_string();
    assert!(redirect_cached(&mut cache, &token).is_none());
    let outcome = redirect_resolve(
        &mut cache,
        &token,
        LookupResult::Found("https://example.com".to_string()),
    );
    match outcome {
        RedirectOutcome::TemporaryRedirect(location) => {
            assert_eq!(location, "https://example.com");
        }
        _ => panic!("expected a temporary redirect"),
    }
    let record = cache.flush_read(0).unwrap();
    assert_eq!(record.token, "lazytokn");
    assert_eq!(record.count, 1);
}

#[test]
fn failed_lookup_is_an_internal_error_and_mutates_nothing() {
    let mut cache = TokenCache::new();
    let token = "sometokn".to_string();
    let outcome = redirect_resolve(&mut cache, &token, LookupResult::Failed);
    assert!(matches!(outcome, RedirectOutcome::InternalError));
    assert_eq!(outcome.status(), 500);
    assert_eq!(cache.len(), 0);
}

#[test]
fn token_collision_is_a_conflict() {
    let cache = registered("ab3k9z1q", "https://example.com");
    let verdict = check_token(&cache, &"ab3k9z1q".to_string());
    assert_eq!(verdict, Err(ServiceError::Conflict));
    assert_eq!(ServiceError::Conflict.status(), 500);
    assert!(check_token(&cache, &"fresh123".to_string()).is_ok());
}

#[test]
fn prepared_token_is_fresh_and_well_formed() {
    let cache = registered("ab3k9z1q", "https://example.com");
    let token = register_prepare(&cache).unwrap();
    assert_eq!(token.len(), 8);
    assert!(token
        .chars()
        .all(|c| c.is_ascii_lowercase() || c.is_ascii_digit()));
    assert!(!cache.contains(&token));
}

#[test]
fn failed_store_write_publishes_nothing() {
    let mut cache = TokenCache::new();
    let result = register_finish(
        &mut cache,
        "ab3k9z1q".to_string(),
        "https://example.com".to_string(),
        StoreWrite::Failed,
    );
    assert_eq!(registration_status(&result), 500);
    match result {
        Err(e) => assert_eq!(e, ServiceError::StorageFailure),
        Ok(_) => panic!("a failed write must not succeed"),
    }
    assert!(!cache.contains(&"ab3k9z1q".to_string()));
    assert_eq!(cache.len(), 0);
}

#[test]
fn overwrite_is_last_writer_wins() {
    let mut cache = TokenCache::new();
    cache.put(
        "sametokn".to_string(),
        "https://old.example".to_string(),
        0,
    );
    cache.put(
        "sametokn".to_string(),
        "https://new.example".to_string(),
        0,
    );
    assert_eq!(cache.len(), 1);
    match redirect_cached(&mut cache, &"sametokn".to_string()).unwrap() {
        RedirectOutcome::TemporaryRedirect(location) => assert_eq!(location, "https://new.example"),
        _ => panic!("expected a temporary redirect"),
    }
}
