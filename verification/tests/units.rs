use shortener::cache::Entry;
use shortener::cache::TokenCache;
use shortener::errors::ServiceError;
use shortener::errors::erase_err;
use shortener::paths::Registration;
use shortener::token::generate_token;

#[test]
fn generated_tokens_are_eight_lowercase_alphanumerics() {
    for _ in 0..50 {
        let token = generate_token();
        assert_eq!(token.len(), 8);
        assert!(token
            .chars()
            .all(|c| c.is_ascii_lowercase() || c.is_ascii_digit()));
    }
}

#[test]
fn entry_from_registration_starts_drained() {
    let entry = Entry::from(Registration {
        target: "https://example.com".to_string(),
    });
    assert_eq!(entry.target, "https://example.com");
    assert_eq!(entry.hits, 0);
}

#[test]
fn erase_err_reports_a_configuration_error() {
    let e = erase_err("the port variable did not parse");
    assert_eq!(e, ServiceError::ConfigurationError);
    assert_eq!(e.status(), 500);
    assert_eq!(erase_err(7_u32), ServiceError::ConfigurationError);
}

#[test]
fn error_statuses() {
    assert_eq!(ServiceError::NotFound.status(), 404);
    assert_eq!(ServiceError::Conflict.status(), 500);
    assert_eq!(ServiceError::StorageFailure.status(), 500);
    assert_eq!(ServiceError::ConfigurationError.status(), 500);
}

#[test]
fn empty_cache_has_nothing_to_flush() {
    let cache = TokenCache::new();
    assert_eq!(cache.len(), 0);
    assert!(!cache.contains(&"anything".to_string()));
}
