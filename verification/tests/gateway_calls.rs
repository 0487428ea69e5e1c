use openhome::error::AppError;
use openhome::gateway::{
    interpret_response, is_path_safe, parse_method, validate_base_url, validate_call, HttpMethod,
};
use openhome::session::{ApiKeyStatus, VaultSession};

#[test]
fn test_is_path_safe_valid_paths() {
    assert!(is_path_safe("api/timeline"));
    assert!(is_path_safe("api/feed/items"));
    assert!(is_path_safe("api/v1/users/123"));
}

#[test]
fn test_is_path_safe_invalid_paths() {
    assert!(!is_path_safe("../etc/passwd"));
    assert!(!is_path_safe("api/../../secret"));
    assert!(!is_path_safe("api\\windows\\path"));
    assert!(!is_path_safe("file:///etc/passwd"));
    assert!(!is_path_safe("data:text/plain,malicious"));
    assert!(!is_path_safe("api/%2e%2e/etc"));
    assert!(!is_path_safe("api/.."));
}

#[test]
fn test_validate_base_url_valid() {
    assert!(validate_base_url("http://localhost:8080").is_ok());
    assert!(validate_base_url("https://api.example.com").is_ok());
    assert!(validate_base_url("http://192.168.1.1:3000").is_ok());
}

#[test]
fn test_validate_base_url_invalid() {
    assert!(validate_base_url("ftp://example.com").is_err());
    assert!(validate_base_url("file:///path").is_err());
    assert!(validate_base_url("invalid-url").is_err());
}

#[test]
fn test_validate_base_url_strips_trailing_slash() {
    assert_eq!(validate_base_url("http://localhost:8080/").unwrap(), "http://localhost:8080");
}

#[test]
fn test_parse_method_cases() {
    assert_eq!(parse_method("GET"), Some(HttpMethod::Get));
    assert_eq!(parse_method("get"), Some(HttpMethod::Get));
    assert_eq!(parse_method("Post"), Some(HttpMethod::Post));
    assert_eq!(parse_method("delete"), Some(HttpMethod::Delete));
    assert_eq!(parse_method("PUT"), None);
    assert_eq!(parse_method("PATCH"), None);
    assert_eq!(parse_method(""), None);
}

fn cached(secret: &str) -> Option<String> {
    Some(secret.to_string())
}

#[test]
fn test_call_with_put_fails_unsupported_method() {
    let key = cached("tok-A");
    let r = validate_call("PUT", "api/health", 30, "http://localhost:8080", None, key.as_ref(), false);
    assert_eq!(
        r.unwrap_err(),
        AppError::Config("Only GET, POST, and DELETE are allowed".to_string())
    );
}

#[test]
fn test_call_timeout_bounds() {
    let key = cached("tok-A");
    let base = "http://localhost:8080";
    let err = |t: u64| {
        validate_call("GET", "api/health", t, base, None, key.as_ref(), false).unwrap_err()
    };
    assert_eq!(err(0), AppError::Config("Timeout must be between 1 and 300 seconds".to_string()));
    assert_eq!(err(301), AppError::Config("Timeout must be between 1 and 300 seconds".to_string()));
    assert!(validate_call("GET", "api/health", 1, base, None, key.as_ref(), false).is_ok());
    assert!(validate_call("GET", "api/health", 300, base, None, key.as_ref(), false).is_ok());
}

#[test]
fn test_call_rejects_unsafe_and_foreign_paths() {
    let key = cached("tok-A");
    let base = "http://localhost:8080";
    assert_eq!(
        validate_call("GET", "api/../../secret", 30, base, None, key.as_ref(), false).unwrap_err(),
        AppError::Config("Invalid path".to_string())
    );
    assert_eq!(
        validate_call("GET", "status/health", 30, base, None, key.as_ref(), false).unwrap_err(),
        AppError::Config("Path must start with /api/".to_string())
    );
}

#[test]
fn test_call_rejects_bad_base_urls() {
    let key = cached("tok-A");
    assert_eq!(
        validate_call("GET", "api/health", 30, "   ", None, key.as_ref(), false).unwrap_err(),
        AppError::Config("Base URL cannot be empty".to_string())
    );
    assert_eq!(
        validate_call("GET", "api/health", 30, "not a url", None, key.as_ref(), false).unwrap_err(),
        AppError::Config("Invalid base URL".to_string())
    );
    assert_eq!(
        validate_call("GET", "api/health", 30, "ftp://example.com", None, key.as_ref(), false)
            .unwrap_err(),
        AppError::Config("Base URL must use http or https scheme".to_string())
    );
}

#[test]
fn test_call_without_secret_fails_missing_secret() {
    let r = validate_call("GET", "api/health", 30, "http://localhost:8080", None, None, false);
    assert_eq!(r.unwrap_err(), AppError::MissingApiKey);
}

#[test]
fn test_call_builds_prepared_request() {
    let key = cached("tok-A");
    let r = validate_call(
        "get",
        "/api/health",
        30,
        "http://localhost:8080/",
        None,
        key.as_ref(),
        false,
    )
    .unwrap();
    assert_eq!(r.method, HttpMethod::Get);
    assert_eq!(r.base_url, "http://localhost:8080");
    assert_eq!(r.path, "api/health");
    assert_eq!(r.bearer, "tok-A");
    assert_eq!(r.timeout_seconds, 30);
}

#[test]
fn test_override_only_in_development_and_without_cache() {
    let base = "http://localhost:8080";
    let cached_key = cached("tok-A");

    // Honored: development configuration, nothing cached.
    let r = validate_call("GET", "api/health", 30, base, Some("tok-B"), None, true).unwrap();
    assert_eq!(r.bearer, "tok-B");

    // Never shadows an unlocked secret.
    let r = validate_call("GET", "api/health", 30, base, Some("tok-B"), cached_key.as_ref(), true)
        .unwrap();
    assert_eq!(r.bearer, "tok-A");

    // Ignored outside development.
    let r = validate_call("GET", "api/health", 30, base, Some("tok-B"), None, false);
    assert_eq!(r.unwrap_err(), AppError::MissingApiKey);

    // A blank override never authenticates.
    let r = validate_call("GET", "api/health", 30, base, Some("   "), None, true);
    assert_eq!(r.unwrap_err(), AppError::MissingApiKey);
}

#[test]
fn test_interpret_response_distinguishes_rejection() {
    assert_eq!(
        interpret_response(401, "denied".to_string()).unwrap_err(),
        AppError::ApiKeyRejected
    );
    let ok = interpret_response(503, "busy".to_string()).unwrap();
    assert_eq!(ok.status, 503);
    assert_eq!(ok.body, "busy");
}

#[test]
fn test_end_to_end_credential_rejection_flow() {
    // set-secret("tok-A") caches the secret: status is Unlocked.
    let mut session = VaultSession::new();
    session.store_secret("tok-A".to_string(), 1_000);
    let persisted = true;
    assert!(matches!(session.status(persisted), ApiKeyStatus::Unlocked));

    // call("api/health", GET) passes validation and carries bearer tok-A.
    let cached_secret = session.cached_secret();
    let prepared = validate_call(
        "GET",
        "api/health",
        30,
        "http://localhost:8080",
        None,
        cached_secret.as_ref(),
        false,
    )
    .unwrap();
    assert_eq!(prepared.bearer, "tok-A");

    // The server answers 401: the caller observes the distinct rejection.
    let outcome = interpret_response(401, String::new());
    assert_eq!(outcome.unwrap_err(), AppError::ApiKeyRejected);

    // After invalidation the status is Locked, and a call without
    // re-unlock fails for want of a secret.
    session.clear_cache();
    assert!(matches!(session.status(persisted), ApiKeyStatus::Locked));
    let cached_secret = session.cached_secret();
    let retry = validate_call(
        "GET",
        "api/health",
        30,
        "http://localhost:8080",
        None,
        cached_secret.as_ref(),
        false,
    );
    assert_eq!(retry.unwrap_err(), AppError::MissingApiKey);
}
