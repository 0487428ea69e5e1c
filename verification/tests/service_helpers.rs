use openhome::adguard::{basic_auth_header, normalize_service_host, pause_duration_ms};
use openhome::auth::{authorize_bearer, ApiKey};
use openhome::config::ApiConfig;
use openhome::error::AppError;
use openhome::feed::{
    check_addrs_global, check_feed_size, check_feed_url, feed_not_found_error, is_global_ip,
    item_description, item_guid, summarize_refresh, FeedResult, HostIp,
};
use openhome::session::classify_biometric_error;
use openhome::greet::greet;
use openhome::health::health_status;
use openhome::numstr::{i64_to_dec, parse_i64, u64_to_dec};
use openhome::timeline::{
    before_id_error, build_timeline_query, clamp_timeline_limit, item_not_found_error,
    TimelineView,
};

#[test]
fn test_authorize_bearer_decides_exact_key() {
    let key = ApiKey::new("test-api-key".to_string());
    assert!(authorize_bearer(Some("Bearer test-api-key"), &key));
    assert!(!authorize_bearer(Some("Bearer wrong-api-key"), &key));
    assert!(!authorize_bearer(Some("Basic test-api-key"), &key));
    assert!(!authorize_bearer(Some("test-api-key"), &key));
    assert!(!authorize_bearer(None, &key));
    assert!(!authorize_bearer(Some("Bearer test-api-ke"), &key));
    assert!(!authorize_bearer(Some("Bearer test-api-keyy"), &key));
}

#[test]
fn test_api_key_accessors() {
    let key = ApiKey::new("abc".to_string());
    assert_eq!(key.as_str(), "abc");
    assert_eq!(key.len(), 3);
    assert!(!key.is_empty());
    assert!(ApiKey::new(String::new()).is_empty());
}

#[test]
fn test_basic_auth_header_encodes_credentials() {
    assert_eq!(basic_auth_header("test", "test"), "Basic dGVzdDp0ZXN0");
}

#[test]
fn test_new_strips_trailing_slash() {
    assert_eq!(normalize_service_host("http://localhost:3000/"), "http://localhost:3000");
    assert_eq!(normalize_service_host("http://localhost:3000"), "http://localhost:3000");
}

#[test]
fn test_pause_duration_bounds() {
    assert_eq!(
        pause_duration_ms(0).unwrap_err(),
        "minutes must be between 1 and 1440".to_string()
    );
    assert_eq!(
        pause_duration_ms(1441).unwrap_err(),
        "minutes must be between 1 and 1440".to_string()
    );
    assert_eq!(pause_duration_ms(1).unwrap(), 60_000);
    assert_eq!(pause_duration_ms(5).unwrap(), 300_000);
    assert_eq!(pause_duration_ms(1440).unwrap(), 86_400_000);
}

#[test]
fn test_check_feed_url_screens_inputs() {
    assert!(check_feed_url("https://example.com/feed.xml").is_none());
    assert_eq!(
        check_feed_url("http://example.com/feed.xml").as_deref(),
        Some("URL must use HTTPS scheme")
    );
    assert_eq!(
        check_feed_url("https://user@example.com/feed.xml").as_deref(),
        Some("URL must not contain userinfo")
    );
    assert_eq!(
        check_feed_url("https://user:pw@example.com/feed.xml").as_deref(),
        Some("URL must not contain userinfo")
    );
    let invalid = check_feed_url("not-a-valid-url").unwrap();
    assert_eq!(invalid, "Invalid URL: relative URL without a base");
}

#[test]
fn test_is_global_ip_cases() {
    assert!(is_global_ip(&HostIp::V4(8, 8, 8, 8)));
    assert!(!is_global_ip(&HostIp::V4(10, 0, 0, 1)));
    assert!(!is_global_ip(&HostIp::V4(172, 20, 1, 1)));
    assert!(is_global_ip(&HostIp::V4(172, 32, 1, 1)));
    assert!(!is_global_ip(&HostIp::V4(192, 168, 1, 1)));
    assert!(!is_global_ip(&HostIp::V4(127, 0, 0, 1)));
    assert!(!is_global_ip(&HostIp::V4(169, 254, 0, 5)));
    assert!(!is_global_ip(&HostIp::V4(224, 0, 0, 1)));
    assert!(!is_global_ip(&HostIp::V4(0, 0, 0, 0)));
    assert!(is_global_ip(&HostIp::V6(0x2607, 0xf8b0, 0, 0, 0, 0, 0, 0x200e)));
    assert!(!is_global_ip(&HostIp::V6(0, 0, 0, 0, 0, 0, 0, 1)));
    assert!(!is_global_ip(&HostIp::V6(0, 0, 0, 0, 0, 0, 0, 0)));
    assert!(!is_global_ip(&HostIp::V6(0xfe80, 0, 0, 0, 0, 0, 0, 1)));
    assert!(!is_global_ip(&HostIp::V6(0xfd12, 0, 0, 0, 0, 0, 0, 1)));
    assert!(!is_global_ip(&HostIp::V6(0xff02, 0, 0, 0, 0, 0, 0, 1)));
}

#[test]
fn test_check_addrs_global_refuses_any_private() {
    let good = vec![HostIp::V4(8, 8, 8, 8), HostIp::V4(1, 1, 1, 1)];
    assert!(check_addrs_global(&good).is_none());
    let mixed = vec![HostIp::V4(8, 8, 8, 8), HostIp::V4(127, 0, 0, 1)];
    assert_eq!(
        check_addrs_global(&mixed).as_deref(),
        Some("refusing to fetch non-global address")
    );
    assert!(check_addrs_global(&Vec::new()).is_none());
}

#[test]
fn test_check_feed_size_caps_bodies() {
    assert!(check_feed_size(0).is_none());
    assert!(check_feed_size(2 * 1024 * 1024).is_none());
    assert_eq!(
        check_feed_size(2 * 1024 * 1024 + 1).as_deref(),
        Some("Feed too large: 2097153 bytes (max 2097152)")
    );
}

#[test]
fn test_item_identity_and_description() {
    assert_eq!(item_guid("guid-1", "https://example.com/item/1"), "guid-1");
    assert_eq!(item_guid("", "https://example.com/item/1"), "https://example.com/item/1");
    assert_eq!(
        item_description(Some("body".to_string()), Some("summary".to_string())),
        Some("body".to_string())
    );
    assert_eq!(item_description(None, Some("summary".to_string())), Some("summary".to_string()));
    assert_eq!(item_description(None, None), None);
}

#[test]
fn test_feed_not_found_error_message() {
    assert_eq!(feed_not_found_error(99999), "Feed with id 99999 not found");
}

#[test]
fn test_summarize_refresh_aggregates() {
    let results = vec![
        FeedResult {
            feed_id: 1,
            url: "https://example.com/feed1.xml".to_string(),
            items_inserted: 3,
            duplicates_skipped: 1,
            error: None,
        },
        FeedResult {
            feed_id: 2,
            url: "https://example.com/feed2.xml".to_string(),
            items_inserted: 0,
            duplicates_skipped: 0,
            error: Some("HTTP error: 404".to_string()),
        },
        FeedResult {
            feed_id: 3,
            url: "https://example.com/feed3.xml".to_string(),
            items_inserted: 2,
            duplicates_skipped: 4,
            error: None,
        },
    ];
    let summary = summarize_refresh(&results);
    assert_eq!(summary.feeds_processed, 3);
    assert_eq!(summary.items_inserted, 5);
    assert_eq!(summary.duplicates_skipped, 5);
    assert_eq!(summary.errors.len(), 1);
    assert_eq!(summary.errors[0].feed_id, 2);
    assert_eq!(summary.errors[0].url, "https://example.com/feed2.xml");
    assert_eq!(summary.errors[0].error, "HTTP error: 404");
}

#[test]
fn test_classify_biometric_error() {
    assert_eq!(
        classify_biometric_error("User Cancelled the prompt"),
        AppError::BiometricCancelled
    );
    assert_eq!(
        classify_biometric_error("Biometrics Not Available on device"),
        AppError::BiometricUnavailable("Biometrics Not Available on device".to_string())
    );
    assert_eq!(
        classify_biometric_error("No biometric hardware"),
        AppError::BiometricUnavailable("No biometric hardware".to_string())
    );
    assert_eq!(classify_biometric_error("sensor failure"), AppError::BiometricFailed);
}

#[test]
fn test_health_status_is_ok() {
    assert_eq!(health_status().status, "ok");
}

#[test]
fn test_api_config_sanitize() {
    let good = ApiConfig { base_url: "http://localhost:8080".to_string(), timeout_seconds: 30 };
    let out = good.sanitize().unwrap();
    assert_eq!(out.base_url, "http://localhost:8080");
    assert_eq!(out.timeout_seconds, 30);

    let blank = ApiConfig { base_url: "   ".to_string(), timeout_seconds: 30 };
    assert_eq!(blank.sanitize().unwrap_err(), "API base URL cannot be empty");

    let zero = ApiConfig { base_url: "http://localhost".to_string(), timeout_seconds: 0 };
    assert_eq!(zero.sanitize().unwrap_err(), "Timeout seconds must be greater than zero");
}

#[test]
fn test_greet_validates_name() {
    assert_eq!(greet("  Ada  ").unwrap(), "Hello, Ada! You've been greeted from Rust!");
    assert_eq!(greet("   ").unwrap_err(), "Name cannot be empty");
    let long = "x".repeat(101);
    assert_eq!(greet(&long).unwrap_err(), "Name is too long");
    assert!(greet(&"x".repeat(100)).is_ok());
}

#[test]
fn test_parse_i64_matches_std() {
    for s in [
        "0",
        "42",
        "-42",
        "+7",
        "9223372036854775807",
        "-9223372036854775808",
        "9223372036854775808",
        "-9223372036854775809",
        "00000000000000000000042",
        "",
        "-",
        "+",
        "1x",
        " 1",
    ] {
        assert_eq!(parse_i64(s), s.parse::<i64>().ok(), "mismatch on {:?}", s);
    }
}

#[test]
fn test_decimal_rendering() {
    assert_eq!(u64_to_dec(0), "0");
    assert_eq!(u64_to_dec(18446744073709551615), "18446744073709551615");
    assert_eq!(i64_to_dec(-1), "-1");
    assert_eq!(i64_to_dec(i64::MIN), "-9223372036854775808");
    assert_eq!(i64_to_dec(i64::MAX), "9223372036854775807");
}

#[test]
fn test_timeline_view_from_query() {
    assert_eq!(TimelineView::from_query(&Some("compact".to_string())), TimelineView::Compact);
    assert_eq!(TimelineView::from_query(&Some("full".to_string())), TimelineView::Full);
    assert_eq!(TimelineView::from_query(&None), TimelineView::Full);
}

#[test]
fn test_clamp_timeline_limit() {
    assert_eq!(clamp_timeline_limit(None), 50);
    assert_eq!(clamp_timeline_limit(Some(0)), 1);
    assert_eq!(clamp_timeline_limit(Some(-5)), 1);
    assert_eq!(clamp_timeline_limit(Some(120)), 120);
    assert_eq!(clamp_timeline_limit(Some(300)), 200);
}

#[test]
fn test_build_timeline_query_shapes() {
    let q = build_timeline_query(TimelineView::Full, false, false);
    assert!(q.contains("f.title as feed_title"));
    assert!(q.contains("JOIN feeds f ON f.id = fi.feed_id"));
    assert!(q.contains("1 = 1"));
    assert!(q.contains("LIMIT ?"));
    assert!(!q.contains("WITH cursor"));

    let q = build_timeline_query(TimelineView::Compact, true, false);
    assert!(!q.contains("feed_title"));
    assert!(q.contains("fi.read_at IS NULL"));

    let q = build_timeline_query(TimelineView::Compact, false, true);
    assert!(q.contains("WITH cursor AS ("));
    assert!(q.contains("LIMIT ?2"));
    assert!(q.contains("fi.pub_date < cursor.pub_date"));

    let q = build_timeline_query(TimelineView::Full, true, true);
    assert!(q.contains("fi.read_at IS NULL"));
    assert!(q.contains("WITH cursor AS ("));
}

#[test]
fn test_error_messages_embed_ids() {
    assert_eq!(before_id_error(9999), "before_id 9999 does not exist");
    assert_eq!(item_not_found_error(99999), "Item with id 99999 not found or already read");
}
