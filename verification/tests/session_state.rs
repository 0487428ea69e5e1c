use openhome::error::AppError;
use openhome::session::{
    diagnostics_for, normalize_secret, secret_from_bytes, status_from_probe, ApiKeyStatus,
    VaultProbe, VaultSession,
};

#[test]
fn test_status_reflects_cache_and_persistence() {
    let mut session = VaultSession::new();
    assert!(matches!(session.status(false), ApiKeyStatus::NotSet));
    assert!(matches!(session.status(true), ApiKeyStatus::Locked));
    session.store_secret("tok".to_string(), 5);
    assert!(matches!(session.status(false), ApiKeyStatus::Unlocked));
    assert!(matches!(session.status(true), ApiKeyStatus::Unlocked));
}

#[test]
fn test_clear_cache_never_leaves_unlocked() {
    let mut session = VaultSession::new();
    session.store_secret("tok".to_string(), 5);
    session.clear_cache();
    assert!(matches!(session.status(true), ApiKeyStatus::Locked));
    assert!(session.cached_secret().is_none());

    let mut session = VaultSession::new();
    session.store_secret("tok".to_string(), 5);
    session.clear_cache();
    assert!(matches!(session.status(false), ApiKeyStatus::NotSet));
}

#[test]
fn test_reset_forgets_everything() {
    let mut session = VaultSession::new();
    session.store_secret("tok".to_string(), 5);
    session.reset();
    assert!(session.cached_secret().is_none());
    assert!(!session.resume_authenticated(6, 10));
}

#[test]
fn test_resume_respects_idle_timeout() {
    let mut session = VaultSession::new();
    assert!(!session.resume_authenticated(0, 5));
    session.store_secret("tok".to_string(), 60_000);
    // 4 minutes later, within a 5-minute timeout.
    assert!(session.resume_authenticated(300_000, 5));
    // Exactly at the bound the session must re-prove presence.
    assert!(!session.resume_authenticated(360_000, 5));
    assert!(!session.resume_authenticated(400_000, 5));
}

#[test]
fn test_normalize_secret_trims_and_rejects_blank() {
    assert_eq!(normalize_secret("  tok-A  ").unwrap(), "tok-A");
    assert_eq!(
        normalize_secret("   ").unwrap_err(),
        AppError::Config("API key cannot be empty".to_string())
    );
    assert_eq!(
        normalize_secret("").unwrap_err(),
        AppError::Config("API key cannot be empty".to_string())
    );
}

#[test]
fn test_secret_from_bytes_requires_utf8() {
    assert_eq!(secret_from_bytes(b"tok-A".to_vec()).unwrap(), "tok-A");
    assert_eq!(secret_from_bytes(vec![0xff, 0xfe]).unwrap_err(), AppError::MissingApiKey);
}

#[test]
fn test_diagnostics_for_each_probe_outcome() {
    let d = diagnostics_for(&VaultProbe::PathUnavailable("no data dir".to_string()));
    assert!(!d.key_present && !d.keyring_accessible);
    assert_eq!(d.error_message.as_deref(), Some("no data dir"));

    let d = diagnostics_for(&VaultProbe::FileMissing);
    assert!(!d.key_present && d.keyring_accessible);
    assert_eq!(d.error_message.as_deref(), Some("Vault file does not exist"));

    let d = diagnostics_for(&VaultProbe::OpenFailed("corrupt".to_string()));
    assert!(!d.key_present && !d.keyring_accessible);

    let d = diagnostics_for(&VaultProbe::NoEntry);
    assert!(!d.key_present && d.keyring_accessible);
    assert_eq!(d.error_message.as_deref(), Some("No API key entry found"));

    let d = diagnostics_for(&VaultProbe::Entry(17));
    assert!(d.key_present && d.keyring_accessible);
    assert_eq!(d.key_length, Some(17));
    assert!(d.error_message.is_none());
}

#[test]
fn test_status_from_probe() {
    assert!(matches!(status_from_probe(true, &VaultProbe::FileMissing), ApiKeyStatus::Unlocked));
    assert!(matches!(status_from_probe(false, &VaultProbe::Entry(5)), ApiKeyStatus::Locked));
    assert!(matches!(status_from_probe(false, &VaultProbe::NoEntry), ApiKeyStatus::NotSet));
    assert!(matches!(
        status_from_probe(false, &VaultProbe::OpenFailed("corrupt".to_string())),
        ApiKeyStatus::NotSet
    ));
}
