use ai_engine_core::security::{detect_memory_scraping, SecureCredentialManager, SecurityEventType, ThreatModel};

#[test]
fn test_threat_model_rate_limiting() {
    let mut threat_model = ThreatModel::new();
    let requester = "test_requester";

    // First few attempts should succeed
    for _ in 0..5 {
        assert!(threat_model.validate_access(requester).is_ok());
    }

    // Next attempt should fail due to rate limiting
    assert!(threat_model.validate_access(requester).is_err());
}

#[test]
fn test_memory_scraping_detection() {
    // Test suspicious keywords
    assert!(detect_memory_scraping("rapid access pattern", None));
    assert!(detect_memory_scraping("bulk data access", None));
    assert!(detect_memory_scraping("DUMP credentials", None));

    // Test high frequency access
    assert!(detect_memory_scraping("normal request", Some(15)));

    // Test repeated patterns
    assert!(detect_memory_scraping("aaaaaaaaaaaaa", None));

    // Test normal access
    assert!(!detect_memory_scraping("normal access", Some(1)));
    assert!(!detect_memory_scraping("legitimate request", None));
}

#[test]
fn rate_limit_window_forgets_old_attempts() {
    let mut tm = ThreatModel::new();
    for t in 0..5u64 {
        assert!(tm.validate_access_at("caller", t).is_ok());
    }
    assert!(tm.validate_access_at("caller", 5).is_err());
    // Five minutes later the old attempts no longer count.
    assert!(tm.validate_access_at("caller", 400000).is_ok());
}

#[test]
fn invalid_requesters_are_refused_and_logged() {
    let mut tm = ThreatModel::new();
    assert!(tm.validate_access("").is_err());
    let long = "x".repeat(257);
    assert!(tm.validate_access(&long).is_err());
    let audit = tm.get_security_audit();
    assert_eq!(audit.len(), 2);
    assert_eq!(audit[0].event_type, SecurityEventType::InvalidRequest);
    assert_eq!(audit[0].details, "Invalid requester identifier");
}

#[test]
fn security_events_are_recorded_in_order() {
    let mut tm = ThreatModel::new();
    tm.log_security_event(
        SecurityEventType::CredentialAccess,
        "Credentials stored".to_string(),
        "credential_manager".to_string(),
    );
    tm.log_security_event(
        SecurityEventType::SuspiciousPattern,
        "odd pattern".to_string(),
        "monitor".to_string(),
    );
    let audit = tm.get_security_audit();
    assert_eq!(audit.len(), 2);
    assert_eq!(audit[0].event_type, SecurityEventType::CredentialAccess);
    assert_eq!(audit[1].event_type, SecurityEventType::SuspiciousPattern);
    assert_eq!(audit[1].source, "monitor");
}

#[test]
fn password_rules_accept_and_refuse_exactly() {
    let mut mgr = SecureCredentialManager::new();
    assert!(mgr.validate_credential_security("longenough1234").is_ok());
    assert!(mgr.validate_credential_security("short1").is_err());
    let too_long = "a".repeat(1025);
    assert!(mgr.validate_credential_security(&too_long).is_err());
    assert!(mgr.validate_credential_security("nul\0byte-pass").is_err());
    assert!(mgr.validate_credential_security("ctrl\u{1}char-pass").is_err());
    assert!(mgr.validate_credential_security("tab\tis\tfine-12").is_ok());
}

#[test]
fn weak_passwords_pass_with_a_warning() {
    let mut mgr = SecureCredentialManager::new();
    assert!(mgr.validate_credential_security("nodigitshere").is_ok());
    let audit = mgr.security_audit();
    assert_eq!(audit.len(), 1);
    assert_eq!(audit[0].event_type, SecurityEventType::SuspiciousPattern);
    assert_eq!(audit[0].details, "Weak password detected");

    // A long password with a digit raises no warning.
    assert!(mgr.validate_credential_security("long-enough-pass-7").is_ok());
    assert_eq!(mgr.security_audit().len(), 1);
}

#[test]
fn connection_hash_is_deterministic_sha256_base64() {
    let mgr = SecureCredentialManager::new();
    // SHA-256 of the empty string, base64-encoded.
    assert_eq!(
        mgr.generate_connection_hash(""),
        "47DEQpj8HBSa+/TImW+5JCeuQeRkm5NMpJWZG3hSuFU="
    );
    assert_eq!(
        mgr.generate_connection_hash("abc"),
        "ungWv48Bz+pBQUDeXa4iI7ADYaOWF3qctBD/YfIAFa0="
    );
    assert_eq!(mgr.generate_connection_hash("abc"), mgr.generate_connection_hash("abc"));
}

#[test]
fn threat_model_is_reachable_from_the_manager() {
    let mgr = SecureCredentialManager::new();
    assert_eq!(mgr.get_threat_model().get_security_audit().len(), 0);
}
