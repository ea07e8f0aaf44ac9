use bridge::pairing::{
    generate_pairing_code, PairingError, PairingErrorResponse, PairingManager, MAX_FAILED_ATTEMPTS,
    PAIRING_TTL_MILLIS,
};

fn manager(fp: Option<&str>) -> PairingManager {
    PairingManager::new(
        "wss://192.168.1.100:8080".to_string(),
        "test-token".to_string(),
        fp.map(|s| s.to_string()),
    )
}

#[test]
fn test_code_generation() {
    let code = generate_pairing_code();
    assert_eq!(code.len(), 6);
    assert!(code.chars().all(|c| c.is_ascii_digit()));
}

#[test]
fn test_pairing_manager_valid_code() {
    let mut manager = manager(Some("SHA256:ABC123"));
    let code = manager.get_code().to_string();
    let result = manager.validate(&code);
    assert!(result.is_ok());

    let response = result.unwrap();
    assert_eq!(response.url, "wss://192.168.1.100:8080");
    assert_eq!(response.auth_token, "test-token");
}

#[test]
fn test_pairing_manager_invalid_code() {
    let mut manager = manager(None);
    let result = manager.validate("000000");
    assert!(matches!(result, Err(PairingError::InvalidCode)));
}

#[test]
fn test_pairing_manager_one_time_use() {
    let mut manager = manager(None);
    let code = manager.get_code().to_string();
    assert!(manager.validate(&code).is_ok());
    let result = manager.validate(&code);
    assert!(matches!(result, Err(PairingError::CodeAlreadyUsed)));
}

#[test]
fn test_pairing_manager_rate_limiting() {
    let mut manager = manager(None);
    for _ in 0..5 {
        let _ = manager.validate("000000");
    }
    let result = manager.validate("000000");
    assert!(matches!(result, Err(PairingError::RateLimited)));
}

#[test]
fn test_pairing_url_generation() {
    let manager = manager(Some("SHA256:ABC123"));
    let url = manager.get_pairing_url("https://192.168.1.100:8080");
    assert!(url.starts_with("https://192.168.1.100:8080/pair/local?code="));
    assert!(url.contains("&fp=SHA256"));
}

#[test]
fn pairing_url_is_exact_and_encodes_the_fingerprint() {
    let manager = manager(Some("SHA256:AB CD/é"));
    let code = manager.get_code().to_string();
    let url = manager.get_pairing_url("https://h:1");
    assert_eq!(url, format!("https://h:1/pair/local?code={}&fp=SHA256%3AAB%20CD%2F%C3%A9", code));
}

#[test]
fn pairing_url_without_fingerprint_has_no_fp() {
    let manager = manager(None);
    let url = manager.get_pairing_url("http://h");
    assert_eq!(url, format!("http://h/pair/local?code={}", manager.get_code()));
}

#[test]
fn pairing_one_shot_after_four_failures() {
    let mut manager = manager(None);
    let code = manager.get_code().to_string();
    let wrong = if code == "000000" { "111111" } else { "000000" };
    for _ in 0..4 {
        assert_eq!(manager.validate_at(wrong, 0).unwrap_err(), PairingError::InvalidCode);
    }
    let payload = manager.validate_at(&code, 0).unwrap();
    assert_eq!(payload.protocol, "acp");
    assert_eq!(payload.version, "1.0");
    assert_eq!(manager.validate_at(&code, 0).unwrap_err(), PairingError::CodeAlreadyUsed);
    assert!(manager.is_used());
}

#[test]
fn pairing_rate_limit_whatever_the_code() {
    let mut manager = manager(None);
    let code = manager.get_code().to_string();
    for _ in 0..MAX_FAILED_ATTEMPTS {
        assert_eq!(manager.validate_at("abc", 0).unwrap_err(), PairingError::InvalidCode);
    }
    assert_eq!(manager.validate_at("000000", 0).unwrap_err(), PairingError::RateLimited);
    assert_eq!(manager.validate_at(&code, 0).unwrap_err(), PairingError::RateLimited);
    assert!(!manager.is_used());
}

#[test]
fn expired_ticket_refuses_the_right_code_without_counting() {
    let mut manager = manager(None);
    let code = manager.get_code().to_string();
    for _ in 0..6 {
        assert_eq!(manager.validate_at(&code, PAIRING_TTL_MILLIS + 1).unwrap_err(), PairingError::InvalidCode);
    }
    assert!(manager.validate_at(&code, PAIRING_TTL_MILLIS).is_ok());
}

#[test]
fn seconds_remaining_and_expiry() {
    let manager = manager(None);
    assert_eq!(manager.seconds_remaining_at(0), 60);
    assert_eq!(manager.seconds_remaining_at(59_001), 0);
    assert_eq!(manager.seconds_remaining_at(30_500), 29);
    assert_eq!(manager.seconds_remaining_at(70_000), 0);
    assert!(!manager.is_expired_at(60_000));
    assert!(manager.is_expired_at(60_001));
    assert!(!manager.is_expired());
    assert!(manager.seconds_remaining() <= 60);
}

#[test]
fn payload_carries_tunnel_credentials() {
    let mut manager = PairingManager::new_with_cf(
        "wss://a.example".to_string(),
        "tok".to_string(),
        None,
        Some("id".to_string()),
        Some("secret".to_string()),
    );
    let code = manager.get_code().to_string();
    let p = manager.validate(&code).unwrap();
    assert_eq!(p.client_id.as_deref(), Some("id"));
    assert_eq!(p.client_secret.as_deref(), Some("secret"));
    assert_eq!(p.cert_fingerprint, None);
    assert_eq!(manager.get_cert_fingerprint(), None);
}

#[test]
fn error_bodies_and_messages() {
    let e = PairingErrorResponse::invalid_code();
    assert_eq!(e.error, "invalid_code");
    assert_eq!(e.message, "Pairing code is invalid or expired");
    let r = PairingErrorResponse::rate_limited();
    assert_eq!(r.error, "rate_limited");
    assert_eq!(
        PairingError::RateLimited.message(),
        "Too many failed attempts. Please restart the bridge to get a new code."
    );
    assert_eq!(PairingError::CodeAlreadyUsed.message(), "Pairing code has already been used");
}
