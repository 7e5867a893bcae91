use seogi::domain::error::DomainError;
use seogi::domain::value::{Ms, SessionId, Timestamp};

#[test]
fn session_id_creation_and_display() {
    let sid = SessionId::new("sess-abc");
    assert_eq!(sid.as_str(), "sess-abc");
    assert_eq!(sid.to_string(), "sess-abc");
    assert_eq!(sid.clone(), sid);
}

#[test]
fn timestamp_creation_and_value() {
    let ts = Timestamp::new(1_713_000_000_000);
    assert_eq!(ts.value(), 1_713_000_000_000);
    assert_eq!(ts.to_string(), "1713000000000");
    assert_eq!(ts, ts);
}

#[test]
fn timestamp_now_is_positive() {
    let ts = Timestamp::now();
    assert!(ts.value() > 0);
}

#[test]
fn ms_creation_and_display() {
    let d = Ms::new(150);
    assert_eq!(d.value(), 150);
    assert_eq!(d.to_string(), "150ms");

    let zero = Ms::zero();
    assert_eq!(zero.value(), 0);
}

#[test]
fn test_domain_error_validation_display() {
    let err = DomainError::Validation("prefix must not be empty".to_string());
    assert_eq!(
        err.to_string(),
        "Validation error: prefix must not be empty"
    );
}

// Own cases.

#[test]
fn negative_values_display_with_sign() {
    assert_eq!(Timestamp::new(-5).to_string(), "-5");
    assert_eq!(Ms::new(-150).to_string(), "-150ms");
    assert_eq!(Ms::new(i64::MIN).to_string(), "-9223372036854775808ms");
}

#[test]
fn session_id_from_string_keeps_text() {
    let sid = SessionId::from_string("s-1".to_string());
    assert_eq!(sid.as_str(), "s-1");
}
