use chacrab::errors::ChacrabError;
use chacrab::session::{
    decode_session_key, encode_session_key, enforce_timeout, is_expired, timeout_error,
    touch_session, TimeoutDecision,
};

#[test]
fn expires_when_age_exceeds_timeout() {
    assert!(is_expired(1_000, 900, 50));
}

#[test]
fn does_not_expire_on_timeout_boundary() {
    assert!(!is_expired(1_000, 900, 100));
}

#[test]
fn does_not_expire_before_timeout() {
    assert!(!is_expired(1_000, 901, 100));
}

#[test]
fn expires_one_second_past_the_timeout() {
    assert!(!is_expired(2_000, 1_100, 900));
    assert!(is_expired(2_001, 1_100, 900));
}

#[test]
fn expiry_is_exact_at_the_ends_of_the_range() {
    assert!(is_expired(i64::MAX, i64::MIN, u64::MAX - 1));
    assert!(!is_expired(i64::MAX, i64::MIN, u64::MAX));
    assert!(!is_expired(i64::MIN, i64::MAX, 0));
    assert!(!is_expired(5, 5, 0));
    assert!(is_expired(6, 5, 0));
}

#[test]
fn session_without_mark_is_refreshed() {
    assert_eq!(enforce_timeout(&None, 1_000, 900), TimeoutDecision::Refresh);
}

#[test]
fn unreadable_mark_is_cleared() {
    let stored = Some("yesterday".to_owned());
    assert_eq!(enforce_timeout(&stored, 1_000, 900), TimeoutDecision::ClearMark);
    assert!(matches!(
        timeout_error(TimeoutDecision::ClearMark),
        Err(ChacrabError::SessionExpired)
    ));
}

#[test]
fn old_session_is_ended_and_fresh_one_refreshed() {
    let stored = Some(touch_session(100));
    assert_eq!(enforce_timeout(&stored, 1_000, 900), TimeoutDecision::Refresh);
    assert_eq!(enforce_timeout(&stored, 1_001, 900), TimeoutDecision::EndSession);
    assert!(timeout_error(TimeoutDecision::Refresh).is_ok());
    assert!(matches!(
        timeout_error(TimeoutDecision::EndSession),
        Err(ChacrabError::SessionExpired)
    ));
}

#[test]
fn mark_is_the_decimal_number_of_seconds() {
    assert_eq!(touch_session(1_234), "1234");
    assert_eq!(touch_session(-5), "-5");
    assert_eq!(touch_session(0), "0");
}

#[test]
fn session_key_text_is_padded_standard_base64() {
    let key = [0u8; 32];
    assert_eq!(encode_session_key(&key), "AAAAAAAAAAAAAAAAAAAAAAAAAAAAAAAAAAAAAAAAAAA=");
    let mut other = [0u8; 32];
    other[0] = 0xfb;
    other[1] = 0xff;
    assert_eq!(encode_session_key(&other), "+/8AAAAAAAAAAAAAAAAAAAAAAAAAAAAAAAAAAAAAAAA=");
}

#[test]
fn session_key_round_trips_through_its_text() {
    let mut key = [0u8; 32];
    for (i, byte) in key.iter_mut().enumerate() {
        *byte = (i * 7 + 3) as u8;
    }
    let text = encode_session_key(&key);
    assert_eq!(decode_session_key(&text).expect("stored key decodes"), key);
}

#[test]
fn text_that_holds_no_key_is_no_session() {
    assert!(matches!(decode_session_key("not base64!"), Err(ChacrabError::NoActiveSession)));
    assert!(matches!(decode_session_key("AAAA"), Err(ChacrabError::NoActiveSession)));
    assert!(matches!(decode_session_key(""), Err(ChacrabError::NoActiveSession)));
}
