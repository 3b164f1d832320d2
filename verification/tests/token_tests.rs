use warpgo_manager::token::{
    compute_expiry, is_expiring_soon, parse_i64, parse_lifetime_seconds,
    token_from_refresh_response, RefreshTokenResponse,
};

#[test]
fn parse_plain_number() {
    assert_eq!(parse_i64("3600"), Some(3600));
    assert_eq!(parse_i64("0"), Some(0));
    assert_eq!(parse_i64("007"), Some(7));
}

#[test]
fn parse_signed_numbers() {
    assert_eq!(parse_i64("-5"), Some(-5));
    assert_eq!(parse_i64("+120"), Some(120));
    assert_eq!(parse_i64("-9223372036854775808"), Some(i64::MIN));
    assert_eq!(parse_i64("9223372036854775807"), Some(i64::MAX));
}

#[test]
fn parse_rejects_garbage() {
    assert_eq!(parse_i64(""), None);
    assert_eq!(parse_i64("+"), None);
    assert_eq!(parse_i64("-"), None);
    assert_eq!(parse_i64("12a"), None);
    assert_eq!(parse_i64("a12"), None);
    assert_eq!(parse_i64(" 12"), None);
}

#[test]
fn parse_rejects_out_of_range() {
    assert_eq!(parse_i64("9223372036854775808"), None);
    assert_eq!(parse_i64("-9223372036854775809"), None);
    assert_eq!(parse_i64("99999999999999999999999"), None);
}

#[test]
fn lifetime_defaults_when_unparsable() {
    assert_eq!(parse_lifetime_seconds("3600"), 3600);
    assert_eq!(parse_lifetime_seconds("7200"), 7200);
    assert_eq!(parse_lifetime_seconds("soon"), 3600);
    assert_eq!(parse_lifetime_seconds(""), 3600);
    assert_eq!(parse_lifetime_seconds("99999999999999999999999"), 3600);
}

#[test]
fn expiry_is_start_plus_lifetime_millis() {
    assert_eq!(compute_expiry(1_000, 3600), 1_000 + 3_600_000);
    assert_eq!(compute_expiry(0, 0), 0);
    assert_eq!(compute_expiry(500, -1), 500 - 1000);
}

#[test]
fn expiry_saturates() {
    assert_eq!(compute_expiry(i64::MAX, 1), i64::MAX);
    assert_eq!(compute_expiry(i64::MIN, -1), i64::MIN);
}

#[test]
fn expiring_soon_boundary() {
    let expiry: i64 = 100_000;
    // exactly one minute before expiry counts as expiring
    assert!(is_expiring_soon(expiry, 40_000));
    assert!(!is_expiring_soon(expiry, 39_999));
    assert!(is_expiring_soon(expiry, 40_001));
    assert!(is_expiring_soon(expiry, expiry));
}

#[test]
fn refresh_response_becomes_token() {
    let resp = RefreshTokenResponse {
        access_token: String::from("access-a"),
        refresh_token: String::from("refresh-b"),
        expires_in: String::from("3600"),
    };
    let t = token_from_refresh_response(&resp, 1_000);
    assert_eq!(t.access_token, "access-a");
    assert_eq!(t.refresh_token, "refresh-b");
    assert_eq!(t.expiration_time, 1_000 + 3_600_000);
}

#[test]
fn refresh_response_with_bad_lifetime_uses_default() {
    let resp = RefreshTokenResponse {
        access_token: String::from("a"),
        refresh_token: String::from("r"),
        expires_in: String::from("not-a-number"),
    };
    let t = token_from_refresh_response(&resp, 2_000);
    assert_eq!(t.expiration_time, 2_000 + 3_600_000);
}
