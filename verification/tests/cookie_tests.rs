use transportal::cookie_codec::{
    parse_u128_decimal, session_secret_from_cookie_header, AuthError, U128_DEC_WIDTH,
};
use transportal::session::SessionSecret;

fn rendered(secret: u128, secure: bool, expire: Option<u64>) -> String {
    SessionSecret::new(secret)
        .as_cookie(secure, expire)
        .cookie_string()
}

#[test]
fn test_cookie_fixed_width_value() {
    // the secret is zero-padded to the digit width of u128, whatever its value
    let small = rendered(7, false, None);
    let large = rendered(u128::MAX, false, None);
    let small_value = small.split(';').next().unwrap();
    let large_value = large.split(';').next().unwrap();
    assert_eq!(small_value.len(), U128_DEC_WIDTH);
    assert_eq!(large_value.len(), U128_DEC_WIDTH);
    assert_eq!(
        small_value,
        "000000000000000000000000000000000000007"
    );
    assert_eq!(
        large_value,
        "340282366920938463463374607431768211455"
    );
}

#[test]
fn test_cookie_attributes() {
    assert_eq!(
        rendered(7, false, None),
        "000000000000000000000000000000000000007; HttpOnly; SameSite=Lax;"
    );
    assert_eq!(
        rendered(7, true, None),
        "000000000000000000000000000000000000007; HttpOnly; SameSite=Lax; Secure;"
    );
    assert_eq!(
        rendered(7, true, Some(3600)),
        "000000000000000000000000000000000000007; HttpOnly; SameSite=Lax; Secure; Max-Age=3600;"
    );
    assert_eq!(
        rendered(7, false, Some(0)),
        "000000000000000000000000000000000000007; HttpOnly; SameSite=Lax; Max-Age=0;"
    );
}

#[test]
fn test_cookie_round_trip() {
    // encoding a secret then decoding it from the rendered cookie string
    // yields the original value
    for secret in [0u128, 1, 7, 12345678901234567890, u128::MAX] {
        let cookie = rendered(secret, true, Some(60));
        let value = cookie.split(';').next().unwrap();
        assert_eq!(parse_u128_decimal(value), Some(secret));
    }
}

#[test]
fn test_parse_u128_decimal() {
    assert_eq!(parse_u128_decimal("0"), Some(0));
    assert_eq!(parse_u128_decimal("42"), Some(42));
    assert_eq!(parse_u128_decimal("00042"), Some(42));
    assert_eq!(
        parse_u128_decimal("340282366920938463463374607431768211455"),
        Some(u128::MAX)
    );
    // one past u128::MAX must be rejected, not wrapped
    assert_eq!(
        parse_u128_decimal("340282366920938463463374607431768211456"),
        None
    );
    assert_eq!(parse_u128_decimal(""), None);
    assert_eq!(parse_u128_decimal("12a"), None);
    assert_eq!(parse_u128_decimal("-5"), None);
    assert_eq!(parse_u128_decimal(" 5"), None);
}

#[test]
fn test_secret_from_cookie_header() {
    let header = format!("theme=dark; session_secret={}; other=1", "000000000000000000000000000000000000042");
    let secret = session_secret_from_cookie_header(&header).ok().unwrap();
    // the extracted secret equals the one encoded, so the store will find it
    assert!(secret == SessionSecret::new(42));
}

#[test]
fn test_first_secret_cookie_wins() {
    let header = "session_secret=000000000000000000000000000000000000001; session_secret=2";
    let secret = session_secret_from_cookie_header(header).ok().unwrap();
    assert!(secret == SessionSecret::new(1));
}

#[test]
fn test_secret_from_cookie_header_unauthorized() {
    // no session_secret cookie at all
    assert!(matches!(
        session_secret_from_cookie_header("theme=dark; lang=en"),
        Err(AuthError::Unauthorized)
    ));
    assert!(matches!(
        session_secret_from_cookie_header(""),
        Err(AuthError::Unauthorized)
    ));
}

#[test]
fn test_secret_from_cookie_header_bad_request() {
    // a session_secret cookie whose value is no decimal 128-bit number
    assert!(matches!(
        session_secret_from_cookie_header("session_secret=not-a-number"),
        Err(AuthError::BadRequest)
    ));
    assert!(matches!(
        session_secret_from_cookie_header(
            "session_secret=340282366920938463463374607431768211456"
        ),
        Err(AuthError::BadRequest)
    ));
}
