use transportal::handlers::{
    all_alphanumeric, login_outcome, logout_cookie_header, paused_flag, remaining_secs,
    session_cookie_header, torrent_location, valid_magnet, LoginOutcome,
};
use transportal::session::SessionSecret;

#[test]
fn test_login_outcome() {
    assert_eq!(login_outcome(Ok(())), LoginOutcome::Success);
    assert_eq!(login_outcome(Err(401)), LoginOutcome::Unauthorized);
    assert_eq!(login_outcome(Err(403)), LoginOutcome::Forbidden);
    assert_eq!(login_outcome(Err(502)), LoginOutcome::Error(502));
    assert_eq!(login_outcome(Err(500)), LoginOutcome::Error(500));
}

#[test]
fn test_remaining_secs() {
    assert_eq!(remaining_secs(100, 40), Some(60));
    assert_eq!(remaining_secs(100, 100), Some(0));
    // a clock past the expiration yields no Max-Age at all
    assert_eq!(remaining_secs(100, 101), None);
}

#[test]
fn test_session_cookie_header() {
    let header = session_cookie_header(&SessionSecret::new(5), true, Some(120));
    assert_eq!(
        header,
        "session_secret=000000000000000000000000000000000000005; HttpOnly; SameSite=Lax; Secure; Max-Age=120;"
    );
}

#[test]
fn test_logout_cookie_header() {
    assert_eq!(
        logout_cookie_header(),
        "session_secret=; Secure; HttpOnly; SameSite=Lax; Max-Age=-1;"
    );
}

#[test]
fn test_valid_magnet() {
    assert!(valid_magnet("magnet:?xt=urn:btih:abcdef"));
    assert!(valid_magnet("magnet:?xt=urn:btih:"));
    assert!(!valid_magnet("magnet:?xt=urn:sha1:abcdef"));
    assert!(!valid_magnet("http://example.com/file.torrent"));
    assert!(!valid_magnet(""));
}

#[test]
fn test_paused_flag() {
    assert_eq!(paused_flag(None), Ok(false));
    assert_eq!(paused_flag(Some("on")), Ok(true));
    assert_eq!(paused_flag(Some("off")), Err(()));
    assert_eq!(paused_flag(Some("")), Err(()));
}

#[test]
fn test_all_alphanumeric() {
    assert!(all_alphanumeric("abc123DEF"));
    assert!(all_alphanumeric(""));
    assert!(!all_alphanumeric("abc-123"));
    assert!(!all_alphanumeric("abc 123"));
    assert!(!all_alphanumeric("../etc"));
}

#[test]
fn test_torrent_location() {
    assert_eq!(torrent_location("abc123"), "/torrent/abc123");
}
