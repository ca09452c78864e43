//! The login-to-stream flow, walked through the library end to end: log in,
//! receive the session cookie, come back with and without it, and watch the
//! list stream react to a change within one poll.

use transportal::cookie_codec::{session_secret_from_cookie_header, AuthError};
use transportal::handlers::{login_outcome, remaining_secs, session_cookie_header, LoginOutcome};
use transportal::session::{Session, SessionManager};
use transportal::stream_diff::{diff_step, list_fetch_outcome, DiffAction};
use transportal::transmission::rpc::classify_http_status;

#[test]
fn test_login_stream_scenario() {
    let now: u64 = 1_700_000_000;
    let mut sessions: SessionManager<&str> = SessionManager::default();

    // login with valid credentials: the probe succeeds and a session is made
    let probe = classify_http_status(200);
    assert_eq!(login_outcome(probe), LoginOutcome::Success);
    let session = Session::new("rpc client", now);
    let expire = remaining_secs(session.expires(), now);
    let secret = sessions.new_session(session);
    let set_cookie = session_cookie_header(&secret, true, expire);

    // the client keeps only the value part of the cookie
    let cookie_value = set_cookie.split(';').next().unwrap().to_string();

    // a request without the cookie is unauthenticated
    assert!(matches!(
        session_secret_from_cookie_header("theme=dark"),
        Err(AuthError::Unauthorized)
    ));

    // with the cookie, the secret comes back out and the store finds the session
    let presented = session_secret_from_cookie_header(&cookie_value).ok().unwrap();
    assert!(presented == secret);
    let found = sessions.session(presented, now + 10).expect("session must be live");
    assert_eq!(*found.data(), "rpc client");

    // the list stream emits its first snapshot at once ...
    let render_one = "<ul><li>job: stopped</li></ul>".to_string();
    let (action, last) = diff_step(
        None,
        found.expired(now + 10),
        list_fetch_outcome(Ok(render_one.clone())),
    );
    assert!(matches!(action, DiffAction::Emit(h) if h == render_one));

    // ... stays silent while nothing changes ...
    let (action, last) = diff_step(
        last,
        found.expired(now + 11),
        list_fetch_outcome(Ok(render_one.clone())),
    );
    assert!(matches!(action, DiffAction::Skip));

    // ... and reflects a started job in the very next poll after the change
    let render_two = "<ul><li>job: downloading</li></ul>".to_string();
    let (action, _) = diff_step(
        last,
        found.expired(now + 12),
        list_fetch_outcome(Ok(render_two.clone())),
    );
    assert!(matches!(action, DiffAction::Emit(h) if h == render_two));

    // bad credentials never reach the store
    assert_eq!(login_outcome(classify_http_status(401)), LoginOutcome::Unauthorized);
}
