use transportal::session::{Session, SessionManager, SessionPeek, SessionSecret, SESSION_TTL_SECS};

#[test]
fn test_session_fields() {
    let s = Session::new("payload", 1000);
    assert_eq!(*s.data(), "payload");
    assert_eq!(s.expires(), 1000 + SESSION_TTL_SECS);
    assert!(!s.expired(1000));
    assert!(!s.expired(1000 + SESSION_TTL_SECS - 1));
    assert!(s.expired(1000 + SESSION_TTL_SECS));
    assert!(s.expired(u64::MAX));
}

#[test]
fn test_secret_uniqueness() {
    // over a sequence of creations, no two returned secrets are equal
    let mut mgr: SessionManager<u32> = SessionManager::default();
    let mut secrets: Vec<SessionSecret> = Vec::new();
    for i in 0..64u32 {
        secrets.push(mgr.new_session(Session::new(i, 0)));
    }
    for i in 0..secrets.len() {
        for j in 0..i {
            assert!(secrets[i] != secrets[j]);
        }
    }
}

#[test]
fn test_lookup_returns_live_session() {
    let mut mgr: SessionManager<&str> = SessionManager::default();
    let secret = mgr.new_session(Session::new("alpha", 50));
    let found = mgr.session(secret, 60);
    assert!(found.is_some());
    assert_eq!(*found.unwrap().data(), "alpha");
}

#[test]
fn test_unknown_secret_is_a_miss() {
    let mut mgr: SessionManager<&str> = SessionManager::default();
    let _ = mgr.new_session(Session::new("alpha", 50));
    assert!(mgr.session(SessionSecret::new(12345), 60).is_none());
}

#[test]
fn test_expiry_lazy_eviction() {
    let mut mgr: SessionManager<&str> = SessionManager::default();
    let keeper = mgr.new_session(Session::new("keeper", 0));
    let secret = mgr.new_session(Session::new("expiring", 100));
    // after the expiration instant the lookup is a miss ...
    let after = 100 + SESSION_TTL_SECS;
    assert!(mgr.session(secret, after).is_none());
    // ... and the session is really gone: looking it up before its
    // expiration now also misses, while the other session is untouched
    assert!(mgr.session(secret, 0).is_none());
    assert!(mgr.session(keeper, 0).is_some());
}

#[test]
fn test_peek_session() {
    let mut mgr: SessionManager<&str> = SessionManager::default();
    let secret = mgr.new_session(Session::new("alpha", 100));
    // a live session is handed out without touching the store
    match mgr.peek_session(secret, 200) {
        SessionPeek::Live(s) => assert_eq!(*s.data(), "alpha"),
        _ => panic!("session must be live"),
    }
    // an expired session is reported for eviction, and the peek itself
    // changes nothing: the store still holds it
    assert!(matches!(
        mgr.peek_session(secret, 100 + SESSION_TTL_SECS),
        SessionPeek::Expired
    ));
    assert!(matches!(mgr.peek_session(secret, 200), SessionPeek::Live(_)));
    // an unknown secret is absent
    assert!(matches!(
        mgr.peek_session(SessionSecret::new(7), 200),
        SessionPeek::Absent
    ));
}

#[test]
fn test_remove_session() {
    let mut mgr: SessionManager<&str> = SessionManager::default();
    let secret = mgr.new_session(Session::new("gone", 0));
    let removed = mgr.remove_session(secret);
    assert!(removed.is_some());
    assert_eq!(*removed.unwrap().data(), "gone");
    // a second removal has nothing left to remove
    assert!(mgr.remove_session(secret).is_none());
    assert!(mgr.session(secret, 1).is_none());
}
