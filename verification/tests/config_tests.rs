use transportal::config::{
    default_octal_600, parse_octal, ConfigPerformance, ConfigSecurity, RpcUrl, UnixSocketAddr,
};
use transportal::unix_sock::{stale_socket_action, sun_path_bytes, StaleSocketAction, SUN_PATH_LEN};

#[test]
fn test_parse_octal() {
    assert_eq!(parse_octal("600"), Some(0o600));
    assert_eq!(parse_octal("0"), Some(0));
    assert_eq!(parse_octal("777"), Some(0o777));
    assert_eq!(parse_octal("644"), Some(0o644));
    assert_eq!(parse_octal("37777777777"), Some(u32::MAX));
    // one past u32::MAX must be rejected
    assert_eq!(parse_octal("40000000000"), None);
    assert_eq!(parse_octal(""), None);
    assert_eq!(parse_octal("8"), None);
    assert_eq!(parse_octal("6o0"), None);
}

#[test]
fn test_default_octal_600() {
    assert_eq!(default_octal_600(), 0o600);
    assert_eq!(default_octal_600(), 384);
}

#[test]
fn test_config_defaults() {
    assert!(ConfigSecurity::default().secure_cookie_attribute);
    assert_eq!(ConfigPerformance::default().poll_interval_ms, 1000);
}

#[test]
fn test_rpc_url() {
    let url = RpcUrl::new(
        "http://127.0.0.1:9091".to_string(),
        "/transmission/rpc".to_string(),
    )
    .unwrap();
    assert_eq!(url.url_string(), "http://127.0.0.1:9091/transmission/rpc");
    // a path without its leading slash is refused
    assert!(RpcUrl::new("http://h".to_string(), "rpc".to_string()).is_err());
    assert!(RpcUrl::new("http://h".to_string(), "".to_string()).is_err());
}

#[test]
fn test_unix_socket_addr() {
    let addr = UnixSocketAddr::from_str("unix:/run/app.sock").unwrap();
    assert_eq!(addr.path(), "/run/app.sock");
    assert_eq!(addr.display_string(), "unix:/run/app.sock");
    assert!(UnixSocketAddr::from_str("/run/app.sock").is_err());
    assert!(UnixSocketAddr::from_str("uni").is_err());
    // an empty path after the prefix still parses; validity is the binder's business
    assert_eq!(UnixSocketAddr::from_str("unix:").unwrap().path(), "");
}

#[test]
fn test_stale_socket_action() {
    // a stale socket is removed; any other file at the path is refused
    assert_eq!(stale_socket_action(true, true), StaleSocketAction::Remove);
    assert_eq!(stale_socket_action(true, false), StaleSocketAction::Refuse);
    assert_eq!(stale_socket_action(false, false), StaleSocketAction::Ignore);
}

#[test]
fn test_sun_path_bytes() {
    let path = b"/run/app.sock";
    let buf = sun_path_bytes(path).unwrap();
    assert_eq!(buf.len(), SUN_PATH_LEN);
    assert_eq!(&buf[..path.len()], path);
    // everything after the path is zero, including the final byte
    assert!(buf[path.len()..].iter().all(|b| *b == 0));

    // an empty path fills the buffer with zeros
    let buf = sun_path_bytes(b"").unwrap();
    assert_eq!(buf.len(), SUN_PATH_LEN);
    assert!(buf.iter().all(|b| *b == 0));

    // 107 bytes still fit with their terminating zero; 108 do not
    let long = vec![b'a'; 107];
    let buf = sun_path_bytes(&long).unwrap();
    assert_eq!(buf.len(), SUN_PATH_LEN);
    assert_eq!(buf[107], 0);
    assert!(sun_path_bytes(&vec![b'a'; 108]).is_err());
}
