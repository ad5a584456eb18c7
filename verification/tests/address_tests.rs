use nats_core::address::ServerAddr;
use nats_core::error::ClientError;

#[test]
fn bare_host_gets_nats_scheme_and_default_port() {
    let addr = ServerAddr::from_str("demo.host.example").unwrap();
    assert_eq!(addr.host(), "demo.host.example");
    assert_eq!(addr.port(), 4222);
    assert!(!addr.tls_required());
    assert!(!addr.has_user_pass());
    assert_eq!(addr.username(), None);
    assert_eq!(addr.password(), None);
}

#[test]
fn explicit_port_is_kept() {
    let addr = ServerAddr::from_str("nats://h:4223").unwrap();
    assert_eq!(addr.host(), "h");
    assert_eq!(addr.port(), 4223);
    assert!(!addr.tls_required());
}

#[test]
fn tls_scheme_requires_tls() {
    let addr = ServerAddr::from_str("tls://secure.example").unwrap();
    assert!(addr.tls_required());
    assert_eq!(addr.port(), 4222);
}

#[test]
fn other_schemes_are_rejected() {
    assert_eq!(ServerAddr::from_str("http://h").unwrap_err(), ClientError::AddressInvalid);
    assert_eq!(ServerAddr::from_str("ws://h:1").unwrap_err(), ClientError::AddressInvalid);
    assert_eq!(ServerAddr::from_str("").unwrap_err(), ClientError::AddressInvalid);
}

#[test]
fn user_and_password_are_recognized() {
    let addr = ServerAddr::from_str("nats://user:secret@h:4222").unwrap();
    assert!(addr.has_user_pass());
    assert_eq!(addr.username(), Some("user".to_string()));
    assert_eq!(addr.password(), Some("secret".to_string()));
}

#[test]
fn into_inner_round_trips() {
    let addr = ServerAddr::from_str("tls://user@h:9000").unwrap();
    let parts = addr.into_inner();
    assert_eq!(parts.scheme, "tls");
    assert_eq!(parts.host, Some("h".to_string()));
    assert_eq!(parts.port, Some(9000));
    assert_eq!(parts.username, "user");
    assert_eq!(parts.password, None);
    let again = ServerAddr::from_url(parts).unwrap();
    assert!(again.tls_required());
    assert_eq!(again.host(), "h");
    assert_eq!(again.port(), 9000);
}
