use nats_core::codec::ServerOp;
use nats_core::connect::{
    connect_info_for, expect_info, inbox_name, tls_upgrade_required, ConnectOptions, Protocol,
};
use nats_core::error::ClientError;

#[test]
fn first_frame_must_be_info() {
    let mut reader = nats_core::codec::FrameReader::new();
    reader.push_bytes(&b"INFO {\"host\":\"srv\",\"tls_required\":false}\r\n".to_vec());
    let op = reader.try_read_op().unwrap();
    let info = expect_info(op).unwrap();
    assert_eq!(info.host, "srv");
    assert!(!info.tls_required);

    assert_eq!(
        expect_info(Some(ServerOp::Ping)).unwrap_err(),
        ClientError::HandshakeUnexpected
    );
    assert_eq!(expect_info(None).unwrap_err(), ClientError::HandshakeUnexpected);
}

#[test]
fn tls_upgrade_rule() {
    assert!(!tls_upgrade_required(false, false, false));
    assert!(tls_upgrade_required(true, false, false));
    assert!(tls_upgrade_required(false, true, false));
    assert!(tls_upgrade_required(false, false, true));
    assert!(tls_upgrade_required(true, true, true));
}

#[test]
fn connect_info_defaults() {
    let options = ConnectOptions::default();
    assert_eq!(options.ping_interval_ms, 60000);
    assert_eq!(options.flush_interval_ms, 100);
    let info = connect_info_for(&options);
    assert!(!info.verbose);
    assert!(!info.pedantic);
    assert_eq!(info.lang, "rust");
    assert_eq!(info.protocol, Protocol::Dynamic);
    assert!(info.echo);
    assert!(info.headers);
    assert!(info.no_responders);
    assert_eq!(info.user, None);
}

#[test]
fn credentials_are_forwarded() {
    let mut options = ConnectOptions::default();
    options.user = Some("u".to_string());
    options.pass = Some("p".to_string());
    options.auth_token = Some("t".to_string());
    options.tls_required = true;
    let info = connect_info_for(&options);
    assert_eq!(info.user, Some("u".to_string()));
    assert_eq!(info.pass, Some("p".to_string()));
    assert_eq!(info.auth_token, Some("t".to_string()));
    assert!(info.tls_required);
}

#[test]
fn inbox_names_carry_the_prefix() {
    assert_eq!(inbox_name("abc123"), "_INBOX.abc123");
    assert_eq!(inbox_name(""), "_INBOX.");
}
