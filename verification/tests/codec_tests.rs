use nats_core::codec::{encode_msg, encode_op, flush_after, ClientOp, FrameReader, ServerOp};
use nats_core::connect::{connect_info_for, connect_json_bytes, ConnectOptions};
use nats_core::digits::{format_u64, parse_u64};
use nats_core::grammar::ParseError;

fn reader_with(bytes: &[u8]) -> FrameReader {
    let mut r = FrameReader::new();
    r.push_bytes(&bytes.to_vec());
    r
}

#[test]
fn parse_ok_ping_pong() {
    let mut r = reader_with(b"+OK\r\nPING\r\nPONG\r\n");
    assert!(matches!(r.try_read_op(), Ok(Some(ServerOp::Okay))));
    assert!(matches!(r.try_read_op(), Ok(Some(ServerOp::Ping))));
    assert!(matches!(r.try_read_op(), Ok(Some(ServerOp::Pong))));
    assert!(matches!(r.try_read_op(), Ok(None)));
}

#[test]
fn partial_frame_one_byte_at_a_time() {
    let frame: &[u8] = b"MSG foo 1 5\r\nhello\r\n";
    let mut r = FrameReader::new();
    let mut ops = 0;
    for (i, b) in frame.iter().enumerate() {
        r.push_bytes(&vec![*b]);
        let step = r.try_read_op().expect("no prefix of a valid frame errors");
        if i + 1 < frame.len() {
            assert!(step.is_none(), "prefix of length {} produced an op", i + 1);
        } else {
            match step {
                Some(ServerOp::Message { sid, subject, reply, payload }) => {
                    assert_eq!(sid, 1);
                    assert_eq!(subject, b"foo".to_vec());
                    assert_eq!(reply, None);
                    assert_eq!(payload, b"hello".to_vec());
                    ops += 1;
                }
                other => panic!("expected a message, got {:?}", other.is_some()),
            }
        }
    }
    assert_eq!(ops, 1);
    assert_eq!(r.buffered_len(), 0);
}

#[test]
fn msg_needs_payload_and_trailer() {
    let mut r = reader_with(b"MSG a 2 3\r\nab");
    assert!(matches!(r.try_read_op(), Ok(None)));
    r.push_bytes(&b"c".to_vec());
    assert!(matches!(r.try_read_op(), Ok(None)));
    r.push_bytes(&b"\r".to_vec());
    assert!(matches!(r.try_read_op(), Ok(None)));
    r.push_bytes(&b"\n".to_vec());
    match r.try_read_op() {
        Ok(Some(ServerOp::Message { sid, subject, reply, payload })) => {
            assert_eq!(sid, 2);
            assert_eq!(subject, b"a".to_vec());
            assert_eq!(reply, None);
            assert_eq!(payload, b"abc".to_vec());
        }
        _ => panic!("expected the message once payload and trailer arrived"),
    }
}

#[test]
fn msg_with_reply_and_crlf_payload() {
    let mut r = reader_with(b"MSG subj 9 rep 4\r\na\r\nb\r\n");
    match r.try_read_op() {
        Ok(Some(ServerOp::Message { sid, subject, reply, payload })) => {
            assert_eq!(sid, 9);
            assert_eq!(subject, b"subj".to_vec());
            assert_eq!(reply, Some(b"rep".to_vec()));
            assert_eq!(payload, b"a\r\nb".to_vec());
        }
        _ => panic!("expected a message with a reply"),
    }
}

#[test]
fn msg_bad_arg_count() {
    let mut r = reader_with(b"MSG foo 1\r\n");
    assert_eq!(r.try_read_op(), Err(ParseError::BadArgCount));
    let mut r = reader_with(b"MSG a b c d e\r\n");
    assert_eq!(r.try_read_op(), Err(ParseError::BadArgCount));
}

#[test]
fn msg_bad_integer() {
    let mut r = reader_with(b"MSG foo x 3\r\n");
    assert_eq!(r.try_read_op(), Err(ParseError::BadInteger));
    let mut r = reader_with(b"MSG foo 1 99999999999999999999\r\n");
    assert_eq!(r.try_read_op(), Err(ParseError::BadInteger));
}

#[test]
fn msg_header_must_be_utf8() {
    // a subject containing the byte 0xFF is not UTF-8: rejected, nothing consumed
    let mut r = reader_with(b"MSG f\xFFoo 1 3\r\nabc\r\n");
    assert_eq!(r.try_read_op(), Err(ParseError::InvalidUtf8));
    assert_eq!(r.buffered_len(), 19);
    // a well-formed multibyte subject is fine
    let mut r = reader_with("MSG f\u{fc} 1 2\r\nab\r\n".as_bytes());
    match r.try_read_op() {
        Ok(Some(ServerOp::Message { subject, payload, .. })) => {
            assert_eq!(subject, "f\u{fc}".as_bytes().to_vec());
            assert_eq!(payload, b"ab".to_vec());
        }
        _ => panic!("a valid multibyte header must parse"),
    }
}

#[test]
fn info_parses_fields() {
    let mut r = reader_with(
        b"INFO {\"host\":\"h1\",\"port\":4222,\"tls_required\":true,\"max_payload\":1048576,\"proto\":1,\"connect_urls\":[\"a\",\"b\"]}\r\nPING\r\n",
    );
    match r.try_read_op() {
        Ok(Some(ServerOp::Info(info))) => {
            assert_eq!(info.host, "h1");
            assert_eq!(info.port, 4222);
            assert!(info.tls_required);
            assert_eq!(info.max_payload, 1048576);
            assert_eq!(info.proto, 1);
            assert_eq!(info.connect_urls, vec!["a".to_string(), "b".to_string()]);
            assert_eq!(info.server_id, "");
        }
        _ => panic!("expected INFO"),
    }
    assert!(matches!(r.try_read_op(), Ok(Some(ServerOp::Ping))));
}

#[test]
fn info_bad_json() {
    let mut r = reader_with(b"INFO {not json}\r\n");
    assert_eq!(r.try_read_op(), Err(ParseError::BadInfoJson));
    let mut r = reader_with(b"INFO 42\r\n");
    assert_eq!(r.try_read_op(), Err(ParseError::BadInfoJson));
    let mut r = reader_with(b"INFO {\"port\":\"no\"}\r\n");
    assert_eq!(r.try_read_op(), Err(ParseError::BadInfoJson));
}

#[test]
fn encode_publish_frames() {
    let op = ClientOp::Publish { subject: b"foo".to_vec(), payload: b"data".to_vec(), reply: None };
    assert_eq!(encode_op(&op), b"PUB foo 4\r\ndata\r\n".to_vec());
    assert!(!flush_after(&op));
    let op = ClientOp::Publish {
        subject: b"foo".to_vec(),
        payload: b"data".to_vec(),
        reply: Some(b"inbox.1".to_vec()),
    };
    assert_eq!(encode_op(&op), b"PUB foo inbox.1 4\r\ndata\r\n".to_vec());
}

#[test]
fn encode_sub_unsub_ping_pong() {
    let sub = ClientOp::Subscribe { sid: 7, subject: b"foo".to_vec() };
    assert_eq!(encode_op(&sub), b"SUB foo 7\r\n".to_vec());
    assert!(flush_after(&sub));
    let unsub = ClientOp::Unsubscribe { id: 5 };
    assert_eq!(encode_op(&unsub), b"UNSUB 5\r\n".to_vec());
    assert!(!flush_after(&unsub));
    assert_eq!(encode_op(&ClientOp::Ping), b"PING\r\n".to_vec());
    assert!(flush_after(&ClientOp::Ping));
    assert_eq!(encode_op(&ClientOp::Pong), b"PONG\r\n".to_vec());
    assert!(flush_after(&ClientOp::Pong));
    assert_eq!(encode_op(&ClientOp::Flush), Vec::<u8>::new());
    assert!(flush_after(&ClientOp::Flush));
    assert_eq!(encode_op(&ClientOp::TryFlush), Vec::<u8>::new());
    assert!(flush_after(&ClientOp::TryFlush), "the timed TryFlush drains the write buffer");
}

#[test]
fn encode_connect_json() {
    let info = connect_info_for(&ConnectOptions::default());
    let expected = "{\"verbose\":false,\"pedantic\":false,\"user_jwt\":null,\"nkey\":null,\"signature\":null,\"name\":null,\"echo\":true,\"lang\":\"rust\",\"version\":\"0.1.0\",\"protocol\":1,\"tls_required\":false,\"user\":null,\"pass\":null,\"auth_token\":null,\"headers\":true,\"no_responders\":true}";
    assert_eq!(connect_json_bytes(&info), expected.as_bytes().to_vec());
    let frame = encode_op(&ClientOp::Connect(info));
    assert_eq!(frame, format!("CONNECT {}\r\n", expected).into_bytes());
    let parsed: serde_json::Value = serde_json::from_str(expected).unwrap();
    assert_eq!(parsed["lang"], "rust");
    assert_eq!(parsed["protocol"], 1);
}

#[test]
fn connect_json_escapes_strings() {
    let mut options = ConnectOptions::default();
    options.name = Some("a\"b\\c\nd".to_string());
    let info = connect_info_for(&options);
    let bytes = connect_json_bytes(&info);
    let text = String::from_utf8(bytes).unwrap();
    assert!(text.contains("\"name\":\"a\\\"b\\\\c\\u000ad\""));
    let parsed: serde_json::Value = serde_json::from_str(&text).unwrap();
    assert_eq!(parsed["name"], "a\"b\\c\nd");
}

#[test]
fn pub_msg_round_trip() {
    let frame = encode_msg(5, &b"subj".to_vec(), &Some(b"rep".to_vec()), &b"payload".to_vec());
    assert_eq!(frame, b"MSG subj 5 rep 7\r\npayload\r\n".to_vec());
    let mut r = FrameReader::new();
    r.push_bytes(&frame);
    match r.try_read_op() {
        Ok(Some(ServerOp::Message { sid, subject, reply, payload })) => {
            assert_eq!(sid, 5);
            assert_eq!(subject, b"subj".to_vec());
            assert_eq!(reply, Some(b"rep".to_vec()));
            assert_eq!(payload, b"payload".to_vec());
        }
        _ => panic!("the encoded message must parse back"),
    }
}

#[test]
fn malformed_header_leaves_buffer_untouched() {
    let mut r = reader_with(b"MSG foo 1\r\n");
    assert_eq!(r.buffered_len(), 11);
    assert_eq!(r.try_read_op(), Err(ParseError::BadArgCount));
    assert_eq!(r.buffered_len(), 11);
    assert_eq!(r.try_read_op(), Err(ParseError::BadArgCount));
}

#[test]
fn unknown_verbs_wait_for_more() {
    let mut r = reader_with(b"XYZ\r\n");
    assert!(matches!(r.try_read_op(), Ok(None)));
}

#[test]
fn decimal_round_trip() {
    assert_eq!(format_u64(0), b"0".to_vec());
    assert_eq!(format_u64(4222), b"4222".to_vec());
    assert_eq!(format_u64(u64::MAX), b"18446744073709551615".to_vec());
    assert_eq!(parse_u64(&b"4222".to_vec()), Some(4222));
    assert_eq!(parse_u64(&b"18446744073709551615".to_vec()), Some(u64::MAX));
    assert_eq!(parse_u64(&b"18446744073709551616".to_vec()), None);
    assert_eq!(parse_u64(&b"".to_vec()), None);
    assert_eq!(parse_u64(&b"12a".to_vec()), None);
}
