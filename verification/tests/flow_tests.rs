//! Wire-level flows: the verified client core on one side, a minimal
//! server stub on the other, talking through byte buffers.  The stub
//! honors SUB and echoes every PUB back as a MSG to each matching
//! subscription, as a real server would.

use nats_core::codec::{encode_msg, ClientOp, FrameReader, ServerOp};
use nats_core::dispatch::{handle_client_op, handle_server_op, ClientEffect, ServerEffect};
use nats_core::message::Message;
use nats_core::registry::{Subscription, SubscriptionContext};

/// A pub/sub server stub over plain byte frames.
struct StubServer {
    /// (subject, sid) pairs in subscription order.
    subs: Vec<(Vec<u8>, u64)>,
}

impl StubServer {
    fn new() -> StubServer {
        StubServer { subs: Vec::new() }
    }

    /// Consumes the frames the client wrote and returns the MSG frames
    /// the server sends back.
    fn take(&mut self, wire: &[u8]) -> Vec<u8> {
        let mut out = Vec::new();
        let text = wire.to_vec();
        let mut rest = &text[..];
        while let Some(pos) = rest.windows(2).position(|w| w == b"\r\n") {
            let line = &rest[..pos];
            let mut after = &rest[pos + 2..];
            if line.starts_with(b"SUB ") {
                let fields: Vec<&[u8]> = line[4..].split(|b| *b == b' ').collect();
                let subject = fields[0].to_vec();
                let sid = std::str::from_utf8(fields[1]).unwrap().parse().unwrap();
                self.subs.push((subject, sid));
            } else if line.starts_with(b"UNSUB ") {
                let sid: u64 = std::str::from_utf8(&line[6..]).unwrap().parse().unwrap();
                self.subs.retain(|(_, s)| *s != sid);
            } else if line.starts_with(b"PUB ") {
                let fields: Vec<&[u8]> = line[4..].split(|b| *b == b' ').collect();
                let subject = fields[0].to_vec();
                let reply = if fields.len() == 3 { Some(fields[1].to_vec()) } else { None };
                let n: usize =
                    std::str::from_utf8(fields[fields.len() - 1]).unwrap().parse().unwrap();
                let payload = after[..n].to_vec();
                after = &after[n + 2..];
                for (sub_subject, sid) in &self.subs {
                    if *sub_subject == subject {
                        out.extend_from_slice(&encode_msg(*sid, &subject, &reply, &payload));
                    }
                }
            }
            rest = after;
        }
        out
    }
}

/// Feeds server bytes through the verified reader and dispatcher.
fn pump(
    ctx: &mut SubscriptionContext,
    reader: &mut FrameReader,
    bytes: &[u8],
) -> Vec<ServerEffect> {
    reader.push_bytes(&bytes.to_vec());
    let mut effects = Vec::new();
    loop {
        match reader.try_read_op().expect("stub frames parse") {
            Some(op) => effects.push(handle_server_op(ctx, op).effect),
            None => return effects,
        }
    }
}

#[test]
fn basic_pub_sub_flow() {
    let mut ctx = SubscriptionContext::new();
    let mut reader = FrameReader::new();
    let mut server = StubServer::new();

    // subscribe("foo")
    let (tx, mut rx) = tokio::sync::mpsc::channel::<Message>(16);
    let sid = ctx.insert(Subscription::new(tx));
    let step = handle_client_op(&mut ctx, ClientOp::Subscribe { sid, subject: b"foo".to_vec() });
    let mut wire = step.out;

    // publish("foo", "data") ten times
    for _ in 0..10 {
        let step = handle_client_op(
            &mut ctx,
            ClientOp::Publish { subject: b"foo".to_vec(), payload: b"data".to_vec(), reply: None },
        );
        wire.extend_from_slice(&step.out);
    }

    let echoed = server.take(&wire);
    let effects = pump(&mut ctx, &mut reader, &echoed);
    assert_eq!(effects.len(), 10);
    assert!(effects.iter().all(|e| *e == ServerEffect::Delivered { sid }));

    let mut received = 0;
    while let Ok(m) = rx.try_recv() {
        assert_eq!(m.subject, b"foo".to_vec());
        assert_eq!(m.payload, b"data".to_vec());
        received += 1;
    }
    assert_eq!(received, 10);
}

#[test]
fn request_reply_via_manual_subscribe_flow() {
    let mut ctx = SubscriptionContext::new();
    let mut reader = FrameReader::new();
    let mut server = StubServer::new();

    // the responder subscribes to "test"
    let (tx, mut responder_rx) = tokio::sync::mpsc::channel::<Message>(16);
    let responder_sid = ctx.insert(Subscription::new(tx));
    let mut wire =
        handle_client_op(&mut ctx, ClientOp::Subscribe { sid: responder_sid, subject: b"test".to_vec() }).out;

    // the requester subscribes to its inbox and publishes with a reply
    let (tx, mut inbox_rx) = tokio::sync::mpsc::channel::<Message>(16);
    let inbox_sid = ctx.insert(Subscription::new(tx));
    wire.extend_from_slice(
        &handle_client_op(
            &mut ctx,
            ClientOp::Subscribe { sid: inbox_sid, subject: b"_INBOX.r1".to_vec() },
        )
        .out,
    );
    wire.extend_from_slice(
        &handle_client_op(
            &mut ctx,
            ClientOp::Publish {
                subject: b"test".to_vec(),
                payload: b"data".to_vec(),
                reply: Some(b"_INBOX.r1".to_vec()),
            },
        )
        .out,
    );
    let echoed = server.take(&wire);
    pump(&mut ctx, &mut reader, &echoed);

    // the responder answers on the reply subject
    let request = responder_rx.try_recv().expect("responder sees the request");
    assert_eq!(request.payload, b"data".to_vec());
    let reply_subject = request.reply.expect("the request carries a reply subject");
    let wire = handle_client_op(
        &mut ctx,
        ClientOp::Publish { subject: reply_subject, payload: b"resp".to_vec(), reply: None },
    )
    .out;
    let echoed = server.take(&wire);
    pump(&mut ctx, &mut reader, &echoed);

    let response = inbox_rx.try_recv().expect("the inbox yields exactly one message");
    assert_eq!(response.payload, b"resp".to_vec());
    assert!(inbox_rx.try_recv().is_err());
}

#[test]
fn unsubscribe_then_resubscribe_flow() {
    let mut ctx = SubscriptionContext::new();
    let mut reader = FrameReader::new();
    let mut server = StubServer::new();

    let (tx, mut rx1) = tokio::sync::mpsc::channel::<Message>(16);
    let s1 = ctx.insert(Subscription::new(tx));
    let mut wire = handle_client_op(&mut ctx, ClientOp::Subscribe { sid: s1, subject: b"t".to_vec() }).out;
    wire.extend_from_slice(
        &handle_client_op(
            &mut ctx,
            ClientOp::Publish { subject: b"t".to_vec(), payload: b"data".to_vec(), reply: None },
        )
        .out,
    );
    let echoed = server.take(&wire);
    pump(&mut ctx, &mut reader, &echoed);
    assert_eq!(rx1.try_recv().unwrap().payload, b"data".to_vec());

    // dispose the subscriber: its uid is enqueued and resolved to the sid
    let step = handle_client_op(&mut ctx, ClientOp::Unsubscribe { id: s1 });
    assert_eq!(step.effect, ClientEffect::UnsubResolved { sid: s1 });
    server.take(&step.out);

    // subscribe to "t2" and publish there: one message arrives
    let (tx, mut rx2) = tokio::sync::mpsc::channel::<Message>(16);
    let s2 = ctx.insert(Subscription::new(tx));
    assert!(s2 > s1, "the registry never reuses identifiers");
    let mut wire = handle_client_op(&mut ctx, ClientOp::Subscribe { sid: s2, subject: b"t2".to_vec() }).out;
    wire.extend_from_slice(
        &handle_client_op(
            &mut ctx,
            ClientOp::Publish { subject: b"t2".to_vec(), payload: b"data".to_vec(), reply: None },
        )
        .out,
    );
    let echoed = server.take(&wire);
    let effects = pump(&mut ctx, &mut reader, &echoed);
    assert_eq!(effects, vec![ServerEffect::Delivered { sid: s2 }]);
    assert_eq!(rx2.try_recv().unwrap().subject, b"t2".to_vec());
    assert!(rx1.try_recv().is_err());
}
