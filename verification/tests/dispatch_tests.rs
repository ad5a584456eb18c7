use nats_core::codec::{ClientOp, ServerOp};
use nats_core::dispatch::{
    handle_client_op, handle_server_op, ClientEffect, ServerEffect,
};
use nats_core::message::Message;
use nats_core::registry::{Subscription, SubscriptionContext};

fn msg(sid: u64, subject: &[u8], payload: &[u8]) -> ServerOp {
    ServerOp::Message {
        sid,
        subject: subject.to_vec(),
        reply: None,
        payload: payload.to_vec(),
    }
}

#[test]
fn ping_is_answered_with_pong() {
    let mut ctx = SubscriptionContext::new();
    let step = handle_server_op(&mut ctx, ServerOp::Ping);
    assert_eq!(step.effect, ServerEffect::PongReply);
    assert_eq!(step.out, b"PONG\r\n".to_vec());
    assert!(step.flush);
}

#[test]
fn ok_pong_info_are_ignored() {
    let mut ctx = SubscriptionContext::new();
    for op in [ServerOp::Okay, ServerOp::Pong] {
        let step = handle_server_op(&mut ctx, op);
        assert_eq!(step.effect, ServerEffect::Ignored);
        assert!(step.out.is_empty());
        assert!(!step.flush);
    }
}

#[test]
fn message_routed_to_its_sid_only() {
    let mut ctx = SubscriptionContext::new();
    let (tx1, mut rx1) = tokio::sync::mpsc::channel::<Message>(16);
    let s1 = ctx.insert(Subscription::new(tx1));
    let (tx2, mut rx2) = tokio::sync::mpsc::channel::<Message>(16);
    let s2 = ctx.insert(Subscription::new(tx2));
    assert_ne!(s1, s2);

    let step = handle_server_op(&mut ctx, msg(s1, b"foo", b"data"));
    assert_eq!(step.effect, ServerEffect::Delivered { sid: s1 });
    assert!(step.out.is_empty());

    let got = rx1.try_recv().expect("subscriber one receives its message");
    assert_eq!(got.subject, b"foo".to_vec());
    assert_eq!(got.payload, b"data".to_vec());
    assert!(rx2.try_recv().is_err(), "subscriber two must see nothing");
}

#[test]
fn message_for_unknown_sid_is_dropped() {
    let mut ctx = SubscriptionContext::new();
    let step = handle_server_op(&mut ctx, msg(42, b"foo", b"data"));
    assert_eq!(step.effect, ServerEffect::NoSubscription { sid: 42 });
    assert!(step.out.is_empty());
    assert!(!step.flush);
}

#[test]
fn slow_consumer_evicted_with_exactly_one_unsub() {
    let mut ctx = SubscriptionContext::new();
    let (tx, rx) = tokio::sync::mpsc::channel::<Message>(16);
    let sid = ctx.insert(Subscription::new(tx));

    for i in 0..16 {
        let step = handle_server_op(&mut ctx, msg(sid, b"t", b"m"));
        assert_eq!(step.effect, ServerEffect::Delivered { sid }, "message {} fits", i);
    }
    // the seventeenth message finds the endpoint full: one UNSUB, entry gone
    let step = handle_server_op(&mut ctx, msg(sid, b"t", b"m"));
    assert_eq!(step.effect, ServerEffect::Evicted { sid });
    assert_eq!(step.out, format!("UNSUB {}\r\n", sid).into_bytes());
    assert!(step.flush);
    assert!(ctx.get(sid).is_none());

    // further messages for that sid produce nothing more
    let step = handle_server_op(&mut ctx, msg(sid, b"t", b"m"));
    assert_eq!(step.effect, ServerEffect::NoSubscription { sid });
    assert!(step.out.is_empty());
    assert!(!step.flush);
    drop(rx);
}

#[test]
fn closed_consumer_is_evicted() {
    let mut ctx = SubscriptionContext::new();
    let (tx, rx) = tokio::sync::mpsc::channel::<Message>(16);
    let sid = ctx.insert(Subscription::new(tx));
    drop(rx);
    let step = handle_server_op(&mut ctx, msg(sid, b"t", b"m"));
    assert_eq!(step.effect, ServerEffect::Evicted { sid });
    assert_eq!(step.out, format!("UNSUB {}\r\n", sid).into_bytes());
}

#[test]
fn client_ops_are_encoded_with_flush_policy() {
    let mut ctx = SubscriptionContext::new();
    let step = handle_client_op(
        &mut ctx,
        ClientOp::Publish { subject: b"foo".to_vec(), payload: b"data".to_vec(), reply: None },
    );
    assert_eq!(step.effect, ClientEffect::Wrote);
    assert_eq!(step.out, b"PUB foo 4\r\ndata\r\n".to_vec());
    assert!(!step.flush);

    let step = handle_client_op(&mut ctx, ClientOp::Subscribe { sid: 1, subject: b"foo".to_vec() });
    assert_eq!(step.out, b"SUB foo 1\r\n".to_vec());
    assert!(step.flush);

    let step = handle_client_op(&mut ctx, ClientOp::TryFlush);
    assert!(step.out.is_empty());
    assert!(step.flush, "TryFlush writes nothing but drains the buffer");
}

#[test]
fn unsubscribe_resolves_uid_to_sid() {
    let mut ctx = SubscriptionContext::new();
    let (tx, _rx) = tokio::sync::mpsc::channel::<Message>(16);
    let sid = ctx.insert(Subscription::new(tx));

    let step = handle_client_op(&mut ctx, ClientOp::Unsubscribe { id: sid });
    assert_eq!(step.effect, ClientEffect::UnsubResolved { sid });
    assert_eq!(step.out, format!("UNSUB {}\r\n", sid).into_bytes());
    assert!(!step.flush);
    assert!(ctx.get(sid).is_none());

    let step = handle_client_op(&mut ctx, ClientOp::Unsubscribe { id: 999 });
    assert_eq!(step.effect, ClientEffect::UnknownId { id: 999 });
    assert!(step.out.is_empty());
}

#[test]
fn unsubscribe_then_resubscribe_keeps_registry_sound() {
    let mut ctx = SubscriptionContext::new();
    let (tx, mut rx) = tokio::sync::mpsc::channel::<Message>(16);
    let s1 = ctx.insert(Subscription::new(tx));
    let step = handle_server_op(&mut ctx, msg(s1, b"t", b"data"));
    assert_eq!(step.effect, ServerEffect::Delivered { sid: s1 });
    assert_eq!(rx.try_recv().unwrap().payload, b"data".to_vec());

    let step = handle_client_op(&mut ctx, ClientOp::Unsubscribe { id: s1 });
    assert_eq!(step.effect, ClientEffect::UnsubResolved { sid: s1 });

    let (tx2, mut rx2) = tokio::sync::mpsc::channel::<Message>(16);
    let s2 = ctx.insert(Subscription::new(tx2));
    assert!(s2 > s1);
    let step = handle_server_op(&mut ctx, msg(s2, b"t2", b"data"));
    assert_eq!(step.effect, ServerEffect::Delivered { sid: s2 });
    assert_eq!(rx2.try_recv().unwrap().subject, b"t2".to_vec());
}
