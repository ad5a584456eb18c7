use nats_core::message::Message;
use nats_core::registry::{DeliverOutcome, Subscription, SubscriptionContext};

fn message(payload: &[u8]) -> Message {
    Message { subject: b"s".to_vec(), reply: None, payload: payload.to_vec() }
}

#[test]
fn identifiers_start_at_one_and_increase() {
    let mut ctx = SubscriptionContext::new();
    let (tx, _rx1) = tokio::sync::mpsc::channel::<Message>(16);
    let s1 = ctx.insert(Subscription::new(tx));
    let (tx, _rx2) = tokio::sync::mpsc::channel::<Message>(16);
    let s2 = ctx.insert(Subscription::new(tx));
    assert_eq!(s1, 1);
    assert_eq!(s2, 2);
    assert!(s1 < s2);
}

#[test]
fn identifiers_never_reused_across_interleaving() {
    let mut ctx = SubscriptionContext::new();
    let mut seen = Vec::new();
    for round in 0..5 {
        let (tx, rx) = tokio::sync::mpsc::channel::<Message>(16);
        let sid = ctx.insert(Subscription::new(tx));
        assert!(
            seen.iter().all(|old| *old < sid),
            "sid {} not above all earlier sids in round {}",
            sid,
            round
        );
        seen.push(sid);
        drop(rx);
        if round % 2 == 0 {
            assert!(ctx.remove(sid));
            assert!(!ctx.remove(sid), "second remove of {} must report nothing", sid);
        }
    }
    assert_eq!(seen, vec![1, 2, 3, 4, 5]);
}

#[test]
fn get_and_get_sid_resolve() {
    let mut ctx = SubscriptionContext::new();
    let (tx, _rx) = tokio::sync::mpsc::channel::<Message>(16);
    let sid = ctx.insert(Subscription::new(tx));
    assert!(ctx.get(sid).is_some());
    assert!(ctx.get(sid + 1).is_none());
    assert_eq!(ctx.get_sid(sid), Some(sid));
    assert_eq!(ctx.get_sid(sid + 1), None);
    assert!(ctx.remove(sid));
    assert!(ctx.get(sid).is_none());
    // the uid entry survives removal: identifiers are never reallocated
    assert_eq!(ctx.get_sid(sid), Some(sid));
}

#[test]
fn try_deliver_reports_full_and_closed() {
    let (tx, mut rx) = tokio::sync::mpsc::channel::<Message>(2);
    let sub = Subscription::new(tx);
    assert_eq!(sub.try_deliver(message(b"1")), DeliverOutcome::Delivered);
    assert_eq!(sub.try_deliver(message(b"2")), DeliverOutcome::Delivered);
    assert_eq!(sub.try_deliver(message(b"3")), DeliverOutcome::ChannelFull);
    assert_eq!(rx.try_recv().unwrap().payload, b"1".to_vec());
    assert_eq!(sub.try_deliver(message(b"4")), DeliverOutcome::Delivered);
    drop(rx);
    assert_eq!(sub.try_deliver(message(b"5")), DeliverOutcome::ChannelClosed);
}
