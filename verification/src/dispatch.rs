//! The event loop's decision core.
//!
//! The loop itself — one task that owns the socket, selects between the
//! command queue and inbound frames, writes and flushes — runs outside
//! this crate.  Each decision it takes is one call here: given the
//! registry and one operation, these functions mutate the registry,
//! return the bytes to write, whether to flush, and what happened.

use vstd::prelude::*;
use crate::codec::{
    encode_op, encode_spec, flush_after, spec_flush_after, unsub_frame, ClientOp, ServerOp,
};
use crate::grammar::pong_lit;
use crate::message::Message;
use crate::registry::{DeliverOutcome, Subscription, SubscriptionContext};

verus! {

/// What one inbound server operation led to.
#[derive(Clone, Copy, Debug, PartialEq, Eq, Structural)]
pub enum ServerEffect {
    /// `+OK`, `PONG` and post-handshake `INFO` are consumed silently.
    Ignored,
    /// A server `PING` was answered with a `PONG`.
    PongReply,
    /// A message for a sid with no live subscription was dropped.
    NoSubscription { sid: u64 },
    /// The message was handed to the subscription's endpoint.
    Delivered { sid: u64 },
    /// The endpoint was full or closed: the subscription was removed and
    /// an UNSUB for its sid goes out.
    Evicted { sid: u64 },
}

/// One step of the read side: what happened, the bytes to write, and
/// whether the writer must be flushed afterwards.
pub struct ServerStep {
    pub effect: ServerEffect,
    pub out: Vec<u8>,
    pub flush: bool,
}

/// The contract of `handle_server_op`, relating the registry before and
/// after to the operation and the step taken.  Which of `Delivered` and
/// `Evicted` occurs for a live subscription depends on the consumer's
/// endpoint, so both are admitted; everything else is pinned.
pub open spec fn server_step_post(
    pre: SubscriptionContext,
    post: SubscriptionContext,
    op: ServerOp,
    effect: ServerEffect,
    out: Seq<u8>,
    flush: bool,
) -> bool {
    match op {
        ServerOp::Ping => effect == ServerEffect::PongReply && out == pong_lit() && flush && post
            == pre,
        ServerOp::Okay => effect == ServerEffect::Ignored && out == Seq::<u8>::empty() && !flush
            && post == pre,
        ServerOp::Pong => effect == ServerEffect::Ignored && out == Seq::<u8>::empty() && !flush
            && post == pre,
        ServerOp::Info(_) => effect == ServerEffect::Ignored && out == Seq::<u8>::empty() && !flush
            && post == pre,
        ServerOp::Message { sid, .. } => if !pre.subs().contains_key(sid) {
            effect == (ServerEffect::NoSubscription { sid }) && out == Seq::<u8>::empty() && !flush
                && post == pre
        } else {
            match effect {
                ServerEffect::Delivered { sid: d } => d == sid && out == Seq::<u8>::empty()
                    && !flush && post == pre,
                ServerEffect::Evicted { sid: d } => d == sid && post.subs() == pre.subs().remove(
                    sid,
                ) && post.uids() == pre.uids() && post.spec_next_sid() == pre.spec_next_sid()
                    && out == unsub_frame(sid as int) && flush,
                _ => false,
            }
        },
    }
}

/// One inbound server operation: answers PING, routes a message to the
/// subscription its sid names — and to no other — and evicts a
/// subscription whose consumer is slow or gone.
pub fn handle_server_op(ctx: &mut SubscriptionContext, op: ServerOp) -> (r: ServerStep)
    requires
        old(ctx).wf(),
    ensures
        final(ctx).wf(),
        server_step_post(*old(ctx), *final(ctx), op, r.effect, r.out@, r.flush),
{
    match op {
        ServerOp::Ping => ServerStep { effect: ServerEffect::PongReply, out: encode_op(
            &ClientOp::Pong,
        ), flush: true },
        ServerOp::Okay => ServerStep { effect: ServerEffect::Ignored, out: Vec::new(), flush: false },
        ServerOp::Pong => ServerStep { effect: ServerEffect::Ignored, out: Vec::new(), flush: false },
        ServerOp::Info(_) => ServerStep {
            effect: ServerEffect::Ignored,
            out: Vec::new(),
            flush: false,
        },
        ServerOp::Message { sid, subject, reply, payload } => match ctx.get(sid) {
            None => ServerStep {
                effect: ServerEffect::NoSubscription { sid },
                out: Vec::new(),
                flush: false,
            },
            Some(subscription) => {
                let outcome = subscription.try_deliver(Message { subject, reply, payload });
                match outcome {
                    DeliverOutcome::Delivered => ServerStep {
                        effect: ServerEffect::Delivered { sid },
                        out: Vec::new(),
                        flush: false,
                    },
                    _ => {
                        let _removed = ctx.remove(sid);
                        ServerStep {
                            effect: ServerEffect::Evicted { sid },
                            out: encode_op(&ClientOp::Unsubscribe { id: sid }),
                            flush: true,
                        }
                    },
                }
            },
        },
    }
}

/// What one application command led to.
#[derive(Clone, Copy, Debug, PartialEq, Eq, Structural)]
pub enum ClientEffect {
    /// The operation was encoded onto the wire as it stands.
    Wrote,
    /// An unsubscribe was resolved to its wire sid; the sid's entry is
    /// gone and an UNSUB goes out.
    UnsubResolved { sid: u64 },
    /// An unsubscribe for an identifier this client never allocated was
    /// dropped silently.
    UnknownId { id: u64 },
}

/// One step of the command side.
pub struct ClientStep {
    pub effect: ClientEffect,
    pub out: Vec<u8>,
    pub flush: bool,
}

/// The contract of `handle_client_op`.  An unsubscribe is intercepted:
/// its user-facing identifier is resolved under the registry lock, the
/// entry removed, and the UNSUB carries the wire sid.  Every other
/// operation is encoded unchanged, with the codec's flush policy.
pub open spec fn client_step_post(
    pre: SubscriptionContext,
    post: SubscriptionContext,
    op: ClientOp,
    effect: ClientEffect,
    out: Seq<u8>,
    flush: bool,
) -> bool {
    match op {
        ClientOp::Unsubscribe { id } => if pre.uids().contains_key(id) {
            let sid = pre.uids()[id];
            effect == (ClientEffect::UnsubResolved { sid }) && post.subs() == pre.subs().remove(sid)
                && post.uids() == pre.uids() && post.spec_next_sid() == pre.spec_next_sid() && out
                == unsub_frame(sid as int) && !flush
        } else {
            effect == (ClientEffect::UnknownId { id }) && out == Seq::<u8>::empty() && !flush
                && post == pre
        },
        _ => effect == ClientEffect::Wrote && out == encode_spec(op) && flush == spec_flush_after(
            op,
        ) && post == pre,
    }
}

/// One application command, as the event loop takes it off the queue.
pub fn handle_client_op(ctx: &mut SubscriptionContext, op: ClientOp) -> (r: ClientStep)
    requires
        old(ctx).wf(),
    ensures
        final(ctx).wf(),
        client_step_post(*old(ctx), *final(ctx), op, r.effect, r.out@, r.flush),
{
    match op {
        ClientOp::Unsubscribe { id } => match ctx.get_sid(id) {
            None => ClientStep { effect: ClientEffect::UnknownId { id }, out: Vec::new(), flush: false },
            Some(sid) => {
                let _removed = ctx.remove(sid);
                ClientStep {
                    effect: ClientEffect::UnsubResolved { sid },
                    out: encode_op(&ClientOp::Unsubscribe { id: sid }),
                    flush: false,
                }
            },
        },
        other => {
            let out = encode_op(&other);
            let flush = flush_after(&other);
            ClientStep { effect: ClientEffect::Wrote, out, flush }
        },
    }
}

/// Delivery routing: a message step for one sid leaves every other
/// subscription exactly as it was, and any delivery or eviction the step
/// reports names that sid alone.  A subscriber never sees another sid's
/// messages.
pub proof fn lemma_delivery_routing(
    pre: SubscriptionContext,
    post: SubscriptionContext,
    op: ServerOp,
    effect: ServerEffect,
    out: Seq<u8>,
    flush: bool,
    other: u64,
)
    requires
        pre.wf(),
        server_step_post(pre, post, op, effect, out, flush),
        match op {
            ServerOp::Message { sid, .. } => sid != other,
            _ => false,
        },
        pre.subs().contains_key(other),
    ensures
        post.subs().contains_key(other),
        post.subs()[other] == pre.subs()[other],
        effect matches ServerEffect::Delivered { sid } ==> sid != other,
        effect matches ServerEffect::Evicted { sid } ==> sid != other,
{
}

/// Slow-consumer eviction happens exactly once: the step that finds the
/// endpoint full or closed removes the sid and emits its one UNSUB; a
/// further message for the same sid finds no subscription, delivers
/// nothing, and emits nothing.
pub proof fn lemma_slow_consumer_eviction(
    pre: SubscriptionContext,
    mid: SubscriptionContext,
    post: SubscriptionContext,
    op1: ServerOp,
    e1: ServerEffect,
    out1: Seq<u8>,
    f1: bool,
    op2: ServerOp,
    e2: ServerEffect,
    out2: Seq<u8>,
    f2: bool,
    s: u64,
)
    requires
        pre.wf(),
        server_step_post(pre, mid, op1, e1, out1, f1),
        server_step_post(mid, post, op2, e2, out2, f2),
        op1 matches ServerOp::Message { sid, .. } && sid == s,
        op2 matches ServerOp::Message { sid, .. } && sid == s,
        e1 == (ServerEffect::Evicted { sid: s }),
    ensures
        out1 == unsub_frame(s as int),
        !mid.subs().contains_key(s),
        e2 == (ServerEffect::NoSubscription { sid: s }),
        out2 == Seq::<u8>::empty(),
        !f2,
        post == mid,
{
}

} // verus!
