//! The subscription registry: a process-local table from subscription
//! identifiers to delivery endpoints.
//!
//! Two counters run together: `next_sid` is the server-facing identifier
//! written in SUB/UNSUB/MSG frames, `next_uid` the user-facing identifier
//! a subscriber handle keeps for its fire-and-forget unsubscribe.  In the
//! current design the two are allocated in lockstep, so every user
//! identifier maps to itself; the event loop still resolves uid to sid
//! through the table.  Identifiers start at 1, grow strictly, and are
//! never reused.

use vstd::prelude::*;
use std::collections::HashMap;
use crate::message::Message;

verus! {

broadcast use vstd::std_specs::hash::group_hash_axioms;

#[verifier::external_type_specification]
#[verifier::external_body]
#[verifier::reject_recursive_types(T)]
pub struct ExSender<T>(tokio::sync::mpsc::Sender<T>);

/// Outcome of one non-blocking delivery attempt on a bounded endpoint.
#[derive(Clone, Copy, Debug, PartialEq, Eq, Structural)]
pub enum DeliverOutcome {
    /// The endpoint accepted the message.
    Delivered,
    /// The endpoint's buffer is full: the consumer is slow.
    ChannelFull,
    /// The consumer closed or dropped its receiving side.
    ChannelClosed,
}

/// Relies on `tokio::sync::mpsc::Sender::try_send`: delivers without
/// waiting, and reports a full buffer and a closed receiver as the two
/// failure cases, handing the message back.  Which case occurs depends on
/// the channel's state, so nothing more is claimed of the result.
#[verifier::external_body]
fn try_send_message(s: &tokio::sync::mpsc::Sender<Message>, m: Message) -> DeliverOutcome {
    match s.try_send(m) {
        Ok(()) => DeliverOutcome::Delivered,
        Err(tokio::sync::mpsc::error::TrySendError::Full(_)) => DeliverOutcome::ChannelFull,
        Err(tokio::sync::mpsc::error::TrySendError::Closed(_)) => DeliverOutcome::ChannelClosed,
    }
}

/// One registered subscription: the sending half of its bounded delivery
/// endpoint.  The receiving half lives in the subscriber's handle outside
/// this crate.
pub struct Subscription {
    sender: tokio::sync::mpsc::Sender<Message>,
}

impl Subscription {
    pub fn new(sender: tokio::sync::mpsc::Sender<Message>) -> Subscription {
        Subscription { sender }
    }

    /// One non-blocking attempt to hand `m` to the consumer.
    pub fn try_deliver(&self, m: Message) -> DeliverOutcome {
        try_send_message(&self.sender, m)
    }
}

/// The registry state: both counters and both tables.
pub struct SubscriptionContext {
    next_sid: u64,
    next_uid: u64,
    subscription_map: HashMap<u64, Subscription>,
    uid_map: HashMap<u64, u64>,
}

impl SubscriptionContext {
    /// The sid the next subscription will get.
    pub closed spec fn spec_next_sid(&self) -> u64 {
        self.next_sid
    }

    /// The uid the next subscription will get.
    pub closed spec fn spec_next_uid(&self) -> u64 {
        self.next_uid
    }

    /// The live subscriptions, by sid.
    pub closed spec fn subs(&self) -> Map<u64, Subscription> {
        self.subscription_map@
    }

    /// The user-facing identifiers, each mapped to its wire sid.
    pub closed spec fn uids(&self) -> Map<u64, u64> {
        self.uid_map@
    }

    /// Well-formedness: counters run in lockstep from 1; every table key
    /// was allocated by a past insert (it sits below the counters); a uid
    /// resolves to itself; and every live sid still has its uid entry.
    pub open spec fn wf(&self) -> bool {
        &&& self.spec_next_sid() == self.spec_next_uid()
        &&& self.spec_next_sid() >= 1
        &&& forall|k: u64| #[trigger]
            self.subs().contains_key(k) ==> k < self.spec_next_sid()
        &&& forall|k: u64| #[trigger]
            self.uids().contains_key(k) ==> k < self.spec_next_uid() && self.uids()[k] == k
        &&& forall|k: u64| #[trigger]
            self.subs().contains_key(k) ==> self.uids().contains_key(k)
    }

    /// An empty registry, counters at 1.
    pub fn new() -> (r: SubscriptionContext)
        ensures
            r.wf(),
            r.spec_next_sid() == 1,
            r.subs() == Map::<u64, Subscription>::empty(),
            r.uids() == Map::<u64, u64>::empty(),
    {
        SubscriptionContext {
            next_sid: 1,
            next_uid: 1,
            subscription_map: HashMap::new(),
            uid_map: HashMap::new(),
        }
    }

    /// The subscription registered under `sid`, if it is live.
    pub fn get(&self, sid: u64) -> (r: Option<&Subscription>)
        ensures
            match r {
                Some(s) => self.subs().contains_key(sid) && *s == self.subs()[sid],
                None => !self.subs().contains_key(sid),
            },
    {
        self.subscription_map.get(&sid)
    }

    /// Registers a subscription: allocates the (sid, uid) pair atomically,
    /// bumps both counters, records both table entries, and returns the
    /// sid — which is fresh: it was never in the table before.
    pub fn insert(&mut self, subscription: Subscription) -> (r: u64)
        requires
            old(self).wf(),
            old(self).spec_next_sid() < u64::MAX,
        ensures
            final(self).wf(),
            r == old(self).spec_next_sid(),
            !old(self).subs().contains_key(r),
            final(self).spec_next_sid() == r + 1,
            final(self).subs() == old(self).subs().insert(r, subscription),
            final(self).uids() == old(self).uids().insert(r, r),
    {
        let sid = self.next_sid;
        let uid = self.next_uid;
        self.next_sid = self.next_sid + 1;
        self.next_uid = self.next_uid + 1;

        self.subscription_map.insert(sid, subscription);
        self.uid_map.insert(uid, sid);

        proof {
            assert forall|k: u64| #[trigger] self.subs().contains_key(k) implies k
                < self.spec_next_sid() by {
                if k != sid {
                    assert(old(self).subs().contains_key(k));
                }
            }
            assert forall|k: u64| #[trigger] self.uids().contains_key(k) implies k
                < self.spec_next_uid() && self.uids()[k] == k by {
                if k != uid {
                    assert(old(self).uids().contains_key(k));
                }
            }
            assert forall|k: u64| #[trigger] self.subs().contains_key(k) implies self.uids(
            ).contains_key(k) by {
                if k != sid {
                    assert(old(self).subs().contains_key(k));
                }
            }
        }
        sid
    }

    /// Drops the subscription registered under `sid`, reporting whether
    /// one was live.  The uid entry and the counters stay: identifiers
    /// are never reused.
    pub fn remove(&mut self, sid: u64) -> (r: bool)
        requires
            old(self).wf(),
        ensures
            final(self).wf(),
            r == old(self).subs().contains_key(sid),
            final(self).subs() == old(self).subs().remove(sid),
            final(self).uids() == old(self).uids(),
            final(self).spec_next_sid() == old(self).spec_next_sid(),
    {
        let r = self.subscription_map.remove(&sid).is_some();
        proof {
            if !old(self).subs().contains_key(sid) {
                assert(old(self).subs().remove(sid) =~= old(self).subs());
            }
            assert forall|k: u64| #[trigger] self.subs().contains_key(k) implies k
                < self.spec_next_sid() by {
                assert(old(self).subs().contains_key(k));
            }
            assert forall|k: u64| #[trigger] self.uids().contains_key(k) implies k
                < self.spec_next_uid() && self.uids()[k] == k by {
                assert(old(self).uids().contains_key(k));
            }
            assert forall|k: u64| #[trigger] self.subs().contains_key(k) implies self.uids(
            ).contains_key(k) by {
                assert(old(self).subs().contains_key(k));
            }
        }
        r
    }

    /// Whether the identifier space is used up, so that no further
    /// subscription can be registered.  After one insert per nanosecond
    /// this takes five centuries; the caller checks all the same.
    pub fn ids_exhausted(&self) -> (r: bool)
        ensures
            r == (self.spec_next_sid() == u64::MAX),
    {
        self.next_sid == u64::MAX
    }

    /// Resolves a user-facing identifier to its wire sid.
    pub fn get_sid(&self, uid: u64) -> (r: Option<u64>)
        ensures
            match r {
                Some(sid) => self.uids().contains_key(uid) && sid == self.uids()[uid],
                None => !self.uids().contains_key(uid),
            },
    {
        match self.uid_map.get(&uid) {
            Some(sid) => Some(*sid),
            None => None,
        }
    }
}

/// Identifier monotonicity.  Any sid handed out in the past sits below
/// the counter (`s1 < a.spec_next_sid()` — `insert` returns the counter
/// and bumps it, and no operation ever lowers it), so the sid the next
/// insert hands out is strictly larger than every sid handed out before,
/// and is not a key of the table: within one client's lifetime, sids
/// strictly increase and are never reused.
pub proof fn lemma_sid_monotonicity(a: SubscriptionContext, s1: u64, s2: u64)
    requires
        a.wf(),
        s1 < a.spec_next_sid(),
        s2 == a.spec_next_sid(),
    ensures
        s2 > s1,
        !a.subs().contains_key(s2),
        !a.uids().contains_key(s2),
{
}

} // verus!
