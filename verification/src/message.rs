//! A message as delivered to a subscription's consumer.

use vstd::prelude::*;

verus! {

/// One delivered message: the subject it was published on, the optional
/// reply subject, and the raw payload bytes.
#[derive(Debug, Clone)]
pub struct Message {
    /// Subject the message was published on.
    pub subject: Vec<u8>,
    /// Reply subject to respond on, if the publisher asked for one.
    pub reply: Option<Vec<u8>>,
    /// The payload, exactly as it appeared on the wire.
    pub payload: Vec<u8>,
}

} // verus!
