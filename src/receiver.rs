//! The receiving end: counts payload bytes and answers control requests.
use crate::codec::{
    classify, count_bytes, encode_count, lemma_count_round_trip, le_value, message_kind, Message,
    RESET_REQUEST,
};
use vstd::prelude::*;

verus! {

/// Counts the bytes received since the last reset.
pub struct Receiver {
    pub counter: u64,
}

/// The counter after `len` more bytes arrive; it stops at the largest `u64`.
pub open spec fn counter_after(counter: u64, len: nat) -> u64 {
    if counter + len > u64::MAX {
        u64::MAX
    } else {
        (counter + len) as u64
    }
}

/// The receiver's counter and reply after it handles datagram `d`.
pub open spec fn receiver_step(counter: u64, d: Seq<u8>) -> (u64, Option<Seq<u8>>) {
    match message_kind(d) {
        Message::ResetRequest => (0, Some(count_bytes(0))),
        Message::FinishRequest => (counter, Some(count_bytes(counter))),
        Message::Data => (counter_after(counter, d.len()), None),
    }
}

impl Receiver {
    pub fn new() -> (r: Receiver)
        ensures
            r.counter == 0,
    {
        Receiver { counter: 0 }
    }

    /// Handles one datagram and returns the reply to send back, if any.
    pub fn handle_datagram(&mut self, d: &[u8]) -> (reply: Option<Vec<u8>>)
        ensures
            final(self).counter == receiver_step(old(self).counter, d@).0,
            match receiver_step(old(self).counter, d@).1 {
                Some(s) => reply matches Some(r) && r@ == s,
                None => reply is None,
            },
    {
        match classify(d) {
            Message::ResetRequest => {
                self.counter = 0;
                Some(encode_count(self.counter))
            },
            Message::FinishRequest => Some(encode_count(self.counter)),
            Message::Data => {
                self.counter = self.counter.saturating_add(d.len() as u64);
                None
            },
        }
    }
}

/// A receiver whose counter holds any value greater than zero, on a reset
/// request, zeroes its counter and replies with a count that reads as zero.
pub proof fn lemma_reset_zeroes(v: u64)
    requires
        v > 0,
    ensures
        receiver_step(v, seq![RESET_REQUEST]).0 == 0,
        receiver_step(v, seq![RESET_REQUEST]).1 matches Some(reply) && reply.len() == 8
            && le_value(reply) == 0,
{
    lemma_count_round_trip(0);
}

} // verus!
