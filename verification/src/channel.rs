//! Delivery channels layered over an unreliable datagram transport: the
//! reliable-ordered channel tags every message with a sequence number,
//! keeps it queued until the peer acknowledges it, and accepts inbound
//! messages only in sequence order, so what is delivered is exactly the
//! sent prefix, in send order, with no duplicates.

use vstd::prelude::*;

verus! {

/// Delivery class of a message: guaranteed in-order delivery with
/// retransmission, or best effort.
#[derive(Clone, Copy, PartialEq, Eq, Structural, Debug)]
pub enum ChannelKind {
    Reliable,
    Unreliable,
}

/// Copies a byte buffer element by element.
pub(crate) fn clone_bytes(data: &Vec<u8>) -> (r: Vec<u8>)
    ensures
        r@ == data@,
{
    let mut r: Vec<u8> = Vec::new();
    let mut i: usize = 0;
    while i < data.len()
        invariant
            i <= data@.len(),
            r@ == data@.take(i as int),
        decreases data@.len() - i,
    {
        r.push(data[i]);
        i = i + 1;
    }
    proof {
        assert(r@ =~= data@);
    }
    r
}

/// Sending half of the reliable-ordered channel: every message is tagged
/// with the next sequence number and stays queued until the peer
/// acknowledges everything before it.
pub struct ReliableSender {
    next_seq: u64,
    pending: Vec<(u64, Vec<u8>)>,
}

impl ReliableSender {
    /// Sequence number the next sent message will carry; it equals the
    /// number of messages sent so far.
    pub closed spec fn spec_next_seq(self) -> u64 {
        self.next_seq
    }

    /// The sent-but-unacknowledged messages, oldest first, each with the
    /// sequence number it was sent under.
    pub closed spec fn spec_pending(self) -> Seq<(u64, Seq<u8>)> {
        self.pending@.map_values(|p: (u64, Vec<u8>)| (p.0, p.1@))
    }

    /// Sequence number of the oldest unacknowledged message.
    pub open spec fn spec_base(self) -> int {
        self.spec_next_seq() - self.spec_pending().len()
    }

    /// The queue holds exactly the consecutive run of sequence numbers
    /// just below `next_seq`.
    pub open spec fn wf(self) -> bool {
        &&& self.spec_pending().len() <= self.spec_next_seq()
        &&& forall|i: int|
            0 <= i < self.spec_pending().len()
                ==> (#[trigger] self.spec_pending()[i]).0 == self.spec_base() + i
    }

    pub fn new() -> (s: ReliableSender)
        ensures
            s.wf(),
            s.spec_next_seq() == 0,
            s.spec_pending() == Seq::<(u64, Seq<u8>)>::empty(),
    {
        let s = ReliableSender { next_seq: 0, pending: Vec::new() };
        proof {
            assert(s.spec_pending() =~= Seq::<(u64, Seq<u8>)>::empty());
        }
        s
    }

    /// Whether one more message can be queued: the sequence space is not
    /// exhausted.
    pub fn can_take_one(&self) -> (r: bool)
        ensures
            r == (self.spec_next_seq() < u64::MAX),
    {
        self.next_seq < u64::MAX
    }

    /// Queues `data` under the next sequence number and returns that
    /// number; the message stays pending until acknowledged.
    pub fn send(&mut self, data: Vec<u8>) -> (seq: u64)
        requires
            old(self).wf(),
            old(self).spec_next_seq() < u64::MAX,
        ensures
            final(self).wf(),
            seq == old(self).spec_next_seq(),
            final(self).spec_next_seq() == old(self).spec_next_seq() + 1,
            final(self).spec_pending() == old(self).spec_pending().push((seq, data@)),
    {
        let seq = self.next_seq;
        self.pending.push((seq, data));
        self.next_seq = self.next_seq + 1;
        proof {
            assert(self.spec_pending() =~= old(self).spec_pending().push((seq, data@)));
        }
        seq
    }

    /// How many of the queued messages an acknowledgement up to `next`
    /// (exclusive) discharges.
    pub open spec fn spec_ack_drop(self, next: u64) -> int {
        if next <= self.spec_base() {
            0
        } else if next >= self.spec_next_seq() {
            self.spec_pending().len() as int
        } else {
            next - self.spec_base()
        }
    }

    /// Drops every pending message whose sequence number is below `next`:
    /// the peer has acknowledged receipt of everything before `next`.
    pub fn on_ack(&mut self, next: u64)
        requires
            old(self).wf(),
        ensures
            final(self).wf(),
            final(self).spec_next_seq() == old(self).spec_next_seq(),
            final(self).spec_pending() == old(self).spec_pending().skip(
                old(self).spec_ack_drop(next),
            ),
    {
        let ghost orig = *self;
        let ghost mut dropped: int = 0;
        loop
            invariant
                self.next_seq == orig.spec_next_seq(),
                0 <= dropped <= orig.spec_pending().len(),
                self.spec_pending() == orig.spec_pending().skip(dropped),
                self.wf(),
                dropped <= orig.spec_ack_drop(next),
            ensures
                self.next_seq == orig.spec_next_seq(),
                self.spec_pending() == orig.spec_pending().skip(orig.spec_ack_drop(next)),
            decreases orig.spec_pending().len() - dropped,
        {
            if self.pending.len() == 0 {
                proof {
                    assert(self.spec_pending().len() == 0);
                    assert(dropped == orig.spec_ack_drop(next));
                    assert(self.spec_pending() =~= orig.spec_pending().skip(
                        orig.spec_ack_drop(next),
                    ));
                }
                break;
            }
            let front_seq = self.pending[0].0;
            proof {
                assert(self.spec_pending()[0].0 == front_seq);
            }
            if front_seq >= next {
                proof {
                    assert(dropped == orig.spec_ack_drop(next));
                    assert(self.spec_pending() =~= orig.spec_pending().skip(
                        orig.spec_ack_drop(next),
                    ));
                }
                break;
            }
            let ghost before = self.spec_pending();
            self.pending.remove(0);
            proof {
                dropped = dropped + 1;
                assert(self.spec_pending() =~= before.skip(1));
                assert(before.skip(1) =~= orig.spec_pending().skip(dropped));
            }
        }
    }

    /// A copy of every pending message with its sequence number, oldest
    /// first, for retransmission.
    pub fn pending_messages(&self) -> (r: Vec<(u64, Vec<u8>)>)
        ensures
            r@.len() == self.spec_pending().len(),
            forall|i: int|
                0 <= i < r@.len() ==> (#[trigger] r@[i]).0 == self.spec_pending()[i].0 && r@[i].1@
                    == self.spec_pending()[i].1,
    {
        let mut r: Vec<(u64, Vec<u8>)> = Vec::new();
        let mut i: usize = 0;
        while i < self.pending.len()
            invariant
                i <= self.spec_pending().len(),
                self.spec_pending().len() == self.pending@.len(),
                r@.len() == i,
                forall|j: int|
                    0 <= j < i ==> (#[trigger] r@[j]).0 == self.spec_pending()[j].0 && r@[j].1@
                        == self.spec_pending()[j].1,
            decreases self.pending@.len() - i,
        {
            let seq = self.pending[i].0;
            let data = clone_bytes(&self.pending[i].1);
            r.push((seq, data));
            i = i + 1;
        }
        r
    }
}

/// Receiving half of the reliable-ordered channel: accepts only the next
/// expected sequence number, so the inbox holds the delivered messages in
/// exactly their send order, with no gaps and no duplicates.
pub struct ReliableReceiver {
    next_expected: u64,
    inbox: Vec<Vec<u8>>,
}

impl ReliableReceiver {
    /// Sequence number of the next message that will be accepted; every
    /// message before it has been delivered exactly once.
    pub closed spec fn spec_next_expected(self) -> u64 {
        self.next_expected
    }

    /// Messages delivered and not yet drained by the consumer, in send
    /// order.
    pub closed spec fn spec_inbox(self) -> Seq<Seq<u8>> {
        self.inbox@.map_values(|d: Vec<u8>| d@)
    }

    pub fn new() -> (r: ReliableReceiver)
        ensures
            r.spec_next_expected() == 0,
            r.spec_inbox() == Seq::<Seq<u8>>::empty(),
    {
        let r = ReliableReceiver { next_expected: 0, inbox: Vec::new() };
        proof {
            assert(r.spec_inbox() =~= Seq::<Seq<u8>>::empty());
        }
        r
    }

    /// Handles one inbound reliable payload: accepted exactly when it
    /// carries the next expected sequence number; anything else (a
    /// duplicate or an out-of-order message) is dropped and awaited again.
    pub fn on_payload(&mut self, seq: u64, data: Vec<u8>) -> (accepted: bool)
        ensures
            accepted == (seq == old(self).spec_next_expected() && old(self).spec_next_expected()
                < u64::MAX),
            accepted ==> final(self).spec_next_expected() == old(self).spec_next_expected() + 1
                && final(self).spec_inbox() == old(self).spec_inbox().push(data@),
            !accepted ==> *final(self) == *old(self),
    {
        if seq == self.next_expected && self.next_expected < u64::MAX {
            let ghost before = self.spec_inbox();
            self.inbox.push(data);
            self.next_expected = self.next_expected + 1;
            proof {
                assert(self.spec_inbox() =~= before.push(self.inbox@[self.inbox@.len() - 1]@));
            }
            true
        } else {
            false
        }
    }

    /// The acknowledgement to report to the peer: everything below this
    /// sequence number has been delivered.
    pub fn ack_value(&self) -> (r: u64)
        ensures
            r == self.spec_next_expected(),
    {
        self.next_expected
    }

    /// Drains the oldest delivered message, if one is waiting.
    pub fn receive(&mut self) -> (r: Option<Vec<u8>>)
        ensures
            final(self).spec_next_expected() == old(self).spec_next_expected(),
            match r {
                Some(data) => old(self).spec_inbox().len() > 0 && data@ == old(
                    self,
                ).spec_inbox()[0] && final(self).spec_inbox() == old(self).spec_inbox().skip(1),
                None => old(self).spec_inbox().len() == 0 && *final(self) == *old(self),
            },
    {
        if self.inbox.len() > 0 {
            let ghost before = self.spec_inbox();
            let data = self.inbox.remove(0);
            proof {
                assert(self.spec_inbox() =~= before.skip(1));
            }
            Some(data)
        } else {
            None
        }
    }
}

} // verus!
