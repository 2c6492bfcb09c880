//! The fan-out hub: one producer, many independent handles.
//!
//! Every published message is appended to the pending sequence of every
//! subscribed handle. Each handle's pending sequence is bounded by the
//! hub's capacity: when a handle is a full buffer behind, a publish
//! evicts that handle's oldest pending message, and that handle's alone.
//! Receives on one handle never touch another handle or the producer.

use vstd::prelude::*;

use crate::message::Message;
use crate::message::MessageData;

verus! {

/// A handle's pending sequence after a publish of `m` on a hub of
/// capacity `cap`: the message is appended, and the handle's oldest
/// pending message is evicted first when its buffer is full.
pub open spec fn pending_after_publish(p: Seq<MessageData>, m: MessageData, cap: nat) -> Seq<
    MessageData,
> {
    if p.len() >= cap {
        p.drop_first().push(m)
    } else {
        p.push(m)
    }
}

/// The fan-out hub. The retained log is a window of the published
/// history; each handle is a cursor into that history.
pub struct Hub {
    log: Vec<Message>,
    start: usize,
    cursors: Vec<usize>,
    capacity: usize,
    hist: Ghost<Seq<MessageData>>,
}

impl Hub {
    /// Every message ever published to this hub, in publish order.
    pub closed spec fn history(self) -> Seq<MessageData> {
        self.hist@
    }

    /// How many handles `subscribe` has handed out.
    pub closed spec fn num_handles(self) -> nat {
        self.cursors@.len()
    }

    /// The per-handle buffer capacity.
    pub closed spec fn cap(self) -> nat {
        self.capacity as nat
    }

    /// The messages handle `h` has yet to receive, in publish order.
    pub closed spec fn pending(self, h: int) -> Seq<MessageData> {
        let c = self.cursors@[h] as int;
        let eff = if c > self.start as int {
            c
        } else {
            self.start as int
        };
        self.hist@.skip(eff)
    }

    /// The hub's internal invariant: the log is the retained window of
    /// the history, it never exceeds the capacity, and every cursor
    /// stays within the history.
    pub closed spec fn inv(self) -> bool {
        &&& self.capacity >= 1
        &&& self.log@.len() <= self.capacity
        &&& self.start + self.log@.len() == self.hist@.len()
        &&& self.hist@.len() <= usize::MAX
        &&& (forall|i: int|
            0 <= i < self.log@.len() ==> self.log@[i]@ == self.hist@[self.start + i])
        &&& (forall|h: int| 0 <= h < self.cursors@.len() ==> self.cursors@[h] <= self.hist@.len())
    }

    /// A hub with no history and no handles.
    pub fn new(capacity: usize) -> (hub: Hub)
        requires
            capacity >= 1,
        ensures
            hub.inv(),
            hub.history() == Seq::<MessageData>::empty(),
            hub.num_handles() == 0,
            hub.cap() == capacity,
    {
        let hub = Hub {
            log: Vec::new(),
            start: 0,
            cursors: Vec::new(),
            capacity,
            hist: Ghost(Seq::empty()),
        };
        hub
    }

    /// How many messages have been published to this hub.
    pub fn published_count(&self) -> (n: usize)
        requires
            self.inv(),
        ensures
            n == self.history().len(),
    {
        self.start + self.log.len()
    }

    /// How many handles `subscribe` has handed out.
    pub fn handle_count(&self) -> (n: usize)
        ensures
            n == self.num_handles(),
    {
        self.cursors.len()
    }

    /// A new handle that will observe every message published after
    /// this call, and nothing published before it.
    pub fn subscribe(&mut self) -> (h: usize)
        requires
            old(self).inv(),
            old(self).num_handles() < usize::MAX,
        ensures
            final(self).inv(),
            h == old(self).num_handles(),
            final(self).num_handles() == old(self).num_handles() + 1,
            final(self).history() == old(self).history(),
            final(self).cap() == old(self).cap(),
            final(self).pending(h as int) == Seq::<MessageData>::empty(),
            forall|g: int|
                0 <= g < old(self).num_handles() ==> final(self).pending(g) == old(self).pending(
                    g,
                ),
    {
        let h = self.cursors.len();
        let end = self.start + self.log.len();
        self.cursors.push(end);
        proof {
            assert(final(self).pending(h as int) =~= Seq::<MessageData>::empty());
        }
        h
    }

    /// Publish a message: append it to the history and to every handle's
    /// pending sequence, evicting only from handles whose buffer is full.
    /// Publishing never waits for any consumer and succeeds with zero
    /// subscribers as well.
    pub fn publish(&mut self, m: Message)
        requires
            old(self).inv(),
            old(self).history().len() < usize::MAX,
        ensures
            final(self).inv(),
            final(self).history() == old(self).history().push(m@),
            final(self).cap() == old(self).cap(),
            final(self).num_handles() == old(self).num_handles(),
            forall|h: int|
                0 <= h < old(self).num_handles() ==> final(self).pending(h)
                    == pending_after_publish(old(self).pending(h), m@, old(self).cap()),
    {
        let ghost pre = *self;
        let ghost mv = m@;
        self.hist = Ghost(self.hist@.push(mv));
        self.log.push(m);
        if self.log.len() > self.capacity {
            self.log.remove(0);
            self.start = self.start + 1;
        }
        proof {
            let h0 = pre.hist@;
            assert forall|h: int| 0 <= h < pre.num_handles() implies final(self).pending(h)
                == pending_after_publish(pre.pending(h), mv, pre.cap()) by {
                let c = pre.cursors@[h] as int;
                let s0 = pre.start as int;
                let eff = if c > s0 {
                    c
                } else {
                    s0
                };
                if pre.log@.len() == pre.capacity {
                    if c <= s0 {
                        assert(pre.pending(h).len() == pre.cap());
                        assert(h0.push(mv).skip(s0 + 1) =~= h0.skip(s0).drop_first().push(mv));
                    } else {
                        assert(pre.pending(h).len() < pre.cap());
                        assert(h0.push(mv).skip(c) =~= h0.skip(c).push(mv));
                    }
                } else {
                    assert(pre.pending(h).len() < pre.cap());
                    assert(h0.push(mv).skip(eff) =~= h0.skip(eff).push(mv));
                }
            }
        }
    }

    /// Receive the next pending message on handle `h`, if there is one:
    /// the oldest not yet received, removed from that handle's pending
    /// sequence and from no other's.
    pub fn recv(&mut self, h: usize) -> (r: Option<Message>)
        requires
            old(self).inv(),
            h < old(self).num_handles(),
        ensures
            final(self).inv(),
            final(self).history() == old(self).history(),
            final(self).cap() == old(self).cap(),
            final(self).num_handles() == old(self).num_handles(),
            forall|g: int|
                0 <= g < old(self).num_handles() && g != h ==> final(self).pending(g) == old(
                    self,
                ).pending(g),
            match r {
                Some(m) => old(self).pending(h as int).len() > 0 && m@ == old(self).pending(
                    h as int,
                )[0] && final(self).pending(h as int) == old(self).pending(h as int).drop_first(),
                None => old(self).pending(h as int).len() == 0 && final(self).pending(h as int)
                    == old(self).pending(h as int),
            },
    {
        let ghost pre = *self;
        let c = self.cursors[h];
        let eff = if c > self.start {
            c
        } else {
            self.start
        };
        let end = self.start + self.log.len();
        if eff < end {
            let idx = eff - self.start;
            let m = self.log[idx].clone();
            self.cursors.set(h, eff + 1);
            proof {
                assert(m@ == pre.hist@[eff as int]);
                assert(pre.pending(h as int)[0] == pre.hist@[eff as int]);
                assert(final(self).pending(h as int) =~= pre.pending(h as int).drop_first());
            }
            Some(m)
        } else {
            None
        }
    }
}

/// Fan-out with room: a publish appends the message to a handle's
/// pending sequence, behind everything the handle has yet to receive;
/// each receive then removes exactly the head, so the handle yields the
/// message exactly once, in publish order.
pub proof fn lemma_fan_out(p: Seq<MessageData>, m: MessageData, cap: nat)
    requires
        p.len() < cap,
    ensures
        pending_after_publish(p, m, cap) == p.push(m),
        pending_after_publish(p, m, cap).len() == p.len() + 1,
        pending_after_publish(p, m, cap)[p.len() as int] == m,
{
}

/// Slow-consumer eviction: a publish against a full buffer drops exactly
/// that buffer's oldest entry to make room, and the buffer stays at
/// capacity; no other handle and no producer is involved.
pub proof fn lemma_eviction_at_capacity(p: Seq<MessageData>, m: MessageData, cap: nat)
    requires
        p.len() == cap,
        cap >= 1,
    ensures
        pending_after_publish(p, m, cap) == p.drop_first().push(m),
        pending_after_publish(p, m, cap).len() == cap,
        forall|i: int| 0 <= i < cap - 1 ==> pending_after_publish(p, m, cap)[i] == p[i + 1],
        pending_after_publish(p, m, cap)[cap - 1] == m,
{
}

/// A handle's pending sequence never exceeds the hub's capacity,
/// however long the handle goes without receiving.
pub proof fn lemma_pending_bounded(hub: Hub, h: int)
    requires
        hub.inv(),
        0 <= h < hub.num_handles(),
    ensures
        hub.pending(h).len() <= hub.cap(),
{
}

/// A handle a full buffer behind holds exactly the most recent `cap`
/// published messages, in publish order, the earliest of them first.
pub proof fn lemma_full_buffer_holds_latest(hub: Hub, h: int)
    requires
        hub.inv(),
        0 <= h < hub.num_handles(),
        hub.pending(h).len() == hub.cap(),
    ensures
        hub.pending(h) == hub.history().skip(hub.history().len() - hub.cap()),
{
}

} // verus!
