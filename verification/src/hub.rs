//! The broadcast hub: one publish reaches every current subscriber. Each
//! subscriber owns a bounded delivery queue; when it cannot keep up, the
//! oldest undelivered snapshot is dropped rather than blocking the
//! publisher. Because every delivered value is a full snapshot, a lost
//! intermediate one is harmless: whatever a subscriber receives next
//! extends everything it has already seen.

use vstd::prelude::*;

use crate::text::{copy_bytes, lemma_prefix_transitive};

verus! {

/// A subscriber's queue after a publish: the new snapshot joins the
/// back; when the queue already holds `bound` entries, the oldest is
/// dropped first.
pub open spec fn queue_after_publish(pending: Seq<Seq<u8>>, bound: nat, snap: Seq<u8>) -> Seq<
    Seq<u8>,
> {
    if pending.len() == bound {
        pending.drop_first().push(snap)
    } else {
        pending.push(snap)
    }
}

/// How one subscription changes when `snap` is published: the replica is
/// untouched, the queue gains the snapshot (dropping its oldest entry if
/// full), and the snapshot becomes the newest known.
pub open spec fn sub_published(s0: Subscriber, s1: Subscriber, snap: Seq<u8>) -> bool {
    &&& s1.wf()
    &&& s1.bound() == s0.bound()
    &&& s1.seen() == s0.seen()
    &&& s1.pending() == queue_after_publish(s0.pending(), s0.bound(), snap)
    &&& s1.newest() == snap
}

/// One subscription: a bounded queue of undelivered snapshots, oldest
/// first, and the latest snapshot this subscriber has actually observed
/// (its replica of the shared text).
pub struct Subscriber {
    queue: Vec<Vec<u8>>,
    bound: usize,
    seen: Vec<u8>,
}

impl Subscriber {
    /// The undelivered snapshots, oldest first.
    pub closed spec fn pending(self) -> Seq<Seq<u8>> {
        Seq::new(self.queue@.len(), |i: int| self.queue@[i]@)
    }

    /// The latest snapshot delivered to this subscriber.
    pub closed spec fn seen(self) -> Seq<u8> {
        self.seen@
    }

    /// The queue's capacity; once full, a publish drops the oldest entry.
    pub closed spec fn bound(self) -> nat {
        self.bound as nat
    }

    /// The newest snapshot this subscription knows of: the back of the
    /// queue, or the replica when nothing is undelivered.
    pub open spec fn newest(self) -> Seq<u8> {
        if self.pending().len() > 0 {
            self.pending().last()
        } else {
            self.seen()
        }
    }

    /// Well-formedness: the queue respects its bound, its entries extend
    /// one another in arrival order, and every entry extends what the
    /// subscriber has already observed. This is what makes dropped
    /// snapshots harmless.
    pub open spec fn wf(self) -> bool {
        &&& self.bound() > 0
        &&& self.pending().len() <= self.bound()
        &&& forall|i: int, j: int|
            0 <= i <= j < self.pending().len() ==> (#[trigger] self.pending()[i]).is_prefix_of(
                #[trigger] self.pending()[j],
            )
        &&& forall|i: int|
            0 <= i < self.pending().len() ==> self.seen().is_prefix_of(
                #[trigger] self.pending()[i],
            )
    }

    /// A fresh subscription delivering future publishes only: its replica
    /// starts at `initial`, the snapshot its connection was given
    /// directly, and its queue is empty.
    pub fn subscribe(bound: usize, initial: &Vec<u8>) -> (s: Subscriber)
        requires
            bound > 0,
        ensures
            s.wf(),
            s.bound() == bound,
            s.seen() == initial@,
            s.pending() == Seq::<Seq<u8>>::empty(),
    {
        let s = Subscriber { queue: Vec::new(), bound, seen: copy_bytes(initial) };
        proof {
            assert(s.pending() =~= Seq::<Seq<u8>>::empty());
        }
        s
    }

    /// Enqueues a published snapshot. When the queue is full the oldest
    /// undelivered entry is dropped — the publisher never blocks — and
    /// the new snapshot joins the back. The published snapshot must
    /// extend the newest one this subscription knows of, which the
    /// coordinator guarantees by publishing every new shared text.
    pub fn push_snapshot(&mut self, snap: &Vec<u8>)
        requires
            old(self).wf(),
            old(self).newest().is_prefix_of(snap@),
        ensures
            sub_published(*old(self), *final(self), snap@),
    {
        proof {
            assert forall|i: int| 0 <= i < old(self).pending().len() implies (
            #[trigger] old(self).pending()[i]).is_prefix_of(snap@) by {
                lemma_prefix_transitive(old(self).pending()[i], old(self).newest(), snap@);
            }
            assert(old(self).seen().is_prefix_of(snap@)) by {
                if old(self).pending().len() > 0 {
                    lemma_prefix_transitive(old(self).seen(), old(self).pending()[0], snap@);
                }
            }
        }
        if self.queue.len() == self.bound {
            self.queue.remove(0);
            proof {
                assert(self.pending() =~= old(self).pending().drop_first());
            }
        }
        let ghost mid = self.pending();
        self.queue.push(copy_bytes(snap));
        proof {
            assert(self.pending() =~= mid.push(snap@));
        }
    }

    /// Delivers the oldest undelivered snapshot, if any, and makes it the
    /// replica. What is returned always extends the previous replica:
    /// however many intermediate snapshots were dropped, a subscriber
    /// never observes the shared text shrink or diverge.
    pub fn recv(&mut self) -> (r: Option<Vec<u8>>)
        requires
            old(self).wf(),
        ensures
            final(self).wf(),
            final(self).bound() == old(self).bound(),
            old(self).pending().len() == 0 ==> {
                &&& r is None
                &&& final(self).pending() == old(self).pending()
                &&& final(self).seen() == old(self).seen()
            },
            old(self).pending().len() > 0 ==> {
                &&& (r matches Some(v) && v@ == old(self).pending()[0])
                &&& final(self).pending() == old(self).pending().drop_first()
                &&& final(self).seen() == old(self).pending()[0]
                &&& old(self).seen().is_prefix_of(final(self).seen())
            },
            final(self).newest() == old(self).newest(),
    {
        if self.queue.len() == 0 {
            None
        } else {
            let v = self.queue.remove(0);
            proof {
                assert(self.pending() =~= old(self).pending().drop_first());
            }
            self.seen = copy_bytes(&v);
            proof {
                assert forall|i: int|
                    0 <= i < self.pending().len() implies self.seen().is_prefix_of(
                    #[trigger] self.pending()[i],
                ) by {
                    assert(self.pending()[i] == old(self).pending()[i + 1]);
                    assert(old(self).pending()[0].is_prefix_of(old(self).pending()[i + 1]));
                }
                assert forall|i: int, j: int|
                    0 <= i <= j < self.pending().len() implies (
                #[trigger] self.pending()[i]).is_prefix_of(#[trigger] self.pending()[j]) by {
                    assert(self.pending()[i] == old(self).pending()[i + 1]);
                    assert(self.pending()[j] == old(self).pending()[j + 1]);
                }
            }
            Some(v)
        }
    }
}

/// Lossy-broadcast safety: in any well-formed subscription state,
/// everything still deliverable extends — and so is at least as long as
/// — the replica, which holds everything already delivered. However many
/// intermediate snapshots the queue dropped, nothing a subscriber can
/// receive next is older than what it has seen.
pub proof fn lemma_lossy_safety(s: Subscriber, i: int)
    requires
        s.wf(),
        0 <= i < s.pending().len(),
    ensures
        s.seen().is_prefix_of(s.pending()[i]),
        s.seen().len() <= s.pending()[i].len(),
{
}

/// The fan-out primitive of the coordinator: every currently registered
/// subscription receives each published snapshot, through its own bounded
/// queue.
pub struct Hub {
    subs: Vec<Subscriber>,
    bound: usize,
}

impl Hub {
    /// The current subscriptions.
    pub closed spec fn subscribers(self) -> Seq<Subscriber> {
        self.subs@
    }

    /// The queue capacity every subscription is created with.
    pub closed spec fn bound(self) -> nat {
        self.bound as nat
    }

    /// Well-formedness: every subscription is well-formed and carries the
    /// hub's bound.
    pub open spec fn wf(self) -> bool {
        &&& self.bound() > 0
        &&& forall|i: int|
            0 <= i < self.subscribers().len() ==> (#[trigger] self.subscribers()[i]).wf()
                && self.subscribers()[i].bound() == self.bound()
    }

    /// A hub with no subscribers yet, whose subscriptions will buffer at
    /// most `bound` undelivered snapshots each.
    pub fn new(bound: usize) -> (h: Hub)
        requires
            bound > 0,
        ensures
            h.wf(),
            h.bound() == bound,
            h.subscribers().len() == 0,
    {
        Hub { subs: Vec::new(), bound }
    }

    /// Registers a subscription and returns its handle. The subscriber
    /// will see future publishes only; `initial` is the snapshot its
    /// connection already received directly, which becomes its replica.
    pub fn subscribe(&mut self, initial: &Vec<u8>) -> (id: usize)
        requires
            old(self).wf(),
        ensures
            final(self).wf(),
            final(self).bound() == old(self).bound(),
            id == old(self).subscribers().len(),
            final(self).subscribers().len() == id + 1,
            forall|i: int|
                0 <= i < id ==> final(self).subscribers()[i] == old(self).subscribers()[i],
            final(self).subscribers()[id as int].seen() == initial@,
            final(self).subscribers()[id as int].pending() == Seq::<Seq<u8>>::empty(),
    {
        let id = self.subs.len();
        let sub = Subscriber::subscribe(self.bound, initial);
        self.subs.push(sub);
        proof {
            assert forall|i: int|
                0 <= i < self.subs@.len() implies (#[trigger] self.subs@[i]).wf()
                && self.subs@[i].bound() == self.bound as nat by {
                if i < id {
                    assert(self.subs@[i] == old(self).subs@[i]);
                    assert(old(self).subscribers()[i].wf());
                }
            }
        }
        id
    }

    /// Removes a subscription when its connection goes away. The handles
    /// of later subscribers shift down by one, as the caller's connection
    /// set is torn down with them.
    pub fn unsubscribe(&mut self, id: usize)
        requires
            old(self).wf(),
            id < old(self).subscribers().len(),
        ensures
            final(self).wf(),
            final(self).bound() == old(self).bound(),
            final(self).subscribers() == old(self).subscribers().remove(id as int),
    {
        self.subs.remove(id);
        proof {
            assert forall|i: int|
                0 <= i < self.subs@.len() implies (#[trigger] self.subs@[i]).wf()
                && self.subs@[i].bound() == self.bound as nat by {
                if i < id {
                    assert(self.subs@[i] == old(self).subscribers()[i]);
                } else {
                    assert(self.subs@[i] == old(self).subscribers()[i + 1]);
                }
                assert(old(self).subscribers()[if i < id { i } else { i + 1 }].wf());
            }
        }
    }

    /// Publishes a snapshot to every current subscription: each queue
    /// gets it at the back, dropping its oldest undelivered entry if it
    /// is full. The snapshot must extend the newest one every subscriber
    /// knows of — true of the coordinator, which only ever publishes the
    /// freshly grown shared text.
    pub fn publish(&mut self, snap: &Vec<u8>)
        requires
            old(self).wf(),
            forall|i: int|
                0 <= i < old(self).subscribers().len() ==> (#[trigger] old(
                    self,
                ).subscribers()[i]).newest().is_prefix_of(snap@),
        ensures
            final(self).wf(),
            final(self).bound() == old(self).bound(),
            final(self).subscribers().len() == old(self).subscribers().len(),
            forall|i: int|
                0 <= i < old(self).subscribers().len() ==> sub_published(
                    #[trigger] old(self).subscribers()[i],
                    final(self).subscribers()[i],
                    snap@,
                ),
    {
        let ghost orig = self.subs@;
        let ghost b0 = self.bound as nat;
        let n = self.subs.len();
        let mut i: usize = 0;
        while i < n
            invariant
                i <= n,
                n == self.subs@.len(),
                n == orig.len(),
                self.bound as nat == b0,
                b0 > 0,
                forall|k: int| 0 <= k < n ==> (#[trigger] orig[k]).wf() && orig[k].bound()
                    == b0 && orig[k].newest().is_prefix_of(snap@),
                forall|k: int| i <= k < n ==> #[trigger] self.subs@[k] == orig[k],
                forall|k: int| 0 <= k < i ==> sub_published(orig[k], #[trigger] self.subs@[k], snap@),
            decreases n - i,
        {
            let ghost prev = self.subs@;
            let sub = &mut self.subs[i];
            proof {
                assert(*sub == orig[i as int]);
            }
            sub.push_snapshot(snap);
            i = i + 1;
            proof {
                assert forall|k: int|
                    0 <= k < i implies sub_published(orig[k], #[trigger] self.subs@[k], snap@) by {
                    if k < i - 1 {
                        assert(self.subs@[k] == prev[k]);
                    }
                }
            }
        }
        proof {
            assert forall|k: int|
                0 <= k < self.subs@.len() implies (#[trigger] self.subs@[k]).wf()
                && self.subs@[k].bound() == self.bound as nat by {
                assert(sub_published(orig[k], self.subs@[k], snap@));
            }
        }
    }

    /// Delivers the oldest undelivered snapshot of subscription `id`, as
    /// [`Subscriber::recv`] does; other subscriptions are untouched.
    pub fn recv(&mut self, id: usize) -> (r: Option<Vec<u8>>)
        requires
            old(self).wf(),
            id < old(self).subscribers().len(),
        ensures
            final(self).wf(),
            final(self).bound() == old(self).bound(),
            final(self).subscribers().len() == old(self).subscribers().len(),
            forall|i: int|
                0 <= i < old(self).subscribers().len() && i != id
                    ==> final(self).subscribers()[i] == #[trigger] old(self).subscribers()[i],
            ({
                let s0 = old(self).subscribers()[id as int];
                let s1 = final(self).subscribers()[id as int];
                &&& s1.bound() == s0.bound()
                &&& s1.newest() == s0.newest()
                &&& s0.pending().len() == 0 ==> {
                    &&& r is None
                    &&& s1.pending() == s0.pending()
                    &&& s1.seen() == s0.seen()
                }
                &&& s0.pending().len() > 0 ==> {
                    &&& (r matches Some(v) && v@ == s0.pending()[0])
                    &&& s1.pending() == s0.pending().drop_first()
                    &&& s1.seen() == s0.pending()[0]
                    &&& s0.seen().is_prefix_of(s1.seen())
                }
            }),
    {
        let sub = &mut self.subs[id];
        sub.recv()
    }
}

} // verus!
