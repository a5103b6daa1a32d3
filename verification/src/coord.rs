//! The coordinator side of a session: one shared session store and one
//! broadcast hub, driven by the per-connection handlers. Each handler,
//! on accept, reads the current snapshot for its participant and
//! subscribes; afterwards it ferries submissions into [`contribute`] and
//! delivers published snapshots out of [`deliver`]. The surrounding
//! binary owns the sockets and tasks; every decision about the shared
//! state is taken here.
//!
//! [`contribute`]: Coordinator::contribute
//! [`deliver`]: Coordinator::deliver

use vstd::prelude::*;

use crate::hub::{sub_published, Hub};
use crate::store::{
    apply_all, extended, lemma_snapshots_monotonic, valid_contribution, Mode, SessionStore,
};
use crate::text::lemma_prefix_transitive;

verus! {

/// The whole coordinator state: the shared text and the fan-out of its
/// snapshots. Created once at session startup; connection handlers share
/// it for the life of the process.
pub struct Coordinator {
    store: SessionStore,
    hub: Hub,
}

impl Coordinator {
    /// The current shared text.
    pub closed spec fn text(self) -> Seq<u8> {
        self.store.text()
    }

    /// The active session mode.
    pub closed spec fn mode(self) -> Mode {
        self.store.mode()
    }

    /// The broadcast hub with the current subscriptions.
    pub closed spec fn hub(self) -> Hub {
        self.hub
    }

    /// Well-formedness: the hub is well-formed, and no subscription knows
    /// a snapshot beyond the current shared text. Publishes carry the
    /// freshly grown text, so everything queued anywhere is a prefix of
    /// it.
    pub open spec fn wf(self) -> bool {
        &&& self.hub().wf()
        &&& forall|i: int|
            0 <= i < self.hub().subscribers().len() ==> (#[trigger] self.hub().subscribers()[
                i
            ]).newest().is_prefix_of(self.text())
    }

    /// A fresh session: empty shared text, no subscribers, delivery
    /// queues of capacity `queue_bound`.
    pub fn new(mode: Mode, queue_bound: usize) -> (c: Coordinator)
        requires
            queue_bound > 0,
        ensures
            c.wf(),
            c.text() == Seq::<u8>::empty(),
            c.mode() == mode,
            c.hub().subscribers().len() == 0,
            c.hub().bound() == queue_bound,
    {
        Coordinator { store: SessionStore::new(mode), hub: Hub::new(queue_bound) }
    }

    /// Accepts a participant: reads the current snapshot — which the
    /// handler sends to the new participant directly — and subscribes it
    /// to all future publishes. The initial snapshot is exactly the
    /// shared text at this point, so it holds every contribution
    /// accepted before the participant joined.
    pub fn accept(&mut self) -> (r: (usize, Vec<u8>))
        requires
            old(self).wf(),
        ensures
            final(self).wf(),
            final(self).text() == old(self).text(),
            final(self).mode() == old(self).mode(),
            final(self).hub().bound() == old(self).hub().bound(),
            r.1@ == old(self).text(),
            r.0 == old(self).hub().subscribers().len(),
            final(self).hub().subscribers().len() == r.0 + 1,
            forall|i: int|
                0 <= i < r.0 ==> final(self).hub().subscribers()[i] == old(
                    self,
                ).hub().subscribers()[i],
            final(self).hub().subscribers()[r.0 as int].seen() == old(self).text(),
            final(self).hub().subscribers()[r.0 as int].pending() == Seq::<Seq<u8>>::empty(),
    {
        let snap = self.store.current();
        let id = self.hub.subscribe(&snap);
        proof {
            assert forall|i: int|
                0 <= i < self.hub.subscribers().len() implies (#[trigger] self.hub.subscribers()[
                i
            ]).newest().is_prefix_of(self.store.text()) by {
                if i < id {
                    assert(old(self).hub.subscribers()[i].newest().is_prefix_of(
                        old(self).store.text(),
                    ));
                } else {
                    assert(self.hub.subscribers()[i].newest() == self.store.text());
                    assert(self.store.text() =~= self.store.text().subrange(
                        0,
                        self.store.text().len() as int,
                    ));
                }
            }
        }
        (id, snap)
    }

    /// Takes one inbound submission from a participant: validates it
    /// against the mode and, when it is a contribution, appends it and
    /// publishes the new full snapshot to every subscription — the
    /// contributor sees its own contribution echoed back through the hub
    /// like everyone else. An invalid submission is silently dropped:
    /// nothing changes and nothing is sent.
    pub fn contribute(&mut self, submission: &Vec<u8>) -> (accepted: bool)
        requires
            old(self).wf(),
        ensures
            final(self).wf(),
            final(self).mode() == old(self).mode(),
            final(self).hub().bound() == old(self).hub().bound(),
            final(self).hub().subscribers().len() == old(self).hub().subscribers().len(),
            accepted == valid_contribution(old(self).mode(), submission@),
            accepted ==> {
                &&& final(self).text() == extended(old(self).mode(), old(self).text(), submission@)
                &&& forall|i: int|
                    0 <= i < old(self).hub().subscribers().len() ==> sub_published(
                        #[trigger] old(self).hub().subscribers()[i],
                        final(self).hub().subscribers()[i],
                        final(self).text(),
                    )
            },
            !accepted ==> *final(self) == *old(self),
            old(self).text().is_prefix_of(final(self).text()),
    {
        match self.store.append(submission) {
            Some(snap) => {
                proof {
                    assert forall|i: int|
                        0 <= i < self.hub.subscribers().len() implies (
                    #[trigger] self.hub.subscribers()[i]).newest().is_prefix_of(snap@) by {
                        lemma_prefix_transitive(
                            self.hub.subscribers()[i].newest(),
                            old(self).store.text(),
                            snap@,
                        );
                    }
                }
                self.hub.publish(&snap);
                proof {
                    assert forall|i: int|
                        0 <= i < self.hub.subscribers().len() implies (
                    #[trigger] self.hub.subscribers()[i]).newest().is_prefix_of(
                        self.store.text(),
                    ) by {
                        assert(sub_published(
                            old(self).hub.subscribers()[i],
                            self.hub.subscribers()[i],
                            snap@,
                        ));
                        assert(snap@ =~= snap@.subrange(0, snap@.len() as int));
                    }
                }
                true
            },
            None => false,
        }
    }

    /// Delivers the oldest undelivered snapshot to connection `id`, if
    /// any. What comes out extends the participant's replica and never
    /// exceeds the current shared text; other subscriptions are
    /// untouched.
    pub fn deliver(&mut self, id: usize) -> (r: Option<Vec<u8>>)
        requires
            old(self).wf(),
            id < old(self).hub().subscribers().len(),
        ensures
            final(self).wf(),
            final(self).text() == old(self).text(),
            final(self).mode() == old(self).mode(),
            final(self).hub().bound() == old(self).hub().bound(),
            final(self).hub().subscribers().len() == old(self).hub().subscribers().len(),
            forall|i: int|
                0 <= i < old(self).hub().subscribers().len() && i != id
                    ==> final(self).hub().subscribers()[i] == #[trigger] old(
                    self,
                ).hub().subscribers()[i],
            ({
                let s0 = old(self).hub().subscribers()[id as int];
                let s1 = final(self).hub().subscribers()[id as int];
                &&& s0.pending().len() == 0 ==> r is None && s1.seen() == s0.seen()
                &&& s0.pending().len() > 0 ==> {
                    &&& (r matches Some(v) && v@ == s0.pending()[0])
                    &&& s1.seen() == s0.pending()[0]
                    &&& s0.seen().is_prefix_of(s1.seen())
                    &&& s1.seen().is_prefix_of(old(self).text())
                }
            }),
    {
        let r = self.hub.recv(id);
        proof {
            let s0 = old(self).hub.subscribers()[id as int];
            let s1 = self.hub.subscribers()[id as int];
            assert forall|i: int|
                0 <= i < self.hub.subscribers().len() implies (#[trigger] self.hub.subscribers()[
                i
            ]).newest().is_prefix_of(self.store.text()) by {
                assert(old(self).hub.subscribers()[i].newest().is_prefix_of(
                    old(self).store.text(),
                ));
            }
            if s0.pending().len() > 0 {
                assert(s0.pending()[0].is_prefix_of(s0.pending().last()));
                lemma_prefix_transitive(s0.pending()[0], s0.newest(), old(self).store.text());
            }
        }
        r
    }

    /// Tears a connection down: its subscription leaves the hub. Handles
    /// of later subscriptions shift down by one.
    pub fn disconnect(&mut self, id: usize)
        requires
            old(self).wf(),
            id < old(self).hub().subscribers().len(),
        ensures
            final(self).wf(),
            final(self).text() == old(self).text(),
            final(self).mode() == old(self).mode(),
            final(self).hub().bound() == old(self).hub().bound(),
            final(self).hub().subscribers() == old(self).hub().subscribers().remove(id as int),
    {
        self.hub.unsubscribe(id);
        proof {
            assert forall|i: int|
                0 <= i < self.hub.subscribers().len() implies (#[trigger] self.hub.subscribers()[
                i
            ]).newest().is_prefix_of(self.store.text()) by {
                let j: int = if i < id { i } else { i + 1 };
                assert(self.hub.subscribers()[i] == old(self).hub.subscribers()[j]);
                assert(old(self).hub.subscribers()[j].newest().is_prefix_of(
                    old(self).store.text(),
                ));
            }
        }
    }
}

/// Late-join completeness: a participant accepted after the first `k` of
/// the session's submissions receives an initial snapshot — the shared
/// text at accept time — that extends, and so is at least as long as,
/// the text those `k` submissions produced. A contribution committed
/// between the snapshot read and the subscribe is not in that snapshot,
/// but every later publish carries the full text
/// ([`Coordinator::contribute`]), so the next delivered snapshot holds
/// it.
pub proof fn lemma_late_join(mode: Mode, subs: Seq<Seq<u8>>, k: int)
    requires
        0 <= k <= subs.len(),
    ensures
        apply_all(mode, Seq::<u8>::empty(), subs.take(k)).is_prefix_of(
            apply_all(mode, Seq::<u8>::empty(), subs),
        ),
        apply_all(mode, Seq::<u8>::empty(), subs.take(k)).len() <= apply_all(
            mode,
            Seq::<u8>::empty(),
            subs,
        ).len(),
{
    lemma_snapshots_monotonic(mode, Seq::<u8>::empty(), subs, k);
}

} // verus!
