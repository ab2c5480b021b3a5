//! The event bus: one consumer, several producers, a bounded FIFO queue in
//! which a newer snapshot replaces an older one still waiting.

use crate::metrics::Metrics;
use vstd::prelude::*;

verus! {

/// Events merged on the bus; `K` and `M` are the terminal's key and mouse events.
pub enum Event<K, M> {
    /// Fixed-rate redraw tick.
    Tick,
    /// A key press.
    Key(K),
    /// A mouse click or scroll.
    Mouse(M),
    /// New terminal size.
    Resize(u16, u16),
    /// A fresh snapshot.
    Metrics(Metrics),
    /// A sampling cycle that failed, and why.
    Error(String),
}

/// The queue's contents without their snapshots, order kept.
pub open spec fn drop_snapshots<K, M>(s: Seq<Event<K, M>>) -> Seq<Event<K, M>>
    decreases s.len(),
{
    if s.len() == 0 {
        s
    } else {
        let rest = drop_snapshots(s.drop_first());
        if s[0] is Metrics {
            rest
        } else {
            seq![s[0]] + rest
        }
    }
}

/// The contents that `e` would join: without their snapshot when `e` is one.
pub open spec fn kept_for<K, M>(s: Seq<Event<K, M>>, e: Event<K, M>) -> Seq<Event<K, M>> {
    if e is Metrics {
        drop_snapshots(s)
    } else {
        s
    }
}

/// Whether `e` finds room in contents `s` under `capacity`.
pub open spec fn has_room<K, M>(s: Seq<Event<K, M>>, e: Event<K, M>, capacity: nat) -> bool {
    kept_for(s, e).len() < capacity
}

/// What the queue holds after offering `e` to contents `s` under `capacity`.
pub open spec fn offered<K, M>(s: Seq<Event<K, M>>, e: Event<K, M>, capacity: nat) -> Seq<
    Event<K, M>,
> {
    if has_room(s, e, capacity) {
        kept_for(s, e).push(e)
    } else {
        s
    }
}

pub open spec fn snapshot_count<K, M>(s: Seq<Event<K, M>>) -> nat
    decreases s.len(),
{
    if s.len() == 0 {
        0
    } else {
        snapshot_count(s.drop_first()) + if s[0] is Metrics {
            1nat
        } else {
            0nat
        }
    }
}

proof fn lemma_drop_snapshots_len<K, M>(s: Seq<Event<K, M>>)
    ensures
        drop_snapshots(s).len() + snapshot_count(s) == s.len(),
        snapshot_count(s) == 0 ==> drop_snapshots(s) == s,
    decreases s.len(),
{
    if s.len() > 0 {
        lemma_drop_snapshots_len(s.drop_first());
        if snapshot_count(s) == 0 {
            assert(seq![s[0]] + s.drop_first() =~= s);
        }
    }
}

proof fn lemma_snapshot_count_push<K, M>(s: Seq<Event<K, M>>, e: Event<K, M>)
    ensures
        snapshot_count(s.push(e)) == snapshot_count(s) + if e is Metrics {
            1nat
        } else {
            0nat
        },
    decreases s.len(),
{
    if s.len() > 0 {
        assert(s.push(e).drop_first() =~= s.drop_first().push(e));
        lemma_snapshot_count_push(s.drop_first(), e);
    } else {
        assert(s.push(e).drop_first() =~= s);
    }
}

proof fn lemma_drop_snapshots_clean<K, M>(s: Seq<Event<K, M>>)
    ensures
        snapshot_count(drop_snapshots(s)) == 0,
        drop_snapshots(drop_snapshots(s)) == drop_snapshots(s),
    decreases s.len(),
{
    if s.len() > 0 {
        lemma_drop_snapshots_clean(s.drop_first());
        if !(s[0] is Metrics) {
            let d = seq![s[0]] + drop_snapshots(s.drop_first());
            assert(d.drop_first() =~= drop_snapshots(s.drop_first()));
            assert(d[0] == s[0]);
        }
    }
}

proof fn lemma_drop_snapshots_push<K, M>(s: Seq<Event<K, M>>, e: Event<K, M>)
    ensures
        drop_snapshots(s.push(e)) == if e is Metrics {
            drop_snapshots(s)
        } else {
            drop_snapshots(s).push(e)
        },
    decreases s.len(),
{
    if s.len() > 0 {
        assert(s.push(e).drop_first() =~= s.drop_first().push(e));
        lemma_drop_snapshots_push(s.drop_first(), e);
        assert(s.push(e)[0] == s[0]);
        if !(s[0] is Metrics) && !(e is Metrics) {
            assert(seq![s[0]] + drop_snapshots(s.drop_first()).push(e) =~= (seq![s[0]]
                + drop_snapshots(s.drop_first())).push(e));
        }
    } else {
        assert(s.push(e).drop_first() =~= s);
        if !(e is Metrics) {
            assert(seq![e] + s =~= s.push(e));
        }
    }
}

/// Only the latest telemetry matters: an accepted snapshot becomes the one
/// snapshot waiting, behind every other event, and the other events keep
/// their order.
pub proof fn lemma_latest_snapshot_wins<K, M>(
    s: Seq<Event<K, M>>,
    e: Event<K, M>,
    capacity: nat,
)
    requires
        e is Metrics,
        has_room(s, e, capacity),
    ensures
        snapshot_count(offered(s, e, capacity)) == 1,
        offered(s, e, capacity).last() == e,
        drop_snapshots(offered(s, e, capacity)) == drop_snapshots(s),
{
    lemma_drop_snapshots_clean(s);
    lemma_snapshot_count_push(drop_snapshots(s), e);
    lemma_drop_snapshots_push(drop_snapshots(s), e);
}

/// Events other than snapshots are never dropped once accepted, and join
/// the back of the queue.
pub proof fn lemma_fifo_send<K, M>(s: Seq<Event<K, M>>, e: Event<K, M>, capacity: nat)
    requires
        !(e is Metrics),
        has_room(s, e, capacity),
    ensures
        offered(s, e, capacity) == s.push(e),
{
}

/// A consumer that keeps up sees every snapshot: one sent to an empty queue
/// is accepted and is the next event received.
pub proof fn lemma_send_to_empty<K, M>(e: Event<K, M>, capacity: nat)
    requires
        capacity > 0,
    ensures
        has_room(Seq::<Event<K, M>>::empty(), e, capacity),
        offered(Seq::<Event<K, M>>::empty(), e, capacity) == seq![e],
{
    assert(drop_snapshots(Seq::<Event<K, M>>::empty()) == Seq::<Event<K, M>>::empty());
    assert(Seq::<Event<K, M>>::empty().push(e) =~= seq![e]);
}

/// A bounded FIFO of events holding at most one snapshot.
pub struct EventQueue<K, M> {
    items: Vec<Event<K, M>>,
    capacity: usize,
}

impl<K, M> EventQueue<K, M> {
    pub closed spec fn view(&self) -> Seq<Event<K, M>> {
        self.items@
    }

    pub closed spec fn capacity(&self) -> nat {
        self.capacity as nat
    }

    /// Within capacity, and never two snapshots waiting.
    pub open spec fn wf(&self) -> bool {
        &&& self.view().len() <= self.capacity()
        &&& self.capacity() > 0
        &&& snapshot_count(self.view()) <= 1
    }

    /// An empty queue that holds up to `capacity` events.
    pub fn new(capacity: usize) -> (r: EventQueue<K, M>)
        requires
            capacity > 0,
        ensures
            r.view() == Seq::<Event<K, M>>::empty(),
            r.capacity() == capacity,
            r.wf(),
    {
        EventQueue { items: Vec::new(), capacity }
    }

    /// Number of waiting events.
    pub fn len(&self) -> (r: usize)
        ensures
            r == self.view().len(),
    {
        self.items.len()
    }

    /// Offers `e` without blocking. A snapshot first removes any snapshot
    /// still waiting. The event is refused, and the queue left as it was,
    /// when there is no room for it.
    pub fn send(&mut self, e: Event<K, M>) -> (accepted: bool)
        requires
            old(self).wf(),
        ensures
            final(self).view() == offered(old(self).view(), e, old(self).capacity()),
            accepted == has_room(old(self).view(), e, old(self).capacity()),
            final(self).capacity() == old(self).capacity(),
            final(self).wf(),
    {
        let ghost s = self.items@;
        proof {
            lemma_drop_snapshots_len(s);
        }
        if matches!(e, Event::Metrics(_)) {
            let mut kept: Vec<Event<K, M>> = Vec::new();
            let mut rest: Vec<Event<K, M>> = Vec::new();
            std::mem::swap(&mut self.items, &mut rest);
            assert(rest@ == s);
            while rest.len() > 0
                invariant
                    kept@ + drop_snapshots(rest@) == drop_snapshots(s),
                    snapshot_count(kept@) == 0,
                decreases rest@.len(),
            {
                let ghost r0 = rest@;
                let x = rest.remove(0);
                assert(r0.drop_first() =~= rest@);
                if !matches!(x, Event::Metrics(_)) {
                    proof {
                        lemma_snapshot_count_push(kept@, x);
                    }
                    kept.push(x);
                    assert(kept@ + drop_snapshots(rest@) =~= kept@.drop_last() + (seq![x]
                        + drop_snapshots(rest@)));
                }
            }
            assert(kept@ + drop_snapshots(rest@) =~= kept@);
            if kept.len() < self.capacity {
                proof {
                    lemma_snapshot_count_push(kept@, e);
                }
                kept.push(e);
                self.items = kept;
                true
            } else {
                proof {
                    lemma_drop_snapshots_len(s);
                }
                self.items = kept;
                false
            }
        } else if self.items.len() < self.capacity {
            proof {
                lemma_snapshot_count_push(s, e);
            }
            self.items.push(e);
            true
        } else {
            false
        }
    }

    /// Takes the oldest waiting event, if any.
    pub fn recv(&mut self) -> (r: Option<Event<K, M>>)
        requires
            old(self).wf(),
        ensures
            old(self).view().len() == 0 ==> r is None && final(self).view() == old(self).view(),
            old(self).view().len() > 0 ==> r == Some(old(self).view()[0]) && final(self).view()
                == old(self).view().drop_first(),
            final(self).capacity() == old(self).capacity(),
            final(self).wf(),
    {
        if self.items.len() == 0 {
            None
        } else {
            let ghost s = self.items@;
            let x = self.items.remove(0);
            proof {
                assert(s.drop_first() =~= self.items@);
                assert(snapshot_count(s) == snapshot_count(s.drop_first()) + if s[0] is Metrics {
                    1nat
                } else {
                    0nat
                });
            }
            Some(x)
        }
    }
}

} // verus!
