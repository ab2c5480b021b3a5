//! A bounded, oldest-first window of recent power readings.

use crate::metrics::seq_max;
use vstd::prelude::*;

verus! {

/// How many readings the window keeps.
pub const HISTORY_CAPACITY: usize = 25;

/// Chart bound for an empty window, in milliwatts.
pub const EMPTY_BOUND_MW: u64 = 10;

/// The last `HISTORY_CAPACITY` readings pushed, oldest first.
pub struct HistoryBuffer {
    items: Vec<u64>,
}

/// What one push does to the window's contents.
pub open spec fn pushed(s: Seq<u64>, v: u64) -> Seq<u64> {
    if s.len() + 1 > HISTORY_CAPACITY {
        s.push(v).drop_first()
    } else {
        s.push(v)
    }
}

/// The contents after pushing `vs` in order onto `s`.
pub open spec fn pushed_all(s: Seq<u64>, vs: Seq<u64>) -> Seq<u64>
    decreases vs.len(),
{
    if vs.len() == 0 {
        s
    } else {
        pushed(pushed_all(s, vs.drop_last()), vs.last())
    }
}

impl View for HistoryBuffer {
    type V = Seq<u64>;

    closed spec fn view(&self) -> Seq<u64> {
        self.items@
    }
}

impl HistoryBuffer {
    /// The window never holds more than `HISTORY_CAPACITY` readings.
    pub open spec fn wf(&self) -> bool {
        self@.len() <= HISTORY_CAPACITY
    }

    /// An empty window.
    pub fn new() -> (r: HistoryBuffer)
        ensures
            r@ == Seq::<u64>::empty(),
            r.wf(),
    {
        HistoryBuffer { items: Vec::new() }
    }

    /// Appends `v`, dropping the oldest reading when the window is full.
    pub fn push(&mut self, v: u64)
        requires
            old(self).wf(),
        ensures
            final(self)@ == pushed(old(self)@, v),
            final(self).wf(),
    {
        self.items.push(v);
        if self.items.len() > HISTORY_CAPACITY {
            self.items.remove(0);
        }
    }

    /// The readings, oldest first.
    pub fn values(&self) -> (r: Vec<u64>)
        ensures
            r@ == self@,
    {
        let mut r: Vec<u64> = Vec::new();
        let mut i: usize = 0;
        while i < self.items.len()
            invariant
                i <= self.items@.len(),
                r@ == self.items@.take(i as int),
            decreases self.items@.len() - i,
        {
            r.push(self.items[i]);
            i = i + 1;
            assert(r@ =~= self.items@.take(i as int));
        }
        assert(self.items@.take(i as int) =~= self.items@);
        r
    }

    /// Number of readings held.
    pub fn len(&self) -> (r: usize)
        ensures
            r == self@.len(),
    {
        self.items.len()
    }

    /// The most recent reading, if any.
    pub fn last(&self) -> (r: Option<u64>)
        ensures
            r == (if self@.len() == 0 {
                None
            } else {
                Some(self@.last())
            }),
    {
        if self.items.len() == 0 {
            None
        } else {
            Some(self.items[self.items.len() - 1])
        }
    }

    /// Upper bound of the chart axis: the largest reading held, or
    /// `EMPTY_BOUND_MW` when there is none.
    pub fn y_max(&self) -> (r: u64)
        ensures
            r == (if self@.len() == 0 {
                EMPTY_BOUND_MW
            } else {
                seq_max(self@)
            }),
            forall|i: int| 0 <= i < self@.len() ==> self@[i] <= r,
    {
        if self.items.len() == 0 {
            return EMPTY_BOUND_MW;
        }
        let mut m: u64 = 0;
        let mut i: usize = 0;
        while i < self.items.len()
            invariant
                i <= self.items@.len(),
                m == seq_max(self.items@.take(i as int)),
                forall|j: int| 0 <= j < i ==> self.items@[j] <= m,
            decreases self.items@.len() - i,
        {
            assert(self.items@.take(i + 1).drop_last() =~= self.items@.take(i as int));
            if self.items[i] > m {
                m = self.items[i];
            }
            i = i + 1;
        }
        assert(self.items@.take(i as int) =~= self.items@);
        m
    }
}

/// The window holds the most recent pushes, oldest first: after any pushes
/// onto an empty window it holds the last `HISTORY_CAPACITY` of them.
pub proof fn lemma_window_keeps_latest(vs: Seq<u64>)
    ensures
        pushed_all(seq![], vs) == vs.subrange(
            if vs.len() > HISTORY_CAPACITY {
                vs.len() - HISTORY_CAPACITY
            } else {
                0
            },
            vs.len() as int,
        ),
    decreases vs.len(),
{
    if vs.len() == 0 {
        assert(vs.subrange(0, 0) =~= Seq::<u64>::empty());
    } else {
        let p = vs.drop_last();
        lemma_window_keeps_latest(p);
        let lo = if p.len() > HISTORY_CAPACITY {
            p.len() - HISTORY_CAPACITY
        } else {
            0
        };
        let lo2 = if vs.len() > HISTORY_CAPACITY {
            vs.len() - HISTORY_CAPACITY
        } else {
            0
        };
        let w = p.subrange(lo, p.len() as int);
        if w.len() + 1 > HISTORY_CAPACITY {
            assert(w.push(vs.last()).drop_first() =~= vs.subrange(lo2, vs.len() as int));
        } else {
            assert(w.push(vs.last()) =~= vs.subrange(lo2, vs.len() as int));
        }
    }
}

} // verus!
