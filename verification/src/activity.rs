//! Rolling record of how many frames each poll brought in, newest first,
//! together with the running maximum that scales its display.

use vstd::prelude::*;

verus! {

/// Number of polls that the record keeps.
pub const CAPACITY: usize = 100;

/// Value of the running maximum before any poll was recorded.
pub const BASELINE_MAX: usize = 10;

/// Mathematical value of an [`ActivityBuffer`]: the recorded counts, newest
/// first, and the running maximum.
pub struct ActivityView {
    pub counts: Seq<usize>,
    pub max_y: usize,
}

impl ActivityView {
    /// The record before any poll.
    pub open spec fn empty() -> ActivityView {
        ActivityView { counts: Seq::empty(), max_y: BASELINE_MAX }
    }

    /// A record never holds more than [`CAPACITY`] counts.
    pub open spec fn valid(self) -> bool {
        self.counts.len() <= CAPACITY
    }

    /// The record after one more poll that brought `count` frames: the count
    /// goes to the front, and the oldest one leaves once the record is full.
    pub open spec fn pushed(self, count: usize) -> ActivityView {
        let kept = if self.counts.len() < CAPACITY {
            self.counts
        } else {
            self.counts.subrange(0, CAPACITY - 1)
        };
        ActivityView {
            counts: seq![count] + kept,
            max_y: if count > self.max_y {
                count
            } else {
                self.max_y
            },
        }
    }
}

/// Fixed-capacity record of per-poll frame counts.
#[derive(Debug, Clone, Copy)]
pub struct ActivityBuffer {
    counts: [usize; 100],
    filled: usize,
    max_y: usize,
}

impl View for ActivityBuffer {
    type V = ActivityView;

    closed spec fn view(&self) -> ActivityView {
        ActivityView { counts: self.counts@.subrange(0, self.filled as int), max_y: self.max_y }
    }
}

impl ActivityBuffer {
    #[verifier::type_invariant]
    spec fn well_formed(self) -> bool {
        self.filled <= CAPACITY
    }

    /// An empty record with the running maximum at its baseline.
    pub fn new() -> (buffer: ActivityBuffer)
        ensures
            buffer@ == ActivityView::empty(),
    {
        let buffer = ActivityBuffer { counts: [0usize; 100], filled: 0, max_y: BASELINE_MAX };
        assert(buffer@.counts =~= Seq::empty());
        buffer
    }

    /// Records one poll.
    pub fn push(&mut self, count: usize)
        ensures
            final(self)@ == old(self)@.pushed(count),
            final(self)@.valid(),
    {
        proof {
            use_type_invariant(&*self);
        }
        let mut next = [0usize; 100];
        next[0] = count;
        let mut i: usize = 1;
        while i < 100
            invariant
                1 <= i <= 100,
                next@[0] == count,
                forall|j: int| 1 <= j < i ==> next@[j] == self.counts@[j - 1],
            decreases 100 - i,
        {
            next[i] = self.counts[i - 1];
            i += 1;
        }
        let filled: usize = if self.filled < CAPACITY { self.filled + 1 } else { CAPACITY };
        let max_y: usize = if count > self.max_y { count } else { self.max_y };
        let ghost before = self@;
        *self = ActivityBuffer { counts: next, filled, max_y };
        assert(self@.counts =~= before.pushed(count).counts);
    }

    /// Forgets every recorded poll and puts the running maximum back to its
    /// baseline.
    pub fn clear(&mut self)
        ensures
            final(self)@ == ActivityView::empty(),
    {
        *self = ActivityBuffer::new();
    }

    /// Number of recorded polls.
    pub fn len(&self) -> (n: usize)
        ensures
            n == self@.counts.len(),
            n <= CAPACITY,
    {
        proof {
            use_type_invariant(self);
        }
        self.filled
    }

    /// The running maximum.
    pub fn max_y(&self) -> (m: usize)
        ensures
            m == self@.max_y,
    {
        self.max_y
    }

    /// The count of the most recent poll, if any was recorded.
    pub fn newest(&self) -> (count: Option<usize>)
        ensures
            count == (if self@.counts.len() > 0 {
                Some(self@.counts[0])
            } else {
                None
            }),
    {
        proof {
            use_type_invariant(self);
        }
        if self.filled > 0 {
            Some(self.counts[0])
        } else {
            None
        }
    }

    /// The recorded counts, newest first.
    pub fn counts(&self) -> (snapshot: Vec<usize>)
        ensures
            snapshot@ == self@.counts,
    {
        proof {
            use_type_invariant(self);
        }
        let mut snapshot: Vec<usize> = Vec::new();
        let mut i: usize = 0;
        while i < self.filled
            invariant
                i <= self.filled <= CAPACITY,
                snapshot@ == self.counts@.subrange(0, i as int),
            decreases self.filled - i,
        {
            snapshot.push(self.counts[i]);
            i += 1;
        }
        snapshot
    }
}

/// A record stays within its capacity whatever is pushed, and grows by one
/// count until it is full.
pub proof fn lemma_push_bounded(record: ActivityView, count: usize)
    requires
        record.valid(),
    ensures
        record.pushed(count).valid(),
        record.pushed(count).counts.len() == if record.counts.len() < CAPACITY {
            record.counts.len() + 1
        } else {
            CAPACITY as nat
        },
        record.pushed(count).counts[0] == count,
{
}

/// Pushing onto a full record evicts exactly the oldest count: every other
/// count moves one place back, and the oldest is gone.
pub proof fn lemma_push_full_evicts_oldest(record: ActivityView, count: usize)
    requires
        record.counts.len() == CAPACITY,
    ensures
        record.pushed(count).counts == seq![count] + record.counts.drop_last(),
        forall|i: int|
            0 <= i < CAPACITY - 1 ==> record.pushed(count).counts[i + 1] == record.counts[i],
{
}

/// Pushing onto a record that is not yet full keeps every count.
pub proof fn lemma_push_keeps_all(record: ActivityView, count: usize)
    requires
        record.counts.len() < CAPACITY,
    ensures
        record.pushed(count).counts == seq![count] + record.counts,
{
}

/// The running maximum never goes down on a push, and covers the new count.
pub proof fn lemma_push_max_monotonic(record: ActivityView, count: usize)
    ensures
        record.pushed(count).max_y >= record.max_y,
        record.pushed(count).max_y >= count,
        record.pushed(count).max_y == record.max_y || record.pushed(count).max_y == count,
{
}

} // verus!
