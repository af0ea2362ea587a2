//! The queue between the sampling worker and whoever drains it: bounded, and
//! dropping the oldest sample when a new one finds it full.

use crate::types::Sample;
use std::collections::VecDeque;
use vstd::prelude::*;

verus! {

/// The newest `limit` items of `items`, oldest first; all of them when there
/// are no more than `limit`.
pub open spec fn keep_last(items: Seq<Sample>, limit: nat) -> Seq<Sample> {
    if items.len() <= limit {
        items
    } else {
        items.subrange(items.len() - limit, items.len() as int)
    }
}

/// What a queue of the given capacity holds after `pushes` were pushed onto
/// `held`, one after the other.
pub open spec fn push_all(held: Seq<Sample>, capacity: nat, pushes: Seq<Sample>) -> Seq<Sample>
    decreases pushes.len(),
{
    if pushes.len() == 0 {
        held
    } else {
        push_all(keep_last(held.push(pushes[0]), capacity), capacity, pushes.skip(1))
    }
}

/// A bounded first-in first-out queue of samples. When it is full, a push
/// drops the oldest sample to make room.
pub struct RingBuffer {
    data: VecDeque<Sample>,
    capacity: usize,
}

impl View for RingBuffer {
    type V = Seq<Sample>;

    /// The queued samples, oldest first.
    closed spec fn view(&self) -> Seq<Sample> {
        self.data@
    }
}

impl RingBuffer {
    #[verifier::type_invariant]
    spec fn well_formed(self) -> bool {
        1 <= self.capacity && self.data@.len() <= self.capacity
    }

    /// The largest number of samples the queue holds.
    pub closed spec fn capacity(&self) -> nat {
        self.capacity as nat
    }

    /// Whether the queue holds no more samples than its capacity, which is
    /// at least 1. Every queue does, at all times.
    pub open spec fn within_capacity(&self) -> bool {
        1 <= self.capacity() && self@.len() <= self.capacity()
    }

    /// Creates an empty queue that holds at most `capacity` samples.
    pub fn new(capacity: usize) -> (rb: Self)
        requires
            capacity >= 1,
        ensures
            rb@ == Seq::<Sample>::empty(),
            rb.capacity() == capacity,
            rb.within_capacity(),
    {
        RingBuffer { data: VecDeque::new(), capacity }
    }

    /// Whether the queue holds no sample.
    pub fn is_empty(&self) -> (empty: bool)
        ensures
            empty == (self@.len() == 0),
            self.within_capacity(),
    {
        proof {
            use_type_invariant(self);
        }
        self.data.len() == 0
    }

    /// Appends `sample`, dropping the oldest sample first if the queue is full.
    pub fn push(&mut self, sample: Sample)
        ensures
            final(self).capacity() == old(self).capacity(),
            final(self)@ == keep_last(old(self)@.push(sample), old(self).capacity()),
            old(self).within_capacity(),
            final(self).within_capacity(),
    {
        proof {
            use_type_invariant(&*self);
        }
        // The queue is worked on outside `self` and then put back.
        let mut data: VecDeque<Sample> = VecDeque::new();
        std::mem::swap(&mut self.data, &mut data);
        if data.len() == self.capacity {
            data.pop_front();
        }
        data.push_back(sample);
        self.data = data;
    }

    /// Removes every queued sample and returns them, oldest first.
    pub fn drain(&mut self) -> (samples: Vec<Sample>)
        ensures
            samples@ == old(self)@,
            final(self)@ == Seq::<Sample>::empty(),
            final(self).capacity() == old(self).capacity(),
            old(self).within_capacity(),
            final(self).within_capacity(),
    {
        proof {
            use_type_invariant(&*self);
        }
        // The queue is taken out of `self`, which is left with an empty one.
        let mut data: VecDeque<Sample> = VecDeque::new();
        std::mem::swap(&mut self.data, &mut data);
        let mut samples: Vec<Sample> = Vec::new();
        while data.len() > 0
            invariant
                samples@ + data@ == old(self).data@,
            decreases data@.len(),
        {
            if let Some(sample) = data.pop_front() {
                samples.push(sample);
            }
        }
        samples
    }
}

/// Pushing onto a queue leaves the newest `capacity` of
/// everything held and pushed, in push order. In particular, after as many
/// pushes as the capacity or more, exactly the last `capacity` pushes
/// remain, whatever the queue held before.
pub proof fn lemma_push_all_keeps_newest(held: Seq<Sample>, capacity: nat, pushes: Seq<Sample>)
    requires
        capacity >= 1,
        held.len() <= capacity,
    ensures
        push_all(held, capacity, pushes) == keep_last(held + pushes, capacity),
        pushes.len() >= capacity ==> push_all(held, capacity, pushes) == pushes.subrange(
            pushes.len() - capacity,
            pushes.len() as int,
        ),
    decreases pushes.len(),
{
    if pushes.len() == 0 {
        assert(held + pushes == held);
    } else {
        let next = keep_last(held.push(pushes[0]), capacity);
        lemma_push_all_keeps_newest(next, capacity, pushes.skip(1));
        assert(keep_last(next + pushes.skip(1), capacity) == keep_last(held + pushes, capacity));
    }
    if pushes.len() >= capacity {
        assert(keep_last(held + pushes, capacity) == pushes.subrange(
            pushes.len() - capacity,
            pushes.len() as int,
        ));
    }
}

} // verus!
