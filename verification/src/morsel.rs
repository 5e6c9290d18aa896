//! Static partitioning: a sequential source cut into batches of bounded
//! size, each handed to one worker as a whole.

use vstd::prelude::*;
use crate::error::ConfigError;
use crate::flat::stream::FlatStream;
use crate::step::Step;
use crate::stream::{IteratorStream, Stream};

verus! {

/// The length of the next batch, where `left` items are left and a batch
/// holds `capacity` at most.
pub open spec fn batch_len(left: nat, capacity: nat) -> nat {
    if left <= capacity {
        left
    } else {
        capacity
    }
}

/// The batches that `items` is cut into: each holds `capacity` items but
/// the last, which holds what is left.
pub open spec fn morsels<T>(items: Seq<T>, capacity: nat) -> Seq<Seq<T>>
    decreases items.len(),
{
    if items.len() == 0 || capacity == 0 {
        Seq::empty()
    } else {
        let first = batch_len(items.len(), capacity) as int;
        seq![items.take(first)] + morsels(items.skip(first), capacity)
    }
}

/// A batch of items that goes to one worker, with the capacity it was
/// filled to at most. A morsel is a cursor over its items, in the order
/// they had in the source.
pub struct Morsel<T> {
    items: IteratorStream<T>,
    capacity: usize,
}

impl<T> Morsel<T> {
    /// A morsel of the items in `items`, filled to `capacity` at most.
    pub fn new(items: Vec<T>, capacity: usize) -> (r: Self)
        requires
            items@.len() <= capacity,
        ensures
            r.wf(),
            r.remaining() == items@,
            r.capacity() == capacity,
    {
        Morsel { items: IteratorStream::new(items), capacity }
    }

    /// The capacity that the morsel was filled to at most.
    pub closed spec fn spec_capacity(&self) -> usize {
        self.capacity
    }

    /// The number of items left in the morsel: never more than its
    /// capacity.
    pub fn len(&self) -> (r: usize)
        requires
            self.wf(),
        ensures
            r == self.remaining().len(),
            r <= self.capacity(),
    {
        self.items.size_hint().0
    }

    /// The capacity that the morsel was filled to at most.
    #[verifier::when_used_as_spec(spec_capacity)]
    pub fn capacity(&self) -> (r: usize)
        ensures
            r == self.spec_capacity(),
    {
        self.capacity
    }
}

impl<T> Stream for Morsel<T> {
    type Item = T;

    closed spec fn wf(&self) -> bool {
        self.items.remaining().len() <= self.capacity
    }

    open spec fn unshared(&self) -> bool {
        true
    }

    open spec fn steady(&self) -> bool {
        true
    }

    closed spec fn remaining(&self) -> Seq<T> {
        self.items.remaining()
    }

    open spec fn budget(&self) -> nat {
        self.remaining().len()
    }

    open spec fn hint(&self) -> (usize, Option<usize>) {
        (self.remaining().len() as usize, Some(self.remaining().len() as usize))
    }

    fn poll_next(&mut self) -> (r: Step<T>)
        ensures
            !(r is NotYet),
            final(self).capacity() == old(self).capacity(),
    {
        self.items.poll_next()
    }

    fn size_hint(&self) -> (r: (usize, Option<usize>))
        ensures
            r.0 == self.remaining().len(),
            r.1 == Some(r.0),
    {
        self.items.size_hint()
    }
}

/// A source that cuts the items of a cursor into morsels.
pub struct MorselSource<S> {
    pub stream: S,
    pub capacity: usize,
}

impl<S: Stream> MorselSource<S> {
    /// A source of morsels of `capacity` items at most. A `capacity` of
    /// zero is refused.
    pub fn new(stream: S, capacity: usize) -> (r: Result<Self, ConfigError>)
        ensures
            match r {
                Ok(source) => capacity > 0 && source.stream == stream && source.capacity
                    == capacity,
                Err(e) => capacity == 0 && e == ConfigError::ZeroMorselCapacity,
            },
    {
        if capacity == 0 {
            return Err(ConfigError::ZeroMorselCapacity);
        }
        Ok(MorselSource { stream, capacity })
    }
}

impl<S: Stream> FlatStream for MorselSource<S> {
    type Item = S::Item;

    type Stream = Morsel<S::Item>;

    open spec fn flat_wf(&self) -> bool {
        &&& self.stream.wf()
        &&& self.stream.unshared()
        &&& 0 < self.capacity
    }

    open spec fn flat_unshared(&self) -> bool {
        true
    }

    open spec fn units(&self) -> Seq<Seq<S::Item>> {
        morsels(self.stream.remaining(), self.capacity as nat)
    }

    open spec fn flat_hint(&self) -> (usize, Option<usize>) {
        (0, None)
    }

    /// Pulls the next morsel out of the cursor, whole, before any worker
    /// sees it: `capacity` items, or what is left where that is less, or
    /// `None` where nothing is left.
    fn poll_next(&mut self) -> (r: Option<Morsel<S::Item>>)
        ensures
            final(self).capacity == old(self).capacity,
            r matches Some(morsel) ==> morsel.capacity() == old(self).capacity && 0
                < morsel.remaining().len() <= old(self).capacity,
    {
        let ghost items = self.stream.remaining();
        let mut batch: Vec<S::Item> = Vec::new();
        let mut open = true;
        while open && batch.len() < self.capacity
            invariant
                self.stream.wf(),
                self.stream.unshared(),
                self.capacity == old(self).capacity,
                0 < self.capacity,
                batch@.len() <= self.capacity,
                batch@.len() <= items.len(),
                batch@ == items.take(batch@.len() as int),
                self.stream.remaining() == items.skip(batch@.len() as int),
                !open ==> self.stream.remaining().len() == 0,
            decreases
                    self.stream.budget(),
                    if open {
                        1nat
                    } else {
                        0nat
                    },
        {
            match self.stream.poll_next() {
                Step::NotYet => {},
                Step::Ready(item) => {
                    let ghost taken = batch@.len() as int;
                    batch.push(item);
                    assert(batch@ =~= items.take(taken + 1));
                    assert(items.skip(taken).skip(1) =~= items.skip(taken + 1));
                },
                Step::Done => {
                    open = false;
                },
            }
        }
        let ghost first = batch_len(items.len(), self.capacity as nat) as int;
        assert(batch@.len() == first);
        if batch.len() == 0 {
            assert(items =~= Seq::<S::Item>::empty());
            None
        } else {
            proof {
                let head = seq![items.take(first)];
                let tail = morsels(items.skip(first), self.capacity as nat);
                assert((head + tail).skip(1) =~= tail);
            }
            Some(Morsel::new(batch, self.capacity))
        }
    }

    fn size_hint(&self) -> (r: (usize, Option<usize>)) {
        (0, None)
    }
}

} // verus!
