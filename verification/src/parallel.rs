//! Splitting a slice into contiguous parts, one cursor for each.

use vstd::prelude::*;
use crate::error::ConfigError;
use crate::flat::stream::FlatStream;
use crate::stream::{borrowed, SliceStream, Stream};

verus! {

/// The length of the next part, where `rest` items are left and parts are
/// `step` long: what would be left behind the part joins it when it is no
/// longer than a part.
pub open spec fn part_len(rest: nat, step: nat) -> nat {
    if rest - step <= step {
        rest
    } else {
        step
    }
}

/// The parts that `items` is split into, in order.
pub open spec fn parts<T>(items: Seq<T>, step: nat) -> Seq<Seq<T>>
    decreases items.len(),
{
    if items.len() == 0 || step == 0 {
        Seq::empty()
    } else {
        let first = part_len(items.len(), step) as int;
        seq![items.take(first)] + parts(items.skip(first), step)
    }
}

/// The number of parts that `rest` items are split into.
pub open spec fn parts_count(rest: nat, step: nat) -> nat {
    if rest == 0 {
        0
    } else if rest - step <= step {
        1
    } else {
        ((rest - 1) / (step as int)) as nat
    }
}

/// `parts_count` is the number of parts.
pub proof fn lemma_parts_count<T>(items: Seq<T>, step: nat)
    requires
        step > 0,
    ensures
        parts(items, step).len() == parts_count(items.len(), step),
    decreases items.len(),
{
    let rest = items.len() as int;
    let d = step as int;
    if rest > 0 && rest - d > d {
        let tail = items.skip(d);
        lemma_parts_count(tail, step);
        assert(parts(items, step).len() == 1 + parts(tail, step).len());
        if rest - d - d <= d {
            assert(2 * d == 2 * d + 0 && rest - 1 == 2 * d + (rest - 1 - 2 * d));
            vstd::arithmetic::div_mod::lemma_fundamental_div_mod_converse_div(
                rest - 1,
                d,
                2,
                rest - 1 - 2 * d,
            );
        } else {
            vstd::arithmetic::div_mod::lemma_div_plus_one(rest - d - 1, d);
            assert(d + (rest - d - 1) == rest - 1);
        }
    } else if rest > 0 {
        assert(items.skip(rest) =~= Seq::<T>::empty());
        assert(parts(items.skip(rest), step) =~= Seq::<Seq<T>>::empty());
    }
}

/// The parts of a sequence, one after the other, are the sequence.
pub proof fn lemma_parts_complete<T>(items: Seq<T>, step: nat)
    requires
        step > 0,
    ensures
        parts(items, step).flatten() == items,
        forall|i: int|
            0 <= i < parts(items, step).len() ==> 0 < (#[trigger] parts(items, step)[i]).len()
                <= 2 * step,
    decreases items.len(),
{
    if items.len() == 0 {
        assert(parts(items, step).flatten() =~= items);
    } else {
        let first = part_len(items.len(), step) as int;
        let head = seq![items.take(first)];
        let tail = parts(items.skip(first), step);
        lemma_parts_complete(items.skip(first), step);
        assert((head + tail).drop_first() =~= tail);
        assert((head + tail).flatten() =~= items.take(first) + tail.flatten());
        assert(items.take(first) + items.skip(first) =~= items);
        assert forall|i: int| 0 <= i < parts(items, step).len() implies 0 < (#[trigger] parts(
            items,
            step,
        )[i]).len() <= 2 * step by {
            if i > 0 {
                assert(parts(items, step)[i] == tail[i - 1]);
            }
        }
    }
}

/// The parts of a slice that are still to be handed out, each as a cursor.
pub struct Split<'slice, T> {
    slice: &'slice [T],
    step: usize,
    n: usize,
}

impl<'slice, T> Split<'slice, T> {
    /// The split is in a state in which `next` may be called.
    pub closed spec fn wf(&self) -> bool {
        &&& 0 < self.step
        &&& self.n <= self.slice@.len()
    }

    /// The length that parts are cut to.
    pub closed spec fn step(&self) -> nat {
        self.step as nat
    }

    /// The parts that are still to be handed out.
    pub closed spec fn pending(&self) -> Seq<Seq<T>> {
        parts(self.slice@.skip(self.n as int), self.step as nat)
    }

    /// The cursor over the next part, or `None` when every item of the
    /// slice has been handed out.
    pub fn next(&mut self) -> (r: Option<SliceStream<'slice, T>>)
        requires
            old(self).wf(),
        ensures
            final(self).wf(),
            final(self).step() == old(self).step(),
            match r {
                Some(stream) => {
                    &&& old(self).pending().len() > 0
                    &&& stream.wf()
                    &&& stream.remaining() == borrowed::<T>(old(self).pending()[0])
                    &&& final(self).pending() == old(self).pending().skip(1)
                },
                None => old(self).pending().len() == 0 && final(self).pending() == old(
                    self,
                ).pending(),
            },
    {
        let len = self.slice.len();
        if self.n >= len {
            return None;
        }
        let rest = len - self.n;
        let end = if rest <= self.step || rest - self.step <= self.step {
            len
        } else {
            self.n + self.step
        };
        let ghost items = self.slice@.skip(self.n as int);
        let ghost first = part_len(items.len(), self.step as nat) as int;
        assert(first == end - self.n);
        let part = vstd::slice::slice_subrange(self.slice, self.n, end);
        proof {
            assert(part@ =~= items.take(first));
            assert(self.slice@.skip(end as int) =~= items.skip(first));
            let head = seq![items.take(first)];
            assert((head + parts(items.skip(first), self.step as nat)).skip(1) =~= parts(
                items.skip(first),
                self.step as nat,
            ));
        }
        self.n = end;
        Some(SliceStream::new(part))
    }

    /// The number of parts that are still to be handed out, as both bounds.
    pub fn size_hint(&self) -> (r: (usize, Option<usize>))
        requires
            self.wf(),
        ensures
            r.0 == self.pending().len(),
            r.1 == Some(r.0),
    {
        proof {
            lemma_parts_count(self.slice@.skip(self.n as int), self.step as nat);
        }
        let rest = self.slice.len() - self.n;
        let size = if rest == 0 {
            0
        } else if rest <= self.step || rest - self.step <= self.step {
            1
        } else {
            (rest - 1) / self.step
        };
        (size, Some(size))
    }
}

/// A reference to each item of each part.
pub open spec fn borrowed_parts<'a, T>(parts: Seq<Seq<T>>) -> Seq<Seq<&'a T>> {
    parts.map_values(|part: Seq<T>| borrowed::<T>(part))
}

impl<'slice, T> FlatStream for Split<'slice, T> {
    type Item = &'slice T;

    type Stream = SliceStream<'slice, T>;

    open spec fn flat_wf(&self) -> bool {
        self.wf()
    }

    open spec fn flat_unshared(&self) -> bool {
        true
    }

    open spec fn units(&self) -> Seq<Seq<&'slice T>> {
        borrowed_parts(self.pending())
    }

    closed spec fn flat_hint(&self) -> (usize, Option<usize>) {
        (self.pending().len() as usize, Some(self.pending().len() as usize))
    }

    /// The cursor over the next part: each part is the work of one worker.
    fn poll_next(&mut self) -> (r: Option<SliceStream<'slice, T>>) {
        let next = self.next();
        proof {
            if next is Some {
                assert(self.units() =~= old(self).units().skip(1));
            }
        }
        next
    }

    fn size_hint(&self) -> (r: (usize, Option<usize>))
        ensures
            r.0 == self.units().len(),
            r.1 == Some(r.0),
    {
        Split::size_hint(self)
    }
}

/// A sequence that can be split into contiguous parts for as many workers.
pub trait IndexedParallelStream: Sized {
    type Stream: Stream;

    type Streams;

    /// Splits the sequence for `n` workers. An `n` of zero is refused.
    fn fusion_split(self, n: usize) -> (r: Result<Self::Streams, ConfigError>)
        ensures
            r is Err <==> n == 0,
            r matches Err(e) ==> e == ConfigError::ZeroWorkerCount,
    ;
}

/// The length that the parts of `len` items for `n` workers are cut to.
pub open spec fn split_step(len: nat, n: nat) -> nat {
    if len / n == 0 {
        1
    } else {
        len / n
    }
}

impl<'slice, T> IndexedParallelStream for &'slice [T] {
    type Stream = SliceStream<'slice, T>;

    type Streams = Split<'slice, T>;

    fn fusion_split(self, n: usize) -> (r: Result<Split<'slice, T>, ConfigError>)
        ensures
            r matches Ok(split) ==> {
                &&& split.wf()
                &&& split.step() == split_step(self@.len(), n as nat)
                &&& split.pending() == parts(self@, split.step())
            },
    {
        if n == 0 {
            return Err(ConfigError::ZeroWorkerCount);
        }
        let share = self.len() / n;
        let step = if share == 0 {
            1
        } else {
            share
        };
        assert(self@.skip(0) =~= self@);
        Ok(Split { slice: self, step, n: 0 })
    }
}

} // verus!
