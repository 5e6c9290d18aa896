use vstd::prelude::*;
use crate::call::{joins_any, op_of, reduces, Operator};
use crate::consumer::Consumer;
use crate::consumer::reduce::Reduce;
use crate::execution::TaskStream;
use crate::flat::stream::FlatStream;
use crate::model::{lemma_fold_left_first, merge_all, merge_step, merger, reduce};
use crate::step::Step;
use crate::stream::Stream;

verus! {

/// A sink for several workers: it hands out one sink for each worker, and
/// merges what the workers ended with into one value.
pub trait FlatConsumer: Sized {
    type Return;

    type Consumer: Consumer<Output = Self::Return>;

    type Merge: Consumer<Output = Self::Return>;

    /// The sink is in a state in which it may be asked for a worker's sink.
    spec fn flat_wf(&self) -> bool;

    /// The work is laid out ahead, in cursors that nothing else advances.
    spec fn flat_unshared(&self) -> bool;

    /// What the sinks still to be handed out end with, where the work is
    /// laid out ahead.
    spec fn partials(&self) -> Seq<Self::Return>;

    /// The results in `arrived` can be merged, in the order they have.
    spec fn can_merge(&self, arrived: Seq<Self::Return>) -> bool;

    /// `out` is what merging the results in `arrived` gives, in the order
    /// they have.
    spec fn merges_to(&self, arrived: Seq<Self::Return>, out: Self::Return) -> bool;

    /// The sink for the next worker, or `None` when no work is left to hand
    /// out.
    fn poll_next(&mut self) -> (r: Option<Self::Consumer>)
        requires
            old(self).flat_wf(),
        ensures
            final(self).flat_wf(),
            r matches Some(consumer) ==> consumer.wf(),
            forall|arrived: Seq<Self::Return>| #[trigger]
                old(self).can_merge(arrived) ==> final(self).can_merge(arrived),
            forall|arrived: Seq<Self::Return>, out: Self::Return| #[trigger]
                final(self).merges_to(arrived, out) ==> old(self).merges_to(arrived, out),
            old(self).flat_unshared() ==> final(self).flat_unshared() && match r {
                Some(consumer) => {
                    &&& consumer.unshared()
                    &&& old(self).partials().len() > 0
                    &&& forall|out: Self::Return| #[trigger]
                        consumer.ends_with(out) ==> out == old(self).partials()[0]
                    &&& final(self).partials() == old(self).partials().skip(1)
                },
                None => old(self).partials().len() == 0 && final(self).partials() == old(
                    self,
                ).partials(),
            },
    ;

    /// The sink that merges the results of the workers, which `stream`
    /// holds in the order they arrived.
    fn merge(self, stream: TaskStream<Self::Return>) -> (r: Self::Merge)
        requires
            stream.wf(),
            self.can_merge(stream.remaining()),
        ensures
            r.wf(),
            r.unshared(),
            forall|out: Self::Return| #[trigger]
                r.ends_with(out) ==> self.merges_to(stream.remaining(), out),
    ;
}

/// One request that gave `r` has taken the sink from `before` to `after`:
/// what `poll_next` promises, as a relation.
pub open spec fn hands_out<E: FlatConsumer>(before: E, r: Option<E::Consumer>, after: E) -> bool {
    &&& after.flat_wf()
    &&& r matches Some(consumer) ==> consumer.wf()
    &&& forall|arrived: Seq<E::Return>| #[trigger]
        before.can_merge(arrived) ==> after.can_merge(arrived)
    &&& forall|arrived: Seq<E::Return>, out: E::Return| #[trigger]
        after.merges_to(arrived, out) ==> before.merges_to(arrived, out)
    &&& before.flat_unshared() ==> after.flat_unshared() && match r {
        Some(consumer) => {
            &&& consumer.unshared()
            &&& before.partials().len() > 0
            &&& forall|out: E::Return| #[trigger]
                consumer.ends_with(out) ==> out == before.partials()[0]
            &&& after.partials() == before.partials().skip(1)
        },
        None => before.partials().len() == 0 && after.partials() == before.partials(),
    }
}

/// The reduction of each unit.
pub open spec fn reduced_units<T>(units: Seq<Seq<T>>, op: spec_fn(T, T) -> T) -> Seq<Option<T>> {
    units.map_values(|unit: Seq<T>| reduce(unit, None, op))
}

/// `f` computes every step of the reduction of each unit.
pub open spec fn reduces_units<T, F: Operator<T, T>>(f: F, units: Seq<Seq<T>>) -> bool {
    forall|i: int| 0 <= i < units.len() ==> reduces(f, None, #[trigger] units[i])
}

/// `f` computes every step of the merge of `arrived` into `acc`.
pub open spec fn merges<T, F: Operator<T, T>>(f: F, acc: Option<T>, arrived: Seq<Option<T>>) -> bool
    decreases arrived.len(),
{
    arrived.len() == 0 || ({
        &&& (acc is Some && arrived[0] is Some) ==> f.joins(acc->0, arrived[0]->0)
        &&& merges(f, merge_step(op_of(f), acc, arrived[0]), arrived.skip(1))
    })
}

impl<L, F> FlatConsumer for Reduce<L::Item, L, F> where
    L: FlatStream,
    F: Operator<L::Item, L::Item> + Copy,
 {
    type Return = Option<L::Item>;

    type Consumer = Reduce<L::Item, L::Stream, F>;

    type Merge = ReduceMerge<TaskStream<Option<L::Item>>, F, L::Item>;

    open spec fn flat_wf(&self) -> bool {
        &&& self.upper.flat_wf()
        &&& joins_any(self.f) || (self.upper.flat_unshared() && reduces_units(
            self.f,
            self.upper.units(),
        ))
    }

    open spec fn flat_unshared(&self) -> bool {
        self.upper.flat_unshared()
    }

    open spec fn partials(&self) -> Seq<Option<L::Item>> {
        reduced_units(self.upper.units(), op_of(self.f))
    }

    open spec fn can_merge(&self, arrived: Seq<Option<L::Item>>) -> bool {
        joins_any(self.f) || merges(self.f, None, arrived)
    }

    open spec fn merges_to(&self, arrived: Seq<Option<L::Item>>, out: Option<L::Item>) -> bool {
        out == merge_all(arrived, None, op_of(self.f))
    }

    #[inline]
    fn poll_next(&mut self) -> (r: Option<Reduce<L::Item, L::Stream, F>>)
        ensures
            final(self).f == old(self).f,
            final(self).acc == old(self).acc,
            r matches Some(consumer) ==> consumer.f == old(self).f && consumer.acc is None,
    {
        let ghost before = self.upper.units();
        match self.upper.poll_next() {
            Some(stream) => {
                proof {
                    if !joins_any(self.f) {
                        assert(reduces(self.f, None, before[0]));
                        assert forall|i: int| 0 <= i < self.upper.units().len() implies reduces(
                            self.f,
                            None,
                            #[trigger] self.upper.units()[i],
                        ) by {
                            assert(self.upper.units()[i] == before[i + 1]);
                        }
                    }
                    if old(self).upper.flat_unshared() {
                        assert(self.partials() =~= old(self).partials().skip(1));
                    }
                }
                Some(Reduce::new(stream, self.f))
            },
            None => None,
        }
    }

    #[inline]
    fn merge(self, stream: TaskStream<Option<L::Item>>) -> (r: ReduceMerge<
        TaskStream<Option<L::Item>>,
        F,
        L::Item,
    >)
        ensures
            r.stream == stream,
            r.f == self.f,
            r.merge is None,
    {
        ReduceMerge { stream, f: self.f, merge: None }
    }
}

/// The sink that merges the results of the workers: it reduces those that
/// are there by `f`, in the order they arrive. A worker that had nothing
/// to reduce adds nothing.
pub struct ReduceMerge<S, F, T> {
    pub stream: S,
    pub f: F,
    pub merge: Option<T>,
}

impl<T, S, F> ReduceMerge<S, F, T> where F: Operator<T, T>, S: Stream<Item = Option<T>> {
    /// Merges one result into what has been merged so far.
    pub fn absorb(&mut self, partial: Option<T>)
        requires
            (old(self).merge is Some && partial is Some) ==> old(self).f.joins(
                old(self).merge->0,
                partial->0,
            ),
        ensures
            final(self).merge == merge_step(op_of(old(self).f), old(self).merge, partial),
            final(self).f == old(self).f,
            final(self).stream == old(self).stream,
    {
        match partial {
            Some(item) => match self.merge.take() {
                Some(merged) => {
                    self.merge = Some(self.f.join(merged, item));
                },
                None => {
                    self.merge = Some(item);
                },
            },
            None => {},
        }
    }
}

impl<T, S, F> Consumer for ReduceMerge<S, F, T> where
    F: Operator<T, T>,
    S: Stream<Item = Option<T>>,
 {
    type Output = Option<T>;

    open spec fn wf(&self) -> bool {
        &&& self.stream.wf()
        &&& self.stream.unshared()
        &&& joins_any(self.f) || merges(self.f, self.merge, self.stream.remaining())
    }

    open spec fn unshared(&self) -> bool {
        self.stream.unshared()
    }

    open spec fn steady(&self) -> bool {
        false
    }

    open spec fn ends_with(&self, out: Option<T>) -> bool {
        out == merge_all(self.stream.remaining(), self.merge, op_of(self.f))
    }

    open spec fn budget(&self) -> nat {
        self.stream.budget() + 1
    }

    open spec fn hint(&self) -> (usize, Option<usize>) {
        self.stream.hint()
    }

    /// Merges the results that are there. It gives the merged value when
    /// the stream of results is exhausted, and nothing when the stream has
    /// no result ready.
    #[inline]
    fn poll_consume(&mut self) -> (r: Option<Option<T>>)
        ensures
            final(self).f == old(self).f,
    {
        loop
            invariant
                self.wf(),
                self.f == old(self).f,
                self.stream.budget() <= old(self).stream.budget(),
                merge_all(self.stream.remaining(), self.merge, op_of(self.f)) == merge_all(
                    old(self).stream.remaining(),
                    old(self).merge,
                    op_of(self.f),
                ),
            decreases self.stream.budget(),
        {
            let ghost arrived = self.stream.remaining();
            let ghost merged = self.merge;
            match self.stream.poll_next() {
                Step::Ready(item) => {
                    proof {
                        lemma_fold_left_first(arrived, merged, merger(op_of(self.f)));
                    }
                    self.absorb(item);
                },
                Step::NotYet => {
                    return None;
                },
                Step::Done => {
                    assert(arrived =~= Seq::<Option<T>>::empty());
                    return Some(self.merge.take());
                },
            }
        }
    }

    fn size_hint(&self) -> (r: (usize, Option<usize>)) {
        self.stream.size_hint()
    }
}

/// What a sink for several workers can do besides.
pub trait FlatConsumerExt: FlatConsumer {
    /// The sinks for the workers, as long as the borrow lasts.
    #[inline]
    fn as_mut(&mut self) -> (r: ConsumeStream<'_, Self>)
        ensures
            *r.execution == *old(self),
            *final(self) == *final(r.execution),
    {
        ConsumeStream { execution: self }
    }
}

impl<E: FlatConsumer> FlatConsumerExt for E {

}

/// The sinks that a borrowed sink for several workers hands out.
pub struct ConsumeStream<'e, E> {
    pub execution: &'e mut E,
}

impl<'e, E: FlatConsumer> ConsumeStream<'e, E> {
    /// The sink for the next worker, or `None` when no work is left to hand
    /// out.
    #[inline]
    pub fn poll_next(&mut self) -> (r: Option<E::Consumer>)
        requires
            old(self).execution.flat_wf(),
        ensures
            hands_out(*old(self).execution, r, *final(self).execution),
    {
        self.execution.poll_next()
    }
}

} // verus!
