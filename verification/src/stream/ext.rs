use vstd::prelude::*;
use crate::consumer::collect::Collect;
use crate::consumer::count::Count;
use crate::consumer::fold::Fold;
use crate::consumer::partition::Partition;
use crate::consumer::reduce::Reduce;
use crate::consumer::try_collect::TryCollect;
use crate::stream::Stream;
use crate::stream::chain::Chain;
use crate::stream::cloned::Cloned;
use crate::stream::copied::Copied;
use crate::stream::filter::Filter;
use crate::stream::flat_map::FlatMap;
use crate::stream::flatten::Flatten;
use crate::stream::fuse::Fuse;
use crate::stream::map::Mapped;
use crate::stream::map_async::MapAsync;
use crate::stream::next::NextFuture;
use crate::stream::skip::Skip;
use crate::stream::skip_while::SkipWhile;
use crate::stream::step_by::StepBy;
use crate::stream::take::Take;
use crate::stream::take_while::TakeWhile;
use crate::stream::try_next::TryNextFuture;

verus! {

/// The combinators and the sinks that every cursor has.
///
/// Building a stage does no work and asks nothing: what a stage needs of
/// its closure and of its upstream is asked when it is polled.
pub trait StreamExt: Stream {
    /// The next step of this cursor.
    fn next(&mut self) -> (r: NextFuture<'_, Self>)
        ensures
            *r.stream == *old(self),
            *final(self) == *final(r.stream),
    {
        NextFuture { stream: self }
    }

    /// The next step of this cursor of fallible items, with the failure of
    /// an item brought to the front.
    fn try_next<T, E>(&mut self) -> (r: TryNextFuture<'_, Self>) where
        Self: Stream<Item = Result<T, E>>,

        ensures
            *r.stream == *old(self),
            *final(self) == *final(r.stream),
    {
        TryNextFuture { stream: self }
    }

    /// Counts the items.
    fn count(self) -> (r: Count<Self>)
        ensures
            r.stream == self,
            r.count == 0,
    {
        Count { stream: self, count: 0 }
    }

    /// Yields what `f` makes of each item.
    fn map<T, F>(self, f: F) -> (r: Mapped<Self, F>) where F: Fn(Self::Item) -> T
        ensures
            r.stream == self,
            r.f == f,
    {
        Mapped { stream: self, f }
    }

    /// Yields the items of the cursors that `f` makes of the items.
    fn flat_map<U, F>(self, f: F) -> (r: FlatMap<Self, U, F>) where
        U: Stream,
        F: Fn(Self::Item) -> U,

        ensures
            r.stream.stream == self,
            r.stream.f == f,
            r.inner_stream is None,
    {
        FlatMap { stream: Mapped { stream: self, f }, inner_stream: None }
    }

    /// Yields the items of the cursors that this cursor yields.
    fn flatten(self) -> (r: Flatten<Self>) where Self::Item: Stream
        ensures
            r.stream == self,
            r.inner_stream is None,
    {
        Flatten { stream: self, inner_stream: None }
    }

    /// Starts the computation `f` for each item, one at a time.
    fn map_async<F, Fut>(self, f: F) -> (r: MapAsync<Self, F, Fut>) where F: Fn(Self::Item) -> Fut
        ensures
            r.stream == self,
            r.f == f,
            r.future is None,
    {
        MapAsync { stream: self, future: None, f }
    }

    /// Yields the items that satisfy `predicate`.
    fn filter<P>(self, predicate: P) -> (r: Filter<Self, P>) where P: Fn(&Self::Item) -> bool
        ensures
            r.stream == self,
            r.predicate == predicate,
    {
        Filter { stream: self, predicate }
    }

    /// Yields the first `n` items.
    fn take(self, n: usize) -> (r: Take<Self>)
        ensures
            r.stream == self,
            r.n == n,
    {
        Take { stream: self, n }
    }

    /// Yields the items up to the first that fails `predicate`.
    fn take_while<P>(self, predicate: P) -> (r: TakeWhile<Self, P>) where
        P: Fn(&Self::Item) -> bool,

        ensures
            r.stream == self,
            r.predicate == predicate,
            !r.done,
    {
        TakeWhile { stream: self, predicate, done: false }
    }

    /// Suppresses the first `n` items.
    fn skip(self, n: usize) -> (r: Skip<Self>)
        ensures
            r.stream == self,
            r.n == n,
    {
        Skip { stream: self, n }
    }

    /// Suppresses the items up to the first that fails `predicate`.
    fn skip_while<P>(self, predicate: P) -> (r: SkipWhile<Self, P>) where
        P: Fn(&Self::Item) -> bool,

        ensures
            r.stream == self,
            r.predicate == Some(predicate),
    {
        SkipWhile { stream: self, predicate: Some(predicate) }
    }

    /// Keeps every `step`-th item, the first one included. The `step` is
    /// greater than zero.
    fn step_by(self, step: usize) -> (r: StepBy<Self>)
        requires
            step > 0,
        ensures
            r.stream == self,
            r.step == step,
            r.i == 0,
    {
        StepBy { stream: self, step, i: 0 }
    }

    /// Reports `Done` for good once it has been seen.
    fn fuse(self) -> (r: Fuse<Self>)
        ensures
            r.stream == self,
            !r.done,
    {
        Fuse { stream: self, done: false }
    }

    /// Yields the items of this cursor, then those of `other`.
    fn chain<U>(self, other: U) -> (r: Chain<Self, U>) where U: Stream<Item = Self::Item>
        ensures
            r.first.stream == self,
            !r.first.done,
            r.second.stream == other,
            !r.second.done,
    {
        Chain { first: Fuse { stream: self, done: false }, second: Fuse { stream: other, done: false } }
    }

    /// Yields a clone of each item that this cursor refers to.
    fn cloned<'a, T>(self) -> (r: Cloned<Self, T>) where Self: Stream<Item = &'a T>, T: Clone + 'a
        ensures
            r.stream == self,
    {
        Cloned { stream: self, marker: core::marker::PhantomData }
    }

    /// Yields a copy of each item that this cursor refers to.
    fn copied<'a, T>(self) -> (r: Copied<Self, T>) where Self: Stream<Item = &'a T>, T: Copy + 'a
        ensures
            r.stream == self,
    {
        Copied { stream: self, marker: core::marker::PhantomData }
    }

    /// Gathers the items in a vector.
    fn collect(self) -> (r: Collect<Self, Self::Item>)
        ensures
            r.stream == self,
            r.collection@ == Seq::<Self::Item>::empty(),
    {
        Collect { stream: self, collection: Vec::new() }
    }

    /// Gathers the values of the items in a vector, up to the first item
    /// that failed.
    fn try_collect<T, E>(self) -> (r: TryCollect<Self, T>) where Self: Stream<Item = Result<T, E>>
        ensures
            r.stream == self,
            r.collection@ == Seq::<T>::empty(),
    {
        TryCollect { stream: self, collection: Vec::new() }
    }

    /// Splits the items in two vectors: those that satisfy `predicate`, and
    /// the others.
    fn partition<P>(self, predicate: P) -> (r: Partition<Self, P, Self::Item>) where
        P: Fn(&Self::Item) -> bool,

        ensures
            r.stream == self,
            r.predicate == predicate,
            r.res matches Some(res) && res.0@ == Seq::<Self::Item>::empty() && res.1@
                == Seq::<Self::Item>::empty(),
    {
        Partition { stream: self, predicate, res: Some((Vec::new(), Vec::new())) }
    }

    /// Folds the items into `init` by `f`.
    fn fold<T, F>(self, init: T, f: F) -> (r: Fold<Self, F, T>) where F: Fn(T, Self::Item) -> T
        ensures
            r.stream == self,
            r.f == f,
            r.acc == Some(init),
    {
        Fold { stream: self, f, acc: Some(init) }
    }

    /// Reduces the items by `f`, the first item being the seed.
    fn reduce<F>(self, f: F) -> (r: Reduce<Self::Item, Self, F>) where
        F: Fn(Self::Item, Self::Item) -> Self::Item,

        ensures
            r.upper == self,
            r.f == f,
            r.acc is None,
    {
        Reduce::new(self, f)
    }
}

impl<S: Stream> StreamExt for S {

}

} // verus!
