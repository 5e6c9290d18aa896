use vstd::prelude::*;
use crate::step::Step;
use crate::stream::Stream;

verus! {

/// What a cursor with a computation in flight asks of its driver.
#[derive(Clone, Copy, Debug, PartialEq, Eq, Structural)]
pub enum Flight {
    /// Progress was made upstream and no computation was started.
    NotYet,
    /// A computation is in flight: it is to be awaited, and what it gives
    /// handed to `resolve`.
    Await,
    /// The upstream is exhausted and no computation is in flight.
    Done,
}

/// A cursor that starts a computation for each item of its upstream, one
/// at a time: while one is in flight the upstream is left alone.
///
/// The cursor decides; awaiting the computation is left to the driver.
#[must_use]
pub struct MapAsync<S, F, Fut> {
    pub stream: S,
    pub future: Option<Fut>,
    pub f: F,
}

impl<S, F, Fut> MapAsync<S, F, Fut> where S: Stream, F: Fn(S::Item) -> Fut {
    /// The cursor may be polled.
    pub open spec fn wf(&self) -> bool {
        &&& self.stream.wf()
        &&& (forall|item: S::Item| #[trigger] self.f.requires((item,))) || (self.stream.unshared()
            && forall|i: int|
            0 <= i < self.stream.remaining().len() ==> self.f.requires(
                (#[trigger] self.stream.remaining()[i],),
            ))
    }

    /// The number of results that the cursor has yet to yield, where its
    /// upstream is unshared.
    pub open spec fn outstanding(&self) -> nat {
        self.stream.remaining().len() + if self.future is Some {
            1nat
        } else {
            0nat
        }
    }

    /// Advances the cursor once. With a computation in flight this asks for
    /// it to be awaited and touches nothing. Without one the upstream is
    /// polled, and an item that it yields starts the next computation.
    pub fn poll_next(&mut self) -> (r: Flight)
        requires
            old(self).wf(),
        ensures
            final(self).wf(),
            final(self).f == old(self).f,
            old(self).future is Some ==> r == Flight::Await && *final(self) == *old(self),
            old(self).future is None ==> (final(self).future is Some <==> r == Flight::Await),
            old(self).future is None && old(self).stream.unshared() ==> final(self).stream.unshared()
                && match r {
                Flight::NotYet => {
                    &&& final(self).stream.remaining() == old(self).stream.remaining()
                    &&& final(self).stream.budget() < old(self).stream.budget()
                },
                Flight::Await => {
                    &&& old(self).stream.remaining().len() > 0
                    &&& final(self).future matches Some(started) && old(self).f.ensures(
                        (old(self).stream.remaining()[0],),
                        started,
                    )
                    &&& final(self).stream.remaining() == old(self).stream.remaining().skip(1)
                    &&& final(self).stream.budget() < old(self).stream.budget()
                },
                Flight::Done => {
                    &&& old(self).stream.remaining().len() == 0
                    &&& final(self).stream.remaining() == old(self).stream.remaining()
                },
            },
    {
        if self.future.is_some() {
            return Flight::Await;
        }
        let ghost items = self.stream.remaining();
        match self.stream.poll_next() {
            Step::NotYet => Flight::NotYet,
            Step::Ready(item) => {
                proof {
                    if !(forall|item: S::Item| #[trigger] self.f.requires((item,))) {
                        assert(item == items[0]);
                        assert forall|i: int|
                            0 <= i < self.stream.remaining().len() implies self.f.requires(
                            (#[trigger] self.stream.remaining()[i],),
                        ) by {
                            assert(self.stream.remaining()[i] == items[i + 1]);
                        }
                    }
                }
                let started = (self.f)(item);
                self.future = Some(started);
                Flight::Await
            },
            Step::Done => Flight::Done,
        }
    }

    /// Takes in what the computation in flight gave: the slot is cleared
    /// and the result is the next item.
    pub fn resolve<T>(&mut self, output: T) -> (r: Step<T>)
        requires
            old(self).future is Some,
        ensures
            r == Step::Ready(output),
            final(self).future is None,
            final(self).stream == old(self).stream,
            final(self).f == old(self).f,
    {
        self.future = None;
        Step::Ready(output)
    }

    /// Bounds on the number of results left: those of the upstream, and one
    /// more while a computation is in flight.
    pub fn size_hint(&self) -> (r: (usize, Option<usize>))
        requires
            self.wf(),
        ensures
            self.stream.unshared() ==> r.0 <= self.outstanding(),
            self.stream.unshared() ==> (r.1 matches Some(upper) ==> self.outstanding() <= upper),
            ({
                let size = self.stream.hint();
                let flying: int = if self.future is Some {
                    1
                } else {
                    0
                };
                &&& r.0 == if size.0 + flying <= usize::MAX {
                    size.0 + flying
                } else {
                    usize::MAX as int
                }
                &&& r.1 == match size.1 {
                    Some(upper) => if upper + flying <= usize::MAX {
                        Some((upper + flying) as usize)
                    } else {
                        None
                    },
                    None => None,
                }
            }),
    {
        let future_len: usize = if self.future.is_some() {
            1
        } else {
            0
        };
        let (lower, upper) = self.stream.size_hint();
        let lower = lower.saturating_add(future_len);
        let upper = match upper {
            Some(u) => u.checked_add(future_len),
            None => None,
        };
        (lower, upper)
    }
}

} // verus!
