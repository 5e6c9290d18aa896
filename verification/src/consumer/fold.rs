use vstd::prelude::*;
use crate::call::{folds, joins_any, op_of, Operator};
use crate::consumer::Consumer;
use crate::model::lemma_fold_left_first;
use crate::step::Step;
use crate::stream::{took, Stream};

verus! {

/// The sink that folds its cursor into a seeded accumulator.
#[must_use]
pub struct Fold<S, F, T> {
    pub stream: S,
    pub f: F,
    pub acc: Option<T>,
}

impl<S, F, T> Consumer for Fold<S, F, T> where S: Stream, F: Operator<T, S::Item> {
    type Output = T;

    open spec fn wf(&self) -> bool {
        &&& self.stream.wf()
        &&& self.acc matches Some(acc) && (joins_any(self.f) || (self.stream.unshared() && folds(
            self.f,
            acc,
            self.stream.remaining(),
        )))
    }

    open spec fn unshared(&self) -> bool {
        self.stream.unshared()
    }

    open spec fn steady(&self) -> bool {
        self.stream.steady()
    }

    open spec fn ends_with(&self, out: T) -> bool {
        self.acc matches Some(acc) && out == self.stream.remaining().fold_left(acc, op_of(self.f))
    }

    open spec fn budget(&self) -> nat {
        self.stream.budget() + 1
    }

    open spec fn hint(&self) -> (usize, Option<usize>) {
        (0, None)
    }

    fn poll_consume(&mut self) -> (r: Option<T>)
        ensures
            r is Some && old(self).stream.unshared() ==> old(self).stream.remaining().len() == 0,
            r matches Some(out) ==> Some(out) == old(self).acc,
            final(self).f == old(self).f,
            r is None && old(self).stream.unshared() ==> {
                ||| took(old(self).stream, final(self).stream, 0) && final(self).acc == old(
                    self,
                ).acc
                ||| took(old(self).stream, final(self).stream, 1) && final(self).acc == Some(
                    old(self).f.joined(old(self).acc->0, old(self).stream.remaining()[0]),
                )
            },
    {
        let ghost items = self.stream.remaining();
        match self.stream.poll_next() {
            Step::NotYet => None,
            Step::Ready(v) => {
                proof {
                    if old(self).stream.unshared() {
                        lemma_fold_left_first(items, old(self).acc->0, op_of(self.f));
                    }
                }
                let acc = self.acc.take().unwrap();
                assert(self.f.joins(acc, v));
                let next = self.f.join(acc, v);
                self.acc = Some(next);
                None
            },
            Step::Done => {
                assert(old(self).stream.unshared() ==> items =~= Seq::<S::Item>::empty());
                Some(self.acc.take().unwrap())
            },
        }
    }

    fn size_hint(&self) -> (r: (usize, Option<usize>)) {
        (0, None)
    }
}

} // verus!
