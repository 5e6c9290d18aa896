use vstd::prelude::*;
use crate::consumer::Consumer;
use crate::call::{joins_any, op_of, reduces, Operator};
use crate::model::{lemma_fold_left_first, merge_step, reduce};
use crate::step::Step;
use crate::stream::{took, Stream};

verus! {

/// The sink that reduces its cursor by a binary operator. It has no seed:
/// the first item seeds the accumulator, and an empty cursor gives nothing.
pub struct Reduce<Acc, S, F> {
    pub upper: S,
    pub f: F,
    pub acc: Option<Acc>,
}

impl<Acc, S, F> Reduce<Acc, S, F> {
    /// A reduction of `upper` by `f` that has taken in nothing yet.
    pub fn new(upper: S, f: F) -> (r: Reduce<Acc, S, F>)
        ensures
            r.upper == upper,
            r.f == f,
            r.acc is None,
    {
        Reduce { upper, f, acc: None }
    }
}

impl<S, F> Consumer for Reduce<S::Item, S, F> where S: Stream, F: Operator<S::Item, S::Item> {
    type Output = Option<S::Item>;

    open spec fn wf(&self) -> bool {
        &&& self.upper.wf()
        &&& joins_any(self.f) || (self.upper.unshared() && reduces(
            self.f,
            self.acc,
            self.upper.remaining(),
        ))
    }

    open spec fn unshared(&self) -> bool {
        self.upper.unshared()
    }

    open spec fn steady(&self) -> bool {
        self.upper.steady()
    }

    open spec fn ends_with(&self, out: Option<S::Item>) -> bool {
        out == reduce(self.upper.remaining(), self.acc, op_of(self.f))
    }

    open spec fn budget(&self) -> nat {
        self.upper.budget() + 1
    }

    open spec fn hint(&self) -> (usize, Option<usize>) {
        self.upper.hint()
    }

    #[inline]
    fn poll_consume(&mut self) -> (r: Option<Option<S::Item>>)
        ensures
            r is Some && old(self).upper.unshared() ==> old(self).upper.remaining().len() == 0,
            r matches Some(out) ==> out == old(self).acc,
            final(self).f == old(self).f,
            r is None && old(self).upper.unshared() ==> {
                ||| took(old(self).upper, final(self).upper, 0) && final(self).acc == old(
                    self,
                ).acc
                ||| took(old(self).upper, final(self).upper, 1) && final(self).acc == merge_step(
                    op_of(old(self).f),
                    old(self).acc,
                    Some(old(self).upper.remaining()[0]),
                )
            },
    {
        match self.upper.poll_next() {
            Step::NotYet => None,
            Step::Ready(item) => {
                proof {
                    let items = old(self).upper.remaining();
                    if old(self).acc is Some && old(self).upper.unshared() {
                        lemma_fold_left_first(items, old(self).acc->0, op_of(self.f));
                    }
                }
                match self.acc.take() {
                    Some(acc) => {
                        assert(self.f.joins(acc, item));
                        let next = self.f.join(acc, item);
                        self.acc = Some(next);
                    },
                    None => {
                        self.acc = Some(item);
                    },
                }
                None
            },
            Step::Done => {
                assert(old(self).upper.unshared() ==> old(self).upper.remaining() =~= Seq::<
                    S::Item,
                >::empty());
                Some(self.acc.take())
            },
        }
    }

    fn size_hint(&self) -> (r: (usize, Option<usize>)) {
        self.upper.size_hint()
    }
}

impl<S, F> Reduce<S::Item, S, F> where S: Stream, F: Operator<S::Item, S::Item> {
    /// What the reduction has accumulated so far.
    #[inline]
    pub fn take(self) -> (r: Option<S::Item>)
        ensures
            r == self.acc,
    {
        self.acc
    }
}

} // verus!
