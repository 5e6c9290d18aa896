use vstd::prelude::*;
use crate::step::Step;
use crate::stream::{took, Stream};
use crate::stream::copied::referents;

verus! {

/// Every clone of `item` equals `item`.
pub open spec fn clones_alike<T: Clone>(item: T) -> bool {
    forall|copy: T| cloned::<T>(item, copy) ==> copy == item
}

/// Every clone of any value of this type equals the value.
pub open spec fn clones_alike_any<T: Clone>() -> bool {
    forall|item: T| #[trigger] clones_alike::<T>(item)
}

/// A cursor that yields a clone of each item that its upstream refers to.
#[must_use]
pub struct Cloned<S, T> {
    pub stream: S,
    pub marker: core::marker::PhantomData<T>,
}

impl<'a, S, T: 'a> Stream for Cloned<S, T> where S: Stream<Item = &'a T>, T: Clone {
    type Item = T;

    open spec fn wf(&self) -> bool {
        &&& self.stream.wf()
        &&& clones_alike_any::<T>() || (self.stream.unshared() && forall|i: int|
            0 <= i < self.stream.remaining().len() ==> clones_alike::<T>(
                *#[trigger] self.stream.remaining()[i],
            ))
    }

    open spec fn unshared(&self) -> bool {
        self.stream.unshared()
    }

    open spec fn steady(&self) -> bool {
        self.stream.steady()
    }

    open spec fn remaining(&self) -> Seq<T> {
        referents(self.stream.remaining())
    }

    open spec fn budget(&self) -> nat {
        self.stream.budget()
    }

    open spec fn hint(&self) -> (usize, Option<usize>) {
        (0, None)
    }

    fn poll_next(&mut self) -> (r: Step<T>)
        ensures
            old(self).stream.unshared() ==> took(
                old(self).stream,
                final(self).stream,
                if r is Ready {
                    1
                } else {
                    0
                },
            ),
    {
        let ghost items = self.stream.remaining();
        let next = self.stream.poll_next();
        proof {
            if old(self).stream.unshared() {
                if next is Ready {
                    assert(self.remaining() =~= old(self).remaining().skip(1));
                    assert(clones_alike::<T>(*items[0]));
                }
            }
            if !clones_alike_any::<T>() {
                assert forall|i: int|
                    0 <= i < self.stream.remaining().len() implies clones_alike::<T>(
                    *#[trigger] self.stream.remaining()[i],
                ) by {
                    if next is Ready {
                        assert(self.stream.remaining()[i] == items[i + 1]);
                    }
                }
            }
        }
        next.cloned()
    }

    fn size_hint(&self) -> (r: (usize, Option<usize>)) {
        (0, None)
    }
}

} // verus!
