use vstd::prelude::*;
use crate::step::Step;
use crate::stream::{took, Stream};

verus! {

/// The items that the references in `items` refer to.
pub open spec fn referents<'a, T>(items: Seq<&'a T>) -> Seq<T> {
    Seq::new(items.len(), |i: int| *items[i])
}

/// A cursor that yields a copy of each item that its upstream refers to.
#[must_use]
pub struct Copied<S, T> {
    pub stream: S,
    pub marker: core::marker::PhantomData<T>,
}

impl<'a, S, T: 'a> Stream for Copied<S, T> where S: Stream<Item = &'a T>, T: Copy {
    type Item = T;

    open spec fn wf(&self) -> bool {
        self.stream.wf()
    }

    open spec fn unshared(&self) -> bool {
        self.stream.unshared()
    }

    open spec fn steady(&self) -> bool {
        self.stream.steady()
    }

    open spec fn remaining(&self) -> Seq<T> {
        referents(self.stream.remaining())
    }

    open spec fn budget(&self) -> nat {
        self.stream.budget()
    }

    open spec fn hint(&self) -> (usize, Option<usize>) {
        (0, None)
    }

    fn poll_next(&mut self) -> (r: Step<T>)
        ensures
            old(self).stream.unshared() ==> took(
                old(self).stream,
                final(self).stream,
                if r is Ready {
                    1
                } else {
                    0
                },
            ),
    {
        let next = self.stream.poll_next();
        proof {
            if next is Ready && old(self).stream.unshared() {
                assert(self.remaining() =~= old(self).remaining().skip(1));
            }
        }
        next.copied()
    }

    fn size_hint(&self) -> (r: (usize, Option<usize>)) {
        (0, None)
    }
}

} // verus!
