use vstd::prelude::*;
use crate::step::Step;
use crate::stream::{took, Stream};

verus! {

/// A cursor that remembers that it has seen `Done`: from then on it reports
/// `Done` without entering its upstream again.
#[must_use]
pub struct Fuse<S> {
    pub stream: S,
    pub done: bool,
}

/// One poll that returned `r` has taken a fused cursor from `before` to
/// `after`: what `Fuse` adds to the promise of `poll_next`.
pub open spec fn fuses<S: Stream>(before: Fuse<S>, r: Step<S::Item>, after: Fuse<S>) -> bool {
    &&& before.done ==> r is Done && after == before
    &&& r is Done ==> after.done
}

impl<S: Stream> Stream for Fuse<S> {
    type Item = S::Item;

    open spec fn wf(&self) -> bool {
        self.stream.wf()
    }

    open spec fn unshared(&self) -> bool {
        self.stream.unshared()
    }

    open spec fn steady(&self) -> bool {
        self.stream.steady()
    }

    open spec fn remaining(&self) -> Seq<S::Item> {
        if self.done {
            Seq::empty()
        } else {
            self.stream.remaining()
        }
    }

    open spec fn budget(&self) -> nat {
        if self.done {
            0
        } else {
            self.stream.budget()
        }
    }

    open spec fn hint(&self) -> (usize, Option<usize>) {
        (0, None)
    }

    fn poll_next(&mut self) -> (r: Step<S::Item>)
        ensures
            fuses(*old(self), r, *final(self)),
            !(r is Done) ==> !final(self).done,
            !old(self).done && old(self).stream.unshared() ==> took(
                old(self).stream,
                final(self).stream,
                if r is Ready {
                    1
                } else {
                    0
                },
            ),
    {
        if self.done {
            Step::Done
        } else {
            let next = self.stream.poll_next();
            if let Step::Done = next {
                self.done = true;
            }
            next
        }
    }

    fn size_hint(&self) -> (r: (usize, Option<usize>)) {
        (0, None)
    }
}

} // verus!
