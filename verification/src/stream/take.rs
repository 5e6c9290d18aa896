use vstd::prelude::*;
use crate::model::take_up_to;
use crate::step::Step;
use crate::stream::{took, Stream};

verus! {

/// A cursor over the first `n` items of its upstream. Once they are out it
/// reports `Done` and leaves its upstream alone.
#[must_use]
pub struct Take<S> {
    pub stream: S,
    pub n: usize,
}

impl<S: Stream> Stream for Take<S> {
    type Item = S::Item;

    open spec fn wf(&self) -> bool {
        self.stream.wf()
    }

    open spec fn unshared(&self) -> bool {
        self.stream.unshared()
    }

    open spec fn steady(&self) -> bool {
        false
    }

    open spec fn remaining(&self) -> Seq<S::Item> {
        take_up_to(self.stream.remaining(), self.n as nat)
    }

    open spec fn budget(&self) -> nat {
        self.stream.budget()
    }

    open spec fn hint(&self) -> (usize, Option<usize>) {
        let size = self.stream.hint();
        (
            if size.0 <= self.n {
                size.0
            } else {
                self.n
            },
            match size.1 {
                Some(upper) => Some(
                    if upper <= self.n {
                        upper
                    } else {
                        self.n
                    },
                ),
                None => Some(self.n),
            },
        )
    }

    fn poll_next(&mut self) -> (r: Step<S::Item>)
        ensures
            old(self).n == 0 ==> r is Done && *final(self) == *old(self),
            r is Ready ==> final(self).n == old(self).n - 1,
            !(r is Ready) ==> final(self).n == old(self).n,
            old(self).stream.unshared() ==> took(
                old(self).stream,
                final(self).stream,
                if r is Ready {
                    1
                } else {
                    0
                },
            ),
    {
        if self.n == 0 {
            assert(self.remaining() =~= Seq::<S::Item>::empty());
            Step::Done
        } else {
            let next = self.stream.poll_next();
            match next {
                Step::NotYet => {
                    return Step::NotYet;
                },
                Step::Ready(_) => {
                    self.n -= 1;
                    assert(old(self).stream.unshared() ==> self.remaining() =~= old(
                        self,
                    ).remaining().skip(1));
                },
                Step::Done => {
                    assert(old(self).stream.unshared() ==> self.remaining() =~= Seq::<
                        S::Item,
                    >::empty());
                    return Step::Done;
                },
            }
            next
        }
    }

    fn size_hint(&self) -> (r: (usize, Option<usize>)) {
        let size = self.stream.size_hint();
        let lower = if size.0 <= self.n {
            size.0
        } else {
            self.n
        };
        let upper = match size.1 {
            Some(upper) => if upper <= self.n {
                upper
            } else {
                self.n
            },
            None => self.n,
        };
        (lower, Some(upper))
    }
}

} // verus!
