use vstd::prelude::*;
use crate::model::skip_up_to;
use crate::step::Step;
use crate::stream::{took, Stream};

verus! {

/// A cursor that suppresses the first `n` items of its upstream.
#[must_use]
pub struct Skip<S> {
    pub stream: S,
    pub n: usize,
}

impl<S: Stream> Stream for Skip<S> {
    type Item = S::Item;

    open spec fn wf(&self) -> bool {
        self.stream.wf()
    }

    open spec fn unshared(&self) -> bool {
        self.stream.unshared()
    }

    open spec fn steady(&self) -> bool {
        self.stream.steady()
    }

    open spec fn remaining(&self) -> Seq<S::Item> {
        skip_up_to(self.stream.remaining(), self.n as nat)
    }

    open spec fn budget(&self) -> nat {
        self.stream.budget()
    }

    open spec fn hint(&self) -> (usize, Option<usize>) {
        let size = self.stream.hint();
        (
            if size.0 >= self.n {
                (size.0 - self.n) as usize
            } else {
                0
            },
            match size.1 {
                Some(upper) => Some(
                    if upper >= self.n {
                        (upper - self.n) as usize
                    } else {
                        0
                    },
                ),
                None => None,
            },
        )
    }

    fn poll_next(&mut self) -> (r: Step<S::Item>)
        ensures
            r is Ready ==> old(self).n == 0,
            final(self).n <= old(self).n,
            old(self).stream.unshared() ==> match r {
                Step::NotYet => {
                    ||| took(old(self).stream, final(self).stream, 0) && final(self).n == old(
                        self,
                    ).n
                    ||| took(old(self).stream, final(self).stream, 1) && final(self).n == old(
                        self,
                    ).n - 1
                },
                Step::Ready(_) => took(old(self).stream, final(self).stream, 1),
                Step::Done => took(old(self).stream, final(self).stream, 0) && old(
                    self,
                ).stream.remaining().len() == 0,
            },
    {
        match self.stream.poll_next() {
            Step::NotYet => Step::NotYet,
            Step::Ready(item) => {
                if self.n == 0 {
                    return Step::Ready(item);
                }
                self.n -= 1;
                assert(old(self).stream.unshared() ==> self.remaining() =~= old(self).remaining());
                Step::NotYet
            },
            Step::Done => {
                assert(old(self).stream.unshared() ==> self.remaining() =~= Seq::<
                    S::Item,
                >::empty());
                Step::Done
            },
        }
    }

    fn size_hint(&self) -> (r: (usize, Option<usize>)) {
        let size = self.stream.size_hint();
        let lower = size.0.saturating_sub(self.n);
        let upper = match size.1 {
            Some(upper) => Some(upper.saturating_sub(self.n)),
            None => None,
        };
        (lower, upper)
    }
}

} // verus!
