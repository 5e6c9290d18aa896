use vstd::prelude::*;
use crate::model::{lemma_strided_keep, lemma_strided_wait, strided};
use crate::step::Step;
use crate::stream::{took, Stream};

verus! {

/// A cursor that keeps every `step`-th item of its upstream, the first one
/// included. `i` counts the items to pass over before the next one is kept.
#[must_use]
pub struct StepBy<S> {
    pub stream: S,
    pub step: usize,
    pub i: usize,
}

impl<S: Stream> Stream for StepBy<S> {
    type Item = S::Item;

    open spec fn wf(&self) -> bool {
        &&& self.stream.wf()
        &&& 0 < self.step
        &&& self.i < self.step
    }

    open spec fn unshared(&self) -> bool {
        self.stream.unshared()
    }

    open spec fn steady(&self) -> bool {
        self.stream.steady()
    }

    open spec fn remaining(&self) -> Seq<S::Item> {
        strided(self.stream.remaining(), self.step as nat, self.i as nat)
    }

    open spec fn budget(&self) -> nat {
        self.stream.budget()
    }

    open spec fn hint(&self) -> (usize, Option<usize>) {
        (0, None)
    }

    fn poll_next(&mut self) -> (r: Step<S::Item>)
        ensures
            final(self).step == old(self).step,
            r is Ready ==> old(self).i == 0 && final(self).i == old(self).step - 1,
            r is Done ==> final(self).i == old(self).i,
            old(self).stream.unshared() ==> match r {
                Step::NotYet => {
                    ||| took(old(self).stream, final(self).stream, 0) && final(self).i == old(
                        self,
                    ).i
                    ||| took(old(self).stream, final(self).stream, 1) && final(self).i == old(
                        self,
                    ).i - 1
                },
                Step::Ready(_) => took(old(self).stream, final(self).stream, 1),
                Step::Done => took(old(self).stream, final(self).stream, 0) && old(
                    self,
                ).stream.remaining().len() == 0,
            },
    {
        let ghost items = self.stream.remaining();
        match self.stream.poll_next() {
            Step::NotYet => Step::NotYet,
            Step::Ready(v) => {
                if self.i == 0 {
                    proof {
                        if old(self).stream.unshared() {
                            lemma_strided_keep(items, self.step as nat);
                        }
                    }
                    self.i = self.step - 1;
                    Step::Ready(v)
                } else {
                    proof {
                        if old(self).stream.unshared() {
                            lemma_strided_wait(items, self.step as nat, self.i as nat);
                        }
                    }
                    self.i -= 1;
                    Step::NotYet
                }
            },
            Step::Done => Step::Done,
        }
    }

    fn size_hint(&self) -> (r: (usize, Option<usize>)) {
        (0, None)
    }
}

} // verus!
