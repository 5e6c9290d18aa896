use vstd::prelude::*;
use crate::call::{applies_all, applies_any, fn_of, lemma_applies_rest, Function};
use crate::step::Step;
use crate::stream::{took, Stream};

verus! {

/// A cursor that yields what `f` makes of each item of its upstream.
#[must_use]
pub struct Mapped<S, F> {
    pub stream: S,
    pub f: F,
}

impl<S, F> Mapped<S, F> {
    pub fn new(stream: S, f: F) -> (r: Mapped<S, F>)
        ensures
            r.stream == stream,
            r.f == f,
    {
        Mapped { stream, f }
    }
}

impl<S, F> Stream for Mapped<S, F> where S: Stream, F: Function<S::Item> {
    type Item = F::Out;

    open spec fn wf(&self) -> bool {
        &&& self.stream.wf()
        &&& applies_any(self.f) || (self.stream.unshared() && applies_all(
            self.f,
            self.stream.remaining(),
        ))
    }

    open spec fn unshared(&self) -> bool {
        self.stream.unshared()
    }

    open spec fn steady(&self) -> bool {
        self.stream.steady()
    }

    open spec fn remaining(&self) -> Seq<F::Out> {
        self.stream.remaining().map_values(fn_of(self.f))
    }

    open spec fn budget(&self) -> nat {
        self.stream.budget()
    }

    open spec fn hint(&self) -> (usize, Option<usize>) {
        self.stream.hint()
    }

    fn poll_next(&mut self) -> (r: Step<F::Out>)
        ensures
            final(self).f == old(self).f,
            old(self).stream.unshared() ==> took(
                old(self).stream,
                final(self).stream,
                if r is Ready {
                    1
                } else {
                    0
                },
            ),
    {
        let ghost items = self.stream.remaining();
        match self.stream.poll_next() {
            Step::NotYet => Step::NotYet,
            Step::Ready(item) => {
                proof {
                    if !applies_any(self.f) {
                        lemma_applies_rest(self.f, items);
                    }
                    assert(self.f.applies(item));
                }
                let mapped = self.f.call(item);
                assert(old(self).stream.unshared() ==> self.remaining() =~= old(
                    self,
                ).remaining().skip(1));
                Step::Ready(mapped)
            },
            Step::Done => Step::Done,
        }
    }

    fn size_hint(&self) -> (r: (usize, Option<usize>)) {
        self.stream.size_hint()
    }
}

} // verus!
