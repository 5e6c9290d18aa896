use vstd::prelude::*;
use crate::call::{decides_all, decides_any, lemma_decides_rest, test_of, Predicate};
use crate::step::Step;
use crate::stream::{took, Stream};

verus! {

/// A cursor over the items of its upstream that satisfy the predicate. An
/// item that fails it is answered by `NotYet`.
#[must_use]
pub struct Filter<S, P> {
    pub stream: S,
    pub predicate: P,
}

impl<S, P> Stream for Filter<S, P> where S: Stream, P: Predicate<S::Item> {
    type Item = S::Item;

    open spec fn wf(&self) -> bool {
        &&& self.stream.wf()
        &&& decides_any(self.predicate) || (self.stream.unshared() && decides_all(
            self.predicate,
            self.stream.remaining(),
        ))
    }

    open spec fn unshared(&self) -> bool {
        self.stream.unshared()
    }

    open spec fn steady(&self) -> bool {
        self.stream.steady()
    }

    open spec fn remaining(&self) -> Seq<S::Item> {
        self.stream.remaining().filter(test_of(self.predicate))
    }

    open spec fn budget(&self) -> nat {
        self.stream.budget()
    }

    open spec fn hint(&self) -> (usize, Option<usize>) {
        (0, self.stream.hint().1)
    }

    fn poll_next(&mut self) -> (r: Step<S::Item>)
        ensures
            final(self).predicate == old(self).predicate,
            r matches Step::Ready(item) ==> old(self).predicate.holds(item),
            old(self).stream.unshared() ==> match r {
                Step::NotYet => took(old(self).stream, final(self).stream, 0) || (took(
                    old(self).stream,
                    final(self).stream,
                    1,
                ) && !old(self).predicate.holds(old(self).stream.remaining()[0])),
                Step::Ready(_) => took(old(self).stream, final(self).stream, 1),
                Step::Done => took(old(self).stream, final(self).stream, 0) && old(
                    self,
                ).stream.remaining().len() == 0,
            },
    {
        let ghost items = self.stream.remaining();
        match self.stream.poll_next() {
            Step::NotYet => Step::NotYet,
            Step::Ready(item) => {
                proof {
                    if old(self).stream.unshared() {
                        assert(items =~= seq![item] + items.skip(1));
                        items.skip(1).lemma_filter_prepend(item, test_of(self.predicate));
                    }
                    if !decides_any(self.predicate) {
                        lemma_decides_rest(self.predicate, items);
                    }
                    assert(self.predicate.decides(item));
                }
                if self.predicate.test(&item) {
                    assert(old(self).stream.unshared() ==> self.remaining() =~= old(
                        self,
                    ).remaining().skip(1));
                    Step::Ready(item)
                } else {
                    assert(old(self).stream.unshared() ==> self.remaining() =~= old(
                        self,
                    ).remaining());
                    Step::NotYet
                }
            },
            Step::Done => {
                proof {
                    if old(self).stream.unshared() {
                        assert(items =~= Seq::<S::Item>::empty());
                        items.lemma_filter_len(test_of(self.predicate));
                    }
                }
                Step::Done
            },
        }
    }

    fn size_hint(&self) -> (r: (usize, Option<usize>)) {
        proof {
            self.stream.remaining().lemma_filter_len(test_of(self.predicate));
        }
        (0, self.stream.size_hint().1)
    }
}

} // verus!
