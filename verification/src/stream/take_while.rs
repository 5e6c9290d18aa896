use vstd::prelude::*;
use crate::call::{decides_any, decides_prefix, test_of, Predicate};
use crate::model::{lemma_prefix_len_bound, prefix_len, take_while};
use crate::step::Step;
use crate::stream::{took, Stream};

verus! {

/// A cursor over the items of its upstream up to the first one that fails
/// the predicate. That item is taken and dropped; from then on the cursor
/// reports `Done` and leaves its upstream alone.
#[must_use]
pub struct TakeWhile<S, P> {
    pub stream: S,
    pub predicate: P,
    pub done: bool,
}

impl<S, P> Stream for TakeWhile<S, P> where S: Stream, P: Predicate<S::Item> {
    type Item = S::Item;

    open spec fn wf(&self) -> bool {
        &&& self.stream.wf()
        &&& !self.done ==> decides_any(self.predicate) || (self.stream.unshared()
            && decides_prefix(self.predicate, self.stream.remaining()))
    }

    open spec fn unshared(&self) -> bool {
        self.stream.unshared()
    }

    open spec fn steady(&self) -> bool {
        false
    }

    open spec fn remaining(&self) -> Seq<S::Item> {
        if self.done {
            Seq::empty()
        } else {
            take_while(self.stream.remaining(), test_of(self.predicate))
        }
    }

    open spec fn budget(&self) -> nat {
        if self.done {
            0
        } else {
            self.stream.budget()
        }
    }

    open spec fn hint(&self) -> (usize, Option<usize>) {
        if self.done {
            (0, Some(0))
        } else {
            (0, self.stream.hint().1)
        }
    }

    fn poll_next(&mut self) -> (r: Step<S::Item>)
        ensures
            final(self).predicate == old(self).predicate,
            old(self).done ==> r is Done && *final(self) == *old(self),
            !(r is Done) ==> !final(self).done,
            r matches Step::Ready(item) ==> old(self).predicate.holds(item),
            !old(self).done && old(self).stream.unshared() ==> match r {
                Step::NotYet => took(old(self).stream, final(self).stream, 0),
                Step::Ready(_) => took(old(self).stream, final(self).stream, 1),
                Step::Done => (took(old(self).stream, final(self).stream, 0) && !final(self).done)
                    || (took(old(self).stream, final(self).stream, 1) && final(self).done
                    && !old(self).predicate.holds(old(self).stream.remaining()[0])),
            },
    {
        if self.done {
            return Step::Done;
        }
        let ghost items = self.stream.remaining();
        match self.stream.poll_next() {
            Step::NotYet => Step::NotYet,
            Step::Ready(item) => {
                let ghost keep = test_of(self.predicate);
                assert(self.predicate.decides(item));
                if self.predicate.test(&item) {
                    proof {
                        if old(self).stream.unshared() {
                            assert(keep(items[0]));
                            assert(prefix_len(items, keep) == 1 + prefix_len(items.skip(1), keep));
                            lemma_prefix_len_bound(items.skip(1), keep);
                            assert(take_while(items, keep).skip(1) =~= take_while(items.skip(1), keep));
                        }
                    }
                    Step::Ready(item)
                } else {
                    proof {
                        if old(self).stream.unshared() {
                            assert(!keep(items[0]));
                            assert(prefix_len(items, keep) == 0);
                        }
                    }
                    self.done = true;
                    Step::Done
                }
            },
            Step::Done => Step::Done,
        }
    }

    fn size_hint(&self) -> (r: (usize, Option<usize>)) {
        proof {
            lemma_prefix_len_bound(self.stream.remaining(), test_of(self.predicate));
        }
        if self.done {
            (0, Some(0))
        } else {
            (0, self.stream.size_hint().1)
        }
    }
}

} // verus!
