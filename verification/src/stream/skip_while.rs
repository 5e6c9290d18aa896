use vstd::prelude::*;
use crate::call::{decides_any, decides_prefix, test_of, Predicate};
use crate::model::{lemma_prefix_len_bound, prefix_len, skip_while};
use crate::step::Step;
use crate::stream::{took, Stream};

verus! {

/// A cursor that suppresses the items of its upstream for as long as they
/// satisfy the predicate. Once an item has failed it, the predicate is
/// dropped and every later item passes.
#[must_use]
pub struct SkipWhile<S, P> {
    pub stream: S,
    pub predicate: Option<P>,
}

impl<S, P> Stream for SkipWhile<S, P> where S: Stream, P: Predicate<S::Item> {
    type Item = S::Item;

    open spec fn wf(&self) -> bool {
        &&& self.stream.wf()
        &&& self.predicate matches Some(p) ==> decides_any(p) || (self.stream.unshared()
            && decides_prefix(p, self.stream.remaining()))
    }

    open spec fn unshared(&self) -> bool {
        self.stream.unshared()
    }

    open spec fn steady(&self) -> bool {
        self.stream.steady()
    }

    open spec fn remaining(&self) -> Seq<S::Item> {
        match self.predicate {
            Some(p) => skip_while(self.stream.remaining(), test_of(p)),
            None => self.stream.remaining(),
        }
    }

    open spec fn budget(&self) -> nat {
        self.stream.budget()
    }

    open spec fn hint(&self) -> (usize, Option<usize>) {
        match self.predicate {
            Some(_) => (0, self.stream.hint().1),
            None => self.stream.hint(),
        }
    }

    fn poll_next(&mut self) -> (r: Step<S::Item>)
        ensures
            old(self).predicate is None ==> final(self).predicate is None,
            final(self).predicate matches Some(p) ==> old(self).predicate == Some(p),
            r is Ready ==> final(self).predicate is None,
            r is Ready && old(self).predicate is Some ==> !old(self).predicate->0.holds(r->0),
            old(self).stream.unshared() ==> match r {
                Step::NotYet => took(old(self).stream, final(self).stream, 0) || (took(
                    old(self).stream,
                    final(self).stream,
                    1,
                ) && old(self).predicate is Some && old(self).predicate->0.holds(
                    old(self).stream.remaining()[0],
                )),
                Step::Ready(_) => took(old(self).stream, final(self).stream, 1),
                Step::Done => took(old(self).stream, final(self).stream, 0) && old(
                    self,
                ).stream.remaining().len() == 0,
            },
    {
        let ghost items = self.stream.remaining();
        match self.stream.poll_next() {
            Step::NotYet => Step::NotYet,
            Step::Ready(v) => {
                let drop = match &self.predicate {
                    Some(p) => {
                        assert(p.decides(v));
                        p.test(&v)
                    },
                    None => false,
                };
                if drop {
                    proof {
                        if old(self).stream.unshared() {
                            let keep = test_of(old(self).predicate->0);
                            assert(keep(items[0]));
                            assert(prefix_len(items, keep) == 1 + prefix_len(items.skip(1), keep));
                            lemma_prefix_len_bound(items.skip(1), keep);
                            assert(skip_while(items, keep) =~= skip_while(items.skip(1), keep));
                        }
                    }
                    Step::NotYet
                } else {
                    proof {
                        if old(self).predicate is Some && old(self).stream.unshared() {
                            let keep = test_of(old(self).predicate->0);
                            assert(!keep(items[0]));
                            assert(prefix_len(items, keep) == 0);
                            assert(skip_while(items, keep) =~= items);
                        }
                    }
                    self.predicate = None;
                    Step::Ready(v)
                }
            },
            Step::Done => {
                assert(old(self).stream.unshared() ==> items =~= Seq::<S::Item>::empty());
                Step::Done
            },
        }
    }

    fn size_hint(&self) -> (r: (usize, Option<usize>)) {
        proof {
            if self.predicate is Some && self.stream.unshared() {
                lemma_prefix_len_bound(self.stream.remaining(), test_of(self.predicate->0));
            }
        }
        let size = self.stream.size_hint();
        match &self.predicate {
            Some(_) => (0, size.1),
            None => size,
        }
    }
}

} // verus!
