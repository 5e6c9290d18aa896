use vstd::prelude::*;
use crate::call::{
    decides_all,
    decides_any,
    lemma_decides_rest,
    refusal_of,
    test_of,
    Predicate,
};
use crate::consumer::Consumer;
use crate::step::Step;
use crate::stream::{took, Stream};

verus! {

/// The sink that splits the items of its cursor in two vectors: those that
/// satisfy the predicate, and the others.
#[must_use]
pub struct Partition<S, P, T> {
    pub stream: S,
    pub predicate: P,
    pub res: Option<(Vec<T>, Vec<T>)>,
}

impl<S, P> Consumer for Partition<S, P, S::Item> where S: Stream, P: Predicate<S::Item> {
    type Output = (Vec<S::Item>, Vec<S::Item>);

    open spec fn wf(&self) -> bool {
        &&& self.stream.wf()
        &&& self.res is Some
        &&& decides_any(self.predicate) || (self.stream.unshared() && decides_all(
            self.predicate,
            self.stream.remaining(),
        ))
    }

    open spec fn unshared(&self) -> bool {
        self.stream.unshared()
    }

    open spec fn steady(&self) -> bool {
        self.stream.steady()
    }

    open spec fn ends_with(&self, out: (Vec<S::Item>, Vec<S::Item>)) -> bool {
        let items = self.stream.remaining();
        &&& self.res matches Some(res) && out.0@ == res.0@ + items.filter(test_of(self.predicate))
            && out.1@ == res.1@ + items.filter(refusal_of(self.predicate))
    }

    open spec fn budget(&self) -> nat {
        self.stream.budget() + 1
    }

    open spec fn hint(&self) -> (usize, Option<usize>) {
        self.stream.hint()
    }

    fn poll_consume(&mut self) -> (r: Option<(Vec<S::Item>, Vec<S::Item>)>)
        ensures
            r is Some && old(self).stream.unshared() ==> old(self).stream.remaining().len() == 0,
            r matches Some(out) ==> Some(out) == old(self).res,
            r is None ==> final(self).res is Some,
            r is None && old(self).stream.unshared() ==> {
                let first = old(self).stream.remaining()[0];
                let before = old(self).res->0;
                let after = final(self).res->0;
                ||| took(old(self).stream, final(self).stream, 0) && after.0@ == before.0@
                    && after.1@ == before.1@
                ||| took(old(self).stream, final(self).stream, 1) && if old(
                    self,
                ).predicate.holds(first) {
                    after.0@ == before.0@.push(first) && after.1@ == before.1@
                } else {
                    after.0@ == before.0@ && after.1@ == before.1@.push(first)
                }
            },
            final(self).predicate == old(self).predicate,
    {
        let ghost items = self.stream.remaining();
        let ghost keep = test_of(self.predicate);
        let ghost refuse = refusal_of(self.predicate);
        match self.stream.poll_next() {
            Step::NotYet => None,
            Step::Ready(v) => {
                proof {
                    if old(self).stream.unshared() {
                        assert(items =~= seq![v] + items.skip(1));
                        items.skip(1).lemma_filter_prepend(v, keep);
                        items.skip(1).lemma_filter_prepend(v, refuse);
                    }
                    if !decides_any(self.predicate) {
                        lemma_decides_rest(self.predicate, items);
                    }
                    assert(self.predicate.decides(v));
                }
                let (mut kept, mut refused) = self.res.take().unwrap();
                let ghost kept_before = kept@;
                let ghost refused_before = refused@;
                if self.predicate.test(&v) {
                    kept.push(v);
                    assert(old(self).stream.unshared() ==> kept@ + items.skip(1).filter(keep)
                        =~= kept_before + items.filter(keep));
                } else {
                    refused.push(v);
                    assert(old(self).stream.unshared() ==> refused@ + items.skip(1).filter(refuse)
                        =~= refused_before + items.filter(refuse));
                }
                self.res = Some((kept, refused));
                None
            },
            Step::Done => {
                let res = self.res.take().unwrap();
                proof {
                    if old(self).stream.unshared() {
                        assert(items =~= Seq::<S::Item>::empty());
                        items.lemma_filter_len(keep);
                        items.lemma_filter_len(refuse);
                        assert(items.filter(keep) =~= Seq::<S::Item>::empty());
                        assert(items.filter(refuse) =~= Seq::<S::Item>::empty());
                        assert(res.0@ =~= res.0@ + items.filter(keep));
                        assert(res.1@ =~= res.1@ + items.filter(refuse));
                    }
                }
                Some(res)
            },
        }
    }

    fn size_hint(&self) -> (r: (usize, Option<usize>)) {
        self.stream.size_hint()
    }
}

} // verus!
