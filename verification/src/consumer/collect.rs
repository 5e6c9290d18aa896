use vstd::prelude::*;
use crate::consumer::Consumer;
use crate::step::Step;
use crate::stream::{took, Stream};

verus! {

/// The sink that gathers the items of its cursor in a vector.
#[must_use]
pub struct Collect<S, T> {
    pub stream: S,
    pub collection: Vec<T>,
}

impl<S: Stream> Consumer for Collect<S, S::Item> {
    type Output = Vec<S::Item>;

    open spec fn wf(&self) -> bool {
        self.stream.wf()
    }

    open spec fn unshared(&self) -> bool {
        self.stream.unshared()
    }

    open spec fn steady(&self) -> bool {
        self.stream.steady()
    }

    open spec fn ends_with(&self, out: Vec<S::Item>) -> bool {
        out@ == self.collection@ + self.stream.remaining()
    }

    open spec fn budget(&self) -> nat {
        self.stream.budget() + 1
    }

    open spec fn hint(&self) -> (usize, Option<usize>) {
        self.stream.hint()
    }

    fn poll_consume(&mut self) -> (r: Option<Vec<S::Item>>)
        ensures
            r is Some && old(self).stream.unshared() ==> old(self).stream.remaining().len() == 0,
            r matches Some(out) ==> out@ == old(self).collection@,
            r is None && old(self).stream.unshared() ==> {
                ||| took(old(self).stream, final(self).stream, 0) && final(self).collection@
                    == old(self).collection@
                ||| took(old(self).stream, final(self).stream, 1) && final(self).collection@
                    == old(self).collection@.push(old(self).stream.remaining()[0])
            },
    {
        let ghost items = self.stream.remaining();
        match self.stream.poll_next() {
            Step::NotYet => None,
            Step::Ready(e) => {
                self.collection.push(e);
                assert(old(self).stream.unshared() ==> self.collection@
                    + self.stream.remaining() =~= old(self).collection@ + items);
                None
            },
            Step::Done => {
                let mut out = Vec::new();
                core::mem::swap(&mut self.collection, &mut out);
                assert(old(self).stream.unshared() ==> out@ =~= old(self).collection@ + items);
                Some(out)
            },
        }
    }

    fn size_hint(&self) -> (r: (usize, Option<usize>)) {
        self.stream.size_hint()
    }
}

} // verus!
