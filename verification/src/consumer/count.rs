use vstd::prelude::*;
use crate::consumer::Consumer;
use crate::step::Step;
use crate::stream::{took, Stream};

verus! {

/// The sink that counts the items of its cursor. The count stops at the
/// largest `usize`.
#[must_use]
pub struct Count<S> {
    pub count: usize,
    pub stream: S,
}

impl<S: Stream> Consumer for Count<S> {
    type Output = usize;

    open spec fn wf(&self) -> bool {
        self.stream.wf()
    }

    open spec fn unshared(&self) -> bool {
        self.stream.unshared()
    }

    open spec fn steady(&self) -> bool {
        self.stream.steady()
    }

    open spec fn ends_with(&self, out: usize) -> bool {
        out == if self.count + self.stream.remaining().len() <= usize::MAX {
            self.count + self.stream.remaining().len()
        } else {
            usize::MAX as int
        }
    }

    open spec fn budget(&self) -> nat {
        self.stream.budget() + 1
    }

    open spec fn hint(&self) -> (usize, Option<usize>) {
        self.stream.hint()
    }

    fn poll_consume(&mut self) -> (r: Option<usize>)
        ensures
            r is Some && old(self).stream.unshared() ==> old(self).stream.remaining().len() == 0,
            r matches Some(out) ==> out == old(self).count,
            r is None && old(self).stream.unshared() ==> {
                ||| took(old(self).stream, final(self).stream, 0) && final(self).count == old(
                    self,
                ).count
                ||| took(old(self).stream, final(self).stream, 1) && final(self).count == if old(
                    self,
                ).count < usize::MAX {
                    old(self).count + 1
                } else {
                    usize::MAX as int
                }
            },
    {
        match self.stream.poll_next() {
            Step::NotYet => None,
            Step::Ready(_) => {
                self.count = self.count.saturating_add(1);
                None
            },
            Step::Done => Some(self.count),
        }
    }

    fn size_hint(&self) -> (r: (usize, Option<usize>)) {
        self.stream.size_hint()
    }
}

} // verus!
