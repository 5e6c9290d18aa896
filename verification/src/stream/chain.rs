use vstd::prelude::*;
use crate::step::Step;
use crate::stream::Stream;
use crate::stream::fuse::Fuse;

verus! {

/// Two cursors, one after the other.
#[must_use]
pub struct Chain<S, U> {
    pub first: Fuse<S>,
    pub second: Fuse<U>,
}

impl<S: Stream, U: Stream<Item = S::Item>> Stream for Chain<S, U> {
    type Item = S::Item;

    open spec fn wf(&self) -> bool {
        self.first.wf() && self.second.wf()
    }

    open spec fn unshared(&self) -> bool {
        self.first.unshared() && self.second.unshared()
    }

    open spec fn steady(&self) -> bool {
        self.first.steady() && self.second.steady()
    }

    open spec fn remaining(&self) -> Seq<S::Item> {
        self.first.remaining() + self.second.remaining()
    }

    open spec fn budget(&self) -> nat {
        self.first.budget() + self.second.budget()
    }

    open spec fn hint(&self) -> (usize, Option<usize>) {
        (0, None)
    }

    fn poll_next(&mut self) -> (r: Step<S::Item>)
        ensures
            old(self).first.done ==> final(self).first == old(self).first,
            old(self).second.done ==> final(self).second == old(self).second,
            !final(self).first.done ==> final(self).second == old(self).second,
            r is Done ==> final(self).first.done && final(self).second.done,
    {
        if !self.first.done {
            let next = self.first.poll_next();
            match next {
                Step::Done => {},
                next => {
                    proof {
                        if next is Ready && old(self).first.unshared() {
                            assert(self.remaining() =~= old(self).remaining().skip(1));
                        }
                    }
                    return next;
                },
            }
        }
        assert(self.first.remaining() =~= Seq::<S::Item>::empty());
        assert(old(self).first.unshared() ==> old(self).remaining() =~= old(
            self,
        ).second.remaining());
        assert(self.remaining() =~= self.second.remaining());
        if !self.second.done {
            let next = self.second.poll_next();
            match next {
                Step::Done => {},
                next => {
                    assert(self.remaining() =~= self.second.remaining());
                    return next;
                },
            }
        }
        assert(self.remaining() =~= self.second.remaining());
        Step::Done
    }

    fn size_hint(&self) -> (r: (usize, Option<usize>)) {
        (0, None)
    }
}

} // verus!
