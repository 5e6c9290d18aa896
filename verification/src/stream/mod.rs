pub mod chain;
pub mod cloned;
pub mod copied;
pub mod filter;
pub mod flat_map;
pub mod flatten;
pub mod fuse;
pub mod map;
pub mod map_async;
pub mod next;
pub mod skip;
pub mod skip_while;
pub mod step_by;
pub mod take;
pub mod take_while;
pub mod try_next;
pub mod ext;

pub use self::map::Mapped;

use vstd::prelude::*;
use crate::step::Step;

verus! {

/// A cursor: a sequence that is pulled one step at a time.
///
/// A cursor is described by the items it has yet to yield. `Ready` hands out
/// the first of them, `NotYet` leaves them as they are, and `Done` says that
/// none is left. This holds of a cursor that nothing else advances. A cursor
/// that draws from a sequence which it shares with others cannot say which
/// items it will get: of such a cursor only `wf` is kept.
pub trait Stream: Sized {
    type Item;

    /// The cursor is in a state in which it may be polled.
    spec fn wf(&self) -> bool;

    /// Nothing but this cursor advances the sequence that it draws from.
    spec fn unshared(&self) -> bool;

    /// The items that the cursor has yet to yield, in order, where the
    /// cursor is unshared.
    spec fn remaining(&self) -> Seq<Self::Item>;

    /// A bound on the number of polls that return `NotYet` or `Ready` from
    /// this state on.
    spec fn budget(&self) -> nat;

    /// The cursor never stalls: its budget is the number of polls that it
    /// takes before it reports `Done`, no more and no less.
    spec fn steady(&self) -> bool;

    /// The bounds that `size_hint` reports.
    spec fn hint(&self) -> (usize, Option<usize>);

    /// Advances the cursor once.
    fn poll_next(&mut self) -> (r: Step<Self::Item>)
        requires
            old(self).wf(),
        ensures
            final(self).wf(),
            old(self).steady() ==> {
                &&& final(self).steady()
                &&& r is Done <==> old(self).budget() == 0
                &&& !(r is Done) ==> final(self).budget() == old(self).budget() - 1
            },
            old(self).unshared() ==> final(self).unshared() && match r {
                Step::NotYet => {
                    &&& final(self).remaining() == old(self).remaining()
                    &&& final(self).budget() < old(self).budget()
                },
                Step::Ready(item) => {
                    &&& old(self).remaining().len() > 0
                    &&& item == old(self).remaining()[0]
                    &&& final(self).remaining() == old(self).remaining().skip(1)
                    &&& final(self).budget() < old(self).budget()
                },
                Step::Done => {
                    &&& old(self).remaining().len() == 0
                    &&& final(self).remaining() == old(self).remaining()
                    &&& final(self).budget() <= old(self).budget()
                },
            },
    ;

    /// A lower and, where one is known, an upper bound on the number of
    /// items left.
    fn size_hint(&self) -> (r: (usize, Option<usize>))
        requires
            self.wf(),
        ensures
            r == self.hint(),
            self.unshared() ==> r.0 <= self.remaining().len(),
            self.unshared() ==> (r.1 matches Some(upper) ==> self.remaining().len() <= upper),
    ;
}

/// One poll that returned `r` has taken the cursor from `before` to `after`:
/// what `poll_next` promises, as a relation.
pub open spec fn advances<S: Stream>(before: S, r: Step<S::Item>, after: S) -> bool {
    &&& after.wf()
    &&& before.steady() ==> {
        &&& after.steady()
        &&& r is Done <==> before.budget() == 0
        &&& !(r is Done) ==> after.budget() == before.budget() - 1
    }
    &&& before.unshared() ==> after.unshared() && match r {
        Step::NotYet => {
            &&& after.remaining() == before.remaining()
            &&& after.budget() < before.budget()
        },
        Step::Ready(item) => {
            &&& before.remaining().len() > 0
            &&& item == before.remaining()[0]
            &&& after.remaining() == before.remaining().skip(1)
            &&& after.budget() < before.budget()
        },
        Step::Done => {
            &&& before.remaining().len() == 0
            &&& after.remaining() == before.remaining()
            &&& after.budget() <= before.budget()
        },
    }
}

/// Two cursors that no contract tells apart: either both may be polled or
/// neither, either both are unshared or neither, and they have the same
/// items to yield within the same budget.
pub open spec fn alike<S: Stream>(a: S, b: S) -> bool {
    &&& a.wf() == b.wf()
    &&& a.unshared() == b.unshared()
    &&& a.remaining() == b.remaining()
    &&& a.budget() == b.budget()
}

/// The cursor has handed out the first `n` of the items that it had, and
/// no more.
pub open spec fn took<S: Stream>(before: S, after: S, n: nat) -> bool {
    &&& n <= before.remaining().len()
    &&& after.remaining() =~= before.remaining().skip(n as int)
}

/// Conversion of an ordinary sequence into a cursor over its items.
pub trait IntoFusion: Sized {
    type Stream: Stream;

    /// The items that the cursor will yield.
    spec fn fusion_items(&self) -> Seq<<Self::Stream as Stream>::Item>;

    fn into_fusion(self) -> (r: Self::Stream)
        ensures
            r.wf(),
            r.unshared(),
            r.steady(),
            r.remaining() == self.fusion_items(),
    ;
}

/// A cursor over the items of a vector, which it owns.
pub struct IteratorStream<T> {
    // The items left, last one first.
    stack: Vec<T>,
}

impl<T> IteratorStream<T> {
    /// A cursor that yields the items of `items`, first one first.
    pub fn new(items: Vec<T>) -> (r: Self)
        ensures
            r.wf(),
            r.remaining() == items@,
    {
        let mut items = items;
        let ghost all = items@;
        let mut stack: Vec<T> = Vec::new();
        while items.len() > 0
            invariant
                items@.len() <= all.len(),
                items@ == all.take(items@.len() as int),
                stack@.reverse() == all.skip(items@.len() as int),
            decreases items.len(),
        {
            let ghost stack_before = stack@;
            let last = items.pop().unwrap();
            stack.push(last);
            assert(items@ =~= all.take(items@.len() as int));
            assert(stack@.reverse() =~= all.skip(items@.len() as int)) by {
                let n = items@.len() as int;
                assert(stack@ == stack_before.push(all[n]));
                assert(stack_before.reverse().len() == all.len() - n - 1);
                assert forall|i: int| 0 <= i < all.len() - n implies stack@.reverse()[i]
                    == all.skip(n)[i] by {
                    if i > 0 {
                        assert(stack_before.reverse()[i - 1] == all.skip(n + 1)[i - 1]);
                    }
                }
            }
        }
        assert(stack@.reverse() =~= all);
        IteratorStream { stack }
    }
}

impl<T> Stream for IteratorStream<T> {
    type Item = T;

    open spec fn wf(&self) -> bool {
        true
    }

    open spec fn unshared(&self) -> bool {
        true
    }

    open spec fn steady(&self) -> bool {
        true
    }

    closed spec fn remaining(&self) -> Seq<T> {
        self.stack@.reverse()
    }

    open spec fn budget(&self) -> nat {
        self.remaining().len()
    }

    open spec fn hint(&self) -> (usize, Option<usize>) {
        (self.remaining().len() as usize, Some(self.remaining().len() as usize))
    }

    fn poll_next(&mut self) -> (r: Step<T>)
        ensures
            !(r is NotYet),
    {
        match self.stack.pop() {
            Some(item) => {
                assert(self.remaining() =~= old(self).remaining().skip(1));
                Step::Ready(item)
            },
            None => Step::Done,
        }
    }

    fn size_hint(&self) -> (r: (usize, Option<usize>))
        ensures
            r.0 == self.remaining().len(),
            r.1 == Some(r.0),
    {
        (self.stack.len(), Some(self.stack.len()))
    }
}

impl<T> IntoFusion for Vec<T> {
    type Stream = IteratorStream<T>;

    open spec fn fusion_items(&self) -> Seq<T> {
        self@
    }

    fn into_fusion(self) -> (r: IteratorStream<T>) {
        IteratorStream::new(self)
    }
}

/// A reference to each item of `items`.
pub open spec fn borrowed<'a, T>(items: Seq<T>) -> Seq<&'a T> {
    items.map_values(|item: T| &item)
}

/// A cursor over the items of a slice, which it borrows.
pub struct SliceStream<'a, T> {
    slice: &'a [T],
    // How many items have been handed out.
    taken: usize,
}

impl<'a, T> SliceStream<'a, T> {
    /// A cursor that yields a reference to each item of `slice` in turn.
    pub fn new(slice: &'a [T]) -> (r: Self)
        ensures
            r.wf(),
            r.remaining() == borrowed(slice@),
    {
        let r = SliceStream { slice, taken: 0 };
        assert(r.remaining() =~= borrowed(slice@));
        r
    }
}

impl<'a, T> Stream for SliceStream<'a, T> {
    type Item = &'a T;

    closed spec fn wf(&self) -> bool {
        self.taken <= self.slice@.len()
    }

    open spec fn unshared(&self) -> bool {
        true
    }

    open spec fn steady(&self) -> bool {
        true
    }

    closed spec fn remaining(&self) -> Seq<&'a T> {
        borrowed(self.slice@.skip(self.taken as int))
    }

    open spec fn budget(&self) -> nat {
        self.remaining().len()
    }

    open spec fn hint(&self) -> (usize, Option<usize>) {
        (self.remaining().len() as usize, Some(self.remaining().len() as usize))
    }

    fn poll_next(&mut self) -> (r: Step<&'a T>)
        ensures
            !(r is NotYet),
    {
        if self.taken < self.slice.len() {
            let item = &self.slice[self.taken];
            self.taken = self.taken + 1;
            assert(self.remaining() =~= old(self).remaining().skip(1));
            Step::Ready(item)
        } else {
            Step::Done
        }
    }

    fn size_hint(&self) -> (r: (usize, Option<usize>))
        ensures
            r.0 == self.remaining().len(),
            r.1 == Some(r.0),
    {
        let left = self.slice.len() - self.taken;
        (left, Some(left))
    }
}

impl<'a, T> IntoFusion for &'a [T] {
    type Stream = SliceStream<'a, T>;

    open spec fn fusion_items(&self) -> Seq<&'a T> {
        borrowed(self@)
    }

    fn into_fusion(self) -> (r: SliceStream<'a, T>) {
        SliceStream::new(self)
    }
}

} // verus!
