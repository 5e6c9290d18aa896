use vstd::prelude::*;
use crate::model::{
    all_unshared,
    all_wf,
    concat_budget,
    concat_remaining,
    every_wf,
    nested_budget,
    nested_remaining,
};
use crate::step::Step;
use crate::stream::Stream;

verus! {

/// A cursor of cursors, with the one that is being drained, may be polled.
pub open spec fn nested_wf<O, U>(outer: O, inner: Option<U>) -> bool where
    O: Stream<Item = U>,
    U: Stream,
 {
    &&& outer.wf()
    &&& inner matches Some(stream) ==> stream.wf()
    &&& every_wf::<U>() || (outer.unshared() && all_wf(outer.remaining()))
}

/// Neither the cursor of cursors nor any cursor that it holds or will yield
/// is shared.
pub open spec fn nested_unshared<O, U>(outer: O, inner: Option<U>) -> bool where
    O: Stream<Item = U>,
    U: Stream,
 {
    &&& outer.unshared()
    &&& all_unshared(outer.remaining())
    &&& inner matches Some(stream) ==> stream.unshared()
}

/// Advances a cursor of cursors once: the cursor in `inner` is drained
/// before `outer` is asked for the next one, and `Done` is reported only
/// when `outer` has none left. A cursor that `outer` yields is put in
/// `inner`; its first item comes with the next poll.
pub fn poll_nested<O, U>(outer: &mut O, inner: &mut Option<U>) -> (r: Step<U::Item>) where
    O: Stream<Item = U>,
    U: Stream,

    requires
        nested_wf(*old(outer), *old(inner)),
    ensures
        nested_wf(*final(outer), *final(inner)),
        r is Done ==> *final(inner) is None,
        r is Ready ==> *final(outer) == *old(outer),
        *old(inner) matches Some(stream) && stream.unshared() && stream.remaining().len() > 0
            ==> *final(outer) == *old(outer),
        nested_unshared(*old(outer), *old(inner)) ==> nested_unshared(
            *final(outer),
            *final(inner),
        ) && ({
            let before = nested_remaining(*old(inner), old(outer).remaining());
            let after = nested_remaining(*final(inner), final(outer).remaining());
            let spent = old(outer).budget() + nested_budget(*old(inner), old(outer).remaining());
            let left = final(outer).budget() + nested_budget(
                *final(inner),
                final(outer).remaining(),
            );
            match r {
                Step::NotYet => after == before && left < spent,
                Step::Ready(item) => before.len() > 0 && item == before[0] && after == before.skip(
                    1,
                ) && left < spent,
                Step::Done => before.len() == 0 && after == before && left <= spent
                    && final(outer).remaining().len() == 0,
            }
        }),
{
    let ghost rest = outer.remaining();
    let ghost tracked_all = nested_unshared(*outer, *inner);
    let mut drained = false;
    match inner {
        Some(stream) => {
            let ghost before = stream.remaining();
            match stream.poll_next() {
                Step::NotYet => {
                    return Step::NotYet;
                },
                Step::Ready(item) => {
                    assert(tracked_all ==> (before + concat_remaining(rest)).skip(1)
                        =~= before.skip(1) + concat_remaining(rest));
                    return Step::Ready(item);
                },
                Step::Done => {
                    assert(tracked_all ==> before + concat_remaining(rest) =~= concat_remaining(
                        rest,
                    ));
                    drained = true;
                },
            }
        },
        None => {},
    }
    if drained {
        *inner = None;
    }
    match outer.poll_next() {
        Step::NotYet => Step::NotYet,
        Step::Ready(stream) => {
            proof {
                if old(outer).unshared() {
                    assert(stream == rest[0]);
                    if !every_wf::<U>() {
                        assert forall|i: int| 0 <= i < outer.remaining().len() implies (
                        #[trigger] outer.remaining()[i]).wf() by {
                            assert(outer.remaining()[i] == rest[i + 1]);
                        }
                    }
                    if tracked_all {
                        assert forall|i: int| 0 <= i < outer.remaining().len() implies (
                        #[trigger] outer.remaining()[i]).unshared() by {
                            assert(outer.remaining()[i] == rest[i + 1]);
                        }
                    }
                }
                assert(stream.wf());
            }
            *inner = Some(stream);
            Step::NotYet
        },
        Step::Done => {
            assert(old(outer).unshared() ==> rest =~= Seq::<U>::empty());
            Step::Done
        },
    }
}

/// A cursor over the items of the cursors that its upstream yields.
#[must_use]
pub struct Flatten<S: Stream> {
    pub stream: S,
    pub inner_stream: Option<S::Item>,
}

impl<S, U> Stream for Flatten<S> where S: Stream<Item = U>, U: Stream {
    type Item = U::Item;

    open spec fn wf(&self) -> bool {
        nested_wf(self.stream, self.inner_stream)
    }

    open spec fn unshared(&self) -> bool {
        nested_unshared(self.stream, self.inner_stream)
    }

    open spec fn steady(&self) -> bool {
        false
    }

    open spec fn remaining(&self) -> Seq<U::Item> {
        nested_remaining(self.inner_stream, self.stream.remaining())
    }

    open spec fn budget(&self) -> nat {
        self.stream.budget() + nested_budget(self.inner_stream, self.stream.remaining())
    }

    open spec fn hint(&self) -> (usize, Option<usize>) {
        (0, None)
    }

    fn poll_next(&mut self) -> (r: Step<U::Item>)
        ensures
            r is Done ==> final(self).inner_stream is None,
            r is Ready ==> final(self).stream == old(self).stream,
            old(self).inner_stream matches Some(stream) && stream.unshared()
                && stream.remaining().len() > 0 ==> final(self).stream == old(self).stream,
    {
        poll_nested(&mut self.stream, &mut self.inner_stream)
    }

    fn size_hint(&self) -> (r: (usize, Option<usize>)) {
        (0, None)
    }
}

} // verus!
