use vstd::prelude::*;
use crate::call::{lemma_opens_rest, openings, opens_all, opens_any, Opener};
use crate::model::{all_unshared, concat_remaining, nested_budget, nested_remaining};
use crate::step::Step;
use crate::stream::Stream;
use crate::stream::map::Mapped;

verus! {

/// A cursor over the items of the cursors that `f` makes of the items of
/// its upstream. The cursor that is being drained is drained before the
/// upstream is asked for the next item, and `Done` is reported only when
/// the upstream has none left. A cursor that `f` makes is put in
/// `inner_stream`; its first item comes with the next poll.
#[must_use]
pub struct FlatMap<S, U, F> {
    pub stream: Mapped<S, F>,
    pub inner_stream: Option<U>,
}

impl<S, U, F> Stream for FlatMap<S, U, F> where
    S: Stream,
    U: Stream,
    F: Opener<S::Item, Out = U>,
 {
    type Item = U::Item;

    open spec fn wf(&self) -> bool {
        &&& self.stream.stream.wf()
        &&& self.inner_stream matches Some(stream) ==> stream.wf()
        &&& opens_any(self.stream.f) || (self.stream.stream.unshared() && opens_all(
            self.stream.f,
            self.stream.stream.remaining(),
        ))
    }

    open spec fn unshared(&self) -> bool {
        &&& self.stream.stream.unshared()
        &&& all_unshared(openings(self.stream.f, self.stream.stream.remaining()))
        &&& self.inner_stream matches Some(stream) ==> stream.unshared()
    }

    open spec fn steady(&self) -> bool {
        false
    }

    open spec fn remaining(&self) -> Seq<U::Item> {
        nested_remaining(
            self.inner_stream,
            openings(self.stream.f, self.stream.stream.remaining()),
        )
    }

    open spec fn budget(&self) -> nat {
        self.stream.stream.budget() + nested_budget(
            self.inner_stream,
            openings(self.stream.f, self.stream.stream.remaining()),
        )
    }

    open spec fn hint(&self) -> (usize, Option<usize>) {
        (0, None)
    }

    fn poll_next(&mut self) -> (r: Step<U::Item>)
        ensures
            final(self).stream.f == old(self).stream.f,
            r is Done ==> final(self).inner_stream is None,
            r is Ready ==> final(self).stream == old(self).stream,
            old(self).inner_stream matches Some(stream) && stream.unshared()
                && stream.remaining().len() > 0 ==> final(self).stream == old(self).stream,
    {
        let ghost items = self.stream.stream.remaining();
        let ghost rest = openings(self.stream.f, items);
        let ghost tracked_all = self.unshared();
        let mut drained = false;
        match &mut self.inner_stream {
            Some(stream) => {
                let ghost before = stream.remaining();
                match stream.poll_next() {
                    Step::NotYet => {
                        return Step::NotYet;
                    },
                    Step::Ready(item) => {
                        assert(tracked_all ==> (before + concat_remaining(rest)).skip(1)
                            =~= before.skip(1) + concat_remaining(rest));
                        return Step::Ready(item);
                    },
                    Step::Done => {
                        assert(tracked_all ==> before + concat_remaining(rest)
                            =~= concat_remaining(rest));
                        drained = true;
                    },
                }
            },
            None => {},
        }
        if drained {
            self.inner_stream = None;
        }
        match self.stream.stream.poll_next() {
            Step::NotYet => Step::NotYet,
            Step::Ready(item) => {
                proof {
                    if !opens_any(self.stream.f) {
                        lemma_opens_rest(self.stream.f, items);
                    }
                    assert(self.stream.f.opens(item));
                }
                let opened = self.stream.f.open(item);
                proof {
                    if old(self).stream.stream.unshared() {
                        assert(rest[0] == self.stream.f.opened(items[0]));
                        assert(rest.skip(1) =~= openings(self.stream.f, items.skip(1)));
                        if tracked_all {
                            assert(rest[0].unshared());
                            assert forall|i: int| 0 <= i < rest.skip(1).len() implies (
                            #[trigger] rest.skip(1)[i]).unshared() by {
                                assert(rest.skip(1)[i] == rest[i + 1]);
                            }
                        }
                    }
                }
                self.inner_stream = Some(opened);
                Step::NotYet
            },
            Step::Done => {
                proof {
                    if old(self).stream.stream.unshared() {
                        assert(rest =~= Seq::<U>::empty());
                    }
                }
                Step::Done
            },
        }
    }

    fn size_hint(&self) -> (r: (usize, Option<usize>)) {
        (0, None)
    }
}

} // verus!
