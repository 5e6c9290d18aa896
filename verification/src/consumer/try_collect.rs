use vstd::prelude::*;
use crate::consumer::Consumer;
use crate::model::{lemma_prefix_len_bound, ok_values, prefix_len, succeeded};
use crate::step::Step;
use crate::stream::{took, Stream};

verus! {

/// The sink that gathers the values of fallible items in a vector, up to
/// the first item that failed: it ends with that failure and with what it
/// had gathered, and takes no item after it.
#[must_use]
pub struct TryCollect<S, T> {
    pub stream: S,
    pub collection: Vec<T>,
}

impl<T, E, S> Consumer for TryCollect<S, T> where S: Stream<Item = Result<T, E>> {
    type Output = Result<Vec<T>, (E, Vec<T>)>;

    open spec fn wf(&self) -> bool {
        self.stream.wf()
    }

    open spec fn unshared(&self) -> bool {
        self.stream.unshared()
    }

    open spec fn steady(&self) -> bool {
        false
    }

    open spec fn ends_with(&self, out: Result<Vec<T>, (E, Vec<T>)>) -> bool {
        let items = self.stream.remaining();
        let sound = prefix_len(items, succeeded::<T, E>()) as int;
        if sound == items.len() {
            out matches Ok(values) && values@ == self.collection@ + ok_values(items)
        } else {
            out matches Err((failure, values)) && items[sound] == Err::<T, E>(failure) && values@
                == self.collection@ + ok_values(items.take(sound))
        }
    }

    open spec fn budget(&self) -> nat {
        self.stream.budget() + 1
    }

    open spec fn hint(&self) -> (usize, Option<usize>) {
        self.stream.hint()
    }

    fn poll_consume(&mut self) -> (r: Option<Result<Vec<T>, (E, Vec<T>)>>)
        ensures
            r matches Some(Ok(values)) ==> values@ == old(self).collection@,
            r matches Some(Err(failed)) ==> failed.1@ == old(self).collection@,
            r is None && old(self).stream.unshared() ==> {
                ||| took(old(self).stream, final(self).stream, 0) && final(self).collection@
                    == old(self).collection@
                ||| took(old(self).stream, final(self).stream, 1) && old(
                    self,
                ).stream.remaining()[0] is Ok && final(self).collection@ == old(
                    self,
                ).collection@.push(old(self).stream.remaining()[0]->Ok_0)
            },
            old(self).stream.unshared() ==> {
                &&& r matches Some(Ok(_)) ==> old(self).stream.remaining().len() == 0
                &&& r matches Some(Err(_)) ==> old(self).stream.remaining().len() > 0 && old(
                    self,
                ).stream.remaining()[0] is Err && final(self).stream.remaining() == old(
                    self,
                ).stream.remaining().skip(1)
            },
    {
        let ghost items = self.stream.remaining();
        let ghost ok = succeeded::<T, E>();
        match self.stream.poll_next() {
            Step::NotYet => None,
            Step::Ready(e) => match e {
                Ok(e) => {
                    self.collection.push(e);
                    proof {
                        if old(self).stream.unshared() {
                            let rest = items.skip(1);
                            let sound = prefix_len(rest, ok) as int;
                            lemma_prefix_len_bound(rest, ok);
                            assert(ok(items[0]));
                            assert(prefix_len(items, ok) == sound + 1);
                            assert(self.collection@ + ok_values(rest) =~= old(self).collection@
                                + ok_values(items));
                            assert(self.collection@ + ok_values(rest.take(sound)) =~= old(
                                self,
                            ).collection@ + ok_values(items.take(sound + 1)));
                            if sound < rest.len() {
                                assert(rest[sound] == items[sound + 1]);
                        }
                        }
                    }
                    None
                },
                Err(err) => {
                    let mut out = Vec::new();
                    core::mem::swap(&mut self.collection, &mut out);
                    proof {
                        if old(self).stream.unshared() {
                            assert(!ok(items[0]));
                            assert(prefix_len(items, ok) == 0);
                            assert(out@ =~= old(self).collection@ + ok_values(items.take(0)));
                        }
                    }
                    Some(Err((err, out)))
                },
            },
            Step::Done => {
                let mut out = Vec::new();
                core::mem::swap(&mut self.collection, &mut out);
                assert(old(self).stream.unshared() ==> out@ =~= old(self).collection@ + ok_values(
                    items,
                ));
                Some(Ok(out))
            },
        }
    }

    fn size_hint(&self) -> (r: (usize, Option<usize>)) {
        self.stream.size_hint()
    }
}

} // verus!
