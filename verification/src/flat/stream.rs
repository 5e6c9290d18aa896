use vstd::prelude::*;
use crate::call::{applies_all, applies_any, fn_of, Function, Operator};
use crate::consumer::reduce::Reduce;
use crate::stream::map::Mapped;
use crate::sync::StreamSync;

verus! {

/// A source of work for several workers: it hands out cursors, one for
/// each worker, and each item of the source reaches one of them.
///
/// A source that lays its work out ahead is described by its units: the
/// items of each cursor that it has yet to hand out. A source whose cursors
/// draw from one shared sequence cannot say which items each will get.
pub trait FlatStream: Sized {
    type Item;

    type Stream: crate::stream::Stream<Item = Self::Item>;

    /// The source is in a state in which it may be asked for a cursor.
    spec fn flat_wf(&self) -> bool;

    /// The source lays its work out ahead, in cursors that nothing else
    /// advances.
    spec fn flat_unshared(&self) -> bool;

    /// The units still to be handed out, where the source lays its work
    /// out ahead.
    spec fn units(&self) -> Seq<Seq<Self::Item>>;

    /// The bounds that `size_hint` reports.
    spec fn flat_hint(&self) -> (usize, Option<usize>);

    /// The cursor for the next worker, or `None` when the source has no
    /// work left to hand out.
    fn poll_next(&mut self) -> (r: Option<Self::Stream>)
        requires
            old(self).flat_wf(),
        ensures
            final(self).flat_wf(),
            r matches Some(stream) ==> crate::stream::Stream::wf(&stream),
            old(self).flat_unshared() ==> final(self).flat_unshared() && match r {
                Some(stream) => {
                    &&& crate::stream::Stream::unshared(&stream)
                    &&& old(self).units().len() > 0
                    &&& crate::stream::Stream::remaining(&stream) == old(self).units()[0]
                    &&& final(self).units() == old(self).units().skip(1)
                },
                None => old(self).units().len() == 0 && final(self).units() == old(self).units(),
            },
    ;

    /// Bounds on the number of cursors still to be handed out.
    fn size_hint(&self) -> (r: (usize, Option<usize>))
        requires
            self.flat_wf(),
        ensures
            r == self.flat_hint(),
            self.flat_unshared() ==> r.0 <= self.units().len(),
            self.flat_unshared() ==> (r.1 matches Some(upper) ==> self.units().len() <= upper),
    ;

    /// Has every worker apply `f` to each item of its cursor.
    #[inline]
    fn map<T, F>(self, f: F) -> (r: Mapped<Self, F>) where F: Fn(Self::Item) -> T + Copy
        ensures
            r.stream == self,
            r.f == f,
    {
        Mapped::new(self, f)
    }

    /// Has every worker reduce the items of its cursor by `f`, and the
    /// results of the workers reduced by `f` in turn.
    #[inline]
    fn reduce<F>(self, f: F) -> (r: Reduce<Self::Item, Self, F>) where
        F: Fn(Self::Item, Self::Item) -> Self::Item + Copy,

        ensures
            r.upper == self,
            r.f == f,
            r.acc is None,
    {
        Reduce::new(self, f)
    }
}

/// Every item of every unit may be handed to `f`, with one possible result.
pub open spec fn applies_units<A, F: Function<A>>(f: F, units: Seq<Seq<A>>) -> bool {
    forall|i: int| 0 <= i < units.len() ==> applies_all(f, #[trigger] units[i])
}

/// What `f` makes of each item of each unit.
pub open spec fn mapped_units<A, F: Function<A>>(f: F, units: Seq<Seq<A>>) -> Seq<Seq<F::Out>> {
    units.map_values(|unit: Seq<A>| unit.map_values(fn_of(f)))
}

impl<L, F> FlatStream for Mapped<L, F> where L: FlatStream, F: Function<L::Item> + Copy {
    type Item = F::Out;

    type Stream = Mapped<L::Stream, F>;

    open spec fn flat_wf(&self) -> bool {
        &&& self.stream.flat_wf()
        &&& applies_any(self.f) || (self.stream.flat_unshared() && applies_units(
            self.f,
            self.stream.units(),
        ))
    }

    open spec fn flat_unshared(&self) -> bool {
        self.stream.flat_unshared()
    }

    open spec fn units(&self) -> Seq<Seq<F::Out>> {
        mapped_units(self.f, self.stream.units())
    }

    open spec fn flat_hint(&self) -> (usize, Option<usize>) {
        self.stream.flat_hint()
    }

    #[inline]
    fn poll_next(&mut self) -> (r: Option<Mapped<L::Stream, F>>)
        ensures
            final(self).f == old(self).f,
            r matches Some(stage) ==> stage.f == old(self).f,
    {
        let ghost before = self.stream.units();
        match self.stream.poll_next() {
            Some(upper) => {
                proof {
                    if !applies_any(self.f) {
                        assert(applies_all(self.f, before[0]));
                        assert forall|i: int| 0 <= i < self.stream.units().len() implies applies_all(
                            self.f,
                            #[trigger] self.stream.units()[i],
                        ) by {
                            assert(self.stream.units()[i] == before[i + 1]);
                        }
                    }
                    if old(self).stream.flat_unshared() {
                        assert(self.units() =~= old(self).units().skip(1));
                    }
                }
                Some(Mapped::new(upper, self.f))
            },
            None => None,
        }
    }

    #[inline]
    fn size_hint(&self) -> (r: (usize, Option<usize>)) {
        self.stream.size_hint()
    }
}

impl<S: crate::stream::Stream> FlatStream for StreamSync<S> {
    type Item = S::Item;

    type Stream = Self;

    open spec fn flat_wf(&self) -> bool {
        true
    }

    open spec fn flat_unshared(&self) -> bool {
        false
    }

    open spec fn units(&self) -> Seq<Seq<S::Item>> {
        Seq::empty()
    }

    open spec fn flat_hint(&self) -> (usize, Option<usize>) {
        (0, None)
    }

    /// Another handle to the shared cursor, for as long as the cursor has
    /// not reported `Done`. Whether it has depends on the polls that the
    /// handles have made.
    #[inline]
    fn poll_next(&mut self) -> (r: Option<Self>)
        ensures
            *final(self) == *old(self),
            r matches Some(handle) ==> handle.same_lock(old(self)) && handle.origin() == old(
                self,
            ).origin(),
    {
        if self.is_exhausted() {
            None
        } else {
            Some(self.clone())
        }
    }

    fn size_hint(&self) -> (r: (usize, Option<usize>)) {
        (0, None)
    }
}

} // verus!
