pub mod collect;
pub mod count;
pub mod fold;
pub mod partition;
pub mod reduce;
pub mod try_collect;

pub use self::reduce::Reduce;

use vstd::prelude::*;
use crate::execution::yield_by::YieldBy;

verus! {

/// A sink: it drains a cursor and ends with one value.
///
/// `poll_consume` gives nothing while the sink accumulates and the final
/// value when its cursor is exhausted. After that the sink is spent. What
/// the final value is can be said of a sink whose cursor is unshared.
#[must_use]
pub trait Consumer: Sized {
    type Output;

    /// The sink is in a state in which it may be polled.
    spec fn wf(&self) -> bool;

    /// Nothing but this sink advances the sequence that it draws from.
    spec fn unshared(&self) -> bool;

    /// `out` is the value that the sink ends with, when it is driven on from
    /// the state it is in.
    spec fn ends_with(&self, out: Self::Output) -> bool;

    /// A bound on the number of polls that give nothing from this state on.
    spec fn budget(&self) -> nat;

    /// The sink never stalls: its budget is the number of polls that it
    /// takes to end, the last one included, no more and no less.
    spec fn steady(&self) -> bool;

    /// The bounds that `size_hint` reports.
    spec fn hint(&self) -> (usize, Option<usize>);

    /// Advances the sink once.
    fn poll_consume(&mut self) -> (r: Option<Self::Output>)
        requires
            old(self).wf(),
        ensures
            old(self).steady() ==> {
                &&& r is Some <==> old(self).budget() <= 1
                &&& r is None ==> final(self).steady() && final(self).budget() == old(
                    self,
                ).budget() - 1
            },
            match r {
                None => {
                    &&& final(self).wf()
                    &&& old(self).unshared() ==> {
                        &&& final(self).unshared()
                        &&& final(self).budget() < old(self).budget()
                        &&& forall|out: Self::Output| #[trigger]
                            final(self).ends_with(out) ==> old(self).ends_with(out)
                    }
                },
                Some(out) => old(self).unshared() ==> old(self).ends_with(out),
            },
    ;

    /// Bounds on the number of items that the sink has yet to take in.
    fn size_hint(&self) -> (r: (usize, Option<usize>))
        requires
            self.wf(),
        ensures
            r == self.hint(),
    ;
}

/// Adapters that every sink has.
pub trait ConsumerExt: Consumer {
    /// Wraps the sink so that it gives control back after every `step`
    /// polls that did not finish it. The `step` is greater than zero.
    fn yield_by(self, step: usize) -> (r: YieldBy<Self>)
        requires
            step > 0,
        ensures
            r.consumer == self,
            r.n == 0,
            r.step == step,
    {
        YieldBy { consumer: self, n: 0, step }
    }
}

impl<C: Consumer> ConsumerExt for C {

}

} // verus!
