use vstd::prelude::*;
use crate::consumer::Consumer;

verus! {

/// A sink that gives control back after every `step` polls that did not
/// finish it: a matter of fairness, never of the result.
#[must_use]
pub struct YieldBy<C: Consumer> {
    pub consumer: C,
    pub n: usize,
    pub step: usize,
}

impl<C: Consumer> YieldBy<C> {
    /// The wrapper may be polled.
    pub open spec fn wf(&self) -> bool {
        &&& self.consumer.wf()
        &&& 0 < self.step
        &&& self.n <= self.step
    }

    /// Runs one turn. The sink is polled until it ends, which gives the
    /// final value, or until `step` polls in a row have given nothing: then
    /// the wrapper yields, which gives `None`, and starts counting anew.
    ///
    /// Over a steady sink the turn is known to the poll: it yields where
    /// the sink takes more polls to end than the turn has left, and it has
    /// then made exactly the polls that the turn had left.
    pub fn poll(&mut self) -> (r: Option<C::Output>)
        requires
            old(self).wf(),
        ensures
            final(self).step == old(self).step,
            old(self).consumer.steady() ==> {
                let left = old(self).step - old(self).n;
                &&& r is None <==> left == 0 || old(self).consumer.budget() > left
                &&& r is None ==> final(self).consumer.steady() && final(self).consumer.budget()
                    == old(self).consumer.budget() - left
            },
            match r {
                Some(out) => old(self).consumer.unshared() ==> old(self).consumer.ends_with(out),
                None => {
                    &&& final(self).wf()
                    &&& final(self).n == 0
                    &&& old(self).consumer.unshared() ==> {
                        &&& final(self).consumer.unshared()
                        &&& final(self).consumer.budget() + (old(self).step - old(self).n) <= old(
                            self,
                        ).consumer.budget()
                        &&& forall|out: C::Output| #[trigger]
                            final(self).consumer.ends_with(out) ==> old(self).consumer.ends_with(
                                out,
                            )
                    }
                },
            },
    {
        loop
            invariant
                self.wf(),
                self.step == old(self).step,
                old(self).n <= self.n,
                old(self).consumer.steady() ==> {
                    &&& self.consumer.steady()
                    &&& self.consumer.budget() == old(self).consumer.budget() - (self.n - old(
                        self,
                    ).n)
                    &&& self.n > old(self).n ==> self.consumer.budget() >= 1
                },
                old(self).consumer.unshared() ==> {
                    &&& self.consumer.unshared()
                    &&& self.consumer.budget() + (self.n - old(self).n) <= old(
                        self,
                    ).consumer.budget()
                    &&& forall|out: C::Output| #[trigger]
                        self.consumer.ends_with(out) ==> old(self).consumer.ends_with(out)
                },
            decreases self.step - self.n,
        {
            if self.n == self.step {
                self.n = 0;
                return None;
            }
            match self.consumer.poll_consume() {
                Some(out) => {
                    return Some(out);
                },
                None => {},
            }
            self.n += 1;
        }
    }

    /// Drives the sink to its end, turn after turn, and gives its final
    /// value. The sink is unshared: then it is known to end.
    pub fn drive(self) -> (r: C::Output)
        requires
            self.wf(),
            self.consumer.unshared(),
        ensures
            self.consumer.ends_with(r),
    {
        let mut this = self;
        loop
            invariant
                this.wf(),
                this.consumer.unshared(),
                forall|out: C::Output| #[trigger]
                    this.consumer.ends_with(out) ==> self.consumer.ends_with(out),
            decreases this.consumer.budget(), this.n,
        {
            match this.poll() {
                Some(out) => {
                    return out;
                },
                None => {},
            }
        }
    }
}

} // verus!
