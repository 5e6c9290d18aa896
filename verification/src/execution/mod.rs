pub mod engine;
pub mod run;
pub mod yield_by;

use vstd::prelude::*;
use crate::consumer::Consumer;
use crate::error::ConfigError;
use crate::step::Step;
use crate::stream::{IteratorStream, Stream};

verus! {

/// The results of the workers that have completed, in the order they
/// arrived.
pub struct TaskStream<T> {
    tasks: IteratorStream<T>,
    already: usize,
}

impl<T> TaskStream<T> {
    /// The stream of the results in `tasks`, first one first.
    pub fn new(tasks: Vec<T>) -> (r: Self)
        ensures
            r.wf(),
            r.remaining() == tasks@,
            r.already() == 0,
    {
        TaskStream { tasks: IteratorStream::new(tasks), already: 0 }
    }

    /// How many results have been taken out.
    pub closed spec fn already(&self) -> nat {
        self.already as nat
    }
}

impl<T> Stream for TaskStream<T> {
    type Item = T;

    open spec fn wf(&self) -> bool {
        true
    }

    open spec fn unshared(&self) -> bool {
        true
    }

    open spec fn steady(&self) -> bool {
        true
    }

    closed spec fn remaining(&self) -> Seq<T> {
        self.tasks.remaining()
    }

    open spec fn budget(&self) -> nat {
        self.remaining().len()
    }

    open spec fn hint(&self) -> (usize, Option<usize>) {
        (self.remaining().len() as usize, Some(self.remaining().len() as usize))
    }

    #[inline]
    fn poll_next(&mut self) -> (r: Step<T>)
        ensures
            !(r is NotYet),
            final(self).already() == if r is Ready && old(self).already() < usize::MAX {
                old(self).already() + 1
            } else {
                old(self).already()
            },
    {
        let next = self.tasks.poll_next();
        if let Step::Ready(_) = &next {
            self.already = self.already.saturating_add(1);
        }
        next
    }

    fn size_hint(&self) -> (r: (usize, Option<usize>))
        ensures
            r.0 == self.remaining().len(),
            r.1 == Some(r.0),
    {
        self.tasks.size_hint()
    }
}

/// A worker: one sink, driven in turns of at most `step_by` polls.
pub struct ConsumeFuture<C> {
    pub consumer: C,
    pub step_by: usize,
    pub steps: usize,
}

impl<C: Consumer> ConsumeFuture<C> {
    /// The worker may be polled.
    pub open spec fn wf(&self) -> bool {
        &&& self.consumer.wf()
        &&& 0 < self.step_by
        &&& self.steps <= self.step_by
    }

    /// A worker that drives `consumer` and yields after every `step_by`
    /// polls that did not finish it. A `step_by` of zero is refused.
    pub fn new(consumer: C, step_by: usize) -> (r: Result<Self, ConfigError>)
        ensures
            match r {
                Ok(w) => step_by > 0 && w.consumer == consumer && w.step_by == step_by && w.steps
                    == 0,
                Err(e) => step_by == 0 && e == ConfigError::ZeroYieldInterval,
            },
    {
        if step_by == 0 {
            return Err(ConfigError::ZeroYieldInterval);
        }
        Ok(ConsumeFuture { consumer, step_by, steps: 0 })
    }

    /// Runs one turn. The worker polls its sink until the sink ends, which
    /// gives the final value, or until `step_by` polls in a row have given
    /// nothing: then it yields, which gives `None`, and starts counting anew.
    ///
    /// Over a steady sink the turn is known to the poll: it yields where
    /// the sink takes more polls to end than the turn has left, and it has
    /// then made exactly the polls that the turn had left.
    #[inline]
    pub fn poll(&mut self) -> (r: Option<C::Output>)
        requires
            old(self).wf(),
        ensures
            final(self).step_by == old(self).step_by,
            old(self).consumer.steady() ==> {
                let left = old(self).step_by - old(self).steps;
                &&& r is None <==> left == 0 || old(self).consumer.budget() > left
                &&& r is None ==> final(self).consumer.steady() && final(self).consumer.budget()
                    == old(self).consumer.budget() - left
            },
            match r {
                Some(out) => old(self).consumer.unshared() ==> old(self).consumer.ends_with(out),
                None => {
                    &&& final(self).wf()
                    &&& final(self).steps == 0
                    &&& old(self).consumer.unshared() ==> {
                        &&& final(self).consumer.unshared()
                        &&& final(self).consumer.budget() + (old(self).step_by - old(self).steps)
                            <= old(self).consumer.budget()
                        &&& forall|out: C::Output| #[trigger]
                            final(self).consumer.ends_with(out) ==> old(self).consumer.ends_with(
                                out,
                            )
                    }
                },
            },
    {
        loop
            invariant
                self.wf(),
                self.step_by == old(self).step_by,
                old(self).steps <= self.steps,
                old(self).consumer.steady() ==> {
                    &&& self.consumer.steady()
                    &&& self.consumer.budget() == old(self).consumer.budget() - (self.steps - old(
                        self,
                    ).steps)
                    &&& self.steps > old(self).steps ==> self.consumer.budget() >= 1
                },
                old(self).consumer.unshared() ==> {
                    &&& self.consumer.unshared()
                    &&& self.consumer.budget() + (self.steps - old(self).steps) <= old(
                        self,
                    ).consumer.budget()
                    &&& forall|out: C::Output| #[trigger]
                        self.consumer.ends_with(out) ==> old(self).consumer.ends_with(out)
                },
            decreases self.step_by - self.steps,
        {
            if self.steps == self.step_by {
                self.steps = 0;
                return None;
            }
            match self.consumer.poll_consume() {
                Some(out) => {
                    return Some(out);
                },
                None => {
                    self.steps += 1;
                },
            }
        }
    }
}

} // verus!
