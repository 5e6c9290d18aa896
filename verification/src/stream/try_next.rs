use vstd::prelude::*;
use crate::step::Step;
use crate::stream::{advances, Stream};

verus! {

/// The next step of a borrowed cursor of fallible items, with the failure
/// of an item brought to the front.
#[must_use]
pub struct TryNextFuture<'a, S> {
    pub stream: &'a mut S,
}

impl<'a, T, E, S> TryNextFuture<'a, S> where S: Stream<Item = Result<T, E>> {
    /// Advances the borrowed cursor once. A failed item gives its failure;
    /// anything else gives the step, with the value of the item in it.
    pub fn poll(&mut self) -> (r: Result<Step<T>, E>)
        requires
            old(self).stream.wf(),
        ensures
            ({
                let step = match r {
                    Ok(Step::NotYet) => Step::<Result<T, E>>::NotYet,
                    Ok(Step::Ready(value)) => Step::Ready(Ok(value)),
                    Ok(Step::Done) => Step::Done,
                    Err(failure) => Step::Ready(Err(failure)),
                };
                advances(*old(self).stream, step, *final(self).stream)
            }),
    {
        let res = self.stream.poll_next();
        res.transpose()
    }
}

} // verus!
