use vstd::prelude::*;
use crate::step::Step;
use crate::stream::{advances, Stream};

verus! {

/// The next step of a borrowed cursor.
#[must_use]
pub struct NextFuture<'a, S> {
    pub stream: &'a mut S,
}

impl<'a, S: Stream> NextFuture<'a, S> {
    /// Advances the borrowed cursor once.
    pub fn poll(&mut self) -> (r: Step<S::Item>)
        requires
            old(self).stream.wf(),
        ensures
            advances(*old(self).stream, r, *final(self).stream),
    {
        self.stream.poll_next()
    }
}

} // verus!
