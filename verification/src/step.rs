use vstd::prelude::*;

verus! {

/// The result of advancing a cursor once.
pub enum Step<T> {
    /// Progress was made but no item is ready: poll again.
    NotYet,
    /// One item.
    Ready(T),
    /// The cursor is exhausted.
    Done,
}

impl<T> Step<T> {
    /// Transforms the payload of `Ready`; `NotYet` and `Done` pass through.
    #[inline]
    pub fn map<G, F>(self, f: F) -> (r: Step<G>) where F: FnOnce(T) -> G
        requires
            self matches Step::Ready(x) ==> f.requires((x,)),
        ensures
            match self {
                Step::NotYet => r is NotYet,
                Step::Ready(x) => r matches Step::Ready(y) && f.ensures((x,), y),
                Step::Done => r is Done,
            },
    {
        match self {
            Step::NotYet => Step::NotYet,
            Step::Ready(ready) => Step::Ready(f(ready)),
            Step::Done => Step::Done,
        }
    }

    /// Replaces a `Ready` payload by the step that `f` computes from it;
    /// `NotYet` and `Done` pass through.
    #[inline]
    pub fn and_then<G, F>(self, f: F) -> (r: Step<G>) where F: FnOnce(T) -> Step<G>
        requires
            self matches Step::Ready(x) ==> f.requires((x,)),
        ensures
            match self {
                Step::NotYet => r is NotYet,
                Step::Ready(x) => f.ensures((x,), r),
                Step::Done => r is Done,
            },
    {
        match self {
            Step::NotYet => Step::NotYet,
            Step::Ready(ready) => f(ready),
            Step::Done => Step::Done,
        }
    }

    /// The same step, borrowing the payload.
    #[inline]
    pub fn as_ref(&self) -> (r: Step<&T>)
        ensures
            match *self {
                Step::NotYet => r is NotYet,
                Step::Ready(x) => r matches Step::Ready(y) && *y == x,
                Step::Done => r is Done,
            },
    {
        match self {
            Step::NotYet => Step::NotYet,
            Step::Ready(ready) => Step::Ready(ready),
            Step::Done => Step::Done,
        }
    }

    /// The same step, borrowing the payload mutably: what the caller writes
    /// through the borrow becomes the payload of `self`.
    #[inline]
    pub fn as_mut(&mut self) -> (r: Step<&mut T>)
        ensures
            match *old(self) {
                Step::NotYet => r is NotYet && *final(self) == Step::<T>::NotYet,
                Step::Ready(x) => r matches Step::Ready(y) && *y == x && *final(self)
                    == Step::Ready(*final(y)),
                Step::Done => r is Done && *final(self) == Step::<T>::Done,
            },
    {
        match self {
            Step::NotYet => Step::NotYet,
            Step::Ready(ready) => Step::Ready(ready),
            Step::Done => Step::Done,
        }
    }
}

impl<T, E> Step<Result<T, E>> {
    /// Turns a step that carries a fallible item into a fallible step: a
    /// failed item surfaces at once, anything else is kept.
    #[inline]
    pub fn transpose(self) -> (r: Result<Step<T>, E>)
        ensures
            r == match self {
                Step::NotYet => Ok::<Step<T>, E>(Step::NotYet),
                Step::Ready(Ok(x)) => Ok(Step::Ready(x)),
                Step::Ready(Err(e)) => Err(e),
                Step::Done => Ok(Step::Done),
            },
    {
        match self {
            Step::NotYet => Ok(Step::NotYet),
            Step::Ready(Ok(x)) => Ok(Step::Ready(x)),
            Step::Ready(Err(e)) => Err(e),
            Step::Done => Ok(Step::Done),
        }
    }
}

impl<'a, T: Copy> Step<&'a T> {
    /// The same step with the referenced payload copied out.
    #[inline]
    pub fn copied(self) -> (r: Step<T>)
        ensures
            r == match self {
                Step::NotYet => Step::<T>::NotYet,
                Step::Ready(x) => Step::Ready(*x),
                Step::Done => Step::Done,
            },
    {
        match self {
            Step::NotYet => Step::NotYet,
            Step::Ready(x) => Step::Ready(*x),
            Step::Done => Step::Done,
        }
    }
}

impl<'a, T: Clone> Step<&'a T> {
    /// The same step with the referenced payload cloned.
    #[inline]
    pub fn cloned(self) -> (r: Step<T>)
        ensures
            match self {
                Step::NotYet => r is NotYet,
                Step::Ready(x) => r matches Step::Ready(y) && cloned::<T>(*x, y),
                Step::Done => r is Done,
            },
    {
        match self {
            Step::NotYet => Step::NotYet,
            Step::Ready(x) => Step::Ready(x.clone()),
            Step::Done => Step::Done,
        }
    }
}

} // verus!
