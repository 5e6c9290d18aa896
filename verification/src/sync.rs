//! One cursor behind a lock, shared by handle.

use vstd::prelude::*;
use std::sync::{Arc, Mutex, MutexGuard, PoisonError};
use crate::step::Step;
use crate::stream::{advances, Stream};

verus! {

/// `std::sync::Mutex`: a value behind a lock. Nothing is known here of
/// what it holds.
#[verifier::external_type_specification]
#[verifier::external_body]
#[verifier::reject_recursive_types(T)]
pub struct ExMutex<T: ?Sized>(Mutex<T>);

/// `std::sync::MutexGuard`: the lock, held. Nothing is known here of the
/// value that it guards.
#[verifier::external_type_specification]
#[verifier::external_body]
#[verifier::reject_recursive_types(T)]
pub struct ExMutexGuard<'a, T: ?Sized + 'a>(MutexGuard<'a, T>);

/// `std::sync::PoisonError`: what `lock` gives where a holder of the lock
/// has panicked. Nothing is known here of what it holds.
#[verifier::external_type_specification]
#[verifier::external_body]
#[verifier::reject_recursive_types(T)]
pub struct ExPoisonError<T>(PoisonError<T>);

/// `Mutex::new`: a lock around `value`. Nothing is claimed of it.
#[verifier::external_body]
fn mutex_new<T>(value: T) -> (lock: Mutex<T>) {
    Mutex::new(value)
}

/// `Mutex::lock`: waits for the lock and gives the guard, or the guard
/// inside an error where a holder of the lock has panicked. Nothing is
/// claimed of either.
#[verifier::external_body]
fn mutex_lock<'a, T>(lock: &'a Mutex<T>) -> (guard: Result<
    MutexGuard<'a, T>,
    PoisonError<MutexGuard<'a, T>>,
>) {
    lock.lock()
}

/// `PoisonError::into_inner`: the guard that the error holds. Nothing is
/// claimed of it.
#[verifier::external_body]
fn poison_into_inner<T>(error: PoisonError<T>) -> (guard: T) {
    error.into_inner()
}

/// `DerefMut::deref_mut` of `MutexGuard`: the value under the lock, for as
/// long as the guard is borrowed. Nothing is claimed of it.
#[verifier::external_body]
fn guard_mut<'a, 'b, T>(guard: &'a mut MutexGuard<'b, T>) -> (value: &'a mut T) {
    &mut **guard
}

/// `Arc::clone`: another pointer to the same allocation, and so to the same
/// value.
#[verifier::external_body]
fn arc_clone<T>(pointer: &Arc<T>) -> (r: Arc<T>)
    ensures
        r == *pointer,
{
    Arc::clone(pointer)
}

/// What lies under the lock: the cursor, which may be polled whenever the
/// lock is held, and whether it has reported `Done`.
struct Guarded<S: Stream> {
    inner: S,
    done: bool,
}

impl<S: Stream> Guarded<S> {
    #[verifier::type_invariant]
    spec fn inv(self) -> bool {
        self.inner.wf()
    }

    /// The cursor as it is handed over, which has not reported `Done`.
    fn new(inner: S) -> (r: Self)
        requires
            inner.wf(),
        ensures
            r.inner == inner,
            !r.done,
    {
        Guarded { inner, done: false }
    }

    /// Advances the cursor once and notes a `Done`. This is all that ever
    /// happens to the cursor while the lock is held: one poll, which does
    /// what `poll_next` promises.
    fn advance(self) -> (r: (Self, Step<S::Item>))
        ensures
            self.inner.wf(),
            advances(self.inner, r.1, r.0.inner),
            r.0.done == (self.done || r.1 is Done),
    {
        proof {
            use_type_invariant(&self);
        }
        let mut inner = self.inner;
        let step = inner.poll_next();
        let done = match &step {
            Step::Done => true,
            _ => self.done,
        };
        (Guarded { inner, done }, step)
    }

    /// Whether the cursor has reported `Done`.
    fn is_done(&self) -> (r: bool)
        ensures
            r == self.done,
    {
        self.done
    }
}

/// `r` is what one poll gives of a cursor of this type, in one of the
/// states in which it may be polled.
pub open spec fn polled<S: Stream>(r: Step<S::Item>) -> bool {
    exists|before: S, after: S| before.wf() && #[trigger] advances(before, r, after)
}

/// What one poll makes of what the lock holds: the cursor is advanced once
/// and put back. Where a panic has left the lock without its cursor, there
/// is nothing to advance and the poll reports `Done`.
fn poll_slot<S: Stream>(slot: Option<Guarded<S>>) -> (r: (Option<Guarded<S>>, Step<S::Item>))
    ensures
        match slot {
            Some(cell) => {
                &&& r.0 matches Some(next) && advances(cell.inner, r.1, next.inner) && next.done
                    == (cell.done || r.1 is Done)
                &&& polled::<S>(r.1)
            },
            None => r.0 is None && r.1 is Done,
        },
{
    match slot {
        Some(cell) => {
            let (next, step) = cell.advance();
            (Some(next), step)
        },
        None => (None, Step::Done),
    }
}

/// Whether what the lock holds has nothing more to give: its cursor has
/// reported `Done`, or a panic has left the lock without its cursor.
fn slot_spent<S: Stream>(slot: &Option<Guarded<S>>) -> (r: bool)
    ensures
        r == match *slot {
            Some(cell) => cell.done,
            None => true,
        },
{
    match slot {
        Some(cell) => cell.is_done(),
        None => true,
    }
}

/// A handle to a cursor that lies behind a lock. Cloning the handle gives
/// another handle to the same cursor, never a second cursor: each item of
/// the cursor goes to the one handle whose poll took it.
#[verifier::reject_recursive_types(S)]
pub struct StreamSync<S: Stream> {
    stream: Arc<Mutex<Option<Guarded<S>>>>,
    origin: Ghost<S>,
}

impl<S: Stream> StreamSync<S> {
    /// The cursor that the handle is a handle to, as it was when it was put
    /// behind the lock. Every handle to one cursor has the same.
    pub closed spec fn origin(&self) -> S {
        self.origin@
    }

    /// The two handles hold the same lock, and so are handles to the same
    /// cursor at the same position.
    pub closed spec fn same_lock(&self, other: &Self) -> bool {
        self.stream == other.stream
    }

    /// Puts `stream` behind a lock and gives the first handle to it.
    #[inline]
    pub fn new(stream: S) -> (r: Self)
        requires
            stream.wf(),
        ensures
            r.origin() == stream,
    {
        let ghost origin = stream;
        StreamSync {
            stream: Arc::new(mutex_new(Some(Guarded::new(stream)))),
            origin: Ghost(origin),
        }
    }

    /// Whether the cursor behind the lock has reported `Done` to any
    /// handle. Once that is so it stays so. What the answer is depends on
    /// the polls that the other handles have made.
    pub fn is_exhausted(&self) -> (r: bool) {
        let mut guard = match mutex_lock(&*self.stream) {
            Ok(guard) => guard,
            Err(poisoned) => poison_into_inner(poisoned),
        };
        let slot = guard_mut(&mut guard);
        slot_spent(slot)
    }
}

impl<S: Stream> Clone for StreamSync<S> {
    /// Another handle to the same cursor.
    #[inline]
    fn clone(&self) -> (r: Self)
        ensures
            r.same_lock(self),
            r.origin() == self.origin(),
    {
        StreamSync { stream: arc_clone(&self.stream), origin: Ghost(self.origin@) }
    }
}

impl<S: Stream> Stream for StreamSync<S> {
    type Item = S::Item;

    open spec fn wf(&self) -> bool {
        true
    }

    open spec fn unshared(&self) -> bool {
        false
    }

    open spec fn steady(&self) -> bool {
        false
    }

    open spec fn remaining(&self) -> Seq<S::Item> {
        Seq::empty()
    }

    open spec fn budget(&self) -> nat {
        0
    }

    open spec fn hint(&self) -> (usize, Option<usize>) {
        (0, None)
    }

    /// Takes the lock, advances the one cursor once, and gives the lock
    /// back before it returns. A lock that a panic has left without its
    /// cursor reports `Done`.
    ///
    /// In which state the poll finds the cursor depends on the polls that
    /// the other handles have made. Whatever the state, the step is what
    /// one poll of the cursor in that state gives, and the handle stays a
    /// handle to the same cursor.
    #[inline]
    fn poll_next(&mut self) -> (r: Step<S::Item>)
        ensures
            *final(self) == *old(self),
            r is Done || polled::<S>(r),
    {
        let mut guard = match mutex_lock(&*self.stream) {
            Ok(guard) => guard,
            Err(poisoned) => poison_into_inner(poisoned),
        };
        let slot = guard_mut(&mut guard);
        let (next, step) = poll_slot(slot.take());
        *slot = next;
        step
    }

    fn size_hint(&self) -> (r: (usize, Option<usize>)) {
        (0, None)
    }
}

} // verus!
