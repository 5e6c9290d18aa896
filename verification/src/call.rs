//! The functions that stages and sinks are built from.
//!
//! A stage does not ask for a closure but for a function with a model: a
//! value that says on which arguments it may be called and what it returns
//! on them. The contracts of the crate speak of that model, so the items
//! that a pipeline yields are a function of the items of its source.
//!
//! Every closure is such a function. Its model is what its own contract
//! allows, on the arguments on which that is one result only. A type of
//! one's own that implements `Function`, `Predicate`, `Operator` or `Opener`
//! states its model outright; a value of such a type is put into a stage or
//! a sink through the fields of that stage or sink.
//!
//! # Closures in verified callers
//!
//! Verus does not apply the impls for closures to a closure type that is
//! written out: there the model of a closure is not known to it, and
//! neither is the `wf` of a stage that holds the closure. A verified caller
//! is therefore generic in the type of the closure and says in its own
//! `requires` what the model is:
//!
//! ```text
//! fn large_sum<F: Fn(u64) -> u64>(items: Vec<u64>, scale: F) -> (sum: u64)
//!     requires
//!         forall|x: u64| #[trigger] scale.applies(x) && scale.applied(x) == x / 2,
//! {
//!     let stage = items.into_fusion().map(scale);
//!     ...
//! }
//! ```
//!
//! Where such a caller puts a second stage on a `map`, the compiler asks
//! for the item type of the first, in a `where` clause:
//!
//! ```text
//! fn large<F, P>(items: Vec<u64>, scale: F, keep: P) where
//!     F: Fn(u64) -> u64,
//!     P: Fn(&u64) -> bool,
//!     Mapped<IteratorStream<u64>, F>: Stream<Item = u64>,
//! {
//!     let stage = items.into_fusion().map(scale).filter(keep);
//!     ...
//! }
//! ```

use vstd::prelude::*;
use crate::stream::{alike, Stream};

verus! {

/// A function of one argument.
pub trait Function<A>: Sized {
    type Out;

    /// The function may be called on `a`.
    spec fn applies(&self, a: A) -> bool;

    /// The value that the function returns on `a`.
    spec fn applied(&self, a: A) -> Self::Out;

    fn call(&self, a: A) -> (r: Self::Out)
        requires
            self.applies(a),
        ensures
            r == self.applied(a),
    ;
}

impl<A, B, F: Fn(A) -> B> Function<A> for F {
    type Out = B;

    /// The closure may be called on `a`, and its contract allows one result
    /// only.
    open spec fn applies(&self, a: A) -> bool {
        &&& self.requires((a,))
        &&& forall|b: B| self.ensures((a,), b) ==> b == (choose|b: B| self.ensures((a,), b))
    }

    /// The result that the contract of the closure allows on `a`.
    open spec fn applied(&self, a: A) -> B {
        choose|b: B| self.ensures((a,), b)
    }

    #[inline]
    fn call(&self, a: A) -> (r: B) {
        self(a)
    }
}

/// A function that makes a cursor of an item.
///
/// A cursor is known by what it yields, so the model of such a function
/// fixes the cursor that is made no further than `alike` does.
pub trait Opener<A>: Sized {
    type Out: Stream;

    /// The function may be called on `a`.
    spec fn opens(&self, a: A) -> bool;

    /// A cursor like the one that the function makes of `a`.
    spec fn opened(&self, a: A) -> Self::Out;

    fn open(&self, a: A) -> (r: Self::Out)
        requires
            self.opens(a),
        ensures
            r.wf(),
            alike(r, self.opened(a)),
    ;
}

impl<A, U: Stream, F: Fn(A) -> U> Opener<A> for F {
    type Out = U;

    /// The closure may be called on `a`, and every cursor that its contract
    /// allows may be polled and is like every other that it allows.
    open spec fn opens(&self, a: A) -> bool {
        &&& self.requires((a,))
        &&& forall|b: U|
            self.ensures((a,), b) ==> b.wf() && alike(b, choose|b: U| self.ensures((a,), b))
    }

    /// One of the cursors that the contract of the closure allows on `a`.
    open spec fn opened(&self, a: A) -> U {
        choose|b: U| self.ensures((a,), b)
    }

    #[inline]
    fn open(&self, a: A) -> (r: U) {
        self(a)
    }
}

/// A predicate on an item.
pub trait Predicate<A>: Sized {
    /// The predicate may be asked about `a`.
    spec fn decides(&self, a: A) -> bool;

    /// Whether the predicate accepts `a`.
    spec fn holds(&self, a: A) -> bool;

    fn test(&self, a: &A) -> (r: bool)
        requires
            self.decides(*a),
        ensures
            r == self.holds(*a),
    ;
}

impl<A, P: Fn(&A) -> bool> Predicate<A> for P {
    /// The closure may be called on `a`, and its contract allows one answer
    /// only.
    open spec fn decides(&self, a: A) -> bool {
        &&& self.requires((&a,))
        &&& forall|b: bool| self.ensures((&a,), b) ==> b == (choose|b: bool| self.ensures((&a,), b))
    }

    /// The answer that the contract of the closure allows on `a`.
    open spec fn holds(&self, a: A) -> bool {
        choose|b: bool| self.ensures((&a,), b)
    }

    #[inline]
    fn test(&self, a: &A) -> (r: bool) {
        self(a)
    }
}

/// A binary operator that takes a `B` into an `A`.
pub trait Operator<A, B>: Sized {
    /// The operator may be called on `a` and `b`.
    spec fn joins(&self, a: A, b: B) -> bool;

    /// The value that the operator returns on `a` and `b`.
    spec fn joined(&self, a: A, b: B) -> A;

    fn join(&self, a: A, b: B) -> (r: A)
        requires
            self.joins(a, b),
        ensures
            r == self.joined(a, b),
    ;
}

impl<A, B, F: Fn(A, B) -> A> Operator<A, B> for F {
    /// The closure may be called on `a` and `b`, and its contract allows
    /// one result only.
    open spec fn joins(&self, a: A, b: B) -> bool {
        &&& self.requires((a, b))
        &&& forall|r: A| self.ensures((a, b), r) ==> r == (choose|r: A| self.ensures((a, b), r))
    }

    /// The result that the contract of the closure allows on `a` and `b`.
    open spec fn joined(&self, a: A, b: B) -> A {
        choose|r: A| self.ensures((a, b), r)
    }

    #[inline]
    fn join(&self, a: A, b: B) -> (r: A) {
        self(a, b)
    }
}

/// `f` as a function of the item.
pub open spec fn fn_of<A, F: Function<A>>(f: F) -> spec_fn(A) -> F::Out {
    |a: A| f.applied(a)
}

/// `p` as a function of the item.
pub open spec fn test_of<A, P: Predicate<A>>(p: P) -> spec_fn(A) -> bool {
    |a: A| p.holds(a)
}

/// The negation of `p` as a function of the item.
pub open spec fn refusal_of<A, P: Predicate<A>>(p: P) -> spec_fn(A) -> bool {
    |a: A| !p.holds(a)
}

/// `f` as a function of its two operands.
pub open spec fn op_of<A, B, F: Operator<A, B>>(f: F) -> spec_fn(A, B) -> A {
    |a: A, b: B| f.joined(a, b)
}

/// `f` may be called on each item of `items`.
pub open spec fn applies_all<A, F: Function<A>>(f: F, items: Seq<A>) -> bool {
    forall|i: int| 0 <= i < items.len() ==> f.applies(#[trigger] items[i])
}

/// `f` may be called on any item.
pub open spec fn applies_any<A, F: Function<A>>(f: F) -> bool {
    forall|a: A| #[trigger] f.applies(a)
}

/// `f` may be called on each item of `items`.
pub open spec fn opens_all<A, F: Opener<A>>(f: F, items: Seq<A>) -> bool {
    forall|i: int| 0 <= i < items.len() ==> f.opens(#[trigger] items[i])
}

/// `f` may be called on any item.
pub open spec fn opens_any<A, F: Opener<A>>(f: F) -> bool {
    forall|a: A| #[trigger] f.opens(a)
}

/// A cursor like the one that `f` makes of each item of `items`.
pub open spec fn openings<A, F: Opener<A>>(f: F, items: Seq<A>) -> Seq<F::Out> {
    items.map_values(|a: A| f.opened(a))
}

/// `p` may be asked about each item of `items`.
pub open spec fn decides_all<A, P: Predicate<A>>(p: P, items: Seq<A>) -> bool {
    forall|i: int| 0 <= i < items.len() ==> p.decides(#[trigger] items[i])
}

/// `p` may be asked about any item.
pub open spec fn decides_any<A, P: Predicate<A>>(p: P) -> bool {
    forall|a: A| #[trigger] p.decides(a)
}

/// `p` may be asked about each item of `items` up to the first one that it
/// refuses, that one included.
pub open spec fn decides_prefix<A, P: Predicate<A>>(p: P, items: Seq<A>) -> bool
    decreases items.len(),
{
    items.len() == 0 || (p.decides(items[0]) && (p.holds(items[0]) ==> decides_prefix(
        p,
        items.skip(1),
    )))
}

/// A function that may be called on each item may be called on the first,
/// and on each of the others.
pub proof fn lemma_applies_rest<A, F: Function<A>>(f: F, items: Seq<A>)
    requires
        applies_all(f, items),
        items.len() > 0,
    ensures
        f.applies(items[0]),
        applies_all(f, items.skip(1)),
{
    assert forall|i: int| 0 <= i < items.skip(1).len() implies f.applies(
        #[trigger] items.skip(1)[i],
    ) by {
        assert(items.skip(1)[i] == items[i + 1]);
    }
}

/// A predicate that may be asked about each item may be asked about the
/// first, and about each of the others.
pub proof fn lemma_decides_rest<A, P: Predicate<A>>(p: P, items: Seq<A>)
    requires
        decides_all(p, items),
        items.len() > 0,
    ensures
        p.decides(items[0]),
        decides_all(p, items.skip(1)),
{
    assert forall|i: int| 0 <= i < items.skip(1).len() implies p.decides(
        #[trigger] items.skip(1)[i],
    ) by {
        assert(items.skip(1)[i] == items[i + 1]);
    }
}

/// A function that may be called on each item may be called on the first,
/// and on each of the others.
pub proof fn lemma_opens_rest<A, F: Opener<A>>(f: F, items: Seq<A>)
    requires
        opens_all(f, items),
        items.len() > 0,
    ensures
        f.opens(items[0]),
        opens_all(f, items.skip(1)),
{
    assert forall|i: int| 0 <= i < items.skip(1).len() implies f.opens(
        #[trigger] items.skip(1)[i],
    ) by {
        assert(items.skip(1)[i] == items[i + 1]);
    }
}

/// `f` may be called on any two operands.
pub open spec fn joins_any<A, B, F: Operator<A, B>>(f: F) -> bool {
    forall|a: A, b: B| #[trigger] f.joins(a, b)
}

/// `f` may be called at every step of the left fold of `items` from `acc`.
pub open spec fn folds<A, B, F: Operator<A, B>>(f: F, acc: A, items: Seq<B>) -> bool
    decreases items.len(),
{
    items.len() == 0 || (f.joins(acc, items[0]) && folds(
        f,
        f.joined(acc, items[0]),
        items.skip(1),
    ))
}

/// `f` may be called at every step of the reduction of `items` continued
/// from `acc`.
pub open spec fn reduces<T, F: Operator<T, T>>(f: F, acc: Option<T>, items: Seq<T>) -> bool {
    match acc {
        Some(seed) => folds(f, seed, items),
        None => items.len() == 0 || folds(f, items[0], items.skip(1)),
    }
}

} // verus!
