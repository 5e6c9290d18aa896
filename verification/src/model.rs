//! The sequence operations that the contracts of cursors and sinks speak of.

use vstd::prelude::*;
use crate::stream::Stream;

verus! {

/// The reduction of `items` by `op`, continued from `acc` where one is
/// there: without one the first item seeds it, and nothing at all gives
/// nothing.
pub open spec fn reduce<T>(items: Seq<T>, acc: Option<T>, op: spec_fn(T, T) -> T) -> Option<T> {
    match acc {
        Some(seed) => Some(items.fold_left(seed, op)),
        None => if items.len() == 0 {
            None
        } else {
            Some(items.skip(1).fold_left(items[0], op))
        },
    }
}

/// What has been merged so far, with one more result merged into it: a
/// result that is there is reduced into it, or seeds it, and one that is
/// absent leaves it as it is.
pub open spec fn merge_step<T>(op: spec_fn(T, T) -> T, acc: Option<T>, partial: Option<T>) -> Option<
    T,
> {
    match (acc, partial) {
        (Some(a), Some(b)) => Some(op(a, b)),
        (Some(a), None) => Some(a),
        (None, _) => partial,
    }
}

/// `merge_step` by `op`, as a function.
pub open spec fn merger<T>(op: spec_fn(T, T) -> T) -> spec_fn(Option<T>, Option<T>) -> Option<T> {
    |acc: Option<T>, partial: Option<T>| merge_step(op, acc, partial)
}

/// The results in `arrived` merged into `acc`, in the order they have.
pub open spec fn merge_all<T>(arrived: Seq<Option<T>>, acc: Option<T>, op: spec_fn(T, T) -> T) -> Option<
    T,
> {
    arrived.fold_left(acc, merger(op))
}

/// A left fold may take in its first item before the others.
pub proof fn lemma_fold_left_first<A, B>(items: Seq<A>, acc: B, op: spec_fn(B, A) -> B)
    requires
        items.len() > 0,
    ensures
        items.fold_left(acc, op) == items.skip(1).fold_left(op(acc, items[0]), op),
{
    let rest = items.subrange(1, items.len() as int);
    assert(rest =~= items.skip(1));
    items.lemma_fold_left_alt(acc, op);
    rest.lemma_fold_left_alt(op(acc, items[0]), op);
}

/// The length of the longest prefix of `items` whose items all satisfy
/// `keep`.
pub open spec fn prefix_len<T>(items: Seq<T>, keep: spec_fn(T) -> bool) -> nat
    decreases items.len(),
{
    if items.len() == 0 || !keep(items[0]) {
        0
    } else {
        1 + prefix_len(items.skip(1), keep)
    }
}

/// A prefix is no longer than the sequence.
pub proof fn lemma_prefix_len_bound<T>(items: Seq<T>, keep: spec_fn(T) -> bool)
    ensures
        prefix_len(items, keep) <= items.len(),
    decreases items.len(),
{
    if items.len() > 0 && keep(items[0]) {
        lemma_prefix_len_bound(items.skip(1), keep);
    }
}

/// The longest prefix of `items` whose items all satisfy `keep`.
pub open spec fn take_while<T>(items: Seq<T>, keep: spec_fn(T) -> bool) -> Seq<T> {
    items.take(prefix_len(items, keep) as int)
}

/// What is left of `items` behind the longest prefix whose items all
/// satisfy `drop`.
pub open spec fn skip_while<T>(items: Seq<T>, drop: spec_fn(T) -> bool) -> Seq<T> {
    items.skip(prefix_len(items, drop) as int)
}

/// The first `n` items, or all of them where there are fewer.
pub open spec fn take_up_to<T>(items: Seq<T>, n: nat) -> Seq<T> {
    if n <= items.len() {
        items.take(n as int)
    } else {
        items
    }
}

/// What is left of `items` behind the first `n`: nothing where there are
/// fewer.
pub open spec fn skip_up_to<T>(items: Seq<T>, n: nat) -> Seq<T> {
    if n <= items.len() {
        items.skip(n as int)
    } else {
        Seq::empty()
    }
}

/// How many of `len` items are kept when `wait` items are passed over and
/// then every `step`-th item is kept, the first one included.
pub open spec fn strided_len(len: nat, step: nat, wait: nat) -> nat {
    if len <= wait {
        0
    } else {
        ((len - wait - 1) / (step as int) + 1) as nat
    }
}

/// The items at the positions `wait`, `wait + step`, `wait + 2 * step` and
/// so on.
pub open spec fn strided<T>(items: Seq<T>, step: nat, wait: nat) -> Seq<T> {
    Seq::new(strided_len(items.len(), step, wait), |k: int| items[wait + k * step])
}

/// Each position that `strided` reads lies within the sequence.
pub proof fn lemma_strided_index(len: nat, step: nat, wait: nat, k: int)
    requires
        step > 0,
        0 <= k < strided_len(len, step, wait),
    ensures
        0 <= k * step,
        wait + k * step < len,
{
    let n = len - wait - 1;
    let d = step as int;
    vstd::arithmetic::div_mod::lemma_fundamental_div_mod(n, d);
    vstd::arithmetic::div_mod::lemma_mod_bound(n, d);
    vstd::arithmetic::mul::lemma_mul_inequality(k, n / d, d);
    vstd::arithmetic::mul::lemma_mul_is_commutative(n / d, d);
    vstd::arithmetic::mul::lemma_mul_nonnegative(k, d);
}

/// Passing over the first item counts as one item of the wait.
pub proof fn lemma_strided_wait<T>(items: Seq<T>, step: nat, wait: nat)
    requires
        items.len() > 0,
        step > 0,
        wait > 0,
    ensures
        strided(items.skip(1), step, (wait - 1) as nat) == strided(items, step, wait),
{
    let left = strided(items.skip(1), step, (wait - 1) as nat);
    let right = strided(items, step, wait);
    assert(left.len() == right.len());
    assert forall|k: int| 0 <= k < left.len() implies left[k] == right[k] by {
        lemma_strided_index(items.len(), step, wait, k);
    }
    assert(left =~= right);
}

/// With no wait the first item is kept, and `step - 1` items are passed over
/// before the next.
pub proof fn lemma_strided_keep<T>(items: Seq<T>, step: nat)
    requires
        items.len() > 0,
        step > 0,
    ensures
        strided(items, step, 0).len() > 0,
        strided(items, step, 0)[0] == items[0],
        strided(items.skip(1), step, (step - 1) as nat) == strided(items, step, 0).skip(1),
{
    let len = items.len() as int;
    let d = step as int;
    vstd::arithmetic::div_mod::lemma_div_pos_is_pos(len - 1, d);
    if len > d {
        vstd::arithmetic::div_mod::lemma_div_plus_one(len - 1 - d, d);
        assert((len - 1 - d) + d == len - 1);
    } else {
        vstd::arithmetic::div_mod::lemma_basic_div(len - 1, d);
    }
    let left = strided(items.skip(1), step, (step - 1) as nat);
    let right = strided(items, step, 0).skip(1);
    assert(left.len() == right.len());
    assert forall|k: int| 0 <= k < left.len() implies left[k] == right[k] by {
        vstd::arithmetic::mul::lemma_mul_is_distributive_add_other_way(d, k, 1);
        assert((k + 1) * d == k * d + d);
        lemma_strided_index(items.len(), step, 0, k + 1);
        lemma_strided_index((items.len() - 1) as nat, step, (step - 1) as nat, k);
    }
    assert(left =~= right);
}

/// Whether a fallible item succeeded.
pub open spec fn succeeded<T, E>() -> spec_fn(Result<T, E>) -> bool {
    |item: Result<T, E>| item is Ok
}

/// The values of the items of `items`, which have all succeeded.
pub open spec fn ok_values<T, E>(items: Seq<Result<T, E>>) -> Seq<T> {
    Seq::new(items.len(), |i: int| items[i]->Ok_0)
}

/// Every cursor in `streams` may be polled.
pub open spec fn all_wf<U: Stream>(streams: Seq<U>) -> bool {
    forall|i: int| 0 <= i < streams.len() ==> (#[trigger] streams[i]).wf()
}

/// Every cursor of this type may be polled, whatever state it is in.
pub open spec fn every_wf<U: Stream>() -> bool {
    forall|stream: U| #[trigger] stream.wf()
}

/// Every cursor in `streams` is unshared.
pub open spec fn all_unshared<U: Stream>(streams: Seq<U>) -> bool {
    forall|i: int| 0 <= i < streams.len() ==> (#[trigger] streams[i]).unshared()
}

/// The items of the cursors in `streams`, those of the first cursor first.
pub open spec fn concat_remaining<U: Stream>(streams: Seq<U>) -> Seq<U::Item>
    decreases streams.len(),
{
    if streams.len() == 0 {
        Seq::empty()
    } else {
        streams[0].remaining() + concat_remaining(streams.skip(1))
    }
}

/// A bound on the number of polls that it takes to open and drain every
/// cursor in `streams`.
pub open spec fn concat_budget<U: Stream>(streams: Seq<U>) -> nat
    decreases streams.len(),
{
    if streams.len() == 0 {
        0
    } else {
        1 + streams[0].budget() + concat_budget(streams.skip(1))
    }
}

/// The items of a cursor that is being drained, then those of the cursors
/// that wait behind it.
pub open spec fn nested_remaining<U: Stream>(inner: Option<U>, rest: Seq<U>) -> Seq<U::Item> {
    match inner {
        Some(stream) => stream.remaining() + concat_remaining(rest),
        None => concat_remaining(rest),
    }
}

/// The budget of a cursor that is being drained, with that of the cursors
/// that wait behind it.
pub open spec fn nested_budget<U: Stream>(inner: Option<U>, rest: Seq<U>) -> nat {
    match inner {
        Some(stream) => stream.budget() + concat_budget(rest),
        None => concat_budget(rest),
    }
}

} // verus!
