//! What holds of the engine as a whole: laws that relate several of its
//! operations, stated over the sequences that their contracts speak of.

use vstd::prelude::*;
use vstd::multiset::Multiset;
use vstd::seq_lib::{commutative_foldl, lemma_fold_left_permutation};
use crate::call::{fn_of, op_of, test_of, Function, Operator, Predicate};
use crate::consumer::Consumer;
use crate::consumer::fold::Fold;
use crate::consumer::reduce::Reduce;
use crate::execution::run::merges_all;
use crate::flat::consumer::{reduced_units, FlatConsumer};
use crate::flat::stream::FlatStream;
use crate::model::{merge_all, merge_step, merger, reduce, skip_up_to, strided, take_up_to};
use crate::morsel::{batch_len, morsels, MorselSource};
use crate::step::Step;
use crate::stream::{advances, Stream};
use crate::stream::filter::Filter;
use crate::stream::fuse::{fuses, Fuse};
use crate::stream::map::Mapped;
use crate::stream::skip::Skip;
use crate::stream::step_by::StepBy;
use crate::stream::take::Take;

verus! {

/// `op` may be regrouped.
pub open spec fn associative<T>(op: spec_fn(T, T) -> T) -> bool {
    forall|a: T, b: T, c: T| #[trigger] op(op(a, b), c) == op(a, op(b, c))
}

/// The operands of `op` may be swapped.
pub open spec fn commutative<T>(op: spec_fn(T, T) -> T) -> bool {
    forall|a: T, b: T| #[trigger] op(a, b) == op(b, a)
}

/// One step of a reduction without a seed, as a function: the item is
/// reduced into what is there, or seeds it.
pub open spec fn reduce_step<T>(op: spec_fn(T, T) -> T) -> spec_fn(Option<T>, T) -> Option<T> {
    |acc: Option<T>, item: T| merge_step(op, acc, Some(item))
}

/// A reduction takes in its last item by one step.
pub proof fn lemma_reduce_push<T>(items: Seq<T>, item: T, acc: Option<T>, op: spec_fn(T, T) -> T)
    ensures
        reduce(items.push(item), acc, op) == merge_step(op, reduce(items, acc, op), Some(item)),
{
    let all = items.push(item);
    assert(all.drop_last() =~= items);
    match acc {
        Some(seed) => {},
        None => {
            if items.len() == 0 {
                assert(all.skip(1) =~= Seq::<T>::empty());
            } else {
                assert(all.skip(1) =~= items.skip(1).push(item));
                assert(all.skip(1).drop_last() =~= items.skip(1));
            }
        },
    }
}

/// A reduction is the left fold of its steps.
pub proof fn lemma_reduce_is_fold<T>(items: Seq<T>, acc: Option<T>, op: spec_fn(T, T) -> T)
    ensures
        reduce(items, acc, op) == items.fold_left(acc, reduce_step(op)),
    decreases items.len(),
{
    if items.len() > 0 {
        let init = items.drop_last();
        lemma_reduce_is_fold(init, acc, op);
        lemma_reduce_push(init, items.last(), acc, op);
        assert(init.push(items.last()) =~= items);
    }
}

/// Merging is associative where `op` is.
pub proof fn lemma_merge_step_associative<T>(
    op: spec_fn(T, T) -> T,
    a: Option<T>,
    b: Option<T>,
    c: Option<T>,
)
    requires
        associative(op),
    ensures
        merge_step(op, merge_step(op, a, b), c) == merge_step(op, a, merge_step(op, b, c)),
{
    if a is Some && b is Some && c is Some {
        assert(op(op(a->0, b->0), c->0) == op(a->0, op(b->0, c->0)));
    }
}

/// The order of two merges does not matter where `op` is associative and
/// commutative.
pub proof fn lemma_merge_step_swaps<T>(op: spec_fn(T, T) -> T)
    requires
        associative(op),
        commutative(op),
    ensures
        commutative_foldl(merger(op)),
        commutative_foldl(reduce_step(op)),
{
    assert forall|x: Option<T>, y: Option<T>, v: Option<T>| #[trigger]
        merger(op)(merger(op)(v, x), y) == merger(op)(merger(op)(v, y), x) by {
        if x is Some && y is Some {
            assert(op(x->0, y->0) == op(y->0, x->0));
            if v is Some {
                assert(op(op(v->0, x->0), y->0) == op(v->0, op(x->0, y->0)));
                assert(op(op(v->0, y->0), x->0) == op(v->0, op(y->0, x->0)));
            }
        }
    }
    assert forall|x: T, y: T, v: Option<T>| #[trigger]
        reduce_step(op)(reduce_step(op)(v, x), y) == reduce_step(op)(reduce_step(op)(v, y), x) by {
        assert(op(x, y) == op(y, x));
        if v is Some {
            assert(op(op(v->0, x), y) == op(v->0, op(x, y)));
            assert(op(op(v->0, y), x) == op(v->0, op(y, x)));
        }
    }
}

/// The reduction of two sequences, one after the other, is the merge of
/// their reductions, where `op` is associative.
pub proof fn lemma_reduce_concat<T>(first: Seq<T>, second: Seq<T>, op: spec_fn(T, T) -> T)
    requires
        associative(op),
    ensures
        reduce(first + second, None, op) == merge_step(
            op,
            reduce(first, None, op),
            reduce(second, None, op),
        ),
    decreases second.len(),
{
    if second.len() == 0 {
        assert(first + second =~= first);
    } else {
        let init = second.drop_last();
        let last = second.last();
        lemma_reduce_concat(first, init, op);
        assert((first + init).push(last) =~= first + second);
        assert(init.push(last) =~= second);
        lemma_reduce_push(first + init, last, None, op);
        lemma_reduce_push(init, last, None, op);
        lemma_merge_step_associative(
            op,
            reduce(first, None, op),
            reduce(init, None, op),
            Some(last),
        );
    }
}

/// Merging the reductions of the units, in the order of the units, gives
/// the reduction of all their items, where `op` is associative.
pub proof fn lemma_merge_in_order<T>(units: Seq<Seq<T>>, op: spec_fn(T, T) -> T)
    requires
        associative(op),
    ensures
        merge_all(reduced_units(units, op), None, op) == reduce(units.flatten(), None, op),
    decreases units.len(),
{
    if units.len() == 0 {
        assert(reduced_units(units, op) =~= Seq::<Option<T>>::empty());
    } else {
        let init = units.drop_last();
        let last = units.last();
        lemma_merge_in_order(init, op);
        assert(init.push(last) =~= units);
        init.lemma_flatten_push(last);
        assert(reduced_units(units, op).drop_last() =~= reduced_units(init, op));
        assert(reduced_units(units, op).last() == reduce(last, None, op));
        lemma_reduce_concat(init.flatten(), last, op);
    }
}

/// Parallel equivalence. Let a source be split into units of work in any
/// way that keeps each item once, let each unit be reduced by a worker, and
/// let the results of the workers arrive in any order. Where `op` is
/// associative and commutative, what the merge gives is the reduction of
/// the source: it depends on neither the number of workers, nor the size of
/// the units, nor the order in which the workers complete.
pub proof fn lemma_parallel_equivalence<T>(
    items: Seq<T>,
    units: Seq<Seq<T>>,
    arrived: Seq<Option<T>>,
    op: spec_fn(T, T) -> T,
)
    requires
        associative(op),
        commutative(op),
        units.flatten().to_multiset() == items.to_multiset(),
        arrived.to_multiset() == reduced_units(units, op).to_multiset(),
    ensures
        merge_all(arrived, None, op) == reduce(items, None, op),
{
    lemma_merge_step_swaps(op);
    lemma_fold_left_permutation(arrived, reduced_units(units, op), merger(op), None);
    lemma_merge_in_order(units, op);
    lemma_reduce_is_fold(units.flatten(), None, op);
    lemma_reduce_is_fold(items, None, op);
    lemma_fold_left_permutation(units.flatten(), items, reduce_step(op), None);
}

/// Morsel completeness. The morsels of a sequence, one after the other in
/// the order they are cut, are the sequence, and no morsel is empty or
/// holds more than the capacity.
pub proof fn lemma_morsels_complete<T>(items: Seq<T>, capacity: nat)
    requires
        capacity > 0,
    ensures
        morsels(items, capacity).flatten() == items,
        forall|i: int|
            0 <= i < morsels(items, capacity).len() ==> 0 < (#[trigger] morsels(
                items,
                capacity,
            )[i]).len() <= capacity,
    decreases items.len(),
{
    if items.len() == 0 {
        assert(morsels(items, capacity).flatten() =~= items);
    } else {
        let first = batch_len(items.len(), capacity) as int;
        let head = seq![items.take(first)];
        let tail = morsels(items.skip(first), capacity);
        lemma_morsels_complete(items.skip(first), capacity);
        assert((head + tail).drop_first() =~= tail);
        assert((head + tail).flatten() =~= items.take(first) + tail.flatten());
        assert(items.take(first) + items.skip(first) =~= items);
        assert forall|i: int| 0 <= i < morsels(items, capacity).len() implies 0 < (
        #[trigger] morsels(items, capacity)[i]).len() <= capacity by {
            if i > 0 {
                assert(morsels(items, capacity)[i] == tail[i - 1]);
            }
        }
    }
}

/// Parallel equivalence of an execution. Whatever the source that lays the
/// work out ahead, however it cuts its units, whatever the number of
/// workers and the order in which they complete: a reduction by an
/// associative and commutative operator that is executed over the source
/// gives the reduction of the items of all its units.
pub proof fn lemma_execution_reduces<L, F>(sink: Reduce<L::Item, L, F>, out: Option<L::Item>) where
    L: FlatStream,
    F: Operator<L::Item, L::Item> + Copy,

    requires
        associative(op_of(sink.f)),
        commutative(op_of(sink.f)),
        merges_all(sink, out),
    ensures
        out == reduce(sink.upper.units().flatten(), None, op_of(sink.f)),
{
    let units = sink.upper.units();
    let arrived = choose|arrived: Seq<Option<L::Item>>|
        #![trigger sink.merges_to(arrived, out)]
        arrived.to_multiset() == sink.partials().to_multiset() && sink.merges_to(arrived, out);
    lemma_parallel_equivalence(units.flatten(), units, arrived, op_of(sink.f));
}

/// Parallel equivalence of an execution over morsels. Whatever the
/// capacity of the morsels, the number of workers and the order in which
/// they complete, a reduction by an associative and commutative operator
/// that is executed over the morsels of a cursor gives the reduction of the
/// items of the cursor.
pub proof fn lemma_morsel_execution<S, F>(
    sink: Reduce<S::Item, MorselSource<S>, F>,
    out: Option<S::Item>,
) where S: Stream, F: Operator<S::Item, S::Item> + Copy
    requires
        sink.upper.capacity > 0,
        associative(op_of(sink.f)),
        commutative(op_of(sink.f)),
        merges_all(sink, out),
    ensures
        out == reduce(sink.upper.stream.remaining(), None, op_of(sink.f)),
{
    let items = sink.upper.stream.remaining();
    let units = morsels(items, sink.upper.capacity as nat);
    let arrived = choose|arrived: Seq<Option<S::Item>>|
        #![trigger sink.merges_to(arrived, out)]
        arrived.to_multiset() == sink.partials().to_multiset() && sink.merges_to(arrived, out);
    lemma_morsels_complete(items, sink.upper.capacity as nat);
    lemma_parallel_equivalence(items, units, arrived, op_of(sink.f));
}

/// Every result in `arrived` is absent.
pub open spec fn all_absent<T>(arrived: Seq<Option<T>>) -> bool {
    forall|i: int| 0 <= i < arrived.len() ==> (#[trigger] arrived[i]) is None
}

/// Merging absent results gives nothing.
pub proof fn lemma_merge_absent<T>(arrived: Seq<Option<T>>, op: spec_fn(T, T) -> T)
    requires
        all_absent(arrived),
    ensures
        merge_all(arrived, None, op) is None,
    decreases arrived.len(),
{
    if arrived.len() > 0 {
        assert(all_absent(arrived.drop_last())) by {
            assert forall|i: int| 0 <= i < arrived.drop_last().len() implies (
            #[trigger] arrived.drop_last()[i]) is None by {
                assert(arrived.drop_last()[i] == arrived[i]);
            }
        }
        lemma_merge_absent(arrived.drop_last(), op);
        assert(arrived.last() == arrived[arrived.len() - 1]);
    }
}

/// The empty source. A reduction of no items gives nothing; and where no
/// unit of work holds an item, merging what the workers end with gives
/// nothing, whatever the number of units and the order of arrival.
pub proof fn lemma_empty_source<T>(
    units: Seq<Seq<T>>,
    arrived: Seq<Option<T>>,
    op: spec_fn(T, T) -> T,
)
    requires
        units.flatten().len() == 0,
        arrived.to_multiset() == reduced_units(units, op).to_multiset(),
    ensures
        reduce(Seq::<T>::empty(), None, op) is None,
        merge_all(arrived, None, op) is None,
{
    let partials = reduced_units(units, op);
    units.lemma_flatten_and_flatten_alt_are_equivalent();
    assert forall|i: int| 0 <= i < arrived.len() implies (#[trigger] arrived[i]) is None by {
        assert(arrived.contains(arrived[i]));
        vstd::seq_lib::to_multiset_contains(arrived, arrived[i]);
        vstd::seq_lib::to_multiset_contains(partials, arrived[i]);
        assert(partials.contains(arrived[i]));
        let j = choose|j: int| 0 <= j < partials.len() && partials[j] == arrived[i];
        units.lemma_flatten_length_ge_single_element_length(j);
        assert(units[j] =~= Seq::<T>::empty());
    }
    lemma_merge_absent(arrived, op);
}

/// The polls in `results` have taken one cursor through the states in
/// `states`, one after the other: each poll starts where the one before it
/// ended, and does what `poll_next` promises.
pub open spec fn polls<S: Stream>(states: Seq<S>, results: Seq<Step<S::Item>>) -> bool {
    &&& states.len() == results.len() + 1
    &&& forall|k: int|
        0 <= k < results.len() ==> advances(states[k], #[trigger] results[k], states[k + 1])
}

/// The items that the polls in `results` handed out, in the order of the
/// polls.
pub open spec fn handed_out<T>(results: Seq<Step<T>>) -> Seq<T>
    decreases results.len(),
{
    if results.len() == 0 {
        Seq::empty()
    } else {
        match results.last() {
            Step::Ready(item) => handed_out(results.drop_last()).push(item),
            _ => handed_out(results.drop_last()),
        }
    }
}

/// The items that worker `worker` saw, where `by[k]` is the worker that
/// made the poll `results[k]`.
pub open spec fn seen_by<T>(results: Seq<Step<T>>, by: Seq<nat>, worker: nat) -> Seq<T>
    decreases results.len(),
{
    if results.len() == 0 || by.len() != results.len() {
        Seq::empty()
    } else {
        match results.last() {
            Step::Ready(item) if by.last() == worker => seen_by(
                results.drop_last(),
                by.drop_last(),
                worker,
            ).push(item),
            _ => seen_by(results.drop_last(), by.drop_last(), worker),
        }
    }
}

/// The items that the first `workers` workers saw, taken together without
/// regard to order.
pub open spec fn seen_by_all<T>(results: Seq<Step<T>>, by: Seq<nat>, workers: nat) -> Multiset<T>
    decreases workers,
{
    if workers == 0 {
        Multiset::empty()
    } else {
        seen_by_all(results, by, (workers - 1) as nat).add(
            seen_by(results, by, (workers - 1) as nat).to_multiset(),
        )
    }
}

/// What a cursor has handed out and what it has yet to yield are together
/// what it had to yield at first: no poll loses an item or yields one
/// twice.
pub proof fn lemma_polls_partition<S: Stream>(states: Seq<S>, results: Seq<Step<S::Item>>)
    requires
        polls(states, results),
        states[0].unshared(),
    ensures
        states.last().unshared(),
        handed_out(results) + states.last().remaining() == states[0].remaining(),
    decreases results.len(),
{
    if results.len() == 0 {
        assert(handed_out(results) + states.last().remaining() =~= states[0].remaining());
    } else {
        let n = results.len() as int;
        let before = states.drop_last();
        let earlier = results.drop_last();
        assert forall|k: int| 0 <= k < earlier.len() implies advances(
            before[k],
            #[trigger] earlier[k],
            before[k + 1],
        ) by {
            assert(advances(states[k], results[k], states[k + 1]));
        }
        lemma_polls_partition(before, earlier);
        assert(before.last() == states[n - 1]);
        assert(advances(states[n - 1], results[n - 1], states[n]));
        let left = states[n - 1].remaining();
        match results.last() {
            Step::Ready(item) => {
                assert(handed_out(earlier).push(item) + left.skip(1) =~= handed_out(earlier)
                    + left);
            },
            _ => {},
        }
    }
}

/// One more poll adds its item to what its worker saw, and to nothing
/// else.
proof fn lemma_seen_by_all_step<T>(results: Seq<Step<T>>, by: Seq<nat>, workers: nat)
    requires
        results.len() > 0,
        by.len() == results.len(),
    ensures
        seen_by_all(results, by, workers) == match results.last() {
            Step::Ready(item) if by.last() < workers => seen_by_all(
                results.drop_last(),
                by.drop_last(),
                workers,
            ).insert(item),
            _ => seen_by_all(results.drop_last(), by.drop_last(), workers),
        },
    decreases workers,
{
    if workers > 0 {
        let w = (workers - 1) as nat;
        lemma_seen_by_all_step(results, by, w);
        let earlier = seen_by(results.drop_last(), by.drop_last(), w);
        match results.last() {
            Step::Ready(item) => {
                if by.last() == w {
                    vstd::seq_lib::to_multiset_build(earlier, item);
                    assert(seen_by_all(results.drop_last(), by.drop_last(), w).add(
                        earlier.to_multiset().insert(item),
                    ) =~= seen_by_all(results.drop_last(), by.drop_last(), w).add(
                        earlier.to_multiset(),
                    ).insert(item));
                } else if by.last() < w {
                    assert(seen_by_all(results.drop_last(), by.drop_last(), w).insert(item).add(
                        earlier.to_multiset(),
                    ) =~= seen_by_all(results.drop_last(), by.drop_last(), w).add(
                        earlier.to_multiset(),
                    ).insert(item));
                }
            },
            _ => {},
        }
    }
}

/// What the workers saw, taken together, is what was handed out.
pub proof fn lemma_seen_is_handed_out<T>(results: Seq<Step<T>>, by: Seq<nat>, workers: nat)
    requires
        by.len() == results.len(),
        forall|k: int| 0 <= k < by.len() ==> #[trigger] by[k] < workers,
    ensures
        seen_by_all(results, by, workers) == handed_out(results).to_multiset(),
    decreases results.len(),
{
    if results.len() == 0 {
        lemma_seen_nothing::<T>(results, by, workers);
        assert(handed_out(results).to_multiset().len() == 0) by {
            vstd::seq_lib::to_multiset_len(handed_out(results));
        }
        assert(handed_out(results).to_multiset() =~= Multiset::<T>::empty());
    } else {
        lemma_seen_is_handed_out(results.drop_last(), by.drop_last(), workers);
        lemma_seen_by_all_step(results, by, workers);
        assert(by.last() == by[by.len() - 1]);
        match results.last() {
            Step::Ready(item) => {
                vstd::seq_lib::to_multiset_build(handed_out(results.drop_last()), item);
            },
            _ => {},
        }
    }
}

/// Without a poll no worker has seen anything.
proof fn lemma_seen_nothing<T>(results: Seq<Step<T>>, by: Seq<nat>, workers: nat)
    requires
        results.len() == 0,
    ensures
        seen_by_all(results, by, workers) == Multiset::<T>::empty(),
    decreases workers,
{
    if workers > 0 {
        let w = (workers - 1) as nat;
        lemma_seen_nothing(results, by, w);
        vstd::seq_lib::to_multiset_len(seen_by(results, by, w));
        assert(seen_by(results, by, w).to_multiset() =~= Multiset::<T>::empty());
        assert(Multiset::<T>::empty().add(Multiset::<T>::empty()) =~= Multiset::<T>::empty());
    }
}

/// Shared-cursor exclusivity. Let the workers poll one cursor in any
/// order, one poll at a time, as the lock of a shared cursor has them do.
/// Then the items handed out are a prefix of what the cursor had to yield,
/// in its order, and each went to the one worker whose poll took it: what
/// the workers saw, taken together, is that prefix, with no item twice and
/// none left out. Once a poll has reported `Done` it is all of it.
pub proof fn lemma_shared_exclusivity<S: Stream>(
    states: Seq<S>,
    results: Seq<Step<S::Item>>,
    by: Seq<nat>,
    workers: nat,
)
    requires
        polls(states, results),
        states[0].unshared(),
        by.len() == results.len(),
        forall|k: int| 0 <= k < by.len() ==> #[trigger] by[k] < workers,
    ensures
        handed_out(results) + states.last().remaining() == states[0].remaining(),
        seen_by_all(results, by, workers) == handed_out(results).to_multiset(),
        (exists|k: int| 0 <= k < results.len() && results[k] is Done) ==> seen_by_all(
            results,
            by,
            workers,
        ) == states[0].remaining().to_multiset(),
{
    lemma_polls_partition(states, results);
    lemma_seen_is_handed_out(results, by, workers);
    if exists|k: int| 0 <= k < results.len() && results[k] is Done {
        let k = choose|k: int| 0 <= k < results.len() && results[k] is Done;
        lemma_done_is_final(states, results, k);
        assert(handed_out(results) + states.last().remaining() =~= handed_out(results));
    }
}

/// After a poll that reported `Done` the cursor has nothing left, however
/// often it is polled again.
pub proof fn lemma_done_is_final<S: Stream>(states: Seq<S>, results: Seq<Step<S::Item>>, k: int)
    requires
        polls(states, results),
        states[0].unshared(),
        0 <= k < results.len(),
        results[k] is Done,
    ensures
        states.last().remaining().len() == 0,
    decreases results.len(),
{
    let n = results.len() as int;
    let before = states.drop_last();
    let earlier = results.drop_last();
    assert forall|j: int| 0 <= j < earlier.len() implies advances(
        before[j],
        #[trigger] earlier[j],
        before[j + 1],
    ) by {
        assert(advances(states[j], results[j], states[j + 1]));
    }
    lemma_polls_partition(before, earlier);
    assert(before.last() == states[n - 1]);
    assert(advances(states[n - 1], results[n - 1], states[n]));
    if k < n - 1 {
        lemma_done_is_final(before, earlier, k);
        assert(states[n - 1].remaining().len() == 0);
        assert(states[n].remaining() =~= states[n - 1].remaining().skip(1) || states[n].remaining()
            == states[n - 1].remaining());
    }
}

/// Done-stickiness. Once a fused cursor has reported `Done`, every later
/// poll reports `Done`, and none of them touches the upstream.
pub proof fn lemma_done_is_sticky<S: Stream>(
    states: Seq<Fuse<S>>,
    results: Seq<Step<S::Item>>,
    first: int,
    later: int,
)
    requires
        states.len() == results.len() + 1,
        forall|k: int|
            0 <= k < results.len() ==> fuses(states[k], #[trigger] results[k], states[k + 1]),
        0 <= first <= later < results.len(),
        results[first] is Done,
    ensures
        results[later] is Done,
        states[later + 1].done,
        states[later + 1].stream == states[first + 1].stream,
    decreases later - first,
{
    assert(fuses(states[first], results[first], states[first + 1]));
    if first < later {
        lemma_done_is_sticky(states, results, first, later - 1);
        assert(fuses(states[later], results[later], states[later + 1]));
    }
}

/// Fusion equivalence, stage by stage. Each of `map`, `filter`, `take`,
/// `skip` and `step_by` yields what the same operation makes of the
/// sequence that its upstream yields. The upstream is any cursor, so by
/// induction on the length of a chain the same holds of every chain of
/// these stages; and a sink that one worker drives over the chain ends
/// with what it makes of that sequence.
pub proof fn lemma_fusion_equivalence<S, F, P>(
    upstream: S,
    f: F,
    predicate: P,
    n: usize,
    step: usize,
) where S: Stream, F: Function<S::Item>, P: Predicate<S::Item>
    requires
        step > 0,
    ensures
        (Mapped { stream: upstream, f }).remaining() == upstream.remaining().map_values(fn_of(f)),
        (Filter { stream: upstream, predicate }).remaining() == upstream.remaining().filter(
            test_of(predicate),
        ),
        (Take { stream: upstream, n }).remaining() == take_up_to(upstream.remaining(), n as nat),
        (Skip { stream: upstream, n }).remaining() == skip_up_to(upstream.remaining(), n as nat),
        (StepBy { stream: upstream, step, i: 0 }).remaining() == strided(
            upstream.remaining(),
            step as nat,
            0,
        ),
        (Mapped { stream: upstream, f }).unshared() == upstream.unshared(),
        (Filter { stream: upstream, predicate }).unshared() == upstream.unshared(),
        (Take { stream: upstream, n }).unshared() == upstream.unshared(),
        (Skip { stream: upstream, n }).unshared() == upstream.unshared(),
        (StepBy { stream: upstream, step, i: 0 }).unshared() == upstream.unshared(),
{
}

/// Fusion equivalence of a whole pipeline. A fold over `step_by`, `map` and
/// `filter`, fused into one cursor and driven by one worker, ends with what
/// the same operations give when they are applied, one after the other, to
/// the sequence of the source.
pub proof fn lemma_fused_fold<S, F, P, G, T>(
    source: S,
    step: usize,
    f: F,
    predicate: P,
    init: T,
    g: G,
    out: T,
) where S: Stream, F: Function<S::Item>, P: Predicate<F::Out>, G: Operator<T, F::Out>
    requires
        step > 0,
        (Fold {
            stream: Filter {
                stream: Mapped { stream: StepBy { stream: source, step, i: 0 }, f },
                predicate,
            },
            f: g,
            acc: Some(init),
        }).ends_with(out),
    ensures
        out == strided(source.remaining(), step as nat, 0).map_values(fn_of(f)).filter(
            test_of(predicate),
        ).fold_left(init, op_of(g)),
{
}

} // verus!
