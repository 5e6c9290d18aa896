use std::cell::Cell;
use std::rc::Rc;

use stream_fusion::step::Step;
use stream_fusion::stream::ext::StreamExt;
use stream_fusion::stream::map_async::Flight;
use stream_fusion::stream::{IntoFusion, IteratorStream, Stream};

fn drain<S: Stream>(mut s: S) -> Vec<S::Item> {
    let mut out = Vec::new();
    loop {
        match s.poll_next() {
            Step::Ready(x) => out.push(x),
            Step::NotYet => {}
            Step::Done => return out,
        }
    }
}

fn steps<S: Stream>(s: &mut S, n: usize) -> Vec<Option<S::Item>>
where
    S::Item: Clone,
{
    // `Some(Some(x))` is not needed: Ready(x) -> Some(x), NotYet -> None; Done ends.
    let mut out = Vec::new();
    for _ in 0..n {
        match s.poll_next() {
            Step::Ready(x) => out.push(Some(x)),
            Step::NotYet => out.push(None),
            Step::Done => break,
        }
    }
    out
}

#[test]
fn source_yields_items_in_order_then_done() {
    let mut s = vec![1, 2, 3].into_fusion();
    assert_eq!(s.size_hint(), (3, Some(3)));
    assert!(matches!(s.poll_next(), Step::Ready(1)));
    assert_eq!(s.size_hint(), (2, Some(2)));
    assert!(matches!(s.poll_next(), Step::Ready(2)));
    assert!(matches!(s.poll_next(), Step::Ready(3)));
    assert_eq!(s.size_hint(), (0, Some(0)));
    assert!(matches!(s.poll_next(), Step::Done));
    assert!(matches!(s.poll_next(), Step::Done));
    let empty: IteratorStream<i32> = IteratorStream::new(Vec::new());
    assert_eq!(drain(empty), Vec::<i32>::new());
}

#[test]
fn map_transforms_each_item() {
    let s = vec![1, 2, 3].into_fusion().map(|i| i * 10);
    assert_eq!(s.size_hint(), (3, Some(3)));
    assert_eq!(drain(s), vec![10, 20, 30]);
    let mut s = vec![0, 1, 0, 2].into_fusion().filter(|i| *i > 0).map(|i| i + 1);
    assert_eq!(steps(&mut s, 10), vec![None, Some(2), None, Some(3)]);
}

#[test]
fn filter_demotes_refused_items_to_not_yet() {
    let mut s = vec![1, 2, 3, 4].into_fusion().filter(|i| i % 2 == 0);
    assert_eq!(s.size_hint(), (0, Some(4)));
    assert!(matches!(s.poll_next(), Step::NotYet));
    assert!(matches!(s.poll_next(), Step::Ready(2)));
    assert!(matches!(s.poll_next(), Step::NotYet));
    assert!(matches!(s.poll_next(), Step::Ready(4)));
    assert!(matches!(s.poll_next(), Step::Done));
}

#[test]
fn take_stops_early_and_leaves_upstream_alone() {
    let mut s = vec![1, 2, 3, 4].into_fusion().take(2);
    assert!(matches!(s.poll_next(), Step::Ready(1)));
    assert!(matches!(s.poll_next(), Step::Ready(2)));
    assert_eq!(s.stream.size_hint(), (2, Some(2)));
    assert!(matches!(s.poll_next(), Step::Done));
    assert!(matches!(s.poll_next(), Step::Done));
    // the upstream has not been polled again: its next item is still there
    assert_eq!(s.stream.size_hint(), (2, Some(2)));
    assert!(matches!(s.stream.poll_next(), Step::Ready(3)));
    assert_eq!(drain(vec![1, 2].into_fusion().take(5)), vec![1, 2]);
    assert_eq!(drain(vec![1, 2].into_fusion().take(0)), Vec::<i32>::new());
    assert_eq!(vec![1, 2, 3].into_fusion().take(2).size_hint(), (2, Some(2)));
    assert_eq!(vec![1, 2, 3].into_fusion().take(7).size_hint(), (3, Some(3)));
    let unknown = vec![1, 2, 3].into_fusion().step_by(1);
    assert_eq!(unknown.take(2).size_hint(), (0, Some(2)));
}

#[test]
fn take_while_stops_at_the_first_refusal_for_good() {
    let mut s = vec![1, 2, 9, 1, 1].into_fusion().take_while(|i| *i < 5);
    assert!(matches!(s.poll_next(), Step::Ready(1)));
    assert!(matches!(s.poll_next(), Step::Ready(2)));
    assert!(matches!(s.poll_next(), Step::Done));
    assert_eq!(s.stream.size_hint(), (2, Some(2)));
    assert!(matches!(s.poll_next(), Step::Done));
    assert!(matches!(s.poll_next(), Step::Done));
    // the upstream has not been polled again, though its next items would pass
    assert_eq!(s.stream.size_hint(), (2, Some(2)));
    assert_eq!(s.size_hint(), (0, Some(0)));
    let s = vec![1, 2, 3].into_fusion().take_while(|i| *i < 5);
    assert_eq!(s.size_hint(), (0, Some(3)));
    assert_eq!(drain(s), vec![1, 2, 3]);
}

#[test]
fn skip_suppresses_a_prefix() {
    let mut s = vec![1, 2, 3, 4].into_fusion().skip(2);
    assert_eq!(s.size_hint(), (2, Some(2)));
    assert!(matches!(s.poll_next(), Step::NotYet));
    assert!(matches!(s.poll_next(), Step::NotYet));
    assert!(matches!(s.poll_next(), Step::Ready(3)));
    assert!(matches!(s.poll_next(), Step::Ready(4)));
    assert!(matches!(s.poll_next(), Step::Done));
    assert_eq!(drain(vec![1, 2].into_fusion().skip(5)), Vec::<i32>::new());
    assert_eq!(vec![1, 2].into_fusion().skip(5).size_hint(), (0, Some(0)));
    assert_eq!(drain(vec![1, 2].into_fusion().skip(0)), vec![1, 2]);
}

#[test]
fn skip_while_asks_the_predicate_until_it_first_fails() {
    let asked = Rc::new(Cell::new(0));
    let seen = asked.clone();
    let s = vec![1, 2, 9, 1, 2].into_fusion().skip_while(move |i| {
        seen.set(seen.get() + 1);
        *i < 5
    });
    assert_eq!(s.size_hint(), (0, Some(5)));
    assert_eq!(drain(s), vec![9, 1, 2]);
    assert_eq!(asked.get(), 3);
    let mut s = vec![7, 1].into_fusion().skip_while(|i| *i < 5);
    assert!(matches!(s.poll_next(), Step::Ready(7)));
    assert_eq!(s.size_hint(), (1, Some(1)));
}

#[test]
fn step_by_keeps_every_nth_item() {
    assert_eq!(drain(vec![0, 1, 2, 3, 4, 5, 6].into_fusion().step_by(3)), vec![0, 3, 6]);
    assert_eq!(drain(vec![0, 1, 2, 3].into_fusion().step_by(1)), vec![0, 1, 2, 3]);
    assert_eq!(drain(vec![0, 1, 2, 3].into_fusion().step_by(9)), vec![0]);
    let mut s = vec![0, 1, 2].into_fusion().step_by(2);
    assert_eq!(s.size_hint(), (0, None));
    assert!(matches!(s.poll_next(), Step::Ready(0)));
    assert!(matches!(s.poll_next(), Step::NotYet));
    assert!(matches!(s.poll_next(), Step::Ready(2)));
    assert!(matches!(s.poll_next(), Step::Done));
}

#[test]
fn step_by_starts_with_the_first_item() {
    let stage = vec![1, 2].into_fusion().step_by(5);
    assert_eq!(stage.step, 5);
    assert_eq!(stage.i, 0);
    assert_eq!(stage.stream.size_hint(), (2, Some(2)));
}

#[test]
fn fuse_reports_done_for_good() {
    let mut fused = vec![1, 2].into_fusion().fuse();
    assert_eq!(fused.size_hint(), (0, None));
    assert!(matches!(fused.poll_next(), Step::Ready(1)));
    assert!(matches!(fused.poll_next(), Step::Ready(2)));
    assert!(!fused.done);
    assert!(matches!(fused.poll_next(), Step::Done));
    assert!(fused.done);
    for _ in 0..10 {
        assert!(matches!(fused.poll_next(), Step::Done));
        assert!(fused.done);
    }
}

#[test]
fn fuse_that_has_seen_done_does_not_enter_its_upstream() {
    let mut fused = vec![1, 2, 3].into_fusion().fuse();
    fused.done = true;
    for _ in 0..5 {
        assert!(matches!(fused.poll_next(), Step::Done));
    }
    assert_eq!(fused.stream.size_hint(), (3, Some(3)));
    assert!(matches!(fused.stream.poll_next(), Step::Ready(1)));
}

#[test]
fn chain_polls_the_second_only_after_the_first_is_done() {
    let mut s = vec![1, 2].into_fusion().chain(vec![3].into_fusion());
    assert_eq!(s.size_hint(), (0, None));
    assert!(matches!(s.poll_next(), Step::Ready(1)));
    assert!(matches!(s.poll_next(), Step::Ready(2)));
    assert!(!s.first.done);
    assert_eq!(s.second.stream.size_hint(), (1, Some(1)));
    assert!(matches!(s.poll_next(), Step::Ready(3)));
    assert!(s.first.done);
    assert!(!s.second.done);
    assert!(matches!(s.poll_next(), Step::Done));
    assert!(s.second.done);
    assert!(matches!(s.poll_next(), Step::Done));
    assert_eq!(
        drain(vec![1, 2].into_fusion().chain(vec![3, 4].into_fusion())),
        vec![1, 2, 3, 4]
    );
    assert_eq!(
        drain(Vec::<i32>::new().into_fusion().chain(vec![5].into_fusion())),
        vec![5]
    );
    assert_eq!(
        drain(Vec::<i32>::new().into_fusion().chain(Vec::<i32>::new().into_fusion())),
        Vec::<i32>::new()
    );
}

#[test]
fn flatten_drains_each_inner_cursor_before_the_next() {
    let inner = vec![
        vec![1, 2].into_fusion(),
        Vec::new().into_fusion(),
        vec![3].into_fusion(),
        Vec::new().into_fusion(),
    ];
    let s = inner.into_fusion().flatten();
    assert_eq!(s.size_hint(), (0, None));
    assert_eq!(drain(s), vec![1, 2, 3]);
    let none: Vec<IteratorStream<i32>> = Vec::new();
    assert_eq!(drain(none.into_fusion().flatten()), Vec::<i32>::new());
}

#[test]
fn flat_map_yields_the_items_of_each_cursor() {
    let s = vec![1, 2, 3].into_fusion().flat_map(|n| vec![n; n as usize].into_fusion());
    assert_eq!(drain(s), vec![1, 2, 2, 3, 3, 3]);
    let mut s = vec![2].into_fusion().flat_map(|n| vec![n, n + 1].into_fusion());
    assert!(matches!(s.poll_next(), Step::NotYet));
    assert!(matches!(s.poll_next(), Step::Ready(2)));
    assert!(matches!(s.poll_next(), Step::Ready(3)));
    assert!(matches!(s.poll_next(), Step::Done));
    assert!(s.inner_stream.is_none());
}

#[test]
fn cloned_and_copied_yield_owned_items() {
    let words = vec![String::from("a"), String::from("b")];
    let s = words[..].into_fusion().cloned();
    assert_eq!(drain(s), vec![String::from("a"), String::from("b")]);
    let numbers = [4u8, 5, 6];
    assert_eq!(drain(numbers[..].into_fusion().copied()), vec![4, 5, 6]);
    let s = numbers[..].into_fusion();
    assert_eq!(s.size_hint(), (3, Some(3)));
    assert_eq!(drain(s), vec![&4, &5, &6]);
}

#[test]
fn next_and_try_next_advance_the_borrowed_cursor() {
    let mut s = vec![1, 2].into_fusion();
    assert!(matches!(s.next().poll(), Step::Ready(1)));
    assert!(matches!(s.next().poll(), Step::Ready(2)));
    assert!(matches!(s.next().poll(), Step::Done));
    let mut s = vec![Ok(1), Ok(2), Err("error")].into_fusion();
    assert!(matches!(s.try_next().poll(), Ok(Step::Ready(1))));
    assert!(matches!(s.try_next().poll(), Ok(Step::Ready(2))));
    assert!(matches!(s.try_next().poll(), Err("error")));
    assert!(matches!(s.try_next().poll(), Ok(Step::Done)));
}

#[test]
fn map_async_keeps_one_computation_in_flight() {
    let mut s = vec![1, 2].into_fusion().map_async(|i| i * 100);
    assert_eq!(s.size_hint(), (2, Some(2)));
    assert_eq!(s.poll_next(), Flight::Await);
    assert_eq!(s.stream.size_hint(), (1, Some(1)));
    assert_eq!(s.future, Some(100));
    assert_eq!(s.size_hint(), (2, Some(2)));
    // while the computation is in flight the upstream is left alone
    assert_eq!(s.poll_next(), Flight::Await);
    assert_eq!(s.poll_next(), Flight::Await);
    assert_eq!(s.stream.size_hint(), (1, Some(1)));
    assert_eq!(s.future, Some(100));
    let started = s.future.unwrap();
    assert!(matches!(s.resolve(started + 1), Step::Ready(101)));
    assert!(s.future.is_none());
    assert_eq!(s.poll_next(), Flight::Await);
    assert_eq!(s.future, Some(200));
    assert!(matches!(s.resolve("done"), Step::Ready("done")));
    assert_eq!(s.poll_next(), Flight::Done);
    assert_eq!(s.size_hint(), (0, Some(0)));
    let mut s = vec![0, 1].into_fusion().filter(|i| *i > 0).map_async(|i| i);
    assert_eq!(s.size_hint(), (0, Some(2)));
    assert_eq!(s.poll_next(), Flight::NotYet);
    assert!(s.future.is_none());
    assert_eq!(s.poll_next(), Flight::Await);
    assert_eq!(s.size_hint(), (1, Some(1)));
}

#[test]
fn step_algebra() {
    assert!(matches!(Step::Ready(2).map(|x| x + 1), Step::Ready(3)));
    assert!(matches!(Step::<i32>::NotYet.map(|x| x + 1), Step::NotYet));
    assert!(matches!(Step::<i32>::Done.map(|x| x + 1), Step::Done));
    assert!(matches!(Step::Ready(2).and_then(|x| Step::Ready(x * 2)), Step::Ready(4)));
    assert!(matches!(Step::Ready(2).and_then(|_| Step::<i32>::Done), Step::Done));
    assert!(matches!(Step::Ready(2).and_then(|_| Step::<i32>::NotYet), Step::NotYet));
    assert!(matches!(Step::<i32>::NotYet.and_then(|x| Step::Ready(x)), Step::NotYet));
    assert!(matches!(Step::<i32>::Done.and_then(|x| Step::Ready(x)), Step::Done));
    let s = Step::Ready(5);
    assert!(matches!(s.as_ref(), Step::Ready(&5)));
    assert!(matches!(Step::<i32>::Done.as_ref(), Step::Done));
    assert!(matches!(Step::<i32>::NotYet.as_ref(), Step::NotYet));
    let mut s = Step::Ready(5);
    if let Step::Ready(x) = s.as_mut() {
        *x = 6;
    }
    assert!(matches!(s, Step::Ready(6)));
    assert!(matches!(Step::<i32>::Done.as_mut(), Step::Done));
    assert!(matches!(Step::<i32>::NotYet.as_mut(), Step::NotYet));
    let ok: Step<Result<i32, &str>> = Step::Ready(Ok(1));
    assert!(matches!(ok.transpose(), Ok(Step::Ready(1))));
    let bad: Step<Result<i32, &str>> = Step::Ready(Err("x"));
    assert!(matches!(bad.transpose(), Err("x")));
    let wait: Step<Result<i32, &str>> = Step::NotYet;
    assert!(matches!(wait.transpose(), Ok(Step::NotYet)));
    let done: Step<Result<i32, &str>> = Step::Done;
    assert!(matches!(done.transpose(), Ok(Step::Done)));
    let v = 9;
    assert!(matches!(Step::Ready(&v).copied(), Step::Ready(9)));
    assert!(matches!(Step::Ready(&v).cloned(), Step::Ready(9)));
    assert!(matches!(Step::<&i32>::Done.cloned(), Step::Done));
    assert!(matches!(Step::<&i32>::NotYet.copied(), Step::NotYet));
}
