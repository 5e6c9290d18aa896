use stream_fusion::consumer::{Consumer, ConsumerExt};
use stream_fusion::error::ConfigError;
use stream_fusion::execution::ConsumeFuture;
use stream_fusion::step::Step;
use stream_fusion::stream::ext::StreamExt;
use stream_fusion::stream::{IntoFusion, Stream};

fn finish<C: Consumer>(mut sink: C) -> (C::Output, usize) {
    let mut polls = 0;
    loop {
        polls += 1;
        if let Some(out) = sink.poll_consume() {
            return (out, polls);
        }
    }
}

#[test]
fn fold_accumulates_from_the_seed() {
    let sink = vec![1, 2, 3].into_fusion().fold(10, |acc, x| acc * 2 + x);
    assert_eq!(sink.size_hint(), (0, None));
    assert_eq!(finish(sink), (((10 * 2 + 1) * 2 + 2) * 2 + 3, 4));
    let sink = Vec::<i32>::new().into_fusion().fold(10, |acc, x| acc + x);
    assert_eq!(finish(sink), (10, 1));
}

#[test]
fn fold_is_not_commutative_aware() {
    let sink = vec!["a", "b", "c"].into_fusion().fold(String::new(), |acc, x| acc + x);
    assert_eq!(finish(sink).0, "abc");
}

#[test]
fn count_counts() {
    let sink = vec![1, 2, 3].into_fusion().filter(|i| *i != 2).count();
    assert_eq!(sink.size_hint(), (0, Some(3)));
    assert_eq!(finish(sink), (2, 4));
    assert_eq!(finish(Vec::<i32>::new().into_fusion().count()).0, 0);
}

#[test]
fn collect_gathers_in_order() {
    let sink = vec![3, 1, 2].into_fusion().collect();
    assert_eq!(sink.size_hint(), (3, Some(3)));
    assert_eq!(finish(sink).0, vec![3, 1, 2]);
    assert_eq!(finish(Vec::<i32>::new().into_fusion().collect()).0, Vec::<i32>::new());
}

#[test]
fn try_collect_short_circuits_on_the_first_failure() {
    let items: Vec<Result<i32, &str>> = vec![Ok(1), Ok(2), Err("x"), Ok(3)];
    let mut sink = items.into_fusion().try_collect();
    assert_eq!(sink.size_hint(), (4, Some(4)));
    assert!(sink.poll_consume().is_none());
    assert!(sink.poll_consume().is_none());
    assert_eq!(sink.poll_consume(), Some(Err(("x", vec![1, 2]))));
    // the item behind the failure has not been taken
    assert!(matches!(sink.stream.poll_next(), Step::Ready(Ok(3))));
    assert!(matches!(sink.stream.poll_next(), Step::Done));
}

#[test]
fn try_collect_gathers_everything_without_a_failure() {
    let items: Vec<Result<i32, &str>> = vec![Ok(1), Ok(2)];
    assert_eq!(finish(items.into_fusion().try_collect()).0, Ok(vec![1, 2]));
    let items: Vec<Result<i32, &str>> = vec![Err("first"), Err("second")];
    assert_eq!(finish(items.into_fusion().try_collect()), (Err(("first", vec![])), 1));
    let items: Vec<Result<i32, &str>> = vec![];
    assert_eq!(finish(items.into_fusion().try_collect()).0, Ok(vec![]));
}

#[test]
fn partition_splits_by_the_predicate() {
    let sink = vec![1, 2, 3, 4, 5].into_fusion().partition(|i| i % 2 == 1);
    assert_eq!(sink.size_hint(), (5, Some(5)));
    assert_eq!(finish(sink).0, (vec![1, 3, 5], vec![2, 4]));
    let sink = Vec::<i32>::new().into_fusion().partition(|i| *i > 0);
    assert_eq!(finish(sink).0, (vec![], vec![]));
}

#[test]
fn reduce_seeds_with_the_first_item() {
    let sink = StreamExt::reduce(vec![8, 2, 1].into_fusion(), |a, b| a - b);
    assert_eq!(finish(sink), (Some(5), 4));
    let sink = StreamExt::reduce(vec![8].into_fusion(), |a, b| a - b);
    assert_eq!(finish(sink).0, Some(8));
}

#[test]
fn reduce_of_an_empty_source_is_absent() {
    let sink = StreamExt::reduce(Vec::<i32>::new().into_fusion(), |a, b| a + b);
    assert_eq!(finish(sink), (None, 1));
    let sink = StreamExt::reduce(vec![1, 2, 3].into_fusion().filter(|i| *i > 5), |a, b| a + b);
    assert_eq!(finish(sink).0, None);
    let out = StreamExt::reduce(Vec::<i32>::new().into_fusion(), |a, b| a + b)
        .yield_by(3)
        .drive();
    assert_eq!(out, None);
}

#[test]
fn reduce_take_gives_what_has_accumulated() {
    let mut sink = StreamExt::reduce(vec![1, 2, 3].into_fusion(), |a, b| a + b);
    assert!(sink.poll_consume().is_none());
    assert!(sink.poll_consume().is_none());
    assert_eq!(sink.take(), Some(3));
}

#[test]
fn a_worker_rejects_an_interval_of_zero() {
    let sink = vec![1].into_fusion().count();
    assert!(matches!(ConsumeFuture::new(sink, 0), Err(ConfigError::ZeroYieldInterval)));
    assert_eq!(
        ConfigError::ZeroYieldInterval.message(),
        "`yield_every` must be greater than zero"
    );
}

#[test]
fn yield_by_holds_the_sink_with_its_counter_at_zero() {
    let mut sink = vec![1, 2].into_fusion().count();
    assert!(sink.poll_consume().is_none());
    let wrapped = sink.yield_by(7);
    assert_eq!(wrapped.n, 0);
    assert_eq!(wrapped.step, 7);
    assert_eq!(wrapped.consumer.count, 1);
}

#[test]
fn yield_by_yields_after_every_step_polls() {
    // 10 items: 10 polls give nothing, the 11th ends the sink.
    let items: Vec<i32> = (0..10).collect();
    let mut sink = items.clone().into_fusion().count().yield_by(4);
    assert_eq!(sink.poll(), None);
    assert_eq!(sink.n, 0);
    assert_eq!(sink.consumer.count, 4);
    assert_eq!(sink.poll(), None);
    assert_eq!(sink.consumer.count, 8);
    assert_eq!(sink.poll(), Some(10));
    for (step, yields) in [(4usize, 2usize), (1, 10), (11, 0), (10, 1)] {
        let mut sink = items.clone().into_fusion().count().yield_by(step);
        let mut seen = 0;
        let out = loop {
            match sink.poll() {
                Some(out) => break out,
                None => seen += 1,
            }
        };
        assert_eq!((out, seen), (10, yields));
        assert_eq!(items.clone().into_fusion().count().yield_by(step).drive(), 10);
    }
}

#[test]
fn worker_turns_are_bounded_by_the_interval() {
    let items: Vec<i32> = (0..7).collect();
    let mut worker = ConsumeFuture::new(items.into_fusion().collect(), 3).unwrap();
    assert_eq!(worker.poll(), None);
    assert_eq!(worker.steps, 0);
    assert_eq!(worker.consumer.collection, vec![0, 1, 2]);
    assert_eq!(worker.poll(), None);
    assert_eq!(worker.consumer.collection, vec![0, 1, 2, 3, 4, 5]);
    assert_eq!(worker.poll(), Some(vec![0, 1, 2, 3, 4, 5, 6]));
}

#[test]
fn the_result_does_not_depend_on_the_interval() {
    for step in 1..20 {
        let source: Vec<i32> = (0..100).collect();
        let out = source
            .into_fusion()
            .skip(3)
            .step_by(3)
            .map(|i| i * 2)
            .filter(|i| i % 4 == 0)
            .take(9)
            .fold(0, |a, b| a + b)
            .yield_by(step)
            .drive();
        let expect: i32 = (0..100)
            .skip(3)
            .step_by(3)
            .map(|i| i * 2)
            .filter(|i| i % 4 == 0)
            .take(9)
            .sum();
        assert_eq!(out, expect);
    }
}
