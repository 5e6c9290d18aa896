use stream_fusion::consumer::Consumer;
use stream_fusion::error::{ConfigError, ExecutionError};
use stream_fusion::execution::run::Execution;
use stream_fusion::execution::ConsumeFuture;
use stream_fusion::flat::consumer::{FlatConsumer, FlatConsumerExt};
use stream_fusion::flat::stream::FlatStream;
use stream_fusion::morsel::MorselSource;
use stream_fusion::step::Step;
use stream_fusion::stream::{IntoFusion, Stream};
use stream_fusion::sync::StreamSync;

fn sum_static(len: u64, workers: usize, capacity: usize, step_by: usize) -> Option<u64> {
    let source: Vec<u64> = (0..len).collect();
    MorselSource::new(source.into_fusion(), capacity)
        .unwrap()
        .reduce(|a: u64, b: u64| a + b)
        .execute(workers, step_by)
        .ok()
        .unwrap()
        .resolve()
}

#[test]
fn parallel_sum_is_the_same_for_1_4_8_workers() {
    for workers in [1usize, 4, 8] {
        for capacity in [1usize, 7, 64, 512, 4096, 10000] {
            assert_eq!(sum_static(4096, workers, capacity, 32), Some(8386560));
        }
    }
}

#[test]
fn parallel_xor_and_max_are_the_same_for_1_4_8_workers() {
    let source: Vec<u64> = (0..4096).map(|i| i * 2654435761 % 1000003).collect();
    let xor = source.iter().fold(0u64, |a, b| a ^ b);
    let max = *source.iter().max().unwrap();
    for workers in [1usize, 4, 8] {
        for capacity in [3usize, 100, 5000] {
            let got = MorselSource::new(source.clone().into_fusion(), capacity)
                .unwrap()
                .reduce(|a: u64, b: u64| a ^ b)
                .execute(workers, 16)
                .ok()
                .unwrap()
                .resolve();
            assert_eq!(got, Some(xor));
            let got = MorselSource::new(source.clone().into_fusion(), capacity)
                .unwrap()
                .reduce(|a: u64, b: u64| if a >= b { a } else { b })
                .execute(workers, 16)
                .ok()
                .unwrap()
                .resolve();
            assert_eq!(got, Some(max));
        }
    }
}

#[test]
fn mapped_parallel_pipeline() {
    let source: Vec<i32> = (0..4096).collect();
    let got = MorselSource::new(source.into_fusion(), 100)
        .unwrap()
        .map(|i| i + 1)
        .map(|i| i + 1)
        .reduce(|acc, i| acc + i)
        .execute(8, 256)
        .ok()
        .unwrap()
        .resolve();
    let expect: i32 = (0..4096).map(|i| i + 1).map(|i| i + 1).sum();
    assert_eq!(got, Some(expect));
}

#[test]
fn empty_source_reduces_to_nothing_in_parallel() {
    assert_eq!(sum_static(0, 1, 16, 8), None);
    assert_eq!(sum_static(0, 4, 16, 8), None);
    assert_eq!(sum_static(0, 8, 1, 1), None);
}

#[test]
fn execute_refuses_zero_workers_and_zero_interval() {
    let make = || {
        MorselSource::new(vec![1u64, 2, 3].into_fusion(), 2)
            .unwrap()
            .reduce(|a: u64, b: u64| a + b)
    };
    assert!(matches!(
        make().execute(0, 8),
        Err(ExecutionError::Config(ConfigError::ZeroWorkerCount))
    ));
    assert!(matches!(
        make().execute(0, 0),
        Err(ExecutionError::Config(ConfigError::ZeroWorkerCount))
    ));
    assert!(matches!(
        make().execute(2, 0),
        Err(ExecutionError::Config(ConfigError::ZeroYieldInterval))
    ));
    assert_eq!(make().execute(2, 1).ok().unwrap().resolve(), Some(6));
}

#[test]
fn morsel_source_refuses_zero_capacity() {
    assert!(matches!(
        MorselSource::new(vec![1, 2, 3].into_fusion(), 0),
        Err(ConfigError::ZeroMorselCapacity)
    ));
}

#[test]
fn morsels_concatenate_to_the_source() {
    for len in [0usize, 1, 5, 16, 17, 100] {
        for capacity in [1usize, 2, 5, 16, 1000] {
            let source: Vec<usize> = (0..len).collect();
            let mut morsels = MorselSource::new(source.clone().into_fusion(), capacity).unwrap();
            let mut all = Vec::new();
            let mut count = 0;
            while let Some(mut morsel) = FlatStream::poll_next(&mut morsels) {
                assert!(morsel.len() <= capacity);
                assert!(morsel.len() > 0);
                assert_eq!(morsel.capacity(), capacity);
                count += 1;
                let mut left = morsel.len();
                while let Step::Ready(item) = morsel.poll_next() {
                    all.push(item);
                    left -= 1;
                    assert_eq!(morsel.len(), left);
                }
            }
            assert_eq!(all, source);
            assert_eq!(count, (len + capacity - 1) / capacity);
        }
    }
}

// Drives the workers of a shared cursor in turns, as a scheduler would, and
// gives what each worker saw with the merged result.
fn run_shared(len: u64, workers: usize, step_by: usize) -> (Vec<Vec<u64>>, Option<u64>) {
    let source: Vec<u64> = (0..len).collect();
    let mut factory = StreamSync::new(source.into_fusion());
    let mut handles = Vec::new();
    for _ in 0..workers {
        match FlatStream::poll_next(&mut factory) {
            Some(handle) => handles.push(handle),
            None => break,
        }
    }
    let mut seen: Vec<Vec<u64>> = handles.iter().map(|_| Vec::new()).collect();
    let mut live: Vec<bool> = handles.iter().map(|_| true).collect();
    let mut turn = 0usize;
    while live.iter().any(|l| *l) {
        let w = turn % handles.len();
        turn += 1;
        if !live[w] {
            continue;
        }
        for _ in 0..step_by {
            match Stream::poll_next(&mut handles[w]) {
                Step::Ready(item) => seen[w].push(item),
                Step::NotYet => {}
                Step::Done => {
                    live[w] = false;
                    break;
                }
            }
        }
    }
    let mut sink = stream_fusion::flat::stream::FlatStream::reduce(
        StreamSync::new(Vec::<u64>::new().into_fusion()),
        |a: u64, b: u64| a + b,
    );
    let partials: Vec<Option<u64>> = seen
        .iter()
        .map(|items| items.iter().copied().reduce(|a, b| a + b))
        .collect();
    let _ = FlatConsumer::poll_next(&mut sink);
    let mut merge = sink.merge(stream_fusion::execution::TaskStream::new(partials));
    let merged = loop {
        if let Some(out) = merge.poll_consume() {
            break out;
        }
    };
    (seen, merged)
}

#[test]
fn shared_cursor_hands_each_item_to_one_worker() {
    for workers in [1usize, 2, 3, 8] {
        for step_by in [1usize, 2, 5, 64] {
            let (seen, merged) = run_shared(200, workers, step_by);
            let mut all: Vec<u64> = seen.iter().flatten().copied().collect();
            assert_eq!(all.len(), 200);
            all.sort();
            assert_eq!(all, (0..200).collect::<Vec<u64>>());
            for items in &seen {
                assert!(items.windows(2).all(|w| w[0] < w[1]));
            }
            assert_eq!(merged, Some(19900));
        }
    }
}

#[test]
fn shared_cursor_workers_reduce_to_the_sequential_sum() {
    let source: Vec<u64> = (0..4096).collect();
    let mut sink = StreamSync::new(source.into_fusion())
        .map(|i: u64| i + 1)
        .reduce(|a: u64, b: u64| a + b);
    let mut workers = Vec::new();
    for _ in 0..8 {
        let consumer = FlatConsumer::poll_next(&mut sink).unwrap();
        workers.push(Some(ConsumeFuture::new(consumer, 256).unwrap()));
    }
    let mut partials = Vec::new();
    while partials.len() < 8 {
        for slot in workers.iter_mut() {
            if let Some(worker) = slot {
                if let Some(partial) = worker.poll() {
                    partials.push(partial);
                    *slot = None;
                }
            }
        }
    }
    assert!(FlatConsumer::poll_next(&mut sink).is_none());
    let mut merge = sink.merge(stream_fusion::execution::TaskStream::new(partials));
    let merged = loop {
        if let Some(out) = merge.poll_consume() {
            break out;
        }
    };
    assert_eq!(merged, Some((1..=4096u64).sum()));
}

#[test]
fn shared_cursor_empty_source() {
    let mut factory = StreamSync::new(Vec::<u64>::new().into_fusion());
    assert!(!factory.is_exhausted());
    let mut handle = FlatStream::poll_next(&mut factory).unwrap();
    assert!(matches!(Stream::poll_next(&mut handle), Step::Done));
    assert!(factory.is_exhausted());
    assert!(FlatStream::poll_next(&mut factory).is_none());
}

#[test]
fn merge_keeps_what_it_has_when_a_worker_had_nothing() {
    let mut sink = MorselSource::new(Vec::<u64>::new().into_fusion(), 4)
        .unwrap()
        .reduce(|a: u64, b: u64| a + b);
    assert!(FlatConsumer::poll_next(&mut sink).is_none());
    let arrived = vec![None, Some(5), None, Some(7), None];
    let mut merge = sink.merge(stream_fusion::execution::TaskStream::new(arrived));
    assert_eq!(merge.poll_consume(), Some(Some(12)));
}

#[test]
fn merge_absorbs_one_result_at_a_time() {
    let sink = MorselSource::new(Vec::<u64>::new().into_fusion(), 4)
        .unwrap()
        .reduce(|a: u64, b: u64| a * 10 + b);
    let mut merge = sink.merge(stream_fusion::execution::TaskStream::new(Vec::new()));
    assert_eq!(merge.merge, None);
    merge.absorb(None);
    assert_eq!(merge.merge, None);
    merge.absorb(Some(1));
    assert_eq!(merge.merge, Some(1));
    merge.absorb(None);
    assert_eq!(merge.merge, Some(1));
    merge.absorb(Some(2));
    assert_eq!(merge.merge, Some(12));
    assert_eq!(merge.poll_consume(), Some(Some(12)));
}

#[test]
fn merge_follows_the_order_of_arrival() {
    let source: Vec<String> = ["a", "b", "c", "d", "e"].iter().map(|s| s.to_string()).collect();
    let got = MorselSource::new(source.into_fusion(), 2)
        .unwrap()
        .reduce(|a: String, b: String| a + &b)
        .execute(1, 4)
        .ok()
        .unwrap()
        .resolve();
    assert_eq!(got, Some(String::from("abcde")));
}

#[test]
fn workers_of_a_flat_sink_come_through_its_borrow() {
    let mut sink = MorselSource::new(vec![1u64, 2, 3].into_fusion(), 2)
        .unwrap()
        .reduce(|a: u64, b: u64| a + b);
    let mut spawner = sink.as_mut();
    let mut first = spawner.poll_next().unwrap();
    let mut second = spawner.poll_next().unwrap();
    assert!(spawner.poll_next().is_none());
    assert_eq!(first.poll_consume(), None);
    assert_eq!(first.poll_consume(), None);
    assert_eq!(first.poll_consume(), Some(Some(3)));
    assert_eq!(second.poll_consume(), None);
    assert_eq!(second.poll_consume(), Some(Some(3)));
}

#[test]
fn chain() {
    let source: Vec<i32> = (0..4096).collect();
    let mut handle = StreamSync::new(source.into_fusion())
        .map(|i| i + 1)
        .map(|i| i + 1)
        .reduce(|acc, i| acc + i)
        .execute(8, 256)
        .ok()
        .unwrap();
    let sum = loop {
        if let Some(out) = handle.poll() {
            break out;
        }
    };
    println!("{:?}", sum);
    let expect: i32 = (0..4096).into_iter().map(|i| i + 1).map(|i| i + 1).sum::<i32>();
    println!("{:?}", expect);
    assert_eq!(sum, Some(expect));
}

#[test]
fn shared_cursor_execution_is_the_same_for_1_4_8_workers() {
    for workers in [1usize, 4, 8] {
        for step_by in [1usize, 3, 128] {
            let source: Vec<u64> = (0..4096).collect();
            let mut handle = StreamSync::new(source.into_fusion())
                .reduce(|a: u64, b: u64| a + b)
                .execute(workers, step_by)
                .ok()
                .unwrap();
            let mut polls = 0usize;
            let sum = loop {
                polls += 1;
                if let Some(out) = handle.poll() {
                    break out;
                }
            };
            assert_eq!(sum, Some(8386560));
            assert!(polls > workers);
        }
    }
    let mut handle = StreamSync::new(Vec::<u64>::new().into_fusion())
        .reduce(|a: u64, b: u64| a + b)
        .execute(4, 8)
        .ok()
        .unwrap();
    let out = loop {
        if let Some(out) = handle.poll() {
            break out;
        }
    };
    assert_eq!(out, None);
}

#[test]
fn execution_takes_one_step_of_the_schedule_at_a_time() {
    // three units of two items, two workers, a turn of one poll
    let source: Vec<u64> = (1..=6).collect();
    let mut handle = MorselSource::new(source.into_fusion(), 2)
        .unwrap()
        .reduce(|a: u64, b: u64| a * 10 + b)
        .execute(2, 1)
        .ok()
        .unwrap();
    let mut polls = 0;
    let out = loop {
        polls += 1;
        if let Some(out) = handle.poll() {
            break out;
        }
    };
    // the workers for [1, 2] and [3, 4] take turns and end in that order;
    // the worker for [5, 6] is spawned when the first slot is free
    assert_eq!(out, Some((12 * 10 + 34) * 10 + 56));
    // 3 spawns, 1 exhausted source, 3 workers of 3 turns each, 1 start of
    // the merge, 1 merge
    assert_eq!(polls, 3 + 1 + 9 + 1 + 1);
}

#[test]
fn a_clone_is_a_handle_to_the_same_cursor() {
    let mut a = StreamSync::new(vec![1, 2, 3].into_fusion());
    let mut b = a.clone();
    assert!(matches!(Stream::poll_next(&mut a), Step::Ready(1)));
    assert!(matches!(Stream::poll_next(&mut b), Step::Ready(2)));
    let mut c = b.clone();
    assert!(matches!(Stream::poll_next(&mut c), Step::Ready(3)));
    assert!(!a.is_exhausted());
    assert!(matches!(Stream::poll_next(&mut b), Step::Done));
    assert!(a.is_exhausted());
    assert!(matches!(Stream::poll_next(&mut a), Step::Done));
    assert!(matches!(Stream::poll_next(&mut c), Step::Done));
}

#[test]
fn a_worker_over_five_items_yields_twice_with_an_interval_of_two() {
    let sink = stream_fusion::stream::ext::StreamExt::reduce(
        vec![1, 2, 3, 4, 5].into_fusion(),
        |a, b| a + b,
    );
    let mut worker = ConsumeFuture::new(sink, 2).unwrap();
    assert_eq!(worker.poll(), None);
    assert_eq!(worker.poll(), None);
    assert_eq!(worker.poll(), Some(Some(15)));
}
