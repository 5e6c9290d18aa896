use stream_fusion::error::ConfigError;
use stream_fusion::execution::run::Execution;
use stream_fusion::flat::FlatStream;
use stream_fusion::parallel::IndexedParallelStream;
use stream_fusion::step::Step;
use stream_fusion::stream::Stream;

fn drain_parts(data: &[i32], n: usize) -> Vec<Vec<i32>> {
    let mut split = data.fusion_split(n).unwrap();
    let mut out = Vec::new();
    loop {
        let hint = split.size_hint();
        assert_eq!(hint.1, Some(hint.0));
        match split.next() {
            Some(mut part) => {
                let mut items = Vec::new();
                loop {
                    match part.poll_next() {
                        Step::Ready(x) => items.push(*x),
                        Step::NotYet => {}
                        Step::Done => break,
                    }
                }
                out.push(items);
                assert_eq!(split.size_hint().0 + 1, hint.0);
            }
            None => {
                assert_eq!(hint.0, 0);
                break;
            }
        }
    }
    out
}

#[test]
fn test() {
    let a = vec![1, 2, 3];
    let mut i = a.fusion_split(2).unwrap();
    let mut seen = Vec::new();
    loop {
        let item = i.next();
        match item {
            Some(mut item) => {
                let mut part = Vec::new();
                while let Step::Ready(x) = item.poll_next() {
                    part.push(*x);
                }
                println!("{:?}", part);
                seen.push(part);
            }
            None => break,
        }
    }
    assert_eq!(seen, vec![vec![1], vec![2, 3]]);
}

#[test]
fn split_rejects_zero_workers() {
    let a = vec![1, 2, 3];
    assert!(matches!(a.fusion_split(0), Err(ConfigError::ZeroWorkerCount)));
}

#[test]
fn split_parts_concatenate_to_the_slice() {
    let data: Vec<i32> = (0..17).collect();
    for n in 1..25 {
        let parts = drain_parts(&data, n);
        let flat: Vec<i32> = parts.iter().flatten().copied().collect();
        assert_eq!(flat, data);
        assert!(parts.iter().all(|p| !p.is_empty()));
    }
}

#[test]
fn split_exact_shapes() {
    let data: Vec<i32> = (0..5).collect();
    assert_eq!(drain_parts(&data, 2), vec![vec![0, 1], vec![2, 3, 4]]);
    assert_eq!(drain_parts(&data, 1), vec![vec![0, 1, 2, 3, 4]]);
    assert_eq!(drain_parts(&data, 5), vec![vec![0], vec![1], vec![2], vec![3, 4]]);
    assert_eq!(drain_parts(&data, 9), vec![vec![0], vec![1], vec![2], vec![3, 4]]);
    let four: Vec<i32> = (0..4).collect();
    assert_eq!(drain_parts(&four, 2), vec![vec![0, 1, 2, 3]]);
    let none: Vec<i32> = Vec::new();
    assert_eq!(drain_parts(&none, 3), Vec::<Vec<i32>>::new());
}

#[test]
fn split_parts_feed_an_execution() {
    let data: Vec<u64> = (0..1000).collect();
    for workers in [1usize, 2, 7, 8] {
        let sum = data
            .fusion_split(workers)
            .unwrap()
            .map(|x: &u64| *x)
            .reduce(|a: u64, b: u64| a + b)
            .execute(workers, 16)
            .ok()
            .unwrap()
            .resolve();
        assert_eq!(sum, Some(499500));
    }
    let none: Vec<u64> = Vec::new();
    let sum = none
        .fusion_split(3)
        .unwrap()
        .map(|x: &u64| *x)
        .reduce(|a: u64, b: u64| a + b)
        .execute(3, 16)
        .ok()
        .unwrap()
        .resolve();
    assert_eq!(sum, None);
}
