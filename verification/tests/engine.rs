use stream_fusion::error::{ConfigError, ExecutionError};
use stream_fusion::execution::engine::{Action, Engine, Phase};
use stream_fusion::execution::TaskStream;
use stream_fusion::step::Step;
use stream_fusion::stream::Stream;

#[test]
fn engine_rejects_zero_workers() {
    assert!(matches!(Engine::<i32>::new(0), Err(ConfigError::ZeroWorkerCount)));
    assert_eq!(
        ConfigError::ZeroWorkerCount.message(),
        "`worker_count` must be greater than zero"
    );
    assert_eq!(
        ConfigError::ZeroMorselCapacity.message(),
        "`morsel_capacity` must be greater than zero"
    );
    assert_eq!(
        ExecutionError::Config(ConfigError::ZeroWorkerCount).message(),
        "`worker_count` must be greater than zero"
    );
    assert_eq!(ExecutionError::WorkerFailed.message(), "a worker failed");
}

#[test]
fn engine_spawns_drains_and_merges() {
    let mut engine: Engine<i32> = Engine::new(2).unwrap();
    assert_eq!(engine.current_phase(), Phase::Spawning);
    assert_eq!(engine.next_action(), Action::Spawn);
    engine.spawned();
    assert_eq!(engine.next_action(), Action::Spawn);
    engine.spawned();
    // as many workers are active as allowed
    assert_eq!(engine.current_phase(), Phase::Draining);
    assert_eq!(engine.next_action(), Action::Await);
    engine.completed(20);
    // a slot is free and the source may have more
    assert_eq!(engine.next_action(), Action::Spawn);
    engine.spawned();
    assert_eq!(engine.next_action(), Action::Await);
    engine.completed(10);
    assert_eq!(engine.next_action(), Action::Spawn);
    engine.source_exhausted();
    assert_eq!(engine.current_phase(), Phase::Draining);
    assert_eq!(engine.next_action(), Action::Await);
    engine.completed(30);
    assert_eq!(engine.current_phase(), Phase::Merging);
    assert_eq!(engine.next_action(), Action::Merge);
    let mut results = engine.take_results().unwrap();
    assert_eq!(engine.current_phase(), Phase::Done);
    assert_eq!(engine.next_action(), Action::Stop);
    // the results are in the order of arrival
    assert!(matches!(results.poll_next(), Step::Ready(20)));
    assert!(matches!(results.poll_next(), Step::Ready(10)));
    assert!(matches!(results.poll_next(), Step::Ready(30)));
    assert!(matches!(results.poll_next(), Step::Done));
}

#[test]
fn engine_with_an_empty_source_merges_nothing() {
    let mut engine: Engine<i32> = Engine::new(4).unwrap();
    assert_eq!(engine.next_action(), Action::Spawn);
    engine.source_exhausted();
    assert_eq!(engine.next_action(), Action::Merge);
    let mut results = engine.take_results().unwrap();
    assert_eq!(results.size_hint(), (0, Some(0)));
    assert!(matches!(results.poll_next(), Step::Done));
}

#[test]
fn a_failed_worker_fails_the_execution_and_discards_the_results() {
    let mut engine: Engine<i32> = Engine::new(3).unwrap();
    engine.spawned();
    engine.spawned();
    engine.spawned();
    engine.completed(1);
    assert_eq!(engine.arrived, vec![1]);
    engine.worker_failed();
    assert_eq!(engine.current_phase(), Phase::Done);
    assert_eq!(engine.next_action(), Action::Stop);
    assert!(engine.arrived.is_empty());
    // a worker that completes after the failure adds nothing
    engine.completed(2);
    assert!(engine.arrived.is_empty());
    assert_eq!(engine.next_action(), Action::Stop);
    assert!(matches!(engine.take_results(), Err(ExecutionError::WorkerFailed)));
}

#[test]
fn task_stream_yields_results_in_order_of_arrival() {
    let mut tasks = TaskStream::new(vec!["b", "a", "c"]);
    assert_eq!(tasks.size_hint(), (3, Some(3)));
    assert!(matches!(tasks.poll_next(), Step::Ready("b")));
    assert!(matches!(tasks.poll_next(), Step::Ready("a")));
    assert_eq!(tasks.size_hint(), (1, Some(1)));
    assert!(matches!(tasks.poll_next(), Step::Ready("c")));
    assert!(matches!(tasks.poll_next(), Step::Done));
    assert!(matches!(tasks.poll_next(), Step::Done));
}
