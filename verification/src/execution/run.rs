use vstd::prelude::*;
use vstd::multiset::Multiset;
use std::collections::VecDeque;
use crate::consumer::Consumer;
use crate::error::{ConfigError, ExecutionError};
use crate::execution::ConsumeFuture;
use crate::execution::engine::{Action, Engine, Phase};
use crate::flat::consumer::FlatConsumer;
use crate::stream::Stream;

verus! {

/// A bound on the number of polls that the workers in `workers` make
/// before each of them has ended.
pub open spec fn workload<C: Consumer>(workers: Seq<ConsumeFuture<C>>) -> nat
    decreases workers.len(),
{
    if workers.len() == 0 {
        0
    } else {
        workload(workers.drop_last()) + workers.last().consumer.budget() + 1
    }
}

proof fn lemma_workload_first<C: Consumer>(workers: Seq<ConsumeFuture<C>>)
    requires
        workers.len() > 0,
    ensures
        workload(workers) == workload(workers.subrange(1, workers.len() as int))
            + workers[0].consumer.budget() + 1,
    decreases workers.len(),
{
    let rest = workers.subrange(1, workers.len() as int);
    if workers.len() == 1 {
        assert(workers.drop_last() =~= Seq::<ConsumeFuture<C>>::empty());
        assert(workload(workers.drop_last()) == 0);
        assert(rest =~= Seq::<ConsumeFuture<C>>::empty());
    } else {
        lemma_workload_first(workers.drop_last());
        assert(workers.drop_last().subrange(1, workers.len() - 1) =~= rest.drop_last());
        assert(rest.last() == workers.last());
        assert(workers.drop_last()[0] == workers[0]);
    }
}

/// Each worker in `workers` is at the start of a turn of `step_by` polls.
pub open spec fn waiting<C: Consumer>(workers: Seq<ConsumeFuture<C>>, step_by: usize) -> bool {
    forall|i: int|
        0 <= i < workers.len() ==> {
            &&& (#[trigger] workers[i]).wf()
            &&& workers[i].steps == 0
            &&& workers[i].step_by == step_by
        }
}

/// Each worker in `workers` drives an unshared sink and owes the result at
/// its place in `owed`.
pub open spec fn owes<C: Consumer>(workers: Seq<ConsumeFuture<C>>, owed: Seq<C::Output>) -> bool {
    &&& workers.len() == owed.len()
    &&& forall|i: int|
        0 <= i < workers.len() ==> {
            &&& (#[trigger] workers[i]).consumer.unshared()
            &&& forall|out: C::Output| #[trigger]
                workers[i].consumer.ends_with(out) ==> out == owed[i]
        }
}

/// `out` is what merging the results of all the units of `sink` gives, in
/// one of the orders in which they can arrive.
pub open spec fn merges_all<C: FlatConsumer>(sink: C, out: C::Return) -> bool {
    exists|arrived: Seq<C::Return>|
        #![trigger sink.merges_to(arrived, out)]
        arrived.to_multiset() == sink.partials().to_multiset() && sink.merges_to(arrived, out)
}

/// The results of `sink` can be merged in whatever order they arrive: in
/// every order of the results of its units where the work is laid out
/// ahead, and whatever they are where it is not.
pub open spec fn merges_any<C: FlatConsumer>(sink: C) -> bool {
    forall|arrived: Seq<C::Return>|
        #![trigger sink.can_merge(arrived)]
        (sink.flat_unshared() ==> arrived.to_multiset() == sink.partials().to_multiset())
            ==> sink.can_merge(arrived)
}

/// An execution in progress: the handle that resolves to the merged value.
///
/// The workers are cooperative and run on the thread that polls the
/// handle. Each poll of the handle is one step of the schedule: it spawns
/// the next worker, or gives the worker at the head of the queue one turn,
/// or merges. A worker that yields goes to the back of the queue, and what
/// the workers end with is merged in the order they complete.
pub struct Executor<C: FlatConsumer> {
    sink: Option<C>,
    engine: Engine<C::Return>,
    running: VecDeque<ConsumeFuture<C::Consumer>>,
    step_by: usize,
    merge: Option<C::Merge>,
    origin: Ghost<C>,
    owed: Ghost<Seq<C::Return>>,
    arrived: Ghost<Seq<C::Return>>,
}

impl<C: FlatConsumer> Executor<C> {
    /// The sink that is being executed, as it was handed over.
    pub closed spec fn origin(&self) -> C {
        self.origin@
    }

    /// The handle may be polled.
    pub closed spec fn wf(&self) -> bool {
        &&& 0 < self.step_by
        &&& self.engine.wf()
        &&& !self.engine.failed
        &&& match self.merge {
            None => {
                &&& self.sink is Some
                &&& !self.engine.finished
                &&& self.engine.active == self.running@.len()
                &&& self.sink->0.flat_wf()
                &&& waiting(self.running@, self.step_by)
                &&& merges_any(self.origin@)
                &&& forall|arrived: Seq<C::Return>| #[trigger]
                    self.origin@.can_merge(arrived) ==> self.sink->0.can_merge(arrived)
                &&& forall|arrived: Seq<C::Return>, out: C::Return| #[trigger]
                    self.sink->0.merges_to(arrived, out) ==> self.origin@.merges_to(arrived, out)
                &&& self.origin@.flat_unshared() ==> {
                    &&& self.sink->0.flat_unshared()
                    &&& self.engine.exhausted ==> self.sink->0.partials().len() == 0
                    &&& owes(self.running@, self.owed@)
                    &&& self.engine.arrived@.to_multiset().add(self.owed@.to_multiset()).add(
                        self.sink->0.partials().to_multiset(),
                    ) =~= self.origin@.partials().to_multiset()
                }
            },
            Some(merge) => {
                &&& merge.wf()
                &&& merge.unshared()
                &&& self.origin@.flat_unshared() ==> {
                    &&& self.arrived@.to_multiset() == self.origin@.partials().to_multiset()
                    &&& forall|out: C::Return| #[trigger]
                        merge.ends_with(out) ==> self.origin@.merges_to(self.arrived@, out)
                }
            },
        }
    }

    /// A bound on the number of units of work that are still to be handed
    /// out, and zero once the merge has begun.
    pub closed spec fn units_rank(&self) -> nat {
        match self.merge {
            None => 1 + self.sink->0.partials().len() + if self.engine.exhausted {
                0nat
            } else {
                1nat
            },
            Some(_) => 0,
        }
    }

    /// A bound on the number of polls that the running workers still make.
    pub closed spec fn work_rank(&self) -> nat {
        workload(self.running@)
    }

    /// A bound on the number of polls that the merge still takes.
    pub closed spec fn merge_rank(&self) -> nat {
        match self.merge {
            None => 0,
            Some(merge) => merge.budget(),
        }
    }

    /// The poll has brought the execution closer to its end.
    pub open spec fn closer(&self, before: &Self) -> bool {
        ||| self.units_rank() < before.units_rank()
        ||| self.units_rank() == before.units_rank() && self.work_rank() < before.work_rank()
        ||| self.units_rank() == before.units_rank() && self.work_rank() == before.work_rank()
            && self.merge_rank() < before.merge_rank()
    }

    /// Starts the execution of `sink` on `n` workers at a time, each
    /// yielding after every `step_by` polls that did not end it.
    fn start(sink: C, n: usize, step_by: usize) -> (r: Result<Self, ConfigError>)
        ensures
            match r {
                Ok(handle) => {
                    &&& n > 0
                    &&& step_by > 0
                    &&& handle.origin() == sink
                    &&& sink.flat_wf() && merges_any(sink) ==> handle.wf()
                },
                Err(e) => if n == 0 {
                    e == ConfigError::ZeroWorkerCount
                } else {
                    step_by == 0 && e == ConfigError::ZeroYieldInterval
                },
            },
    {
        let engine: Engine<C::Return> = match Engine::new(n) {
            Ok(engine) => engine,
            Err(e) => {
                return Err(e);
            },
        };
        if step_by == 0 {
            return Err(ConfigError::ZeroYieldInterval);
        }
        proof {
            vstd::seq_lib::to_multiset_len(Seq::<C::Return>::empty());
            assert(Seq::<C::Return>::empty().to_multiset() =~= Multiset::<C::Return>::empty());
        }
        Ok(
            Executor {
                sink: Some(sink),
                engine,
                running: VecDeque::new(),
                step_by,
                merge: None,
                origin: Ghost(sink),
                owed: Ghost(Seq::empty()),
                arrived: Ghost(Seq::empty()),
            },
        )
    }

    /// Takes one step of the schedule. It gives the merged value when the
    /// execution has ended, and nothing before.
    pub fn poll(&mut self) -> (r: Option<C::Return>)
        requires
            old(self).wf(),
        ensures
            match r {
                Some(out) => old(self).origin().flat_unshared() ==> merges_all(
                    old(self).origin(),
                    out,
                ),
                None => {
                    &&& final(self).wf()
                    &&& final(self).origin() == old(self).origin()
                    &&& old(self).origin().flat_unshared() ==> final(self).closer(old(self))
                },
            },
    {
        broadcast use vstd::seq_lib::group_to_multiset_ensures;

        if self.merge.is_some() {
            let ended = match &mut self.merge {
                Some(merge) => merge.poll_consume(),
                None => None,
            };
            proof {
                if ended is Some && self.origin@.flat_unshared() {
                    assert(self.origin@.merges_to(self.arrived@, ended->0));
                }
            }
            return ended;
        }
        let ghost waiting_units = self.sink->0.partials();
        match self.engine.next_action() {
            Action::Spawn => {
                let spawned = match &mut self.sink {
                    Some(sink) => sink.poll_next(),
                    None => None,
                };
                match spawned {
                    Some(consumer) => {
                        let worker = ConsumeFuture { consumer, step_by: self.step_by, steps: 0 };
                        proof {
                            assert(self.running@.push(worker).drop_last() =~= self.running@);
                            if self.origin@.flat_unshared() {
                                assert(waiting_units.remove(0) =~= waiting_units.skip(1));
                                assert(waiting_units.to_multiset() =~= waiting_units.skip(
                                    1,
                                ).to_multiset().insert(waiting_units[0]));
                                assert(self.owed@.push(waiting_units[0]).to_multiset()
                                    =~= self.owed@.to_multiset().insert(waiting_units[0]));
                                self.owed@ = self.owed@.push(waiting_units[0]);
                            }
                        }
                        self.running.push_back(worker);
                        self.engine.spawned();
                    },
                    None => {
                        self.engine.source_exhausted();
                    },
                }
            },
            Action::Await => {
                let ghost queue = self.running@;
                let ghost due = if self.owed@.len() > 0 {
                    self.owed@[0]
                } else {
                    arbitrary()
                };
                proof {
                    lemma_workload_first(queue);
                    if self.origin@.flat_unshared() {
                        assert(self.owed@.remove(0) =~= self.owed@.skip(1));
                        assert(self.owed@.to_multiset() =~= self.owed@.skip(
                            1,
                        ).to_multiset().insert(due));
                    }
                }
                let mut worker = self.running.pop_front().unwrap();
                assert(worker == queue[0]);
                let ghost rest = queue.subrange(1, queue.len() as int);
                assert forall|i: int| 0 <= i < rest.len() implies {
                    &&& (#[trigger] rest[i]).wf()
                    &&& rest[i].steps == 0
                    &&& rest[i].step_by == self.step_by
                } by {
                    assert(rest[i] == queue[i + 1]);
                }
                match worker.poll() {
                    Some(partial) => {
                        proof {
                            if self.origin@.flat_unshared() {
                                assert(partial == due);
                                assert(self.engine.arrived@.push(due).to_multiset()
                                    =~= self.engine.arrived@.to_multiset().insert(due));
                                self.owed@ = self.owed@.skip(1);
                                assert forall|i: int| 0 <= i < rest.len() implies {
                                    &&& (#[trigger] rest[i]).consumer.unshared()
                                    &&& forall|out: C::Return| #[trigger]
                                        rest[i].consumer.ends_with(out) ==> out == self.owed@[i]
                                } by {
                                    assert(rest[i] == queue[i + 1]);
                                }
                            }
                        }
                        self.engine.completed(partial);
                    },
                    None => {
                        proof {
                            let next = rest.push(worker);
                            assert(next.drop_last() =~= rest);
                            assert forall|i: int| 0 <= i < next.len() implies {
                                &&& (#[trigger] next[i]).wf()
                                &&& next[i].steps == 0
                                &&& next[i].step_by == self.step_by
                            } by {
                                if i < rest.len() {
                                    assert(next[i] == rest[i]);
                                }
                            }
                            if self.origin@.flat_unshared() {
                                assert(self.owed@.skip(1).push(due).to_multiset()
                                    =~= self.owed@.skip(1).to_multiset().insert(due));
                                self.owed@ = self.owed@.skip(1).push(due);
                                assert forall|i: int| 0 <= i < next.len() implies {
                                    &&& (#[trigger] next[i]).consumer.unshared()
                                    &&& forall|out: C::Return| #[trigger]
                                        next[i].consumer.ends_with(out) ==> out == self.owed@[i]
                                } by {
                                    if i < rest.len() {
                                        assert(next[i] == queue[i + 1]);
                                    }
                                }
                            }
                        }
                        self.running.push_back(worker);
                    },
                }
            },
            _ => {
                proof {
                    if self.origin@.flat_unshared() {
                        assert(self.owed@ =~= Seq::<C::Return>::empty());
                        assert(self.sink->0.partials() =~= Seq::<C::Return>::empty());
                        assert(Seq::<C::Return>::empty().to_multiset().len() == 0);
                        assert(Seq::<C::Return>::empty().to_multiset() =~= Multiset::<
                            C::Return,
                        >::empty());
                        assert(self.engine.arrived@.to_multiset() =~= self.origin@.partials().to_multiset());
                    }
                }
                match self.engine.take_results() {
                    Ok(results) => {
                        let ghost arrived = results.remaining();
                        assert(self.origin@.can_merge(arrived));
                        let sink = self.sink.take().unwrap();
                        let merge = sink.merge(results);
                        proof {
                            self.arrived@ = arrived;
                        }
                        self.merge = Some(merge);
                    },
                    Err(_) => {},
                }
            },
        }
        None
    }

    /// Polls the handle until the execution has ended, and gives the merged
    /// value. The work is laid out ahead: then the execution is known to
    /// end.
    pub fn resolve(self) -> (r: C::Return)
        requires
            self.wf(),
            self.origin().flat_unshared(),
        ensures
            merges_all(self.origin(), r),
    {
        let mut this = self;
        loop
            invariant
                this.wf(),
                this.origin() == self.origin(),
                self.origin().flat_unshared(),
            decreases this.units_rank(), this.work_rank(), this.merge_rank(),
        {
            match this.poll() {
                Some(out) => {
                    return out;
                },
                None => {},
            }
        }
    }
}

/// Running a sink for several workers to its end.
pub trait Execution: FlatConsumer {
    /// Starts the execution of the sink on `n` cooperative workers at a
    /// time. Each worker drives the sink for one unit of work and yields
    /// after every `step_by` polls that did not end it. No work is done
    /// before the handle is polled.
    ///
    /// A count of zero workers and a yield interval of zero are refused.
    /// The handle may be polled where the sink may be asked for workers and
    /// its results can be merged in whatever order they arrive.
    fn execute(self, n: usize, step_by: usize) -> (r: Result<Executor<Self>, ExecutionError>)
        ensures
            match r {
                Ok(handle) => {
                    &&& n > 0
                    &&& step_by > 0
                    &&& handle.origin() == self
                    &&& self.flat_wf() && merges_any(self) ==> handle.wf()
                },
                Err(e) => if n == 0 {
                    e == ExecutionError::Config(ConfigError::ZeroWorkerCount)
                } else {
                    step_by == 0 && e == ExecutionError::Config(ConfigError::ZeroYieldInterval)
                },
            },
    {
        match Executor::start(self, n, step_by) {
            Ok(handle) => Ok(handle),
            Err(e) => Err(ExecutionError::Config(e)),
        }
    }
}

impl<C: FlatConsumer> Execution for C {

}

} // verus!
