use vstd::prelude::*;
use crate::error::{ConfigError, ExecutionError};
use crate::execution::TaskStream;
use crate::stream::Stream;

verus! {

/// Where an execution stands.
#[derive(Clone, Copy, Debug, PartialEq, Eq, Structural)]
pub enum Phase {
    /// Fewer workers are active than allowed, and the source may have more
    /// work: the next worker is to be spawned.
    Spawning,
    /// As many workers are active as allowed, or the source has no more
    /// work: a completion is to be awaited.
    Draining,
    /// The source has no more work and every worker has completed: the
    /// results are to be merged.
    Merging,
    /// The results have been handed over for merging, or a worker has
    /// failed: nothing is left to do.
    Done,
}

/// What the driver of an execution is to do next.
#[derive(Clone, Copy, Debug, PartialEq, Eq, Structural)]
pub enum Action {
    /// Ask the source for a worker and start it; report `spawned`, or
    /// `source_exhausted` where the source had none.
    Spawn,
    /// Wait for any worker to end; report `completed` or `worker_failed`.
    Await,
    /// Take the results and merge them.
    Merge,
    /// Stop: cancel the workers that are still running.
    Stop,
}

/// The decisions of an execution: how many workers run, when the next one
/// is spawned, and which results have arrived, in the order they arrived.
///
/// The engine decides; spawning and awaiting are left to the driver, which
/// reports back what happened.
pub struct Engine<T> {
    pub workers: usize,
    pub active: usize,
    pub exhausted: bool,
    pub failed: bool,
    pub finished: bool,
    pub arrived: Vec<T>,
}

impl<T> Engine<T> {
    /// The counts of the engine agree.
    pub open spec fn wf(&self) -> bool {
        &&& 0 < self.workers
        &&& self.active <= self.workers
    }

    /// Where the execution stands.
    pub open spec fn phase(&self) -> Phase {
        if self.failed || self.finished {
            Phase::Done
        } else if !self.exhausted && self.active < self.workers {
            Phase::Spawning
        } else if self.active > 0 {
            Phase::Draining
        } else {
            Phase::Merging
        }
    }

    /// An engine for `workers` workers at a time, with nothing spawned. A
    /// count of zero is refused.
    pub fn new(workers: usize) -> (r: Result<Self, ConfigError>)
        ensures
            match r {
                Ok(engine) => {
                    &&& workers > 0
                    &&& engine.wf()
                    &&& engine.workers == workers
                    &&& engine.active == 0
                    &&& !engine.exhausted
                    &&& !engine.failed
                    &&& !engine.finished
                    &&& engine.arrived@ == Seq::<T>::empty()
                },
                Err(e) => workers == 0 && e == ConfigError::ZeroWorkerCount,
            },
    {
        if workers == 0 {
            return Err(ConfigError::ZeroWorkerCount);
        }
        Ok(
            Engine {
                workers,
                active: 0,
                exhausted: false,
                failed: false,
                finished: false,
                arrived: Vec::new(),
            },
        )
    }

    /// Where the execution stands.
    pub fn current_phase(&self) -> (r: Phase)
        ensures
            r == self.phase(),
    {
        if self.failed || self.finished {
            Phase::Done
        } else if !self.exhausted && self.active < self.workers {
            Phase::Spawning
        } else if self.active > 0 {
            Phase::Draining
        } else {
            Phase::Merging
        }
    }

    /// What the driver is to do next.
    pub fn next_action(&self) -> (r: Action)
        ensures
            r == match self.phase() {
                Phase::Spawning => Action::Spawn,
                Phase::Draining => Action::Await,
                Phase::Merging => Action::Merge,
                Phase::Done => Action::Stop,
            },
    {
        match self.current_phase() {
            Phase::Spawning => Action::Spawn,
            Phase::Draining => Action::Await,
            Phase::Merging => Action::Merge,
            Phase::Done => Action::Stop,
        }
    }

    /// The driver has started a worker.
    pub fn spawned(&mut self)
        requires
            old(self).wf(),
            old(self).phase() == Phase::Spawning,
        ensures
            final(self).wf(),
            *final(self) == (Engine { active: (old(self).active + 1) as usize, ..*old(self) }),
    {
        self.active += 1;
    }

    /// The source had no worker to give: it will not be asked again.
    pub fn source_exhausted(&mut self)
        requires
            old(self).wf(),
        ensures
            final(self).wf(),
            *final(self) == (Engine { exhausted: true, ..*old(self) }),
    {
        self.exhausted = true;
    }

    /// A worker has ended with `partial`, which joins the results behind
    /// those that arrived before it. After a failure it is discarded.
    pub fn completed(&mut self, partial: T)
        requires
            old(self).wf(),
            old(self).active > 0,
        ensures
            final(self).wf(),
            final(self).workers == old(self).workers,
            final(self).active == old(self).active - 1,
            final(self).exhausted == old(self).exhausted,
            final(self).failed == old(self).failed,
            final(self).finished == old(self).finished,
            final(self).arrived@ == if old(self).failed {
                old(self).arrived@
            } else {
                old(self).arrived@.push(partial)
            },
    {
        self.active -= 1;
        if !self.failed {
            self.arrived.push(partial);
        }
    }

    /// A worker has ended abnormally or was cancelled: the execution has
    /// failed, and the results that had arrived are discarded.
    pub fn worker_failed(&mut self)
        requires
            old(self).wf(),
        ensures
            final(self).wf(),
            final(self).workers == old(self).workers,
            final(self).active == old(self).active,
            final(self).exhausted == old(self).exhausted,
            final(self).finished == old(self).finished,
            final(self).failed,
            final(self).phase() == Phase::Done,
            final(self).arrived@ == Seq::<T>::empty(),
    {
        self.failed = true;
        self.arrived.clear();
    }

    /// Ends the execution. An execution that has failed gives the failure.
    /// One whose workers have all completed gives their results, in the
    /// order they arrived.
    pub fn take_results(&mut self) -> (r: Result<TaskStream<T>, ExecutionError>)
        requires
            old(self).wf(),
            old(self).failed || old(self).phase() == Phase::Merging,
        ensures
            final(self).wf(),
            final(self).phase() == Phase::Done,
            final(self).workers == old(self).workers,
            final(self).active == old(self).active,
            final(self).exhausted == old(self).exhausted,
            final(self).failed == old(self).failed,
            match r {
                Ok(results) => {
                    &&& !old(self).failed
                    &&& final(self).finished
                    &&& final(self).arrived@ == Seq::<T>::empty()
                    &&& results.wf()
                    &&& results.remaining() == old(self).arrived@
                },
                Err(e) => {
                    &&& old(self).failed
                    &&& e == ExecutionError::WorkerFailed
                    &&& final(self).finished == old(self).finished
                    &&& final(self).arrived@ == old(self).arrived@
                },
            },
    {
        if self.failed {
            return Err(ExecutionError::WorkerFailed);
        }
        self.finished = true;
        let mut arrived = Vec::new();
        core::mem::swap(&mut self.arrived, &mut arrived);
        Ok(TaskStream::new(arrived))
    }
}

} // verus!
