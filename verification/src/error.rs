use vstd::prelude::*;

verus! {

/// A configuration value that is refused before any work begins.
#[derive(Clone, Copy, Debug, PartialEq, Eq, Structural)]
pub enum ConfigError {
    /// A worker was asked to yield every zero polls.
    ZeroYieldInterval,
    /// An execution was asked to run on zero workers.
    ZeroWorkerCount,
    /// A morsel source was asked for batches of capacity zero.
    ZeroMorselCapacity,
}

impl ConfigError {
    /// The description of the refused value.
    pub open spec fn text(self) -> Seq<char> {
        match self {
            ConfigError::ZeroYieldInterval => "`yield_every` must be greater than zero"@,
            ConfigError::ZeroWorkerCount => "`worker_count` must be greater than zero"@,
            ConfigError::ZeroMorselCapacity => "`morsel_capacity` must be greater than zero"@,
        }
    }

    /// A short description of the refused value.
    pub fn message(&self) -> (r: &'static str)
        ensures
            r@ == self.text(),
    {
        match self {
            ConfigError::ZeroYieldInterval => "`yield_every` must be greater than zero",
            ConfigError::ZeroWorkerCount => "`worker_count` must be greater than zero",
            ConfigError::ZeroMorselCapacity => "`morsel_capacity` must be greater than zero",
        }
    }
}

/// Why an execution ended without a value.
#[derive(Clone, Copy, Debug, PartialEq, Eq, Structural)]
pub enum ExecutionError {
    /// The execution was refused before any work began.
    Config(ConfigError),
    /// A worker ended abnormally or was cancelled. What the other workers
    /// had completed is discarded.
    WorkerFailed,
}

impl ExecutionError {
    /// The description of the failure.
    pub open spec fn text(self) -> Seq<char> {
        match self {
            ExecutionError::Config(e) => e.text(),
            ExecutionError::WorkerFailed => "a worker failed"@,
        }
    }

    /// A short description of the failure.
    pub fn message(&self) -> (r: &'static str)
        ensures
            r@ == self.text(),
    {
        match self {
            ExecutionError::Config(e) => e.message(),
            ExecutionError::WorkerFailed => "a worker failed",
        }
    }
}

} // verus!
