//! A pull-based stream-processing engine.
//!
//! A pipeline is a chain of cursors, each advanced one [`step::Step`] at a
//! time and composed without intermediate collections. A sink drains a cursor
//! to one final value. The parallel layer hands units of work to cooperative
//! workers and folds their partial results into one answer.

pub mod call;
pub mod consumer;
pub mod error;
pub mod execution;
pub mod flat;
pub mod laws;
pub mod model;
pub mod morsel;
pub mod parallel;
pub mod prelude;
pub mod step;
pub mod stream;
pub mod sync;
