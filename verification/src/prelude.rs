//! The traits and the sources that a pipeline starts from.

pub use crate::consumer::{Consumer, ConsumerExt};
pub use crate::stream::ext::StreamExt;
pub use crate::stream::{IntoFusion, IteratorStream, Stream};
