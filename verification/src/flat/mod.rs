pub mod consumer;
pub mod stream;

pub use self::consumer::FlatConsumer;
pub use self::stream::FlatStream;
