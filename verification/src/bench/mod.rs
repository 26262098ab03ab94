//! A harness that drives either ring buffer and measures it.

pub mod backend;
pub mod bencher;
pub mod csv;
pub mod operation_laws;
pub mod runner;
pub mod scenario;
pub mod sort;
pub mod text;
pub mod worker;

pub use backend::{Backend, RbConsumer, RbProducer, RingBuffer};
pub use bencher::{PopStats, PushStats, BATCH_SIZE};
pub use scenario::{BenchConfig, Payload, Ratio, RawRow, Role, SummaryRow};
