//! An incremental file-tailing and normalization engine for instrument logs.
//!
//! The engine converts heterogeneous instrument-log files into a canonical
//! delimited tabular form and resumes correctly across repeated invocations
//! by persisting a byte-offset checkpoint per file path.

pub mod classify;
pub mod csv_io;
pub mod data_loader;
pub mod errors;
pub mod events;
pub mod processor;
pub mod run_time;
pub mod store;
pub mod strconv;
pub mod tabular;
pub mod textops;

pub use classify::FileKind;
pub use errors::ISUProcessorError;
pub use processor::ISUProcessor;
pub use store::CheckpointStore;
pub use store::ISUFile;
