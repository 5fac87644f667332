//! An ordered, bounded-concurrency block scanning pipeline.
//!
//! The scheduler is a state machine: the caller launches the fetches it is
//! asked to launch, reports each completion back, and receives the results
//! strictly in ascending height order.
pub mod scanner;
pub mod source;
pub mod types;

pub use scanner::{Action, BlockScanner, Completion, WindowSlot};
pub use source::BlockSource;
pub use types::{BlockHeight, BlockResult, FetchError, Log, ScanConfig, ScanError};
