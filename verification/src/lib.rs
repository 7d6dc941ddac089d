//! Planning engine of a recursive copy tool.
//!
//! The crate decides what a copy run does and leaves the doing to its caller:
//! from the entries that a traversal of the source tree discovered it derives
//! the directories to create, the files to copy or to skip, the lines to log
//! and the statistics to report. Nothing here touches a file system.

pub mod action;
pub mod aggregate;
pub mod copy;
pub mod effect;
pub mod entry;
pub mod exclude;
pub mod guarantees;
pub mod options;
pub mod path;
pub mod report;
pub mod stats;
pub mod text;

pub use action::{Action, Step};
pub use copy::{copied_single, copy_parallel, copy_single_threaded, run_copy, CopyPlan};
pub use entry::{Entry, EntryKind};
pub use exclude::is_excluded;
pub use options::{ConfigError, CopyOptions, ExecutionMode, Flags};
pub use report::{display_complete, display_single};
pub use stats::CopyStats;
