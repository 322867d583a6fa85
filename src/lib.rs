//! A fast, reliable archive extraction library.
//!
//! The library holds the decisions of an extraction run: which entries are
//! selected by the glob patterns, where each one is written, what
//! happens when the output already exists, how the file jobs are shared out
//! among workers and how the results are tallied. The archive decoder and the
//! filesystem are driven by the front end, which hands plain values to these
//! functions and acts on what they return.

pub mod args;
pub mod datetime;
pub mod filter;
pub mod format;
pub mod glob;
pub mod integrity;
pub mod listing;
pub mod password;
pub mod plan;
pub mod policy;
pub mod scheduler;
pub mod zipinfo;

pub use args::Args;
pub use filter::{should_extract, EntryFilter};
pub use format::format_size;
pub use glob::glob_match;
pub use password::is_password_error;
pub use plan::{plan_extraction, ArchiveEntry, DirectoryRecord, ExtractionPlan, FileJob};
pub use policy::{decide_overwrite, OverwriteDecision, OverwriteFlags};
