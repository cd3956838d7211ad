//! Curation of daily markdown notes into a long-lived memory document:
//! selecting recent notes, extracting and scoring headlines, appending the
//! accepted ones with provenance, and pruning entries past a retention age.

pub mod clock;
pub mod curator;
pub mod error;
pub mod models;
pub mod pattern;
pub mod scoring;
pub mod text;

pub use curator::{MemoryCurator, PruneOutcome};
pub use error::CuratorError;
pub use models::{CuratorConfig, CuratorReport, DailyFile, FileStamp, RemovalEntry, SignalEntry};
pub use pattern::{extract_date, extract_headlines};
pub use scoring::{score_folded, score_signal};
