//! The data of a curation run: configuration, extracted entries, removals and
//! the report. Instants are whole seconds since the Unix epoch (UTC);
//! confidences are in hundredths.
use vstd::prelude::*;
use crate::text::{decimal, push_all, push_decimal};

verus! {

/// The resolved settings of a run.
#[derive(Debug, Clone)]
pub struct CuratorConfig {
    /// The directory of daily notes.
    pub memory_dir: String,
    /// The recency window, in days.
    pub days_to_review: usize,
    /// The memory document.
    pub memory_file: String,
    /// How many entries one run may add.
    pub max_daily_entries: usize,
    /// The least score an entry needs, in hundredths.
    pub min_signal_confidence: u32,
    /// The age, in days, past which a dated entry is pruned.
    pub prune_threshold_days: i32,
}

impl Default for CuratorConfig {
    fn default() -> (r: Self)
        ensures
            r.days_to_review == 2,
            r.max_daily_entries == 5,
            r.min_signal_confidence == 70,
            r.prune_threshold_days == 90,
            r.memory_dir@ == "/home/jascha/.openclaw/workspace/memory"@,
            r.memory_file@ == "/home/jascha/.openclaw/workspace/MEMORY.md"@,
    {
        CuratorConfig {
            memory_dir: String::from_str("/home/jascha/.openclaw/workspace/memory"),
            days_to_review: 2,
            memory_file: String::from_str("/home/jascha/.openclaw/workspace/MEMORY.md"),
            max_daily_entries: 5,
            min_signal_confidence: 70,
            prune_threshold_days: 90,
        }
    }
}

/// An extracted, scored statement.
#[derive(Debug, Clone)]
pub struct SignalEntry {
    pub section: String,
    pub content: String,
    pub source_file: String,
    /// The score, in hundredths.
    pub confidence: u32,
    pub extracted_at: i64,
}

/// The record of one pruned line.
#[derive(Debug, Clone)]
pub struct RemovalEntry {
    pub section: String,
    pub content: String,
    pub reason: String,
    pub last_referenced: Option<String>,
}

/// A file found under the notes directory, with its modification time.
#[derive(Debug, Clone)]
pub struct FileStamp {
    pub path: String,
    pub modified: i64,
}

/// A daily note and its full text.
#[derive(Debug, Clone)]
pub struct DailyFile {
    pub path: String,
    pub content: String,
}

/// What a run scanned, added and removed, and how far it got.
#[derive(Debug)]
pub struct CuratorReport {
    pub timestamp: i64,
    pub agent_id: String,
    pub files_scanned: Vec<String>,
    pub additions: Vec<SignalEntry>,
    pub removals: Vec<RemovalEntry>,
    pub status: String,
    pub error: Option<String>,
}

/// The one-line summary of a report with these counts.
pub open spec fn summary_text(scanned: nat, added: nat, removed: nat) -> Seq<char> {
    "Curator: "@ + decimal(scanned) + " files scanned, "@ + decimal(added) + " added, "@
        + decimal(removed) + " removed"@
}

impl CuratorReport {
    /// A fresh report, stamped with `now`, with nothing recorded yet.
    pub fn new(agent_id: String, now: i64) -> (r: Self)
        ensures
            r.timestamp == now,
            r.agent_id == agent_id,
            r.files_scanned@.len() == 0,
            r.additions@.len() == 0,
            r.removals@.len() == 0,
            r.status@ == "initialized"@,
            r.error is None,
    {
        CuratorReport {
            timestamp: now,
            agent_id,
            files_scanned: Vec::new(),
            additions: Vec::new(),
            removals: Vec::new(),
            status: String::from_str("initialized"),
            error: None,
        }
    }

    /// The counts of scanned files, additions and removals, in one line.
    pub fn summary(&self) -> (r: String)
        ensures
            r@ == summary_text(
                self.files_scanned@.len(),
                self.additions@.len(),
                self.removals@.len(),
            ),
    {
        let mut out = String::new();
        push_all(&mut out, "Curator: ");
        push_decimal(&mut out, self.files_scanned.len() as u64);
        push_all(&mut out, " files scanned, ");
        push_decimal(&mut out, self.additions.len() as u64);
        push_all(&mut out, " added, ");
        push_decimal(&mut out, self.removals.len() as u64);
        push_all(&mut out, " removed");
        out
    }
}

} // verus!
