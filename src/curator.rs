//! The curation engine: selects recent notes, extracts and scores their
//! headings, renders accepted entries into the memory document, and prunes
//! dated lines past the retention age. Reading and writing files is left to
//! the caller, which hands in text and takes text back.
use vstd::prelude::*;
use crate::clock::{
    parse_rfc2822, render_rfc2822, rfc2822_secs, rfc2822_text, MAX_RENDERABLE_SECS,
    MIN_RENDERABLE_SECS,
};
use crate::error::CuratorError;
use crate::models::{CuratorConfig, CuratorReport, DailyFile, FileStamp, RemovalEntry, SignalEntry};
use crate::pattern::{extract_headlines, find_date, headlines_of, locate_date};
use crate::scoring::{lower_of, score_of, score_signal, MAX_SCORE};
use crate::text::{
    chars_of, decimal, digit_char, lines_of, push_all, push_decimal, split_lines,
    string_of, string_of_range,
};

verus! {

pub const SECONDS_PER_DAY: i64 = 86400;

/// The views of a sequence of strings.
pub open spec fn texts(v: Seq<String>) -> Seq<Seq<char>> {
    v.map_values(|s: String| s@)
}

/// Whether `p` names a markdown file: its file name has a non-empty stem and
/// the extension `md`.
pub open spec fn is_markdown(p: Seq<char>) -> bool {
    p.len() >= 4 && p.subrange(p.len() - 3, p.len() as int) == ".md"@ && p[p.len() - 4] != '/'
}

/// Whether `modified` lies in the closed window `[now - days, now]`.
pub open spec fn is_recent(modified: int, now: int, days: int) -> bool {
    now - days * SECONDS_PER_DAY <= modified <= now
}

/// The paths of the markdown files of `found` modified within the window, in order.
pub open spec fn selected(found: Seq<FileStamp>, now: int, days: int) -> Seq<Seq<char>>
    decreases found.len(),
{
    if found.len() == 0 {
        seq![]
    } else {
        let rest = selected(found.drop_last(), now, days);
        let f = found.last();
        if is_markdown(f.path@) && is_recent(f.modified as int, now, days) {
            rest.push(f.path@)
        } else {
            rest
        }
    }
}

/// The score of a heading.
pub open spec fn score(h: Seq<char>) -> nat {
    score_of(lower_of(h), h)
}

/// A candidate entry: its content, its source path and its score.
pub type Candidate = (Seq<char>, Seq<char>, nat);

/// The headings of one file that reach the threshold, in document order.
pub open spec fn file_candidates(path: Seq<char>, hs: Seq<Seq<char>>, min: nat) -> Seq<Candidate>
    decreases hs.len(),
{
    if hs.len() == 0 {
        seq![]
    } else {
        let rest = file_candidates(path, hs.drop_last(), min);
        let h = hs.last();
        if score(h) >= min {
            rest.push((h, path, score(h)))
        } else {
            rest
        }
    }
}

/// The qualifying headings of all files, in file order, then document order.
pub open spec fn candidates(files: Seq<DailyFile>, min: nat) -> Seq<Candidate>
    decreases files.len(),
{
    if files.len() == 0 {
        seq![]
    } else {
        candidates(files.drop_last(), min) + file_candidates(
            files.last().path@,
            headlines_of(files.last().content@),
            min,
        )
    }
}

/// The entry `e` records the candidate `c`, extracted at `now`.
pub open spec fn records(e: SignalEntry, c: Candidate, now: i64) -> bool {
    &&& e.section@ == "General"@
    &&& e.content@ == c.0
    &&& e.source_file@ == c.1
    &&& e.confidence as nat == c.2
    &&& e.extracted_at == now
}

/// The leading `n` elements of `s`, or all of it if it is shorter.
pub open spec fn first_n<A>(s: Seq<A>, n: int) -> Seq<A> {
    if n < s.len() { s.take(n) } else { s }
}

/// The settings are in range: a positive review window and prune threshold,
/// and a confidence threshold of at most 1 (100 hundredths).
pub open spec fn settings_in_range(c: CuratorConfig) -> bool {
    c.days_to_review > 0 && c.prune_threshold_days > 0 && c.min_signal_confidence <= MAX_SCORE
}

/// The curation engine and the report of its run.
pub struct MemoryCurator {
    pub config: CuratorConfig,
    pub report: CuratorReport,
}

impl MemoryCurator {
    /// Starts a run over `config` at `now`. The two paths must exist (as the
    /// caller found them; the notes directory is checked first), then the
    /// settings must be in range.
    pub fn new(
        config: CuratorConfig,
        memory_dir_exists: bool,
        memory_file_exists: bool,
        now: i64,
    ) -> (r: Result<Self, CuratorError>)
        ensures
            !memory_dir_exists ==> (r matches Err(CuratorError::FileNotFound(p))
                && p@ == config.memory_dir@),
            memory_dir_exists && !memory_file_exists ==> (r matches Err(
                CuratorError::FileNotFound(p),
            ) && p@ == config.memory_file@),
            memory_dir_exists && memory_file_exists && !settings_in_range(config) ==> (
            r is Err && r->Err_0 is InvalidConfig),
            r is Ok <==> memory_dir_exists && memory_file_exists && settings_in_range(config),
            r is Ok ==> (r matches Ok(c) && c.config == config
                && c.report.timestamp == now
                && c.report.agent_id@ == "memory-curator-v0.1"@ && c.report.status@
                == "initialized"@ && c.report.files_scanned@.len() == 0
                && c.report.additions@.len() == 0 && c.report.removals@.len() == 0
                && c.report.error is None),
    {
        if !memory_dir_exists {
            return Err(CuratorError::FileNotFound(config.memory_dir.clone()));
        }
        if !memory_file_exists {
            return Err(CuratorError::FileNotFound(config.memory_file.clone()));
        }
        if config.days_to_review == 0 {
            return Err(CuratorError::InvalidConfig(String::from_str("days_to_review must be positive")));
        }
        if config.prune_threshold_days <= 0 {
            return Err(
                CuratorError::InvalidConfig(String::from_str("prune_threshold_days must be positive")),
            );
        }
        if config.min_signal_confidence > MAX_SCORE {
            return Err(
                CuratorError::InvalidConfig(
                    String::from_str("min_signal_confidence must lie in [0, 1]"),
                ),
            );
        }
        Ok(MemoryCurator {
            config,
            report: CuratorReport::new(String::from_str("memory-curator-v0.1"), now),
        })
    }

    /// Selects, from the files found under the notes directory, the markdown files
    /// modified within the review window ending at `now`, and records each in the
    /// report.
    pub fn scan_daily_files(&mut self, found: Vec<FileStamp>, now: i64) -> (r: Vec<String>)
        ensures
            texts(r@) == selected(found@, now as int, old(self).config.days_to_review as int),
            final(self).config == old(self).config,
            texts(final(self).report.files_scanned@) == texts(old(self).report.files_scanned@)
                + texts(r@),
            final(self).report.additions == old(self).report.additions,
            final(self).report.removals == old(self).report.removals,
            final(self).report.status == old(self).report.status,
            final(self).report.agent_id == old(self).report.agent_id,
            final(self).report.timestamp == old(self).report.timestamp,
            final(self).report.error == old(self).report.error,
    {
        let days = self.config.days_to_review;
        let cutoff: i128 = now as i128 - days as i128 * SECONDS_PER_DAY as i128;
        let mut out: Vec<String> = Vec::new();
        let mut i: usize = 0;
        while i < found.len()
            invariant
                i <= found@.len(),
                days == self.config.days_to_review,
                self.config == old(self).config,
                cutoff == now as int - days as int * SECONDS_PER_DAY,
                texts(out@) == selected(found@.take(i as int), now as int, days as int),
                texts(self.report.files_scanned@) == texts(old(self).report.files_scanned@)
                    + texts(out@),
                self.report.additions == old(self).report.additions,
                self.report.removals == old(self).report.removals,
                self.report.status == old(self).report.status,
                self.report.agent_id == old(self).report.agent_id,
                self.report.timestamp == old(self).report.timestamp,
                self.report.error == old(self).report.error,
            decreases found@.len() - i,
        {
            assert(found@.take(i + 1).drop_last() =~= found@.take(i as int));
            assert(found@.take(i + 1).last() == found@[i as int]);
            let f = &found[i];
            let p = chars_of(f.path.as_str());
            let n = p.len();
            let markdown = n >= 4 && p[n - 3] == '.' && p[n - 2] == 'm' && p[n - 1] == 'd'
                && p[n - 4] != '/';
            proof {
                if n >= 4 {
                    reveal_strlit(".md");
                    let ext = p@.subrange(n - 3, n as int);
                    if p@[n - 3] == '.' && p@[n - 2] == 'm' && p@[n - 1] == 'd' {
                        assert(ext =~= ".md"@);
                    }
                    if ext == ".md"@ {
                        assert(ext[0] == p@[n - 3] && ext[1] == p@[n - 2] && ext[2] == p@[n - 1]);
                    }
                }
            }
            if markdown && cutoff <= f.modified as i128 && f.modified <= now {
                let ghost before_out = out@;
                let ghost before_rep = self.report.files_scanned@;
                out.push(f.path.clone());
                self.report.files_scanned.push(f.path.clone());
                assert(texts(out@) =~= texts(before_out).push(f.path@));
                assert(texts(self.report.files_scanned@) =~= texts(before_rep).push(f.path@));
            }
            i += 1;
        }
        assert(found@.take(i as int) =~= found@);
        out
    }

    /// Scores the headings of each note, keeps those at or above the configured
    /// threshold in file order and then document order, and cuts the list to the
    /// configured maximum. Each entry is stamped with `now`.
    pub fn extract_signal(&self, files: Vec<DailyFile>, now: i64) -> (r: Vec<SignalEntry>)
        ensures
            r@.len() == first_n(
                candidates(files@, self.config.min_signal_confidence as nat),
                self.config.max_daily_entries as int,
            ).len(),
            forall|k: int|
                0 <= k < r@.len() ==> records(
                    #[trigger] r@[k],
                    candidates(files@, self.config.min_signal_confidence as nat)[k],
                    now,
                ),
    {
        let min = self.config.min_signal_confidence;
        let ghost cands = candidates(files@, min as nat);
        let mut out: Vec<SignalEntry> = Vec::new();
        let mut i: usize = 0;
        while i < files.len()
            invariant
                i <= files@.len(),
                min == self.config.min_signal_confidence,
                cands == candidates(files@, min as nat),
                out@.len() == candidates(files@.take(i as int), min as nat).len(),
                forall|k: int|
                    0 <= k < out@.len() ==> records(
                        #[trigger] out@[k],
                        candidates(files@.take(i as int), min as nat)[k],
                        now,
                    ),
            decreases files@.len() - i,
        {
            assert(files@.take(i + 1).drop_last() =~= files@.take(i as int));
            assert(files@.take(i + 1).last() == files@[i as int]);
            let f = &files[i];
            let hs = extract_headlines(f.content.as_str());
            let ghost ghs = headlines_of(f.content@);
            let ghost prior = candidates(files@.take(i as int), min as nat);
            let ghost base = out@.len();
            let mut j: usize = 0;
            while j < hs.len()
                invariant
                    i < files@.len(),
                    f == files@[i as int],
                    j <= hs@.len(),
                    hs@.len() == ghs.len(),
                    ghs == headlines_of(f.content@),
                    forall|k: int| 0 <= k < hs@.len() ==> #[trigger] hs@[k]@ == ghs[k],
                    base == prior.len(),
                    out@.len() == prior.len() + file_candidates(
                        f.path@,
                        ghs.take(j as int),
                        min as nat,
                    ).len(),
                    forall|k: int|
                        0 <= k < out@.len() ==> records(
                            #[trigger] out@[k],
                            (prior + file_candidates(f.path@, ghs.take(j as int), min as nat))[k],
                            now,
                        ),
                decreases hs@.len() - j,
            {
                assert(ghs.take(j + 1).drop_last() =~= ghs.take(j as int));
                assert(ghs.take(j + 1).last() == hs@[j as int]@);
                let h = &hs[j];
                let s = score_signal(h.as_str());
                if s >= min {
                    let e = SignalEntry {
                        section: String::from_str("General"),
                        content: h.clone(),
                        source_file: f.path.clone(),
                        confidence: s,
                        extracted_at: now,
                    };
                    let ghost old_out = out@;
                    out.push(e);
                    assert(prior + file_candidates(f.path@, ghs.take(j + 1), min as nat) =~= (
                    prior + file_candidates(f.path@, ghs.take(j as int), min as nat)).push(
                        (h@, f.path@, s as nat),
                    ));
                    assert forall|k: int| 0 <= k < out@.len() implies records(
                        #[trigger] out@[k],
                        (prior + file_candidates(f.path@, ghs.take(j + 1), min as nat))[k],
                        now,
                    ) by {
                        if k < old_out.len() {
                            assert(out@[k] == old_out[k]);
                        }
                    }
                }
                j += 1;
            }
            assert(ghs.take(j as int) =~= ghs);
            assert(candidates(files@.take(i + 1), min as nat) == prior + file_candidates(
                f.path@,
                ghs,
                min as nat,
            ));
            i += 1;
        }
        assert(files@.take(i as int) =~= files@);
        let ghost full = out@;
        out.truncate(self.config.max_daily_entries);
        proof {
            if (self.config.max_daily_entries as int) < full.len() {
                assert forall|k: int| 0 <= k < out@.len() implies records(
                    #[trigger] out@[k],
                    cands[k],
                    now,
                ) by {
                    assert(out@[k] == full[k]);
                }
            }
        }
        out
    }

    /// Records entries that were written into the memory document.
    pub fn record_additions(&mut self, signals: Vec<SignalEntry>)
        ensures
            final(self).report.additions@ == old(self).report.additions@ + signals@,
            final(self).config == old(self).config,
            final(self).report.files_scanned == old(self).report.files_scanned,
            final(self).report.removals == old(self).report.removals,
            final(self).report.status == old(self).report.status,
            final(self).report.agent_id == old(self).report.agent_id,
            final(self).report.timestamp == old(self).report.timestamp,
            final(self).report.error == old(self).report.error,
    {
        let mut signals = signals;
        self.report.additions.append(&mut signals);
    }

    /// Marks the run as completed.
    pub fn finalize_report(&mut self)
        ensures
            final(self).report.status@ == "completed"@,
            final(self).config == old(self).config,
            final(self).report.files_scanned == old(self).report.files_scanned,
            final(self).report.additions == old(self).report.additions,
            final(self).report.removals == old(self).report.removals,
            final(self).report.agent_id == old(self).report.agent_id,
            final(self).report.timestamp == old(self).report.timestamp,
            final(self).report.error == old(self).report.error,
    {
        self.report.status = String::from_str("completed");
    }

    /// The report of the run so far.
    pub fn report(&self) -> (r: &CuratorReport)
        ensures
            r == &self.report,
    {
        &self.report
    }
}


/// Two decimals of a confidence given in hundredths: `70` reads `0.70`.
pub open spec fn confidence_text(c: nat) -> Seq<char> {
    decimal(c / 100) + "."@ + seq![digit_char((c % 100) / 10), digit_char(c % 10)]
}

/// The block that records `e` in the memory document.
pub open spec fn rendered_block(e: SignalEntry) -> Seq<char> {
    "\n- **"@ + e.content@ + "** (confidence: "@ + confidence_text(e.confidence as nat) + ") — "@
        + rfc2822_text(e.extracted_at as int) + "\n  Source: "@ + e.source_file@ + "\n"@
}

/// The blocks of `es`, one after another.
pub open spec fn rendered_blocks(es: Seq<SignalEntry>) -> Seq<char>
    decreases es.len(),
{
    if es.len() == 0 {
        seq![]
    } else {
        rendered_blocks(es.drop_last()) + rendered_block(es.last())
    }
}

/// The instant of `t` renders in RFC 2822 form.
pub open spec fn renderable(t: i64) -> bool {
    MIN_RENDERABLE_SECS <= t <= MAX_RENDERABLE_SECS
}

/// The instant embedded in line `l`, read as UTC.
pub open spec fn line_instant(l: Seq<char>) -> Option<i64> {
    match find_date(l) {
        Some(p) => rfc2822_secs(l.subrange(p.0, p.1) + " +0000"@),
        None => None,
    }
}

/// Line `l` carries an instant strictly before `cutoff`.
pub open spec fn is_stale(l: Seq<char>, cutoff: int) -> bool {
    match line_instant(l) {
        Some(t) => t < cutoff,
        None => false,
    }
}

/// The stale lines of `ls`, in order.
pub open spec fn stale_lines(ls: Seq<Seq<char>>, cutoff: int) -> Seq<Seq<char>>
    decreases ls.len(),
{
    if ls.len() == 0 {
        seq![]
    } else {
        let rest = stale_lines(ls.drop_last(), cutoff);
        if is_stale(ls.last(), cutoff) {
            rest.push(ls.last())
        } else {
            rest
        }
    }
}

/// The lines of `ls` that are kept, each followed by a line feed.
pub open spec fn kept_text(ls: Seq<Seq<char>>, cutoff: int) -> Seq<char>
    decreases ls.len(),
{
    if ls.len() == 0 {
        seq![]
    } else {
        let rest = kept_text(ls.drop_last(), cutoff);
        if is_stale(ls.last(), cutoff) {
            rest
        } else {
            rest + ls.last() + "\n"@
        }
    }
}

/// The instant before which dated lines are pruned.
pub open spec fn prune_cutoff(now: i64, days: i32) -> int {
    now - days * SECONDS_PER_DAY
}

/// The removal entry `e` records the stale line `l`.
pub open spec fn records_removal(e: RemovalEntry, l: Seq<char>) -> bool {
    &&& e.section@ == "Unknown"@
    &&& e.content@ == l
    &&& e.reason@ == "age_threshold_exceeded"@
    &&& match line_instant(l) {
        Some(t) => if renderable(t) {
            e.last_referenced is Some && e.last_referenced->0@ == rfc2822_text(t as int)
        } else {
            e.last_referenced is None
        },
        None => false,
    }
}

/// What pruning did: how many lines it dropped, and the new text of the memory
/// document where it dropped any.
pub struct PruneOutcome {
    pub pruned: usize,
    pub rewritten: Option<String>,
}

/// Whether the instant `t` lies strictly before `now` less `days` days.
pub fn older_than_cutoff(t: i64, now: i64, days: i32) -> (r: bool)
    ensures
        r == (t < prune_cutoff(now, days)),
{
    let d = days as i128;
    assert(-2147483648 * 86400 <= d * 86400 <= 2147483647 * 86400) by (nonlinear_arith)
        requires
            -2147483648 <= d <= 2147483647,
    ;
    let span: i128 = d * SECONDS_PER_DAY as i128;
    (t as i128) < now as i128 - span
}

fn confidence_string(out: &mut String, c: u32)
    ensures
        final(out)@ == old(out)@ + confidence_text(c as nat),
{
    push_decimal(out, (c / 100) as u64);
    push_all(out, ".");
    let d = c % 100;
    push_decimal(out, (d / 10) as u64);
    push_decimal(out, (d % 10) as u64);
    assert(decimal(((c % 100) / 10) as nat) =~= seq![digit_char(((c as nat) % 100) / 10)]);
    assert(decimal((c % 10) as nat) =~= seq![digit_char((c as nat) % 10)]);
    assert(((c % 100) % 10) == c % 10);
}

/// The instant embedded in a line, if it has one that parses.
fn instant_of(l: &Vec<char>) -> (r: Option<i64>)
    ensures
        r == line_instant(l@),
{
    match locate_date(l) {
        Some(p) => {
            let mut stamp = string_of_range(l, p.0, p.1);
            push_all(&mut stamp, " +0000");
            parse_rfc2822(stamp.as_str())
        },
        None => None,
    }
}

impl MemoryCurator {
    /// The memory document `memory` with a block appended for each entry, in order.
    pub fn merge_into_memory(&self, memory: &str, signals: &Vec<SignalEntry>) -> (r: String)
        requires
            forall|k: int| 0 <= k < signals@.len() ==> renderable(#[trigger] signals@[k].extracted_at),
        ensures
            r@ == memory@ + rendered_blocks(signals@),
    {
        let mut out = String::from_str(memory);
        let mut i: usize = 0;
        while i < signals.len()
            invariant
                i <= signals@.len(),
                forall|k: int| 0 <= k < signals@.len() ==> renderable(#[trigger] signals@[k].extracted_at),
                out@ == memory@ + rendered_blocks(signals@.take(i as int)),
            decreases signals@.len() - i,
        {
            assert(signals@.take(i + 1).drop_last() =~= signals@.take(i as int));
            let e = &signals[i];
            let ghost before = out@;
            push_all(&mut out, "\n- **");
            push_all(&mut out, e.content.as_str());
            push_all(&mut out, "** (confidence: ");
            confidence_string(&mut out, e.confidence);
            push_all(&mut out, ") — ");
            let stamp = render_rfc2822(e.extracted_at);
            push_all(&mut out, stamp.as_str());
            push_all(&mut out, "\n  Source: ");
            push_all(&mut out, e.source_file.as_str());
            push_all(&mut out, "\n");
            assert(out@ =~= before + rendered_block(*e));
            i += 1;
        }
        assert(signals@.take(i as int) =~= signals@);
        out
    }

    /// Drops from the memory document each line whose embedded instant is
    /// strictly before `now` less the prune threshold, recording each as a
    /// removal. The new text is given only where a line was dropped.
    pub fn prune_stale(&mut self, memory: &str, now: i64) -> (r: PruneOutcome)
        ensures
            ({
                let ls = lines_of(memory@);
                let cutoff = prune_cutoff(now, old(self).config.prune_threshold_days);
                let gone = stale_lines(ls, cutoff);
                let n = old(self).report.removals@.len();
                &&& r.pruned == gone.len()
                &&& (r.rewritten is None <==> r.pruned == 0)
                &&& (r.rewritten is Some ==> r.rewritten->0@ == kept_text(ls, cutoff))
                &&& final(self).report.removals@.len() == n + gone.len()
                &&& final(self).report.removals@.take(n as int) == old(self).report.removals@
                &&& forall|k: int|
                    0 <= k < gone.len() ==> records_removal(
                        #[trigger] final(self).report.removals@[n + k],
                        gone[k],
                    )
            }),
            final(self).config == old(self).config,
            final(self).report.files_scanned == old(self).report.files_scanned,
            final(self).report.additions == old(self).report.additions,
            final(self).report.status == old(self).report.status,
            final(self).report.agent_id == old(self).report.agent_id,
            final(self).report.timestamp == old(self).report.timestamp,
            final(self).report.error == old(self).report.error,
    {
        let ghost ls = lines_of(memory@);
        let ghost cutoff_g = prune_cutoff(now, self.config.prune_threshold_days);
        let ghost n0 = self.report.removals@.len();
        let lines = split_lines(&chars_of(memory));
        let mut kept = String::new();
        let mut pruned: usize = 0;
        let mut i: usize = 0;
        while i < lines.len()
            invariant
                i <= lines@.len(),
                lines@.len() == ls.len(),
                ls == lines_of(memory@),
                forall|k: int| 0 <= k < lines@.len() ==> #[trigger] lines@[k]@ == ls[k],
                cutoff_g == prune_cutoff(now, old(self).config.prune_threshold_days),
                self.config == old(self).config,
                n0 == old(self).report.removals@.len(),
                pruned == stale_lines(ls.take(i as int), cutoff_g).len(),
                pruned <= i,
                kept@ == kept_text(ls.take(i as int), cutoff_g),
                self.report.removals@.len() == n0 + pruned,
                self.report.removals@.take(n0 as int) == old(self).report.removals@,
                forall|k: int|
                    0 <= k < pruned ==> records_removal(
                        #[trigger] self.report.removals@[n0 + k],
                        stale_lines(ls.take(i as int), cutoff_g)[k],
                    ),
                self.report.files_scanned == old(self).report.files_scanned,
                self.report.additions == old(self).report.additions,
                self.report.status == old(self).report.status,
                self.report.agent_id == old(self).report.agent_id,
                self.report.timestamp == old(self).report.timestamp,
                self.report.error == old(self).report.error,
            decreases lines@.len() - i,
        {
            assert(ls.take(i + 1).drop_last() =~= ls.take(i as int));
            assert(ls.take(i + 1).last() == lines@[i as int]@);
            let l = &lines[i];
            let instant = instant_of(l);
            let stale = match instant {
                Some(t) => older_than_cutoff(t, now, self.config.prune_threshold_days),
                None => false,
            };
            if stale {
                let t = instant.unwrap();
                let last_referenced = if MIN_RENDERABLE_SECS <= t && t <= MAX_RENDERABLE_SECS {
                    Some(render_rfc2822(t))
                } else {
                    None
                };
                let ghost old_rm = self.report.removals@;
                self.report.removals.push(
                    RemovalEntry {
                        section: String::from_str("Unknown"),
                        content: string_of(l),
                        reason: String::from_str("age_threshold_exceeded"),
                        last_referenced,
                    },
                );
                assert(self.report.removals@.take(n0 as int) =~= old_rm.take(n0 as int));
                assert forall|k: int| 0 <= k < pruned + 1 implies records_removal(
                    #[trigger] self.report.removals@[n0 + k],
                    stale_lines(ls.take(i + 1), cutoff_g)[k],
                ) by {
                    if k < pruned {
                        assert(self.report.removals@[n0 + k] == old_rm[n0 + k]);
                    }
                }
                pruned += 1;
            } else {
                push_all(&mut kept, string_of(l).as_str());
                push_all(&mut kept, "\n");
            }
            i += 1;
        }
        assert(ls.take(i as int) =~= ls);
        if pruned > 0 {
            PruneOutcome { pruned, rewritten: Some(kept) }
        } else {
            PruneOutcome { pruned, rewritten: None }
        }
    }
}

/// Merging one entry appends exactly its block: the document grows by the
/// block's length, and the block holds the content, the two-decimal
/// confidence and the source path verbatim.
pub proof fn lemma_merge_one_appends(memory: Seq<char>, e: SignalEntry)
    ensures
        memory + rendered_blocks(seq![e]) == memory + rendered_block(e),
        (memory + rendered_blocks(seq![e])).len() == memory.len() + rendered_block(e).len(),
        (memory + rendered_blocks(seq![e])).subrange(0, memory.len() as int) == memory,
        crate::text::contains(rendered_block(e), e.content@),
        crate::text::contains(rendered_block(e), confidence_text(e.confidence as nat)),
        crate::text::contains(rendered_block(e), e.source_file@),
{
    assert(seq![e].drop_last() =~= Seq::<SignalEntry>::empty());
    assert(seq![e].last() == e);
    assert(rendered_blocks(Seq::<SignalEntry>::empty()) =~= Seq::<char>::empty());
    assert(rendered_blocks(seq![e]) =~= rendered_block(e));
    assert((memory + rendered_block(e)).subrange(0, memory.len() as int) =~= memory);
    reveal_strlit("\n- **");
    reveal_strlit("** (confidence: ");
    let b = rendered_block(e);
    let c = e.content@;
    let head = "\n- **"@;
    let p1 = head + c + "** (confidence: "@;
    let p2 = p1 + confidence_text(e.confidence as nat) + ") — "@ + rfc2822_text(
        e.extracted_at as int,
    ) + "\n  Source: "@;
    assert(b =~= p2 + e.source_file@ + "\n"@);
    assert(b.subrange(5, 5 + c.len() as int) =~= c);
    assert(crate::text::occurs_at(b, c, 5));
    let q = p1.len() as int;
    assert(b.subrange(q, q + confidence_text(e.confidence as nat).len() as int) =~= confidence_text(
        e.confidence as nat,
    ));
    assert(crate::text::occurs_at(b, confidence_text(e.confidence as nat), q));
    let s = p2.len() as int;
    assert(b.subrange(s, s + e.source_file@.len() as int) =~= e.source_file@);
    assert(crate::text::occurs_at(b, e.source_file@, s));
}

/// Every selected path is the path of a markdown stamp that lies in the window.
pub proof fn lemma_selected_sound(found: Seq<FileStamp>, now: int, days: int, p: Seq<char>)
    requires
        selected(found, now, days).contains(p),
    ensures
        exists|j: int|
            0 <= j < found.len() && #[trigger] found[j].path@ == p && is_markdown(p) && is_recent(
                found[j].modified as int,
                now,
                days,
            ),
    decreases found.len(),
{
    let rest = selected(found.drop_last(), now, days);
    let f = found.last();
    let last = found.len() - 1;
    assert(f == found[last]);
    if is_markdown(f.path@) && is_recent(f.modified as int, now, days) && p == f.path@ {
        assert(found[last].path@ == p);
    } else {
        if is_markdown(f.path@) && is_recent(f.modified as int, now, days) {
            let i = choose|i: int| 0 <= i < rest.push(f.path@).len() && rest.push(f.path@)[i] == p;
            assert(i < rest.len() && rest[i] == p);
        }
        assert(rest.contains(p));
        lemma_selected_sound(found.drop_last(), now, days, p);
        let j = choose|j: int|
            0 <= j < found.drop_last().len() && #[trigger] found.drop_last()[j].path@ == p
                && is_markdown(p) && is_recent(found.drop_last()[j].modified as int, now, days);
        assert(found[j] == found.drop_last()[j]);
    }
}

/// A file modified before the window opens is not selected, where no other
/// stamp carries the same path.
pub proof fn lemma_stale_file_excluded(found: Seq<FileStamp>, now: int, days: int, k: int)
    requires
        0 <= k < found.len(),
        found[k].modified < now - days * SECONDS_PER_DAY,
        forall|j: int| 0 <= j < found.len() && j != k ==> #[trigger] found[j].path@ != found[k].path@,
    ensures
        !selected(found, now, days).contains(found[k].path@),
{
    if selected(found, now, days).contains(found[k].path@) {
        lemma_selected_sound(found, now, days, found[k].path@);
    }
}

/// The recency window is closed: a file modified exactly `days` days before
/// `now` is recent, one modified a second earlier is not, and neither is one
/// modified after `now`.
pub proof fn lemma_window_closed(now: int, days: int)
    ensures
        days >= 0 ==> is_recent(now - days * SECONDS_PER_DAY, now, days),
        is_recent(now, now, days) <==> days >= 0,
        !is_recent(now - days * SECONDS_PER_DAY - 1, now, days),
        !is_recent(now + 1, now, days),
{
}

/// An entry whose instant equals the cutoff is kept; one strictly before it is
/// pruned.
pub proof fn lemma_prune_boundary(l: Seq<char>, now: i64, days: i32, t: i64)
    requires
        line_instant(l) == Some(t),
    ensures
        t == prune_cutoff(now, days) ==> !is_stale(l, prune_cutoff(now, days)),
        t < prune_cutoff(now, days) ==> is_stale(l, prune_cutoff(now, days)),
{
}

/// Where no line is stale, pruning drops nothing and so leaves the document's
/// text untouched.
pub proof fn lemma_prune_noop(ls: Seq<Seq<char>>, cutoff: int)
    requires
        forall|k: int| 0 <= k < ls.len() ==> !is_stale(#[trigger] ls[k], cutoff),
    ensures
        stale_lines(ls, cutoff).len() == 0,
    decreases ls.len(),
{
    if ls.len() > 0 {
        assert(ls.last() == ls[ls.len() - 1]);
        lemma_prune_noop(ls.drop_last(), cutoff);
    }
}

} // verus!
