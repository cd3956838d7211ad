use memory_curator_agent::curator::older_than_cutoff;
use memory_curator_agent::{
    extract_date, extract_headlines, score_folded, score_signal, CuratorConfig, CuratorError,
    CuratorReport, DailyFile, FileStamp, MemoryCurator, SignalEntry,
};

const NOW: i64 = 1_704_067_200; // Mon, 1 Jan 2024 00:00:00 UTC
const DAY: i64 = 86_400;

fn curator_with(config: CuratorConfig) -> MemoryCurator {
    match MemoryCurator::new(config, true, true, NOW) {
        Ok(c) => c,
        Err(e) => panic!("construction failed: {:?}", e),
    }
}

fn entry(content: &str, source: &str, confidence: u32, at: i64) -> SignalEntry {
    SignalEntry {
        section: "General".to_string(),
        content: content.to_string(),
        source_file: source.to_string(),
        confidence,
        extracted_at: at,
    }
}

#[test]
fn test_extract_headlines() {
    let content = "# Main\n## Sub\n### Deep\nNot a headline";
    let headlines = extract_headlines(content);
    assert_eq!(headlines.len(), 3);
}

#[test]
fn test_signal_scoring() {
    assert!(score_signal("Decision: move to Rust") as f32 / 100.0 > 0.5);
    assert!(score_signal("Status: Active") as f32 / 100.0 > 0.5);
    assert!((score_signal("random text") as f32 / 100.0) < 0.7);
}

#[test]
fn test_curator_config_default() {
    let config = CuratorConfig::default();
    assert_eq!(config.days_to_review, 2);
    assert_eq!(config.max_daily_entries, 5);
    assert_eq!(config.min_signal_confidence as f32 / 100.0, 0.7);
    assert_eq!(config.prune_threshold_days, 90);
}

#[test]
fn headlines_keep_text_and_order() {
    let content = "# Main\n## Sub\n### Deep\nNot a headline";
    let first = extract_headlines(content);
    let second = extract_headlines(content);
    assert_eq!(first, vec!["Main".to_string(), "Sub".to_string(), "Deep".to_string()]);
    assert_eq!(first, second);
}

#[test]
fn headlines_need_marker_space_and_text() {
    let content = "#NoSpace\n#   \n  # indented\n#\tTabbed\r\n####   Spaced out\n";
    let hs = extract_headlines(content);
    assert_eq!(hs, vec!["Tabbed".to_string(), "Spaced out".to_string()]);
    assert!(extract_headlines("").is_empty());
}

#[test]
fn score_exact_values() {
    assert_eq!(score_signal(""), 50);
    assert_eq!(score_signal("decision"), 60);
    assert!(score_signal("decision") > score_signal(""));
    assert_eq!(score_signal("Status"), 70);
    assert_eq!(score_signal("Next Steps here"), 70);
    assert_eq!(score_signal("status"), 50);
    assert_eq!(score_signal("DECISION and Project"), 70);
    assert_eq!(score_signal("decision decision decision"), 60);
    assert_eq!(
        score_signal("Status: decision learned important critical completed project"),
        100
    );
}

#[test]
fn score_folded_uses_given_lower_case() {
    assert_eq!(score_folded("decision", "Whatever"), 60);
    assert_eq!(score_folded("nothing", "Decision"), 50);
    assert_eq!(score_folded("learned critical", "Status"), 90);
}

#[test]
fn date_found_inside_line() {
    let line = "- **X** (confidence: 0.70) — Mon, 1 Jan 2024 00:00:00 +0000";
    assert_eq!(extract_date(line), Some("Mon, 1 Jan 2024 00:00:00".to_string()));
    assert_eq!(extract_date("Tue,  13   Feb 2024  10:11:12"), Some("Tue,  13   Feb 2024  10:11:12".to_string()));
    assert_eq!(extract_date("no date here"), None);
    assert_eq!(extract_date("Mon, 123 Jan 2024 00:00:00"), None);
    assert_eq!(extract_date("Mon, 1 Jan 2024 00:00"), None);
}

#[test]
fn scan_window_is_closed() {
    let mut config = CuratorConfig::default();
    config.days_to_review = 2;
    let mut c = curator_with(config);
    let found = vec![
        FileStamp { path: "notes/edge.md".to_string(), modified: NOW - 2 * DAY },
        FileStamp { path: "notes/old.md".to_string(), modified: NOW - 2 * DAY - 1 },
        FileStamp { path: "notes/future.md".to_string(), modified: NOW + 1 },
        FileStamp { path: "notes/today.txt".to_string(), modified: NOW },
        FileStamp { path: "notes/.md".to_string(), modified: NOW },
        FileStamp { path: "notes/now.md".to_string(), modified: NOW },
    ];
    let picked = c.scan_daily_files(found, NOW);
    assert_eq!(picked, vec!["notes/edge.md".to_string(), "notes/now.md".to_string()]);
    assert_eq!(c.report().files_scanned, picked);
}

#[test]
fn extract_truncates_in_discovery_order() {
    let mut config = CuratorConfig::default();
    config.max_daily_entries = 2;
    config.min_signal_confidence = 60;
    let c = curator_with(config);
    let files = vec![
        DailyFile { path: "a.md".to_string(), content: "# Decision one\n# plain\n".to_string() },
        DailyFile {
            path: "b.md".to_string(),
            content: "# Critical important decision\n# Learned two\n".to_string(),
        },
    ];
    let got = c.extract_signal(files, NOW);
    assert_eq!(got.len(), 2);
    assert_eq!(got[0].content, "Decision one");
    assert_eq!(got[0].source_file, "a.md");
    assert_eq!(got[0].confidence, 60);
    assert_eq!(got[1].content, "Critical important decision");
    assert_eq!(got[1].confidence, 80);
    assert_eq!(got[1].section, "General");
    assert_eq!(got[1].extracted_at, NOW);
}

#[test]
fn extract_with_zero_cap_is_empty() {
    let mut config = CuratorConfig::default();
    config.max_daily_entries = 0;
    let c = curator_with(config);
    let files = vec![DailyFile { path: "a.md".to_string(), content: "# Decision Status\n".to_string() }];
    assert!(c.extract_signal(files, NOW).is_empty());
}

#[test]
fn merge_appends_rendered_block() {
    let mut c = curator_with(CuratorConfig::default());
    let memory = "# Memory\n";
    let signals = vec![entry("X", "notes/a.md", 70, 0)];
    let merged = c.merge_into_memory(memory, &signals);
    let block = "\n- **X** (confidence: 0.70) — Thu, 1 Jan 1970 00:00:00 +0000\n  Source: notes/a.md\n";
    assert_eq!(merged, format!("{}{}", memory, block));
    assert_eq!(merged.len(), memory.len() + block.len());
    c.record_additions(signals);
    assert_eq!(c.report().additions.len(), 1);
}

#[test]
fn merge_renders_full_confidence() {
    let c = curator_with(CuratorConfig::default());
    let merged = c.merge_into_memory("", &vec![entry("Y", "b.md", 100, NOW), entry("Z", "c.md", 65, NOW)]);
    assert_eq!(
        merged,
        "\n- **Y** (confidence: 1.00) — Mon, 1 Jan 2024 00:00:00 +0000\n  Source: b.md\n\n- **Z** (confidence: 0.65) — Mon, 1 Jan 2024 00:00:00 +0000\n  Source: c.md\n"
    );
}

#[test]
fn prune_boundary_keeps_cutoff_drops_older() {
    let mut c = curator_with(CuratorConfig::default());
    let memory = "# Memory\n- kept (x) — Tue, 3 Oct 2023 00:00:00 +0000\n- gone (y) — Mon, 2 Oct 2023 23:59:59 +0000\nplain line\n";
    let out = c.prune_stale(memory, NOW);
    assert_eq!(out.pruned, 1);
    assert_eq!(
        out.rewritten,
        Some("# Memory\n- kept (x) — Tue, 3 Oct 2023 00:00:00 +0000\nplain line\n".to_string())
    );
    let removals = &c.report().removals;
    assert_eq!(removals.len(), 1);
    assert_eq!(removals[0].reason, "age_threshold_exceeded");
    assert_eq!(removals[0].section, "Unknown");
    assert_eq!(removals[0].content, "- gone (y) — Mon, 2 Oct 2023 23:59:59 +0000");
    assert_eq!(removals[0].last_referenced, Some("Mon, 2 Oct 2023 23:59:59 +0000".to_string()));
}

#[test]
fn prune_without_stale_lines_leaves_document() {
    let mut c = curator_with(CuratorConfig::default());
    let memory = "# Memory\r\nno trailing newline — Mon, 1 Jan 2024 00:00:00 +0000";
    let out = c.prune_stale(memory, NOW);
    assert_eq!(out.pruned, 0);
    assert_eq!(out.rewritten, None);
    assert!(c.report().removals.is_empty());
}

#[test]
fn prune_ignores_unparseable_dates() {
    let mut c = curator_with(CuratorConfig::default());
    let memory = "bad weekday Xyz, 1 Jan 2000 00:00:00\n";
    let out = c.prune_stale(memory, NOW);
    assert_eq!(out.pruned, 0);
    assert_eq!(out.rewritten, None);
}

#[test]
fn construction_checks_paths() {
    let config = CuratorConfig::default();
    match MemoryCurator::new(config.clone(), false, true, NOW) {
        Err(CuratorError::FileNotFound(p)) => assert_eq!(p, config.memory_dir),
        _ => panic!("expected a missing directory"),
    }
    match MemoryCurator::new(config.clone(), true, false, NOW) {
        Err(CuratorError::FileNotFound(p)) => assert_eq!(p, config.memory_file),
        _ => panic!("expected a missing memory file"),
    }
    let c = curator_with(config);
    assert_eq!(c.report().status, "initialized");
    assert_eq!(c.report().agent_id, "memory-curator-v0.1");
}

#[test]
fn recoverable_error_kinds() {
    assert!(CuratorError::FileNotFound("x".to_string()).is_recoverable());
    assert!(CuratorError::ParseError("x".to_string()).is_recoverable());
    assert!(CuratorError::MemoryFileCorrupted.is_recoverable());
    assert!(!CuratorError::Io("x".to_string()).is_recoverable());
    assert!(!CuratorError::InvalidConfig("x".to_string()).is_recoverable());
    assert!(!CuratorError::Json("x".to_string()).is_recoverable());
    assert!(!CuratorError::Timeout("x".to_string()).is_recoverable());
}

#[test]
fn report_summary_counts() {
    let r = CuratorReport::new("agent".to_string(), NOW);
    assert_eq!(r.summary(), "Curator: 0 files scanned, 0 added, 0 removed");
    assert_eq!(r.status, "initialized");
    assert_eq!(r.timestamp, NOW);
}

#[test]
fn full_pass_end_to_end() {
    let mut config = CuratorConfig::default();
    config.min_signal_confidence = 60;
    let mut c = curator_with(config);
    let files = c.scan_daily_files(
        vec![FileStamp { path: "mem/2024-01-01.md".to_string(), modified: NOW }],
        NOW,
    );
    assert_eq!(files.len(), 1);
    let notes = vec![DailyFile {
        path: files[0].clone(),
        content: "# Decision: adopt new format\nNot a heading".to_string(),
    }];
    let signals = c.extract_signal(notes, NOW);
    assert_eq!(signals.len(), 1);
    assert!(signals[0].confidence >= 60);
    let memory = "# Memory\n- stale — Thu, 1 Jun 2023 00:00:00 +0000\n".to_string();
    let merged = c.merge_into_memory(&memory, &signals);
    assert!(merged.len() > memory.len());
    c.record_additions(signals);
    let out = c.prune_stale(&merged, NOW);
    assert_eq!(out.pruned, 1);
    let rewritten = out.rewritten.unwrap();
    assert_eq!(rewritten.len(), merged.len() - "- stale — Thu, 1 Jun 2023 00:00:00 +0000\n".len());
    assert!(rewritten.contains("Decision: adopt new format"));
    c.finalize_report();
    assert_eq!(c.report().status, "completed");
    assert_eq!(c.report().additions.len(), 1);
    assert_eq!(c.report().removals.len(), 1);
    assert_eq!(c.report().summary(), "Curator: 1 files scanned, 1 added, 1 removed");
}

#[test]
fn cutoff_is_strict() {
    assert!(!older_than_cutoff(NOW - 90 * DAY, NOW, 90));
    assert!(older_than_cutoff(NOW - 90 * DAY - 1, NOW, 90));
    assert!(!older_than_cutoff(NOW, NOW, 0));
    assert!(!older_than_cutoff(NOW + DAY, NOW, -1));
    assert!(older_than_cutoff(NOW + DAY - 1, NOW, -1));
}

#[test]
fn headline_after_unicode_space() {
    assert_eq!(extract_headlines("#\u{2003}T"), vec!["T".to_string()]);
    assert_eq!(extract_headlines("##\u{A0}\u{3000}Note"), vec!["Note".to_string()]);
    assert!(extract_headlines("#\u{200B}T").is_empty());
}

#[test]
fn date_with_unicode_space_is_found() {
    assert_eq!(
        extract_date("at Mon,\u{A0}1 Jan 2024\u{2003}00:00:00"),
        Some("Mon,\u{A0}1 Jan 2024\u{2003}00:00:00".to_string())
    );
}

#[test]
fn construction_rejects_out_of_range_settings() {
    let mut zero_window = CuratorConfig::default();
    zero_window.days_to_review = 0;
    let mut zero_prune = CuratorConfig::default();
    zero_prune.prune_threshold_days = 0;
    let mut negative_prune = CuratorConfig::default();
    negative_prune.prune_threshold_days = -3;
    let mut high_confidence = CuratorConfig::default();
    high_confidence.min_signal_confidence = 101;
    for config in [zero_window, zero_prune, negative_prune, high_confidence] {
        match MemoryCurator::new(config, true, true, NOW) {
            Err(e) => assert!(matches!(e, CuratorError::InvalidConfig(_)) && !e.is_recoverable()),
            Ok(_) => panic!("expected an invalid configuration"),
        }
    }
    let mut missing_and_bad = CuratorConfig::default();
    missing_and_bad.days_to_review = 0;
    assert!(matches!(
        MemoryCurator::new(missing_and_bad, false, true, NOW),
        Err(CuratorError::FileNotFound(_))
    ));
    let mut edge = CuratorConfig::default();
    edge.days_to_review = 1;
    edge.prune_threshold_days = 1;
    edge.min_signal_confidence = 100;
    assert!(MemoryCurator::new(edge, true, true, NOW).is_ok());
}
