use adopt::apply::{apply_table, ApplyOutcome, ApplyResult};
use adopt::converge::{trend_table, ConvergeRecord};
use adopt::marker::clean_head_fingerprint;
use adopt::reconcile::{decide_reconcile, MarkerLookup, ReconcileFacts, ReconcileOutcome};
use adopt::report::partition_artifacts;
use adopt::scan::{commit_hash, count_actionable, derive_verdict, scan_table};
use adopt::types::{ArtifactResult, FreshnessBasis, Verdict};
use adopt::verify::{smoke_after, verify_table, ClassifiedArtifact, StaleReason};

fn art(bin: &str, verdict: Verdict, basis: FreshnessBasis, fix: &str, age: Option<&str>, daemon: bool) -> ArtifactResult {
    ArtifactResult {
        repo: format!("/wm/{bin}"),
        bin: bin.to_owned(),
        verdict,
        installed_path: None,
        is_daemon: daemon,
        source_commit_ts: None,
        installed_ts: None,
        fix_cmd: fix.to_owned(),
        age_vs_head: age.map(ToOwned::to_owned),
        freshness_basis: basis,
    }
}

#[test]
fn scan_table_rows() {
    assert_eq!(scan_table(&[]), vec!["All scanned artifacts are adopted and current."]);
    let rows = scan_table(&[
        art("foo", Verdict::NotInstalled, FreshnessBasis::ClockFallback, "cargo install x", Some("3d stale (never installed)"), false),
        art("wmd", Verdict::InstalledCurrent, FreshnessBasis::Lineage, "", None, true),
    ]);
    assert_eq!(rows.len(), 4);
    assert_eq!(rows[0], format!("{:<20} {:<20} {:<18} {:<12} FIX", "BIN", "VERDICT", "AGE-VS-HEAD", "DAEMON"));
    assert_eq!(rows[1], "-".repeat(100));
    assert_eq!(
        rows[2],
        format!("{:<20} {:<20} {:<18} {:<12} {}", "foo", "not-installed", "3d stale (never installed)", "", "cargo install x")
    );
    assert_eq!(rows[3], format!("{:<20} {:<20} {:<18} {:<12} {}", "wmd", "installed-current", "-", "daemon", ""));
}

#[test]
fn verify_table_rows() {
    assert_eq!(verify_table(&[]), vec!["All artifacts are current."]);
    let rows = verify_table(&[ClassifiedArtifact {
        bin: "a".to_owned(),
        reason: StaleReason::SourceNewerBehind,
        detail: "source is 8d newer than installed binary".to_owned(),
    }]);
    assert_eq!(rows[0], format!("{:<25} {:<18} DETAIL", "BIN", "REASON"));
    assert_eq!(rows[1], "-".repeat(80));
    assert_eq!(rows[2], format!("{:<25} {:<18} {}", "a", "SourceNewer-behind", "source is 8d newer than installed binary"));
}

fn rec(run: &str, total: u32, behind: u32) -> ConvergeRecord {
    ConvergeRecord {
        run: run.to_owned(),
        ts: "t".to_owned(),
        total,
        behind,
        dirty_blocked: 1,
        fallback: 2,
        lineage_current: total - behind,
    }
}

#[test]
fn trend_table_rows() {
    assert_eq!(trend_table(&[]), vec!["No convergence records found."]);
    let rows = trend_table(&[rec("r1", 10, 4), rec("r2", 12, 3)]);
    assert_eq!(
        rows[0],
        format!(
            "{:<22} {:>7} {:>8} {:>14} {:>10} {:>17}",
            "RUN", "TOTAL", "BEHIND", "DIRTY-BLOCKED", "FALLBACK", "LINEAGE-CURRENT"
        )
    );
    assert_eq!(rows[1], "-".repeat(85));
    assert_eq!(
        rows[2],
        format!("{:<22} {:>5}{} {:>6}{} {:>12}{} {:>8}{} {:>15}{}", "r1", 10, '=', 4, '=', 1, '=', 2, '=', 6, '=')
    );
    assert_eq!(
        rows[3],
        format!("{:<22} {:>5}{} {:>6}{} {:>12}{} {:>8}{} {:>15}{}", "r2", 12, '▲', 3, '▼', 1, '=', 2, '=', 9, '▲')
    );
}

#[test]
fn apply_table_rows() {
    assert_eq!(apply_table(&[]), vec!["Nothing to apply."]);
    let rows = apply_table(&[
        ApplyResult { bin: "foo".to_owned(), verdict: ApplyOutcome::InstalledOk, elapsed_ms: 12 },
        ApplyResult {
            bin: "bar".to_owned(),
            verdict: ApplyOutcome::BadPrefix { resolved: "r".to_owned() },
            elapsed_ms: 0,
        },
    ]);
    assert_eq!(rows[0], format!("{:<25} {:<30} {:>8}", "BIN", "OUTCOME", "MS"));
    assert_eq!(rows[1], "-".repeat(68));
    assert_eq!(rows[2], format!("{:<25} {:<30} {:>8}", "foo", "installed-ok", 12));
    assert_eq!(rows[3], format!("{:<25} {:<30} {:>8}", "bar", "bad-prefix: r", 0));
}

#[test]
fn buckets_cover_exactly_the_actionable() {
    let arts = vec![
        art("a", Verdict::InstalledStale, FreshnessBasis::Lineage, "x", None, false),
        art("b", Verdict::InstalledStale, FreshnessBasis::ClockFallback, "x", None, false),
        art("c", Verdict::NotInstalled, FreshnessBasis::ClockFallback, "x", None, false),
        art("d", Verdict::InstalledCurrent, FreshnessBasis::Lineage, "", None, false),
        art("e", Verdict::NotABin, FreshnessBasis::ClockFallback, "", None, false),
        art("f", Verdict::NotInstalled, FreshnessBasis::ClockFallback, "x", None, true),
    ];
    let (l, c, n) = partition_artifacts(&arts);
    assert_eq!(count_actionable(&arts), 4);
    assert_eq!(l.len() + c.len() + n.len(), count_actionable(&arts));
}

#[test]
fn smoke_test_steps() {
    assert_eq!(smoke_after(Some(true), false), Some(false));
    assert_eq!(smoke_after(Some(false), false), None);
    assert_eq!(smoke_after(Some(false), true), Some(true));
    assert_eq!(smoke_after(None, false), Some(true));
}

#[test]
fn seeded_marker_reads_current() {
    let facts = ReconcileFacts {
        marker: MarkerLookup::Absent,
        installed: true,
        dirty: false,
        head: Some("abc123".to_owned()),
        binary_mtime: Some(10),
        prev_commit_ts: Some(5),
    };
    let fp = match decide_reconcile(&facts, false, true) {
        ReconcileOutcome::Seeded { fingerprint, .. } => fingerprint,
        other => panic!("expected Seeded, got {other:?}"),
    };
    // The clock alone would call it stale (1 < 2); lineage says current.
    let (v, basis) = derive_verdict(true, Some(1), Some(2), Some(&fp), Some("abc123"));
    assert_eq!(v, Verdict::InstalledCurrent);
    assert_eq!(basis, FreshnessBasis::Lineage);
}

#[test]
fn clean_install_reads_current() {
    let out = "0123456789abcdef\n";
    let fp = clean_head_fingerprint(false, Some(out)).unwrap().to_text();
    let head = commit_hash(out).unwrap();
    let (v, basis) = derive_verdict(true, Some(1), Some(2), Some(&fp), Some(&head));
    assert_eq!(v, Verdict::InstalledCurrent);
    assert_eq!(basis, FreshnessBasis::Lineage);
}
