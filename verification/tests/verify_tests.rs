use std::collections::{HashMap, HashSet};

use adopt::types::{ArtifactResult, FreshnessBasis, Verdict};
use adopt::verify::{
    any_not_current, classify, needs_location_probes, needs_smoke_probe, off_path_location,
    run_verify, summary_line, wrong_prefix_candidates, ClassifiedArtifact, ClassifyProbes,
    StaleReason, VerifyArgs, VerifyFormat,
};

fn make_artifact(
    bin: &str,
    verdict: Verdict,
    installed_path: Option<&str>,
    source_ts: Option<i64>,
    installed_ts: Option<i64>,
) -> ArtifactResult {
    ArtifactResult {
        repo: "/tmp/fake-repo".to_owned(),
        bin: bin.to_owned(),
        verdict,
        installed_path: installed_path.map(ToOwned::to_owned),
        is_daemon: false,
        source_commit_ts: source_ts,
        installed_ts,
        fix_cmd: String::new(),
        age_vs_head: None,
        freshness_basis: FreshnessBasis::ClockFallback,
    }
}

/// What the machine reports for a binary that runs fine and sits nowhere odd.
fn healthy() -> ClassifyProbes {
    ClassifyProbes { wrong_prefix: None, off_path: None, smoke_fail: false }
}

#[test]
fn new_ac2_day_threshold_split() {
    let now = 2_000_000_000_i64;
    let zero_days_newer = now;
    let eight_days_newer = now + 8 * 86400;

    let artifact_0d = make_artifact(
        "true",
        Verdict::InstalledStale,
        Some("/usr/bin/true"),
        Some(zero_days_newer),
        Some(now),
    );
    let c_0d = classify(&artifact_0d, 2, &healthy());
    if !matches!(c_0d.reason, StaleReason::SmokeFail) {
        assert_eq!(
            c_0d.reason,
            StaleReason::SourceNewerSameday,
            "0d-newer should be SourceNewerSameday at threshold 2, got {:?}",
            c_0d.reason
        );
    }

    let artifact_8d = make_artifact(
        "true",
        Verdict::InstalledStale,
        Some("/usr/bin/true"),
        Some(eight_days_newer),
        Some(now),
    );
    let c_8d = classify(&artifact_8d, 2, &healthy());
    if !matches!(c_8d.reason, StaleReason::SmokeFail) {
        assert_eq!(
            c_8d.reason,
            StaleReason::SourceNewerBehind,
            "8d-newer should be SourceNewerBehind at threshold 2, got {:?}",
            c_8d.reason
        );
    }
}

#[test]
fn new_ac3_behind_days_zero() {
    let now = 2_000_000_000_i64;
    let artifact =
        make_artifact("true", Verdict::InstalledStale, Some("/usr/bin/true"), Some(now + 1), Some(now));
    let c = classify(&artifact, 0, &healthy());
    if !matches!(c.reason, StaleReason::SmokeFail) {
        assert_eq!(
            c.reason,
            StaleReason::SourceNewerBehind,
            "--behind-days 0 should put all source-newer in Behind, got {:?}",
            c.reason
        );
    }
}

#[test]
fn ac2_wrong_prefix_detected() {
    // The binary sits at $HOME/~/.local/bin/mybin: the first bogus-prefix candidate.
    let home = "/tmp/adopt-home";
    let candidates = wrong_prefix_candidates(home, "mybin");
    assert_eq!(candidates[0], "/tmp/adopt-home/~/.local/bin/mybin");
    let artifact = make_artifact("mybin", Verdict::NotInstalled, None, None, None);
    assert!(needs_location_probes(&artifact));
    let probes = ClassifyProbes {
        wrong_prefix: Some(candidates[0].clone()),
        off_path: None,
        smoke_fail: false,
    };
    let c = classify(&artifact, 2, &probes);
    assert_eq!(c.bin, "mybin");
    assert_eq!(c.reason, StaleReason::WrongPrefix, "expected WrongPrefix, got {:?}: {}", c.reason, c.detail);
    assert_eq!(c.detail, "binary found at bogus prefix: /tmp/adopt-home/~/.local/bin/mybin");
}

#[test]
fn ac3_off_path_detected() {
    // ~/.local/bin/offpathbin exists but PATH (/usr/bin:/bin) does not reach it.
    let local = "/tmp/adopt-home/.local/bin/offpathbin";
    let cargo = "/tmp/adopt-home/.cargo/bin/offpathbin";
    let off = off_path_location(local, true, cargo, false, false);
    assert_eq!(off, Some(local.to_owned()));
    let artifact = make_artifact("offpathbin", Verdict::NotInstalled, None, None, None);
    let probes = ClassifyProbes { wrong_prefix: None, off_path: off, smoke_fail: false };
    let c = classify(&artifact, 2, &probes);
    assert_eq!(c.reason, StaleReason::OffPath, "expected OffPath, got {:?}: {}", c.reason, c.detail);
    assert_eq!(c.detail, "installed at /tmp/adopt-home/.local/bin/offpathbin but not on PATH");
}

#[test]
fn ac4_source_newer_detected() {
    let artifact = make_artifact(
        "true",
        Verdict::InstalledStale,
        Some("/usr/bin/true"),
        Some(2_000_000_000),
        Some(1_000_000_000),
    );
    let c = classify(&artifact, 2, &healthy());
    assert!(
        matches!(
            c.reason,
            StaleReason::SourceNewerSameday | StaleReason::SourceNewerBehind | StaleReason::SmokeFail
        ),
        "expected split SourceNewer or SmokeFail, got {:?}",
        c.reason
    );
    assert_eq!(c.reason, StaleReason::SourceNewerBehind);
    assert_eq!(c.detail, "source is 11574d newer than installed binary");
}

#[test]
fn new_ac4_summary_per_bucket_counts() {
    let classified = vec![
        ClassifiedArtifact {
            bin: "a".to_owned(),
            reason: StaleReason::SourceNewerBehind,
            detail: "source is 8d newer".to_owned(),
        },
        ClassifiedArtifact {
            bin: "b".to_owned(),
            reason: StaleReason::SourceNewerSameday,
            detail: "source is 0d newer".to_owned(),
        },
        ClassifiedArtifact {
            bin: "c".to_owned(),
            reason: StaleReason::SourceNewerBehind,
            detail: "source is 5d newer".to_owned(),
        },
    ];

    let mut counts: HashMap<&'static str, usize> = HashMap::new();
    for c in &classified {
        *counts.entry(c.reason.display_name()).or_insert(0) += 1;
    }

    assert_eq!(*counts.get("SourceNewer-behind").unwrap_or(&0), 2, "expected 2 SourceNewer-behind");
    assert_eq!(*counts.get("SourceNewer-sameday").unwrap_or(&0), 1, "expected 1 SourceNewer-sameday");
    assert_eq!(*counts.get("SourceNewer").unwrap_or(&0), 0, "bare SourceNewer should not appear in summary");
    assert_eq!(
        summary_line(&classified),
        "verify: 3 total · {SourceNewer-behind: 2, SourceNewer-sameday: 1}"
    );
}

#[test]
fn new_ac5_exit_code_contract() {
    let not_installed = Verdict::NotInstalled;
    let stale = Verdict::InstalledStale;
    assert!(not_installed.is_actionable(), "NotInstalled should be actionable");
    assert!(stale.is_actionable(), "InstalledStale should be actionable");

    let current = Verdict::InstalledCurrent;
    let not_a_bin = Verdict::NotABin;
    assert!(!current.is_actionable(), "InstalledCurrent should not be actionable");
    assert!(!not_a_bin.is_actionable(), "NotABin should not be actionable");
}

#[test]
fn ac5_summary_counts() {
    let classified = vec![
        ClassifiedArtifact {
            bin: "a".to_owned(),
            reason: StaleReason::NeverInstalled,
            detail: "not found".to_owned(),
        },
        ClassifiedArtifact {
            bin: "b".to_owned(),
            reason: StaleReason::OffPath,
            detail: "in ~/.local/bin but not PATH".to_owned(),
        },
        ClassifiedArtifact {
            bin: "c".to_owned(),
            reason: StaleReason::NeverInstalled,
            detail: "not found".to_owned(),
        },
    ];

    let mut counts: HashMap<&'static str, usize> = HashMap::new();
    for c in &classified {
        *counts.entry(c.reason.display_name()).or_insert(0) += 1;
    }

    assert_eq!(*counts.get("NeverInstalled").unwrap_or(&0), 2);
    assert_eq!(*counts.get("OffPath").unwrap_or(&0), 1);
    assert_eq!(classified.len(), 3);
    assert_eq!(summary_line(&classified), "verify: 3 total · {NeverInstalled: 2, OffPath: 1}");
}

#[test]
fn ac6_distinct_docket_slugs() {
    let reasons = [
        StaleReason::NeverInstalled,
        StaleReason::WrongPrefix,
        StaleReason::OffPath,
        StaleReason::SourceNewerSameday,
        StaleReason::SourceNewerBehind,
        StaleReason::BuildFail,
        StaleReason::SmokeFail,
    ];
    let slugs: Vec<&'static str> = reasons.iter().map(|r| r.docket_slug()).collect();
    let unique: HashSet<&&str> = slugs.iter().collect();
    assert_eq!(unique.len(), slugs.len(), "docket slugs must all be distinct");
}

#[test]
fn empty_summary_says_all_current() {
    assert_eq!(summary_line(&[]), "verify: 0 total · all current");
    assert!(!any_not_current(&[]));
}

#[test]
fn never_installed_and_smoke_fail_details() {
    let missing = make_artifact("ghost", Verdict::NotInstalled, None, None, None);
    let c = classify(&missing, 2, &healthy());
    assert_eq!(c.reason, StaleReason::NeverInstalled);
    assert_eq!(c.detail, "not found in ~/.local/bin, ~/.cargo/bin, or PATH");

    let broken = make_artifact("brk", Verdict::InstalledStale, Some("/x/brk"), None, None);
    assert!(needs_smoke_probe(&broken));
    let probes = ClassifyProbes { wrong_prefix: None, off_path: None, smoke_fail: true };
    let c = classify(&broken, 2, &probes);
    assert_eq!(c.reason, StaleReason::SmokeFail);
    assert_eq!(c.detail, "brk --version / --help exited non-zero");

    let unknown_ts = make_artifact("u", Verdict::InstalledStale, Some("/x/u"), None, Some(5));
    let c = classify(&unknown_ts, 2, &healthy());
    assert_eq!(c.reason, StaleReason::SourceNewerSameday);
    assert_eq!(c.detail, "source HEAD is newer than installed binary");
}

#[test]
fn negative_delta_rounds_toward_zero() {
    // Source older than the binary by a day and a half: -1 day, below any threshold.
    let a = make_artifact("t", Verdict::InstalledStale, Some("/x/t"), Some(1_000_000), Some(1_129_600));
    let c = classify(&a, 0, &healthy());
    assert_eq!(c.reason, StaleReason::SourceNewerSameday);
    assert_eq!(c.detail, "source is -1d newer than installed binary");
}

#[test]
fn off_path_prefers_local_and_respects_path() {
    assert_eq!(off_path_location("/l", true, "/c", true, false), Some("/l".to_owned()));
    assert_eq!(off_path_location("/l", false, "/c", true, false), Some("/c".to_owned()));
    assert_eq!(off_path_location("/l", true, "/c", true, true), None);
    assert_eq!(off_path_location("/l", false, "/c", false, false), None);
}

#[test]
fn run_verify_classifies_only_actionable_artifacts() {
    let results = vec![
        make_artifact("cur", Verdict::InstalledCurrent, Some("/x/cur"), Some(1), Some(2)),
        make_artifact("gone", Verdict::NotInstalled, None, None, None),
        make_artifact("old", Verdict::InstalledStale, Some("/x/old"), Some(10 * 86400), Some(0)),
        make_artifact("(library)", Verdict::NotABin, None, None, None),
    ];
    let probes = vec![healthy(), healthy(), healthy(), healthy()];
    let args = VerifyArgs { format: VerifyFormat::Table, behind_days: 2 };
    let out = run_verify(&args, &results, &probes);
    assert_eq!(out.len(), 2);
    assert_eq!(out[0].bin, "gone");
    assert_eq!(out[0].reason, StaleReason::NeverInstalled);
    assert_eq!(out[1].bin, "old");
    assert_eq!(out[1].reason, StaleReason::SourceNewerBehind);
    assert_eq!(out[1].detail, "source is 10d newer than installed binary");
    assert!(any_not_current(&out));
}

#[test]
fn new_ac1_no_bare_sourcenewer_in_json() {
    let artifact = make_artifact(
        "true",
        Verdict::InstalledStale,
        Some("/usr/bin/true"),
        Some(2_000_000_000),
        Some(1_000_000_000),
    );
    let c = classify(&artifact, 2, &healthy());
    let reason_str = format!("{:?}", c.reason);
    assert!(reason_str != "SourceNewer", "bare 'SourceNewer' must not appear; got: {reason_str}");
    assert!(
        matches!(c.reason, StaleReason::SourceNewerSameday | StaleReason::SourceNewerBehind | StaleReason::SmokeFail),
        "expected split variant, got: {:?}",
        c.reason
    );
}
