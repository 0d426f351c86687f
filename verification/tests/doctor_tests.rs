use adopt::apply::{parse_cmd, root_argument, validate_root, ApplyOutcome};
use adopt::doctor::{
    junk_indices, ListedEntry, find_twin, is_executable_mode, junk_root, junk_row, outcome_line, run_doctor, should_prune,
    twin_candidates, CleanupStep, JunkEntry,
};

const HOME: &str = "/home/jsy";

fn junk(home: &str, bin: &str, twin: Option<String>) -> JunkEntry {
    JunkEntry { junk_path: format!("{home}/~/.local/bin/{bin}"), size_bytes: 20, twin }
}

/// The twin a doctor run finds for `bin`, given which candidates exist.
fn twin_of(bin: &str, local_exists: bool, cargo_exists: bool) -> Option<String> {
    let c = twin_candidates(bin, HOME);
    find_twin(&c[0], local_exists, &c[1], cargo_exists)
}

#[test]
fn validate_root_rejects_tilde() {
    let result = validate_root("~/.local", HOME);
    assert!(result.is_err(), "expected Err for ~/ prefix, got {:?}", result);
}

#[test]
fn validate_root_accepts_absolute_under_home() {
    let root = format!("{HOME}/.local");
    let result = validate_root(&root, HOME);
    assert!(result.is_ok(), "expected Ok for absolute path under $HOME `{HOME}`, got {:?}", result);
    assert_eq!(result, Ok("/home/jsy/.local".to_owned()));
}

#[test]
fn validate_root_rejects_outside_home() {
    let result = validate_root("/tmp/evil", HOME);
    assert!(result.is_err(), "expected Err for /tmp/evil, got {:?}", result);
    assert_eq!(
        result,
        Err("--root `/tmp/evil` resolves to `/tmp/evil`, outside $HOME `/home/jsy`".to_owned())
    );
}

#[test]
fn bad_prefix_outcome_never_spawns() {
    let fix_cmd = "cargo install --force --path /tmp/fake --root ~/.local";
    let argv = parse_cmd(fix_cmd);
    let root_val = root_argument(&argv);
    assert_eq!(root_val, "~/.local");
    let outcome = match validate_root(&root_val, HOME) {
        Err(reason) => ApplyOutcome::BadPrefix { resolved: reason },
        Ok(_) => ApplyOutcome::InstalledOk,
    };
    assert!(matches!(outcome, ApplyOutcome::BadPrefix { .. }), "expected BadPrefix, got {:?}", outcome);
}

#[test]
fn doctor_detects_junk() {
    let entries = vec![junk(HOME, "fake-bin", None)];
    let plan = run_doctor(HOME, &entries, false);
    assert!(plan.any_debris, "expected doctor to report debris");
    assert_eq!(plan.steps, vec![CleanupStep::Listed]);
    assert_eq!(plan.header[0], "adopt doctor: found 1 junk entry under `/home/jsy/~`");
    assert_eq!(plan.header.len(), 4);
    assert_eq!(plan.header[3], "-".repeat(90));
}

#[test]
fn doctor_clean_removes_only_with_twin() {
    let with_twin = junk(HOME, "bin-with-twin", twin_of("bin-with-twin", true, false));
    let no_twin = junk(HOME, "bin-no-twin", twin_of("bin-no-twin", false, false));
    assert_eq!(with_twin.twin, Some("/home/jsy/.local/bin/bin-with-twin".to_owned()));
    assert_eq!(no_twin.twin, None);
    let plan = run_doctor(HOME, &[with_twin, no_twin], true);
    assert!(plan.any_debris, "expected debris to be reported");
    assert_eq!(plan.steps, vec![CleanupStep::Remove, CleanupStep::KeepNoTwin]);
    assert_eq!(plan.header[0], "adopt doctor: found 2 junk entries under `/home/jsy/~`");
}

#[test]
fn doctor_clean_does_not_rm_nonempty_dir() {
    let orphan = junk(HOME, "orphan-bin", twin_of("orphan-bin", false, false));
    let plan = run_doctor(HOME, &[orphan], true);
    assert_eq!(plan.steps, vec![CleanupStep::KeepNoTwin]);
    // Nothing was removed, so no directory under the junk root is pruned.
    assert!(!should_prune(true, 0));
    assert!(should_prune(true, 1));
    assert!(!should_prune(false, 1));
}

#[test]
fn no_junk_report() {
    let plan = run_doctor(HOME, &[], true);
    assert!(!plan.any_debris);
    assert_eq!(plan.header, vec!["adopt doctor: no junk debris found under `/home/jsy/~`".to_owned()]);
    assert!(plan.steps.is_empty());
    assert_eq!(junk_root("/home/jsy/"), "/home/jsy/~");
}

#[test]
fn twin_lookup_order() {
    assert_eq!(twin_of("x", true, true), Some("/home/jsy/.local/bin/x".to_owned()));
    assert_eq!(twin_of("x", false, true), Some("/home/jsy/.cargo/bin/x".to_owned()));
    assert_eq!(twin_of("x", false, false), None);
}

#[test]
fn executable_bits() {
    assert!(is_executable_mode(0o755));
    assert!(is_executable_mode(0o100));
    assert!(is_executable_mode(0o001));
    assert!(!is_executable_mode(0o644));
}

#[test]
fn rows_and_outcome_lines() {
    let e = JunkEntry { junk_path: "/h/~/.local/bin/a".to_owned(), size_bytes: 1234, twin: None };
    let row = junk_row(&e);
    assert_eq!(row, format!("{:<60} {:>7}B {}", "/h/~/.local/bin/a", 1234, "(none)"));
    let t = JunkEntry { twin: Some("/h/.local/bin/a".to_owned()), ..e.clone() };
    assert_eq!(junk_row(&t), format!("{:<60} {:>7}B {}", "/h/~/.local/bin/a", 1234, "/h/.local/bin/a"));
    assert_eq!(outcome_line("/p", CleanupStep::Listed, None), None);
    assert_eq!(outcome_line("/p", CleanupStep::Remove, None), Some("  → removed: /p".to_owned()));
    assert_eq!(
        outcome_line("/p", CleanupStep::Remove, Some("denied")),
        Some("  → WARN: could not remove /p: denied".to_owned())
    );
    assert_eq!(
        outcome_line("/p", CleanupStep::KeepNoTwin, None),
        Some("  → kept (no twin): /p — remove manually if safe".to_owned())
    );
}

#[test]
fn table_header_matches_format() {
    let plan = run_doctor(HOME, &[junk(HOME, "a", None)], false);
    assert_eq!(plan.header[2], format!("{:<60} {:<8} TWIN", "JUNK_PATH", "SIZE"));
    assert_eq!(plan.header[1], "");
}

fn listed(name: &str, depth: usize, is_dir: bool, mode: u32) -> ListedEntry {
    ListedEntry { name: name.to_owned(), depth, is_dir, is_file: !is_dir, mode }
}

#[test]
fn junk_needs_cargo_marker_and_exec_bit() {
    let tree = vec![
        listed(".local", 0, true, 0o755),
        listed(".crates.toml", 1, false, 0o644),
        listed("bin", 1, true, 0o755),
        listed("fake-bin", 2, false, 0o755),
        listed("notes.txt", 2, false, 0o644),
    ];
    assert_eq!(junk_indices(&tree), vec![3]);
    // Without the cargo marker nothing is junk.
    let unmarked = vec![listed(".local", 0, true, 0o755), listed("fake-bin", 1, false, 0o755)];
    assert!(junk_indices(&unmarked).is_empty());
    // A marker deeper than three levels does not count.
    let deep = vec![listed(".crates.toml", 4, false, 0o644), listed("x", 0, false, 0o755)];
    assert!(junk_indices(&deep).is_empty());
}
