use adopt::apply::{
    apply_after_install, apply_after_invokable, apply_after_rollout, apply_after_rollout_check,
    apply_begin, parse_cmd, root_argument, validate_root, ApplyOutcome, ApplyResult, ApplyRun,
    ApplyStep, SpawnOutcome,
};
use adopt::types::{ArtifactResult, FreshnessBasis, Verdict};

const HOME: &str = "/home/joe";

fn artifact(bin: &str, verdict: Verdict, is_daemon: bool, fix_cmd: &str) -> ArtifactResult {
    ArtifactResult {
        repo: format!("/home/joe/wintermute/{bin}"),
        bin: bin.to_owned(),
        verdict,
        installed_path: None,
        is_daemon,
        source_commit_ts: None,
        installed_ts: None,
        fix_cmd: fix_cmd.to_owned(),
        age_vs_head: None,
        freshness_basis: FreshnessBasis::ClockFallback,
    }
}

#[test]
fn parse_cmd_basic() {
    let argv = parse_cmd("cargo install --path /home/joe/wintermute/foo --root ~/.local");
    assert_eq!(
        argv,
        vec!["cargo", "install", "--path", "/home/joe/wintermute/foo", "--root", "~/.local"]
    );
}

#[test]
fn parse_cmd_metachar_in_path() {
    let argv = parse_cmd("cargo install --path /tmp/my;evil--path --root /tmp");
    assert!(argv.contains(&"/tmp/my;evil--path".to_owned()));
}

#[test]
fn apply_outcome_eq() {
    assert_eq!(ApplyOutcome::InstalledOk, ApplyOutcome::InstalledOk);
    assert_ne!(ApplyOutcome::InstalledOk, ApplyOutcome::InstalledCurrent);
}

#[test]
fn parse_cmd_preserves_semicolon_literally() {
    let cmd = "cargo install --path /tmp/repo;rm${IFS}/tmp/evil --root /tmp/out";
    let argv = parse_cmd(cmd);
    assert_eq!(argv[3], "/tmp/repo;rm${IFS}/tmp/evil", "metacharacters preserved as literal");
    assert_eq!(argv.len(), 6, "no shell splitting on semicolon");
}

#[test]
fn failed_outcome_is_terminal() {
    let mut run = ApplyRun::new();
    run.record(ApplyResult { bin: "a".to_owned(), verdict: ApplyOutcome::InstalledOk, elapsed_ms: 0 });
    assert!(!run.halted());
    run.record(ApplyResult {
        bin: "b".to_owned(),
        verdict: ApplyOutcome::Failed { reason: "install exited 1".to_owned() },
        elapsed_ms: 0,
    });
    assert!(run.halted());
    let outcomes: Vec<ApplyOutcome> = run.finish().into_iter().map(|r| r.verdict).collect();
    let failed_pos = outcomes.iter().position(|o| matches!(o, ApplyOutcome::Failed { .. }));
    assert_eq!(failed_pos, Some(1), "failed at index 1");
    let after_failure = &outcomes[failed_pos.expect("has failure") + 1..];
    assert!(after_failure.is_empty(), "no outcomes should follow a failure");
}

#[test]
fn failed_outcome_names_artifact() {
    let outcome = apply_after_rollout(&SpawnOutcome::Exited { success: false, code: Some(1) });
    match outcome {
        ApplyOutcome::Failed { reason } => {
            assert!(reason.contains("exited"), "reason should describe the failure: {reason}");
            assert_eq!(reason, "rollout install exited Some(1)");
        }
        other => panic!("expected Failed, got {other:?}"),
    }
}

#[test]
fn daemon_skipped_when_rollout_absent() {
    let outcome = ApplyOutcome::SkippedDaemonsNotRequested;
    assert_eq!(outcome, ApplyOutcome::SkippedDaemonsNotRequested);
    assert_ne!(outcome, ApplyOutcome::InstalledOk);
    let a = artifact("wmd", Verdict::NotInstalled, true, "rollout install /home/joe/wintermute/wmd");
    match apply_after_rollout_check(&a, false, true, false) {
        ApplyStep::Finish(o) => assert_eq!(o, ApplyOutcome::SkippedDaemonsNotRequested),
        _ => panic!("expected SkippedDaemonsNotRequested"),
    }
}

#[test]
fn current_artifact_is_left_alone() {
    let a = artifact("foo", Verdict::InstalledCurrent, false, "");
    match apply_begin(&a, false, true, false, HOME) {
        ApplyStep::Finish(o) => assert_eq!(o, ApplyOutcome::InstalledCurrent),
        _ => panic!("expected InstalledCurrent"),
    }
}

#[test]
fn daemon_is_skipped_without_with_daemons() {
    let a = artifact("wmd", Verdict::NotInstalled, true, "rollout install /x");
    match apply_begin(&a, false, true, false, HOME) {
        ApplyStep::Finish(ApplyOutcome::SkippedDaemon { note }) => {
            assert_eq!(note, "wmd is a daemon; use `rollout install` or pass --with-daemons");
        }
        _ => panic!("expected SkippedDaemon"),
    }
    assert!(matches!(apply_begin(&a, true, true, false, HOME), ApplyStep::CheckRollout));
}

#[test]
fn daemon_rollout_dry_run_and_execute() {
    let a = artifact("wmd", Verdict::NotInstalled, true, "");
    match apply_after_rollout_check(&a, true, true, false) {
        ApplyStep::DryRun { line, outcome } => {
            assert_eq!(line, "[dry-run] would run: rollout install /home/joe/wintermute/wmd");
            assert_eq!(outcome, ApplyOutcome::RolloutDelegated);
        }
        _ => panic!("expected a dry-run line"),
    }
    match apply_after_rollout_check(&a, true, false, true) {
        ApplyStep::RunRollout { repo } => assert_eq!(repo, "/home/joe/wintermute/wmd"),
        _ => panic!("expected RunRollout"),
    }
    assert_eq!(
        apply_after_rollout(&SpawnOutcome::Exited { success: true, code: Some(0) }),
        ApplyOutcome::RolloutDelegated
    );
    assert_eq!(
        apply_after_rollout(&SpawnOutcome::SpawnError { message: "not found".to_owned() }),
        ApplyOutcome::Failed { reason: "could not spawn rollout: not found".to_owned() }
    );
}

#[test]
fn empty_fix_cmd_has_nothing_to_run() {
    let a = artifact("foo", Verdict::NotInstalled, false, "");
    match apply_begin(&a, false, false, true, HOME) {
        ApplyStep::Finish(o) => assert_eq!(o, ApplyOutcome::NoRollout),
        _ => panic!("expected NoRollout"),
    }
}

#[test]
fn dry_run_prints_the_fix_command() {
    let cmd = "cargo install --path /home/joe/wintermute/foo --root /home/joe/.local";
    let a = artifact("foo", Verdict::NotInstalled, false, cmd);
    match apply_begin(&a, false, true, false, HOME) {
        ApplyStep::DryRun { line, outcome } => {
            assert_eq!(line, format!("[dry-run] would run: {cmd}"));
            assert_eq!(outcome, ApplyOutcome::InstalledOk);
        }
        _ => panic!("expected a dry-run line"),
    }
    // Without --execute the run stays a dry run even when dry_run is false.
    assert!(matches!(apply_begin(&a, false, false, false, HOME), ApplyStep::DryRun { .. }));
}

#[test]
fn execute_spawns_argv_without_a_shell() {
    let cmd = "cargo install --path /home/joe/wintermute/foo --root /home/joe/.local";
    let a = artifact("foo", Verdict::NotInstalled, false, cmd);
    match apply_begin(&a, false, false, true, HOME) {
        ApplyStep::RunInstall { program, args } => {
            assert_eq!(program, "cargo");
            assert_eq!(
                args,
                vec!["install", "--path", "/home/joe/wintermute/foo", "--root", "/home/joe/.local"]
            );
        }
        _ => panic!("expected RunInstall"),
    }
}

#[test]
fn tilde_root_in_fix_cmd_is_bad_prefix() {
    let cmd = "cargo install --path /home/joe/wintermute/foo --root ~/.local";
    let a = artifact("foo", Verdict::NotInstalled, false, cmd);
    match apply_begin(&a, false, false, true, HOME) {
        ApplyStep::Finish(ApplyOutcome::BadPrefix { resolved }) => {
            assert_eq!(resolved, "--root `~/.local` contains a literal `~`");
        }
        _ => panic!("expected BadPrefix"),
    }
}

#[test]
fn install_exit_codes_map_to_outcomes() {
    assert!(apply_after_install("foo", "cargo", &SpawnOutcome::Exited { success: true, code: Some(0) })
        .is_none());
    assert_eq!(
        apply_after_install("foo", "cargo", &SpawnOutcome::Exited { success: false, code: Some(101) }),
        Some(ApplyOutcome::Failed { reason: "foo install exited Some(101)".to_owned() })
    );
    assert_eq!(
        apply_after_install("foo", "cargo", &SpawnOutcome::Exited { success: false, code: None }),
        Some(ApplyOutcome::Failed { reason: "foo install exited None".to_owned() })
    );
    assert_eq!(
        apply_after_install("foo", "cargo", &SpawnOutcome::SpawnError { message: "boom".to_owned() }),
        Some(ApplyOutcome::Failed { reason: "could not spawn cargo: boom".to_owned() })
    );
}

#[test]
fn invokable_check_decides_success() {
    assert_eq!(apply_after_invokable("foo", true), ApplyOutcome::InstalledOk);
    assert_eq!(
        apply_after_invokable("foo", false),
        ApplyOutcome::Failed {
            reason: "foo install exited 0 but `foo --version` / `--help` failed".to_owned()
        }
    );
}

#[test]
fn root_argument_finds_the_root_value() {
    let argv = parse_cmd("cargo install --path /x --root /home/joe/.local");
    assert_eq!(root_argument(&argv), "/home/joe/.local");
    let argv = parse_cmd("cargo install --path /x");
    assert_eq!(root_argument(&argv), "");
    let argv = parse_cmd("cargo install --root");
    assert_eq!(root_argument(&argv), "");
}

#[test]
fn validate_root_normalises_dot_dot() {
    assert_eq!(validate_root("/home/joe/./x/../.local", HOME), Ok("/home/joe/.local".to_owned()));
    assert_eq!(
        validate_root("/home/joe/../evil", HOME),
        Err("--root `/home/joe/../evil` resolves to `/home/evil`, outside $HOME `/home/joe`".to_owned())
    );
    assert_eq!(
        validate_root("relative/dir", HOME),
        Ok("relative/dir".to_owned())
    );
    assert_eq!(
        validate_root("/home/joe/.local", "joe"),
        Err("$HOME `joe` is not an absolute path".to_owned())
    );
}

#[test]
fn apply_run_stops_at_first_failure() {
    let mut run = ApplyRun::new();
    assert!(!run.halted());
    run.record(ApplyResult { bin: "a".to_owned(), verdict: ApplyOutcome::NoRollout, elapsed_ms: 3 });
    run.record(ApplyResult {
        bin: "b".to_owned(),
        verdict: ApplyOutcome::Failed { reason: "x".to_owned() },
        elapsed_ms: 4,
    });
    assert!(run.halted());
    let results = run.finish();
    assert_eq!(results.len(), 2);
    assert_eq!(results[0].bin, "a");
    assert_eq!(results[1].elapsed_ms, 4);
}

#[test]
fn fix_cmd_without_root_runs_as_before() {
    let cmd = "cargo install --path /home/joe/wintermute/foo";
    let a = artifact("foo", Verdict::NotInstalled, false, cmd);
    match apply_begin(&a, false, false, true, HOME) {
        ApplyStep::RunInstall { program, args } => {
            assert_eq!(program, "cargo");
            assert_eq!(args, vec!["install", "--path", "/home/joe/wintermute/foo"]);
        }
        _ => panic!("expected RunInstall"),
    }
    assert_eq!(validate_root("", HOME), Ok(String::new()));
    assert!(validate_root("rel/x~", HOME).is_ok());
    assert!(validate_root("rel/~x", HOME).is_err());
    assert!(validate_root("rel/~/x", HOME).is_err());
}
