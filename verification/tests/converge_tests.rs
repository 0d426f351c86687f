use adopt::converge::{
    append_if_new, last_records, check_convergence, convergence_finding_args, first_kept, should_append, trend_marker,
    ConvergeRecord,
};

fn make_rec(run: &str, behind: u32) -> ConvergeRecord {
    ConvergeRecord {
        run: run.to_owned(),
        ts: "2026-06-13T00:00:00Z".to_owned(),
        total: 10,
        behind,
        dirty_blocked: 0,
        fallback: 0,
        lineage_current: 10 - behind,
    }
}

fn rec(run: &str, behind: u32) -> ConvergeRecord {
    ConvergeRecord {
        run: run.to_owned(),
        ts: "2026-06-13T00:00:00Z".to_owned(),
        total: 20,
        behind,
        dirty_blocked: 0,
        fallback: 0,
        lineage_current: 20 - behind,
    }
}

#[test]
fn no_alert_when_behind_zero() {
    let records = vec![make_rec("r1", 3), make_rec("r2", 0)];
    assert!(check_convergence(&records, 4).is_none());
}

#[test]
fn alert_on_regression() {
    let records = vec![make_rec("r1", 2), make_rec("r2", 5)];
    let alert = check_convergence(&records, 4).expect("should alert");
    assert!(!alert.is_stall);
    assert_eq!(alert.behind, 5);
}

#[test]
fn no_alert_when_decreasing() {
    let records = vec![make_rec("r1", 5), make_rec("r2", 3)];
    assert!(check_convergence(&records, 4).is_none());
}

#[test]
fn stall_alert_after_n_runs() {
    let records = vec![make_rec("r1", 3), make_rec("r2", 3), make_rec("r3", 3), make_rec("r4", 3)];
    let alert = check_convergence(&records, 4).expect("stall alert");
    assert!(alert.is_stall);
}

#[test]
fn no_stall_below_threshold() {
    let records = vec![make_rec("r1", 3), make_rec("r2", 3), make_rec("r3", 3)];
    assert!(check_convergence(&records, 4).is_none());
}

#[test]
fn trend_marker_directions() {
    assert_eq!(trend_marker(5, Some(3)), '▲');
    assert_eq!(trend_marker(3, Some(5)), '▼');
    assert_eq!(trend_marker(3, Some(3)), '=');
    assert_eq!(trend_marker(3, None), '=');
}

#[test]
fn ac2_alert_when_behind_increases() {
    let ledger = vec![rec("r1", 2), rec("r2", 5)];
    let alert = check_convergence(&ledger, 4);
    assert!(alert.is_some(), "must alert when behind increases");
    let a = alert.unwrap();
    assert!(!a.is_stall, "regression alert must not be marked as stall");
    assert_eq!(a.behind, 5);
}

#[test]
fn ac2_no_alert_when_behind_decreasing() {
    let ledger = vec![rec("r1", 8), rec("r2", 5), rec("r3", 3), rec("r4", 1)];
    assert!(check_convergence(&ledger, 4).is_none());
}

#[test]
fn ac3_no_alert_when_behind_zero() {
    let ledger = vec![rec("r1", 4), rec("r2", 2), rec("r3", 0)];
    assert!(check_convergence(&ledger, 4).is_none(), "no alert once behind reaches 0");
}

#[test]
fn ac3_still_no_alert_if_last_is_zero_despite_earlier_regression() {
    let ledger = vec![rec("r1", 1), rec("r2", 5), rec("r3", 0)];
    assert!(check_convergence(&ledger, 4).is_none());
}

#[test]
fn ac4_stall_fires_after_n_consecutive_nonzero_runs() {
    let ledger = vec![rec("r1", 3), rec("r2", 3), rec("r3", 3), rec("r4", 3)];
    let alert = check_convergence(&ledger, 4);
    assert!(alert.is_some(), "stall must fire after 4 consecutive non-zero runs");
    let a = alert.unwrap();
    assert!(a.is_stall, "alert must be classified as stall");
}

#[test]
fn ac4_stall_does_not_fire_below_threshold() {
    let ledger = vec![rec("r1", 3), rec("r2", 3), rec("r3", 3)];
    assert!(
        check_convergence(&ledger, 4).is_none(),
        "stall must not fire when tail is shorter than stall_runs"
    );
}

#[test]
fn ac4_stall_clears_when_behind_hits_zero() {
    let ledger = vec![
        rec("r1", 2),
        rec("r2", 2),
        rec("r3", 2),
        rec("r4", 2),
        rec("r5", 2),
        rec("r6", 0),
    ];
    assert!(check_convergence(&ledger, 4).is_none(), "stall must clear when behind reaches 0");
}

#[test]
fn single_record_produces_no_alert() {
    let ledger = vec![rec("r1", 7)];
    assert!(check_convergence(&ledger, 4).is_none());
}

#[test]
fn empty_ledger_produces_no_alert() {
    assert!(check_convergence(&[], 4).is_none());
}

#[test]
fn stall_runs_zero_disables_stall_check() {
    let ledger = vec![rec("r1", 5), rec("r2", 5)];
    assert!(check_convergence(&ledger, 0).is_none());
}

#[test]
fn alert_messages_are_exact() {
    let a = check_convergence(&[rec("r1", 2), rec("r2", 5)], 4).unwrap();
    assert_eq!(a.message, "behind count increased from 2 to 5 (regression)");
    let s = check_convergence(&[rec("r1", 3), rec("r2", 3), rec("r3", 3), rec("r4", 3), rec("r5", 3)], 4)
        .unwrap();
    assert_eq!(s.message, "behind has been > 0 for 4 consecutive runs (stall)");
    assert_eq!(s.behind, 3);
}

#[test]
fn decreasing_tail_is_progress_not_stall() {
    // Four non-zero runs that strictly decrease: converging, no stall.
    let ledger = vec![rec("r1", 9), rec("r2", 7), rec("r3", 4), rec("r4", 2)];
    assert!(check_convergence(&ledger, 4).is_none());
}

#[test]
fn ledger_appends_are_idempotent_per_run() {
    let ledger = vec![rec("2026-06-13.1", 3), rec("2026-06-13.2", 2)];
    assert!(!should_append(&ledger, "2026-06-13.1"));
    assert!(should_append(&ledger, "2026-06-13.3"));
    assert!(should_append(&[], "x"));
}

#[test]
fn reading_the_last_n_records() {
    assert_eq!(first_kept(10, Some(3)), 7);
    assert_eq!(first_kept(2, Some(3)), 0);
    assert_eq!(first_kept(5, None), 0);
}

#[test]
fn finding_args_report_or_resolve() {
    let a = check_convergence(&[rec("r1", 2), rec("r2", 5)], 4).unwrap();
    assert_eq!(
        convergence_finding_args("run-7", Some(&a)),
        vec![
            "report",
            "--run",
            "run-7",
            "--key",
            "fixpoint-not-converging",
            "--title",
            "fixpoint pipeline not converging: behind=5",
            "--severity",
            "warn",
            "--evidence",
            "detail:behind count increased from 2 to 5 (regression)",
        ]
    );
    assert_eq!(convergence_finding_args("run-7", None), vec!["resolve", "fixpoint-not-converging"]);
}

fn make_record(run: &str, behind: u32) -> ConvergeRecord {
    ConvergeRecord {
        run: run.to_owned(),
        ts: "2026-06-13T00:00:00Z".to_owned(),
        total: 10,
        behind,
        dirty_blocked: 0,
        fallback: 1,
        lineage_current: 9,
    }
}

#[test]
fn append_same_run_id_does_not_duplicate() {
    let mut ledger = Vec::new();
    let rec = make_record("2026-06-13.1", 3);
    assert!(append_if_new(&mut ledger, rec.clone()));
    assert_eq!(ledger.len(), 1, "should have 1 record after first append");
    assert!(!append_if_new(&mut ledger, rec));
    assert_eq!(ledger.len(), 1, "idempotent: same run id must not produce a second line");
}

#[test]
fn different_run_ids_produce_separate_lines() {
    let mut ledger = Vec::new();
    append_if_new(&mut ledger, make_record("run-1", 5));
    append_if_new(&mut ledger, make_record("run-2", 3));
    append_if_new(&mut ledger, make_record("run-1", 5));
    assert_eq!(ledger.len(), 2, "two distinct run ids → two lines");
    assert_eq!(ledger[0].run, "run-1");
    assert_eq!(ledger[1].run, "run-2");
}

#[test]
fn read_limit_returns_last_n() {
    let mut ledger = Vec::new();
    for i in 1_u32..=6 {
        let rec = ConvergeRecord {
            run: format!("r{i}"),
            ts: "2026-06-13T00:00:00Z".to_owned(),
            total: 10,
            behind: i,
            dirty_blocked: 0,
            fallback: 0,
            lineage_current: 10 - i,
        };
        append_if_new(&mut ledger, rec);
    }
    let last3 = last_records(&ledger, Some(3));
    assert_eq!(last3.len(), 3);
    assert_eq!(last3[0].run, "r4");
    assert_eq!(last3[2].run, "r6");
    assert_eq!(last_records(&ledger, None).len(), 6);
    assert_eq!(last_records(&ledger, Some(10)).len(), 6);
}
