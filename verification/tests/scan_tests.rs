use adopt::scan::{
    bins_from_cargo_toml, scan_repo,
    artifact_for_bin, bins_from_manifest, commit_hash, derive_age_vs_head, derive_fix_cmd,
    derive_verdict, format_age, library_entry, parse_timestamp, select_bins, unit_declares_bin,
    BinFacts, BinFilter, ManifestFacts,
};
use adopt::types::{FreshnessBasis, Verdict};

#[test]
fn format_age_current() {
    assert_eq!(format_age(1000, 900), "current");
    assert_eq!(format_age(1000, 1000), "current");
}

#[test]
fn format_age_days() {
    let src = 1_000_000;
    let inst = src - 9 * 86400;
    assert_eq!(format_age(inst, src), "9d stale");
}

#[test]
fn format_age_hours() {
    let src = 1_000_000;
    let inst = src - 5 * 3600;
    assert_eq!(format_age(inst, src), "5h stale");
}

#[test]
fn format_age_under_an_hour_is_zero_hours() {
    assert_eq!(format_age(1000, 1000 + 59 * 60), "0h stale");
}

#[test]
fn ac1_lineage_current_overrides_clock_stale() {
    // The binary's clock says stale (1_000_000 < 2_000_000) but the marker
    // fingerprint equals the committed HEAD.
    let (v, basis) =
        derive_verdict(true, Some(1_000_000), Some(2_000_000), Some("abc123"), Some("abc123"));
    assert_eq!(v, Verdict::InstalledCurrent, "expected InstalledCurrent by lineage");
    assert_eq!(basis, FreshnessBasis::Lineage, "expected Lineage basis");
}

#[test]
fn ac2_lineage_stale_when_fingerprint_differs() {
    let (v, basis) = derive_verdict(
        true,
        Some(2_000_000),
        Some(1_000_000),
        Some("old-abc123"),
        Some("abc123"),
    );
    assert_eq!(v, Verdict::InstalledStale, "expected InstalledStale by lineage");
    assert_eq!(basis, FreshnessBasis::Lineage, "expected Lineage basis");
}

#[test]
fn ac3a_no_marker_clock_stale() {
    let (v, basis) = derive_verdict(true, Some(1_000_000), Some(2_000_000), None, None);
    assert_eq!(v, Verdict::InstalledStale, "clock fallback should say stale");
    assert_eq!(basis, FreshnessBasis::ClockFallback);
}

#[test]
fn ac3b_no_marker_clock_current() {
    let (v, basis) = derive_verdict(true, Some(3_000_000), Some(2_000_000), None, None);
    assert_eq!(v, Verdict::InstalledCurrent, "clock fallback should say current");
    assert_eq!(basis, FreshnessBasis::ClockFallback);
}

#[test]
fn not_installed_is_not_installed() {
    let (v, basis) = derive_verdict(false, None, Some(2_000_000), Some("x"), Some("x"));
    assert_eq!(v, Verdict::NotInstalled);
    assert_eq!(basis, FreshnessBasis::ClockFallback);
}

#[test]
fn unknown_timestamps_count_as_current() {
    let (v, _) = derive_verdict(true, None, Some(5), None, None);
    assert_eq!(v, Verdict::InstalledCurrent);
}

#[test]
fn fix_cmd_forms() {
    assert_eq!(
        derive_fix_cmd(&Verdict::NotInstalled, false, "/home/joe/wintermute/foo", "/home/joe"),
        "cargo install --force --path /home/joe/wintermute/foo --root /home/joe/.local"
    );
    assert_eq!(
        derive_fix_cmd(&Verdict::InstalledStale, true, "/home/joe/wintermute/wmd", "/home/joe"),
        "rollout install /home/joe/wintermute/wmd"
    );
    assert_eq!(derive_fix_cmd(&Verdict::InstalledCurrent, false, "/r", "/home/joe"), "");
    assert_eq!(derive_fix_cmd(&Verdict::NotABin, true, "/r", "/home/joe"), "");
}

#[test]
fn age_vs_head_forms() {
    assert_eq!(
        derive_age_vs_head(true, Some(1_000_000 - 2 * 86400), Some(1_000_000), 0),
        Some("2d stale".to_owned())
    );
    assert_eq!(
        derive_age_vs_head(false, None, Some(1_000_000), 1_000_000 + 3 * 86400),
        Some("3d stale (never installed)".to_owned())
    );
    assert_eq!(derive_age_vs_head(true, None, Some(1_000_000), 0), None);
    assert_eq!(derive_age_vs_head(true, Some(5), None, 0), None);
}

#[test]
fn git_output_parsing() {
    assert_eq!(commit_hash("abcdef\n"), Some("abcdef".to_owned()));
    assert_eq!(commit_hash("   \n"), None);
    assert_eq!(parse_timestamp(" 1700000000\n"), Some(1_700_000_000));
    assert_eq!(parse_timestamp("-42"), Some(-42));
    assert_eq!(parse_timestamp("12x"), None);
    assert_eq!(parse_timestamp(""), None);
}

fn facts(bin: &str, installed: Option<&str>, ts: Option<i64>) -> BinFacts {
    BinFacts {
        bin: bin.to_owned(),
        installed_path: installed.map(ToOwned::to_owned),
        installed_ts: ts,
        is_daemon: false,
        marker_fingerprint: None,
        committed_head: None,
    }
}

#[test]
fn artifact_records_skip_current_without_all() {
    let current = facts("foo", Some("/home/joe/.local/bin/foo"), Some(3_000_000));
    assert!(artifact_for_bin(false, "/wm/foo", &current, Some(2_000_000), "/home/joe", 0).is_none());
    let shown = artifact_for_bin(true, "/wm/foo", &current, Some(2_000_000), "/home/joe", 0).unwrap();
    assert_eq!(shown.verdict, Verdict::InstalledCurrent);
    assert_eq!(shown.fix_cmd, "");
    assert_eq!(shown.age_vs_head, Some("current".to_owned()));

    let missing = facts("bar", None, None);
    let a = artifact_for_bin(false, "/wm/bar", &missing, None, "/home/joe", 0).unwrap();
    assert_eq!(a.verdict, Verdict::NotInstalled);
    assert_eq!(a.fix_cmd, "cargo install --force --path /wm/bar --root /home/joe/.local");
    assert_eq!(a.repo, "/wm/bar");
    assert_eq!(a.bin, "bar");
}

#[test]
fn library_entry_is_not_a_bin() {
    let a = library_entry("/wm/lib");
    assert_eq!(a.bin, "(library)");
    assert_eq!(a.verdict, Verdict::NotABin);
    assert_eq!(a.fix_cmd, "");
}

#[test]
fn manifest_bins_in_priority_order() {
    let mut f = ManifestFacts {
        bin_names: vec!["a".to_owned(), "b".to_owned()],
        has_lib: false,
        default_run: Some("dr".to_owned()),
        package_name: Some("pkg".to_owned()),
    };
    assert_eq!(bins_from_manifest(&f, true), Some(vec!["a".to_owned(), "b".to_owned()]));
    f.bin_names.clear();
    assert_eq!(bins_from_manifest(&f, true), Some(vec!["dr".to_owned()]));
    f.default_run = None;
    assert_eq!(bins_from_manifest(&f, true), Some(vec!["pkg".to_owned()]));
    assert_eq!(bins_from_manifest(&f, false), None);
    f.has_lib = true;
    assert_eq!(bins_from_manifest(&f, true), None);
}

#[test]
fn match_regex_filters_output() {
    let filter = BinFilter::new("^bar").unwrap();
    assert!(filter.matches("bar-tool"));
    assert!(!filter.matches("foo"));
    let bins = vec!["foo".to_owned(), "bar".to_owned(), "barn".to_owned()];
    assert_eq!(select_bins(Some(&filter), &bins), vec!["bar".to_owned(), "barn".to_owned()]);
    assert_eq!(select_bins(None, &bins), bins);
    match BinFilter::new("(") {
        Err(e) => assert_eq!(e, "invalid --match regex: ("),
        Ok(_) => panic!("an unbalanced group must be refused"),
    }
}

#[test]
fn daemon_unit_names_the_binary() {
    let unit = "[Unit]\nDescription=x\n\n[Service]\n  ExecStart=/home/joe/.local/bin/wmd --serve\r\n";
    assert!(unit_declares_bin(unit, "wmd"));
    assert!(!unit_declares_bin(unit, "other"));
    // A mention outside ExecStart does not count.
    assert!(!unit_declares_bin("Description=runs wmd\nExecStop=/bin/wmd\n", "wmd"));
    assert!(unit_declares_bin("ExecStartPre=/usr/bin/wmd", "wmd"));
    assert!(!unit_declares_bin("", "wmd"));
}

#[test]
fn ac4_dirty_tree_does_not_falsely_stale() {
    // The marker records the committed HEAD; the tree has since been dirtied
    // and the clock says stale, but the scan compares against the committed HEAD.
    let head_hash = "0a1b2c3d4e5f";
    let (v, basis) =
        derive_verdict(true, Some(1_000_000), Some(2_000_000), Some(head_hash), Some(head_hash));
    assert_eq!(v, Verdict::InstalledCurrent, "dirty tree must not produce false stale; HEAD hash={head_hash}");
    assert_eq!(basis, FreshnessBasis::Lineage);
}

#[test]
fn ac6_apply_write_scan_read_roundtrip() {
    // apply fingerprints a clean tree by `git rev-parse HEAD`; scan reads the
    // committed HEAD from the same command.
    let rev_parse = "0a1b2c3d4e5f\n";
    let fp = adopt::marker::clean_head_fingerprint(false, Some(rev_parse)).unwrap();
    let head = commit_hash(rev_parse).unwrap();
    let (v, _) = derive_verdict(true, Some(1_000_000), Some(2_000_000), Some(&fp.to_text()), Some(&head));
    assert_eq!(v, Verdict::InstalledCurrent, "apply→scan roundtrip should be current");
}

#[test]
fn scan_repo_lists_library_only_with_all() {
    assert!(scan_repo(false, None, "/wm/lib", None, None, "/home/joe", 0).is_empty());
    let v = scan_repo(true, None, "/wm/lib", None, None, "/home/joe", 0);
    assert_eq!(v.len(), 1);
    assert_eq!(v[0].bin, "(library)");
    let facts = vec![
        facts("cur", Some("/home/joe/.local/bin/cur"), Some(3_000_000)),
        facts("gone", None, None),
    ];
    let v = scan_repo(false, None, "/wm/x", Some(&facts), Some(2_000_000), "/home/joe", 2_000_000 + 86400);
    assert_eq!(v.len(), 1);
    assert_eq!(v[0].bin, "gone");
    assert_eq!(v[0].age_vs_head, Some("1d stale (never installed)".to_owned()));
    assert_eq!(scan_repo(true, None, "/wm/x", Some(&facts), Some(2_000_000), "/home/joe", 2_000_000).len(), 2);
}

#[test]
fn match_under_all_filters_every_record() {
    let filter = BinFilter::new("^wm-").unwrap();
    // A library-only repo's "(library)" record does not match, so it is dropped.
    assert!(scan_repo(true, Some(&filter), "/wm/lib", None, None, "/home/joe", 0).is_empty());
    let all = BinFilter::new("").unwrap();
    assert_eq!(scan_repo(true, Some(&all), "/wm/lib", None, None, "/home/joe", 0).len(), 1);
    let facts = vec![
        facts("wm-audio", None, None),
        facts("wm-stt", None, None),
        facts("other-tool", None, None),
    ];
    let v = scan_repo(true, Some(&filter), "/wm/x", Some(&facts), None, "/home/joe", 0);
    let bins: Vec<&str> = v.iter().map(|a| a.bin.as_str()).collect();
    assert_eq!(bins, vec!["wm-audio", "wm-stt"]);
}

#[test]
fn cargo_toml_text_declares_bins() {
    let two = "[package]\nname = \"pkg\"\n\n[[bin]]\nname = \"a\"\npath = \"src/a.rs\"\n\n[[bin]]\npath = \"src/x.rs\"\n\n[[bin]]\nname = \"b\"\n";
    assert_eq!(bins_from_cargo_toml(two, false), Some(vec!["a".to_owned(), "b".to_owned()]));
    let dr = "[package]\nname = \"pkg\"\ndefault-run = \"tool\"\n";
    assert_eq!(bins_from_cargo_toml(dr, false), Some(vec!["tool".to_owned()]));
    let plain = "[package]\nname = \"pkg\"\nversion = \"0.1.0\"\n";
    assert_eq!(bins_from_cargo_toml(plain, true), Some(vec!["pkg".to_owned()]));
    assert_eq!(bins_from_cargo_toml(plain, false), None);
    let lib = "[package]\nname = \"pkg\"\n\n[lib]\npath = \"src/lib.rs\"\n";
    assert_eq!(bins_from_cargo_toml(lib, true), None);
    assert_eq!(bins_from_cargo_toml("this is [ not toml", true), None);
    assert_eq!(bins_from_cargo_toml("package = 5\n", true), None);
}
