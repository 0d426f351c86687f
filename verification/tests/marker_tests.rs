use adopt::marker::{
    clean_fingerprint, clean_head_fingerprint, default_origin, dirty_fingerprint, marker_path, newest_mtime, tree_is_dirty,
    SourceFingerprint,
};

#[test]
fn dirty_fingerprint_never_matches_clean_commit() {
    let fp1 = SourceFingerprint("dirty:1700000000".to_owned());
    let fp2 = SourceFingerprint("abcdef1234567890".to_owned());
    assert_ne!(fp1, fp2);
}

#[test]
fn marker_path_honors_xdg_state_home() {
    let p = marker_path("testbin", Some("/tmp/state-xyz"), Some("/home/joe")).unwrap();
    assert!(p.starts_with("/tmp/state-xyz"), "path {p:?} should be under XDG_STATE_HOME");
    assert_eq!(p, "/tmp/state-xyz/adopt/markers/testbin.json");
}

#[test]
fn marker_path_falls_back_to_home() {
    assert_eq!(
        marker_path("foo", None, Some("/home/joe")).unwrap(),
        "/home/joe/.local/state/adopt/markers/foo.json"
    );
    // An empty XDG_STATE_HOME counts as unset.
    assert_eq!(
        marker_path("foo", Some(""), Some("/home/joe")).unwrap(),
        "/home/joe/.local/state/adopt/markers/foo.json"
    );
    assert_eq!(
        marker_path("foo", None, None),
        Err("$HOME is unset; cannot determine XDG_STATE_HOME".to_owned())
    );
}

#[test]
fn dirty_fingerprint_spells_newest_mtime() {
    assert_eq!(dirty_fingerprint(1700000000).to_text(), "dirty:1700000000");
    assert_eq!(newest_mtime(&[5, 17, 3]), 17);
    assert_eq!(newest_mtime(&[]), 0);
}

#[test]
fn clean_fingerprint_is_trimmed_head() {
    assert_eq!(
        clean_fingerprint("abcdef1234567890\n").map(|f| f.to_text()),
        Some("abcdef1234567890".to_owned())
    );
    assert!(clean_fingerprint("  \n").is_none());
}

#[test]
fn tree_is_dirty_unless_status_ran_clean() {
    assert!(tree_is_dirty(true, false));
    assert!(!tree_is_dirty(true, true));
    // A failed `git status` (no git, not a repo) counts as dirty.
    assert!(tree_is_dirty(false, false));
    assert!(tree_is_dirty(false, true));
    assert_eq!(default_origin(), "install");
}

#[test]
fn clean_head_only_for_clean_trees() {
    assert_eq!(clean_head_fingerprint(false, Some("abc\n")).map(|f| f.to_text()), Some("abc".to_owned()));
    assert!(clean_head_fingerprint(true, Some("abc\n")).is_none());
    assert!(clean_head_fingerprint(false, None).is_none());
    assert!(clean_head_fingerprint(false, Some("")).is_none());
}
