//! Install markers — per-artifact records of the source a binary was built
//! from.
//!
//! After a successful install a marker is written to
//! `$XDG_STATE_HOME/adopt/markers/<bin>.json`; a scan compares its
//! fingerprint with the repo's committed HEAD to decide freshness by lineage.

use vstd::prelude::*;

use crate::paths::{join_path, path_join};
use crate::text::{concat, decimal, owned, trim, trim_str, u64_to_decimal};

verus! {

// ── Types ─────────────────────────────────────────────────────────────────────

/// A source fingerprint identifies a specific build state of a repo.
///
/// Two identical fingerprints mean the sources have not changed since the
/// last recorded install.
#[derive(Debug, Clone, Eq)]
pub struct SourceFingerprint(pub String);

impl PartialEq for SourceFingerprint {
    fn eq(&self, other: &Self) -> (r: bool) {
        crate::text::same_text(self.0.as_str(), other.0.as_str())
    }
}

impl vstd::std_specs::cmp::PartialEqSpecImpl for SourceFingerprint {
    open spec fn obeys_eq_spec() -> bool {
        true
    }

    open spec fn eq_spec(&self, other: &SourceFingerprint) -> bool {
        self.0@ == other.0@
    }
}

impl SourceFingerprint {
    /// The fingerprint text (what `Display` shows).
    pub fn to_text(&self) -> (s: String)
        ensures
            s@ == self.0@,
    {
        self.0.clone()
    }
}

/// The marker written after a verified successful install.
#[derive(Debug, Clone)]
pub struct InstallMarker {
    /// Binary name (without path).
    pub bin: String,
    /// Absolute path to the repo.
    pub repo_path: String,
    /// Source fingerprint at install time.
    pub source_fingerprint: SourceFingerprint,
    /// Unix timestamp (seconds since epoch) when the marker was written.
    pub installed_at: u64,
    /// How the marker was created: `"install"` for a real install,
    /// `"reconcile-seed"` for a clock-seeded marker; `"install"` when absent.
    pub origin: String,
}

/// The origin recorded by a real install, and assumed for legacy markers.
pub fn default_origin() -> (s: String)
    ensures
        s@ == "install"@,
{
    owned("install")
}

/// A marker for `bin`, built from `repo_path` at `installed_at`.
pub fn new_marker(
    bin: &str,
    repo_path: &str,
    fingerprint: &SourceFingerprint,
    installed_at: u64,
    origin: &str,
) -> (m: InstallMarker)
    ensures
        m.bin@ == bin@,
        m.repo_path@ == repo_path@,
        m.source_fingerprint.0@ == fingerprint.0@,
        m.installed_at == installed_at,
        m.origin@ == origin@,
{
    InstallMarker {
        bin: owned(bin),
        repo_path: owned(repo_path),
        source_fingerprint: SourceFingerprint(fingerprint.0.clone()),
        installed_at,
        origin: owned(origin),
    }
}

// ── Fingerprints ──────────────────────────────────────────────────────────────

/// The fingerprint of a dirty (or unreadable) working tree.
pub open spec fn dirty_text(max_mtime: nat) -> Seq<char> {
    "dirty:"@ + decimal(max_mtime)
}

/// The fingerprint of a dirty working tree: `dirty:<newest mtime>`.
pub fn dirty_fingerprint(max_mtime: u64) -> (fp: SourceFingerprint)
    ensures
        fp.0@ == dirty_text(max_mtime as nat),
{
    SourceFingerprint(concat("dirty:", u64_to_decimal(max_mtime).as_str()))
}

/// The fingerprint of a clean tree from the output of `git rev-parse HEAD`:
/// the trimmed hash, or `None` when git printed nothing.
pub fn clean_fingerprint(head_output: &str) -> (fp: Option<SourceFingerprint>)
    ensures
        match fp {
            Some(f) => trim(head_output@).len() > 0 && f.0@ == trim(head_output@),
            None => trim(head_output@).len() == 0,
        },
{
    let t = trim_str(head_output);
    if t.as_str().is_empty() {
        None
    } else {
        Some(SourceFingerprint(t))
    }
}

/// The working tree counts as dirty unless `git status --porcelain` ran,
/// succeeded and printed nothing.
pub fn tree_is_dirty(status_succeeded: bool, status_output_empty: bool) -> (d: bool)
    ensures
        d == !(status_succeeded && status_output_empty),
{
    !(status_succeeded && status_output_empty)
}

/// The fingerprint of a clean tree, when it can be had: `None` for a dirty
/// tree, or when `git rev-parse HEAD` failed or printed nothing; the caller
/// then fingerprints the tree by its newest modification time.
pub fn clean_head_fingerprint(dirty: bool, head_output: Option<&str>) -> (fp: Option<
    SourceFingerprint,
>)
    ensures
        match fp {
            Some(f) => !dirty && head_output is Some && trim(head_output->0@).len() > 0 && f.0@
                == trim(head_output->0@),
            None => dirty || head_output is None || trim(head_output->0@).len() == 0,
        },
{
    if dirty {
        return None;
    }
    match head_output {
        Some(out) => clean_fingerprint(out),
        None => None,
    }
}

/// The newest of a set of modification times (0 for none).
pub open spec fn max_of(v: Seq<u64>) -> u64
    decreases v.len(),
{
    if v.len() == 0 {
        0
    } else if v.last() > max_of(v.drop_last()) {
        v.last()
    } else {
        max_of(v.drop_last())
    }
}

/// The newest of the given modification times, or 0 when there are none.
pub fn newest_mtime(mtimes: &[u64]) -> (m: u64)
    ensures
        m == max_of(mtimes@),
        forall|i: int| 0 <= i < mtimes@.len() ==> mtimes@[i] <= m,
{
    let mut m: u64 = 0;
    let mut i: usize = 0;
    while i < mtimes.len()
        invariant
            i <= mtimes@.len(),
            m == max_of(mtimes@.take(i as int)),
            forall|j: int| 0 <= j < i ==> mtimes@[j] <= m,
        decreases mtimes@.len() - i,
    {
        assert(mtimes@.take(i + 1).drop_last() =~= mtimes@.take(i as int));
        if mtimes[i] > m {
            m = mtimes[i];
        }
        i = i + 1;
    }
    assert(mtimes@.take(mtimes@.len() as int) =~= mtimes@);
    m
}

/// An install from a clean tree is read back as current: the marker holds
/// the trimmed output of `git rev-parse HEAD`, the scan compares it with the
/// committed HEAD read from the same output, and lineage says current.
pub proof fn lemma_clean_install_reads_current(
    head_output: Seq<char>,
    installed_ts: Option<i64>,
    src_ts: Option<i64>,
)
    requires
        trim(head_output).len() > 0,
    ensures
        crate::scan::verdict_of(
            true,
            installed_ts,
            src_ts,
            Some(trim(head_output)),
            crate::scan::head_from_output(head_output),
        ) == (crate::types::Verdict::InstalledCurrent, crate::types::FreshnessBasis::Lineage),
{
}

/// A dirty fingerprint never equals the fingerprint of a clean commit: the
/// one starts with `dirty:`, a commit hash holds no `:`.
pub proof fn lemma_dirty_never_matches_commit(max_mtime: nat, hash: Seq<char>)
    requires
        forall|i: int| 0 <= i < hash.len() ==> hash[i] != ':',
    ensures
        dirty_text(max_mtime) != hash,
{
    reveal_strlit("dirty:");
    if dirty_text(max_mtime) == hash {
        assert(hash[5] == ':');
    }
}

// ── Marker path ───────────────────────────────────────────────────────────────

/// Where the markers of `bin` live, given `$XDG_STATE_HOME` and `$HOME`: a
/// non-empty state home is used as is, else `$HOME/.local/state`; with
/// neither, there is no marker path.
pub open spec fn marker_location(
    bin: Seq<char>,
    xdg_state_home: Option<Seq<char>>,
    home: Option<Seq<char>>,
) -> Result<Seq<char>, Seq<char>> {
    let base = if xdg_state_home is Some && xdg_state_home->0.len() > 0 {
        Some(xdg_state_home->0)
    } else if home is Some {
        Some(path_join(path_join(home->0, ".local"@), "state"@))
    } else {
        None
    };
    match base {
        Some(b) => Ok(
            path_join(path_join(path_join(b, "adopt"@), "markers"@), bin + ".json"@),
        ),
        None => Err("$HOME is unset; cannot determine XDG_STATE_HOME"@),
    }
}

/// Returns the marker file path for a binary name.
///
/// `xdg_state_home` and `home` are the values of `$XDG_STATE_HOME` and
/// `$HOME` (`None` when unset).
pub fn marker_path(bin: &str, xdg_state_home: Option<&str>, home: Option<&str>) -> (r: Result<
    String,
    String,
>)
    ensures
        match r {
            Ok(p) => marker_location(
                bin@,
                crate::scan::str_view(xdg_state_home),
                crate::scan::str_view(home),
            ) == Ok::<Seq<char>, Seq<char>>(p@),
            Err(e) => marker_location(
                bin@,
                crate::scan::str_view(xdg_state_home),
                crate::scan::str_view(home),
            ) == Err::<Seq<char>, Seq<char>>(e@),
        },
{
    let base = match xdg_state_home {
        Some(x) if !x.is_empty() => owned(x),
        _ => match home {
            Some(h) => join_path(&join_path(h, ".local"), "state"),
            None => {
                return Err(owned("$HOME is unset; cannot determine XDG_STATE_HOME"));
            },
        },
    };
    let file = concat(bin, ".json");
    Ok(join_path(&join_path(&join_path(&base, "adopt"), "markers"), &file))
}

} // verus!
