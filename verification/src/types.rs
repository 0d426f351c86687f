//! The shared vocabulary of a scan: verdicts, the basis of a freshness
//! verdict, and the per-artifact record.

use vstd::prelude::*;

verus! {

/// The adoption verdict for a single artifact.
#[derive(Debug, Clone, Copy, PartialEq, Eq, Structural)]
pub enum Verdict {
    /// The binary is not present on PATH, `~/.local/bin`, or `~/.cargo/bin`.
    NotInstalled,
    /// The binary is installed but behind the repo's current source.
    InstalledStale,
    /// The binary is installed and up to date with the source.
    InstalledCurrent,
    /// The repo declares no executable (library-only).
    NotABin,
}

/// The verdicts that ask the user to act.
pub open spec fn actionable(v: Verdict) -> bool {
    v is NotInstalled || v is InstalledStale
}

/// The stable (kebab-case) spelling of each verdict.
pub open spec fn verdict_name(v: Verdict) -> Seq<char> {
    match v {
        Verdict::NotInstalled => "not-installed"@,
        Verdict::InstalledStale => "installed-stale"@,
        Verdict::InstalledCurrent => "installed-current"@,
        Verdict::NotABin => "not-a-bin"@,
    }
}

impl Verdict {
    /// Returns true if the verdict requires user action to adopt.
    pub fn is_actionable(&self) -> (b: bool)
        ensures
            b == actionable(*self),
    {
        match self {
            Verdict::NotInstalled | Verdict::InstalledStale => true,
            _ => false,
        }
    }

    /// The stable kebab-case name of the verdict, as shown in tables and JSON.
    pub fn name(&self) -> (s: &'static str)
        ensures
            s@ == verdict_name(*self),
    {
        match self {
            Verdict::NotInstalled => "not-installed",
            Verdict::InstalledStale => "installed-stale",
            Verdict::InstalledCurrent => "installed-current",
            Verdict::NotABin => "not-a-bin",
        }
    }
}

/// The basis on which a freshness verdict was derived.
#[derive(Debug, Clone, Copy, PartialEq, Eq, Structural)]
pub enum FreshnessBasis {
    /// The install marker's fingerprint was compared with the repo's
    /// committed HEAD: the authoritative signal.
    Lineage,
    /// No usable marker: the binary's timestamp was compared with the newest
    /// source commit (a heuristic).
    ClockFallback,
}

/// A scanned artifact and its adoption verdict.
#[derive(Debug, Clone)]
pub struct ArtifactResult {
    /// The repo path (absolute).
    pub repo: String,
    /// The binary name declared in Cargo.toml.
    pub bin: String,
    /// Adoption verdict.
    pub verdict: Verdict,
    /// Installed path if found (e.g. `~/.local/bin/foo`).
    pub installed_path: Option<String>,
    /// True if the artifact backs a systemd-user daemon unit.
    pub is_daemon: bool,
    /// Unix timestamp of the newest src/ commit, if determinable.
    pub source_commit_ts: Option<i64>,
    /// Unix timestamp of the installed binary, if available.
    pub installed_ts: Option<i64>,
    /// Copy-pasteable command to adopt this artifact; empty when none is needed.
    pub fix_cmd: String,
    /// Human-readable age relative to the source (e.g. "9d stale").
    pub age_vs_head: Option<String>,
    /// How the freshness verdict was derived.
    pub freshness_basis: FreshnessBasis,
}

/// The contents of an [`ArtifactResult`], with strings as character sequences.
pub struct ArtifactView {
    pub repo: Seq<char>,
    pub bin: Seq<char>,
    pub verdict: Verdict,
    pub installed_path: Option<Seq<char>>,
    pub is_daemon: bool,
    pub source_commit_ts: Option<i64>,
    pub installed_ts: Option<i64>,
    pub fix_cmd: Seq<char>,
    pub age_vs_head: Option<Seq<char>>,
    pub freshness_basis: FreshnessBasis,
}

/// The character sequence of an optional string.
pub open spec fn opt_view(s: Option<String>) -> Option<Seq<char>> {
    match s {
        Some(t) => Some(t@),
        None => None,
    }
}

impl View for ArtifactResult {
    type V = ArtifactView;

    open spec fn view(&self) -> ArtifactView {
        ArtifactView {
            repo: self.repo@,
            bin: self.bin@,
            verdict: self.verdict,
            installed_path: opt_view(self.installed_path),
            is_daemon: self.is_daemon,
            source_commit_ts: self.source_commit_ts,
            installed_ts: self.installed_ts,
            fix_cmd: self.fix_cmd@,
            age_vs_head: opt_view(self.age_vs_head),
            freshness_basis: self.freshness_basis,
        }
    }
}

/// A copy of an optional string.
pub fn copy_opt(s: &Option<String>) -> (r: Option<String>)
    ensures
        opt_view(r) == opt_view(*s),
{
    match s {
        Some(t) => Some(t.clone()),
        None => None,
    }
}

impl ArtifactResult {
    /// A field-by-field copy of this record.
    pub fn duplicate(&self) -> (r: ArtifactResult)
        ensures
            r@ == self@,
    {
        ArtifactResult {
            repo: self.repo.clone(),
            bin: self.bin.clone(),
            verdict: self.verdict,
            installed_path: copy_opt(&self.installed_path),
            is_daemon: self.is_daemon,
            source_commit_ts: self.source_commit_ts,
            installed_ts: self.installed_ts,
            fix_cmd: self.fix_cmd.clone(),
            age_vs_head: copy_opt(&self.age_vs_head),
            freshness_basis: self.freshness_basis,
        }
    }
}

} // verus!
