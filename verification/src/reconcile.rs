//! `adopt reconcile` — mint lineage markers for installed-but-unmarked binaries.
//!
//! A binary is seeded as built from the current committed HEAD only when it
//! cannot predate the previous commit: its mtime is at or after that
//! commit's timestamp.  Genuinely-behind installs are left markerless, a
//! marker that already exists is never rewritten, and with
//! `include_dirty == false` a dirty tree blocks seeding.

use vstd::prelude::*;

use crate::text::{concat, decimal, owned, u64_to_decimal};
use crate::types::{FreshnessBasis, Verdict};

verus! {

// ── Outcomes ──────────────────────────────────────────────────────────────────

/// The outcome for a single artifact during reconcile.
#[derive(Debug)]
pub enum ReconcileOutcome {
    /// Marker already existed — skipped (idempotent).
    AlreadyMarked,
    /// Repo has a dirty working tree — skipped (kept for compatibility; the
    /// decision below reports `DirtyBlocked`).
    DirtyTree,
    /// Dirty tree and dirty trees are not included.
    DirtyBlocked,
    /// Binary is not installed — skipped.
    NotInstalled,
    /// Binary mtime precedes the previous commit; the install is behind — skipped.
    GenuinelyBehind,
    /// Marker was minted (or would be, in dry-run mode).
    Seeded {
        /// The fingerprint that was (or would be) written.
        fingerprint: String,
        /// True in dry-run mode: no write occurred.
        dry_run: bool,
    },
    /// An error occurred while processing this artifact.
    Error(String),
}

/// A per-artifact reconcile record.
#[derive(Debug)]
pub struct ReconcileResult {
    /// Absolute path to the repo.
    pub repo: String,
    /// Binary name.
    pub bin: String,
    /// What reconcile decided for this artifact.
    pub outcome: ReconcileOutcome,
}

/// What reading the marker of a binary gave.
pub enum MarkerLookup {
    /// A marker exists.
    Present,
    /// There is no marker.
    Absent,
    /// The marker could not be read; the message says why.
    Failed(String),
}

/// What is known of one `(repo, bin)` pair.  The git and file facts are
/// only looked at when no marker exists and the binary is installed.
pub struct ReconcileFacts {
    /// The marker lookup.
    pub marker: MarkerLookup,
    /// The binary is installed somewhere.
    pub installed: bool,
    /// The repo's working tree is dirty (or git status failed).
    pub dirty: bool,
    /// The repo's committed HEAD hash, when git gave one.
    pub head: Option<String>,
    /// The installed binary's mtime, when readable.
    pub binary_mtime: Option<u64>,
    /// The timestamp of the commit before HEAD, when there is one.
    pub prev_commit_ts: Option<u64>,
}

/// The outcome as plain values: a kind and its text.
pub enum OutcomeView {
    AlreadyMarked,
    DirtyTree,
    DirtyBlocked,
    NotInstalled,
    GenuinelyBehind,
    Seeded(Seq<char>, bool),
    Error(Seq<char>),
}

/// The plain-value form of an outcome.
pub open spec fn outcome_view(o: ReconcileOutcome) -> OutcomeView {
    match o {
        ReconcileOutcome::AlreadyMarked => OutcomeView::AlreadyMarked,
        ReconcileOutcome::DirtyTree => OutcomeView::DirtyTree,
        ReconcileOutcome::DirtyBlocked => OutcomeView::DirtyBlocked,
        ReconcileOutcome::NotInstalled => OutcomeView::NotInstalled,
        ReconcileOutcome::GenuinelyBehind => OutcomeView::GenuinelyBehind,
        ReconcileOutcome::Seeded { fingerprint, dry_run } => OutcomeView::Seeded(
            fingerprint@,
            dry_run,
        ),
        ReconcileOutcome::Error(m) => OutcomeView::Error(m@),
    }
}

/// The binary cannot predate the previous commit.  Without both timestamps
/// (a single-commit repo, or an mtime that cannot be read) it counts as not
/// behind.
pub open spec fn provably_not_behind(binary_mtime: Option<u64>, prev_commit_ts: Option<u64>) -> bool {
    match (binary_mtime, prev_commit_ts) {
        (Some(m), Some(p)) => m >= p,
        _ => true,
    }
}

/// The decision for one pair, before any marker is written.
pub open spec fn decision(f: ReconcileFacts, dry_run: bool, include_dirty: bool) -> OutcomeView {
    match f.marker {
        MarkerLookup::Present => OutcomeView::AlreadyMarked,
        MarkerLookup::Failed(e) => OutcomeView::Error("read_marker: "@ + e@),
        MarkerLookup::Absent => if !f.installed {
            OutcomeView::NotInstalled
        } else if f.head is None {
            OutcomeView::Error("git rev-parse HEAD failed"@)
        } else if !provably_not_behind(f.binary_mtime, f.prev_commit_ts) {
            OutcomeView::GenuinelyBehind
        } else if f.dirty && !include_dirty {
            OutcomeView::DirtyBlocked
        } else {
            OutcomeView::Seeded(f.head->0@, dry_run)
        },
    }
}

/// Whether the repo facts (dirty state, HEAD, timestamps) are needed: only
/// when there is no marker and the binary is installed.
pub fn needs_repo_facts(marker: &MarkerLookup, installed: bool) -> (b: bool)
    ensures
        b == (marker is Absent && installed),
{
    match marker {
        MarkerLookup::Absent => installed,
        _ => false,
    }
}

/// Decides what reconcile does for one `(repo, bin)` pair.
pub fn decide_reconcile(facts: &ReconcileFacts, dry_run: bool, include_dirty: bool) -> (o:
    ReconcileOutcome)
    ensures
        outcome_view(o) == decision(*facts, dry_run, include_dirty),
{
    match &facts.marker {
        MarkerLookup::Present => {
            return ReconcileOutcome::AlreadyMarked;
        },
        MarkerLookup::Failed(e) => {
            return ReconcileOutcome::Error(concat("read_marker: ", e.as_str()));
        },
        MarkerLookup::Absent => {},
    }
    if !facts.installed {
        return ReconcileOutcome::NotInstalled;
    }
    let head = match &facts.head {
        Some(h) => h.clone(),
        None => {
            return ReconcileOutcome::Error(owned("git rev-parse HEAD failed"));
        },
    };
    let not_behind = match (facts.binary_mtime, facts.prev_commit_ts) {
        (Some(m), Some(p)) => m >= p,
        _ => true,
    };
    if !not_behind {
        return ReconcileOutcome::GenuinelyBehind;
    }
    if facts.dirty && !include_dirty {
        return ReconcileOutcome::DirtyBlocked;
    }
    ReconcileOutcome::Seeded { fingerprint: head, dry_run }
}

/// Whether a decided outcome asks for a marker to be written: a seed that
/// is not a dry run.
pub fn must_write_marker(outcome: &ReconcileOutcome) -> (b: bool)
    ensures
        b == (outcome_view(*outcome) matches OutcomeView::Seeded(_, d) && !d),
{
    match outcome {
        ReconcileOutcome::Seeded { dry_run, .. } => !*dry_run,
        _ => false,
    }
}

/// The final outcome once the marker write was attempted: a failed write
/// turns the seed into an error.
pub fn after_marker_write(outcome: ReconcileOutcome, write_error: Option<String>) -> (o:
    ReconcileOutcome)
    ensures
        match write_error {
            Some(e) => outcome_view(o) == OutcomeView::Error("write_marker: "@ + e@),
            None => outcome_view(o) == outcome_view(outcome),
        },
{
    match write_error {
        Some(e) => ReconcileOutcome::Error(concat("write_marker: ", e.as_str())),
        None => outcome,
    }
}

/// An installed, unmarked binary older than the previous commit is
/// genuinely behind, whatever the state of the working tree and whether
/// dirty trees are included: being behind is decided before dirtiness.
pub proof fn lemma_behind_beats_dirty(
    f: ReconcileFacts,
    dry_run: bool,
    include_dirty: bool,
    mtime: u64,
    prev: u64,
)
    requires
        f.marker is Absent,
        f.installed,
        f.head is Some,
        f.binary_mtime == Some(mtime),
        f.prev_commit_ts == Some(prev),
        mtime < prev,
    ensures
        decision(f, dry_run, include_dirty) == OutcomeView::GenuinelyBehind,
{
}

/// The laws of a reconcile decision: an existing marker is never touched
/// again (a second run is a no-op); a binary older than the previous commit
/// is never seeded, dirty or not; with dirty trees excluded a dirty tree is
/// never seeded; and a seed always records the committed HEAD.
pub proof fn lemma_reconcile_laws(f: ReconcileFacts, dry_run: bool, include_dirty: bool)
    ensures
        f.marker is Present ==> decision(f, dry_run, include_dirty) == OutcomeView::AlreadyMarked,
        !provably_not_behind(f.binary_mtime, f.prev_commit_ts) ==> !(decision(
            f,
            dry_run,
            include_dirty,
        ) is Seeded),
        f.dirty && !include_dirty ==> !(decision(f, dry_run, include_dirty) is Seeded),
        decision(f, dry_run, include_dirty) matches OutcomeView::Seeded(fp, d) ==> f.head
            is Some && fp == f.head->0@ && d == dry_run && f.marker is Absent && f.installed,
{
}

/// A seeded marker records the committed HEAD, so a later scan that reads
/// it back against the same HEAD calls the binary current, by lineage,
/// whatever the clock says.
pub proof fn lemma_seeded_marker_reads_current(
    f: ReconcileFacts,
    dry_run: bool,
    include_dirty: bool,
    installed_ts: Option<i64>,
    src_ts: Option<i64>,
)
    requires
        decision(f, dry_run, include_dirty) is Seeded,
    ensures
        f.head is Some,
        crate::scan::verdict_of(
            true,
            installed_ts,
            src_ts,
            Some(decision(f, dry_run, include_dirty)->Seeded_0),
            crate::types::opt_view(f.head),
        ) == (Verdict::InstalledCurrent, FreshnessBasis::Lineage),
{
}

/// The text of the commit timestamp of HEAD~1 (`git log -1 --format=%ct`),
/// read as an unsigned number after trimming.
pub fn parse_commit_time(output: &str) -> (t: Option<u64>)
    ensures
        t == crate::text::parsed_u64(crate::text::trim(output@)),
{
    let cs = crate::text::chars_of(output);
    let tr = crate::text::trim_chars(cs.as_slice());
    crate::text::parse_u64(tr.as_slice())
}

// ── Report ───────────────────────────────────────────────────────────────────

/// The counts of seeded, skipped and failed results.
pub open spec fn tally(rs: Seq<ReconcileResult>) -> (nat, nat, nat)
    decreases rs.len(),
{
    if rs.len() == 0 {
        (0, 0, 0)
    } else {
        let (s, k, e) = tally(rs.drop_last());
        match rs.last().outcome {
            ReconcileOutcome::Seeded { .. } => (s + 1, k, e),
            ReconcileOutcome::Error(_) => (s, k, e + 1),
            _ => (s, k + 1, e),
        }
    }
}

/// The line printed for one result, if any (markers already present and
/// uninstalled binaries are skipped silently).
pub open spec fn result_line(r: ReconcileResult) -> Option<Seq<char>> {
    let tail = "  repo="@ + r.repo@;
    match r.outcome {
        ReconcileOutcome::Seeded { fingerprint, dry_run } => Some(
            "  "@ + (if dry_run {
                "[dry-run] would seed"@
            } else {
                "seeded"@
            }) + "  "@ + r.bin@ + "  fp="@ + fingerprint@ + tail,
        ),
        ReconcileOutcome::AlreadyMarked => None,
        ReconcileOutcome::NotInstalled => None,
        ReconcileOutcome::DirtyTree => Some(
            "  skip  "@ + r.bin@ + "  (dirty working tree)"@ + tail,
        ),
        ReconcileOutcome::DirtyBlocked => Some(
            "  dirty-blocked  "@ + r.bin@
                + "  (dirty tree; HEAD does not match installed binary or --no-include-dirty)"@
                + tail,
        ),
        ReconcileOutcome::GenuinelyBehind => Some(
            "  skip  "@ + r.bin@ + "  (genuinely behind HEAD)"@ + tail,
        ),
        ReconcileOutcome::Error(m) => Some("  error  "@ + r.bin@ + "  "@ + m@ + tail),
    }
}

/// The per-result lines of a run, in order.
pub open spec fn result_lines(rs: Seq<ReconcileResult>) -> Seq<Seq<char>>
    decreases rs.len(),
{
    if rs.len() == 0 {
        seq![]
    } else {
        match result_line(rs.last()) {
            Some(l) => result_lines(rs.drop_last()).push(l),
            None => result_lines(rs.drop_last()),
        }
    }
}

/// The closing line: `reconcile: seeded=N  skipped=N  errors=N`.
pub open spec fn tally_line(t: (nat, nat, nat)) -> Seq<char> {
    "reconcile: seeded="@ + decimal(t.0) + "  skipped="@ + decimal(t.1) + "  errors="@ + decimal(
        t.2,
    )
}

/// Everything a reconcile run prints: a dry-run banner, one line per
/// result that has one, and the closing tally.
pub open spec fn report_lines(rs: Seq<ReconcileResult>, dry_run: bool) -> Seq<Seq<char>> {
    let banner = if dry_run {
        seq!["[dry-run] reconcile — no markers will be written"@]
    } else {
        seq![]
    };
    banner + result_lines(rs) + seq![tally_line(tally(rs))]
}

fn line_for(r: &ReconcileResult) -> (l: Option<String>)
    ensures
        crate::types::opt_view(l) == result_line(*r),
{
    let tail = concat("  repo=", r.repo.as_str());
    match &r.outcome {
        ReconcileOutcome::Seeded { fingerprint, dry_run } => {
            let prefix = if *dry_run {
                "[dry-run] would seed"
            } else {
                "seeded"
            };
            let head = concat(&concat(&concat(&concat("  ", prefix), "  "), r.bin.as_str()), "  fp=");
            Some(concat(&concat(&head, fingerprint.as_str()), &tail))
        },
        ReconcileOutcome::AlreadyMarked => None,
        ReconcileOutcome::NotInstalled => None,
        ReconcileOutcome::DirtyTree => Some(
            concat(&concat(&concat("  skip  ", r.bin.as_str()), "  (dirty working tree)"), &tail),
        ),
        ReconcileOutcome::DirtyBlocked => Some(
            concat(
                &concat(
                    &concat("  dirty-blocked  ", r.bin.as_str()),
                    "  (dirty tree; HEAD does not match installed binary or --no-include-dirty)",
                ),
                &tail,
            ),
        ),
        ReconcileOutcome::GenuinelyBehind => Some(
            concat(&concat(&concat("  skip  ", r.bin.as_str()), "  (genuinely behind HEAD)"), &tail),
        ),
        ReconcileOutcome::Error(m) => Some(
            concat(&concat(&concat(&concat("  error  ", r.bin.as_str()), "  "), m.as_str()), &tail),
        ),
    }
}

/// Counts the seeded, skipped and failed results of a run.
pub fn reconcile_tally(results: &[ReconcileResult]) -> (r: (usize, usize, usize))
    ensures
        (r.0 as nat, r.1 as nat, r.2 as nat) == tally(results@),
        r.0 + r.1 + r.2 == results@.len(),
{
    let mut seeded: usize = 0;
    let mut skipped: usize = 0;
    let mut errors: usize = 0;
    let mut i: usize = 0;
    while i < results.len()
        invariant
            i <= results@.len(),
            seeded + skipped + errors == i,
            (seeded as nat, skipped as nat, errors as nat) == tally(results@.take(i as int)),
        decreases results@.len() - i,
    {
        assert(results@.take(i + 1).drop_last() =~= results@.take(i as int));
        match &results[i].outcome {
            ReconcileOutcome::Seeded { .. } => {
                seeded = seeded + 1;
            },
            ReconcileOutcome::Error(_) => {
                errors = errors + 1;
            },
            _ => {
                skipped = skipped + 1;
            },
        }
        i = i + 1;
    }
    assert(results@.take(results@.len() as int) =~= results@);
    (seeded, skipped, errors)
}

/// The lines a reconcile run prints, in order.
pub fn reconcile_report(results: &[ReconcileResult], dry_run: bool) -> (v: Vec<String>)
    ensures
        crate::report::strings(v@) == report_lines(results@, dry_run),
{
    let mut v: Vec<String> = Vec::new();
    if dry_run {
        v.push(owned("[dry-run] reconcile — no markers will be written"));
    }
    let ghost banner = crate::report::strings(v@);
    let mut i: usize = 0;
    while i < results.len()
        invariant
            i <= results@.len(),
            banner == (if dry_run {
                seq!["[dry-run] reconcile — no markers will be written"@]
            } else {
                Seq::<Seq<char>>::empty()
            }),
            crate::report::strings(v@) == banner + result_lines(results@.take(i as int)),
        decreases results@.len() - i,
    {
        assert(results@.take(i + 1).drop_last() =~= results@.take(i as int));
        assert(results@.take(i + 1).last() == results@[i as int]);
        let ghost before = crate::report::strings(v@);
        if let Some(l) = line_for(&results[i]) {
            v.push(l);
            assert(crate::report::strings(v@) =~= before.push(l@));
        }
        assert(crate::report::strings(v@) =~= banner + result_lines(results@.take(i + 1)));
        i = i + 1;
    }
    assert(results@.take(results@.len() as int) =~= results@);
    let (s, k, e) = reconcile_tally(results);
    let last = concat(
        &concat(
            &concat(
                &concat(
                    &concat("reconcile: seeded=", u64_to_decimal(s as u64).as_str()),
                    "  skipped=",
                ),
                u64_to_decimal(k as u64).as_str(),
            ),
            "  errors=",
        ),
        u64_to_decimal(e as u64).as_str(),
    );
    let ghost before = crate::report::strings(v@);
    v.push(last);
    assert(crate::report::strings(v@) =~= before.push(last@));
    assert(crate::report::strings(v@) =~= report_lines(results@, dry_run));
    v
}

} // verus!
