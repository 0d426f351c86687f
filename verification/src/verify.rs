//! Classification of not-current artifacts into named failure buckets.
//!
//! Every artifact whose verdict is actionable receives a [`StaleReason`]
//! explaining why it is not current.  What the classification needs from the
//! machine (is the binary under a bogus prefix, is it off PATH, does it run)
//! arrives as [`ClassifyProbes`].

use vstd::prelude::*;

use crate::paths::{join_path, path_join};
use crate::text::{
    concat, i64_to_decimal, joined, owned, pad_right, padded_right, repeat_char, repeated,
    signed_decimal, u64_to_decimal,
};
use crate::types::{actionable, ArtifactResult, Verdict};

verus! {

// ── Taxonomy ──────────────────────────────────────────────────────────────────

/// Named bucket classifying why an artifact is not current.
#[derive(Debug, Clone, Copy, PartialEq, Eq, Structural)]
pub enum StaleReason {
    /// No binary in `~/.local/bin`, `~/.cargo/bin`, or `PATH`.
    NeverInstalled,
    /// Binary exists under a bogus prefix (e.g. `$HOME/~/.local/bin/`).
    WrongPrefix,
    /// Installed in a convention dir but not in the current `PATH`.
    OffPath,
    /// Source is newer than the installed binary by less than the threshold.
    SourceNewerSameday,
    /// Source is newer than the installed binary by at least the threshold.
    SourceNewerBehind,
    /// `cargo install` exited non-zero on the last attempt.
    BuildFail,
    /// Installed, on PATH, but `--version`/`--help` exits non-zero.
    SmokeFail,
}

/// The docket slug of each reason.
pub open spec fn reason_slug(r: StaleReason) -> Seq<char> {
    match r {
        StaleReason::NeverInstalled => "adopt-stale-neverinstalled"@,
        StaleReason::WrongPrefix => "adopt-stale-wrongprefix"@,
        StaleReason::OffPath => "adopt-stale-offpath"@,
        StaleReason::SourceNewerSameday => "adopt-stale-sourcenewer-sameday"@,
        StaleReason::SourceNewerBehind => "adopt-stale-sourcenewer-behind"@,
        StaleReason::BuildFail => "adopt-stale-buildfail"@,
        StaleReason::SmokeFail => "adopt-stale-smokefail"@,
    }
}

/// The display name of each reason (kebab-case for the source-newer pair).
pub open spec fn reason_name(r: StaleReason) -> Seq<char> {
    match r {
        StaleReason::NeverInstalled => "NeverInstalled"@,
        StaleReason::WrongPrefix => "WrongPrefix"@,
        StaleReason::OffPath => "OffPath"@,
        StaleReason::SourceNewerSameday => "SourceNewer-sameday"@,
        StaleReason::SourceNewerBehind => "SourceNewer-behind"@,
        StaleReason::BuildFail => "BuildFail"@,
        StaleReason::SmokeFail => "SmokeFail"@,
    }
}

impl StaleReason {
    /// Returns the stable docket slug for this reason.
    pub fn docket_slug(&self) -> (s: &'static str)
        ensures
            s@ == reason_slug(*self),
    {
        match self {
            StaleReason::NeverInstalled => "adopt-stale-neverinstalled",
            StaleReason::WrongPrefix => "adopt-stale-wrongprefix",
            StaleReason::OffPath => "adopt-stale-offpath",
            StaleReason::SourceNewerSameday => "adopt-stale-sourcenewer-sameday",
            StaleReason::SourceNewerBehind => "adopt-stale-sourcenewer-behind",
            StaleReason::BuildFail => "adopt-stale-buildfail",
            StaleReason::SmokeFail => "adopt-stale-smokefail",
        }
    }

    /// Returns a display name for summary output.
    pub fn display_name(&self) -> (s: &'static str)
        ensures
            s@ == reason_name(*self),
    {
        match self {
            StaleReason::NeverInstalled => "NeverInstalled",
            StaleReason::WrongPrefix => "WrongPrefix",
            StaleReason::OffPath => "OffPath",
            StaleReason::SourceNewerSameday => "SourceNewer-sameday",
            StaleReason::SourceNewerBehind => "SourceNewer-behind",
            StaleReason::BuildFail => "BuildFail",
            StaleReason::SmokeFail => "SmokeFail",
        }
    }
}

/// Distinct reasons have distinct docket slugs, so each failure category is
/// escalated under a key of its own.
pub proof fn lemma_docket_slugs_distinct(a: StaleReason, b: StaleReason)
    requires
        a != b,
    ensures
        reason_slug(a) != reason_slug(b),
{
    reveal_strlit("adopt-stale-neverinstalled");
    reveal_strlit("adopt-stale-wrongprefix");
    reveal_strlit("adopt-stale-offpath");
    reveal_strlit("adopt-stale-sourcenewer-sameday");
    reveal_strlit("adopt-stale-sourcenewer-behind");
    reveal_strlit("adopt-stale-buildfail");
    reveal_strlit("adopt-stale-smokefail");
    let sa = reason_slug(a);
    let sb = reason_slug(b);
    if sa.len() == sb.len() {
        assert(sa[12] != sb[12]);
    }
}

// ── Classified artifact ───────────────────────────────────────────────────────

/// A not-current artifact with its classification.
#[derive(Debug, Clone)]
pub struct ClassifiedArtifact {
    /// Binary name.
    pub bin: String,
    /// Why this artifact is not current.
    pub reason: StaleReason,
    /// Human-readable detail for the reason.
    pub detail: String,
}

/// What the machine says about a not-current binary.
///
/// `wrong_prefix` and `off_path` are read only for a `not-installed` artifact
/// (and `off_path` only when `wrong_prefix` is `None`); `smoke_fail` only for
/// an `installed-stale` one.
pub struct ClassifyProbes {
    /// Where the binary was found under the bogus `$HOME/~` prefix, if anywhere.
    pub wrong_prefix: Option<String>,
    /// The convention-dir copy of the binary when it is not reachable on PATH.
    pub off_path: Option<String>,
    /// `bin --version` and `bin --help` both failed (or the binary could not run).
    pub smoke_fail: bool,
}

/// Integer division rounding toward zero, as `i64::div` does.
pub open spec fn trunc_div(a: int, b: int) -> int {
    if a >= 0 {
        a / b
    } else {
        -((-a) / b)
    }
}

/// The whole number of days by which the source is newer, or `-1` when
/// either timestamp is unknown.
pub open spec fn days_newer(src: Option<i64>, inst: Option<i64>) -> int {
    match (src, inst) {
        (Some(s), Some(i)) => trunc_div(s - i, 86400),
        _ => -1,
    }
}

/// The reason and detail that classification assigns.
pub open spec fn classification(
    a: crate::types::ArtifactView,
    behind_days: int,
    wrong_prefix: Option<Seq<char>>,
    off_path: Option<Seq<char>>,
    smoke_fail: bool,
) -> (StaleReason, Seq<char>) {
    if a.verdict is NotInstalled {
        match wrong_prefix {
            Some(p) => (StaleReason::WrongPrefix, "binary found at bogus prefix: "@ + p),
            None => match off_path {
                Some(p) => (StaleReason::OffPath, "installed at "@ + p + " but not on PATH"@),
                None => (
                    StaleReason::NeverInstalled,
                    "not found in ~/.local/bin, ~/.cargo/bin, or PATH"@,
                ),
            },
        }
    } else if a.verdict is InstalledStale {
        if smoke_fail {
            (StaleReason::SmokeFail, a.bin + " --version / --help exited non-zero"@)
        } else {
            let d = days_newer(a.source_commit_ts, a.installed_ts);
            let reason = if d < 0 || d < behind_days {
                StaleReason::SourceNewerSameday
            } else {
                StaleReason::SourceNewerBehind
            };
            match (a.source_commit_ts, a.installed_ts) {
                (Some(_), Some(_)) => (
                    reason,
                    "source is "@ + signed_decimal(d) + "d newer than installed binary"@,
                ),
                _ => (reason, "source HEAD is newer than installed binary"@),
            }
        }
    } else {
        (StaleReason::NeverInstalled, "unknown"@)
    }
}

/// The timestamps of a stale artifact can be subtracted without overflow.
pub open spec fn classifiable(a: crate::types::ArtifactView) -> bool {
    match (a.source_commit_ts, a.installed_ts) {
        (Some(s), Some(i)) => i64::MIN <= s - i <= i64::MAX,
        _ => true,
    }
}

/// The machine checks for install location (bogus prefix, off PATH) are
/// consulted only for a `not-installed` artifact.
pub fn needs_location_probes(artifact: &ArtifactResult) -> (b: bool)
    ensures
        b == (artifact.verdict is NotInstalled),
{
    artifact.verdict == Verdict::NotInstalled
}

/// The smoke test (running the binary) is consulted only for an
/// `installed-stale` artifact.
pub fn needs_smoke_probe(artifact: &ArtifactResult) -> (b: bool)
    ensures
        b == (artifact.verdict is InstalledStale),
{
    artifact.verdict == Verdict::InstalledStale
}

/// One step of the smoke test, which runs `bin --version` and then, if that
/// failed, `bin --help`.  `ran` is `Some(success)` when the run could be
/// started, `None` when it could not.  The answer is `Some(true)` (a smoke
/// failure) when the binary cannot be started or the last flag failed too,
/// `Some(false)` once a run succeeds, and `None` when the next flag is due.
pub fn smoke_after(ran: Option<bool>, last_flag: bool) -> (r: Option<bool>)
    ensures
        r == (match ran {
            None => Some(true),
            Some(true) => Some(false),
            Some(false) => if last_flag {
                Some(true)
            } else {
                None
            },
        }),
{
    match ran {
        None => Some(true),
        Some(true) => Some(false),
        Some(false) => if last_flag {
            Some(true)
        } else {
            None
        },
    }
}

/// Classify a single artifact that has a non-current verdict.
///
/// `behind_days` is the threshold splitting source-newer artifacts into
/// `SourceNewerSameday` (delta below the threshold, or unknown) and
/// `SourceNewerBehind` (delta at or above it).
pub fn classify(artifact: &ArtifactResult, behind_days: i64, probes: &ClassifyProbes) -> (c:
    ClassifiedArtifact)
    requires
        artifact.verdict is InstalledStale && !probes.smoke_fail ==> classifiable(artifact@),
    ensures
        c.bin@ == artifact.bin@,
        (c.reason, c.detail@) == classification(
            artifact@,
            behind_days as int,
            crate::types::opt_view(probes.wrong_prefix),
            crate::types::opt_view(probes.off_path),
            probes.smoke_fail,
        ),
        artifact.verdict is NotInstalled ==> (c.reason is WrongPrefix || c.reason is OffPath
            || c.reason is NeverInstalled),
        artifact.verdict is InstalledStale ==> (c.reason is SmokeFail
            || c.reason is SourceNewerSameday || c.reason is SourceNewerBehind),
{
    let bin = artifact.bin.clone();
    if artifact.verdict == Verdict::NotInstalled {
        if let Some(p) = &probes.wrong_prefix {
            return ClassifiedArtifact {
                bin,
                reason: StaleReason::WrongPrefix,
                detail: concat("binary found at bogus prefix: ", p.as_str()),
            };
        }
        if let Some(p) = &probes.off_path {
            let d = concat(&concat("installed at ", p.as_str()), " but not on PATH");
            return ClassifiedArtifact { bin, reason: StaleReason::OffPath, detail: d };
        }
        return ClassifiedArtifact {
            bin,
            reason: StaleReason::NeverInstalled,
            detail: owned("not found in ~/.local/bin, ~/.cargo/bin, or PATH"),
        };
    }
    if artifact.verdict == Verdict::InstalledStale {
        if probes.smoke_fail {
            let d = concat(artifact.bin.as_str(), " --version / --help exited non-zero");
            return ClassifiedArtifact { bin, reason: StaleReason::SmokeFail, detail: d };
        }
        let (days, detail): (i64, String) = match (artifact.source_commit_ts, artifact.installed_ts) {
            (Some(src), Some(inst)) => {
                let delta: i64 = src - inst;
                let d: i64 = if delta >= 0 {
                    delta / 86400
                } else {
                    let m: i128 = -(delta as i128);
                    -((m / 86400) as i64)
                };
                let text = concat(
                    &concat("source is ", i64_to_decimal(d).as_str()),
                    "d newer than installed binary",
                );
                (d, text)
            },
            _ => (-1, owned("source HEAD is newer than installed binary")),
        };
        let reason = if days < 0 || days < behind_days {
            StaleReason::SourceNewerSameday
        } else {
            StaleReason::SourceNewerBehind
        };
        return ClassifiedArtifact { bin, reason, detail };
    }
    ClassifiedArtifact { bin, reason: StaleReason::NeverInstalled, detail: owned("unknown") }
}

// ── Location checks ───────────────────────────────────────────────────────────

/// The bogus prefix directory `$HOME/~`.
pub open spec fn junk_prefix(home: Seq<char>) -> Seq<char> {
    path_join(home, "~"@)
}

/// Where a binary lands under the bogus prefix, in the order they are tried:
/// `$HOME/~/.local/bin/<bin>`, `$HOME/~/bin/<bin>`, `$HOME/~/<bin>`.
pub fn wrong_prefix_candidates(home: &str, bin: &str) -> (v: Vec<String>)
    ensures
        v@.len() == 3,
        v@[0]@ == path_join(path_join(junk_prefix(home@), ".local/bin"@), bin@),
        v@[1]@ == path_join(path_join(junk_prefix(home@), "bin"@), bin@),
        v@[2]@ == path_join(junk_prefix(home@), bin@),
{
    let junk = join_path(home, "~");
    let a = join_path(&join_path(&junk, ".local/bin"), bin);
    let b = join_path(&join_path(&junk, "bin"), bin);
    let c = join_path(&junk, bin);
    let mut v: Vec<String> = Vec::new();
    v.push(a);
    v.push(b);
    v.push(c);
    v
}

/// The convention-dir copy of a binary that PATH does not reach: the
/// `~/.local/bin` copy if it exists, else the `~/.cargo/bin` copy, and `None`
/// when neither exists or the binary is on PATH.
pub fn off_path_location(
    local_path: &str,
    local_exists: bool,
    cargo_path: &str,
    cargo_exists: bool,
    on_path: bool,
) -> (r: Option<String>)
    ensures
        r is Some <==> (local_exists || cargo_exists) && !on_path,
        r is Some ==> r->0@ == (if local_exists {
            local_path@
        } else {
            cargo_path@
        }),
{
    if !(local_exists || cargo_exists) || on_path {
        None
    } else if local_exists {
        Some(owned(local_path))
    } else {
        Some(owned(cargo_path))
    }
}

// ── Summary ───────────────────────────────────────────────────────────────────

/// How many of `rs` are `r`.
pub open spec fn reason_count(rs: Seq<StaleReason>, r: StaleReason) -> nat
    decreases rs.len(),
{
    if rs.len() == 0 {
        0
    } else {
        reason_count(rs.drop_last(), r) + if rs.last() == r {
            1nat
        } else {
            0nat
        }
    }
}

/// The order in which the summary line lists its buckets.
pub open spec fn summary_order() -> Seq<StaleReason> {
    seq![
        StaleReason::NeverInstalled,
        StaleReason::WrongPrefix,
        StaleReason::OffPath,
        StaleReason::SourceNewerBehind,
        StaleReason::SourceNewerSameday,
        StaleReason::BuildFail,
        StaleReason::SmokeFail,
    ]
}

/// `Name: count` for each bucket of `order` that `rs` uses, in that order.
pub open spec fn summary_parts(rs: Seq<StaleReason>, order: Seq<StaleReason>) -> Seq<Seq<char>>
    decreases order.len(),
{
    if order.len() == 0 {
        seq![]
    } else {
        let prev = summary_parts(rs, order.drop_last());
        let n = reason_count(rs, order.last());
        if n > 0 {
            prev.push(reason_name(order.last()) + ": "@ + crate::text::decimal(n))
        } else {
            prev
        }
    }
}

/// The summary line printed after a classification.
pub open spec fn summary_text(rs: Seq<StaleReason>) -> Seq<char> {
    let parts = summary_parts(rs, summary_order());
    let head = "verify: "@ + crate::text::decimal(rs.len()) + " total · "@;
    if parts.len() == 0 {
        head + "all current"@
    } else {
        head + "{"@ + joined(parts, ", "@) + "}"@
    }
}

/// The reasons of a list of classified artifacts, in order.
pub open spec fn reasons_of(cs: Seq<ClassifiedArtifact>) -> Seq<StaleReason> {
    cs.map_values(|c: ClassifiedArtifact| c.reason)
}

fn count_reason(cs: &[ClassifiedArtifact], r: StaleReason) -> (n: usize)
    ensures
        n == reason_count(reasons_of(cs@), r),
{
    let mut n: usize = 0;
    let mut i: usize = 0;
    while i < cs.len()
        invariant
            i <= cs@.len(),
            n == reason_count(reasons_of(cs@.take(i as int)), r),
            n <= i,
        decreases cs@.len() - i,
    {
        assert(reasons_of(cs@.take(i + 1)).drop_last() =~= reasons_of(cs@.take(i as int)));
        if cs[i].reason == r {
            n = n + 1;
        }
        i = i + 1;
    }
    assert(cs@.take(cs@.len() as int) =~= cs@);
    n
}

/// The summary count line (`verify: N total · {Bucket: n, ...}`).
pub fn summary_line(classified: &[ClassifiedArtifact]) -> (s: String)
    ensures
        s@ == summary_text(reasons_of(classified@)),
{
    let ghost rs = reasons_of(classified@);
    let order: Vec<StaleReason> = vec![
        StaleReason::NeverInstalled,
        StaleReason::WrongPrefix,
        StaleReason::OffPath,
        StaleReason::SourceNewerBehind,
        StaleReason::SourceNewerSameday,
        StaleReason::BuildFail,
        StaleReason::SmokeFail,
    ];
    assert(order@ =~= summary_order());
    let mut body = String::new();
    let mut nparts: usize = 0;
    let mut k: usize = 0;
    while k < order.len()
        invariant
            k <= order@.len(),
            order@ == summary_order(),
            nparts == summary_parts(rs, order@.take(k as int)).len(),
            nparts <= k,
            body@ == joined(summary_parts(rs, order@.take(k as int)), ", "@),
            rs == reasons_of(classified@),
        decreases order@.len() - k,
    {
        assert(order@.take(k + 1).drop_last() =~= order@.take(k as int));
        let r = order[k];
        let n = count_reason(classified, r);
        let ghost prev = summary_parts(rs, order@.take(k as int));
        assert(order@.take(k + 1).last() == r);
        if n > 0 {
            let part = concat(&concat(r.display_name(), ": "), u64_to_decimal(n as u64).as_str());
            let ghost old_body = body@;
            if nparts > 0 {
                body.append(", ");
            }
            body.append(part.as_str());
            proof {
                let next = prev.push(part@);
                assert(summary_parts(rs, order@.take(k + 1)) == next);
                assert(next.drop_last() =~= prev);
                if prev.len() == 0 {
                    assert(old_body =~= Seq::<char>::empty());
                    assert(body@ =~= part@);
                } else {
                    assert(body@ =~= old_body + ", "@ + part@);
                }
            }
            nparts = nparts + 1;
        } else {
            assert(summary_parts(rs, order@.take(k + 1)) == prev);
        }
        k = k + 1;
    }
    assert(order@.take(order@.len() as int) =~= order@);
    assert(classified@.len() == rs.len());
    let mut line = concat(
        &concat("verify: ", u64_to_decimal(classified.len() as u64).as_str()),
        " total · ",
    );
    if nparts == 0 {
        line.append("all current");
    } else {
        line.append("{");
        line.append(body.as_str());
        line.append("}");
    }
    line
}

// ── Arguments ─────────────────────────────────────────────────────────────────

/// Output format for `adopt verify`.
#[derive(Debug, Clone, Copy, PartialEq, Eq, Structural)]
pub enum VerifyFormat {
    /// Human-readable table output.
    Table,
    /// Machine-readable JSON array output.
    Json,
}

/// Arguments for `adopt verify`.
pub struct VerifyArgs {
    /// Output format.
    pub format: VerifyFormat,
    /// Day delta threshold: source-newer artifacts with delta at or above it
    /// are `SourceNewerBehind`, below it `SourceNewerSameday`. Default is 2.
    pub behind_days: i64,
}

/// Whether `adopt verify` found anything not current (the exit code).
pub type AnyNotCurrent = bool;

/// Whether a verify run found anything not current: exactly when it
/// classified at least one artifact.
pub fn any_not_current(classified: &[ClassifiedArtifact]) -> (b: AnyNotCurrent)
    ensures
        b == (classified@.len() > 0),
{
    classified.len() > 0
}

// ── The verify run ───────────────────────────────────────────────────────────

/// The probe results as plain values.
pub open spec fn probe_view(p: ClassifyProbes) -> (Option<Seq<char>>, Option<Seq<char>>, bool) {
    (crate::types::opt_view(p.wrong_prefix), crate::types::opt_view(p.off_path), p.smoke_fail)
}

/// A classified artifact as plain values: binary, reason and detail.
pub open spec fn row_view(c: ClassifiedArtifact) -> (Seq<char>, StaleReason, Seq<char>) {
    (c.bin@, c.reason, c.detail@)
}

/// The rows of a verify run: each actionable artifact, in input order,
/// classified with the probes at the same position.
pub open spec fn verify_rows(
    rs: Seq<crate::types::ArtifactView>,
    ps: Seq<(Option<Seq<char>>, Option<Seq<char>>, bool)>,
    behind_days: int,
) -> Seq<(Seq<char>, StaleReason, Seq<char>)>
    decreases rs.len(),
{
    if rs.len() == 0 || ps.len() != rs.len() {
        Seq::empty()
    } else {
        let init = verify_rows(rs.drop_last(), ps.drop_last(), behind_days);
        let a = rs.last();
        let p = ps.last();
        if actionable(a.verdict) {
            let (r, d) = classification(a, behind_days, p.0, p.1, p.2);
            init.push((a.bin, r, d))
        } else {
            init
        }
    }
}

/// Classifies every actionable artifact of a scan, in order; the other
/// artifacts are left out.  `probes[i]` holds what the machine says about
/// `results[i]` (it is read only when that artifact is actionable).
pub fn run_verify(args: &VerifyArgs, results: &[ArtifactResult], probes: &[ClassifyProbes]) -> (out:
    Vec<ClassifiedArtifact>)
    requires
        probes@.len() == results@.len(),
        forall|i: int|
            0 <= i < results@.len() && #[trigger] results@[i].verdict is InstalledStale
                && !probes@[i].smoke_fail ==> classifiable(results@[i]@),
    ensures
        out@.map_values(|c: ClassifiedArtifact| row_view(c)) == verify_rows(
            crate::report::views(results@),
            probes@.map_values(|p: ClassifyProbes| probe_view(p)),
            args.behind_days as int,
        ),
{
    let mut out: Vec<ClassifiedArtifact> = Vec::new();
    let mut i: usize = 0;
    while i < results.len()
        invariant
            0 <= i <= results@.len(),
            probes@.len() == results@.len(),
            forall|k: int|
                0 <= k < results@.len() && #[trigger] results@[k].verdict is InstalledStale
                    && !probes@[k].smoke_fail ==> classifiable(results@[k]@),
            out@.map_values(|c: ClassifiedArtifact| row_view(c)) == verify_rows(
                crate::report::views(results@.take(i as int)),
                probes@.take(i as int).map_values(|p: ClassifyProbes| probe_view(p)),
                args.behind_days as int,
            ),
        decreases results@.len() - i,
    {
        let ghost rs = crate::report::views(results@.take(i as int + 1));
        let ghost ps = probes@.take(i as int + 1).map_values(|p: ClassifyProbes| probe_view(p));
        proof {
            assert(rs.drop_last() =~= crate::report::views(results@.take(i as int)));
            assert(ps.drop_last() =~= probes@.take(i as int).map_values(
                |p: ClassifyProbes| probe_view(p),
            ));
            assert(rs.last() == results@[i as int]@);
            assert(ps.last() == probe_view(probes@[i as int]));
        }
        let a = &results[i];
        if a.verdict.is_actionable() {
            let c = classify(a, args.behind_days, &probes[i]);
            out.push(c);
            assert(out@.map_values(|c: ClassifiedArtifact| row_view(c)) =~= verify_rows(
                rs,
                ps,
                args.behind_days as int,
            ));
        }
        i = i + 1;
    }
    proof {
        assert(results@.take(results@.len() as int) =~= results@);
        assert(probes@.take(probes@.len() as int) =~= probes@);
    }
    out
}

// ── Table output ─────────────────────────────────────────────────────────────

/// The table row of a classified artifact.
pub open spec fn verify_row(c: ClassifiedArtifact) -> Seq<char> {
    pad_right(c.bin@, 25) + " "@ + pad_right(reason_name(c.reason), 18) + " "@ + c.detail@
}

/// The lines of the verify table: a notice when nothing is classified, else
/// a header, a rule and one row per artifact.
pub open spec fn verify_table_lines(cs: Seq<ClassifiedArtifact>) -> Seq<Seq<char>> {
    if cs.len() == 0 {
        seq!["All artifacts are current."@]
    } else {
        seq![
            pad_right("BIN"@, 25) + " "@ + pad_right("REASON"@, 18) + " DETAIL"@,
            repeated('-', 80),
        ] + cs.map_values(|c: ClassifiedArtifact| verify_row(c))
    }
}

/// Renders the verify table, one line per element.
pub fn verify_table(classified: &[ClassifiedArtifact]) -> (v: Vec<String>)
    ensures
        crate::report::strings(v@) == verify_table_lines(classified@),
{
    let mut v: Vec<String> = Vec::new();
    if classified.len() == 0 {
        v.push(owned("All artifacts are current."));
        assert(crate::report::strings(v@) =~= verify_table_lines(classified@));
        return v;
    }
    v.push(concat(
        &concat(&concat(&padded_right("BIN", 25), " "), &padded_right("REASON", 18)),
        " DETAIL",
    ));
    v.push(repeat_char('-', 80));
    let ghost top = crate::report::strings(v@);
    let mut i: usize = 0;
    while i < classified.len()
        invariant
            i <= classified@.len(),
            v@.len() == 2 + i,
            crate::report::strings(v@).take(2) == top,
            forall|k: int| 0 <= k < i ==> (#[trigger] v@[2 + k])@ == verify_row(classified@[k]),
        decreases classified@.len() - i,
    {
        let c = &classified[i];
        let row = concat(
            &concat(
                &concat(&concat(&padded_right(&c.bin, 25), " "), &padded_right(c.reason.display_name(), 18)),
                " ",
            ),
            &c.detail,
        );
        assert(row@ =~= verify_row(classified@[i as int]));
        let ghost before = v@;
        v.push(row);
        assert(crate::report::strings(v@).take(2) =~= crate::report::strings(before).take(2));
        i = i + 1;
    }
    proof {
        let want = verify_table_lines(classified@);
        let got = crate::report::strings(v@);
        assert(top[0] =~= want[0]);
        assert forall|k: int| 0 <= k < v@.len() implies got[k] == want[k] by {
            if k >= 2 {
                assert(v@[2 + (k - 2)]@ == verify_row(classified@[k - 2]));
            } else {
                assert(got.take(2)[k] == top[k]);
            }
        }
        assert(got =~= want);
    }
    v
}

} // verus!
