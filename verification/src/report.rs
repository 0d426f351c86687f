//! The bridge to the docket ledger: one `docket report` invocation per
//! actionable artifact, and a `docket resolve` for the stale-binaries finding
//! once nothing is genuinely behind.  Every artifact-derived value is its own
//! argument; nothing is ever interpolated into a shell string.

use vstd::prelude::*;

use crate::text::{concat, owned, trim, trim_str};
use crate::types::{actionable, ArtifactResult, ArtifactView, FreshnessBasis, Verdict};
use crate::verify::{reason_name, reason_slug, ClassifyProbes, StaleReason};

verus! {

/// Finding key for installs that are provably behind their repo's HEAD.
pub const SLUG_STALE_BINARIES: &'static str = "adopt-scan-stale-binaries";

/// Finding key for stale installs judged by the clock (no install marker).
pub const SLUG_UNMARKED_INSTALLS: &'static str = "adopt-unmarked-installs";

/// Arguments for `adopt report`.
pub struct ReportArgs {
    /// Caller-supplied opaque run identifier passed through to `docket report --run`.
    pub run_id: String,
    /// If true, print commands but do not execute them.
    pub dry_run: bool,
    /// If set, read a previously captured `adopt scan --format json` payload
    /// from this path (`"-"` reads standard input).
    pub from_json: Option<String>,
}

/// The finding key an artifact is reported under: stale installs go to the
/// lineage or the unmarked bucket by the basis of their verdict, every other
/// artifact to the slug of its classified reason.
pub open spec fn key_slug(a: ArtifactView, reason: StaleReason) -> Seq<char> {
    if a.verdict is InstalledStale {
        if a.freshness_basis is Lineage {
            SLUG_STALE_BINARIES@
        } else {
            SLUG_UNMARKED_INSTALLS@
        }
    } else {
        reason_slug(reason)
    }
}

/// Only an artifact that is provably behind (installed-stale by lineage) is
/// ever filed under the stale-binaries key; clock-judged stale installs go
/// under the unmarked-installs key.
pub proof fn lemma_stale_key_only_for_lineage(a: ArtifactView, reason: StaleReason)
    ensures
        (key_slug(a, reason) == SLUG_STALE_BINARIES@) <==> (a.verdict is InstalledStale
            && a.freshness_basis is Lineage),
        (key_slug(a, reason) == SLUG_UNMARKED_INSTALLS@) <==> (a.verdict is InstalledStale
            && a.freshness_basis is ClockFallback),
{
    reveal_strlit("adopt-scan-stale-binaries");
    reveal_strlit("adopt-unmarked-installs");
    let stale = SLUG_STALE_BINARIES@;
    let unmarked = SLUG_UNMARKED_INSTALLS@;
    assert(stale[6] == 's' && stale[7] == 'c' && unmarked[6] == 'u');
    let k = reason_slug(reason);
    assert(k[6] == 's' && k[7] == 't') by {
        reveal_strlit("adopt-stale-neverinstalled");
        reveal_strlit("adopt-stale-wrongprefix");
        reveal_strlit("adopt-stale-offpath");
        reveal_strlit("adopt-stale-sourcenewer-sameday");
        reveal_strlit("adopt-stale-sourcenewer-behind");
        reveal_strlit("adopt-stale-buildfail");
        reveal_strlit("adopt-stale-smokefail");
    }
    assert(k != stale && k != unmarked && stale != unmarked);
}

/// Returns the docket slug under which an artifact with the given
/// classification is reported.
pub fn docket_slug_for(artifact: &ArtifactResult, reason: &StaleReason) -> (s: &'static str)
    ensures
        s@ == key_slug(artifact@, *reason),
{
    if artifact.verdict == Verdict::InstalledStale {
        match artifact.freshness_basis {
            FreshnessBasis::Lineage => SLUG_STALE_BINARIES,
            FreshnessBasis::ClockFallback => SLUG_UNMARKED_INSTALLS,
        }
    } else {
        reason.docket_slug()
    }
}

/// The strings of a vector of owned strings.
pub open spec fn strings(v: Seq<String>) -> Seq<Seq<char>> {
    v.map_values(|s: String| s@)
}

/// The arguments of the `docket report` call for one artifact.
pub open spec fn report_args(
    run_id: Seq<char>,
    a: ArtifactView,
    reason: StaleReason,
    sha: Seq<char>,
) -> Seq<Seq<char>> {
    seq![
        "report"@,
        "--run"@,
        run_id,
        "--key"@,
        key_slug(a, reason) + ":"@ + a.bin,
        "--title"@,
        a.bin + " not current ("@ + reason_name(reason) + ")"@,
        "--severity"@,
        if a.is_daemon {
            "error"@
        } else {
            "warn"@
        },
        "--evidence"@,
        "path:"@ + a.repo,
        "--evidence"@,
        "commit:"@ + sha,
    ]
}

/// Severity follows the daemon flag alone: a report call's `--severity` is
/// `error` exactly for a daemon and `warn` otherwise, whatever the verdict,
/// basis or reason.
pub proof fn lemma_severity_is_daemon(
    run_id: Seq<char>,
    a: ArtifactView,
    reason: StaleReason,
    sha: Seq<char>,
)
    ensures
        report_args(run_id, a, reason, sha)[7] == "--severity"@,
        a.is_daemon ==> report_args(run_id, a, reason, sha)[8] == "error"@,
        !a.is_daemon ==> report_args(run_id, a, reason, sha)[8] == "warn"@,
{
}

/// Build the discrete argument vector for a single `docket report` call.
///
/// `reason` is the artifact's classification and `sha` the short hash of
/// its newest source commit (`"unknown"` when it could not be read).
pub fn build_docket_args(
    run_id: &str,
    artifact: &ArtifactResult,
    reason: &StaleReason,
    sha: &str,
) -> (v: Vec<String>)
    ensures
        strings(v@) == report_args(run_id@, artifact@, *reason, sha@),
{
    let slug = docket_slug_for(artifact, reason);
    let key = concat(&concat(slug, ":"), artifact.bin.as_str());
    let title = concat(
        &concat(&concat(artifact.bin.as_str(), " not current ("), reason.display_name()),
        ")",
    );
    let severity = if artifact.is_daemon {
        "error"
    } else {
        "warn"
    };
    let v = vec![
        owned("report"),
        owned("--run"),
        owned(run_id),
        owned("--key"),
        key,
        owned("--title"),
        title,
        owned("--severity"),
        owned(severity),
        owned("--evidence"),
        concat("path:", artifact.repo.as_str()),
        owned("--evidence"),
        concat("commit:", sha),
    ];
    assert(strings(v@) =~= report_args(run_id@, artifact@, *reason, sha@));
    v
}

/// The arguments of `docket resolve`: the key, then `--reason <text>` when a
/// reason is given.  Docket's resolve takes the key positionally.
pub open spec fn resolve_args(slug: Seq<char>, reason: Option<Seq<char>>) -> Seq<Seq<char>> {
    match reason {
        Some(r) => seq!["resolve"@, slug, "--reason"@, r],
        None => seq!["resolve"@, slug],
    }
}

/// Build the argument vector for a `docket resolve` call.
pub fn build_resolve_args(slug: &str, reason: Option<&str>) -> (v: Vec<String>)
    ensures
        strings(v@) == resolve_args(slug@, match reason {
            Some(r) => Some(r@),
            None => None,
        }),
{
    let mut v = vec![owned("resolve"), owned(slug)];
    if let Some(r) = reason {
        v.push(owned("--reason"));
        v.push(owned(r));
    }
    assert(strings(v@) =~= resolve_args(slug@, match reason {
        Some(r) => Some(r@),
        None => None,
    }));
    v
}

/// The short commit hash shown as evidence: the trimmed output of the git
/// query, or `unknown` when git failed or printed nothing.
pub open spec fn evidence_sha(out: Option<Seq<char>>) -> Seq<char> {
    match out {
        Some(o) => if trim(o).len() > 0 {
            trim(o)
        } else {
            "unknown"@
        },
        None => "unknown"@,
    }
}

/// The evidence hash from the output of `git log -1 --format=%h -- src/`
/// (`None` when git could not be run or failed).
pub fn source_sha(git_output: Option<&str>) -> (s: String)
    ensures
        s@ == evidence_sha(match git_output {
            Some(o) => Some(o@),
            None => None,
        }),
{
    match git_output {
        Some(o) => {
            let t = trim_str(o);
            if !t.as_str().is_empty() {
                t
            } else {
                owned("unknown")
            }
        },
        None => owned("unknown"),
    }
}

// ── Buckets ───────────────────────────────────────────────────────────────────

/// The report bucket of an artifact.
pub enum ReportBucket {
    /// Installed-stale, proven by lineage.
    LineageStale,
    /// Installed-stale, judged by the clock.
    ClockFallback,
    /// Not installed at all.
    NotInstalled,
    /// Nothing to report.
    Quiet,
}

/// The bucket an artifact falls in.
pub open spec fn bucket_of(a: ArtifactView) -> ReportBucket {
    if a.verdict is InstalledStale {
        if a.freshness_basis is Lineage {
            ReportBucket::LineageStale
        } else {
            ReportBucket::ClockFallback
        }
    } else if a.verdict is NotInstalled {
        ReportBucket::NotInstalled
    } else {
        ReportBucket::Quiet
    }
}

/// The same bucket.
pub open spec fn same_bucket(x: ReportBucket, y: ReportBucket) -> bool {
    match (x, y) {
        (ReportBucket::LineageStale, ReportBucket::LineageStale) => true,
        (ReportBucket::ClockFallback, ReportBucket::ClockFallback) => true,
        (ReportBucket::NotInstalled, ReportBucket::NotInstalled) => true,
        (ReportBucket::Quiet, ReportBucket::Quiet) => true,
        _ => false,
    }
}

/// The views of the artifacts of `s` that fall in bucket `b`, in order.
pub open spec fn in_bucket(s: Seq<ArtifactView>, b: ReportBucket) -> Seq<ArtifactView>
    decreases s.len(),
{
    if s.len() == 0 {
        seq![]
    } else if same_bucket(bucket_of(s.last()), b) {
        in_bucket(s.drop_last(), b).push(s.last())
    } else {
        in_bucket(s.drop_last(), b)
    }
}

/// The views of a slice of artifacts.
pub open spec fn views(s: Seq<ArtifactResult>) -> Seq<ArtifactView> {
    s.map_values(|a: ArtifactResult| a@)
}

/// Splits artifacts into the lineage-stale, clock-fallback and not-installed
/// buckets, each in input order; current and library entries go nowhere.
pub fn partition_artifacts(artifacts: &[ArtifactResult]) -> (r: (
    Vec<ArtifactResult>,
    Vec<ArtifactResult>,
    Vec<ArtifactResult>,
))
    ensures
        views(r.0@) == in_bucket(views(artifacts@), ReportBucket::LineageStale),
        views(r.1@) == in_bucket(views(artifacts@), ReportBucket::ClockFallback),
        views(r.2@) == in_bucket(views(artifacts@), ReportBucket::NotInstalled),
{
    let mut lineage: Vec<ArtifactResult> = Vec::new();
    let mut clock: Vec<ArtifactResult> = Vec::new();
    let mut missing: Vec<ArtifactResult> = Vec::new();
    let mut i: usize = 0;
    while i < artifacts.len()
        invariant
            i <= artifacts@.len(),
            views(lineage@) == in_bucket(views(artifacts@.take(i as int)), ReportBucket::LineageStale),
            views(clock@) == in_bucket(views(artifacts@.take(i as int)), ReportBucket::ClockFallback),
            views(missing@) == in_bucket(views(artifacts@.take(i as int)), ReportBucket::NotInstalled),
        decreases artifacts@.len() - i,
    {
        let ghost pre = views(artifacts@.take(i as int));
        let ghost cur = views(artifacts@.take(i + 1));
        assert(cur.drop_last() =~= pre);
        assert(cur.last() == artifacts@[i as int]@);
        let a = &artifacts[i];
        if a.verdict == Verdict::InstalledStale {
            if a.freshness_basis == FreshnessBasis::Lineage {
                let ghost old = lineage@;
                lineage.push(a.duplicate());
                assert(views(lineage@) =~= views(old).push(a@));
            } else {
                let ghost old = clock@;
                clock.push(a.duplicate());
                assert(views(clock@) =~= views(old).push(a@));
            }
        } else if a.verdict == Verdict::NotInstalled {
            let ghost old = missing@;
            missing.push(a.duplicate());
            assert(views(missing@) =~= views(old).push(a@));
        }
        i = i + 1;
    }
    assert(artifacts@.take(artifacts@.len() as int) =~= artifacts@);
    (lineage, clock, missing)
}

/// The three report buckets split the actionable artifacts: every
/// not-installed or installed-stale artifact lands in exactly one of them,
/// and nothing else lands in any.
pub proof fn lemma_buckets_cover_actionable(s: Seq<ArtifactView>)
    ensures
        in_bucket(s, ReportBucket::LineageStale).len() + in_bucket(s, ReportBucket::ClockFallback).len()
            + in_bucket(s, ReportBucket::NotInstalled).len() == crate::scan::actionable_count(s),
    decreases s.len(),
{
    if s.len() > 0 {
        lemma_buckets_cover_actionable(s.drop_last());
    }
}

/// Whether the stale-binaries finding should be resolved: exactly when no
/// artifact is provably behind (installed-stale by lineage).
pub fn stale_finding_resolved(artifacts: &[ArtifactResult]) -> (b: bool)
    ensures
        b == (in_bucket(views(artifacts@), ReportBucket::LineageStale).len() == 0),
{
    let mut i: usize = 0;
    while i < artifacts.len()
        invariant
            i <= artifacts@.len(),
            in_bucket(views(artifacts@.take(i as int)), ReportBucket::LineageStale).len() == 0,
        decreases artifacts@.len() - i,
    {
        let ghost cur = views(artifacts@.take(i + 1));
        assert(cur.drop_last() =~= views(artifacts@.take(i as int)));
        assert(cur.last() == artifacts@[i as int]@);
        if artifacts[i].verdict == Verdict::InstalledStale && artifacts[i].freshness_basis
            == FreshnessBasis::Lineage {
            proof {
                lemma_in_bucket_grows(views(artifacts@), i + 1);
            }
            assert(artifacts@.take(artifacts@.len() as int) =~= artifacts@);
            return false;
        }
        i = i + 1;
    }
    assert(artifacts@.take(artifacts@.len() as int) =~= artifacts@);
    true
}

proof fn lemma_in_bucket_grows(s: Seq<ArtifactView>, i: int)
    requires
        0 <= i <= s.len(),
    ensures
        in_bucket(s.take(i), ReportBucket::LineageStale).len() <= in_bucket(
            s,
            ReportBucket::LineageStale,
        ).len(),
    decreases s.len() - i,
{
    if i < s.len() {
        assert(s.take(s.len() - 1) =~= s.drop_last());
        lemma_in_bucket_grows(s.drop_last(), i);
        assert(s.drop_last().take(i) =~= s.take(i));
    } else {
        assert(s.take(i) =~= s);
    }
}

// ── A report run ─────────────────────────────────────────────────────────────

/// The reason an artifact is classified under, given what the machine says
/// about it.
pub open spec fn reason_for(
    a: ArtifactView,
    p: (Option<Seq<char>>, Option<Seq<char>>, bool),
    behind_days: int,
) -> StaleReason {
    crate::verify::classification(a, behind_days, p.0, p.1, p.2).0
}

/// The `docket report` calls of a run: one per actionable artifact, in order,
/// with its classified reason and the evidence hash given for it.
pub open spec fn report_calls(
    run_id: Seq<char>,
    arts: Seq<ArtifactView>,
    ps: Seq<(Option<Seq<char>>, Option<Seq<char>>, bool)>,
    behind_days: int,
    shas: Seq<Seq<char>>,
) -> Seq<Seq<Seq<char>>>
    decreases arts.len(),
{
    if arts.len() == 0 || ps.len() != arts.len() || shas.len() != arts.len() {
        seq![]
    } else {
        let prev = report_calls(run_id, arts.drop_last(), ps.drop_last(), behind_days, shas.drop_last());
        if actionable(arts.last().verdict) {
            prev.push(
                report_args(run_id, arts.last(), reason_for(arts.last(), ps.last(), behind_days), shas.last()),
            )
        } else {
            prev
        }
    }
}

/// Every docket call of a report run, in order: the reports, then the
/// resolve of the stale-binaries finding when nothing is provably behind.
pub open spec fn run_calls(
    run_id: Seq<char>,
    arts: Seq<ArtifactView>,
    ps: Seq<(Option<Seq<char>>, Option<Seq<char>>, bool)>,
    behind_days: int,
    shas: Seq<Seq<char>>,
) -> Seq<Seq<Seq<char>>> {
    report_calls(run_id, arts, ps, behind_days, shas) + if in_bucket(arts, ReportBucket::LineageStale).len()
        == 0 {
        seq![resolve_args(SLUG_STALE_BINARIES@, None)]
    } else {
        seq![]
    }
}

/// The argument lists of a sequence of calls.
pub open spec fn calls_view(v: Seq<Vec<String>>) -> Seq<Seq<Seq<char>>> {
    v.map_values(|c: Vec<String>| strings(c@))
}

/// The probe results of a list of probes, as plain values.
pub open spec fn probe_views(ps: Seq<ClassifyProbes>) -> Seq<(Option<Seq<char>>, Option<Seq<char>>, bool)> {
    ps.map_values(|p: ClassifyProbes| crate::verify::probe_view(p))
}

/// Plans the docket calls of a report run.  `probes[i]` is what the machine
/// says about `artifacts[i]` and `shas[i]` its evidence hash; both are read
/// only for actionable artifacts, each of which is classified (with the
/// `behind_days` threshold) for the title of its finding.
pub fn plan_report(
    run_id: &str,
    artifacts: &[ArtifactResult],
    probes: &[ClassifyProbes],
    behind_days: i64,
    shas: &[String],
) -> (v: Vec<Vec<String>>)
    requires
        probes@.len() == artifacts@.len(),
        shas@.len() == artifacts@.len(),
        forall|i: int|
            0 <= i < artifacts@.len() && #[trigger] artifacts@[i].verdict is InstalledStale
                && !probes@[i].smoke_fail ==> crate::verify::classifiable(artifacts@[i]@),
    ensures
        calls_view(v@) == run_calls(
            run_id@,
            views(artifacts@),
            probe_views(probes@),
            behind_days as int,
            strings(shas@),
        ),
{
    let ghost ps = probe_views(probes@);
    let mut v: Vec<Vec<String>> = Vec::new();
    let mut i: usize = 0;
    while i < artifacts.len()
        invariant
            i <= artifacts@.len(),
            probes@.len() == artifacts@.len(),
            shas@.len() == artifacts@.len(),
            ps == probe_views(probes@),
            forall|k: int|
                0 <= k < artifacts@.len() && #[trigger] artifacts@[k].verdict is InstalledStale
                    && !probes@[k].smoke_fail ==> crate::verify::classifiable(artifacts@[k]@),
            calls_view(v@) == report_calls(
                run_id@,
                views(artifacts@.take(i as int)),
                ps.take(i as int),
                behind_days as int,
                strings(shas@.take(i as int)),
            ),
        decreases artifacts@.len() - i,
    {
        assert(views(artifacts@.take(i + 1)).drop_last() =~= views(artifacts@.take(i as int)));
        assert(ps.take(i + 1).drop_last() =~= ps.take(i as int));
        assert(strings(shas@.take(i + 1)).drop_last() =~= strings(shas@.take(i as int)));
        assert(views(artifacts@.take(i + 1)).last() == artifacts@[i as int]@);
        assert(ps.take(i + 1).last() == crate::verify::probe_view(probes@[i as int]));
        assert(strings(shas@.take(i + 1)).last() == shas@[i as int]@);
        if artifacts[i].verdict.is_actionable() {
            let reason = crate::verify::classify(&artifacts[i], behind_days, &probes[i]).reason;
            let call = build_docket_args(run_id, &artifacts[i], &reason, shas[i].as_str());
            let ghost before = calls_view(v@);
            v.push(call);
            assert(calls_view(v@) =~= before.push(strings(call@)));
        }
        i = i + 1;
    }
    assert(artifacts@.take(artifacts@.len() as int) =~= artifacts@);
    assert(ps.take(ps.len() as int) =~= ps);
    assert(shas@.take(shas@.len() as int) =~= shas@);
    let ghost reports = calls_view(v@);
    if stale_finding_resolved(artifacts) {
        let r = build_resolve_args(SLUG_STALE_BINARIES, None);
        v.push(r);
        assert(calls_view(v@) =~= reports.push(strings(r@)));
    }
    assert(calls_view(v@) =~= run_calls(
        run_id@,
        views(artifacts@),
        ps,
        behind_days as int,
        strings(shas@),
    ));
    v
}

// ── Dry-run rendering ─────────────────────────────────────────────────────────

/// The characters that a shell leaves alone: these need no quoting.
pub open spec fn shell_safe(c: char) -> bool {
    unicode_alphanumeric(c) || c == '-' || c == '_' || c == '.' || c == '/' || c == '+' || c
        == ':' || c == '@' || c == '='
}

/// Whether `char::is_alphanumeric` holds of `c` (Unicode `Alphabetic` or `Numeric`).
pub uninterp spec fn unicode_alphanumeric(c: char) -> bool;

/// `char::is_alphanumeric`.  Its result is `unicode_alphanumeric(c)`; for
/// ASCII characters that is exactly the letters and the digits.  Which
/// non-ASCII characters qualify is left to the Unicode tables of std.
#[verifier::external_body]
fn is_alphanumeric(c: char) -> (b: bool)
    ensures
        b == unicode_alphanumeric(c),
        (c as u32) < 128 ==> (b <==> ('a' <= c <= 'z' || 'A' <= c <= 'Z' || '0' <= c <= '9')),
{
    c.is_alphanumeric()
}

/// `s` with every single quote written as `'\''`.
pub open spec fn escape_quotes(s: Seq<char>) -> Seq<char>
    decreases s.len(),
{
    if s.len() == 0 {
        seq![]
    } else if s.last() == '\'' {
        escape_quotes(s.drop_last()) + seq!['\'', '\\', '\'', '\'']
    } else {
        escape_quotes(s.drop_last()).push(s.last())
    }
}

/// The display form of one argument: unchanged when every character is
/// shell-safe, else single-quoted with its quotes escaped.
pub open spec fn shell_quoted(s: Seq<char>) -> Seq<char> {
    if forall|i: int| 0 <= i < s.len() ==> shell_safe(#[trigger] s[i]) {
        s
    } else {
        seq!['\''] + escape_quotes(s) + seq!['\'']
    }
}

/// Minimally shell-quote a string for dry-run display only.
pub fn shell_quote(s: &str) -> (q: String)
    ensures
        q@ == shell_quoted(s@),
{
    let cs = crate::text::chars_of(s);
    let mut safe = true;
    let mut esc: Vec<char> = Vec::new();
    let mut i: usize = 0;
    while i < cs.len()
        invariant
            i <= cs@.len(),
            cs@ == s@,
            safe == (forall|j: int| 0 <= j < i ==> shell_safe(#[trigger] cs@[j])),
            esc@ == escape_quotes(cs@.take(i as int)),
        decreases cs@.len() - i,
    {
        let c = cs[i];
        let ok = is_alphanumeric(c) || c == '-' || c == '_' || c == '.' || c == '/' || c == '+'
            || c == ':' || c == '@' || c == '=';
        if !ok {
            safe = false;
        }
        assert(cs@.take(i + 1).drop_last() =~= cs@.take(i as int));
        assert(cs@.take(i + 1).last() == c);
        if c == '\'' {
            esc.push('\'');
            esc.push('\\');
            esc.push('\'');
            esc.push('\'');
            assert(esc@ =~= escape_quotes(cs@.take(i + 1)));
        } else {
            esc.push(c);
        }
        i = i + 1;
    }
    assert(cs@.take(cs@.len() as int) =~= cs@);
    if safe {
        owned(s)
    } else {
        let mut out: Vec<char> = Vec::new();
        out.push('\'');
        out.append(&mut esc);
        out.push('\'');
        assert(out@ =~= shell_quoted(s@));
        crate::text::string_of(out.as_slice())
    }
}

/// The display form of a docket call: `docket` followed by each argument,
/// shell-quoted where needed, separated by single spaces.
pub open spec fn command_line(args: Seq<Seq<char>>) -> Seq<char>
    decreases args.len(),
{
    if args.len() == 0 {
        "docket"@
    } else {
        command_line(args.drop_last()) + " "@ + shell_quoted(args.last())
    }
}

/// Renders a docket call for display (dry runs, and the argv logged when a
/// call fails).  Not used to run anything.
pub fn docket_command_line(args: &Vec<String>) -> (s: String)
    ensures
        s@ == command_line(strings(args@)),
{
    let mut line = owned("docket");
    let mut i: usize = 0;
    while i < args.len()
        invariant
            i <= args@.len(),
            line@ == command_line(strings(args@).take(i as int)),
        decreases args@.len() - i,
    {
        assert(strings(args@).take(i + 1).drop_last() =~= strings(args@).take(i as int));
        let q = shell_quote(args[i].as_str());
        line = concat(&concat(&line, " "), &q);
        i = i + 1;
    }
    assert(strings(args@).take(args@.len() as int) =~= strings(args@));
    line
}

} // verus!
