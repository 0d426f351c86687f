//! The convergence ledger of the fixpoint pipeline: one record per run, and
//! the check that raises an alert when the behind count regresses or stalls.

use vstd::prelude::*;

use crate::report::{build_resolve_args, resolve_args, strings};
use crate::text::{
    concat, decimal, owned, pad_left, pad_right, padded_left, padded_right, repeat_char, repeated,
    same_text, u64_to_decimal,
};

verus! {

/// Docket finding slug emitted when the pipeline is not converging.
pub const SLUG_NOT_CONVERGING: &'static str = "fixpoint-not-converging";

/// One convergence snapshot appended after each pipeline run.
#[derive(Debug, Clone)]
pub struct ConvergeRecord {
    /// Opaque run identifier (e.g. `"2026-06-13.1"`); the de-duplication key.
    pub run: String,
    /// ISO-8601 UTC timestamp of the run.
    pub ts: String,
    /// Total number of scanned artifacts.
    pub total: u32,
    /// Count of genuinely-behind artifacts.
    pub behind: u32,
    /// Count of artifacts blocked because their working tree is dirty.
    pub dirty_blocked: u32,
    /// Count of artifacts whose freshness used the clock fallback.
    pub fallback: u32,
    /// Count of artifacts with a current lineage marker.
    pub lineage_current: u32,
}

/// Alert raised when the pipeline is not converging.
#[derive(Debug, Clone)]
pub struct ConvergenceAlert {
    /// Human-readable explanation.
    pub message: String,
    /// The `behind` value of the most recent record.
    pub behind: u32,
    /// Whether this is a stall (flat non-zero) rather than a regression.
    pub is_stall: bool,
}

/// The behind counts of a ledger, oldest first.
pub open spec fn behind_counts(records: Seq<ConvergeRecord>) -> Seq<u32> {
    records.map_values(|r: ConvergeRecord| r.behind)
}

/// The last `n` entries of `b` (all of them when there are fewer).
pub open spec fn tail_of(b: Seq<u32>, n: nat) -> Seq<u32> {
    if b.len() > n {
        b.skip(b.len() - n)
    } else {
        b
    }
}

/// Every entry of `t` is non-zero.
pub open spec fn all_nonzero(t: Seq<u32>) -> bool {
    forall|i: int| 0 <= i < t.len() ==> t[i] > 0
}

/// `t` strictly decreases from each entry to the next.
pub open spec fn strictly_decreasing(t: Seq<u32>) -> bool {
    forall|i: int| 0 <= i < t.len() - 1 ==> #[trigger] t[i] > t[i + 1]
}

/// The alert that the convergence check raises on behind counts `b`:
/// `(message, behind, is_stall)`.
///
/// - no alert with fewer than two records, or when the last count is zero;
/// - a regression alert when the count rose from the previous run;
/// - a stall alert when the last `stall_runs` counts (and there are that
///   many) are all non-zero and not strictly decreasing;
/// - no alert otherwise.
pub open spec fn convergence_alert(b: Seq<u32>, stall_runs: nat) -> Option<(Seq<char>, u32, bool)> {
    if b.len() < 2 {
        None
    } else if b.last() == 0 {
        None
    } else if b.last() > b[b.len() - 2] {
        Some(
            (
                "behind count increased from "@ + decimal(b[b.len() - 2] as nat) + " to "@
                    + decimal(b.last() as nat) + " (regression)"@,
                b.last(),
                false,
            ),
        )
    } else if stall_runs == 0 {
        None
    } else {
        let t = tail_of(b, stall_runs);
        if t.len() > 0 && all_nonzero(t) && t.len() >= stall_runs && !strictly_decreasing(t) {
            Some(
                (
                    "behind has been > 0 for "@ + decimal(t.len()) + " consecutive runs (stall)"@,
                    b.last(),
                    true,
                ),
            )
        } else {
            None
        }
    }
}

/// The alert as a tuple of plain values.
pub open spec fn alert_view(a: Option<ConvergenceAlert>) -> Option<(Seq<char>, u32, bool)> {
    match a {
        Some(x) => Some((x.message@, x.behind, x.is_stall)),
        None => None,
    }
}

/// Whether the behind counts from `start` on are all non-zero, and whether
/// they strictly decrease.
fn tail_flags(records: &[ConvergeRecord], start: usize) -> (r: (bool, bool))
    requires
        start <= records@.len(),
    ensures
        r.0 == all_nonzero(behind_counts(records@).skip(start as int)),
        r.1 == strictly_decreasing(behind_counts(records@).skip(start as int)),
{
    let ghost b = behind_counts(records@);
    let ghost t = b.skip(start as int);
    let n = records.len();
    let mut nonzero = true;
    let mut decreasing = true;
    let mut i = start;
    while i < n
        invariant
            start <= i <= n == records@.len(),
            b == behind_counts(records@),
            nonzero == (forall|j: int| start <= j < i ==> b[j] > 0),
            decreasing == (forall|j: int| start <= j < i - 1 ==> #[trigger] b[j] > b[j + 1]),
        decreases n - i,
    {
        assert(b[i as int] == records@[i as int].behind);
        if i > start {
            assert(b[i - 1] == records@[i - 1].behind);
        }
        if records[i].behind == 0 {
            nonzero = false;
        }
        if i > start && records[i - 1].behind <= records[i].behind {
            decreasing = false;
        }
        i = i + 1;
    }
    assert(nonzero == all_nonzero(t)) by {
        if nonzero {
            assert forall|j: int| 0 <= j < t.len() implies t[j] > 0 by {
                assert(t[j] == b[j + start]);
            }
        } else {
            let j = choose|j: int| start <= j < n && !(b[j] > 0);
            assert(t[j - start] == b[j]);
        }
    }
    assert(decreasing == strictly_decreasing(t)) by {
        if decreasing {
            assert forall|j: int| 0 <= j < t.len() - 1 implies #[trigger] t[j] > t[j + 1] by {
                assert(t[j] == b[j + start]);
                assert(t[j + 1] == b[j + 1 + start]);
            }
        } else {
            let j = choose|j: int| start <= j < n - 1 && !(#[trigger] b[j] > b[j + 1]);
            assert(t[j - start] == b[j]);
            assert(t[j - start + 1] == b[j + 1]);
        }
    }
    (nonzero, decreasing)
}

fn regression_message(prev: u32, last: u32) -> (m: String)
    ensures
        m@ == "behind count increased from "@ + decimal(prev as nat) + " to "@ + decimal(
            last as nat,
        ) + " (regression)"@,
{
    concat(
        &concat(
            &concat(
                &concat("behind count increased from ", u64_to_decimal(prev as u64).as_str()),
                " to ",
            ),
            u64_to_decimal(last as u64).as_str(),
        ),
        " (regression)",
    )
}

fn stall_message(runs: usize) -> (m: String)
    ensures
        m@ == "behind has been > 0 for "@ + decimal(runs as nat) + " consecutive runs (stall)"@,
{
    concat(
        &concat("behind has been > 0 for ", u64_to_decimal(runs as u64).as_str()),
        " consecutive runs (stall)",
    )
}

/// Check whether the pipeline is converging.
///
/// Returns an alert if `behind` strictly increased from the previous run to
/// the last, or has been non-zero, and not strictly decreasing, for the last
/// `stall_runs` runs.  Returns `None` with fewer than two records, once
/// `behind` reaches zero, and while `behind` keeps decreasing.
pub fn check_convergence(records: &[ConvergeRecord], stall_runs: usize) -> (r: Option<
    ConvergenceAlert,
>)
    ensures
        alert_view(r) == convergence_alert(behind_counts(records@), stall_runs as nat),
{
    let ghost b = behind_counts(records@);
    let n = records.len();
    if n < 2 {
        return None;
    }
    let last = records[n - 1].behind;
    let prev = records[n - 2].behind;
    assert(b.last() == last && b[b.len() - 2] == prev);
    if last == 0 {
        return None;
    }
    if last > prev {
        let msg = regression_message(prev, last);
        return Some(ConvergenceAlert { message: msg, behind: last, is_stall: false });
    }
    if stall_runs == 0 {
        return None;
    }
    let start: usize = if n > stall_runs {
        n - stall_runs
    } else {
        0
    };
    assert(tail_of(b, stall_runs as nat) =~= b.skip(start as int));
    let (nonzero, decreasing) = tail_flags(records, start);
    let tail_len = n - start;
    if tail_len > 0 && nonzero && tail_len >= stall_runs && !decreasing {
        let msg = stall_message(tail_len);
        return Some(ConvergenceAlert { message: msg, behind: last, is_stall: true });
    }
    None
}

/// A converged pipeline raises no alert: when the most recent run reports
/// zero behind, the check returns nothing, whatever the history before it.
pub proof fn lemma_converged_means_no_alert(b: Seq<u32>, stall_runs: nat)
    requires
        b.len() > 0,
        b.last() == 0,
    ensures
        convergence_alert(b, stall_runs) is None,
{
}

/// Any alert reports the behind count of the most recent run, and a rise in
/// that count from the run before is always reported as a regression.
pub proof fn lemma_alert_reports_last_count(b: Seq<u32>, stall_runs: nat)
    ensures
        convergence_alert(b, stall_runs) is Some ==> (convergence_alert(b, stall_runs)->0).1
            == b.last(),
        b.len() >= 2 && b.last() > b[b.len() - 2] ==> convergence_alert(b, stall_runs) is Some
            && !(convergence_alert(b, stall_runs)->0).2,
{
}

/// A ledger whose behind count strictly decreases over its last
/// `stall_runs` runs, without rising at the end, is never reported as stalled.
pub proof fn lemma_progress_is_not_a_stall(b: Seq<u32>, stall_runs: nat)
    requires
        stall_runs >= 2,
        strictly_decreasing(tail_of(b, stall_runs)),
    ensures
        convergence_alert(b, stall_runs) is None,
{
    if b.len() >= 2 {
        let t = tail_of(b, stall_runs);
        let k = t.len() - 2;
        assert(t[k] > t[k + 1]);
        if b.len() > stall_runs {
            assert(t[k] == b[b.len() - 2]);
            assert(t[k + 1] == b.last());
        } else {
            assert(t[k] == b[b.len() - 2]);
        }
    }
}

/// A stall is reported: when the last `stall_runs` counts (with at least two
/// runs in all) are all non-zero, the last count is not above the one before
/// it, and somewhere in those runs a count fails to drop from one run to the
/// next, the check raises a stall alert for the last count that names
/// `stall_runs` consecutive runs.
pub proof fn lemma_flat_tail_is_a_stall(b: Seq<u32>, stall_runs: nat, j: int)
    requires
        stall_runs >= 1,
        b.len() >= 2,
        b.len() >= stall_runs,
        forall|i: int| b.len() - stall_runs <= i < b.len() ==> b[i] > 0,
        b[b.len() - 1] <= b[b.len() - 2],
        b.len() - stall_runs <= j < b.len() - 1,
        b[j] <= b[j + 1],
    ensures
        convergence_alert(b, stall_runs) == Some(
            (
                "behind has been > 0 for "@ + decimal(stall_runs) + " consecutive runs (stall)"@,
                b[b.len() - 1],
                true,
            ),
        ),
{
    let t = tail_of(b, stall_runs);
    let s = b.len() - stall_runs;
    assert(t.len() == stall_runs);
    assert forall|i: int| 0 <= i < t.len() implies t[i] > 0 by {
        assert(t[i] == b[s + i]);
    }
    assert(t[j - s] == b[j] && t[j - s + 1] == b[j + 1]);
    assert(!strictly_decreasing(t));
}

// ── Trend display ─────────────────────────────────────────────────────────────

/// The trend marker comparing a value with the previous run's.
pub open spec fn trend(current: u32, prev: Option<u32>) -> char {
    match prev {
        None => '=',
        Some(p) => if current > p {
            '▲'
        } else if current < p {
            '▼'
        } else {
            '='
        },
    }
}

/// Trend marker comparing current vs previous value: up, down or level.
pub fn trend_marker(current: u32, prev: Option<u32>) -> (c: char)
    ensures
        c == trend(current, prev),
{
    match prev {
        None => '=',
        Some(p) => {
            if current > p {
                '▲'
            } else if current < p {
                '▼'
            } else {
                '='
            }
        },
    }
}

// ── Ledger maintenance ────────────────────────────────────────────────────────

/// The ledger already holds a record for `run`.
pub open spec fn has_run(records: Seq<ConvergeRecord>, run: Seq<char>) -> bool {
    exists|i: int| 0 <= i < records.len() && records[i].run@ == run
}

/// Whether appending a record for `run` would add a line: appends are
/// idempotent per run id, so only a run the ledger does not hold is written.
pub fn should_append(records: &[ConvergeRecord], run: &str) -> (b: bool)
    ensures
        b == !has_run(records@, run@),
{
    let mut i: usize = 0;
    while i < records.len()
        invariant
            i <= records@.len(),
            forall|j: int| 0 <= j < i ==> records@[j].run@ != run@,
        decreases records@.len() - i,
    {
        if same_text(records[i].run.as_str(), run) {
            return false;
        }
        i = i + 1;
    }
    true
}

impl ConvergeRecord {
    /// A field-by-field copy of this record.
    pub fn duplicate(&self) -> (r: ConvergeRecord)
        ensures
            r == *self,
    {
        ConvergeRecord {
            run: self.run.clone(),
            ts: self.ts.clone(),
            total: self.total,
            behind: self.behind,
            dirty_blocked: self.dirty_blocked,
            fallback: self.fallback,
            lineage_current: self.lineage_current,
        }
    }
}

/// Appends `record` to the ledger unless it already holds a record of the
/// same run; returns whether it was appended (a line must then be written).
pub fn append_if_new(records: &mut Vec<ConvergeRecord>, record: ConvergeRecord) -> (added: bool)
    ensures
        added == !has_run(old(records)@, record.run@),
        added ==> final(records)@ == old(records)@.push(record),
        !added ==> final(records)@ == old(records)@,
{
    let fresh = should_append(records.as_slice(), record.run.as_str());
    if fresh {
        records.push(record);
    }
    fresh
}

/// The last `limit` records of a ledger (all of them without a limit).
pub fn last_records(records: &[ConvergeRecord], limit: Option<usize>) -> (v: Vec<ConvergeRecord>)
    ensures
        v@ == records@.skip(
            match limit {
                Some(n) => if records@.len() > n {
                    records@.len() - n
                } else {
                    0
                },
                None => 0,
            },
        ),
{
    let start = first_kept(records.len(), limit);
    let mut v: Vec<ConvergeRecord> = Vec::new();
    let mut i = start;
    while i < records.len()
        invariant
            start <= i <= records@.len(),
            v@ == records@.subrange(start as int, i as int),
        decreases records@.len() - i,
    {
        v.push(records[i].duplicate());
        assert(v@ =~= records@.subrange(start as int, i + 1));
        i = i + 1;
    }
    assert(v@ =~= records@.skip(start as int));
    v
}

/// The index of the first record kept when reading the last `limit`
/// records of a ledger holding `len` of them (`None`: all of them).
pub fn first_kept(len: usize, limit: Option<usize>) -> (start: usize)
    ensures
        start == (match limit {
            Some(n) => if len > n {
                len - n
            } else {
                0
            },
            None => 0,
        }),
        start <= len,
{
    match limit {
        Some(n) => if len > n {
            len - n
        } else {
            0
        },
        None => 0,
    }
}

// ── Docket finding ────────────────────────────────────────────────────────────

/// The docket call for the not-converging finding: a `report` when there is
/// an alert, otherwise a `resolve` of the finding.
pub open spec fn finding_args(run_id: Seq<char>, alert: Option<(Seq<char>, u32, bool)>) -> Seq<
    Seq<char>,
> {
    match alert {
        Some(a) => seq![
            "report"@,
            "--run"@,
            run_id,
            "--key"@,
            SLUG_NOT_CONVERGING@,
            "--title"@,
            "fixpoint pipeline not converging: behind="@ + decimal(a.1 as nat),
            "--severity"@,
            "warn"@,
            "--evidence"@,
            "detail:"@ + a.0,
        ],
        None => resolve_args(SLUG_NOT_CONVERGING@, None),
    }
}

/// The argument vector of the docket call that emits (on an alert) or
/// resolves (otherwise) the not-converging finding.
pub fn convergence_finding_args(run_id: &str, alert: Option<&ConvergenceAlert>) -> (v: Vec<String>)
    ensures
        strings(v@) == finding_args(run_id@, match alert {
            Some(a) => Some((a.message@, a.behind, a.is_stall)),
            None => None,
        }),
{
    match alert {
        Some(a) => {
            let v = vec![
                owned("report"),
                owned("--run"),
                owned(run_id),
                owned("--key"),
                owned(SLUG_NOT_CONVERGING),
                owned("--title"),
                concat(
                    "fixpoint pipeline not converging: behind=",
                    u64_to_decimal(a.behind as u64).as_str(),
                ),
                owned("--severity"),
                owned("warn"),
                owned("--evidence"),
                concat("detail:", a.message.as_str()),
            ];
            assert(strings(v@) =~= finding_args(run_id@, Some((a.message@, a.behind, a.is_stall))));
            v
        },
        None => build_resolve_args(SLUG_NOT_CONVERGING, None),
    }
}

// ── Trend table ──────────────────────────────────────────────────────────────

/// A count right-aligned in `w` columns, followed by its trend marker.
pub open spec fn trend_cell(current: u32, prev: Option<u32>, w: nat) -> Seq<char> {
    pad_left(decimal(current as nat), w).push(trend(current, prev))
}

/// The previous record's value of a field, when there is a previous record.
pub open spec fn prev_of(prev: Option<ConvergeRecord>, f: spec_fn(ConvergeRecord) -> u32) -> Option<u32> {
    match prev {
        Some(p) => Some(f(p)),
        None => None,
    }
}

/// The trend-table row of a record, with markers against the record before it.
pub open spec fn trend_row(r: ConvergeRecord, prev: Option<ConvergeRecord>) -> Seq<char> {
    pad_right(r.run@, 22) + " "@ + trend_cell(r.total, prev_of(prev, |p: ConvergeRecord| p.total), 5)
        + " "@ + trend_cell(r.behind, prev_of(prev, |p: ConvergeRecord| p.behind), 6) + " "@
        + trend_cell(r.dirty_blocked, prev_of(prev, |p: ConvergeRecord| p.dirty_blocked), 12)
        + " "@ + trend_cell(r.fallback, prev_of(prev, |p: ConvergeRecord| p.fallback), 8) + " "@
        + trend_cell(r.lineage_current, prev_of(prev, |p: ConvergeRecord| p.lineage_current), 15)
}

/// The record before position `i`, if any.
pub open spec fn before(records: Seq<ConvergeRecord>, i: int) -> Option<ConvergeRecord> {
    if i == 0 {
        None
    } else {
        Some(records[i - 1])
    }
}

/// The lines of the trend table: a notice for an empty ledger, else a
/// header, a rule and one row per record.
pub open spec fn trend_table_lines(records: Seq<ConvergeRecord>) -> Seq<Seq<char>> {
    if records.len() == 0 {
        seq!["No convergence records found."@]
    } else {
        seq![
            pad_right("RUN"@, 22) + " "@ + pad_left("TOTAL"@, 7) + " "@ + pad_left("BEHIND"@, 8)
                + " "@ + pad_left("DIRTY-BLOCKED"@, 14) + " "@ + pad_left("FALLBACK"@, 10) + " "@
                + pad_left("LINEAGE-CURRENT"@, 17),
            repeated('-', 85),
        ] + Seq::new(records.len(), |i: int| trend_row(records[i], before(records, i)))
    }
}

fn cell(current: u32, prev: Option<u32>, w: usize) -> (s: String)
    ensures
        s@ == trend_cell(current, prev, w as nat),
{
    let s = padded_left(&u64_to_decimal(current as u64), w);
    let m = trend_marker(current, prev);
    let t = crate::text::string_of(&[m]);
    let r = concat(&s, &t);
    assert(r@ =~= trend_cell(current, prev, w as nat));
    r
}

fn trend_row_text(r: &ConvergeRecord, prev: Option<&ConvergeRecord>) -> (s: String)
    ensures
        s@ == trend_row(*r, match prev {
            Some(p) => Some(*p),
            None => None,
        }),
{
    let ghost pv = match prev {
        Some(p) => Some(*p),
        None => None::<ConvergeRecord>,
    };
    let (pt, pb, pd, pf, pl) = match prev {
        Some(p) => (Some(p.total), Some(p.behind), Some(p.dirty_blocked), Some(p.fallback), Some(p.lineage_current)),
        None => (None, None, None, None, None),
    };
    let a = concat(&concat(&padded_right(&r.run, 22), " "), &cell(r.total, pt, 5));
    let b = concat(&concat(&a, " "), &cell(r.behind, pb, 6));
    let c = concat(&concat(&b, " "), &cell(r.dirty_blocked, pd, 12));
    let d = concat(&concat(&c, " "), &cell(r.fallback, pf, 8));
    let e = concat(&concat(&d, " "), &cell(r.lineage_current, pl, 15));
    assert(e@ =~= trend_row(*r, pv));
    e
}

/// Renders the convergence ledger as a trend table, one line per element.
pub fn trend_table(records: &[ConvergeRecord]) -> (v: Vec<String>)
    ensures
        strings(v@) == trend_table_lines(records@),
{
    let mut v: Vec<String> = Vec::new();
    if records.len() == 0 {
        v.push(owned("No convergence records found."));
        assert(strings(v@) =~= trend_table_lines(records@));
        return v;
    }
    let h1 = concat(&concat(&padded_right("RUN", 22), " "), &padded_left("TOTAL", 7));
    let h2 = concat(&concat(&h1, " "), &padded_left("BEHIND", 8));
    let h3 = concat(&concat(&h2, " "), &padded_left("DIRTY-BLOCKED", 14));
    let h4 = concat(&concat(&h3, " "), &padded_left("FALLBACK", 10));
    let h5 = concat(&concat(&h4, " "), &padded_left("LINEAGE-CURRENT", 17));
    v.push(h5);
    v.push(repeat_char('-', 85));
    let ghost top = strings(v@);
    let mut i: usize = 0;
    while i < records.len()
        invariant
            i <= records@.len(),
            v@.len() == 2 + i,
            strings(v@).take(2) == top,
            forall|k: int|
                0 <= k < i ==> (#[trigger] v@[2 + k])@ == trend_row(records@[k], before(records@, k)),
        decreases records@.len() - i,
    {
        let prev = if i == 0 {
            None
        } else {
            Some(&records[i - 1])
        };
        let row = trend_row_text(&records[i], prev);
        let ghost b = v@;
        v.push(row);
        assert(strings(v@).take(2) =~= strings(b).take(2));
        i = i + 1;
    }
    proof {
        let want = trend_table_lines(records@);
        let got = strings(v@);
        assert(top[0] =~= want[0]);
        assert forall|k: int| 0 <= k < v@.len() implies got[k] == want[k] by {
            if k >= 2 {
                assert(v@[2 + (k - 2)]@ == trend_row(records@[k - 2], before(records@, k - 2)));
            } else {
                assert(got.take(2)[k] == top[k]);
            }
        }
        assert(got =~= want);
    }
    v
}

} // verus!
