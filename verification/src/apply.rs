//! `adopt apply` — install non-daemon unadopted artifacts, one at a time.
//!
//! The decisions of an apply run live here as small steps: what to do first
//! for an artifact, and what each answer from the machine (is `rollout` on
//! PATH, how did the spawned command exit, is the binary invokable) leads to.
//! The program that drives them runs the commands; nothing here touches a
//! shell.  Default mode is dry-run, daemons are delegated to `rollout`, a
//! `--root` outside `$HOME` or holding a literal `~` is refused, and the run
//! stops at the first failure.

use vstd::prelude::*;

use crate::paths::{
    char_views,
    is_parts_prefix,
    normal_parts,
    parts_prefix,
    path_parts,
    rooted,
    rooted_path,
};
use crate::text::{
    chars_of,
    concat,
    has_substring,
    owned,
    same_text,
    signed_decimal,
    split_words_str,
    words,
    i64_to_decimal,
    decimal,
    pad_left,
    pad_right,
    padded_left,
    padded_right,
    repeat_char,
    repeated,
    u64_to_decimal,
};
use crate::types::{ArtifactResult, Verdict};
use crate::report::strings;

verus! {

// ── Public types ─────────────────────────────────────────────────────────────

/// Outcome for a single artifact during `adopt apply`.
#[derive(Debug, Clone, Eq)]
pub enum ApplyOutcome {
    /// Binary was successfully installed during this run (or would be, in a dry run).
    InstalledOk,
    /// Binary was already installed and current; nothing was done.
    InstalledCurrent,
    /// Binary is a daemon and `--with-daemons` was not requested.
    SkippedDaemon {
        /// Human-readable reason.
        note: String,
    },
    /// `--with-daemons` was requested but `rollout` is not on PATH.
    SkippedDaemonsNotRequested,
    /// Daemon was delegated to `rollout install` successfully.
    RolloutDelegated,
    /// Install failed; the run has been halted.
    Failed {
        /// Why it failed.
        reason: String,
    },
    /// Artifact had no command to run (its fix command is empty).
    NoRollout,
    /// The install's `--root` holds a literal `~` or resolves outside `$HOME`;
    /// nothing was spawned.
    BadPrefix {
        /// Why the root was refused.
        resolved: String,
    },
}

/// Equality of outcomes: the same variant with the same text.
pub open spec fn outcome_eq(a: ApplyOutcome, b: ApplyOutcome) -> bool {
    match (a, b) {
        (ApplyOutcome::InstalledOk, ApplyOutcome::InstalledOk) => true,
        (ApplyOutcome::InstalledCurrent, ApplyOutcome::InstalledCurrent) => true,
        (ApplyOutcome::SkippedDaemon { note: x }, ApplyOutcome::SkippedDaemon { note: y }) => x@
            == y@,
        (ApplyOutcome::SkippedDaemonsNotRequested, ApplyOutcome::SkippedDaemonsNotRequested) => true,
        (ApplyOutcome::RolloutDelegated, ApplyOutcome::RolloutDelegated) => true,
        (ApplyOutcome::Failed { reason: x }, ApplyOutcome::Failed { reason: y }) => x@ == y@,
        (ApplyOutcome::NoRollout, ApplyOutcome::NoRollout) => true,
        (ApplyOutcome::BadPrefix { resolved: x }, ApplyOutcome::BadPrefix { resolved: y }) => x@
            == y@,
        _ => false,
    }
}

impl PartialEq for ApplyOutcome {
    fn eq(&self, other: &Self) -> (r: bool) {
        match (self, other) {
            (ApplyOutcome::InstalledOk, ApplyOutcome::InstalledOk) => true,
            (ApplyOutcome::InstalledCurrent, ApplyOutcome::InstalledCurrent) => true,
            (ApplyOutcome::SkippedDaemon { note: x }, ApplyOutcome::SkippedDaemon { note: y }) => {
                same_text(x.as_str(), y.as_str())
            },
            (
                ApplyOutcome::SkippedDaemonsNotRequested,
                ApplyOutcome::SkippedDaemonsNotRequested,
            ) => true,
            (ApplyOutcome::RolloutDelegated, ApplyOutcome::RolloutDelegated) => true,
            (ApplyOutcome::Failed { reason: x }, ApplyOutcome::Failed { reason: y }) => {
                same_text(x.as_str(), y.as_str())
            },
            (ApplyOutcome::NoRollout, ApplyOutcome::NoRollout) => true,
            (ApplyOutcome::BadPrefix { resolved: x }, ApplyOutcome::BadPrefix { resolved: y }) => {
                same_text(x.as_str(), y.as_str())
            },
            _ => false,
        }
    }
}

impl vstd::std_specs::cmp::PartialEqSpecImpl for ApplyOutcome {
    open spec fn obeys_eq_spec() -> bool {
        true
    }

    open spec fn eq_spec(&self, other: &ApplyOutcome) -> bool {
        outcome_eq(*self, *other)
    }
}

/// Result for a single artifact in an `adopt apply` run.
#[derive(Debug, Clone)]
pub struct ApplyResult {
    /// Binary name.
    pub bin: String,
    /// What happened to this artifact.
    pub verdict: ApplyOutcome,
    /// Wall-clock time for the operation, in milliseconds.
    pub elapsed_ms: u64,
}

// ── Command parsing ──────────────────────────────────────────────────────────

/// Parses a fix command into a discrete argv vector: its whitespace-separated
/// words.  No shell expansion happens, so metacharacters stay inside the word
/// they belong to, and no word is empty or holds whitespace.
pub fn parse_cmd(cmd: &str) -> (argv: Vec<String>)
    ensures
        strings(argv@) == words(cmd@),
        forall|k: int| 0 <= k < argv@.len() ==> crate::text::is_word(#[trigger] argv@[k]@),
{
    let argv = split_words_str(cmd);
    proof {
        crate::text::lemma_words_are_words(cmd@);
        assert(strings(argv@) =~= words(cmd@));
        assert forall|k: int| 0 <= k < argv@.len() implies crate::text::is_word(
            #[trigger] argv@[k]@,
        ) by {
            assert(argv@[k]@ == words(cmd@)[k]);
        }
    }
    argv
}

/// The value given to `--root` in an argv: the word after the first
/// `--root`, or empty when there is none.
pub open spec fn root_value(ws: Seq<Seq<char>>) -> Seq<char>
    decreases ws.len(),
{
    if ws.len() == 0 {
        seq![]
    } else if ws[0] == "--root"@ {
        if ws.len() > 1 {
            ws[1]
        } else {
            seq![]
        }
    } else {
        root_value(ws.drop_first())
    }
}

/// The `--root` value of an argv (empty when absent).
pub fn root_argument(argv: &Vec<String>) -> (r: String)
    ensures
        r@ == root_value(strings(argv@)),
{
    let ghost ws = strings(argv@);
    proof {
        reveal_strlit("");
    }
    assert(ws.skip(0) =~= ws);
    let mut i: usize = 0;
    while i < argv.len()
        invariant
            i <= argv@.len(),
            ws == strings(argv@),
            root_value(ws) == root_value(ws.skip(i as int)),
        decreases argv@.len() - i,
    {
        let ghost rest = ws.skip(i as int);
        assert(rest[0] == argv@[i as int]@);
        assert(rest.drop_first() =~= ws.skip(i + 1));
        if same_text(argv[i].as_str(), "--root") {
            if i + 1 < argv.len() {
                assert(rest[1] == argv@[i + 1]@);
                return argv[i + 1].clone();
            } else {
                assert(rest.len() == 1);
                assert(root_value(rest) == Seq::<char>::empty());
                let e = owned("");
                proof {
                    reveal_strlit("");
                }
                assert(e@ =~= Seq::<char>::empty());
                return e;
            }
        }
        i = i + 1;
    }
    assert(ws.skip(i as int) =~= Seq::<Seq<char>>::empty());
    owned("")
}

// ── Install-root guard ───────────────────────────────────────────────────────

/// Some component of `p` begins with `~`: a tilde that no shell expanded.
pub open spec fn has_tilde_component(p: Seq<char>) -> bool {
    exists|i: int| 0 <= i < p.len() && #[trigger] p[i] == '~' && (i == 0 || p[i - 1] == '/')
}

/// `p` is an absolute path.
pub open spec fn is_absolute(p: Seq<char>) -> bool {
    p.len() > 0 && p[0] == '/'
}

/// The verdict on an install root.  A root with a literal `~` component is
/// refused; a relative (or absent, empty) root is left as it is; an absolute
/// root is accepted, lexically resolved, when it lies inside `home`, and
/// refused otherwise.
pub open spec fn root_check(root: Seq<char>, home: Seq<char>) -> Result<Seq<char>, Seq<char>> {
    if has_tilde_component(root) {
        Err("--root `"@ + root + "` contains a literal `~`"@)
    } else if !is_absolute(root) {
        Ok(root)
    } else if !is_absolute(home) {
        Err("$HOME `"@ + home + "` is not an absolute path"@)
    } else if parts_prefix(normal_parts(home), normal_parts(root)) {
        Ok(rooted(normal_parts(root)))
    } else {
        Err("--root `"@ + root + "` resolves to `"@ + rooted(normal_parts(root))
            + "`, outside $HOME `"@ + home + "`"@)
    }
}

fn tilde_component(p: &str) -> (b: bool)
    ensures
        b == has_tilde_component(p@),
{
    let cs = chars_of(p);
    let mut i: usize = 0;
    while i < cs.len()
        invariant
            i <= cs@.len(),
            cs@ == p@,
            forall|j: int| 0 <= j < i ==> !(#[trigger] cs@[j] == '~' && (j == 0 || cs@[j - 1] == '/')),
        decreases cs@.len() - i,
    {
        if cs[i] == '~' && (i == 0 || cs[i - 1] == '/') {
            return true;
        }
        i = i + 1;
    }
    false
}

fn absolute(p: &str) -> (b: bool)
    ensures
        b == is_absolute(p@),
{
    let cs = chars_of(p);
    cs.len() > 0 && cs[0] == '/'
}

/// Checks an install root before `cargo install --root` may run: it must
/// hold no literal `~` component and, when absolute, resolve (lexically)
/// inside `home`.  Returns the root (resolved when absolute), or the reason
/// it was refused.
pub fn validate_root(root: &str, home: &str) -> (r: Result<String, String>)
    ensures
        match r {
            Ok(p) => root_check(root@, home@) == Ok::<Seq<char>, Seq<char>>(p@),
            Err(e) => root_check(root@, home@) == Err::<Seq<char>, Seq<char>>(e@),
        },
{
    if tilde_component(root) {
        return Err(concat(&concat("--root `", root), "` contains a literal `~`"));
    }
    if !absolute(root) {
        return Ok(owned(root));
    }
    if !absolute(home) {
        return Err(concat(&concat("$HOME `", home), "` is not an absolute path"));
    }
    let rp = path_parts(root);
    let hp = path_parts(home);
    let resolved = rooted_path(&rp);
    if is_parts_prefix(&hp, &rp) {
        Ok(resolved)
    } else {
        let msg = concat(
            &concat(
                &concat(
                    &concat(&concat(&concat("--root `", root), "` resolves to `"), resolved.as_str()),
                    "`, outside $HOME `",
                ),
                home,
            ),
            "`",
        );
        Err(msg)
    }
}

/// An accepted root never carries a literal `~`, and an accepted absolute
/// root never names a place outside `home`: it is accepted as the
/// normalised root, whose components start with those of `home`.
pub proof fn lemma_accepted_root_is_inside_home(root: Seq<char>, home: Seq<char>)
    requires
        root_check(root, home) is Ok,
    ensures
        !has_tilde_component(root),
        is_absolute(root) ==> parts_prefix(normal_parts(home), normal_parts(root)),
        is_absolute(root) ==> root_check(root, home)->Ok_0 == rooted(normal_parts(root)),
{
}

// ── Steps of an apply run ────────────────────────────────────────────────────

/// What the driver of an apply run must do next for an artifact.
pub enum ApplyStep {
    /// The artifact is done with this outcome.
    Finish(ApplyOutcome),
    /// Print `line` (a dry-run notice), then the artifact is done with `outcome`.
    DryRun { line: String, outcome: ApplyOutcome },
    /// Find out whether `rollout` is on PATH (then call [`apply_after_rollout_check`]).
    CheckRollout,
    /// Run `rollout install <repo>` (then call [`apply_after_rollout`]).
    RunRollout { repo: String },
    /// Run `program` with `args`, never through a shell (then call [`apply_after_install`]).
    RunInstall { program: String, args: Vec<String> },
}

/// How a spawned command ended.
pub enum SpawnOutcome {
    /// It ran and exited; `code` is its exit code when it had one.
    Exited { success: bool, code: Option<i32> },
    /// It could not be started.
    SpawnError { message: String },
}

/// The `Debug` rendering of an optional exit code (`Some(1)`, `None`).
pub open spec fn code_debug(code: Option<i32>) -> Seq<char> {
    match code {
        Some(c) => "Some("@ + signed_decimal(c as int) + ")"@,
        None => "None"@,
    }
}

fn render_code(code: Option<i32>) -> (s: String)
    ensures
        s@ == code_debug(code),
{
    match code {
        Some(c) => concat(&concat("Some(", i64_to_decimal(c as i64).as_str()), ")"),
        None => owned("None"),
    }
}

/// The note attached to a skipped daemon.
pub open spec fn daemon_note(bin: Seq<char>) -> Seq<char> {
    bin + " is a daemon; use `rollout install` or pass --with-daemons"@
}

/// The step kinds, for stating what `apply_begin` decides.
pub open spec fn finishes_with(s: ApplyStep, o: ApplyOutcome) -> bool {
    s matches ApplyStep::Finish(x) && outcome_eq(x, o)
}

/// The first step for an artifact.
///
/// Current and library entries are done at once; a daemon is skipped unless
/// `with_daemons`, in which case the driver must look for `rollout`; a
/// non-daemon with an empty fix command has nothing to run; otherwise the
/// fix command is split into words, its `--root` is checked against `home`,
/// and the command is either shown (dry run) or run.
pub fn apply_begin(
    artifact: &ArtifactResult,
    with_daemons: bool,
    dry_run: bool,
    execute: bool,
    home: &str,
) -> (step: ApplyStep)
    ensures
        (artifact.verdict is InstalledCurrent || artifact.verdict is NotABin) ==> finishes_with(
            step,
            ApplyOutcome::InstalledCurrent,
        ),
        !(artifact.verdict is InstalledCurrent || artifact.verdict is NotABin) ==> {
            if artifact.is_daemon {
                if with_daemons {
                    step is CheckRollout
                } else {
                    step matches ApplyStep::Finish(ApplyOutcome::SkippedDaemon { note }) && note@
                        == daemon_note(artifact.bin@)
                }
            } else if artifact.fix_cmd@.len() == 0 {
                finishes_with(step, ApplyOutcome::NoRollout)
            } else {
                let argv = words(artifact.fix_cmd@);
                match root_check(root_value(argv), home@) {
                    Err(e) => step matches ApplyStep::Finish(ApplyOutcome::BadPrefix { resolved })
                        && resolved@ == e,
                    Ok(_) => if dry_run || !execute {
                        step matches ApplyStep::DryRun { line, outcome } && line@
                            == "[dry-run] would run: "@ + artifact.fix_cmd@ && outcome
                            is InstalledOk
                    } else if argv.len() == 0 {
                        step matches ApplyStep::Finish(ApplyOutcome::Failed { reason }) && reason@
                            == "fix_cmd is empty after parse"@
                    } else {
                        step matches ApplyStep::RunInstall { program, args } && program@ == argv[0]
                            && strings(args@) == argv.drop_first()
                    },
                }
            }
        },
{
    if artifact.verdict == Verdict::InstalledCurrent || artifact.verdict == Verdict::NotABin {
        return ApplyStep::Finish(ApplyOutcome::InstalledCurrent);
    }
    if artifact.is_daemon {
        if !with_daemons {
            let note = concat(
                artifact.bin.as_str(),
                " is a daemon; use `rollout install` or pass --with-daemons",
            );
            return ApplyStep::Finish(ApplyOutcome::SkippedDaemon { note });
        }
        return ApplyStep::CheckRollout;
    }
    if artifact.fix_cmd.as_str().is_empty() {
        return ApplyStep::Finish(ApplyOutcome::NoRollout);
    }
    let argv = parse_cmd(artifact.fix_cmd.as_str());
    let root = root_argument(&argv);
    match validate_root(root.as_str(), home) {
        Err(reason) => {
            return ApplyStep::Finish(ApplyOutcome::BadPrefix { resolved: reason });
        },
        Ok(_) => {},
    }
    if dry_run || !execute {
        let line = concat("[dry-run] would run: ", artifact.fix_cmd.as_str());
        return ApplyStep::DryRun { line, outcome: ApplyOutcome::InstalledOk };
    }
    if argv.len() == 0 {
        return ApplyStep::Finish(
            ApplyOutcome::Failed { reason: owned("fix_cmd is empty after parse") },
        );
    }
    let mut args = argv;
    let program = args.remove(0);
    assert(strings(args@) =~= words(artifact.fix_cmd@).drop_first());
    ApplyStep::RunInstall { program, args }
}

/// The step after learning whether `rollout` is on PATH: skip when it is
/// absent, show the delegation in a dry run, run it otherwise.
pub fn apply_after_rollout_check(
    artifact: &ArtifactResult,
    rollout_present: bool,
    dry_run: bool,
    execute: bool,
) -> (step: ApplyStep)
    ensures
        !rollout_present ==> finishes_with(step, ApplyOutcome::SkippedDaemonsNotRequested),
        rollout_present && (dry_run || !execute) ==> (step matches ApplyStep::DryRun {
            line,
            outcome,
        } && line@ == "[dry-run] would run: rollout install "@ + artifact.repo@ && outcome
            is RolloutDelegated),
        rollout_present && !(dry_run || !execute) ==> (step matches ApplyStep::RunRollout { repo }
            && repo@ == artifact.repo@),
{
    if !rollout_present {
        return ApplyStep::Finish(ApplyOutcome::SkippedDaemonsNotRequested);
    }
    if dry_run || !execute {
        let line = concat("[dry-run] would run: rollout install ", artifact.repo.as_str());
        return ApplyStep::DryRun { line, outcome: ApplyOutcome::RolloutDelegated };
    }
    ApplyStep::RunRollout { repo: artifact.repo.clone() }
}

/// The outcome of a `rollout install` run.
pub fn apply_after_rollout(result: &SpawnOutcome) -> (o: ApplyOutcome)
    ensures
        match result {
            SpawnOutcome::Exited { success: true, .. } => o is RolloutDelegated,
            SpawnOutcome::Exited { success: false, code } => o matches ApplyOutcome::Failed {
                reason,
            } && reason@ == "rollout install exited "@ + code_debug(*code),
            SpawnOutcome::SpawnError { message } => o matches ApplyOutcome::Failed { reason }
                && reason@ == "could not spawn rollout: "@ + message@,
        },
{
    match result {
        SpawnOutcome::Exited { success, code } => {
            if *success {
                ApplyOutcome::RolloutDelegated
            } else {
                ApplyOutcome::Failed {
                    reason: concat("rollout install exited ", render_code(*code).as_str()),
                }
            }
        },
        SpawnOutcome::SpawnError { message } => ApplyOutcome::Failed {
            reason: concat("could not spawn rollout: ", message.as_str()),
        },
    }
}

/// The outcome of an install run, or `None` when it exited successfully and
/// the driver must still check that the binary is invokable.
pub fn apply_after_install(bin: &str, program: &str, result: &SpawnOutcome) -> (o: Option<
    ApplyOutcome,
>)
    ensures
        match result {
            SpawnOutcome::Exited { success: true, .. } => o is None,
            SpawnOutcome::Exited { success: false, code } => o matches Some(
                ApplyOutcome::Failed { reason },
            ) && reason@ == bin@ + " install exited "@ + code_debug(*code),
            SpawnOutcome::SpawnError { message } => o matches Some(ApplyOutcome::Failed { reason })
                && reason@ == "could not spawn "@ + program@ + ": "@ + message@,
        },
{
    match result {
        SpawnOutcome::Exited { success, code } => {
            if *success {
                None
            } else {
                Some(
                    ApplyOutcome::Failed {
                        reason: concat(
                            &concat(bin, " install exited "),
                            render_code(*code).as_str(),
                        ),
                    },
                )
            }
        },
        SpawnOutcome::SpawnError { message } => Some(
            ApplyOutcome::Failed {
                reason: concat(&concat(&concat("could not spawn ", program), ": "), message.as_str()),
            },
        ),
    }
}

/// The outcome once a successful install has been checked for invokability.
pub fn apply_after_invokable(bin: &str, invokable: bool) -> (o: ApplyOutcome)
    ensures
        invokable ==> o is InstalledOk,
        !invokable ==> (o matches ApplyOutcome::Failed { reason } && reason@ == bin@
            + " install exited 0 but `"@ + bin@ + " --version` / `--help` failed"@),
{
    if invokable {
        ApplyOutcome::InstalledOk
    } else {
        ApplyOutcome::Failed {
            reason: concat(
                &concat(&concat(bin, " install exited 0 but `"), bin),
                " --version` / `--help` failed",
            ),
        }
    }
}

// ── The run ──────────────────────────────────────────────────────────────────

/// The results of an apply run so far.  A run stops at its first failure:
/// no result is ever recorded after a `Failed` one.
pub struct ApplyRun {
    results: Vec<ApplyResult>,
}

impl ApplyRun {
    /// No result but the last is a failure.
    #[verifier::type_invariant]
    spec fn failure_is_last(self) -> bool {
        forall|i: int| 0 <= i < self.results@.len() - 1 ==> (#[trigger] self.results@[i]).verdict
            !is Failed
    }

    /// The results recorded so far, in order.
    pub closed spec fn recorded(self) -> Seq<ApplyResult> {
        self.results@
    }

    /// The run has stopped: its last result is a failure.
    pub open spec fn is_halted(self) -> bool {
        self.recorded().len() > 0 && self.recorded().last().verdict is Failed
    }

    /// An empty run.
    pub fn new() -> (r: ApplyRun)
        ensures
            r.recorded().len() == 0,
    {
        ApplyRun { results: Vec::new() }
    }

    /// Whether the run has stopped at a failure.
    pub fn halted(&self) -> (b: bool)
        ensures
            b == self.is_halted(),
    {
        let n = self.results.len();
        n > 0 && match &self.results[n - 1].verdict {
            ApplyOutcome::Failed { .. } => true,
            _ => false,
        }
    }

    /// Records the result for the next artifact of a run that has not stopped.
    pub fn record(&mut self, r: ApplyResult)
        requires
            !old(self).is_halted(),
        ensures
            final(self).recorded() == old(self).recorded().push(r),
    {
        proof {
            use_type_invariant(&*self);
        }
        let mut results = Vec::new();
        std::mem::swap(&mut results, &mut self.results);
        let ghost before = results@;
        results.push(r);
        assert forall|i: int| 0 <= i < results@.len() - 1 implies (
        #[trigger] results@[i]).verdict !is Failed by {
            if i < before.len() - 1 {
                assert(results@[i] == before[i]);
            } else {
                assert(results@[i] == before.last());
            }
        }
        self.results = results;
    }

    /// The results of the run, in order; a failure can only be the last.
    pub fn finish(self) -> (v: Vec<ApplyResult>)
        ensures
            v@ == self.recorded(),
            forall|i: int| 0 <= i < v@.len() - 1 ==> (#[trigger] v@[i]).verdict !is Failed,
    {
        proof {
            use_type_invariant(&self);
        }
        self.results
    }
}

// ── Results table ────────────────────────────────────────────────────────────

/// The label of an outcome in the results table.
pub open spec fn outcome_label(o: ApplyOutcome) -> Seq<char> {
    match o {
        ApplyOutcome::InstalledOk => "installed-ok"@,
        ApplyOutcome::InstalledCurrent => "installed-current"@,
        ApplyOutcome::SkippedDaemon { note } => "skipped-daemon: "@ + note@,
        ApplyOutcome::SkippedDaemonsNotRequested => "skipped-rollout-absent"@,
        ApplyOutcome::RolloutDelegated => "rollout-delegated"@,
        ApplyOutcome::Failed { reason } => "FAILED: "@ + reason@,
        ApplyOutcome::NoRollout => "no-rollout"@,
        ApplyOutcome::BadPrefix { resolved } => "bad-prefix: "@ + resolved@,
    }
}

/// The table row of one result.
pub open spec fn apply_row(r: ApplyResult) -> Seq<char> {
    pad_right(r.bin@, 25) + " "@ + pad_right(outcome_label(r.verdict), 30) + " "@ + pad_left(
        decimal(r.elapsed_ms as nat),
        8,
    )
}

/// The lines of the results table: a notice for an empty run, else a
/// header, a rule and one row per result.
pub open spec fn apply_table_lines(rs: Seq<ApplyResult>) -> Seq<Seq<char>> {
    if rs.len() == 0 {
        seq!["Nothing to apply."@]
    } else {
        seq![
            pad_right("BIN"@, 25) + " "@ + pad_right("OUTCOME"@, 30) + " "@ + pad_left("MS"@, 8),
            repeated('-', 68),
        ] + rs.map_values(|r: ApplyResult| apply_row(r))
    }
}

fn label_of(o: &ApplyOutcome) -> (s: String)
    ensures
        s@ == outcome_label(*o),
{
    match o {
        ApplyOutcome::InstalledOk => owned("installed-ok"),
        ApplyOutcome::InstalledCurrent => owned("installed-current"),
        ApplyOutcome::SkippedDaemon { note } => concat("skipped-daemon: ", note),
        ApplyOutcome::SkippedDaemonsNotRequested => owned("skipped-rollout-absent"),
        ApplyOutcome::RolloutDelegated => owned("rollout-delegated"),
        ApplyOutcome::Failed { reason } => concat("FAILED: ", reason),
        ApplyOutcome::NoRollout => owned("no-rollout"),
        ApplyOutcome::BadPrefix { resolved } => concat("bad-prefix: ", resolved),
    }
}

/// Renders the results of an apply run as a table, one line per element.
pub fn apply_table(results: &[ApplyResult]) -> (v: Vec<String>)
    ensures
        strings(v@) == apply_table_lines(results@),
{
    let mut v: Vec<String> = Vec::new();
    if results.len() == 0 {
        v.push(owned("Nothing to apply."));
        assert(strings(v@) =~= apply_table_lines(results@));
        return v;
    }
    v.push(concat(
        &concat(&concat(&padded_right("BIN", 25), " "), &padded_right("OUTCOME", 30)),
        &concat(" ", &padded_left("MS", 8)),
    ));
    v.push(repeat_char('-', 68));
    let ghost top = strings(v@);
    let mut i: usize = 0;
    while i < results.len()
        invariant
            i <= results@.len(),
            v@.len() == 2 + i,
            strings(v@).take(2) == top,
            forall|k: int| 0 <= k < i ==> (#[trigger] v@[2 + k])@ == apply_row(results@[k]),
        decreases results@.len() - i,
    {
        let r = &results[i];
        let row = concat(
            &concat(&concat(&padded_right(&r.bin, 25), " "), &padded_right(&label_of(&r.verdict), 30)),
            &concat(" ", &padded_left(&u64_to_decimal(r.elapsed_ms), 8)),
        );
        assert(row@ =~= apply_row(results@[i as int]));
        let ghost b = v@;
        v.push(row);
        assert(strings(v@).take(2) =~= strings(b).take(2));
        i = i + 1;
    }
    proof {
        let want = apply_table_lines(results@);
        let got = strings(v@);
        assert(top[0] =~= want[0]);
        assert forall|k: int| 0 <= k < v@.len() implies got[k] == want[k] by {
            if k >= 2 {
                assert(v@[2 + (k - 2)]@ == apply_row(results@[k - 2]));
            } else {
                assert(got.take(2)[k] == top[k]);
            }
        }
        assert(got =~= want);
    }
    v
}

} // verus!
