//! Core scanning logic: from what is known of a repo and of its installed
//! binaries, derive each artifact's verdict, fix command and age.
//!
//! Freshness is lineage first: when an install marker exists and the repo's
//! committed HEAD is known, the verdict is the comparison of the two; only
//! without them does the verdict fall back to comparing timestamps.

use vstd::prelude::*;

use crate::documents::{parse_toml, toml_get, toml_is_table, toml_items, toml_parse, toml_text, toml_view, TomlView};
use crate::paths::{join_path, path_join, split_on};
use crate::report::strings;
use crate::text::{
    chars_of, concat, contains_chars, has_prefix, has_substring, i64_to_decimal, owned, pad_right,
    padded_right, parsed_i64, repeat_char, repeated, signed_decimal, slice_chars, starts_with_chars,
    trim, trim_start, trim_start_chars, trim_str,
};
use crate::types::{
    actionable,
    copy_opt,
    opt_view,
    ArtifactResult,
    ArtifactView,
    FreshnessBasis,
    Verdict,
};

verus! {

// ── Age formatting ────────────────────────────────────────────────────────────

/// How far an install trails its source: `current` when it does not, whole
/// days when at least one, otherwise whole hours.
pub open spec fn age_text(installed_ts: int, src_ts: int) -> Seq<char> {
    let delta = src_ts - installed_ts;
    if delta <= 0 {
        "current"@
    } else if delta / 86400 > 0 {
        signed_decimal(delta / 86400) + "d stale"@
    } else {
        signed_decimal((delta % 86400) / 3600) + "h stale"@
    }
}

/// Formats the age of an install relative to its source commit.
pub fn format_age(installed_ts: i64, src_ts: i64) -> (s: String)
    requires
        i64::MIN <= src_ts - installed_ts <= i64::MAX,
    ensures
        s@ == age_text(installed_ts as int, src_ts as int),
{
    let delta: i64 = src_ts - installed_ts;
    if delta <= 0 {
        return owned("current");
    }
    let days = delta / 86400;
    let hours = (delta % 86400) / 3600;
    if days > 0 {
        concat(i64_to_decimal(days).as_str(), "d stale")
    } else {
        concat(i64_to_decimal(hours).as_str(), "h stale")
    }
}

/// An install at or after its newest source commit is reported as current.
pub proof fn lemma_not_behind_is_current(installed_ts: int, src_ts: int)
    requires
        installed_ts >= src_ts,
    ensures
        age_text(installed_ts, src_ts) == "current"@,
{
}

// ── Verdict ───────────────────────────────────────────────────────────────────

/// The verdict and its basis.
///
/// Not installed: `NotInstalled` (clock basis).  With an install marker and a
/// known committed HEAD: current exactly when the marker's fingerprint is
/// that HEAD (lineage basis).  Otherwise: stale exactly when both timestamps
/// are known and the install is older than the newest source commit (clock
/// basis).
pub open spec fn verdict_of(
    installed: bool,
    installed_ts: Option<i64>,
    src_ts: Option<i64>,
    marker_fingerprint: Option<Seq<char>>,
    committed_head: Option<Seq<char>>,
) -> (Verdict, FreshnessBasis) {
    if !installed {
        (Verdict::NotInstalled, FreshnessBasis::ClockFallback)
    } else if marker_fingerprint is Some && committed_head is Some {
        (
            if marker_fingerprint->0 == committed_head->0 {
                Verdict::InstalledCurrent
            } else {
                Verdict::InstalledStale
            },
            FreshnessBasis::Lineage,
        )
    } else {
        (
            match (installed_ts, src_ts) {
                (Some(i), Some(s)) => if i < s {
                    Verdict::InstalledStale
                } else {
                    Verdict::InstalledCurrent
                },
                _ => Verdict::InstalledCurrent,
            },
            FreshnessBasis::ClockFallback,
        )
    }
}

/// The optional string as a character sequence.
pub open spec fn str_view(s: Option<&str>) -> Option<Seq<char>> {
    match s {
        Some(t) => Some(t@),
        None => None,
    }
}

/// Derives the freshness verdict for a single artifact.
///
/// `marker_fingerprint` is the fingerprint of the install marker for the
/// binary, if one could be read; `committed_head` the repo's committed HEAD
/// hash, if git gave one.
pub fn derive_verdict(
    installed: bool,
    installed_ts: Option<i64>,
    src_ts: Option<i64>,
    marker_fingerprint: Option<&str>,
    committed_head: Option<&str>,
) -> (r: (Verdict, FreshnessBasis))
    ensures
        r == verdict_of(
            installed,
            installed_ts,
            src_ts,
            str_view(marker_fingerprint),
            str_view(committed_head),
        ),
{
    if !installed {
        return (Verdict::NotInstalled, FreshnessBasis::ClockFallback);
    }
    if let (Some(fp), Some(head)) = (marker_fingerprint, committed_head) {
        let v = if crate::text::same_text(fp, head) {
            Verdict::InstalledCurrent
        } else {
            Verdict::InstalledStale
        };
        return (v, FreshnessBasis::Lineage);
    }
    let v = match (installed_ts, src_ts) {
        (Some(i), Some(s)) => if i < s {
            Verdict::InstalledStale
        } else {
            Verdict::InstalledCurrent
        },
        _ => Verdict::InstalledCurrent,
    };
    (v, FreshnessBasis::ClockFallback)
}

/// Lineage beats the clock: a marker that records the committed HEAD makes
/// the install current whatever the timestamps say, and a marker that
/// records anything else makes it stale.
pub proof fn lemma_lineage_overrides_clock(
    installed_ts: Option<i64>,
    src_ts: Option<i64>,
    fingerprint: Seq<char>,
    head: Seq<char>,
)
    ensures
        verdict_of(true, installed_ts, src_ts, Some(fingerprint), Some(head)).1 is Lineage,
        fingerprint == head ==> verdict_of(
            true,
            installed_ts,
            src_ts,
            Some(fingerprint),
            Some(head),
        ).0 is InstalledCurrent,
        fingerprint != head ==> verdict_of(
            true,
            installed_ts,
            src_ts,
            Some(fingerprint),
            Some(head),
        ).0 is InstalledStale,
{
}

/// The committed-HEAD hash from the output of `git rev-parse HEAD`: the
/// trimmed text, or nothing when that is empty.
pub open spec fn head_from_output(out: Seq<char>) -> Option<Seq<char>> {
    if trim(out).len() > 0 {
        Some(trim(out))
    } else {
        None
    }
}

/// Reads a commit hash from git's output (`None` when it printed nothing).
pub fn commit_hash(output: &str) -> (h: Option<String>)
    ensures
        opt_view(h) == head_from_output(output@),
{
    let t = trim_str(output);
    if t.as_str().is_empty() {
        None
    } else {
        Some(t)
    }
}

/// Reads a Unix timestamp (git's `%ct`, or the provenance attribute) from
/// text: the trimmed text parsed as an `i64`.
pub fn parse_timestamp(output: &str) -> (ts: Option<i64>)
    ensures
        ts == parsed_i64(trim(output@)),
{
    let t = crate::text::chars_of(output);
    let u = crate::text::trim_chars(t.as_slice());
    crate::text::parse_i64(u.as_slice())
}

// ── Fix command and age ───────────────────────────────────────────────────────

/// The command that adopts an artifact: none when its verdict needs no
/// action, `rollout install <repo>` for a daemon, and a forced
/// `cargo install` into `<home>/.local` for anything else.
pub open spec fn fix_cmd_text(v: Verdict, is_daemon: bool, repo: Seq<char>, home: Seq<char>) -> Seq<
    char,
> {
    if !actionable(v) {
        seq![]
    } else if is_daemon {
        "rollout install "@ + repo
    } else {
        "cargo install --force --path "@ + repo + " --root "@ + path_join(home, ".local"@)
    }
}

/// Derives the copy-pasteable fix command for an artifact.
pub fn derive_fix_cmd(verdict: &Verdict, is_daemon: bool, repo: &str, home: &str) -> (s: String)
    ensures
        s@ == fix_cmd_text(*verdict, is_daemon, repo@, home@),
{
    if !verdict.is_actionable() {
        return String::new();
    }
    if is_daemon {
        concat("rollout install ", repo)
    } else {
        let root = join_path(home, ".local");
        concat(&concat(&concat("cargo install --force --path ", repo), " --root "), root.as_str())
    }
}

/// The form of a fix command depends only on whether the binary is a daemon:
/// for every actionable verdict a daemon is fixed by `rollout install <repo>`
/// and anything else by a forced `cargo install` of the repo into
/// `<home>/.local`.
pub proof fn lemma_fix_cmd_form(v: Verdict, is_daemon: bool, repo: Seq<char>, home: Seq<char>)
    requires
        v is NotInstalled || v is InstalledStale,
    ensures
        is_daemon ==> fix_cmd_text(v, is_daemon, repo, home) == "rollout install "@ + repo,
        !is_daemon ==> fix_cmd_text(v, is_daemon, repo, home) == "cargo install --force --path "@
            + repo + " --root "@ + path_join(home, ".local"@),
        fix_cmd_text(Verdict::NotInstalled, is_daemon, repo, home) == fix_cmd_text(
            Verdict::InstalledStale,
            is_daemon,
            repo,
            home,
        ),
{
}

/// The fix command is empty exactly when the verdict asks for no action.
pub proof fn lemma_fix_cmd_iff_actionable(
    v: Verdict,
    is_daemon: bool,
    repo: Seq<char>,
    home: Seq<char>,
)
    ensures
        (fix_cmd_text(v, is_daemon, repo, home).len() == 0) <==> !actionable(v),
{
    reveal_strlit("rollout install ");
    reveal_strlit("cargo install --force --path ");
}

/// The age shown for an artifact: against its source commit when both
/// timestamps are known; for a binary that was never installed, the age of
/// the source commit itself (relative to `now`); otherwise none.
pub open spec fn age_vs_head_text(
    installed: bool,
    installed_ts: Option<i64>,
    src_ts: Option<i64>,
    now: i64,
) -> Option<Seq<char>> {
    match (installed_ts, src_ts) {
        (Some(i), Some(s)) => Some(age_text(i as int, s as int)),
        (None, Some(s)) => if !installed {
            Some(age_text(0, now - s) + " (never installed)"@)
        } else {
            None
        },
        _ => None,
    }
}

/// The timestamps can be subtracted without overflow.
pub open spec fn ages_computable(
    installed: bool,
    installed_ts: Option<i64>,
    src_ts: Option<i64>,
    now: i64,
) -> bool {
    match (installed_ts, src_ts) {
        (Some(i), Some(s)) => i64::MIN <= s - i <= i64::MAX,
        (None, Some(s)) => !installed ==> i64::MIN <= now - s <= i64::MAX,
        _ => true,
    }
}

/// Derives the human-readable age of an artifact relative to its source.
pub fn derive_age_vs_head(
    installed: bool,
    installed_ts: Option<i64>,
    src_ts: Option<i64>,
    now: i64,
) -> (a: Option<String>)
    requires
        ages_computable(installed, installed_ts, src_ts, now),
    ensures
        opt_view(a) == age_vs_head_text(installed, installed_ts, src_ts, now),
{
    match (installed_ts, src_ts) {
        (Some(i), Some(s)) => Some(format_age(i, s)),
        (None, Some(s)) => {
            if !installed {
                let age = now - s;
                Some(concat(format_age(0, age).as_str(), " (never installed)"))
            } else {
                None
            }
        },
        _ => None,
    }
}

// ── Artifact records ──────────────────────────────────────────────────────────

/// What is known of one declared binary of a repo.
pub struct BinFacts {
    /// The binary name.
    pub bin: String,
    /// Where it is installed, if anywhere.
    pub installed_path: Option<String>,
    /// Its timestamp (provenance attribute, else mtime), when readable.
    pub installed_ts: Option<i64>,
    /// A daemon unit runs it.
    pub is_daemon: bool,
    /// The fingerprint recorded by its install marker, if a marker was read.
    pub marker_fingerprint: Option<String>,
    /// The repo's committed HEAD, when it was asked for and git gave it.
    pub committed_head: Option<String>,
}

/// The record a scan emits for a binary, or `None` when it is current (or
/// not a binary) and `show_all` was not asked for.
pub open spec fn artifact_record(
    show_all: bool,
    repo: Seq<char>,
    b: BinFacts,
    src_ts: Option<i64>,
    home: Seq<char>,
    now: i64,
) -> Option<ArtifactView> {
    let installed = b.installed_path is Some;
    let (v, basis) = verdict_of(
        installed,
        b.installed_ts,
        src_ts,
        opt_view(b.marker_fingerprint),
        opt_view(b.committed_head),
    );
    if !show_all && !actionable(v) {
        None
    } else {
        Some(
            ArtifactView {
                repo,
                bin: b.bin@,
                verdict: v,
                installed_path: opt_view(b.installed_path),
                is_daemon: b.is_daemon,
                source_commit_ts: src_ts,
                installed_ts: b.installed_ts,
                fix_cmd: fix_cmd_text(v, b.is_daemon, repo, home),
                age_vs_head: age_vs_head_text(installed, b.installed_ts, src_ts, now),
                freshness_basis: basis,
            },
        )
    }
}

/// Builds the scan record for one binary of `repo`.
pub fn artifact_for_bin(
    show_all: bool,
    repo: &str,
    facts: &BinFacts,
    src_ts: Option<i64>,
    home: &str,
    now: i64,
) -> (r: Option<ArtifactResult>)
    requires
        ages_computable(facts.installed_path is Some, facts.installed_ts, src_ts, now),
    ensures
        match r {
            Some(a) => artifact_record(show_all, repo@, *facts, src_ts, home@, now) == Some(a@),
            None => artifact_record(show_all, repo@, *facts, src_ts, home@, now) is None,
        },
{
    let installed = facts.installed_path.is_some();
    let fp = match &facts.marker_fingerprint {
        Some(f) => Some(f.as_str()),
        None => None,
    };
    let head = match &facts.committed_head {
        Some(h) => Some(h.as_str()),
        None => None,
    };
    let (verdict, basis) = derive_verdict(installed, facts.installed_ts, src_ts, fp, head);
    if !show_all && !verdict.is_actionable() {
        return None;
    }
    let fix_cmd = derive_fix_cmd(&verdict, facts.is_daemon, repo, home);
    let age = derive_age_vs_head(installed, facts.installed_ts, src_ts, now);
    Some(
        ArtifactResult {
            repo: owned(repo),
            bin: facts.bin.clone(),
            verdict,
            installed_path: copy_opt(&facts.installed_path),
            is_daemon: facts.is_daemon,
            source_commit_ts: src_ts,
            installed_ts: facts.installed_ts,
            fix_cmd,
            age_vs_head: age,
            freshness_basis: basis,
        },
    )
}

/// The name shown for a library-only repo.
pub open spec fn library_label() -> Seq<char> {
    "(library)"@
}

/// The record of a library-only repo.
pub open spec fn library_entry_view(repo: Seq<char>) -> ArtifactView {
    ArtifactView {
        repo,
        bin: library_label(),
        verdict: Verdict::NotABin,
        installed_path: None,
        is_daemon: false,
        source_commit_ts: None,
        installed_ts: None,
        fix_cmd: seq![],
        age_vs_head: None,
        freshness_basis: FreshnessBasis::ClockFallback,
    }
}

/// The record of a library-only repo (listed only by `--all`).
pub fn library_entry(repo: &str) -> (a: ArtifactResult)
    ensures
        a@ == library_entry_view(repo@),
{
    ArtifactResult {
        repo: owned(repo),
        bin: owned("(library)"),
        verdict: Verdict::NotABin,
        installed_path: None,
        is_daemon: false,
        source_commit_ts: None,
        installed_ts: None,
        fix_cmd: String::new(),
        age_vs_head: None,
        freshness_basis: FreshnessBasis::ClockFallback,
    }
}

/// Any record a scan emits without `--all` is actionable, and its fix
/// command is then non-empty.
pub proof fn lemma_default_output_is_actionable(
    repo: Seq<char>,
    b: BinFacts,
    src_ts: Option<i64>,
    home: Seq<char>,
    now: i64,
)
    requires
        artifact_record(false, repo, b, src_ts, home, now) is Some,
    ensures
        actionable(artifact_record(false, repo, b, src_ts, home, now)->0.verdict),
        artifact_record(false, repo, b, src_ts, home, now)->0.fix_cmd.len() > 0,
{
    let a = artifact_record(false, repo, b, src_ts, home, now)->0;
    lemma_fix_cmd_iff_actionable(a.verdict, b.is_daemon, repo, home);
}

// ── Binaries declared by a manifest ──────────────────────────────────────────

/// What a Cargo manifest says about the binaries of its package.
pub struct ManifestFacts {
    /// The `name` of each `[[bin]]` entry that has a string name, in order.
    pub bin_names: Vec<String>,
    /// The manifest has a `[lib]` section.
    pub has_lib: bool,
    /// `package.default-run`, when it is a string.
    pub default_run: Option<String>,
    /// `package.name`, when it is a string.
    pub package_name: Option<String>,
}

/// The binaries a repo ships, or `None` for a library-only repo: the named
/// `[[bin]]` entries; failing those, `default-run`; failing that, the package
/// name when there is a `src/main.rs` and no `[lib]`.
pub open spec fn declared_bins(f: ManifestFacts, has_main: bool) -> Option<Seq<Seq<char>>> {
    if f.bin_names@.len() > 0 {
        Some(strings(f.bin_names@))
    } else if f.default_run is Some {
        Some(seq![f.default_run->0@])
    } else if !f.has_lib && has_main && f.package_name is Some {
        Some(seq![f.package_name->0@])
    } else {
        None
    }
}

/// Returns the binary names a manifest declares, or `None` if it is
/// library-only.  `has_main` tells whether the repo has `src/main.rs`.
pub fn bins_from_manifest(facts: &ManifestFacts, has_main: bool) -> (r: Option<Vec<String>>)
    ensures
        match r {
            Some(v) => declared_bins(*facts, has_main) == Some(strings(v@)),
            None => declared_bins(*facts, has_main) is None,
        },
{
    if facts.bin_names.len() > 0 {
        let mut v: Vec<String> = Vec::new();
        let mut i: usize = 0;
        while i < facts.bin_names.len()
            invariant
                i <= facts.bin_names@.len(),
                strings(v@) == strings(facts.bin_names@.take(i as int)),
            decreases facts.bin_names@.len() - i,
        {
            let ghost before = v@;
            assert(strings(before).len() == strings(facts.bin_names@.take(i as int)).len());
            let name = facts.bin_names[i].clone();
            assert(name@ == facts.bin_names@[i as int]@);
            v.push(name);
            assert(v@ == before.push(name));
            assert(facts.bin_names@.take(i + 1) =~= facts.bin_names@.take(i as int).push(
                facts.bin_names@[i as int],
            ));
            assert forall|k: int| 0 <= k < i + 1 implies #[trigger] strings(v@)[k] == strings(
                facts.bin_names@.take(i + 1),
            )[k] by {
                if k < i {
                    assert(strings(before)[k] == strings(facts.bin_names@.take(i as int))[k]);
                    assert(v@[k] == before[k]);
                } else {
                    assert(v@[k] == name);
                    assert(facts.bin_names@.take(i + 1)[k] == facts.bin_names@[i as int]);
                }
            }
            assert(strings(v@) =~= strings(facts.bin_names@.take(i + 1)));
            i = i + 1;
        }
        assert(facts.bin_names@.take(i as int) =~= facts.bin_names@);
        return Some(v);
    }
    if let Some(dr) = &facts.default_run {
        let v = vec![dr.clone()];
        assert(strings(v@) =~= seq![dr@]);
        return Some(v);
    }
    if !facts.has_lib && has_main {
        if let Some(pn) = &facts.package_name {
            let v = vec![pn.clone()];
            assert(strings(v@) =~= seq![pn@]);
            return Some(v);
        }
    }
    None
}

// ── Cargo manifests ──────────────────────────────────────────────────────────

/// The value of a table entry, if the value is a table holding `key`.
pub open spec fn toml_entry(v: TomlView, key: Seq<char>) -> Option<TomlView> {
    match v {
        TomlView::Table(m) => if m.dom().contains(key) {
            Some(m[key])
        } else {
            None
        },
        _ => None,
    }
}

/// The text of a string entry of a table.
pub open spec fn toml_str_entry(v: TomlView, key: Seq<char>) -> Option<Seq<char>> {
    match toml_entry(v, key) {
        Some(TomlView::Str(t)) => Some(t),
        _ => None,
    }
}

/// The string `name` of each `[[bin]]` entry that has one, in order.
pub open spec fn bin_entry_names(items: Seq<TomlView>) -> Seq<Seq<char>>
    decreases items.len(),
{
    if items.len() == 0 {
        seq![]
    } else {
        let prev = bin_entry_names(items.drop_last());
        match toml_str_entry(items.last(), "name"@) {
            Some(n) => prev.push(n),
            None => prev,
        }
    }
}

/// What a parsed Cargo manifest says about its binaries, as text:
/// `(bin names, has [lib], package.default-run, package.name)`; `None`
/// when the document is not a table.
pub open spec fn toml_facts(doc: TomlView) -> Option<(Seq<Seq<char>>, bool, Option<Seq<char>>, Option<Seq<char>>)> {
    match doc {
        TomlView::Table(m) => Some(
            (
                match toml_entry(doc, "bin"@) {
                    Some(TomlView::Array(a)) => bin_entry_names(a),
                    _ => seq![],
                },
                m.dom().contains("lib"@),
                match toml_entry(doc, "package"@) {
                    Some(p) => toml_str_entry(p, "default-run"@),
                    None => None,
                },
                match toml_entry(doc, "package"@) {
                    Some(p) => toml_str_entry(p, "name"@),
                    None => None,
                },
            ),
        ),
        _ => None,
    }
}

/// The facts of a `ManifestFacts` value, as text.
pub open spec fn facts_view(f: ManifestFacts) -> (Seq<Seq<char>>, bool, Option<Seq<char>>, Option<Seq<char>>) {
    (strings(f.bin_names@), f.has_lib, opt_view(f.default_run), opt_view(f.package_name))
}

/// The binaries a Cargo manifest's text declares (see [`declared_bins`]);
/// `None` for a library-only manifest and for text that is not a TOML table.
pub open spec fn cargo_bins(text: Seq<char>, has_main: bool) -> Option<Seq<Seq<char>>> {
    match toml_parse(text) {
        Some(doc) => match toml_facts(doc) {
            Some(f) => {
                let (names, has_lib, default_run, package_name) = f;
                if names.len() > 0 {
                    Some(names)
                } else if default_run is Some {
                    Some(seq![default_run->0])
                } else if !has_lib && has_main && package_name is Some {
                    Some(seq![package_name->0])
                } else {
                    None
                }
            },
            None => None,
        },
        None => None,
    }
}

fn toml_string(v: &toml::Value, key: &str) -> (r: Option<String>)
    ensures
        opt_view(r) == toml_str_entry(toml_view(*v), key@),
{
    match toml_get(v, key) {
        Some(x) => match toml_text(x) {
            Some(t) => Some(t.to_string()),
            None => None,
        },
        None => None,
    }
}

fn package_string(doc: &toml::Value, key: &str) -> (r: Option<String>)
    ensures
        opt_view(r) == (match toml_entry(toml_view(*doc), "package"@) {
            Some(p) => toml_str_entry(p, key@),
            None => None,
        }),
{
    match toml_get(doc, "package") {
        Some(p) => toml_string(p, key),
        None => None,
    }
}

/// Reads the binary facts out of a parsed Cargo manifest; `None` when the
/// document is not a table.
pub fn manifest_facts(doc: &toml::Value) -> (f: Option<ManifestFacts>)
    ensures
        match f {
            Some(x) => toml_facts(toml_view(*doc)) == Some(facts_view(x)),
            None => toml_facts(toml_view(*doc)) is None,
        },
{
    if !toml_is_table(doc) {
        return None;
    }
    let mut names: Vec<String> = Vec::new();
    match toml_get(doc, "bin") {
        Some(b) => match toml_items(b) {
            Some(items) => {
                let ghost s = items@.map_values(|x: toml::Value| toml_view(x));
                let mut i: usize = 0;
                while i < items.len()
                    invariant
                        i <= items@.len(),
                        s == items@.map_values(|x: toml::Value| toml_view(x)),
                        strings(names@) == bin_entry_names(s.take(i as int)),
                    decreases items@.len() - i,
                {
                    assert(s.take(i + 1).drop_last() =~= s.take(i as int));
                    assert(s.take(i + 1).last() == toml_view(items@[i as int]));
                    if let Some(n) = toml_string(&items[i], "name") {
                        let ghost before = strings(names@);
                        names.push(n);
                        assert(strings(names@) =~= before.push(names@.last()@));
                    }
                    i = i + 1;
                }
                assert(s.take(s.len() as int) =~= s);
            },
            None => {},
        },
        None => {},
    }
    let has_lib = toml_get(doc, "lib").is_some();
    let f = ManifestFacts {
        bin_names: names,
        has_lib,
        default_run: package_string(doc, "default-run"),
        package_name: package_string(doc, "name"),
    };
    assert(toml_facts(toml_view(*doc)) == Some(facts_view(f)));
    Some(f)
}

/// The binaries declared by the text of a Cargo manifest, or `None` for a
/// library-only manifest and for text that does not parse as a TOML table.
/// `has_main` tells whether the repo has `src/main.rs`.
pub fn bins_from_cargo_toml(text: &str, has_main: bool) -> (r: Option<Vec<String>>)
    ensures
        match r {
            Some(v) => cargo_bins(text@, has_main) == Some(strings(v@)),
            None => cargo_bins(text@, has_main) is None,
        },
{
    match parse_toml(text) {
        Some(doc) => match manifest_facts(&doc) {
            Some(f) => bins_from_manifest(&f, has_main),
            None => None,
        },
        None => None,
    }
}

// ── Bin-name filter ──────────────────────────────────────────────────────────

/// Whether `regex::Regex::new` accepts `pattern` (its syntax is valid and
/// the compiled form fits the default size limit).
pub uninterp spec fn regex_compiles(pattern: Seq<char>) -> bool;

/// Whether the regex compiled from `pattern` matches anywhere in `text`.
pub uninterp spec fn regex_matches(pattern: Seq<char>, text: Seq<char>) -> bool;

#[verifier::external_type_specification]
#[verifier::external_body]
pub struct ExRegex(regex::Regex);

/// A compiled `--match` pattern for bin names.
pub struct BinFilter {
    pattern: String,
    compiled: regex::Regex,
}

/// `regex::Regex::new`: `Ok` exactly when `regex_compiles(pattern)`; the
/// compiled regex is handed back together with the pattern it came from.
#[verifier::external_body]
fn compile_regex(pattern: &str) -> (r: Option<BinFilter>)
    ensures
        r is Some <==> regex_compiles(pattern@),
        r matches Some(f) ==> f.pattern@ == pattern@,
{
    match regex::Regex::new(pattern) {
        Ok(compiled) => Some(BinFilter { pattern: pattern.to_string(), compiled }),
        Err(_) => None,
    }
}

/// `regex::Regex::is_match` on the filter's compiled pattern: true exactly
/// when the pattern matches somewhere in `text`.
#[verifier::external_body]
fn regex_is_match(filter: &BinFilter, text: &str) -> (b: bool)
    ensures
        b == regex_matches(filter.pattern@, text@),
{
    filter.compiled.is_match(text)
}

impl BinFilter {
    /// The pattern this filter was compiled from.
    pub closed spec fn source(&self) -> Seq<char> {
        self.pattern@
    }

    /// Compiles a `--match` pattern; the error names the pattern.
    pub fn new(pattern: &str) -> (r: Result<BinFilter, String>)
        ensures
            r is Ok <==> regex_compiles(pattern@),
            r matches Ok(f) ==> f.source() == pattern@,
            r matches Err(e) ==> e@ == "invalid --match regex: "@ + pattern@,
    {
        match compile_regex(pattern) {
            Some(f) => Ok(f),
            None => Err(concat("invalid --match regex: ", pattern)),
        }
    }

    /// Whether a bin name passes the filter.
    pub fn matches(&self, bin: &str) -> (b: bool)
        ensures
            b == regex_matches(self.source(), bin@),
    {
        regex_is_match(self, bin)
    }
}

/// Whether a bin survives an optional filter.
pub open spec fn passes_filter(pattern: Option<Seq<char>>, bin: Seq<char>) -> bool {
    match pattern {
        Some(p) => regex_matches(p, bin),
        None => true,
    }
}

/// The bins of a repo that an optional filter keeps, in order.
pub open spec fn kept_bins(pattern: Option<Seq<char>>, bins: Seq<Seq<char>>) -> Seq<Seq<char>>
    decreases bins.len(),
{
    if bins.len() == 0 {
        seq![]
    } else if passes_filter(pattern, bins.last()) {
        kept_bins(pattern, bins.drop_last()).push(bins.last())
    } else {
        kept_bins(pattern, bins.drop_last())
    }
}

/// Keeps the bins that match the filter (all of them without one).
pub fn select_bins(filter: Option<&BinFilter>, bins: &Vec<String>) -> (v: Vec<String>)
    ensures
        strings(v@) == kept_bins(
            match filter {
                Some(f) => Some(f.source()),
                None => None,
            },
            strings(bins@),
        ),
{
    let ghost pat = match filter {
        Some(f) => Some(f.source()),
        None => None::<Seq<char>>,
    };
    let ghost all = strings(bins@);
    let mut v: Vec<String> = Vec::new();
    let mut i: usize = 0;
    while i < bins.len()
        invariant
            i <= bins@.len(),
            all == strings(bins@),
            pat == (match filter {
                Some(f) => Some(f.source()),
                None => None,
            }),
            strings(v@) == kept_bins(pat, all.take(i as int)),
        decreases bins@.len() - i,
    {
        assert(all.take(i + 1).drop_last() =~= all.take(i as int));
        assert(all.take(i + 1).last() == bins@[i as int]@);
        let keep = match filter {
            Some(f) => f.matches(bins[i].as_str()),
            None => true,
        };
        if keep {
            let ghost before = v@;
            v.push(bins[i].clone());
            assert(strings(v@) =~= strings(before).push(
                bins@[i as int]@,
            ));
        }
        i = i + 1;
    }
    assert(all.take(bins@.len() as int) =~= all);
    v
}

// ── Daemon units ─────────────────────────────────────────────────────────────

/// `p` without one trailing carriage return.
pub open spec fn strip_cr(p: Seq<char>) -> Seq<char> {
    if p.len() > 0 && p.last() == '\r' {
        p.drop_last()
    } else {
        p
    }
}

/// The lines of `s` as `str::lines` yields them: split at `\n`, with a `\r`
/// directly before a `\n` dropped and no empty line after a final `\n`.
pub open spec fn text_lines(s: Seq<char>) -> Seq<Seq<char>> {
    let ps = split_on(s, '\n');
    let body = Seq::new((ps.len() - 1) as nat, |i: int| strip_cr(ps[i]));
    if ps.last().len() == 0 {
        body
    } else {
        body.push(ps.last())
    }
}

/// A unit-file line that starts (after indentation) with `ExecStart` and
/// mentions `bin`.
pub open spec fn execstart_names(line: Seq<char>, bin: Seq<char>) -> bool {
    has_prefix(trim_start(line), "ExecStart"@) && has_substring(line, bin)
}

/// Some line of a unit file names `bin` in an `ExecStart` entry.
pub open spec fn unit_declares(content: Seq<char>, bin: Seq<char>) -> bool {
    exists|i: int|
        0 <= i < text_lines(content).len() && #[trigger] execstart_names(text_lines(content)[i], bin)
}

fn line_names_bin(line: &[char], bin: &[char]) -> (b: bool)
    ensures
        b == execstart_names(line@, bin@),
{
    let t = trim_start_chars(line);
    let key = chars_of("ExecStart");
    starts_with_chars(&t, &key) && contains_chars(line, bin)
}

fn without_cr(seg: &Vec<char>) -> (v: Vec<char>)
    ensures
        v@ == strip_cr(seg@),
{
    let n = seg.len();
    if n > 0 && seg[n - 1] == '\r' {
        let v = slice_chars(seg, 0, n - 1);
        assert(v@ =~= seg@.drop_last());
        v
    } else {
        let v = slice_chars(seg, 0, n);
        assert(v@ =~= seg@);
        v
    }
}

/// Whether a systemd unit file's text runs `bin`: some line, indentation
/// aside, starts with `ExecStart` and mentions `bin`.
pub fn unit_declares_bin(content: &str, bin: &str) -> (b: bool)
    ensures
        b == unit_declares(content@, bin@),
{
    let cs = chars_of(content);
    let bs = chars_of(bin);
    let mut seg: Vec<char> = Vec::new();
    let ghost mut done: Seq<Seq<char>> = seq![];
    let mut found = false;
    let mut i: usize = 0;
    assert(split_on(cs@.take(0), '\n') =~= done.push(seg@));
    while i < cs.len()
        invariant
            i <= cs@.len(),
            cs@ == content@,
            bs@ == bin@,
            split_on(cs@.take(i as int), '\n') == done.push(seg@),
            found == exists|k: int|
                0 <= k < done.len() && #[trigger] execstart_names(strip_cr(done[k]), bin@),
        decreases cs@.len() - i,
    {
        let c = cs[i];
        assert(cs@.take(i + 1).drop_last() =~= cs@.take(i as int));
        assert(cs@.take(i + 1).last() == c);
        if c == '\n' {
            let l = without_cr(&seg);
            let hit = line_names_bin(&l, &bs);
            proof {
                let nd = done.push(seg@);
                assert(nd[done.len() as int] == seg@);
                assert forall|k: int| 0 <= k < done.len() implies nd[k] == done[k] by {}
                if hit {
                    assert(execstart_names(strip_cr(nd[done.len() as int]), bin@));
                }
                if found {
                    let k = choose|k: int|
                        0 <= k < done.len() && #[trigger] execstart_names(strip_cr(done[k]), bin@);
                    assert(execstart_names(strip_cr(nd[k]), bin@));
                }
                assert((exists|k: int|
                    0 <= k < nd.len() && #[trigger] execstart_names(strip_cr(nd[k]), bin@)) ==> (
                found || hit)) by {
                    if exists|k: int|
                        0 <= k < nd.len() && #[trigger] execstart_names(strip_cr(nd[k]), bin@) {
                        let k = choose|k: int|
                            0 <= k < nd.len() && #[trigger] execstart_names(strip_cr(nd[k]), bin@);
                        if k < done.len() {
                            assert(execstart_names(strip_cr(done[k]), bin@));
                        }
                    }
                }
                done = nd;
            }
            found = found || hit;
            seg = Vec::new();
            assert(split_on(cs@.take(i + 1), '\n') =~= done.push(seg@));
        } else {
            seg.push(c);
            assert(split_on(cs@.take(i + 1), '\n') =~= done.push(seg@));
        }
        i = i + 1;
    }
    assert(cs@.take(cs@.len() as int) =~= cs@);
    let ghost ps = done.push(seg@);
    let ghost lines = text_lines(content@);
    assert(ps.last() == seg@);
    assert forall|k: int| 0 <= k < done.len() implies lines[k] == strip_cr(done[k]) by {
        assert(ps[k] == done[k]);
    }
    if seg.len() > 0 {
        let hit = line_names_bin(&seg, &bs);
        proof {
            assert(lines.len() == done.len() + 1);
            assert(lines[done.len() as int] == seg@);
            if hit {
                assert(execstart_names(lines[done.len() as int], bin@));
            }
            if found {
                let k = choose|k: int|
                    0 <= k < done.len() && #[trigger] execstart_names(strip_cr(done[k]), bin@);
                assert(execstart_names(lines[k], bin@));
            }
            if unit_declares(content@, bin@) {
                let k = choose|k: int|
                    0 <= k < lines.len() && #[trigger] execstart_names(lines[k], bin@);
                if k < done.len() {
                    assert(execstart_names(strip_cr(done[k]), bin@));
                }
            }
        }
        found || hit
    } else {
        proof {
            assert(lines.len() == done.len());
            if found {
                let k = choose|k: int|
                    0 <= k < done.len() && #[trigger] execstart_names(strip_cr(done[k]), bin@);
                assert(execstart_names(lines[k], bin@));
            }
            if unit_declares(content@, bin@) {
                let k = choose|k: int|
                    0 <= k < lines.len() && #[trigger] execstart_names(lines[k], bin@);
                assert(execstart_names(strip_cr(done[k]), bin@));
            }
        }
        found
    }
}

// ── One repo ─────────────────────────────────────────────────────────────────

/// The records a repo contributes, given the facts of each of its binaries
/// in order: those that pass the filter and that `artifact_record` keeps.
pub open spec fn bin_records(
    show_all: bool,
    pattern: Option<Seq<char>>,
    repo: Seq<char>,
    facts: Seq<BinFacts>,
    src_ts: Option<i64>,
    home: Seq<char>,
    now: i64,
) -> Seq<ArtifactView>
    decreases facts.len(),
{
    if facts.len() == 0 {
        seq![]
    } else {
        let prev = bin_records(show_all, pattern, repo, facts.drop_last(), src_ts, home, now);
        if passes_filter(pattern, facts.last().bin@) {
            match artifact_record(show_all, repo, facts.last(), src_ts, home, now) {
                Some(a) => prev.push(a),
                None => prev,
            }
        } else {
            prev
        }
    }
}

/// Without `--all` a repo contributes only actionable records, each with a
/// fix command to run.
pub proof fn lemma_default_repo_records_are_actionable(
    pattern: Option<Seq<char>>,
    repo: Seq<char>,
    facts: Seq<BinFacts>,
    src_ts: Option<i64>,
    home: Seq<char>,
    now: i64,
)
    ensures
        forall|i: int|
            0 <= i < bin_records(false, pattern, repo, facts, src_ts, home, now).len() ==> actionable(
                (#[trigger] bin_records(false, pattern, repo, facts, src_ts, home, now)[i]).verdict,
            ) && bin_records(false, pattern, repo, facts, src_ts, home, now)[i].fix_cmd.len() > 0,
    decreases facts.len(),
{
    if facts.len() > 0 {
        lemma_default_repo_records_are_actionable(pattern, repo, facts.drop_last(), src_ts, home, now);
        let prev = bin_records(false, pattern, repo, facts.drop_last(), src_ts, home, now);
        let all = bin_records(false, pattern, repo, facts, src_ts, home, now);
        if artifact_record(false, repo, facts.last(), src_ts, home, now) is Some {
            lemma_default_output_is_actionable(repo, facts.last(), src_ts, home, now);
        }
        assert forall|i: int| 0 <= i < all.len() implies actionable((#[trigger] all[i]).verdict)
            && all[i].fix_cmd.len() > 0 by {
            if i < prev.len() {
                assert(all[i] == prev[i]);
            }
        }
    }
}

/// The timestamps of every binary of a repo can be subtracted.
pub open spec fn all_ages_computable(facts: Seq<BinFacts>, src_ts: Option<i64>, now: i64) -> bool {
    forall|i: int|
        0 <= i < facts.len() ==> ages_computable(
            (#[trigger] facts[i]).installed_path is Some,
            facts[i].installed_ts,
            src_ts,
            now,
        )
}

/// The pattern of an optional filter.
pub open spec fn filter_pattern(filter: Option<&BinFilter>) -> Option<Seq<char>> {
    match filter {
        Some(f) => Some(f.source()),
        None => None,
    }
}

fn keeps(filter: Option<&BinFilter>, bin: &str) -> (b: bool)
    ensures
        b == passes_filter(filter_pattern(filter), bin@),
{
    match filter {
        Some(f) => f.matches(bin),
        None => true,
    }
}

/// The records of one repo.  `facts` is `None` for a library-only repo,
/// which yields its library entry under `--all` when that entry's name
/// passes the filter, and nothing otherwise; else it holds the facts of the
/// repo's binaries, in order, and the records are those of `bin_records`.
/// Every record's name passes the filter.
pub fn scan_repo(
    show_all: bool,
    filter: Option<&BinFilter>,
    repo: &str,
    facts: Option<&[BinFacts]>,
    src_ts: Option<i64>,
    home: &str,
    now: i64,
) -> (v: Vec<ArtifactResult>)
    requires
        facts matches Some(f) ==> all_ages_computable(f@, src_ts, now),
    ensures
        facts is None ==> crate::report::views(v@) == (if show_all && passes_filter(
            filter_pattern(filter),
            library_label(),
        ) {
            seq![library_entry_view(repo@)]
        } else {
            Seq::<ArtifactView>::empty()
        }),
        facts matches Some(f) ==> crate::report::views(v@) == bin_records(
            show_all,
            filter_pattern(filter),
            repo@,
            f@,
            src_ts,
            home@,
            now,
        ),
        forall|i: int| 0 <= i < v@.len() ==> passes_filter(filter_pattern(filter), #[trigger] v@[i].bin@),
{
    let ghost pat = filter_pattern(filter);
    let mut v: Vec<ArtifactResult> = Vec::new();
    match facts {
        None => {
            if show_all && keeps(filter, "(library)") {
                v.push(library_entry(repo));
            }
            assert(crate::report::views(v@) =~= (if show_all && passes_filter(pat, library_label()) {
                seq![library_entry_view(repo@)]
            } else {
                Seq::<ArtifactView>::empty()
            }));
            v
        },
        Some(f) => {
            let mut i: usize = 0;
            while i < f.len()
                invariant
                    i <= f@.len(),
                    pat == filter_pattern(filter),
                    all_ages_computable(f@, src_ts, now),
                    crate::report::views(v@) == bin_records(
                        show_all,
                        pat,
                        repo@,
                        f@.take(i as int),
                        src_ts,
                        home@,
                        now,
                    ),
                    forall|k: int| 0 <= k < v@.len() ==> passes_filter(pat, #[trigger] v@[k].bin@),
                decreases f@.len() - i,
            {
                assert(f@.take(i + 1).drop_last() =~= f@.take(i as int));
                assert(f@.take(i + 1).last() == f@[i as int]);
                assert(ages_computable(
                    f@[i as int].installed_path is Some,
                    f@[i as int].installed_ts,
                    src_ts,
                    now,
                ));
                let ghost before = crate::report::views(v@);
                if keeps(filter, f[i].bin.as_str()) {
                    if let Some(a) = artifact_for_bin(show_all, repo, &f[i], src_ts, home, now) {
                        v.push(a);
                        assert(crate::report::views(v@) =~= before.push(v@.last()@));
                        assert(v@.last().bin@ == f@[i as int].bin@);
                    }
                }
                i = i + 1;
            }
            assert(f@.take(f@.len() as int) =~= f@);
            v
        },
    }
}

// ── Exit status ──────────────────────────────────────────────────────────────

/// How many records ask for action (not installed, or installed but stale).
pub open spec fn actionable_count(rs: Seq<ArtifactView>) -> nat
    decreases rs.len(),
{
    if rs.len() == 0 {
        0
    } else {
        actionable_count(rs.drop_last()) + if actionable(rs.last().verdict) {
            1nat
        } else {
            0nat
        }
    }
}

/// Counts the actionable records of a scan; `adopt scan` exits 1 exactly
/// when this is non-zero.
pub fn count_actionable(results: &[ArtifactResult]) -> (n: usize)
    ensures
        n == actionable_count(crate::report::views(results@)),
{
    let mut n: usize = 0;
    let mut i: usize = 0;
    while i < results.len()
        invariant
            i <= results@.len(),
            n <= i,
            n == actionable_count(crate::report::views(results@.take(i as int))),
        decreases results@.len() - i,
    {
        assert(crate::report::views(results@.take(i + 1)).drop_last() =~= crate::report::views(
            results@.take(i as int),
        ));
        if results[i].verdict.is_actionable() {
            n = n + 1;
        }
        i = i + 1;
    }
    assert(results@.take(results@.len() as int) =~= results@);
    n
}

// ── Table output ─────────────────────────────────────────────────────────────

/// The table row of a scan record.
pub open spec fn scan_row(a: ArtifactView) -> Seq<char> {
    pad_right(a.bin, 20) + " "@ + pad_right(crate::types::verdict_name(a.verdict), 20) + " "@
        + pad_right(
        match a.age_vs_head {
            Some(t) => t,
            None => "-"@,
        },
        18,
    ) + " "@ + pad_right(
        if a.is_daemon {
            "daemon"@
        } else {
            ""@
        },
        12,
    ) + " "@ + a.fix_cmd
}

/// The lines of the human-readable scan table: a notice when there is
/// nothing to show, else a header, a rule and one row per record.
pub open spec fn scan_table_lines(rs: Seq<ArtifactView>) -> Seq<Seq<char>> {
    if rs.len() == 0 {
        seq!["All scanned artifacts are adopted and current."@]
    } else {
        seq![
            pad_right("BIN"@, 20) + " "@ + pad_right("VERDICT"@, 20) + " "@ + pad_right(
                "AGE-VS-HEAD"@,
                18,
            ) + " "@ + pad_right("DAEMON"@, 12) + " FIX"@,
            repeated('-', 100),
        ] + rs.map_values(|a: ArtifactView| scan_row(a))
    }
}

fn scan_row_text(a: &ArtifactResult) -> (s: String)
    ensures
        s@ == scan_row(a@),
{
    let age = match &a.age_vs_head {
        Some(t) => owned(t),
        None => owned("-"),
    };
    let daemon = if a.is_daemon {
        "daemon"
    } else {
        ""
    };
    proof {
        reveal_strlit("");
    }
    let s = concat(
        &concat(
            &concat(
                &concat(
                    &concat(
                        &concat(&concat(&padded_right(&a.bin, 20), " "), &padded_right(a.verdict.name(), 20)),
                        " ",
                    ),
                    &padded_right(&age, 18),
                ),
                " ",
            ),
            &padded_right(daemon, 12),
        ),
        &concat(" ", &a.fix_cmd),
    );
    assert(s@ =~= scan_row(a@));
    s
}

/// Renders the scan table, one line per element.
pub fn scan_table(results: &[ArtifactResult]) -> (v: Vec<String>)
    ensures
        strings(v@) == scan_table_lines(crate::report::views(results@)),
{
    let mut v: Vec<String> = Vec::new();
    if results.len() == 0 {
        v.push(owned("All scanned artifacts are adopted and current."));
        assert(strings(v@) =~= scan_table_lines(crate::report::views(results@)));
        return v;
    }
    let header = concat(
        &concat(
            &concat(
                &concat(
                    &concat(&concat(&padded_right("BIN", 20), " "), &padded_right("VERDICT", 20)),
                    " ",
                ),
                &padded_right("AGE-VS-HEAD", 18),
            ),
            " ",
        ),
        &concat(&padded_right("DAEMON", 12), " FIX"),
    );
    v.push(header);
    v.push(repeat_char('-', 100));
    let ghost top = strings(v@);
    let mut i: usize = 0;
    while i < results.len()
        invariant
            i <= results@.len(),
            v@.len() == 2 + i,
            strings(v@).take(2) == top,
            forall|k: int| 0 <= k < i ==> (#[trigger] v@[2 + k])@ == scan_row(results@[k]@),
        decreases results@.len() - i,
    {
        let row = scan_row_text(&results[i]);
        let ghost before = v@;
        v.push(row);
        assert(strings(v@).take(2) =~= strings(before).take(2));
        i = i + 1;
    }
    proof {
        let want = scan_table_lines(crate::report::views(results@));
        assert(top[0] =~= want[0]);
        assert(strings(v@) =~= want) by {
            assert forall|k: int| 0 <= k < v@.len() implies strings(v@)[k] == want[k] by {
                if k >= 2 {
                    assert(v@[2 + (k - 2)]@ == scan_row(results@[k - 2]@));
                } else {
                    assert(strings(v@).take(2)[k] == top[k]);
                }
            }
        }
    }
    v
}

} // verus!
