//! Junk left by an install under a literal-tilde prefix (`$HOME/~/...`):
//! what a doctor run reports, and which entries `--clean` may remove.
//!
//! An entry is removed only when a correctly installed twin of the same
//! binary exists in `~/.local/bin` or `~/.cargo/bin`.

use vstd::prelude::*;

use crate::paths::{join_path, path_join};
use crate::text::{
    concat, decimal, owned, pad_left, pad_right, padded_left, padded_right, repeat_char, repeated,
    u64_to_decimal,
};
use crate::verify::junk_prefix;

verus! {

/// One piece of junk found under a literal-tilde prefix.
#[derive(Debug, Clone)]
pub struct JunkEntry {
    /// Absolute path to the junk binary.
    pub junk_path: String,
    /// Byte size of the junk binary.
    pub size_bytes: u64,
    /// Path of the correctly-installed twin, if any.
    pub twin: Option<String>,
}

/// The literal-tilde directory directly under `$HOME`, where junk lands.
pub fn junk_root(home: &str) -> (r: String)
    ensures
        r@ == junk_prefix(home@),
{
    join_path(home, "~")
}

/// Where a correctly installed twin of `bin` may live, in the order they are
/// tried: `$HOME/.local/bin/<bin>`, then `$HOME/.cargo/bin/<bin>`.
pub fn twin_candidates(bin: &str, home: &str) -> (v: Vec<String>)
    ensures
        v@.len() == 2,
        v@[0]@ == path_join(path_join(home@, ".local/bin"@), bin@),
        v@[1]@ == path_join(path_join(home@, ".cargo/bin"@), bin@),
{
    let a = join_path(&join_path(home, ".local/bin"), bin);
    let b = join_path(&join_path(home, ".cargo/bin"), bin);
    let mut v: Vec<String> = Vec::new();
    v.push(a);
    v.push(b);
    v
}

/// The twin of a junk binary: the `~/.local/bin` candidate when it exists,
/// else the `~/.cargo/bin` one, else none.
pub fn find_twin(local_path: &str, local_exists: bool, cargo_path: &str, cargo_exists: bool) -> (r:
    Option<String>)
    ensures
        r is Some <==> (local_exists || cargo_exists),
        r is Some ==> r->0@ == (if local_exists {
            local_path@
        } else {
            cargo_path@
        }),
{
    if local_exists {
        Some(owned(local_path))
    } else if cargo_exists {
        Some(owned(cargo_path))
    } else {
        None
    }
}

/// A file counts as an executable when any of its owner, group or other
/// execute bits is set.
pub fn is_executable_mode(mode: u32) -> (b: bool)
    ensures
        b == (mode & 0o111u32 != 0),
{
    mode & 0o111u32 != 0
}

// ── What counts as junk ──────────────────────────────────────────────────────

/// One entry met by a walk of the junk root, parents before children, down
/// to depth four (entries directly in the junk root have depth zero).
pub struct ListedEntry {
    /// The entry's file name.
    pub name: String,
    /// Its depth below the junk root.
    pub depth: usize,
    /// Its metadata says it is a directory (following links).
    pub is_dir: bool,
    /// Its metadata says it is a regular file (following links).
    pub is_file: bool,
    /// Its permission bits (0 when its metadata could not be read).
    pub mode: u32,
}

/// The tree was written by cargo: some non-directory named `.crates.toml`
/// lies at depth three or less.
pub open spec fn cargo_marker_listed(ls: Seq<ListedEntry>) -> bool {
    exists|i: int|
        0 <= i < ls.len() && !(#[trigger] ls[i]).is_dir && ls[i].name@ == ".crates.toml"@
            && ls[i].depth <= 3
}

/// A junk candidate: an executable regular file at depth four or less.
pub open spec fn is_junk_file(e: ListedEntry) -> bool {
    e.is_file && e.depth <= 4 && e.mode & 0o111u32 != 0
}

/// The positions of the junk candidates among the first `n` entries, in order.
pub open spec fn junk_positions(ls: Seq<ListedEntry>, n: nat) -> Seq<usize>
    decreases n,
{
    if n == 0 {
        seq![]
    } else if is_junk_file(ls[n - 1]) {
        junk_positions(ls, (n - 1) as nat).push((n - 1) as usize)
    } else {
        junk_positions(ls, (n - 1) as nat)
    }
}

/// The junk positions among the first `n` entries are exactly the
/// executable regular files at depth four or less: each such position is
/// listed, every listed position is one, and they come in increasing order.
pub proof fn lemma_junk_positions_exact(ls: Seq<ListedEntry>, n: nat)
    requires
        n <= ls.len(),
        ls.len() <= usize::MAX,
    ensures
        forall|i: int|
            0 <= i < n && (#[trigger] ls[i]).is_file && ls[i].depth <= 4 && ls[i].mode & 0o111u32
                != 0 ==> junk_positions(ls, n).contains(i as usize),
        forall|k: int|
            0 <= k < junk_positions(ls, n).len() ==> {
                let p = #[trigger] junk_positions(ls, n)[k];
                p < n && ls[p as int].is_file && ls[p as int].depth <= 4 && ls[p as int].mode
                    & 0o111u32 != 0
            },
        forall|k: int, l: int|
            0 <= k < l < junk_positions(ls, n).len() ==> #[trigger] junk_positions(ls, n)[k]
                < #[trigger] junk_positions(ls, n)[l],
    decreases n,
{
    if n > 0 {
        lemma_junk_positions_exact(ls, (n - 1) as nat);
        let prev = junk_positions(ls, (n - 1) as nat);
        let cur = junk_positions(ls, n);
        if is_junk_file(ls[n - 1]) {
            assert(cur == prev.push((n - 1) as usize));
            assert forall|i: int|
                0 <= i < n && (#[trigger] ls[i]).is_file && ls[i].depth <= 4 && ls[i].mode
                    & 0o111u32 != 0 implies cur.contains(i as usize) by {
                if i < n - 1 {
                    let k = choose|k: int| 0 <= k < prev.len() && prev[k] == i as usize;
                    assert(cur[k] == prev[k]);
                } else {
                    assert(cur[prev.len() as int] == (n - 1) as usize);
                }
            }
            assert forall|k: int| 0 <= k < cur.len() implies {
                let p = #[trigger] cur[k];
                p < n && ls[p as int].is_file && ls[p as int].depth <= 4 && ls[p as int].mode
                    & 0o111u32 != 0
            } by {
                if k < prev.len() {
                    assert(cur[k] == prev[k]);
                }
            }
            assert forall|k: int, l: int| 0 <= k < l < cur.len() implies #[trigger] cur[k]
                < #[trigger] cur[l] by {
                if l < prev.len() {
                    assert(cur[k] == prev[k] && cur[l] == prev[l]);
                } else {
                    assert(cur[k] == prev[k]);
                    assert(prev[k] < n - 1);
                }
            }
        } else {
            assert forall|i: int|
                0 <= i < n && (#[trigger] ls[i]).is_file && ls[i].depth <= 4 && ls[i].mode
                    & 0o111u32 != 0 implies cur.contains(i as usize) by {
                assert(i != n - 1);
            }
        }
    }
}

/// The positions of the junk entries of a walk: none unless the tree was
/// written by cargo, else every executable regular file, in walk order.
pub fn junk_indices(listing: &[ListedEntry]) -> (v: Vec<usize>)
    ensures
        v@ == (if cargo_marker_listed(listing@) {
            junk_positions(listing@, listing@.len())
        } else {
            Seq::<usize>::empty()
        }),
{
    let mut marked = false;
    let mut k: usize = 0;
    while k < listing.len()
        invariant
            k <= listing@.len(),
            marked ==> cargo_marker_listed(listing@),
            !marked ==> forall|j: int|
                0 <= j < k ==> !(!(#[trigger] listing@[j]).is_dir && listing@[j].name@
                    == ".crates.toml"@ && listing@[j].depth <= 3),
        decreases listing@.len() - k,
    {
        let e = &listing[k];
        if !e.is_dir && crate::text::same_text(e.name.as_str(), ".crates.toml") && e.depth <= 3 {
            assert(!listing@[k as int].is_dir && listing@[k as int].name@ == ".crates.toml"@
                && listing@[k as int].depth <= 3);
            marked = true;
        }
        k = k + 1;
    }
    let mut v: Vec<usize> = Vec::new();
    if !marked {
        return v;
    }
    let mut i: usize = 0;
    while i < listing.len()
        invariant
            i <= listing@.len(),
            v@ == junk_positions(listing@, i as nat),
        decreases listing@.len() - i,
    {
        let e = &listing[i];
        if e.is_file && e.depth <= 4 && is_executable_mode(e.mode) {
            v.push(i);
        }
        i = i + 1;
    }
    v
}

// ── The report ───────────────────────────────────────────────────────────────

/// What a doctor run does with one junk entry.
#[derive(Debug, Clone, Copy, PartialEq, Eq, Structural)]
pub enum CleanupStep {
    /// Report only (no `--clean`).
    Listed,
    /// `--clean`, and a twin exists: remove the junk file.
    Remove,
    /// `--clean`, but no twin exists: keep the file and say so.
    KeepNoTwin,
}

/// The step for an entry: nothing is touched without `--clean`, and only an
/// entry with a twin is removed.
pub open spec fn step_for(clean: bool, has_twin: bool) -> CleanupStep {
    if !clean {
        CleanupStep::Listed
    } else if has_twin {
        CleanupStep::Remove
    } else {
        CleanupStep::KeepNoTwin
    }
}

/// "entry" for one, "entries" otherwise.
pub open spec fn entry_word(n: nat) -> Seq<char> {
    if n == 1 {
        "entry"@
    } else {
        "entries"@
    }
}

/// The lines printed before the per-entry rows.
pub open spec fn header_lines(root: Seq<char>, n: nat) -> Seq<Seq<char>> {
    if n == 0 {
        seq!["adopt doctor: no junk debris found under `"@ + root + "`"@]
    } else {
        seq![
            "adopt doctor: found "@ + decimal(n) + " junk "@ + entry_word(n) + " under `"@ + root
                + "`"@,
            ""@,
            pad_right("JUNK_PATH"@, 60) + " "@ + pad_right("SIZE"@, 8) + " TWIN"@,
            repeated('-', 90),
        ]
    }
}

/// What a doctor run decided: the header lines, one step per entry, and
/// whether any debris was found (the exit status).
pub struct DoctorPlan {
    pub header: Vec<String>,
    pub steps: Vec<CleanupStep>,
    pub any_debris: bool,
}

/// The lines of a string vector as character sequences.
pub open spec fn line_views(v: Seq<String>) -> Seq<Seq<char>> {
    v.map_values(|s: String| s@)
}

fn header_for(root: &str, n: usize) -> (v: Vec<String>)
    ensures
        line_views(v@) == header_lines(root@, n as nat),
{
    let mut v: Vec<String> = Vec::new();
    if n == 0 {
        v.push(concat(&concat("adopt doctor: no junk debris found under `", root), "`"));
        assert(line_views(v@) =~= header_lines(root@, n as nat));
        return v;
    }
    let word = if n == 1 {
        "entry"
    } else {
        "entries"
    };
    let count = u64_to_decimal(n as u64);
    let first = concat(
        &concat(
            &concat(&concat(&concat("adopt doctor: found ", &count), " junk "), word),
            " under `",
        ),
        &concat(root, "`"),
    );
    let cols = concat(
        &concat(&concat(&padded_right("JUNK_PATH", 60), " "), &padded_right("SIZE", 8)),
        " TWIN",
    );
    v.push(first);
    v.push(owned(""));
    v.push(cols);
    v.push(repeat_char('-', 90));
    proof {
        let h = header_lines(root@, n as nat);
        assert(v@[0]@ =~= h[0]);
        assert(v@[2]@ =~= h[2]);
        assert(line_views(v@) =~= h);
    }
    v
}

/// Plans a doctor run over the junk entries found under `$HOME/~`: the
/// header to print, the step for each entry, and whether debris was found.
pub fn run_doctor(home: &str, entries: &[JunkEntry], clean: bool) -> (p: DoctorPlan)
    ensures
        line_views(p.header@) == header_lines(junk_prefix(home@), entries@.len()),
        p.steps@.len() == entries@.len(),
        forall|i: int|
            0 <= i < entries@.len() ==> #[trigger] p.steps@[i] == step_for(
                clean,
                entries@[i].twin is Some,
            ),
        p.any_debris == (entries@.len() > 0),
{
    let root = junk_root(home);
    let header = header_for(&root, entries.len());
    let mut steps: Vec<CleanupStep> = Vec::new();
    let mut i: usize = 0;
    while i < entries.len()
        invariant
            i <= entries@.len(),
            steps@.len() == i,
            forall|k: int|
                0 <= k < i ==> #[trigger] steps@[k] == step_for(clean, entries@[k].twin is Some),
        decreases entries@.len() - i,
    {
        let step = if !clean {
            CleanupStep::Listed
        } else if entries[i].twin.is_some() {
            CleanupStep::Remove
        } else {
            CleanupStep::KeepNoTwin
        };
        steps.push(step);
        i = i + 1;
    }
    DoctorPlan { header, steps, any_debris: entries.len() > 0 }
}

/// The table row of an entry: path, size and twin (`(none)` without one).
pub open spec fn row_text(path: Seq<char>, size: u64, twin: Option<Seq<char>>) -> Seq<char> {
    pad_right(path, 60) + " "@ + pad_left(decimal(size as nat), 7) + "B "@ + match twin {
        Some(t) => t,
        None => "(none)"@,
    }
}

/// Renders the table row of an entry.
pub fn junk_row(entry: &JunkEntry) -> (s: String)
    ensures
        s@ == row_text(entry.junk_path@, entry.size_bytes, crate::types::opt_view(entry.twin)),
{
    let size = padded_left(&u64_to_decimal(entry.size_bytes), 7);
    let left = concat(&concat(&padded_right(&entry.junk_path, 60), " "), &size);
    let twin = match &entry.twin {
        Some(t) => owned(t),
        None => owned("(none)"),
    };
    let s = concat(&concat(&left, "B "), &twin);
    assert(s@ =~= row_text(entry.junk_path@, entry.size_bytes, crate::types::opt_view(entry.twin)));
    s
}

/// The line printed after an entry's row, once its step was carried out:
/// nothing for a listed entry; for a removal, success or the error.
pub open spec fn outcome_text(path: Seq<char>, step: CleanupStep, remove_error: Option<Seq<char>>) -> Option<
    Seq<char>,
> {
    match step {
        CleanupStep::Listed => None,
        CleanupStep::KeepNoTwin => Some(
            "  → kept (no twin): "@ + path + " — remove manually if safe"@,
        ),
        CleanupStep::Remove => match remove_error {
            None => Some("  → removed: "@ + path),
            Some(e) => Some("  → WARN: could not remove "@ + path + ": "@ + e),
        },
    }
}

/// Renders the line that follows an entry's row.
pub fn outcome_line(path: &str, step: CleanupStep, remove_error: Option<&str>) -> (r: Option<String>)
    ensures
        r is Some <==> outcome_text(path@, step, crate::scan::str_view(remove_error)) is Some,
        r is Some ==> r->0@ == outcome_text(path@, step, crate::scan::str_view(remove_error))->0,
{
    match step {
        CleanupStep::Listed => None,
        CleanupStep::KeepNoTwin => Some(
            concat(&concat("  → kept (no twin): ", path), " — remove manually if safe"),
        ),
        CleanupStep::Remove => match remove_error {
            None => Some(concat("  → removed: ", path)),
            Some(e) => Some(concat(&concat(&concat("  → WARN: could not remove ", path), ": "), e)),
        },
    }
}

/// Empty directories under the junk root are pruned after `--clean` removed
/// at least one file (a directory that still holds files is never removed).
pub fn should_prune(clean: bool, removed: usize) -> (b: bool)
    ensures
        b == (clean && removed > 0),
{
    clean && removed > 0
}

/// Law: without `--clean` nothing is removed, and with it an entry is removed
/// exactly when it has a twin.
pub proof fn lemma_only_twinned_entries_are_removed(clean: bool, has_twin: bool)
    ensures
        (step_for(clean, has_twin) is Remove) <==> (clean && has_twin),
        !clean ==> step_for(clean, has_twin) is Listed,
{
}

} // verus!
