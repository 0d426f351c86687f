//! The repos a scan visits: the repo directories found under the wintermute
//! directory, plus the shipped repos named by the build manifest that lie
//! under it, each path once, in path order.

use vstd::prelude::*;

use crate::paths::{
    char_views, components, components_less, is_parts_prefix, lemma_components_lt_irreflexive,
    lemma_components_lt_transitive, path_components, path_eq, path_lt, path_starts_with,
    same_components,
};
use crate::report::strings;
use crate::text::same_text;
use crate::documents::{json_get, json_items, json_parse, json_text, json_view, parse_json, JsonView};
use crate::types::opt_view;

verus! {

// ── Manifest entries ─────────────────────────────────────────────────────────

/// One entry of the build manifest, as far as a scan reads it.  A field that
/// is absent or does not hold a string is `None`.
#[derive(Debug, Clone)]
pub struct ManifestEntry {
    /// The entry's `status`.
    pub status: Option<String>,
    /// The entry's `output_repo_path`.
    pub output_repo_path: Option<String>,
    /// The entry's `repo`.
    pub repo: Option<String>,
}

/// The fields of a manifest entry, as text.
pub struct EntryView {
    pub status: Option<Seq<char>>,
    pub output_repo_path: Option<Seq<char>>,
    pub repo: Option<Seq<char>>,
}

/// The fields of an entry as text.
pub open spec fn entry_view(e: ManifestEntry) -> EntryView {
    EntryView {
        status: opt_view(e.status),
        output_repo_path: opt_view(e.output_repo_path),
        repo: opt_view(e.repo),
    }
}

/// The fields of a list of entries as text.
pub open spec fn entry_views(es: Seq<ManifestEntry>) -> Seq<EntryView> {
    es.map_values(|e: ManifestEntry| entry_view(e))
}

/// The repo a manifest entry contributes: for a `shipped` entry its
/// `output_repo_path`, failing that its `repo`; nothing otherwise.
pub open spec fn shipped_repo(e: EntryView) -> Option<Seq<char>> {
    if e.status == Some("shipped"@) {
        match e.output_repo_path {
            Some(p) => Some(p),
            None => e.repo,
        }
    } else {
        None
    }
}

/// The repos of shipped manifest entries that lie under `wm`, in order.
pub open spec fn manifest_paths(entries: Seq<EntryView>, wm: Seq<char>) -> Seq<Seq<char>>
    decreases entries.len(),
{
    if entries.len() == 0 {
        seq![]
    } else {
        let prev = manifest_paths(entries.drop_last(), wm);
        match shipped_repo(entries.last()) {
            Some(p) => if path_starts_with(p, wm) {
                prev.push(p)
            } else {
                prev
            },
            None => prev,
        }
    }
}

fn entry_repo(e: &ManifestEntry) -> (r: Option<String>)
    ensures
        opt_view(r) == shipped_repo(entry_view(*e)),
{
    let shipped = match &e.status {
        Some(s) => same_text(s.as_str(), "shipped"),
        None => false,
    };
    if !shipped {
        return None;
    }
    match &e.output_repo_path {
        Some(p) => Some(p.clone()),
        None => match &e.repo {
            Some(r) => Some(r.clone()),
            None => None,
        },
    }
}

/// The manifest's candidate repos: shipped entries whose repo lies under
/// `wm_dir` (component-wise), in manifest order.  Whether each candidate is
/// a directory is for the caller to check.
pub fn manifest_repo_candidates(entries: &[ManifestEntry], wm_dir: &str) -> (v: Vec<String>)
    ensures
        strings(v@) == manifest_paths(entry_views(entries@), wm_dir@),
{
    let wm = path_components(wm_dir);
    let mut v: Vec<String> = Vec::new();
    let mut i: usize = 0;
    while i < entries.len()
        invariant
            i <= entries@.len(),
            char_views(wm@) == components(wm_dir@),
            strings(v@) == manifest_paths(entry_views(entries@.take(i as int)), wm_dir@),
        decreases entries@.len() - i,
    {
        assert(entry_views(entries@.take(i + 1)).drop_last() =~= entry_views(
            entries@.take(i as int),
        ));
        assert(entry_views(entries@.take(i + 1)).last() == entry_view(entries@[i as int]));
        if let Some(p) = entry_repo(&entries[i]) {
            let pc = path_components(p.as_str());
            if is_parts_prefix(&wm, &pc) {
                let ghost before = strings(v@);
                v.push(p);
                assert(strings(v@) =~= before.push(v@.last()@));
            }
        }
        i = i + 1;
    }
    assert(entries@.take(entries@.len() as int) =~= entries@);
    v
}

// ── The build manifest document ──────────────────────────────────────────────

/// The text of a string member of a JSON object.
pub open spec fn json_str_field(v: JsonView, key: Seq<char>) -> Option<Seq<char>> {
    match v {
        JsonView::Object(m) => if m.dom().contains(key) {
            match m[key] {
                JsonView::Str(t) => Some(t),
                _ => None,
            }
        } else {
            None
        },
        _ => None,
    }
}

/// The fields of a manifest entry read from its JSON value.
pub open spec fn entry_from_json(v: JsonView) -> EntryView {
    EntryView {
        status: json_str_field(v, "status"@),
        output_repo_path: json_str_field(v, "output_repo_path"@),
        repo: json_str_field(v, "repo"@),
    }
}

/// The entries of the build manifest: the array under `.prds`, failing
/// that key the array under `prds`; when the value chosen is missing or not
/// an array, the document itself if it is an array; otherwise none.
pub open spec fn prd_items(doc: JsonView) -> Seq<JsonView> {
    let chosen = match doc {
        JsonView::Object(m) => if m.dom().contains(".prds"@) {
            Some(m[".prds"@])
        } else if m.dom().contains("prds"@) {
            Some(m["prds"@])
        } else {
            None
        },
        _ => None,
    };
    match chosen {
        Some(JsonView::Array(a)) => a,
        _ => match doc {
            JsonView::Array(a) => a,
            _ => seq![],
        },
    }
}

/// The entries of a manifest document, read field by field.
pub open spec fn manifest_doc_entries(doc: JsonView) -> Seq<EntryView> {
    prd_items(doc).map_values(|x: JsonView| entry_from_json(x))
}

fn field_text(v: &serde_json::Value, key: &str) -> (r: Option<String>)
    ensures
        opt_view(r) == json_str_field(json_view(*v), key@),
{
    match json_get(v, key) {
        Some(x) => match json_text(x) {
            Some(t) => Some(t.to_string()),
            None => None,
        },
        None => None,
    }
}

/// The entries of a parsed build manifest (see [`prd_items`]).
pub fn manifest_entries(v: &serde_json::Value) -> (es: Vec<ManifestEntry>)
    ensures
        entry_views(es@) == manifest_doc_entries(json_view(*v)),
{
    let chosen = match json_get(v, ".prds") {
        Some(x) => json_items(x),
        None => match json_get(v, "prds") {
            Some(x) => json_items(x),
            None => None,
        },
    };
    let items = match chosen {
        Some(a) => a,
        None => match json_items(v) {
            Some(a) => a,
            None => {
                let es: Vec<ManifestEntry> = Vec::new();
                assert(entry_views(es@) =~= manifest_doc_entries(json_view(*v)));
                return es;
            },
        },
    };
    let ghost want = prd_items(json_view(*v));
    assert(items@.map_values(|x: serde_json::Value| json_view(x)) == want);
    let mut es: Vec<ManifestEntry> = Vec::new();
    let mut i: usize = 0;
    while i < items.len()
        invariant
            i <= items@.len(),
            items@.map_values(|x: serde_json::Value| json_view(x)) == want,
            want == prd_items(json_view(*v)),
            entry_views(es@) == want.take(i as int).map_values(|x: JsonView| entry_from_json(x)),
        decreases items@.len() - i,
    {
        let it = &items[i];
        assert(json_view(*it) == want[i as int]);
        let e = ManifestEntry {
            status: field_text(it, "status"),
            output_repo_path: field_text(it, "output_repo_path"),
            repo: field_text(it, "repo"),
        };
        let ghost before = entry_views(es@);
        es.push(e);
        assert(entry_views(es@) =~= before.push(entry_view(e)));
        assert(want.take(i + 1).map_values(|x: JsonView| entry_from_json(x)) =~= want.take(
            i as int,
        ).map_values(|x: JsonView| entry_from_json(x)).push(entry_from_json(want[i as int])));
        i = i + 1;
    }
    assert(want.take(want.len() as int) =~= want);
    es
}

/// The repos the build manifest text contributes: its shipped entries whose
/// repo lies under `wm_dir`, in order; none when the text is not JSON.
pub fn manifest_repo_paths(text: &str, wm_dir: &str) -> (v: Vec<String>)
    ensures
        strings(v@) == (match json_parse(text@) {
            Some(doc) => manifest_paths(manifest_doc_entries(doc), wm_dir@),
            None => Seq::<Seq<char>>::empty(),
        }),
{
    match parse_json(text) {
        Some(doc) => {
            let es = manifest_entries(&doc);
            manifest_repo_candidates(&es, wm_dir)
        },
        None => {
            let v: Vec<String> = Vec::new();
            assert(strings(v@) =~= Seq::<Seq<char>>::empty());
            v
        },
    }
}

// ── Merging ──────────────────────────────────────────────────────────────────

/// Some path of `s` names the same path as `p`.
pub open spec fn holds_path(s: Seq<Seq<char>>, p: Seq<char>) -> bool {
    exists|i: int| 0 <= i < s.len() && #[trigger] path_eq(s[i], p)
}

/// `found`, then each of `extra` that names a path not already listed.
pub open spec fn merged(found: Seq<Seq<char>>, extra: Seq<Seq<char>>) -> Seq<Seq<char>>
    decreases extra.len(),
{
    if extra.len() == 0 {
        found
    } else {
        let m = merged(found, extra.drop_last());
        if holds_path(m, extra.last()) {
            m
        } else {
            m.push(extra.last())
        }
    }
}

/// The components of each path of a list.
pub open spec fn all_components(v: Seq<Vec<Vec<char>>>, s: Seq<String>) -> bool {
    v.len() == s.len() && forall|i: int|
        0 <= i < v.len() ==> char_views(#[trigger] v[i]@) == components(s[i]@)
}

/// Adds to `found` each path of `extra` that is not listed yet
/// (component-wise, as `PathBuf` compares).
pub fn merge_repos(found: &Vec<String>, extra: &Vec<String>) -> (v: Vec<String>)
    ensures
        strings(v@) == merged(strings(found@), strings(extra@)),
{
    let mut v: Vec<String> = Vec::new();
    let mut comps: Vec<Vec<Vec<char>>> = Vec::new();
    let mut i: usize = 0;
    while i < found.len()
        invariant
            i <= found@.len(),
            strings(v@) == strings(found@.take(i as int)),
            all_components(comps@, v@),
        decreases found@.len() - i,
    {
        let ghost before = strings(v@);
        let c = path_components(found[i].as_str());
        v.push(found[i].clone());
        comps.push(c);
        assert(strings(v@) =~= before.push(found@[i as int]@));
        assert(found@.take(i + 1) =~= found@.take(i as int).push(found@[i as int]));
        assert(strings(found@.take(i + 1)) =~= strings(found@.take(i as int)).push(
            found@[i as int]@,
        ));
        i = i + 1;
    }
    assert(found@.take(found@.len() as int) =~= found@);
    let mut j: usize = 0;
    while j < extra.len()
        invariant
            j <= extra@.len(),
            strings(v@) == merged(strings(found@), strings(extra@).take(j as int)),
            all_components(comps@, v@),
        decreases extra@.len() - j,
    {
        let ghost ex = strings(extra@);
        assert(ex.take(j + 1).drop_last() =~= ex.take(j as int));
        assert(ex.take(j + 1).last() == extra@[j as int]@);
        let e = &extra[j];
        let ce = path_components(e.as_str());
        let mut k: usize = 0;
        let mut seen = false;
        while k < comps.len()
            invariant
                k <= comps@.len(),
                all_components(comps@, v@),
                char_views(ce@) == components(e@),
                seen ==> holds_path(strings(v@), e@),
                !seen ==> forall|m: int| 0 <= m < k ==> !path_eq(strings(v@)[m], e@),
            decreases comps@.len() - k,
        {
            if same_components(&comps[k], &ce) {
                assert(path_eq(strings(v@)[k as int], e@));
                seen = true;
            }
            k = k + 1;
        }
        if !seen {
            let ghost before = strings(v@);
            v.push(e.clone());
            comps.push(ce);
            assert(strings(v@) =~= before.push(e@));
        }
        j = j + 1;
    }
    assert(strings(extra@).take(extra@.len() as int) =~= strings(extra@));
    v
}

/// Merging keeps the found repos first and in order, and lists (a path
/// naming the same place as) every extra repo.
pub proof fn lemma_merged_covers(found: Seq<Seq<char>>, extra: Seq<Seq<char>>)
    ensures
        merged(found, extra).len() >= found.len(),
        merged(found, extra).take(found.len() as int) == found,
        forall|i: int| 0 <= i < extra.len() ==> holds_path(merged(found, extra), #[trigger] extra[i]),
    decreases extra.len(),
{
    if extra.len() > 0 {
        let m = merged(found, extra.drop_last());
        lemma_merged_covers(found, extra.drop_last());
        let r = merged(found, extra);
        assert(r.take(m.len() as int) =~= m);
        assert(r.take(found.len() as int) =~= m.take(found.len() as int));
        assert forall|i: int| 0 <= i < extra.len() implies holds_path(r, #[trigger] extra[i]) by {
            if i < extra.len() - 1 {
                assert(extra.drop_last()[i] == extra[i]);
                assert(holds_path(m, extra[i]));
                let w = choose|w: int| 0 <= w < m.len() && #[trigger] path_eq(m[w], extra[i]);
                assert(r[w] == m[w]);
                assert(path_eq(r[w], extra[i]));
            } else if holds_path(m, extra.last()) {
                let w = choose|w: int| 0 <= w < m.len() && #[trigger] path_eq(m[w], extra.last());
                assert(r[w] == m[w]);
                assert(path_eq(r[w], extra[i]));
            } else {
                assert(r[m.len() as int] == extra[i]);
                assert(path_eq(r[m.len() as int], extra[i]));
            }
        }
    }
}

/// No two paths of `s` name the same place.
pub open spec fn distinct_paths(s: Seq<Seq<char>>) -> bool {
    forall|i: int, j: int| 0 <= i < j < s.len() ==> !path_eq(#[trigger] s[i], #[trigger] s[j])
}

/// Merging lists each place once: when the found repos are distinct, so is
/// the merged list.
pub proof fn lemma_merged_distinct(found: Seq<Seq<char>>, extra: Seq<Seq<char>>)
    requires
        distinct_paths(found),
    ensures
        distinct_paths(merged(found, extra)),
    decreases extra.len(),
{
    if extra.len() > 0 {
        lemma_merged_distinct(found, extra.drop_last());
        let m = merged(found, extra.drop_last());
        if !holds_path(m, extra.last()) {
            let r = m.push(extra.last());
            assert forall|i: int, j: int| 0 <= i < j < r.len() implies !path_eq(
                #[trigger] r[i],
                #[trigger] r[j],
            ) by {
                if j < m.len() {
                    assert(r[i] == m[i] && r[j] == m[j]);
                } else {
                    assert(r[i] == m[i] && r[j] == extra.last());
                    if path_eq(m[i], extra.last()) {
                        assert(holds_path(m, extra.last()));
                    }
                }
            }
        }
    }
}

// ── Sorting ──────────────────────────────────────────────────────────────────

/// No path of `s` sorts before one listed ahead of it.
pub open spec fn path_sorted(s: Seq<Seq<char>>) -> bool {
    forall|i: int, j: int|
        0 <= i < j < s.len() ==> !path_lt(#[trigger] s[j], #[trigger] s[i])
}

proof fn lemma_insert_sorted(s: Seq<Seq<char>>, k: int, x: Seq<char>)
    requires
        path_sorted(s),
        0 <= k <= s.len(),
        forall|j: int| 0 <= j < k ==> !path_lt(x, #[trigger] s[j]),
        k < s.len() ==> path_lt(x, s[k]),
    ensures
        path_sorted(s.insert(k, x)),
{
    let t = s.insert(k, x);
    assert forall|i: int, j: int| 0 <= i < j < t.len() implies !path_lt(
        #[trigger] t[j],
        #[trigger] t[i],
    ) by {
        if j < k {
            assert(t[i] == s[i] && t[j] == s[j]);
        } else if j == k {
            assert(t[i] == s[i] && t[j] == x);
        } else if i == k {
            assert(t[i] == x && t[j] == s[j - 1]);
            if path_lt(s[j - 1], x) {
                lemma_components_lt_transitive(
                    components(s[j - 1]),
                    components(x),
                    components(s[k]),
                );
                if j - 1 == k {
                    lemma_components_lt_irreflexive(components(s[k]));
                } else {
                    assert(!path_lt(s[j - 1], s[k]));
                }
            }
        } else if i < k {
            assert(t[i] == s[i] && t[j] == s[j - 1]);
        } else {
            assert(t[i] == s[i - 1] && t[j] == s[j - 1]);
        }
    }
}

/// Sorts paths into path order (`PathBuf`'s, component by component),
/// keeping every path.
pub fn sort_repos(repos: &Vec<String>) -> (v: Vec<String>)
    ensures
        strings(v@).to_multiset() == strings(repos@).to_multiset(),
        path_sorted(strings(v@)),
{
    let mut v: Vec<String> = Vec::new();
    let mut comps: Vec<Vec<Vec<char>>> = Vec::new();
    let mut i: usize = 0;
    assert(strings(repos@.take(0)) =~= strings(v@));
    while i < repos.len()
        invariant
            i <= repos@.len(),
            all_components(comps@, v@),
            path_sorted(strings(v@)),
            strings(v@).to_multiset() == strings(repos@.take(i as int)).to_multiset(),
        decreases repos@.len() - i,
    {
        let r = &repos[i];
        let cr = path_components(r.as_str());
        let mut k: usize = 0;
        while k < comps.len() && !components_less(&cr, &comps[k])
            invariant
                k <= comps@.len(),
                all_components(comps@, v@),
                char_views(cr@) == components(r@),
                forall|m: int| 0 <= m < k ==> !path_lt(r@, #[trigger] strings(v@)[m]),
            decreases comps@.len() - k,
        {
            assert(strings(v@)[k as int] == v@[k as int]@);
            k = k + 1;
        }
        let ghost before = strings(v@);
        proof {
            if k < comps@.len() {
                assert(before[k as int] == v@[k as int]@);
            }
            lemma_insert_sorted(before, k as int, r@);
            vstd::seq_lib::to_multiset_insert(before, k as int, r@);
        }
        let ghost cv = comps@;
        v.insert(k, r.clone());
        comps.insert(k, cr);
        assert(strings(v@) =~= before.insert(k as int, r@));
        assert forall|m: int| 0 <= m < comps@.len() implies char_views(
            #[trigger] comps@[m]@,
        ) == components(v@[m]@) by {
            if m < k {
                assert(comps@[m] == cv[m]);
            } else if m > k {
                assert(comps@[m] == cv[m - 1]);
            }
        }
        proof {
            let taken = strings(repos@.take(i as int));
            assert(strings(repos@.take(i + 1)) =~= taken.push(r@));
            vstd::seq_lib::to_multiset_build(taken, r@);
        }
        i = i + 1;
    }
    assert(repos@.take(repos@.len() as int) =~= repos@);
    v
}

/// The repos a scan visits: `found` (the repo directories under the
/// wintermute directory) with the manifest's extra repos added when not
/// already listed, in path order.
pub fn repo_list(found: &Vec<String>, extra: &Vec<String>) -> (v: Vec<String>)
    ensures
        strings(v@).to_multiset() == merged(strings(found@), strings(extra@)).to_multiset(),
        path_sorted(strings(v@)),
{
    let all = merge_repos(found, extra);
    sort_repos(&all)
}

} // verus!
