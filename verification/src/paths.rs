//! Lexical path handling: joining, splitting into components, and
//! normalising, over the character sequences of `/`-separated paths.

use vstd::prelude::*;

use crate::text::{chars_of, string_of};

verus! {

/// `base` joined with `rel` as `Path::join` does on Unix: an absolute `rel`
/// replaces `base`, an empty `base` yields `rel`, and a separator is added
/// only when `base` does not already end in one.
pub open spec fn path_join(base: Seq<char>, rel: Seq<char>) -> Seq<char> {
    if rel.len() > 0 && rel[0] == '/' {
        rel
    } else if base.len() == 0 {
        rel
    } else if base.last() == '/' {
        base + rel
    } else {
        base + seq!['/'] + rel
    }
}

/// Joins two paths (`Path::join`).
pub fn join_path(base: &str, rel: &str) -> (p: String)
    ensures
        p@ == path_join(base@, rel@),
{
    let b = chars_of(base);
    let r = chars_of(rel);
    let mut out: Vec<char> = Vec::new();
    if r.len() > 0 && r[0] == '/' {
        return string_of(r.as_slice());
    }
    if b.len() == 0 {
        return string_of(r.as_slice());
    }
    let mut i: usize = 0;
    while i < b.len()
        invariant
            i <= b@.len(),
            out@ == b@.take(i as int),
        decreases b@.len() - i,
    {
        out.push(b[i]);
        assert(b@.take(i as int).push(b@[i as int]) =~= b@.take(i + 1));
        i = i + 1;
    }
    assert(b@.take(b@.len() as int) =~= b@);
    if b[b.len() - 1] != '/' {
        out.push('/');
    }
    let ghost mid = out@;
    let mut j: usize = 0;
    while j < r.len()
        invariant
            j <= r@.len(),
            out@ == mid + r@.take(j as int),
        decreases r@.len() - j,
    {
        out.push(r[j]);
        assert(r@.take(j as int).push(r@[j as int]) =~= r@.take(j + 1));
        j = j + 1;
    }
    assert(r@.take(r@.len() as int) =~= r@);
    assert(out@ =~= path_join(base@, rel@));
    string_of(out.as_slice())
}

// ── Components ────────────────────────────────────────────────────────────────

/// The pieces of `s` between separators `sep`, empty pieces included
/// (`str::split`): there is always at least one piece.
pub open spec fn split_on(s: Seq<char>, sep: char) -> Seq<Seq<char>>
    decreases s.len(),
{
    if s.len() == 0 {
        seq![seq![]]
    } else {
        let r = split_on(s.drop_last(), sep);
        if s.last() == sep {
            r.push(seq![])
        } else {
            r.update(r.len() - 1, r.last().push(s.last()))
        }
    }
}

proof fn lemma_split_on_nonempty(s: Seq<char>, sep: char)
    ensures
        split_on(s, sep).len() >= 1,
    decreases s.len(),
{
    if s.len() > 0 {
        lemma_split_on_nonempty(s.drop_last(), sep);
    }
}

/// One step of lexical resolution: empty and `.` pieces vanish, `..` drops
/// the last component (and stays at the root), anything else is appended.
pub open spec fn resolve_step(parts: Seq<Seq<char>>, piece: Seq<char>) -> Seq<Seq<char>> {
    if piece.len() == 0 || piece == seq!['.'] {
        parts
    } else if piece == seq!['.', '.'] {
        if parts.len() > 0 {
            parts.drop_last()
        } else {
            parts
        }
    } else {
        parts.push(piece)
    }
}

/// The components left after resolving `pieces` from the left.
pub open spec fn resolve_pieces(pieces: Seq<Seq<char>>) -> Seq<Seq<char>>
    decreases pieces.len(),
{
    if pieces.len() == 0 {
        seq![]
    } else {
        resolve_step(resolve_pieces(pieces.drop_last()), pieces.last())
    }
}

/// The normalised components of a `/`-separated path.
pub open spec fn normal_parts(s: Seq<char>) -> Seq<Seq<char>> {
    resolve_pieces(split_on(s, '/'))
}

/// The absolute path spelled by a list of components.
pub open spec fn rooted(parts: Seq<Seq<char>>) -> Seq<char> {
    seq!['/'] + crate::text::joined(parts, seq!['/'])
}

/// The views of a vector of character vectors.
pub open spec fn char_views(v: Seq<Vec<char>>) -> Seq<Seq<char>> {
    v.map_values(|x: Vec<char>| x@)
}

fn is_single_dot(g: &Vec<char>) -> (b: bool)
    ensures
        b == (g@ == seq!['.']),
{
    let b = g.len() == 1 && g[0] == '.';
    assert(b ==> g@ =~= seq!['.']);
    b
}

fn is_double_dot(g: &Vec<char>) -> (b: bool)
    ensures
        b == (g@ == seq!['.', '.']),
{
    let b = g.len() == 2 && g[0] == '.' && g[1] == '.';
    assert(b ==> g@ =~= seq!['.', '.']);
    b
}

fn apply_piece(parts: &mut Vec<Vec<char>>, piece: Vec<char>)
    ensures
        char_views(final(parts)@) == resolve_step(char_views(old(parts)@), piece@),
{
    let ghost before = char_views(parts@);
    if piece.len() == 0 || is_single_dot(&piece) {
    } else if is_double_dot(&piece) {
        if parts.len() > 0 {
            parts.pop();
            assert(char_views(parts@) =~= before.drop_last());
        }
    } else {
        parts.push(piece);
        assert(char_views(parts@) =~= before.push(piece@));
    }
}

/// The normalised components of a path.
pub fn path_parts(s: &str) -> (parts: Vec<Vec<char>>)
    ensures
        char_views(parts@) == normal_parts(s@),
{
    let cs = chars_of(s);
    let mut parts: Vec<Vec<char>> = Vec::new();
    let mut seg: Vec<char> = Vec::new();
    let ghost mut done: Seq<Seq<char>> = seq![];
    let mut i: usize = 0;
    assert(split_on(cs@.take(0), '/') =~= done.push(seg@));
    while i < cs.len()
        invariant
            i <= cs@.len(),
            cs@ == s@,
            split_on(cs@.take(i as int), '/') == done.push(seg@),
            char_views(parts@) == resolve_pieces(done),
        decreases cs@.len() - i,
    {
        let c = cs[i];
        assert(cs@.take(i + 1).drop_last() =~= cs@.take(i as int));
        assert(cs@.take(i + 1).last() == c);
        if c == '/' {
            let g = seg;
            proof {
                let nd = done.push(g@);
                assert(nd.drop_last() =~= done);
                assert(resolve_pieces(nd) == resolve_step(resolve_pieces(done), g@));
                done = nd;
            }
            apply_piece(&mut parts, g);
            seg = Vec::new();
            assert(split_on(cs@.take(i + 1), '/') =~= done.push(seg@));
        } else {
            seg.push(c);
            assert(split_on(cs@.take(i + 1), '/') =~= done.push(seg@));
        }
        i = i + 1;
    }
    assert(cs@.take(cs@.len() as int) =~= cs@);
    let ghost last = seg@;
    proof {
        let nd = done.push(last);
        assert(nd.drop_last() =~= done);
        assert(split_on(s@, '/') == nd);
    }
    apply_piece(&mut parts, seg);
    parts
}

/// The path spelled by components, rooted at `/`.
pub fn rooted_path(parts: &Vec<Vec<char>>) -> (s: String)
    ensures
        s@ == rooted(char_views(parts@)),
{
    let mut out: Vec<char> = Vec::new();
    out.push('/');
    let mut k: usize = 0;
    while k < parts.len()
        invariant
            k <= parts@.len(),
            out@ == seq!['/'] + crate::text::joined(char_views(parts@).take(k as int), seq!['/']),
        decreases parts@.len() - k,
    {
        let ghost prev = char_views(parts@).take(k as int);
        let ghost next = char_views(parts@).take(k + 1);
        assert(next.drop_last() =~= prev);
        assert(next.last() == parts@[k as int]@);
        if k > 0 {
            out.push('/');
        }
        let ghost mid = out@;
        let p = &parts[k];
        let mut j: usize = 0;
        while j < p.len()
            invariant
                j <= p@.len(),
                out@ == mid + p@.take(j as int),
            decreases p@.len() - j,
        {
            out.push(p[j]);
            assert(p@.take(j as int).push(p@[j as int]) =~= p@.take(j + 1));
            j = j + 1;
        }
        assert(p@.take(p@.len() as int) =~= p@);
        proof {
            if k == 0 {
                assert(next.len() == 1);
                assert(out@ =~= seq!['/'] + crate::text::joined(next, seq!['/']));
            } else {
                assert(out@ =~= seq!['/'] + crate::text::joined(next, seq!['/']));
            }
        }
        k = k + 1;
    }
    assert(char_views(parts@).take(parts@.len() as int) =~= char_views(parts@));
    string_of(out.as_slice())
}

/// `pre` is a component-wise prefix of `parts`.
pub open spec fn parts_prefix(pre: Seq<Seq<char>>, parts: Seq<Seq<char>>) -> bool {
    pre.len() <= parts.len() && forall|i: int| 0 <= i < pre.len() ==> pre[i] == parts[i]
}

fn same_chars(a: &Vec<char>, b: &Vec<char>) -> (r: bool)
    ensures
        r == (a@ == b@),
{
    if a.len() != b.len() {
        return false;
    }
    let mut i: usize = 0;
    while i < a.len()
        invariant
            i <= a@.len() == b@.len(),
            forall|j: int| 0 <= j < i ==> a@[j] == b@[j],
        decreases a@.len() - i,
    {
        if a[i] != b[i] {
            return false;
        }
        i = i + 1;
    }
    assert(a@ =~= b@);
    true
}

/// Component-wise prefix test.
pub fn is_parts_prefix(pre: &Vec<Vec<char>>, parts: &Vec<Vec<char>>) -> (b: bool)
    ensures
        b == parts_prefix(char_views(pre@), char_views(parts@)),
{
    if pre.len() > parts.len() {
        return false;
    }
    let mut i: usize = 0;
    while i < pre.len()
        invariant
            i <= pre@.len() <= parts@.len(),
            forall|j: int| 0 <= j < i ==> char_views(pre@)[j] == char_views(parts@)[j],
        decreases pre@.len() - i,
    {
        if !same_chars(&pre[i], &parts[i]) {
            assert(char_views(pre@)[i as int] != char_views(parts@)[i as int]);
            return false;
        }
        i = i + 1;
    }
    true
}

// ── Components and path order ────────────────────────────────────────────────

/// The pieces that are components: everything but empty and `.` pieces.
pub open spec fn kept_pieces(pieces: Seq<Seq<char>>) -> Seq<Seq<char>>
    decreases pieces.len(),
{
    if pieces.len() == 0 {
        seq![]
    } else {
        let k = kept_pieces(pieces.drop_last());
        let p = pieces.last();
        if p.len() == 0 || p == seq!['.'] {
            k
        } else {
            k.push(p)
        }
    }
}

/// The components of a path as `Path::components` yields them, spelled as
/// text: `/` for the root, `.` for a leading current directory, then every
/// piece between separators except empty and `.` pieces (`..` is kept).
pub open spec fn components(s: Seq<char>) -> Seq<Seq<char>> {
    let pieces = split_on(s, '/');
    let lead = if s.len() > 0 && s[0] == '/' {
        seq![seq!['/']]
    } else if pieces[0] == seq!['.'] {
        seq![seq!['.']]
    } else {
        seq![]
    };
    lead + kept_pieces(pieces)
}

/// The components of a path.
pub fn path_components(s: &str) -> (parts: Vec<Vec<char>>)
    ensures
        char_views(parts@) == components(s@),
{
    let cs = chars_of(s);
    let mut kept: Vec<Vec<char>> = Vec::new();
    let mut seg: Vec<char> = Vec::new();
    let ghost mut done: Seq<Seq<char>> = seq![];
    let mut first_dot: Option<bool> = None;
    let mut i: usize = 0;
    assert(split_on(cs@.take(0), '/') =~= done.push(seg@));
    while i < cs.len()
        invariant
            i <= cs@.len(),
            cs@ == s@,
            split_on(cs@.take(i as int), '/') == done.push(seg@),
            char_views(kept@) == kept_pieces(done),
            first_dot is Some <==> done.len() > 0,
            first_dot matches Some(b) ==> b == (done[0] == seq!['.']),
        decreases cs@.len() - i,
    {
        let c = cs[i];
        assert(cs@.take(i + 1).drop_last() =~= cs@.take(i as int));
        assert(cs@.take(i + 1).last() == c);
        if c == '/' {
            let g = seg;
            if first_dot.is_none() {
                first_dot = Some(is_single_dot(&g));
            }
            proof {
                let nd = done.push(g@);
                assert(nd.drop_last() =~= done);
                assert(nd[0] == (if done.len() > 0 { done[0] } else { g@ }));
                done = nd;
            }
            if g.len() > 0 && !is_single_dot(&g) {
                let ghost before = char_views(kept@);
                kept.push(g);
                assert(char_views(kept@) =~= before.push(done.last()));
            }
            seg = Vec::new();
            assert(split_on(cs@.take(i + 1), '/') =~= done.push(seg@));
        } else {
            seg.push(c);
            assert(split_on(cs@.take(i + 1), '/') =~= done.push(seg@));
        }
        i = i + 1;
    }
    assert(cs@.take(cs@.len() as int) =~= cs@);
    let ghost pieces = done.push(seg@);
    assert(pieces.drop_last() =~= done);
    let dot = match first_dot {
        Some(b) => b,
        None => is_single_dot(&seg),
    };
    assert(dot == (pieces[0] == seq!['.']));
    if seg.len() > 0 && !is_single_dot(&seg) {
        let ghost before = char_views(kept@);
        kept.push(seg);
        assert(char_views(kept@) =~= before.push(pieces.last()));
    }
    assert(char_views(kept@) == kept_pieces(pieces));
    assert(pieces == split_on(s@, '/'));
    let mut out: Vec<Vec<char>> = Vec::new();
    if cs.len() > 0 && cs[0] == '/' {
        let r = vec!['/'];
        assert(r@ =~= seq!['/']);
        out.push(r);
        assert(char_views(out@) =~= seq![seq!['/']]);
    } else if dot {
        let d = vec!['.'];
        assert(d@ =~= seq!['.']);
        out.push(d);
        assert(char_views(out@) =~= seq![seq!['.']]);
    } else {
        assert(char_views(out@) =~= Seq::<Seq<char>>::empty());
    }
    let ghost lead = char_views(out@);
    assert(lead =~= (if s@.len() > 0 && s@[0] == '/' {
        seq![seq!['/']]
    } else if pieces[0] == seq!['.'] {
        seq![seq!['.']]
    } else {
        Seq::<Seq<char>>::empty()
    }));
    let ghost kv = kept@;
    out.append(&mut kept);
    assert(char_views(out@) =~= lead + char_views(kv));
    out
}

/// The rank of a component in `Component`'s order: root, current
/// directory, parent directory, then every normal component.
pub open spec fn rank(t: Seq<char>) -> int {
    if t == seq!['/'] {
        0
    } else if t == seq!['.'] {
        1
    } else if t == seq!['.', '.'] {
        2
    } else {
        3
    }
}

/// Lexicographic order of texts by character code, which is the byte
/// order of their UTF-8 encodings.
pub open spec fn text_lt(a: Seq<char>, b: Seq<char>) -> bool
    decreases a.len(),
{
    if a.len() == 0 {
        b.len() > 0
    } else if b.len() == 0 {
        false
    } else if a[0] == b[0] {
        text_lt(a.drop_first(), b.drop_first())
    } else {
        (a[0] as u32) < (b[0] as u32)
    }
}

/// The order of two components.
pub open spec fn component_lt(a: Seq<char>, b: Seq<char>) -> bool {
    rank(a) < rank(b) || (rank(a) == 3 && rank(b) == 3 && text_lt(a, b))
}

/// Lexicographic order of component lists.
pub open spec fn components_lt(a: Seq<Seq<char>>, b: Seq<Seq<char>>) -> bool
    decreases a.len(),
{
    if a.len() == 0 {
        b.len() > 0
    } else if b.len() == 0 {
        false
    } else if a[0] == b[0] {
        components_lt(a.drop_first(), b.drop_first())
    } else {
        component_lt(a[0], b[0])
    }
}

/// `a` sorts before `b` as paths do (`PathBuf`'s order): by components.
pub open spec fn path_lt(a: Seq<char>, b: Seq<char>) -> bool {
    components_lt(components(a), components(b))
}

/// `a` and `b` name the same path component-wise (`PathBuf`'s equality).
pub open spec fn path_eq(a: Seq<char>, b: Seq<char>) -> bool {
    components(a) == components(b)
}

/// `p` lies under `base` component-wise (`Path::starts_with`).
pub open spec fn path_starts_with(p: Seq<char>, base: Seq<char>) -> bool {
    parts_prefix(components(base), components(p))
}

proof fn lemma_text_lt_irreflexive(a: Seq<char>)
    ensures
        !text_lt(a, a),
    decreases a.len(),
{
    if a.len() > 0 {
        lemma_text_lt_irreflexive(a.drop_first());
    }
}

proof fn lemma_text_lt_transitive(a: Seq<char>, b: Seq<char>, c: Seq<char>)
    requires
        text_lt(a, b),
        text_lt(b, c),
    ensures
        text_lt(a, c),
    decreases a.len(),
{
    if a.len() > 0 && a[0] == b[0] && b[0] == c[0] {
        lemma_text_lt_transitive(a.drop_first(), b.drop_first(), c.drop_first());
    }
}

proof fn lemma_component_lt_irreflexive(a: Seq<char>)
    ensures
        !component_lt(a, a),
{
    lemma_text_lt_irreflexive(a);
}

proof fn lemma_component_lt_transitive(a: Seq<char>, b: Seq<char>, c: Seq<char>)
    requires
        component_lt(a, b),
        component_lt(b, c),
    ensures
        component_lt(a, c),
{
    if rank(a) == 3 && rank(b) == 3 && rank(c) == 3 {
        lemma_text_lt_transitive(a, b, c);
    }
}

/// Path order is irreflexive.
pub proof fn lemma_components_lt_irreflexive(a: Seq<Seq<char>>)
    ensures
        !components_lt(a, a),
    decreases a.len(),
{
    if a.len() > 0 {
        lemma_components_lt_irreflexive(a.drop_first());
    }
}

/// Path order is transitive.
pub proof fn lemma_components_lt_transitive(a: Seq<Seq<char>>, b: Seq<Seq<char>>, c: Seq<Seq<char>>)
    requires
        components_lt(a, b),
        components_lt(b, c),
    ensures
        components_lt(a, c),
    decreases a.len(),
{
    if a.len() > 0 && b.len() > 0 && c.len() > 0 {
        if a[0] == b[0] && b[0] == c[0] {
            lemma_components_lt_transitive(a.drop_first(), b.drop_first(), c.drop_first());
        } else if a[0] != b[0] && b[0] != c[0] {
            lemma_component_lt_transitive(a[0], b[0], c[0]);
            if a[0] == c[0] {
                lemma_component_lt_irreflexive(a[0]);
            }
        }
    }
}

fn is_root_or_dot_rank(t: &Vec<char>) -> (r: u8)
    ensures
        r as int == rank(t@),
{
    if t.len() == 1 && t[0] == '/' {
        assert(t@ =~= seq!['/']);
        0
    } else if is_single_dot(t) {
        1
    } else if is_double_dot(t) {
        2
    } else {
        proof {
            if t@ == seq!['/'] {
                assert(t@.len() == 1 && t@[0] == '/');
            }
        }
        3
    }
}

fn chars_less(a: &Vec<char>, b: &Vec<char>) -> (r: bool)
    ensures
        r == text_lt(a@, b@),
{
    let mut i: usize = 0;
    assert(a@.skip(0) =~= a@);
    assert(b@.skip(0) =~= b@);
    while i < a.len() && i < b.len() && a[i] == b[i]
        invariant
            i <= a@.len(),
            i <= b@.len(),
            text_lt(a@, b@) == text_lt(a@.skip(i as int), b@.skip(i as int)),
        decreases a@.len() - i,
    {
        assert(a@.skip(i as int).drop_first() =~= a@.skip(i + 1));
        assert(b@.skip(i as int).drop_first() =~= b@.skip(i + 1));
        i = i + 1;
    }
    if i == a.len() {
        i < b.len()
    } else if i == b.len() {
        false
    } else {
        (a[i] as u32) < (b[i] as u32)
    }
}

fn component_less(a: &Vec<char>, b: &Vec<char>) -> (r: bool)
    ensures
        r == component_lt(a@, b@),
{
    let ra = is_root_or_dot_rank(a);
    let rb = is_root_or_dot_rank(b);
    ra < rb || (ra == 3 && rb == 3 && chars_less(a, b))
}

/// Compares two component lists in path order.
pub fn components_less(a: &Vec<Vec<char>>, b: &Vec<Vec<char>>) -> (r: bool)
    ensures
        r == components_lt(char_views(a@), char_views(b@)),
{
    let ghost av = char_views(a@);
    let ghost bv = char_views(b@);
    let mut i: usize = 0;
    assert(av.skip(0) =~= av);
    assert(bv.skip(0) =~= bv);
    while i < a.len() && i < b.len() && same_chars(&a[i], &b[i])
        invariant
            i <= a@.len(),
            i <= b@.len(),
            av == char_views(a@),
            bv == char_views(b@),
            components_lt(av, bv) == components_lt(av.skip(i as int), bv.skip(i as int)),
        decreases a@.len() - i,
    {
        assert(av.skip(i as int).drop_first() =~= av.skip(i + 1));
        assert(bv.skip(i as int).drop_first() =~= bv.skip(i + 1));
        i = i + 1;
    }
    if i == a.len() {
        i < b.len()
    } else if i == b.len() {
        false
    } else {
        assert(av.skip(i as int)[0] == a@[i as int]@);
        assert(bv.skip(i as int)[0] == b@[i as int]@);
        component_less(&a[i], &b[i])
    }
}

/// Compares two component lists for equality.
pub fn same_components(a: &Vec<Vec<char>>, b: &Vec<Vec<char>>) -> (r: bool)
    ensures
        r == (char_views(a@) == char_views(b@)),
{
    if a.len() != b.len() {
        assert(char_views(a@).len() != char_views(b@).len());
        return false;
    }
    let mut i: usize = 0;
    while i < a.len()
        invariant
            i <= a@.len() == b@.len(),
            forall|j: int| 0 <= j < i ==> char_views(a@)[j] == char_views(b@)[j],
        decreases a@.len() - i,
    {
        if !same_chars(&a[i], &b[i]) {
            assert(char_views(a@)[i as int] != char_views(b@)[i as int]);
            return false;
        }
        i = i + 1;
    }
    assert(char_views(a@) =~= char_views(b@));
    true
}

} // verus!
