//! Choosing the saved workflows to offer from the files found in the workflow
//! scopes: the project's `.codex/workflows` directories from the working
//! directory up, then the personal one.

use vstd::prelude::*;

use crate::chat::SavedWorkflow;
use crate::text::chars_of;

verus! {

/// At most this many saved workflows are offered.
pub const MAX_SAVED_WORKFLOWS: usize = 100;

/// A regular file found below a workflow root.
pub struct ScannedFile {
    /// The path below the root, components joined by `/`.
    pub relative_path: String,
    /// The full path.
    pub absolute_path: String,
}

/// The regular files of one workflow root, in the order the walk met them.
pub struct ScannedRoot {
    /// Whether this root is the `.codex/workflows` directory of the working
    /// directory itself, whose workflows are shown by relative path.
    pub is_current_root: bool,
    pub files: Vec<ScannedFile>,
}

/// The last component of a relative path.
pub open spec fn file_name_from(p: Seq<char>, i: int) -> Seq<char>
    decreases i,
{
    if i <= 0 || i > p.len() {
        p
    } else if p[i - 1] == '/' {
        p.subrange(i, p.len() as int)
    } else {
        file_name_from(p, i - 1)
    }
}

pub open spec fn file_name(p: Seq<char>) -> Seq<char> {
    file_name_from(p, p.len() as int)
}

/// The file name has the extension `js` or `ts` as `Path::extension` reads
/// it: the part after its last dot, with something before that dot.
pub open spec fn has_workflow_extension(p: Seq<char>) -> bool {
    let f = file_name(p);
    &&& f.len() > 3
    &&& f[f.len() - 3] == '.'
    &&& (f[f.len() - 2] == 'j' || f[f.len() - 2] == 't')
    &&& f[f.len() - 1] == 's'
}

/// `s` with every backslash turned into a slash.
pub open spec fn slashed(s: Seq<char>) -> Seq<char> {
    s.map_values(|c: char| if c == '\\' { '/' } else { c })
}

/// The name a workflow file is offered under: its relative path without the
/// extension, with slashes as separators.
pub open spec fn workflow_name(p: Seq<char>) -> Seq<char> {
    slashed(p.subrange(0, p.len() - 3))
}

/// The path a workflow file is shown and launched by.
pub open spec fn display_path(is_current_root: bool, f: ScannedFile) -> Seq<char> {
    if is_current_root {
        ".codex/workflows/"@ + f.relative_path@
    } else {
        f.absolute_path@
    }
}

/// The candidates of a root's first files, as (name, path) pairs.
pub open spec fn root_candidates(is_current_root: bool, files: Seq<ScannedFile>) -> Seq<
    (Seq<char>, Seq<char>),
>
    decreases files.len(),
{
    if files.len() == 0 {
        Seq::empty()
    } else {
        let rest = root_candidates(is_current_root, files.drop_last());
        let f = files.last();
        if has_workflow_extension(f.relative_path@) && workflow_name(f.relative_path@).len() > 0 {
            rest.push((workflow_name(f.relative_path@), display_path(is_current_root, f)))
        } else {
            rest
        }
    }
}

/// The candidates of all roots, in order.
pub open spec fn all_candidates(roots: Seq<ScannedRoot>) -> Seq<(Seq<char>, Seq<char>)>
    decreases roots.len(),
{
    if roots.len() == 0 {
        Seq::empty()
    } else {
        all_candidates(roots.drop_last()) + root_candidates(
            roots.last().is_current_root,
            roots.last().files@,
        )
    }
}

pub open spec fn has_name(ws: Seq<(Seq<char>, Seq<char>)>, name: Seq<char>) -> bool {
    exists|i: int| 0 <= i < ws.len() && (#[trigger] ws[i]).0 == name
}

/// The candidates accepted in order: the first one of each name, at most
/// `MAX_SAVED_WORKFLOWS`.
pub open spec fn accepted(cands: Seq<(Seq<char>, Seq<char>)>) -> Seq<(Seq<char>, Seq<char>)>
    decreases cands.len(),
{
    if cands.len() == 0 {
        Seq::empty()
    } else {
        let prev = accepted(cands.drop_last());
        let c = cands.last();
        if prev.len() >= MAX_SAVED_WORKFLOWS || has_name(prev, c.0) {
            prev
        } else {
            prev.push(c)
        }
    }
}

/// Strict lexicographic order of texts by character.
pub open spec fn text_less(a: Seq<char>, b: Seq<char>) -> bool
    decreases a.len(),
{
    if a.len() == 0 {
        b.len() > 0
    } else if b.len() == 0 {
        false
    } else if a[0] != b[0] {
        (a[0] as u32) < (b[0] as u32)
    } else {
        text_less(a.drop_first(), b.drop_first())
    }
}

pub proof fn lemma_text_less_irreflexive(a: Seq<char>)
    ensures
        !text_less(a, a),
    decreases a.len(),
{
    if a.len() > 0 {
        lemma_text_less_irreflexive(a.drop_first());
    }
}

pub proof fn lemma_text_less_total(a: Seq<char>, b: Seq<char>)
    requires
        a != b,
    ensures
        text_less(a, b) || text_less(b, a),
    decreases a.len(),
{
    if a.len() == 0 {
        if b.len() == 0 {
            assert(a =~= b);
        }
    } else if b.len() == 0 {
    } else if a[0] != b[0] {
        vstd::utf8::char_u32_cast(a[0], a[0] as u32);
        vstd::utf8::char_u32_cast(b[0], b[0] as u32);
        assert((a[0] as u32) != (b[0] as u32));
    } else {
        if a.drop_first() =~= b.drop_first() {
            assert(a =~= seq![a[0]] + a.drop_first());
            assert(b =~= seq![b[0]] + b.drop_first());
            assert(false);
        }
        lemma_text_less_total(a.drop_first(), b.drop_first());
    }
}

pub proof fn lemma_text_less_transitive(a: Seq<char>, b: Seq<char>, c: Seq<char>)
    requires
        text_less(a, b),
        text_less(b, c),
    ensures
        text_less(a, c),
    decreases a.len(),
{
    if a.len() > 0 && b.len() > 0 && c.len() > 0 && a[0] == b[0] && b[0] == c[0] {
        lemma_text_less_transitive(a.drop_first(), b.drop_first(), c.drop_first());
    }
}

pub proof fn lemma_text_less_asymmetric(a: Seq<char>, b: Seq<char>)
    requires
        text_less(a, b),
    ensures
        !text_less(b, a),
    decreases a.len(),
{
    if a.len() > 0 && b.len() > 0 && a[0] == b[0] {
        lemma_text_less_asymmetric(a.drop_first(), b.drop_first());
    }
}

/// Whether `a` sorts before `b`.
pub fn name_less(a: &String, b: &String) -> (r: bool)
    ensures
        r == text_less(a@, b@),
{
    let x = chars_of(a.as_str());
    let y = chars_of(b.as_str());
    let mut i: usize = 0;
    assert(x@.subrange(0, x@.len() as int) =~= x@);
    assert(y@.subrange(0, y@.len() as int) =~= y@);
    while i < x.len() && i < y.len() && x[i] == y[i]
        invariant
            0 <= i <= x@.len(),
            i <= y@.len(),
            text_less(x@.subrange(i as int, x@.len() as int), y@.subrange(i as int, y@.len() as int))
                == text_less(x@, y@),
        decreases x@.len() - i,
    {
        proof {
            let xs = x@.subrange(i as int, x@.len() as int);
            let ys = y@.subrange(i as int, y@.len() as int);
            assert(xs.drop_first() =~= x@.subrange(i + 1, x@.len() as int));
            assert(ys.drop_first() =~= y@.subrange(i + 1, y@.len() as int));
        }
        i = i + 1;
    }
    if i >= x.len() {
        i < y.len()
    } else if i >= y.len() {
        false
    } else {
        (x[i] as u32) < (y[i] as u32)
    }
}

/// A saved workflow as a (name, path) pair.
pub open spec fn pair_of(w: SavedWorkflow) -> (Seq<char>, Seq<char>) {
    (w.name@, w.path@)
}

pub open spec fn pairs(ws: Seq<SavedWorkflow>) -> Seq<(Seq<char>, Seq<char>)> {
    ws.map_values(|w: SavedWorkflow| pair_of(w))
}

/// Names in strictly increasing order.
pub open spec fn sorted_by_name(ws: Seq<(Seq<char>, Seq<char>)>) -> bool {
    forall|i: int, j: int| 0 <= i < j < ws.len() ==> text_less(#[trigger] ws[i].0, #[trigger] ws[j].0)
}

/// `x` is among `s`.
pub open spec fn in_pairs(s: Seq<(Seq<char>, Seq<char>)>, x: (Seq<char>, Seq<char>)) -> bool {
    exists|j: int| 0 <= j < s.len() && s[j] == x
}

/// The same pairs, each once, in some order.
pub open spec fn same_pairs(a: Seq<(Seq<char>, Seq<char>)>, b: Seq<(Seq<char>, Seq<char>)>) -> bool {
    &&& a.len() == b.len()
    &&& forall|i: int| 0 <= i < a.len() ==> #[trigger] in_pairs(b, a[i])
    &&& forall|j: int| 0 <= j < b.len() ==> #[trigger] in_pairs(a, b[j])
}

/// No two workflows share a name.
pub open spec fn distinct_names(ws: Seq<(Seq<char>, Seq<char>)>) -> bool {
    forall|i: int, j: int| 0 <= i < j < ws.len() ==> (#[trigger] ws[i]).0 != (#[trigger] ws[j]).0
}

/// The accepted candidates have distinct names and are at most
/// `MAX_SAVED_WORKFLOWS`.
pub proof fn lemma_accepted(cands: Seq<(Seq<char>, Seq<char>)>)
    ensures
        distinct_names(accepted(cands)),
        accepted(cands).len() <= MAX_SAVED_WORKFLOWS,
    decreases cands.len(),
{
    if cands.len() > 0 {
        lemma_accepted(cands.drop_last());
        let prev = accepted(cands.drop_last());
        let c = cands.last();
        if !(prev.len() >= MAX_SAVED_WORKFLOWS || has_name(prev, c.0)) {
            let next = prev.push(c);
            assert forall|i: int, j: int| 0 <= i < j < next.len() implies (#[trigger] next[i]).0
                != (#[trigger] next[j]).0 by {
                if j == next.len() - 1 {
                    assert(next[i] == prev[i]);
                    if prev[i].0 == c.0 {
                        assert(has_name(prev, c.0));
                    }
                } else {
                    assert(next[i] == prev[i] && next[j] == prev[j]);
                }
            }
        }
    }
}

/// Whether the relative path has a `js` or `ts` extension.
fn workflow_extension(rel: &[char]) -> (r: bool)
    ensures
        r == has_workflow_extension(rel@),
        r ==> rel@.len() > 3,
{
    let n = rel.len();
    let mut i = n;
    while i > 0 && rel[i - 1] != '/'
        invariant
            n == rel@.len(),
            0 <= i <= n,
            file_name_from(rel@, i as int) == file_name(rel@),
        decreases i,
    {
        i = i - 1;
    }
    proof {
        assert(rel@.subrange(0, n as int) =~= rel@);
    }
    let f = n - i;
    assert(file_name(rel@) == rel@.subrange(i as int, n as int));
    f > 3 && rel[n - 3] == '.' && (rel[n - 2] == 'j' || rel[n - 2] == 't') && rel[n - 1] == 's'
}

/// The name a workflow file is offered under.
fn workflow_name_of(rel: &[char]) -> (r: String)
    requires
        rel@.len() >= 3,
    ensures
        r@ == workflow_name(rel@),
{
    let end = rel.len() - 3;
    let mut name = String::new();
    let mut i: usize = 0;
    while i < end
        invariant
            end == rel@.len() - 3,
            0 <= i <= end,
            name@ == slashed(rel@.subrange(0, i as int)),
        decreases end - i,
    {
        let c = if rel[i] == '\\' {
            '/'
        } else {
            rel[i]
        };
        name.push(c);
        proof {
            assert(slashed(rel@.subrange(0, i + 1)) =~= slashed(rel@.subrange(0, i as int)).push(c));
        }
        i = i + 1;
    }
    name
}

/// The path a workflow file is shown and launched by.
fn display_path_of(is_current_root: bool, f: &ScannedFile) -> (r: String)
    ensures
        r@ == display_path(is_current_root, *f),
{
    if is_current_root {
        let mut path = String::from_str(".codex/workflows/");
        path.append(f.relative_path.as_str());
        path
    } else {
        f.absolute_path.clone()
    }
}

fn contains_name(ws: &Vec<SavedWorkflow>, name: &String) -> (r: bool)
    ensures
        r == has_name(pairs(ws@), name@),
{
    let mut i: usize = 0;
    while i < ws.len()
        invariant
            0 <= i <= ws@.len(),
            forall|m: int| 0 <= m < i ==> (#[trigger] ws@[m]).name@ != name@,
        decreases ws@.len() - i,
    {
        if ws[i].name == *name {
            assert(pairs(ws@)[i as int].0 == name@);
            return true;
        }
        i = i + 1;
    }
    proof {
        if has_name(pairs(ws@), name@) {
            let k = choose|k: int| 0 <= k < pairs(ws@).len() && (#[trigger] pairs(ws@)[k]).0 == name@;
            assert(ws@[k].name@ == name@);
        }
    }
    false
}

/// The workflows offered, in the order the walk found them: files with a
/// `js` or `ts` extension and a non-empty name, the first of each name, at
/// most `MAX_SAVED_WORKFLOWS`.
pub fn accept_saved_workflows(roots: &Vec<ScannedRoot>) -> (r: Vec<SavedWorkflow>)
    ensures
        pairs(r@) == accepted(all_candidates(roots@)),
{
    let mut out: Vec<SavedWorkflow> = Vec::new();
    let mut r: usize = 0;
    proof {
        assert(pairs(out@) =~= Seq::<(Seq<char>, Seq<char>)>::empty());
        assert(roots@.take(0) =~= Seq::<ScannedRoot>::empty());
    }
    while r < roots.len()
        invariant
            0 <= r <= roots@.len(),
            pairs(out@) == accepted(all_candidates(roots@.take(r as int))),
        decreases roots@.len() - r,
    {
        let root = &roots[r];
        let ghost prefix = all_candidates(roots@.take(r as int));
        let mut f: usize = 0;
        proof {
            assert(root.files@.take(0) =~= Seq::<ScannedFile>::empty());
            assert(prefix + root_candidates(root.is_current_root, root.files@.take(0)) =~= prefix);
        }
        while f < root.files.len()
            invariant
                0 <= f <= root.files@.len(),
                prefix == all_candidates(roots@.take(r as int)),
                pairs(out@) == accepted(prefix + root_candidates(root.is_current_root, root.files@.take(f as int))),
            decreases root.files@.len() - f,
        {
            let file = &root.files[f];
            let ghost before = prefix + root_candidates(root.is_current_root, root.files@.take(f as int));
            proof {
                assert(root.files@.take(f + 1).drop_last() =~= root.files@.take(f as int));
                assert(root.files@.take(f + 1).last() == *file);
            }
            let rel = chars_of(file.relative_path.as_str());
            if workflow_extension(rel.as_slice()) {
                let name = workflow_name_of(rel.as_slice());
                if chars_of(name.as_str()).len() > 0 {
                    let ghost c = (name@, display_path(root.is_current_root, *file));
                    proof {
                        let after = prefix + root_candidates(root.is_current_root, root.files@.take(f + 1));
                        assert(after =~= before.push(c));
                        assert(after.drop_last() =~= before);
                    }
                    if out.len() < MAX_SAVED_WORKFLOWS && !contains_name(&out, &name) {
                        let path = display_path_of(root.is_current_root, file);
                        let ghost out_before = out@;
                        out.push(SavedWorkflow { name, path });
                        proof {
                            assert(pairs(out@) =~= pairs(out_before).push(c));
                        }
                    }
                } else {
                    proof {
                        let after = prefix + root_candidates(root.is_current_root, root.files@.take(f + 1));
                        assert(after =~= before);
                    }
                }
            } else {
                proof {
                    let after = prefix + root_candidates(root.is_current_root, root.files@.take(f + 1));
                    assert(after =~= before);
                }
            }
            f = f + 1;
        }
        proof {
            assert(root.files@.take(root.files@.len() as int) =~= root.files@);
            assert(roots@.take(r + 1).drop_last() =~= roots@.take(r as int));
            assert(roots@.take(r + 1).last() == *root);
        }
        r = r + 1;
    }
    proof {
        assert(roots@.take(roots@.len() as int) =~= roots@);
    }
    out
}

pub proof fn lemma_insert_sorted(s: Seq<(Seq<char>, Seq<char>)>, p: int, x: (Seq<char>, Seq<char>))
    requires
        sorted_by_name(s),
        0 <= p <= s.len(),
        forall|q: int| 0 <= q < p ==> text_less(#[trigger] s[q].0, x.0),
        p < s.len() ==> text_less(x.0, s[p].0),
    ensures
        sorted_by_name(s.insert(p, x)),
{
    let t = s.insert(p, x);
    assert forall|i: int, j: int| 0 <= i < j < t.len() implies text_less(
        #[trigger] t[i].0,
        #[trigger] t[j].0,
    ) by {
        if j < p {
            assert(t[i] == s[i] && t[j] == s[j]);
        } else if j == p {
            assert(t[i] == s[i] && t[j] == x);
        } else if i < p {
            assert(t[i] == s[i] && t[j] == s[j - 1]);
            if j - 1 > p {
                lemma_text_less_transitive(x.0, s[p].0, s[j - 1].0);
            }
            lemma_text_less_transitive(s[i].0, x.0, s[j - 1].0);
        } else if i == p {
            assert(t[i] == x && t[j] == s[j - 1]);
            if j - 1 > p {
                lemma_text_less_transitive(x.0, s[p].0, s[j - 1].0);
            }
        } else {
            assert(t[i] == s[i - 1] && t[j] == s[j - 1]);
        }
    }
}

pub proof fn lemma_insert_same_pairs(
    s: Seq<(Seq<char>, Seq<char>)>,
    t: Seq<(Seq<char>, Seq<char>)>,
    p: int,
    x: (Seq<char>, Seq<char>),
)
    requires
        same_pairs(s, t),
        0 <= p <= s.len(),
    ensures
        same_pairs(s.insert(p, x), t.push(x)),
{
    let np = s.insert(p, x);
    let nt = t.push(x);
    assert forall|a: int| 0 <= a < np.len() implies #[trigger] in_pairs(nt, np[a]) by {
        if a < p {
            assert(in_pairs(t, s[a]));
            let b = choose|b: int| 0 <= b < t.len() && t[b] == s[a];
            assert(nt[b] == np[a]);
        } else if a == p {
            assert(nt[t.len() as int] == np[a]);
        } else {
            assert(in_pairs(t, s[a - 1]));
            let b = choose|b: int| 0 <= b < t.len() && t[b] == s[a - 1];
            assert(nt[b] == np[a]);
        }
    }
    assert forall|b: int| 0 <= b < nt.len() implies #[trigger] in_pairs(np, nt[b]) by {
        if b < t.len() {
            assert(in_pairs(s, t[b]));
            let a = choose|a: int| 0 <= a < s.len() && s[a] == t[b];
            if a < p {
                assert(np[a] == nt[b]);
            } else {
                assert(np[a + 1] == nt[b]);
            }
        } else {
            assert(np[p] == nt[b]);
        }
    }
}

pub proof fn lemma_insert_position(
    s: Seq<(Seq<char>, Seq<char>)>,
    taken: Seq<(Seq<char>, Seq<char>)>,
    all: Seq<(Seq<char>, Seq<char>)>,
    i: int,
    p: int,
    x: (Seq<char>, Seq<char>),
)
    requires
        distinct_names(all),
        0 <= i < all.len(),
        taken == all.take(i),
        x == all[i],
        sorted_by_name(s),
        same_pairs(s, taken),
        0 <= p <= s.len(),
        forall|q: int| 0 <= q < p ==> text_less(#[trigger] s[q].0, x.0),
        p < s.len() ==> !text_less(s[p].0, x.0),
    ensures
        sorted_by_name(s.insert(p, x)),
{
    if p < s.len() {
        assert(in_pairs(taken, s[p]));
        let j = choose|j: int| 0 <= j < taken.len() && taken[j] == s[p];
        assert(taken[j] == all[j]);
        assert(all[j].0 != all[i].0);
        lemma_text_less_total(x.0, s[p].0);
    }
    lemma_insert_sorted(s, p, x);
}

/// The workflows ordered by name.
pub fn sort_by_name(ws: Vec<SavedWorkflow>) -> (r: Vec<SavedWorkflow>)
    requires
        distinct_names(pairs(ws@)),
    ensures
        sorted_by_name(pairs(r@)),
        same_pairs(pairs(r@), pairs(ws@)),
{
    let mut out: Vec<SavedWorkflow> = Vec::new();
    let mut i: usize = 0;
    proof {
        assert(pairs(ws@.take(0)) =~= Seq::<(Seq<char>, Seq<char>)>::empty());
        assert(pairs(out@) =~= Seq::<(Seq<char>, Seq<char>)>::empty());
    }
    while i < ws.len()
        invariant
            0 <= i <= ws@.len(),
            distinct_names(pairs(ws@)),
            sorted_by_name(pairs(out@)),
            same_pairs(pairs(out@), pairs(ws@.take(i as int))),
        decreases ws@.len() - i,
    {
        let w = SavedWorkflow { name: ws[i].name.clone(), path: ws[i].path.clone() };
        let ghost x = pair_of(w);
        let ghost old_pairs = pairs(out@);
        let ghost taken = pairs(ws@.take(i as int));
        assert(taken =~= pairs(ws@).take(i as int));
        let mut p: usize = 0;
        while p < out.len() && name_less(&out[p].name, &w.name)
            invariant
                0 <= p <= out@.len(),
                old_pairs == pairs(out@),
                x == pair_of(w),
                forall|q: int| 0 <= q < p ==> text_less(#[trigger] pairs(out@)[q].0, x.0),
            decreases out@.len() - p,
        {
            assert(pairs(out@)[p as int].0 == out@[p as int].name@);
            p = p + 1;
        }
        proof {
            lemma_insert_position(old_pairs, taken, pairs(ws@), i as int, p as int, x);
        }
        out.insert(p, w);
        proof {
            assert(pairs(out@) =~= old_pairs.insert(p as int, x));
            assert(pairs(ws@.take(i + 1)) =~= taken.push(x));
            lemma_insert_same_pairs(old_pairs, taken, p as int, x);
        }
        i = i + 1;
    }
    proof {
        assert(ws@.take(ws@.len() as int) =~= ws@);
    }
    out
}

/// The saved workflows to offer, ordered by name.
pub fn collect_saved_workflows(roots: &Vec<ScannedRoot>) -> (r: Vec<SavedWorkflow>)
    ensures
        sorted_by_name(pairs(r@)),
        same_pairs(pairs(r@), accepted(all_candidates(roots@))),
        r@.len() <= MAX_SAVED_WORKFLOWS,
{
    let found = accept_saved_workflows(roots);
    proof {
        lemma_accepted(all_candidates(roots@));
    }
    sort_by_name(found)
}

} // verus!
