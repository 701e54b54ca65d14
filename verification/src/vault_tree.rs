//! The rows of the vault tree in the artifact sidebar: each directory once, before the files
//! under it, indented by depth, with hidden entries and the insides of folded directories
//! left out.
use vstd::prelude::*;
use crate::artifacts::{ArtifactEntry, ArtifactHandle, VaultNode, VaultNodeKind, is_hidden_component, is_hidden_spec};
use crate::name_set::{names_set, names_view, same_text, set_contains};
use crate::name_order::{name_before, str_before};
use crate::text::{concat_str, chars_of};

verus! {

/// The abstract form of a vault row.
pub struct NodeView {
    pub path: Seq<char>,
    pub depth: nat,
    pub kind: VaultNodeKind,
    pub label: Seq<char>,
    pub expanded: bool,
}

/// The abstract form of a vault row.
pub open spec fn node_view(n: VaultNode) -> NodeView {
    NodeView { path: n.path@, depth: n.depth as nat, kind: n.kind, label: n.label@, expanded: n.expanded }
}

/// The abstract form of the vault rows.
pub open spec fn nodes_view(v: Seq<VaultNode>) -> Seq<NodeView> {
    v.map_values(|n: VaultNode| node_view(n))
}

/// The path `parent` extended by component `c`: `c` alone after an empty path, `c` right
/// after a path that ends in a slash, else joined with a slash.
pub open spec fn path_push(parent: Seq<char>, c: Seq<char>) -> Seq<char> {
    if parent.len() == 0 {
        c
    } else if parent.last() == '/' {
        parent + c
    } else {
        parent + seq!['/'] + c
    }
}

/// The rows so far and the directories already listed.
pub struct TreeState {
    pub nodes: Seq<NodeView>,
    pub seen: Set<Seq<char>>,
}

/// The rows after components `comps[idx..]` of a file under `parent`: the last component is
/// the file's row unless hidden; a hidden directory hides what is under it; a directory gets
/// a row the first time it is met (expanded unless folded), and what is under a folded
/// directory is left out.
pub open spec fn file_rows(st: TreeState, comps: Seq<Seq<char>>, idx: nat, parent: Seq<char>, folded: Set<Seq<char>>) -> TreeState
    decreases comps.len() - idx,
{
    if idx >= comps.len() {
        st
    } else {
        let name = comps[idx as int];
        let p = path_push(parent, name);
        if idx + 1 == comps.len() {
            if is_hidden_spec(name) {
                st
            } else {
                TreeState {
                    nodes: st.nodes.push(NodeView { path: p, depth: idx, kind: VaultNodeKind::File, label: name, expanded: false }),
                    seen: st.seen,
                }
            }
        } else if is_hidden_spec(name) {
            st
        } else {
            let st2 = if st.seen.contains(p) {
                st
            } else {
                TreeState {
                    nodes: st.nodes.push(NodeView { path: p, depth: idx, kind: VaultNodeKind::Directory, label: name, expanded: !folded.contains(p) }),
                    seen: st.seen.insert(p),
                }
            };
            if folded.contains(p) { st2 } else { file_rows(st2, comps, idx + 1, p, folded) }
        }
    }
}

/// The rows after the files `files[i..]`, each given by its path components.
pub open spec fn files_rows(st: TreeState, files: Seq<Seq<Seq<char>>>, i: nat, folded: Set<Seq<char>>) -> TreeState
    decreases files.len() - i,
{
    if i >= files.len() {
        st
    } else {
        files_rows(file_rows(st, files[i as int], 0, Seq::empty(), folded), files, i + 1, folded)
    }
}

/// The rows of the vault tree for `files` (each given by its path components, in the order
/// they are listed) with the directories `folded` folded.
pub open spec fn vault_rows(files: Seq<Seq<Seq<char>>>, folded: Set<Seq<char>>) -> Seq<NodeView> {
    files_rows(TreeState { nodes: Seq::empty(), seen: Set::empty() }, files, 0, folded).nodes
}

/// The abstract form of the files' components.
pub open spec fn files_view(v: Seq<Vec<String>>) -> Seq<Seq<Seq<char>>> {
    v.map_values(|f: Vec<String>| names_view(f@))
}

/// `parent` extended by component `c` (see `path_push`).
fn push_path(parent: &String, c: &str) -> (r: String)
    ensures
        r@ == path_push(parent@, c@),
{
    let pc = chars_of(parent.as_str());
    if pc.len() == 0 {
        String::from_str(c)
    } else if pc[pc.len() - 1] == '/' {
        concat_str(parent.clone(), c)
    } else {
        let with_slash = concat_str(parent.clone(), "/");
        proof {
            reveal_strlit("/");
        }
        concat_str(with_slash, c)
    }
}

/// Adds the rows of one file (see `file_rows`).
fn add_file_rows(nodes: &mut Vec<VaultNode>, seen: &mut Vec<String>, comps: &Vec<String>, folded: &Vec<String>)
    ensures
        ({
            let r = file_rows(
                TreeState { nodes: nodes_view(old(nodes)@), seen: names_set(old(seen)@) },
                names_view(comps@),
                0,
                Seq::empty(),
                folded_paths(folded@),
            );
            &&& nodes_view(final(nodes)@) == r.nodes
            &&& names_set(final(seen)@) == r.seen
        }),
{
    let ghost cv = names_view(comps@);
    let ghost fs = folded_paths(folded@);
    let ghost target = file_rows(TreeState { nodes: nodes_view(nodes@), seen: names_set(seen@) }, cv, 0, Seq::empty(), fs);
    let mut parent = String::new();
    let mut idx: usize = 0;
    while idx < comps.len()
        invariant_except_break
            file_rows(TreeState { nodes: nodes_view(nodes@), seen: names_set(seen@) }, cv, idx as nat, parent@, fs) == target,
        invariant
            idx <= comps.len(),
            cv == names_view(comps@),
            fs == folded_paths(folded@),
        ensures
            (TreeState { nodes: nodes_view(nodes@), seen: names_set(seen@) }) == target,
        decreases comps.len() - idx,
    {
        let name = &comps[idx];
        proof {
            assert(cv[idx as int] == name@);
        }
        let p = push_path(&parent, name.as_str());
        if idx + 1 == comps.len() {
            if !is_hidden_component(name.as_str()) {
                let ghost before = nodes_view(nodes@);
                nodes.push(VaultNode { path: p, depth: idx, kind: VaultNodeKind::File, label: name.clone(), expanded: false });
                proof {
                    assert(nodes_view(nodes@) =~= before.push(NodeView { path: path_push(parent@, name@), depth: idx as nat, kind: VaultNodeKind::File, label: name@, expanded: false }));
                }
            }
            break;
        }
        if is_hidden_component(name.as_str()) {
            break;
        }
        let is_folded = dirs_contain(folded, p.as_str());
        if !set_contains(seen, p.as_str()) {
            let ghost before = nodes_view(nodes@);
            let ghost seen_before = seen@;
            nodes.push(VaultNode { path: p.clone(), depth: idx, kind: VaultNodeKind::Directory, label: name.clone(), expanded: !is_folded });
            seen.push(p.clone());
            proof {
                assert(nodes_view(nodes@) =~= before.push(NodeView { path: p@, depth: idx as nat, kind: VaultNodeKind::Directory, label: name@, expanded: !is_folded }));
                assert(names_view(seen@) =~= names_view(seen_before).push(p@));
                names_view(seen_before).lemma_push_to_set_commute(p@);
            }
        }
        if is_folded {
            break;
        }
        parent = p;
        idx = idx + 1;
    }
}

/// The rows of the vault tree (see `vault_rows`): `files` gives each file's path components,
/// in the order the tree lists them, `folded` the folded directories' paths.
pub fn lay_out_vault_files(files: &Vec<Vec<String>>, folded: &Vec<String>) -> (r: Vec<VaultNode>)
    ensures
        nodes_view(r@) == vault_rows(files_view(files@), folded_paths(folded@)),
{
    let ghost fv = files_view(files@);
    let ghost fs = folded_paths(folded@);
    let mut nodes: Vec<VaultNode> = Vec::new();
    let mut seen: Vec<String> = Vec::new();
    proof {
        assert(nodes_view(nodes@) =~= Seq::<NodeView>::empty());
        assert(names_set(seen@) =~= Set::<Seq<char>>::empty());
    }
    let mut i: usize = 0;
    while i < files.len()
        invariant
            i <= files.len(),
            fv == files_view(files@),
            fs == folded_paths(folded@),
            files_rows(TreeState { nodes: nodes_view(nodes@), seen: names_set(seen@) }, fv, i as nat, fs)
                == files_rows(TreeState { nodes: Seq::empty(), seen: Set::empty() }, fv, 0, fs),
        decreases files.len() - i,
    {
        proof {
            assert(fv[i as int] == names_view(files@[i as int]@));
        }
        add_file_rows(&mut nodes, &mut seen, &files[i], folded);
        i = i + 1;
    }
    nodes
}

/// The rank of a path component in the order of paths: the root first, then `.`, then
/// `..`, then names.
pub open spec fn component_rank(c: Seq<char>) -> nat {
    if c == "/"@ {
        0
    } else if c == "."@ {
        1
    } else if c == ".."@ {
        2
    } else {
        3
    }
}

/// Whether component `x` sorts before component `y`: by rank, names by their bytes.
pub open spec fn component_before(x: Seq<char>, y: Seq<char>) -> bool {
    component_rank(x) < component_rank(y) || (component_rank(x) == 3 && component_rank(y) == 3 && name_before(x, y))
}

/// Whether path `a` sorts before path `b`, comparing components from `i` on: at the first
/// component that differs, by `component_before`; a path sorts before the longer paths it
/// begins.
pub open spec fn path_before(a: Seq<Seq<char>>, b: Seq<Seq<char>>, i: nat) -> bool
    decreases a.len() - i,
{
    if i >= a.len() {
        i < b.len()
    } else if i >= b.len() {
        false
    } else if a[i as int] == b[i as int] {
        path_before(a, b, i + 1)
    } else {
        component_before(a[i as int], b[i as int])
    }
}

/// `s` with `x` inserted after every path that does not sort after it.
pub open spec fn insert_path(s: Seq<Seq<Seq<char>>>, x: Seq<Seq<char>>) -> Seq<Seq<Seq<char>>>
    decreases s.len(),
{
    if s.len() == 0 {
        seq![x]
    } else if path_before(x, s.last(), 0) {
        insert_path(s.drop_last(), x).push(s.last())
    } else {
        s.push(x)
    }
}

/// `s` sorted by `path_before`, equal paths keeping their order.
pub open spec fn sorted_paths(s: Seq<Seq<Seq<char>>>) -> Seq<Seq<Seq<char>>>
    decreases s.len(),
{
    if s.len() == 0 {
        s
    } else {
        insert_path(sorted_paths(s.drop_last()), s.last())
    }
}

proof fn lemma_insert_path_at(s: Seq<Seq<Seq<char>>>, x: Seq<Seq<char>>, j: int)
    requires
        0 <= j <= s.len(),
        forall|m: int| j <= m < s.len() ==> path_before(x, #[trigger] s[m], 0),
        j == 0 || !path_before(x, s[j - 1], 0),
    ensures
        insert_path(s, x) == s.insert(j, x),
    decreases s.len(),
{
    if s.len() == 0 {
        assert(s.insert(j, x) =~= seq![x]);
    } else if j == s.len() {
        assert(s.insert(j, x) =~= s.push(x));
    } else {
        let t = s.drop_last();
        assert(path_before(x, s[s.len() - 1], 0));
        assert forall|m: int| j <= m < t.len() implies path_before(x, #[trigger] t[m], 0) by {
            assert(t[m] == s[m]);
        }
        lemma_insert_path_at(t, x, j);
        assert(s.insert(j, x) =~= t.insert(j, x).push(s.last()));
    }
}

/// The rank of a component (see `component_rank`).
fn rank_of(c: &str) -> (r: u8)
    ensures
        r == component_rank(c@),
{
    proof {
        reveal_strlit("/");
        reveal_strlit(".");
        reveal_strlit("..");
    }
    if same_text(c, "/") {
        0
    } else if same_text(c, ".") {
        1
    } else if same_text(c, "..") {
        2
    } else {
        3
    }
}

/// Whether path `a` sorts before path `b` (see `path_before`).
fn path_sorts_before(a: &Vec<String>, b: &Vec<String>) -> (r: bool)
    ensures
        r == path_before(names_view(a@), names_view(b@), 0),
{
    let ghost av = names_view(a@);
    let ghost bv = names_view(b@);
    let mut i: usize = 0;
    while i < a.len() && i < b.len() && same_text(a[i].as_str(), b[i].as_str())
        invariant
            i <= a.len(),
            i <= b.len(),
            av == names_view(a@),
            bv == names_view(b@),
            path_before(av, bv, i as nat) == path_before(av, bv, 0),
        decreases a.len() - i,
    {
        proof {
            assert(av[i as int] == a@[i as int]@);
            assert(bv[i as int] == b@[i as int]@);
        }
        i = i + 1;
    }
    if i >= a.len() {
        return i < b.len();
    }
    if i >= b.len() {
        return false;
    }
    proof {
        assert(av[i as int] == a@[i as int]@);
        assert(bv[i as int] == b@[i as int]@);
    }
    let ra = rank_of(a[i].as_str());
    let rb = rank_of(b[i].as_str());
    ra < rb || (ra == 3 && rb == 3 && str_before(a[i].as_str(), b[i].as_str()))
}

/// Sorts paths given by their components (see `sorted_paths`).
pub fn sort_paths(v: &mut Vec<Vec<String>>)
    ensures
        files_view(final(v)@) == sorted_paths(files_view(old(v)@)),
{
    let mut src: Vec<Vec<String>> = Vec::new();
    std::mem::swap(v, &mut src);
    let ghost orig = files_view(src@);
    let ghost mut k: int = 0;
    let mut out: Vec<Vec<String>> = Vec::new();
    assert(orig.take(0) =~= Seq::<Seq<Seq<char>>>::empty());
    assert(files_view(out@) =~= Seq::<Seq<Seq<char>>>::empty());
    assert(files_view(src@) =~= orig.skip(0));
    while src.len() > 0
        invariant
            0 <= k <= orig.len(),
            files_view(src@) == orig.skip(k),
            files_view(out@) == sorted_paths(orig.take(k)),
        decreases src@.len(),
    {
        let ghost src_before = files_view(src@);
        proof {
            assert(src_before.len() == src@.len());
            assert(k < orig.len());
            assert(src_before[0] == names_view(src@[0]@));
            assert(orig.skip(k)[0] == orig[k]);
        }
        let ghost raw_before = src@;
        let x = src.remove(0);
        proof {
            assert(names_view(x@) == orig[k]);
            assert(src@ =~= raw_before.subrange(1, raw_before.len() as int));
            assert forall|m: int| 0 <= m < src@.len() implies #[trigger] files_view(src@)[m] == orig.skip(k + 1)[m] by {
                assert(files_view(src@)[m] == names_view(raw_before[m + 1]@));
                assert(src_before[m + 1] == names_view(raw_before[m + 1]@));
                assert(src_before[m + 1] == orig.skip(k)[m + 1]);
            }
        }
        let mut j: usize = out.len();
        while j > 0 && path_sorts_before(&x, &out[j - 1])
            invariant
                j <= out@.len(),
                forall|m: int| j <= m < out@.len() ==> path_before(names_view(x@), #[trigger] files_view(out@)[m], 0),
            decreases j,
        {
            proof {
                assert(files_view(out@)[j - 1] == names_view(out@[j - 1]@));
            }
            j = j - 1;
        }
        proof {
            if j > 0 {
                assert(files_view(out@)[j - 1] == names_view(out@[j - 1]@));
            }
            lemma_insert_path_at(files_view(out@), names_view(x@), j as int);
            assert(orig.take(k + 1).drop_last() =~= orig.take(k));
            assert(orig.take(k + 1).last() == names_view(x@));
            assert(files_view(src@) =~= orig.skip(k + 1));
        }
        let ghost out_before = files_view(out@);
        out.insert(j, x);
        proof {
            assert(files_view(out@) =~= out_before.insert(j as int, orig[k]));
            k = k + 1;
        }
    }
    proof {
        assert(orig.take(k) =~= orig);
    }
    *v = out;
}

/// The rows of the vault tree for the vault files `files`, each given by its path
/// components: the files sorted by path (see `sorted_paths`), then laid out as `vault_rows`
/// says with the directories `folded` folded.
pub fn vault_tree_rows(files: Vec<Vec<String>>, folded: &Vec<String>) -> (r: Vec<VaultNode>)
    ensures
        nodes_view(r@) == vault_rows(sorted_paths(files_view(files@)), folded_paths(folded@)),
{
    let mut sorted = files;
    sort_paths(&mut sorted);
    lay_out_vault_files(&sorted, folded)
}

/// The pieces of `s[i..]` between slashes, after `acc`, the piece begun being `cur`.
pub open spec fn split_slash_from(s: Seq<char>, i: nat, cur: Seq<char>, acc: Seq<Seq<char>>) -> Seq<Seq<char>>
    decreases s.len() - i,
{
    if i >= s.len() {
        acc.push(cur)
    } else if s[i as int] == '/' {
        split_slash_from(s, i + 1, Seq::empty(), acc.push(cur))
    } else {
        split_slash_from(s, i + 1, cur.push(s[i as int]), acc)
    }
}

/// The pieces of `segs[i..]` that name something, after `acc`: those neither empty nor `.`.
pub open spec fn named_pieces(segs: Seq<Seq<char>>, i: nat, acc: Seq<Seq<char>>) -> Seq<Seq<char>>
    decreases segs.len() - i,
{
    if i >= segs.len() {
        acc
    } else if segs[i as int].len() > 0 && segs[i as int] != "."@ {
        named_pieces(segs, i + 1, acc.push(segs[i as int]))
    } else {
        named_pieces(segs, i + 1, acc)
    }
}

/// The components of a path written with slashes: the root `/` first for a path that starts
/// with a slash, or `.` for one whose first piece is `.`; then the pieces between slashes,
/// leaving out empty ones (repeated and trailing slashes) and `.`.
pub open spec fn path_components(s: Seq<char>) -> Seq<Seq<char>> {
    let segs = split_slash_from(s, 0, Seq::empty(), Seq::empty());
    let lead: Seq<Seq<char>> = if s.len() > 0 && s[0] == '/' {
        seq!["/"@]
    } else if segs[0] == "."@ {
        seq!["."@]
    } else {
        Seq::empty()
    };
    named_pieces(segs, 0, lead)
}

proof fn lemma_split_nonempty(s: Seq<char>, i: nat, cur: Seq<char>, acc: Seq<Seq<char>>)
    ensures
        split_slash_from(s, i, cur, acc).len() > acc.len(),
        split_slash_from(s, i, cur, acc).subrange(0, acc.len() as int) == acc,
    decreases s.len() - i,
{
    if i < s.len() {
        if s[i as int] == '/' {
            lemma_split_nonempty(s, i + 1, Seq::empty(), acc.push(cur));
            let r = split_slash_from(s, i + 1, Seq::empty(), acc.push(cur));
            assert(r.subrange(0, acc.len() as int) =~= r.subrange(0, (acc.len() + 1) as int).subrange(0, acc.len() as int));
            assert(acc.push(cur).subrange(0, acc.len() as int) =~= acc);
        } else {
            lemma_split_nonempty(s, i + 1, cur.push(s[i as int]), acc);
        }
    } else {
        assert(acc.push(cur).subrange(0, acc.len() as int) =~= acc);
    }
}

/// The pieces of a path between slashes (see `split_slash_from`).
fn split_slash(path: &str) -> (r: Vec<String>)
    ensures
        names_view(r@) == split_slash_from(path@, 0, Seq::empty(), Seq::empty()),
{
    let cs = chars_of(path);
    let mut pieces: Vec<String> = Vec::new();
    let mut cur: Vec<char> = Vec::new();
    let mut i: usize = 0;
    proof {
        assert(names_view(pieces@) =~= Seq::<Seq<char>>::empty());
    }
    while i < cs.len()
        invariant
            i <= cs.len(),
            cs@ == path@,
            split_slash_from(cs@, i as nat, cur@, names_view(pieces@)) == split_slash_from(path@, 0, Seq::empty(), Seq::empty()),
        decreases cs.len() - i,
    {
        if cs[i] == '/' {
            let ghost before = names_view(pieces@);
            let piece = crate::text::string_from_chars(cur.as_slice());
            pieces.push(piece);
            cur = Vec::new();
            proof {
                assert(names_view(pieces@) =~= before.push(piece@));
                assert(cur@ =~= Seq::<char>::empty());
            }
        } else {
            cur.push(cs[i]);
        }
        i = i + 1;
    }
    let ghost before = names_view(pieces@);
    let piece = crate::text::string_from_chars(cur.as_slice());
    pieces.push(piece);
    proof {
        assert(names_view(pieces@) =~= before.push(piece@));
    }
    pieces
}

/// The components of a path written with slashes (see `path_components`).
pub fn components_of(path: &str) -> (r: Vec<String>)
    ensures
        names_view(r@) == path_components(path@),
{
    let segs = split_slash(path);
    let ghost sv = names_view(segs@);
    proof {
        lemma_split_nonempty(path@, 0, Seq::empty(), Seq::empty());
        assert(sv[0] == segs@[0]@);
        reveal_strlit("/");
        reveal_strlit(".");
    }
    let cs = chars_of(path);
    let mut out: Vec<String> = Vec::new();
    if cs.len() > 0 && cs[0] == '/' {
        out.push(String::from_str("/"));
    } else if same_text(segs[0].as_str(), ".") {
        out.push(String::from_str("."));
    }
    let ghost lead = names_view(out@);
    proof {
        let l: Seq<Seq<char>> = if path@.len() > 0 && path@[0] == '/' {
            seq!["/"@]
        } else if sv[0] == "."@ {
            seq!["."@]
        } else {
            Seq::empty()
        };
        assert(lead =~= l);
    }
    let mut i: usize = 0;
    while i < segs.len()
        invariant
            i <= segs.len(),
            sv == names_view(segs@),
            named_pieces(sv, i as nat, names_view(out@)) == named_pieces(sv, 0, lead),
        decreases segs.len() - i,
    {
        proof {
            assert(sv[i as int] == segs@[i as int]@);
            reveal_strlit(".");
        }
        if chars_of(segs[i].as_str()).len() > 0 && !same_text(segs[i].as_str(), ".") {
            let ghost before = names_view(out@);
            out.push(segs[i].clone());
            proof {
                assert(names_view(out@) =~= before.push(sv[i as int]));
            }
        }
        i = i + 1;
    }
    out
}

/// The rows of the vault tree for vault files at `paths` (written with slashes): each path
/// taken apart into its components, the paths sorted, then laid out with the directories
/// `folded` folded (see `vault_tree_rows`).
pub fn vault_tree_for(paths: &Vec<String>, folded: &Vec<String>) -> (r: Vec<VaultNode>)
    ensures
        nodes_view(r@) == vault_rows(
            sorted_paths(names_view(paths@).map_values(|p: Seq<char>| path_components(p))),
            folded_paths(folded@),
        ),
{
    let ghost pv = names_view(paths@).map_values(|p: Seq<char>| path_components(p));
    let mut files: Vec<Vec<String>> = Vec::new();
    let mut i: usize = 0;
    while i < paths.len()
        invariant
            i <= paths.len(),
            pv == names_view(paths@).map_values(|p: Seq<char>| path_components(p)),
            files_view(files@) == pv.take(i as int),
        decreases paths.len() - i,
    {
        let comps = components_of(paths[i].as_str());
        let ghost before = files_view(files@);
        files.push(comps);
        proof {
            assert(files_view(files@) =~= before.push(names_view(comps@)));
            assert(pv[i as int] == path_components(paths@[i as int]@));
            assert(pv.take(i + 1) =~= pv.take(i as int).push(pv[i as int]));
        }
        i = i + 1;
    }
    proof {
        assert(pv.take(i as int) =~= pv);
    }
    vault_tree_rows(files, folded)
}

/// Whether the directory rows of `st` are all recorded as seen and no two of them share a
/// path.
pub open spec fn dirs_once(st: TreeState) -> bool {
    &&& forall|i: int| 0 <= i < st.nodes.len() && st.nodes[i].kind == VaultNodeKind::Directory
        ==> st.seen.contains(#[trigger] st.nodes[i].path)
    &&& forall|i: int, j: int| 0 <= i < j < st.nodes.len() && st.nodes[i].kind == VaultNodeKind::Directory
        && st.nodes[j].kind == VaultNodeKind::Directory ==> #[trigger] st.nodes[i].path != #[trigger] st.nodes[j].path
}

proof fn lemma_file_rows_dirs_once(st: TreeState, comps: Seq<Seq<char>>, idx: nat, parent: Seq<char>, folded: Set<Seq<char>>)
    requires
        dirs_once(st),
    ensures
        dirs_once(file_rows(st, comps, idx, parent, folded)),
    decreases comps.len() - idx,
{
    if idx < comps.len() {
        let name = comps[idx as int];
        let p = path_push(parent, name);
        if idx + 1 == comps.len() {
            if !is_hidden_spec(name) {
                let n = st.nodes.push(NodeView { path: p, depth: idx, kind: VaultNodeKind::File, label: name, expanded: false });
                let r = TreeState { nodes: n, seen: st.seen };
                assert forall|i: int| 0 <= i < r.nodes.len() && r.nodes[i].kind == VaultNodeKind::Directory
                    implies r.seen.contains(#[trigger] r.nodes[i].path) by {
                    assert(r.nodes[i] == st.nodes[i]);
                }
                assert forall|i: int, j: int| 0 <= i < j < r.nodes.len() && r.nodes[i].kind == VaultNodeKind::Directory
                    && r.nodes[j].kind == VaultNodeKind::Directory implies #[trigger] r.nodes[i].path != #[trigger] r.nodes[j].path by {
                    assert(r.nodes[i] == st.nodes[i]);
                    assert(r.nodes[j] == st.nodes[j]);
                }
            }
        } else if !is_hidden_spec(name) {
            let st2 = if st.seen.contains(p) {
                st
            } else {
                TreeState {
                    nodes: st.nodes.push(NodeView { path: p, depth: idx, kind: VaultNodeKind::Directory, label: name, expanded: !folded.contains(p) }),
                    seen: st.seen.insert(p),
                }
            };
            if !st.seen.contains(p) {
                let last = st.nodes.len() as int;
                assert forall|i: int| 0 <= i < st2.nodes.len() && st2.nodes[i].kind == VaultNodeKind::Directory
                    implies st2.seen.contains(#[trigger] st2.nodes[i].path) by {
                    if i < last {
                        assert(st2.nodes[i] == st.nodes[i]);
                    }
                }
                assert forall|i: int, j: int| 0 <= i < j < st2.nodes.len() && st2.nodes[i].kind == VaultNodeKind::Directory
                    && st2.nodes[j].kind == VaultNodeKind::Directory implies #[trigger] st2.nodes[i].path != #[trigger] st2.nodes[j].path by {
                    assert(st2.nodes[i] == st.nodes[i]);
                    if j < last {
                        assert(st2.nodes[j] == st.nodes[j]);
                    } else {
                        assert(st.seen.contains(st.nodes[i].path));
                    }
                }
            }
            if !folded.contains(p) {
                lemma_file_rows_dirs_once(st2, comps, idx + 1, p, folded);
            }
        }
    }
}

proof fn lemma_files_rows_dirs_once(st: TreeState, files: Seq<Seq<Seq<char>>>, i: nat, folded: Set<Seq<char>>)
    requires
        dirs_once(st),
    ensures
        dirs_once(files_rows(st, files, i, folded)),
    decreases files.len() - i,
{
    if i < files.len() {
        lemma_file_rows_dirs_once(st, files[i as int], 0, Seq::empty(), folded);
        lemma_files_rows_dirs_once(file_rows(st, files[i as int], 0, Seq::empty(), folded), files, i + 1, folded);
    }
}

/// Each directory of the vault tree has one row: no two directory rows share a path.
pub proof fn law_each_directory_listed_once(files: Seq<Seq<Seq<char>>>, folded: Set<Seq<char>>)
    ensures
        forall|i: int, j: int| 0 <= i < j < vault_rows(files, folded).len()
            && vault_rows(files, folded)[i].kind == VaultNodeKind::Directory
            && vault_rows(files, folded)[j].kind == VaultNodeKind::Directory
            ==> #[trigger] vault_rows(files, folded)[i].path != #[trigger] vault_rows(files, folded)[j].path,
{
    let st0 = TreeState { nodes: Seq::empty(), seen: Set::empty() };
    lemma_files_rows_dirs_once(st0, files, 0, folded);
}

/// The vault paths among `entries[i..]`, in order, after `acc`.
pub open spec fn vault_paths_from(entries: Seq<ArtifactEntry>, i: nat, acc: Seq<Seq<char>>) -> Seq<Seq<char>>
    decreases entries.len() - i,
{
    if i >= entries.len() {
        acc
    } else {
        match entries[i as int].handle {
            ArtifactHandle::Vault(p) => vault_paths_from(entries, i + 1, acc.push(p@)),
            _ => vault_paths_from(entries, i + 1, acc),
        }
    }
}

/// The rows of the vault tree for the vault entries among `entries` (see `vault_tree_for`),
/// with the directories `folded` folded.
pub fn build_vault_nodes(entries: &Vec<ArtifactEntry>, folded: &Vec<String>) -> (r: Vec<VaultNode>)
    ensures
        nodes_view(r@) == vault_rows(
            sorted_paths(vault_paths_from(entries@, 0, Seq::empty()).map_values(|p: Seq<char>| path_components(p))),
            folded_paths(folded@),
        ),
{
    let mut paths: Vec<String> = Vec::new();
    proof {
        assert(names_view(paths@) =~= Seq::<Seq<char>>::empty());
    }
    let mut i: usize = 0;
    while i < entries.len()
        invariant
            i <= entries.len(),
            vault_paths_from(entries@, i as nat, names_view(paths@)) == vault_paths_from(entries@, 0, Seq::empty()),
        decreases entries.len() - i,
    {
        match &entries[i].handle {
            ArtifactHandle::Vault(p) => {
                let ghost before = names_view(paths@);
                paths.push(p.clone());
                proof {
                    assert(names_view(paths@) =~= before.push(p@));
                }
            },
            _ => {},
        }
        i = i + 1;
    }
    vault_tree_for(&paths, folded)
}

/// The folded directories of `v`, each by its path components (so that `notes`, `notes/`
/// and `notes//` name one directory, as equal paths do).
pub open spec fn dir_keys(v: Seq<String>) -> Set<Seq<Seq<char>>> {
    Set::new(|k: Seq<Seq<char>>| exists|j: int| 0 <= j < v.len() && #[trigger] path_components(v[j]@) == k)
}

/// The paths that name one of the directories of `v`.
pub open spec fn folded_paths(v: Seq<String>) -> Set<Seq<char>> {
    Set::new(|p: Seq<char>| dir_keys(v).contains(path_components(p)))
}

/// `s` with `k` taken out if it is in, put in otherwise.
pub open spec fn toggled_key(s: Set<Seq<Seq<char>>>, k: Seq<Seq<char>>) -> Set<Seq<Seq<char>>> {
    if s.contains(k) { s.remove(k) } else { s.insert(k) }
}

/// Whether two lists of names are the same.
fn same_names(a: &Vec<String>, b: &Vec<String>) -> (r: bool)
    ensures
        r == (names_view(a@) == names_view(b@)),
{
    if a.len() != b.len() {
        proof {
            assert(names_view(a@).len() != names_view(b@).len());
        }
        return false;
    }
    let mut i: usize = 0;
    while i < a.len()
        invariant
            i <= a.len(),
            a.len() == b.len(),
            forall|j: int| 0 <= j < i ==> names_view(a@)[j] == names_view(b@)[j],
        decreases a.len() - i,
    {
        if !same_text(a[i].as_str(), b[i].as_str()) {
            proof {
                assert(names_view(a@)[i as int] != names_view(b@)[i as int]);
            }
            return false;
        }
        i = i + 1;
    }
    proof {
        assert(names_view(a@) =~= names_view(b@));
    }
    true
}

/// Whether `path` names one of the directories of `v` (compared by path components).
pub fn dirs_contain(v: &Vec<String>, path: &str) -> (r: bool)
    ensures
        r == dir_keys(v@).contains(path_components(path@)),
{
    let key = components_of(path);
    let mut i: usize = 0;
    while i < v.len()
        invariant
            i <= v.len(),
            names_view(key@) == path_components(path@),
            forall|j: int| 0 <= j < i ==> path_components(#[trigger] v@[j]@) != path_components(path@),
        decreases v.len() - i,
    {
        let c = components_of(v[i].as_str());
        if same_names(&c, &key) {
            proof {
                assert(path_components(v@[i as int]@) == path_components(path@));
            }
            return true;
        }
        i = i + 1;
    }
    proof {
        if dir_keys(v@).contains(path_components(path@)) {
            let j = choose|j: int| 0 <= j < v@.len() && #[trigger] path_components(v@[j]@) == path_components(path@);
            assert(path_components(v@[j]@) != path_components(path@));
        }
    }
    false
}

/// Unfolds the directory `path` names if it is folded (every entry naming it goes), folds
/// it otherwise (`path` is added).
pub fn dirs_toggle(v: &mut Vec<String>, path: &str)
    ensures
        dir_keys(final(v)@) == toggled_key(dir_keys(old(v)@), path_components(path@)),
{
    let ghost old_v = v@;
    let ghost key_v = path_components(path@);
    let key = components_of(path);
    let mut kept: Vec<String> = Vec::new();
    let mut found = false;
    let mut i: usize = 0;
    while i < v.len()
        invariant
            i <= v.len(),
            v@ == old_v,
            names_view(key@) == key_v,
            key_v == path_components(path@),
            found == exists|j: int| 0 <= j < i && #[trigger] path_components(old_v[j]@) == key_v,
            forall|k: Seq<Seq<char>>| dir_keys(kept@).contains(k) <==>
                (k != key_v && exists|j: int| 0 <= j < i && #[trigger] path_components(old_v[j]@) == k),
        decreases v.len() - i,
    {
        let c = components_of(v[i].as_str());
        let ghost before = kept@;
        if same_names(&c, &key) {
            found = true;
            proof {
                assert(path_components(old_v[i as int]@) == key_v);
                assert forall|k: Seq<Seq<char>>| dir_keys(kept@).contains(k) <==>
                    (k != key_v && exists|j: int| 0 <= j < i + 1 && #[trigger] path_components(old_v[j]@) == k) by {
                    if k != key_v && exists|j: int| 0 <= j < i + 1 && #[trigger] path_components(old_v[j]@) == k {
                        let j = choose|j: int| 0 <= j < i + 1 && #[trigger] path_components(old_v[j]@) == k;
                        assert(j != i);
                    }
                }
            }
        } else {
            let s = v[i].clone();
            kept.push(s);
            proof {
                let kc = path_components(old_v[i as int]@);
                assert(kc != key_v);
                assert forall|k: Seq<Seq<char>>| dir_keys(kept@).contains(k) <==>
                    (k != key_v && exists|j: int| 0 <= j < i + 1 && #[trigger] path_components(old_v[j]@) == k) by {
                    if dir_keys(kept@).contains(k) {
                        let m = choose|m: int| 0 <= m < kept@.len() && #[trigger] path_components(kept@[m]@) == k;
                        if m < before.len() {
                            assert(kept@[m] == before[m]);
                            assert(dir_keys(before).contains(k));
                        } else {
                            assert(path_components(old_v[i as int]@) == k);
                        }
                    }
                    if k != key_v && exists|j: int| 0 <= j < i + 1 && #[trigger] path_components(old_v[j]@) == k {
                        let j = choose|j: int| 0 <= j < i + 1 && #[trigger] path_components(old_v[j]@) == k;
                        if j < i {
                            assert(dir_keys(before).contains(k));
                            let m = choose|m: int| 0 <= m < before.len() && #[trigger] path_components(before[m]@) == k;
                            assert(kept@[m] == before[m]);
                        } else {
                            assert(kept@[before.len() as int] == old_v[i as int]);
                        }
                    }
                }
            }
        }
        i = i + 1;
    }
    let ghost kept_v = kept@;
    if !found {
        kept.push(String::from_str(path));
        proof {
            assert forall|k: Seq<Seq<char>>| dir_keys(kept@).contains(k) <==> dir_keys(old_v).insert(key_v).contains(k) by {
                if dir_keys(kept@).contains(k) {
                    let m = choose|m: int| 0 <= m < kept@.len() && #[trigger] path_components(kept@[m]@) == k;
                    if m < kept_v.len() {
                        assert(kept@[m] == kept_v[m]);
                        assert(dir_keys(kept_v).contains(k));
                    }
                }
                if dir_keys(old_v).insert(key_v).contains(k) {
                    if k == key_v {
                        assert(path_components(kept@[kept_v.len() as int]@) == k);
                    } else {
                        let j = choose|j: int| 0 <= j < old_v.len() && #[trigger] path_components(old_v[j]@) == k;
                        assert(dir_keys(kept_v).contains(k));
                        let m = choose|m: int| 0 <= m < kept_v.len() && #[trigger] path_components(kept_v[m]@) == k;
                        assert(kept@[m] == kept_v[m]);
                    }
                }
            }
            assert(!dir_keys(old_v).contains(key_v));
            assert(dir_keys(kept@) =~= toggled_key(dir_keys(old_v), key_v));
        }
    } else {
        proof {
            assert forall|k: Seq<Seq<char>>| dir_keys(kept@).contains(k) <==> dir_keys(old_v).remove(key_v).contains(k) by {
                if dir_keys(old_v).remove(key_v).contains(k) {
                    let j = choose|j: int| 0 <= j < old_v.len() && #[trigger] path_components(old_v[j]@) == k;
                }
            }
            let j = choose|j: int| 0 <= j < old_v.len() && #[trigger] path_components(old_v[j]@) == key_v;
            assert(dir_keys(old_v).contains(key_v));
            assert(dir_keys(kept@) =~= toggled_key(dir_keys(old_v), key_v));
        }
    }
    *v = kept;
}

/// Folding a directory and folding it again leaves the folded directories as they were.
pub proof fn law_toggled_key_twice(s: Set<Seq<Seq<char>>>, k: Seq<Seq<char>>)
    ensures
        toggled_key(toggled_key(s, k), k) == s,
{
    if s.contains(k) {
        assert(s.remove(k).insert(k) =~= s);
    } else {
        assert(s.insert(k).remove(k) =~= s);
    }
}

} // verus!
