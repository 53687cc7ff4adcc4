//! The folder tree of all archive entries: every entry filed under the
//! folders named by its path, with searches by folder, by file name and by
//! full path.

use vstd::prelude::*;
use crate::ipf::{IPFFileTable, IPFFileTableView, table_view};
use crate::order::{
    str_lt, order_chars, lemma_str_lt_irreflexive, lemma_str_lt_transitive, lemma_str_lt_total,
};
use crate::paths::{path_file_name, file_name_of};
use crate::text::{chars_of, string_from_chars, to_lowercase, lowercase, contains_chars, seq_contains};

verus! {

// ------------------------------------------------------------------ paths

/// Index of the first `/` in `s`, or -1 when there is none.
pub open spec fn slash_index(s: Seq<char>) -> int
    decreases s.len(),
{
    if s.len() == 0 {
        -1
    } else if s[0] == '/' {
        0
    } else {
        let r = slash_index(s.drop_first());
        if r < 0 {
            -1
        } else {
            r + 1
        }
    }
}

pub proof fn lemma_slash_index(s: Seq<char>)
    ensures
        -1 <= slash_index(s) < s.len(),
        slash_index(s) >= 0 ==> s[slash_index(s)] == '/',
        forall|j: int| 0 <= j < s.len() && (slash_index(s) < 0 || j < slash_index(s)) ==> s[j] != '/',
    decreases s.len(),
{
    if s.len() > 0 && s[0] != '/' {
        lemma_slash_index(s.drop_first());
        assert forall|j: int| 0 <= j < s.len() && (slash_index(s) < 0 || j < slash_index(s)) implies s[j] != '/' by {
            if j > 0 {
                assert(s[j] == s.drop_first()[j - 1]);
            }
        }
    }
}

/// The pieces of `s` between its `/` characters (`s.split('/')`).
pub open spec fn path_parts(s: Seq<char>) -> Seq<Seq<char>>
    decreases s.len(),
{
    let i = slash_index(s);
    if i < 0 {
        seq![s]
    } else {
        proof {
            lemma_slash_index(s);
        }
        seq![s.take(i)] + path_parts(s.skip(i + 1))
    }
}

/// The folders that a path names: every piece but the last.
pub open spec fn dir_parts(s: Seq<char>) -> Seq<Seq<char>> {
    path_parts(s).drop_last()
}

/// The last piece of a path: the file name.
pub open spec fn leaf_name(s: Seq<char>) -> Seq<char> {
    path_parts(s).last()
}

proof fn lemma_path_parts_nonempty(s: Seq<char>)
    ensures
        path_parts(s).len() >= 1,
    decreases s.len(),
{
    let i = slash_index(s);
    if i >= 0 {
        lemma_slash_index(s);
        lemma_path_parts_nonempty(s.skip(i + 1));
    }
}

/// `dirs` is `path`'s first `dirs.len()` folders.
pub open spec fn is_prefix_of(dirs: Seq<Seq<char>>, path: Seq<Seq<char>>) -> bool {
    dirs.len() <= path.len() && path.take(dirs.len() as int) == dirs
}

/// Where the first `/` of `s` stands, or `s.len()` when there is none.
fn find_slash(s: &[char]) -> (r: usize)
    ensures
        r <= s@.len(),
        r < s@.len() ==> slash_index(s@) == r,
        r == s@.len() ==> slash_index(s@) == -1,
{
    let mut i: usize = 0;
    while i < s.len() && s[i] != '/'
        invariant
            i <= s@.len(),
            forall|j: int| 0 <= j < i ==> s@[j] != '/',
        decreases s@.len() - i,
    {
        i = i + 1;
    }
    proof {
        lemma_slash_index(s@);
        let k = slash_index(s@);
        if k >= 0 && k < i {
            assert(s@[k] != '/');
        }
        if i < s@.len() && (k < 0 || k > i) {
            assert(s@[i as int] != '/');
        }
    }
    i
}

// ------------------------------------------------------------------ the tree

/// A folder: the files filed directly in it, and its subfolders by name.
pub struct Folder {
    pub files: Vec<IPFFileTable>,
    pub subfolders: Vec<(String, Folder)>,
}

/// The names of the entries of `s`, in order.
pub open spec fn entry_names<T>(s: Seq<(String, T)>) -> Seq<Seq<char>> {
    Seq::new(s.len(), |i: int| s[i].0@)
}

/// The names strictly ascend, so none occurs twice.
pub open spec fn names_sorted(names: Seq<Seq<char>>) -> bool {
    forall|i: int, j: int| 0 <= i < j < names.len() ==> str_lt(#[trigger] names[i], #[trigger] names[j])
}

/// The entry at index `i` is named `name`.
pub open spec fn name_at(names: Seq<Seq<char>>, name: Seq<char>, i: int) -> bool {
    0 <= i < names.len() && names[i] == name
}

/// Index of the entry named `name`, if there is one.
pub open spec fn index_of_name(names: Seq<Seq<char>>, name: Seq<char>) -> Option<int> {
    if exists|i: int| name_at(names, name, i) {
        Some(choose|i: int| name_at(names, name, i))
    } else {
        None
    }
}

/// The folder reached from `f` by the subfolder names `dirs`, in turn.
pub open spec fn folder_at(f: Folder, dirs: Seq<Seq<char>>) -> Option<Folder>
    decreases dirs.len(),
{
    if dirs.len() == 0 {
        Some(f)
    } else {
        match index_of_name(entry_names(f.subfolders@), dirs[0]) {
            Some(i) => folder_at(f.subfolders@[i].1, dirs.drop_first()),
            None => None,
        }
    }
}

/// The files filed directly in the folder at `dirs` (none where there is
/// no such folder).
pub open spec fn files_at(f: Folder, dirs: Seq<Seq<char>>) -> Seq<IPFFileTableView> {
    match folder_at(f, dirs) {
        Some(g) => table_view(g.files@),
        None => Seq::empty(),
    }
}

/// Every folder of the tree keeps its subfolders sorted by name.
pub open spec fn folder_wf(f: Folder) -> bool {
    forall|dirs: Seq<Seq<char>>| #[trigger] folder_at(f, dirs) is Some
        ==> names_sorted(entry_names(folder_at(f, dirs)->0.subfolders@))
}

/// A tree seen as the folders it holds, each mapped to its files.
impl View for Folder {
    type V = Map<Seq<Seq<char>>, Seq<IPFFileTableView>>;

    open spec fn view(&self) -> Map<Seq<Seq<char>>, Seq<IPFFileTableView>> {
        Map::new(|dirs: Seq<Seq<char>>| folder_at(*self, dirs) is Some, |dirs: Seq<Seq<char>>| files_at(*self, dirs))
    }
}

/// The tree of a single empty folder.
pub open spec fn empty_tree() -> Map<Seq<Seq<char>>, Seq<IPFFileTableView>> {
    Map::empty().insert(Seq::empty(), Seq::empty())
}

/// `m` with `file` filed under the folders of `path`, which are created
/// where missing.
pub open spec fn tree_with_file(
    m: Map<Seq<Seq<char>>, Seq<IPFFileTableView>>,
    path: Seq<char>,
    file: IPFFileTableView,
) -> Map<Seq<Seq<char>>, Seq<IPFFileTableView>> {
    Map::new(
        |dirs: Seq<Seq<char>>| m.contains_key(dirs) || is_prefix_of(dirs, dir_parts(path)),
        |dirs: Seq<Seq<char>>|
            (if m.contains_key(dirs) { m[dirs] } else { Seq::empty() }) + (if dirs == dir_parts(path) {
                seq![file]
            } else {
                Seq::empty()
            }),
    )
}

proof fn lemma_index_of_name(names: Seq<Seq<char>>, name: Seq<char>, k: int)
    requires
        names_sorted(names),
        0 <= k < names.len(),
        names[k] == name,
    ensures
        index_of_name(names, name) == Some(k),
{
    assert(name_at(names, name, k));
    let i = choose|i: int| name_at(names, name, i);
    if i < k {
        assert(str_lt(names[i], names[k]));
        lemma_str_lt_irreflexive(name);
    } else if i > k {
        assert(str_lt(names[k], names[i]));
        lemma_str_lt_irreflexive(name);
    }
}

proof fn lemma_index_of_name_some(names: Seq<Seq<char>>, name: Seq<char>)
    requires
        index_of_name(names, name) is Some,
    ensures
        0 <= index_of_name(names, name)->0 < names.len(),
        names[index_of_name(names, name)->0] == name,
{
}

/// What the tree holds below the subfolder at index `k` of `f`'s root.
proof fn lemma_folder_at_sub(f: Folder, k: int, dirs: Seq<Seq<char>>)
    requires
        names_sorted(entry_names(f.subfolders@)),
        0 <= k < f.subfolders@.len(),
    ensures
        folder_at(f, seq![f.subfolders@[k].0@] + dirs) == folder_at(f.subfolders@[k].1, dirs),
{
    let d = seq![f.subfolders@[k].0@] + dirs;
    assert(d[0] == entry_names(f.subfolders@)[k]);
    lemma_index_of_name(entry_names(f.subfolders@), d[0], k);
    assert(d.drop_first() =~= dirs);
}

/// A fresh folder holds nothing.
proof fn lemma_new_folder(f: Folder, dirs: Seq<Seq<char>>)
    requires
        f.files@.len() == 0,
        f.subfolders@.len() == 0,
    ensures
        folder_at(f, dirs) is Some <==> dirs.len() == 0,
        files_at(f, dirs) == Seq::<IPFFileTableView>::empty(),
        folder_wf(f),
{
    assert(table_view(f.files@) =~= Seq::<IPFFileTableView>::empty());
    assert forall|d: Seq<Seq<char>>| #[trigger] folder_at(f, d) is Some implies names_sorted(
        entry_names(folder_at(f, d)->0.subfolders@),
    ) by {
        if d.len() > 0 {
            assert(index_of_name(entry_names(f.subfolders@), d[0]) is None);
        }
    }
    if dirs.len() > 0 {
        assert(index_of_name(entry_names(f.subfolders@), dirs[0]) is None);
    }
}

/// The position at which `target` stands or belongs among the sorted
/// names of `v`, and whether it is there.
pub(crate) fn locate<T>(v: &Vec<(String, T)>, target: &[char]) -> (r: (usize, bool))
    requires
        names_sorted(entry_names(v@)),
    ensures
        r.0 <= v@.len(),
        forall|i: int| 0 <= i < r.0 ==> str_lt(#[trigger] entry_names(v@)[i], target@),
        r.1 ==> r.0 < v@.len() && v@[r.0 as int].0@ == target@,
        !r.1 ==> forall|i: int| r.0 <= i < v@.len() ==> str_lt(target@, #[trigger] entry_names(v@)[i]),
{
    let ghost names = entry_names(v@);
    let mut lo: usize = 0;
    let mut hi: usize = v.len();
    while lo < hi
        invariant
            lo <= hi <= v@.len(),
            names == entry_names(v@),
            names_sorted(names),
            forall|i: int| 0 <= i < lo ==> str_lt(#[trigger] names[i], target@),
            forall|i: int| hi <= i < v@.len() ==> !str_lt(#[trigger] names[i], target@),
        decreases hi - lo,
    {
        let mid = lo + (hi - lo) / 2;
        let mid_chars = chars_of(v[mid].0.as_str());
        let o = order_chars(mid_chars.as_slice(), target);
        if o == -1 {
            proof {
                assert forall|i: int| 0 <= i < mid + 1 implies str_lt(#[trigger] names[i], target@) by {
                    if i < mid {
                        assert(str_lt(names[i], names[mid as int]));
                        lemma_str_lt_transitive(names[i], names[mid as int], target@);
                    }
                }
            }
            lo = mid + 1;
        } else {
            proof {
                assert forall|i: int| mid <= i < v@.len() implies !str_lt(#[trigger] names[i], target@) by {
                    if i > mid && str_lt(names[i], target@) {
                        assert(str_lt(names[mid as int], names[i]));
                        lemma_str_lt_transitive(names[mid as int], names[i], target@);
                    }
                }
            }
            hi = mid;
        }
    }
    if lo < v.len() {
        let here = chars_of(v[lo].0.as_str());
        let o = order_chars(here.as_slice(), target);
        if o == 0 {
            return (lo, true);
        }
        proof {
            assert forall|i: int| lo <= i < v@.len() implies str_lt(target@, #[trigger] names[i]) by {
                lemma_str_lt_total(names[i], target@);
                if i > lo && names[i] == target@ {
                    assert(str_lt(names[lo as int], names[i]));
                }
            }
        }
    }
    (lo, false)
}

proof fn lemma_sorted_insert(names: Seq<Seq<char>>, k: int, name: Seq<char>)
    requires
        names_sorted(names),
        0 <= k <= names.len(),
        forall|i: int| 0 <= i < k ==> str_lt(#[trigger] names[i], name),
        forall|i: int| k <= i < names.len() ==> str_lt(name, #[trigger] names[i]),
    ensures
        names_sorted(names.insert(k, name)),
{
    let n2 = names.insert(k, name);
    assert forall|i: int, j: int| 0 <= i < j < n2.len() implies str_lt(#[trigger] n2[i], #[trigger] n2[j]) by {
        if j < k {
        } else if j == k {
        } else if i < k {
            assert(n2[j] == names[j - 1]);
            lemma_str_lt_transitive(names[i], name, names[j - 1]);
        } else if i == k {
            assert(n2[j] == names[j - 1]);
        } else {
            assert(n2[i] == names[i - 1]);
            assert(n2[j] == names[j - 1]);
        }
    }
}

/// A path with a `/` at `i`: its first piece, then the pieces of the rest.
proof fn lemma_parts_split(path: Seq<char>, i: int)
    requires
        0 <= i < path.len(),
        slash_index(path) == i,
    ensures
        path_parts(path) == seq![path.take(i)] + path_parts(path.skip(i + 1)),
        dir_parts(path) == seq![path.take(i)] + dir_parts(path.skip(i + 1)),
{
    lemma_path_parts_nonempty(path.skip(i + 1));
    let p = path_parts(path.skip(i + 1));
    assert((seq![path.take(i)] + p).drop_last() =~= seq![path.take(i)] + p.drop_last());
}

/// A path without `/` names no folder.
proof fn lemma_parts_leaf(path: Seq<char>)
    requires
        slash_index(path) == -1,
    ensures
        dir_parts(path) == Seq::<Seq<char>>::empty(),
{
    assert(seq![path].drop_last() =~= Seq::<Seq<char>>::empty());
}

/// Below a first folder named `head`, prefixes and equality are those of
/// the rest.
proof fn lemma_prefix_step(dirs: Seq<Seq<char>>, head: Seq<char>, rest: Seq<Seq<char>>)
    requires
        dirs.len() > 0,
    ensures
        dirs[0] == head ==> (is_prefix_of(dirs, seq![head] + rest) <==> is_prefix_of(dirs.drop_first(), rest)),
        dirs[0] == head ==> (dirs == seq![head] + rest <==> dirs.drop_first() == rest),
        dirs[0] != head ==> !is_prefix_of(dirs, seq![head] + rest) && dirs != seq![head] + rest,
{
    let full = seq![head] + rest;
    if dirs[0] == head {
        assert(dirs =~= seq![head] + dirs.drop_first());
        assert(full.drop_first() =~= rest);
        if dirs.len() <= full.len() {
            assert(full.take(dirs.len() as int) =~= seq![head] + rest.take(dirs.len() - 1));
            if full.take(dirs.len() as int) == dirs {
                assert(rest.take(dirs.len() - 1) =~= dirs.drop_first());
            }
        }
    } else {
        if dirs.len() <= full.len() {
            assert(full.take(dirs.len() as int)[0] == head);
        }
        assert(full[0] == head);
    }
}

/// Replacing the subfolder at `k` by one of the same name leaves every
/// other name where it was.
proof fn lemma_lookup_update(o: Folder, n: Folder, k: int, name: Seq<char>)
    requires
        0 <= k < o.subfolders@.len(),
        n.subfolders@.len() == o.subfolders@.len(),
        entry_names(n.subfolders@) == entry_names(o.subfolders@),
        forall|j: int| 0 <= j < o.subfolders@.len() && j != k ==> n.subfolders@[j] == o.subfolders@[j],
        name != o.subfolders@[k].0@,
    ensures
        index_of_name(entry_names(n.subfolders@), name) == index_of_name(entry_names(o.subfolders@), name),
        index_of_name(entry_names(o.subfolders@), name) matches Some(j) ==> n.subfolders@[j].1 == o.subfolders@[j].1,
{
    if index_of_name(entry_names(o.subfolders@), name) is Some {
        lemma_index_of_name_some(entry_names(o.subfolders@), name);
    }
}

/// Inserting a subfolder named otherwise than `name` leaves the folder
/// named `name`, if any, unchanged.
proof fn lemma_lookup_insert(o: Folder, n: Folder, k: int, name: Seq<char>)
    requires
        0 <= k <= o.subfolders@.len(),
        n.subfolders@.len() == o.subfolders@.len() + 1,
        forall|j: int| 0 <= j < k ==> n.subfolders@[j] == o.subfolders@[j],
        forall|j: int| k < j < n.subfolders@.len() ==> n.subfolders@[j] == o.subfolders@[j - 1],
        names_sorted(entry_names(o.subfolders@)),
        names_sorted(entry_names(n.subfolders@)),
        name != n.subfolders@[k].0@,
    ensures
        index_of_name(entry_names(n.subfolders@), name) is Some <==> index_of_name(entry_names(o.subfolders@), name) is Some,
        index_of_name(entry_names(o.subfolders@), name) is Some ==>
            n.subfolders@[index_of_name(entry_names(n.subfolders@), name)->0].1
                == o.subfolders@[index_of_name(entry_names(o.subfolders@), name)->0].1,
{
    let on = entry_names(o.subfolders@);
    let nn = entry_names(n.subfolders@);
    if index_of_name(on, name) is Some {
        lemma_index_of_name_some(on, name);
        let j = index_of_name(on, name)->0;
        let j2 = if j < k { j } else { j + 1 };
        assert(nn[j2] == name);
        lemma_index_of_name(nn, name, j2);
    } else if index_of_name(nn, name) is Some {
        lemma_index_of_name_some(nn, name);
        let j = index_of_name(nn, name)->0;
        if j < k {
            assert(name_at(on, name, j));
        } else if j > k {
            assert(name_at(on, name, j - 1));
        }
    }
}

/// A subfolder of a well-formed tree is well formed.
proof fn lemma_wf_sub(f: Folder, k: int)
    requires
        folder_wf(f),
        0 <= k < f.subfolders@.len(),
    ensures
        folder_wf(f.subfolders@[k].1),
{
    assert(folder_at(f, Seq::<Seq<char>>::empty()) is Some);
    let g = f.subfolders@[k].1;
    assert forall|d: Seq<Seq<char>>| #[trigger] folder_at(g, d) is Some
        implies names_sorted(entry_names(folder_at(g, d)->0.subfolders@)) by {
        lemma_folder_at_sub(f, k, d);
        assert(folder_at(f, seq![f.subfolders@[k].0@] + d) is Some);
    }
}

/// `s` without its trailing `/` characters (`s.trim_end_matches('/')`).
pub open spec fn trim_slashes(s: Seq<char>) -> Seq<char>
    decreases s.len(),
{
    if s.len() > 0 && s.last() == '/' {
        trim_slashes(s.drop_last())
    } else {
        s
    }
}

/// The folders that `search_folder_shallow` walks for `folder_path`: none
/// for the root, else every piece of the trimmed path.
pub open spec fn shallow_dirs(folder_path: Seq<char>) -> Seq<Seq<char>> {
    let t = trim_slashes(folder_path);
    if t.len() == 0 {
        Seq::empty()
    } else {
        path_parts(t)
    }
}

/// `name` appended to the path `cur`, with a `/` between them unless
/// `cur` is empty.
pub open spec fn path_join(cur: Seq<char>, name: Seq<char>) -> Seq<char> {
    if cur.len() == 0 {
        name
    } else {
        cur + seq!['/'] + name
    }
}

/// `cur` with every piece of `parts` joined on, in turn.
pub open spec fn fold_join(cur: Seq<char>, parts: Seq<Seq<char>>) -> Seq<char>
    decreases parts.len(),
{
    if parts.len() == 0 {
        cur
    } else {
        fold_join(path_join(cur, parts[0]), parts.drop_first())
    }
}

/// The files of `files` named `name`, in order.
pub open spec fn named(files: Seq<IPFFileTableView>, name: Seq<char>) -> Seq<IPFFileTableView>
    decreases files.len(),
{
    if files.len() == 0 {
        Seq::empty()
    } else if files.last().directory_name == name {
        named(files.drop_last(), name).push(files.last())
    } else {
        named(files.drop_last(), name)
    }
}

/// What `search_file_by_full_path` finds in a tree `m` for `full_path`:
/// the files named as its last piece in the folder that its other pieces
/// name.
pub open spec fn found_by_full_path(
    m: Map<Seq<Seq<char>>, Seq<IPFFileTableView>>,
    full_path: Seq<char>,
) -> Seq<IPFFileTableView> {
    if m.contains_key(dir_parts(full_path)) {
        named(m[dir_parts(full_path)], leaf_name(full_path))
    } else {
        Seq::empty()
    }
}

/// `c` names a subfolder of the folder at `dirs` of the tree `m`.
pub open spec fn is_child(m: Map<Seq<Seq<char>>, Seq<IPFFileTableView>>, dirs: Seq<Seq<char>>, c: Seq<char>) -> bool {
    m.contains_key(dirs.push(c))
}

/// Following `a` and then `b` is following `a + b`.
proof fn lemma_folder_at_append(f: Folder, a: Seq<Seq<char>>, b: Seq<Seq<char>>)
    ensures
        folder_at(f, a + b) == (match folder_at(f, a) {
            Some(g) => folder_at(g, b),
            None => None,
        }),
    decreases a.len(),
{
    if a.len() == 0 {
        assert(a + b =~= b);
    } else {
        assert((a + b)[0] == a[0]);
        assert((a + b).drop_first() =~= a.drop_first() + b);
        match index_of_name(entry_names(f.subfolders@), a[0]) {
            Some(i) => {
                lemma_folder_at_append(f.subfolders@[i].1, a.drop_first(), b);
            },
            None => {},
        }
    }
}

/// The texts of `v`, in order.
pub open spec fn texts(v: Seq<String>) -> Seq<Seq<char>> {
    Seq::new(v.len(), |i: int| v[i]@)
}

/// What a search result holds: each path with the view of its entry.
pub open spec fn hits_view(r: Seq<(String, &IPFFileTable)>) -> Seq<(Seq<char>, IPFFileTableView)> {
    Seq::new(r.len(), |i: int| (r[i].0@, r[i].1@))
}

/// Every piece of a path in turn (`s.split('/')`, collected).
fn split_path(s: &[char]) -> (r: Vec<String>)
    ensures
        texts(r@) == path_parts(s@),
{
    let mut r: Vec<String> = Vec::new();
    let mut start: usize = 0;
    assert(s@.skip(0) =~= s@);
    assert(texts(r@) + path_parts(s@) =~= path_parts(s@));
    loop
        invariant
            start <= s@.len(),
            texts(r@) + path_parts(s@.skip(start as int)) == path_parts(s@),
        decreases s@.len() - start,
    {
        let rest = &s[start..s.len()];
        assert(rest@ =~= s@.skip(start as int));
        let i = find_slash(rest);
        let piece = string_from_chars(&rest[0..i]);
        if i == rest.len() {
            proof {
                assert(rest@.take(i as int) =~= rest@);
                assert(texts(r@.push(piece)) =~= texts(r@) + path_parts(rest@));
            }
            r.push(piece);
            return r;
        }
        proof {
            lemma_parts_split(rest@, i as int);
            assert(piece@ =~= rest@.take(i as int));
            assert(rest@.skip(i + 1) =~= s@.skip(start + i + 1));
            assert(texts(r@.push(piece)) =~= texts(r@) + seq![piece@]);
            assert(texts(r@) + path_parts(rest@) =~= texts(r@) + seq![piece@] + path_parts(s@.skip(start + i + 1)));
        }
        r.push(piece);
        start = start + i + 1;
    }
}

/// `path_join` computed.
fn join_path(cur: &str, name: &str) -> (r: String)
    ensures
        r@ == path_join(cur@, name@),
{
    if cur.unicode_len() == 0 {
        String::from_str(name)
    } else {
        let mut r = String::from_str(cur);
        let slash = "/";
        proof {
            reveal_strlit("/");
        }
        r.append(slash);
        r.append(name);
        r
    }
}

/// The files of `files` whose lowercased name holds `needle`, each with its
/// path under `cur`.
pub open spec fn local_hits(files: Seq<IPFFileTableView>, needle: Seq<char>, cur: Seq<char>) -> Seq<(Seq<char>, IPFFileTableView)>
    decreases files.len(),
{
    if files.len() == 0 {
        Seq::empty()
    } else {
        let f = files.last();
        let h = local_hits(files.drop_last(), needle, cur);
        if seq_contains(lowercase(f.directory_name), needle) {
            h.push((path_join(cur, f.directory_name), f))
        } else {
            h
        }
    }
}

/// What `search_file_recursive` finds in `f` below the path `cur`: the hits
/// among its own files, then those of each subfolder in name order.
pub open spec fn tree_hits(f: Folder, needle: Seq<char>, cur: Seq<char>) -> Seq<(Seq<char>, IPFFileTableView)>
    decreases f, 1int,
{
    local_hits(table_view(f.files@), needle, cur) + subs_hits(f.subfolders@, needle, cur)
}

/// The hits of the subfolders `s`, in order.
pub open spec fn subs_hits(s: Seq<(String, Folder)>, needle: Seq<char>, cur: Seq<char>) -> Seq<(Seq<char>, IPFFileTableView)>
    decreases s, 0int,
{
    if s.len() == 0 {
        Seq::empty()
    } else {
        subs_hits(s.drop_last(), needle, cur) + tree_hits(s.last().1, needle, path_join(cur, s.last().0@))
    }
}

/// What a search by the pieces `ps` of a full path finds in `f`.
pub open spec fn found_by_full_path_in(f: Folder, ps: Seq<Seq<char>>) -> Seq<IPFFileTableView> {
    match folder_at(f, ps.drop_last()) {
        Some(g) => named(table_view(g.files@), ps.last()),
        None => Seq::empty(),
    }
}

proof fn lemma_found_in_view(f: Folder, ps: Seq<Seq<char>>)
    requires
        ps.len() > 0,
    ensures
        forall|p: Seq<char>| path_parts(p) == ps ==> found_by_full_path_in(f, ps) == #[trigger] found_by_full_path(f@, p),
{
}

/// An entry as `build_tree` files it: its directory name cut to the file
/// name where the path has one.
pub open spec fn renamed(f: IPFFileTableView) -> IPFFileTableView {
    IPFFileTableView {
        directory_name: match path_file_name(f.directory_name) {
            Some(n) => n,
            None => f.directory_name,
        },
        ..f
    }
}

/// The groups of entries by path, as texts and views.
pub open spec fn grouped_view(g: Seq<(String, Vec<IPFFileTable>)>) -> Seq<(Seq<char>, Seq<IPFFileTableView>)> {
    Seq::new(g.len(), |i: int| (g[i].0@, table_view(g[i].1@)))
}

/// `m` with each of `files`, renamed, filed under `path`, in order.
pub open spec fn tree_with_files(
    m: Map<Seq<Seq<char>>, Seq<IPFFileTableView>>,
    path: Seq<char>,
    files: Seq<IPFFileTableView>,
) -> Map<Seq<Seq<char>>, Seq<IPFFileTableView>>
    decreases files.len(),
{
    if files.len() == 0 {
        m
    } else {
        tree_with_file(tree_with_files(m, path, files.drop_last()), path, renamed(files.last()))
    }
}

/// The tree that `build_tree` makes of the groups `g`: each group's
/// entries filed under its path, group after group.
pub open spec fn built_tree(g: Seq<(Seq<char>, Seq<IPFFileTableView>)>) -> Map<Seq<Seq<char>>, Seq<IPFFileTableView>>
    decreases g.len(),
{
    if g.len() == 0 {
        empty_tree()
    } else {
        tree_with_files(built_tree(g.drop_last()), g.last().0, g.last().1)
    }
}

/// In a list of strictly ascending names, the index of a name is where it
/// stands.
pub proof fn lemma_index_of_name_pub(names: Seq<Seq<char>>, name: Seq<char>, k: int)
    requires
        names_sorted(names),
        0 <= k < names.len(),
        names[k] == name,
    ensures
        index_of_name(names, name) == Some(k),
{
    lemma_index_of_name(names, name, k);
}

/// A name inserted where it belongs keeps the names ascending.
pub proof fn lemma_sorted_insert_pub(names: Seq<Seq<char>>, k: int, name: Seq<char>)
    requires
        names_sorted(names),
        0 <= k <= names.len(),
        forall|i: int| 0 <= i < k ==> str_lt(#[trigger] names[i], name),
        forall|i: int| k <= i < names.len() ==> str_lt(name, #[trigger] names[i]),
    ensures
        names_sorted(names.insert(k, name)),
{
    lemma_sorted_insert(names, k, name);
}

impl Folder {
    /// An empty folder.
    pub fn new() -> (r: Folder)
        ensures
            r.files@.len() == 0,
            r.subfolders@.len() == 0,
            folder_wf(r),
            r@ == empty_tree(),
    {
        let r = Folder { files: Vec::new(), subfolders: Vec::new() };
        proof {
            assert forall|d: Seq<Seq<char>>| true implies (folder_at(r, d) is Some <==> d.len() == 0)
                && files_at(r, d) == Seq::<IPFFileTableView>::empty() by {
                lemma_new_folder(r, d);
            }
            lemma_new_folder(r, Seq::empty());
            assert forall|d: Seq<Seq<char>>| r@.contains_key(d) <==> empty_tree().contains_key(d) by {
                lemma_new_folder(r, d);
                if d.len() == 0 {
                    assert(d =~= Seq::<Seq<char>>::empty());
                }
            }
            assert(r@ =~= empty_tree());
        }
        r
    }

    /// Files `file` under the folders named by `path`: every piece of the
    /// path but the last names a folder, created where missing.
    pub fn insert(&mut self, path: &str, file: IPFFileTable)
        requires
            folder_wf(*old(self)),
        ensures
            folder_wf(*final(self)),
            final(self)@ == tree_with_file(old(self)@, path@, file@),
    {
        let chars = chars_of(path);
        self.insert_parts(chars.as_slice(), file);
        proof {
            let m = tree_with_file(old(self)@, path@, file@);
            assert forall|d: Seq<Seq<char>>| self@.contains_key(d) <==> m.contains_key(d) by {}
            assert forall|d: Seq<Seq<char>>| self@.contains_key(d) implies self@[d] == m[d] by {
                if folder_at(*old(self), d) is None {
                    assert(files_at(*old(self), d) == Seq::<IPFFileTableView>::empty());
                }
            }
            assert(self@ =~= m);
        }
    }

    fn insert_parts(&mut self, path: &[char], file: IPFFileTable)
        requires
            folder_wf(*old(self)),
        ensures
            folder_wf(*final(self)),
            forall|dirs: Seq<Seq<char>>| #[trigger] folder_at(*final(self), dirs) is Some
                <==> (folder_at(*old(self), dirs) is Some || is_prefix_of(dirs, dir_parts(path@))),
            forall|dirs: Seq<Seq<char>>| #[trigger] files_at(*final(self), dirs)
                == files_at(*old(self), dirs) + (if dirs == dir_parts(path@) {
                    seq![file@]
                } else {
                    Seq::<IPFFileTableView>::empty()
                }),
        decreases path@.len(),
    {
        let ghost o = *self;
        let ghost fv = file@;
        let i = find_slash(path);
        if i == path.len() {
            self.files.push(file);
            proof {
                lemma_parts_leaf(path@);
                assert(table_view(self.files@) =~= table_view(o.files@).push(fv));
                assert forall|dirs: Seq<Seq<char>>| dirs.len() > 0 implies #[trigger] folder_at(*self, dirs)
                    == folder_at(o, dirs) by {}
                assert forall|dirs: Seq<Seq<char>>| #[trigger] folder_at(*self, dirs) is Some
                    implies names_sorted(entry_names(folder_at(*self, dirs)->0.subfolders@)) by {
                    assert(folder_at(o, dirs) is Some);
                }
                assert forall|dirs: Seq<Seq<char>>| #[trigger] files_at(*self, dirs)
                    == files_at(o, dirs) + (if dirs == dir_parts(path@) {
                        seq![fv]
                    } else {
                        Seq::<IPFFileTableView>::empty()
                    }) by {
                    if dirs.len() == 0 {
                        assert(dirs =~= dir_parts(path@));
                    } else {
                        assert(folder_at(*self, dirs) == folder_at(o, dirs));
                        assert(dirs != dir_parts(path@));
                        assert(files_at(o, dirs) + Seq::<IPFFileTableView>::empty() =~= files_at(o, dirs));
                    }
                }
                assert forall|dirs: Seq<Seq<char>>| #[trigger] folder_at(*self, dirs) is Some
                    <==> (folder_at(o, dirs) is Some || is_prefix_of(dirs, dir_parts(path@))) by {
                    if dirs.len() > 0 {
                        assert(folder_at(*self, dirs) == folder_at(o, dirs));
                    }
                }
            }
            return;
        }
        let head = &path[0..i];
        let rest = &path[i + 1..path.len()];
        proof {
            lemma_parts_split(path@, i as int);
            assert(head@ =~= path@.take(i as int));
            assert(rest@ =~= path@.skip(i + 1));
        }
        let ghost dp_rest = dir_parts(rest@);
        let ghost hv = head@;
        proof {
            assert(folder_at(o, Seq::<Seq<char>>::empty()) is Some);
        }
        let (k, found) = locate(&self.subfolders, head);
        if found {
            let mut entry = (String::new(), Folder::new());
            self.subfolders.set_and_swap(k, &mut entry);
            let ghost g = entry.1;
            proof {
                assert forall|d: Seq<Seq<char>>| #[trigger] folder_at(g, d) is Some
                    implies names_sorted(entry_names(folder_at(g, d)->0.subfolders@)) by {
                    lemma_folder_at_sub(o, k as int, d);
                    assert(folder_at(o, seq![hv] + d) is Some);
                }
            }
            entry.1.insert_parts(rest, file);
            let ghost g2 = entry.1;
            self.subfolders.set_and_swap(k, &mut entry);
            proof {
                let n = *self;
                assert(entry_names(n.subfolders@) =~= entry_names(o.subfolders@));
                assert(n.subfolders@[k as int].1 == g2);
                assert forall|dirs: Seq<Seq<char>>| dirs.len() > 0 && dirs[0] != hv
                    implies #[trigger] folder_at(n, dirs) == folder_at(o, dirs) by {
                    lemma_lookup_update(o, n, k as int, dirs[0]);
                }
                assert forall|dirs: Seq<Seq<char>>| dirs.len() > 0 && dirs[0] == hv implies
                    #[trigger] folder_at(n, dirs) == folder_at(g2, dirs.drop_first())
                    && folder_at(o, dirs) == folder_at(g, dirs.drop_first()) by {
                    assert(dirs =~= seq![hv] + dirs.drop_first());
                    lemma_folder_at_sub(n, k as int, dirs.drop_first());
                    lemma_folder_at_sub(o, k as int, dirs.drop_first());
                }
                assert forall|dirs: Seq<Seq<char>>| #[trigger] folder_at(n, dirs) is Some
                    implies names_sorted(entry_names(folder_at(n, dirs)->0.subfolders@)) by {
                    if dirs.len() > 0 && dirs[0] == hv {
                        assert(folder_at(g2, dirs.drop_first()) is Some);
                    } else if dirs.len() > 0 {
                        assert(folder_at(o, dirs) is Some);
                    } else {
                        assert(folder_at(o, dirs) is Some);
                    }
                }
                assert forall|dirs: Seq<Seq<char>>| #[trigger] folder_at(n, dirs) is Some
                    <==> (folder_at(o, dirs) is Some || is_prefix_of(dirs, dir_parts(path@))) by {
                    if dirs.len() > 0 {
                        lemma_prefix_step(dirs, hv, dp_rest);
                        if dirs[0] == hv {
                            assert(folder_at(g2, dirs.drop_first()) is Some <==> (folder_at(g, dirs.drop_first()) is Some
                                || is_prefix_of(dirs.drop_first(), dp_rest)));
                        }
                    }
                }
                assert forall|dirs: Seq<Seq<char>>| #[trigger] files_at(n, dirs)
                    == files_at(o, dirs) + (if dirs == dir_parts(path@) {
                        seq![fv]
                    } else {
                        Seq::<IPFFileTableView>::empty()
                    }) by {
                    if dirs.len() > 0 {
                        lemma_prefix_step(dirs, hv, dp_rest);
                        if dirs[0] == hv {
                            assert(files_at(g2, dirs.drop_first()) == files_at(g, dirs.drop_first()) + (if dirs.drop_first() == dp_rest {
                                seq![fv]
                            } else {
                                Seq::<IPFFileTableView>::empty()
                            }));
                        } else {
                            assert(files_at(o, dirs) + Seq::<IPFFileTableView>::empty() =~= files_at(o, dirs));
                        }
                    } else {
                        assert(dirs != dir_parts(path@));
                        assert(files_at(o, dirs) + Seq::<IPFFileTableView>::empty() =~= files_at(o, dirs));
                    }
                }
            }
        } else {
            let mut g = Folder::new();
            let ghost g0 = g;
            g.insert_parts(rest, file);
            let name = string_from_chars(head);
            self.subfolders.insert(k, (name, g));
            proof {
                let n = *self;
                let g2 = g;
                assert(entry_names(n.subfolders@) =~= entry_names(o.subfolders@).insert(k as int, hv));
                lemma_sorted_insert(entry_names(o.subfolders@), k as int, hv);
                assert forall|d: Seq<Seq<char>>| true implies (folder_at(g0, d) is Some <==> d.len() == 0)
                    && files_at(g0, d) == Seq::<IPFFileTableView>::empty() by {
                    lemma_new_folder(g0, d);
                }
                assert forall|dirs: Seq<Seq<char>>| dirs.len() > 0 && dirs[0] != hv
                    implies #[trigger] folder_at(n, dirs) == folder_at(o, dirs) by {
                    lemma_lookup_insert(o, n, k as int, dirs[0]);
                }
                assert forall|dirs: Seq<Seq<char>>| dirs.len() > 0 && dirs[0] == hv implies
                    #[trigger] folder_at(n, dirs) == folder_at(g2, dirs.drop_first())
                    && folder_at(o, dirs) is None by {
                    assert(dirs =~= seq![hv] + dirs.drop_first());
                    lemma_folder_at_sub(n, k as int, dirs.drop_first());
                    if index_of_name(entry_names(o.subfolders@), hv) is Some {
                        lemma_index_of_name_some(entry_names(o.subfolders@), hv);
                        let j = index_of_name(entry_names(o.subfolders@), hv)->0;
                        lemma_str_lt_irreflexive(hv);
                        assert(str_lt(entry_names(o.subfolders@)[j], hv) || str_lt(hv, entry_names(o.subfolders@)[j]));
                    }
                }
                assert forall|dirs: Seq<Seq<char>>| #[trigger] folder_at(n, dirs) is Some
                    implies names_sorted(entry_names(folder_at(n, dirs)->0.subfolders@)) by {
                    if dirs.len() > 0 && dirs[0] == hv {
                        assert(folder_at(g2, dirs.drop_first()) is Some);
                    } else if dirs.len() > 0 {
                        assert(folder_at(o, dirs) is Some);
                    }
                }
                assert forall|dirs: Seq<Seq<char>>| #[trigger] folder_at(n, dirs) is Some
                    <==> (folder_at(o, dirs) is Some || is_prefix_of(dirs, dir_parts(path@))) by {
                    if dirs.len() > 0 {
                        lemma_prefix_step(dirs, hv, dp_rest);
                        if dirs[0] == hv {
                            assert(folder_at(g2, dirs.drop_first()) is Some <==> (folder_at(g0, dirs.drop_first()) is Some
                                || is_prefix_of(dirs.drop_first(), dp_rest)));
                            if dirs.drop_first().len() == 0 {
                                assert(is_prefix_of(dirs.drop_first(), dp_rest)) by {
                                    assert(dp_rest.take(0) =~= dirs.drop_first());
                                }
                            }
                        }
                    }
                }
                assert forall|dirs: Seq<Seq<char>>| #[trigger] files_at(n, dirs)
                    == files_at(o, dirs) + (if dirs == dir_parts(path@) {
                        seq![fv]
                    } else {
                        Seq::<IPFFileTableView>::empty()
                    }) by {
                    if dirs.len() > 0 {
                        lemma_prefix_step(dirs, hv, dp_rest);
                        if dirs[0] == hv {
                            assert(files_at(g2, dirs.drop_first()) == files_at(g0, dirs.drop_first()) + (if dirs.drop_first() == dp_rest {
                                seq![fv]
                            } else {
                                Seq::<IPFFileTableView>::empty()
                            }));
                            assert(folder_at(n, dirs) == folder_at(g2, dirs.drop_first()));
                            assert(files_at(o, dirs) == Seq::<IPFFileTableView>::empty());
                        } else {
                            assert(files_at(o, dirs) + Seq::<IPFFileTableView>::empty() =~= files_at(o, dirs));
                        }
                    } else {
                        assert(dirs != dir_parts(path@));
                        assert(files_at(o, dirs) + Seq::<IPFFileTableView>::empty() =~= files_at(o, dirs));
                    }
                }
            }
        }
    }

    /// The folder that the pieces of `path` name, in turn.
    fn folder_by_parts(&self, path: &[char]) -> (r: Option<&Folder>)
        requires
            folder_wf(*self),
        ensures
            match r {
                Some(g) => folder_at(*self, path_parts(path@)) == Some(*g) && folder_wf(*g),
                None => folder_at(*self, path_parts(path@)) is None,
            },
        decreases path@.len(),
    {
        let i = find_slash(path);
        let head = &path[0..i];
        proof {
            assert(folder_at(*self, Seq::<Seq<char>>::empty()) is Some);
            assert(head@ =~= path@.take(i as int));
        }
        let (k, found) = locate(&self.subfolders, head);
        if !found {
            proof {
                if index_of_name(entry_names(self.subfolders@), head@) is Some {
                    lemma_index_of_name_some(entry_names(self.subfolders@), head@);
                    let j = index_of_name(entry_names(self.subfolders@), head@)->0;
                    lemma_str_lt_irreflexive(head@);
                    assert(str_lt(entry_names(self.subfolders@)[j], head@) || str_lt(head@, entry_names(self.subfolders@)[j]));
                }
                if i < path.len() {
                    lemma_parts_split(path@, i as int);
                } else {
                    assert(path@.take(i as int) =~= path@);
                }
                assert(path_parts(path@)[0] == head@);
            }
            return None;
        }
        let sub = &self.subfolders[k].1;
        proof {
            lemma_wf_sub(*self, k as int);
        }
        if i == path.len() {
            proof {
                assert(path@.take(i as int) =~= path@);
                lemma_folder_at_sub(*self, k as int, Seq::empty());
                assert(seq![head@] + Seq::<Seq<char>>::empty() =~= path_parts(path@));
            }
            Some(sub)
        } else {
            let rest = &path[i + 1..path.len()];
            proof {
                lemma_parts_split(path@, i as int);
                assert(rest@ =~= path@.skip(i + 1));
                lemma_folder_at_sub(*self, k as int, path_parts(rest@));
            }
            sub.folder_by_parts(rest)
        }
    }

    /// The names of the subfolders and files directly inside the folder
    /// `folder_path` (trailing `/` ignored; the empty path is the root), or
    /// `None` where there is no such folder. Subfolder names come sorted.
    pub fn search_folder_shallow(&self, folder_path: &str) -> (r: Option<(Vec<String>, Vec<String>)>)
        requires
            folder_wf(*self),
        ensures
            r is Some <==> self@.contains_key(shallow_dirs(folder_path@)),
            r matches Some(res) ==> res.1@.len() == self@[shallow_dirs(folder_path@)].len(),
            r matches Some(res) ==> forall|i: int| 0 <= i < res.1@.len()
                ==> #[trigger] res.1@[i]@ == self@[shallow_dirs(folder_path@)][i].directory_name,
            r matches Some(res) ==> names_sorted(Seq::new(res.0@.len(), |i: int| res.0@[i]@)),
            r is Some ==> forall|c: Seq<char>| #[trigger] is_child(self@, shallow_dirs(folder_path@), c)
                <==> exists|i: int| 0 <= i < (r->0).0@.len() && #[trigger] (r->0).0@[i]@ == c,
    {
        let chars = chars_of(folder_path);
        let mut end = chars.len();
        proof {
            assert(chars@.take(end as int) =~= folder_path@);
        }
        while end > 0 && chars[end - 1] == '/'
            invariant
                end <= chars@.len(),
                trim_slashes(folder_path@) == trim_slashes(chars@.take(end as int)),
            decreases end,
        {
            assert(chars@.take(end as int).drop_last() =~= chars@.take(end - 1));
            end = end - 1;
        }
        let trimmed = &chars.as_slice()[0..end];
        proof {
            assert(trimmed@ =~= chars@.take(end as int));
            assert(trim_slashes(trimmed@) == trimmed@);
        }
        let target: &Folder = if end == 0 {
            proof {
                assert(folder_at(*self, Seq::<Seq<char>>::empty()) == Some(*self));
            }
            self
        } else {
            match self.folder_by_parts(trimmed) {
                Some(g) => g,
                None => {
                    return None;
                },
            }
        };
        let ghost dirs = shallow_dirs(folder_path@);
        proof {
            assert(folder_at(*self, dirs) == Some(*target));
        }
        let mut names: Vec<String> = Vec::new();
        let mut i: usize = 0;
        while i < target.subfolders.len()
            invariant
                i <= target.subfolders@.len(),
                names@.len() == i,
                forall|j: int| 0 <= j < i ==> #[trigger] names@[j]@ == target.subfolders@[j].0@,
            decreases target.subfolders@.len() - i,
        {
            names.push(target.subfolders[i].0.clone());
            i = i + 1;
        }
        let mut files: Vec<String> = Vec::new();
        let mut i: usize = 0;
        while i < target.files.len()
            invariant
                i <= target.files@.len(),
                files@.len() == i,
                forall|j: int| 0 <= j < i ==> #[trigger] files@[j]@ == target.files@[j].directory_name@,
            decreases target.files@.len() - i,
        {
            files.push(target.files[i].directory_name.clone());
            i = i + 1;
        }
        proof {
            assert(folder_at(*target, Seq::<Seq<char>>::empty()) is Some);
            assert(Seq::new(names@.len(), |i: int| names@[i]@) =~= entry_names(target.subfolders@));
            assert(folder_wf(*target));
            assert(names_sorted(entry_names(target.subfolders@)));
            assert(self@.contains_key(dirs));
            assert(self@[dirs] == table_view(target.files@));
            assert(files@.len() == self@[dirs].len());
            assert forall|i: int| 0 <= i < files@.len() implies #[trigger] files@[i]@ == self@[dirs][i].directory_name by {
                assert(self@[dirs][i] == target.files@[i]@);
            }
            assert forall|c: Seq<char>| #[trigger] is_child(self@, dirs, c)
                <==> exists|i: int| 0 <= i < names@.len() && #[trigger] names@[i]@ == c by {
                let d1 = seq![c];
                lemma_folder_at_append(*self, dirs, d1);
                assert(dirs + d1 =~= dirs.push(c));
                assert(d1[0] == c);
                assert(d1.drop_first() =~= Seq::<Seq<char>>::empty());
                let tn = entry_names(target.subfolders@);
                if index_of_name(tn, c) is Some {
                    lemma_index_of_name_some(tn, c);
                    let i = index_of_name(tn, c)->0;
                    assert(folder_at(target.subfolders@[i].1, d1.drop_first()) is Some);
                    assert(folder_at(*target, d1) is Some);
                    assert(names@[i]@ == c);
                } else {
                    assert(folder_at(*target, d1) is None);
                    if exists|i: int| 0 <= i < names@.len() && #[trigger] names@[i]@ == c {
                        let i = choose|i: int| 0 <= i < names@.len() && #[trigger] names@[i]@ == c;
                        assert(name_at(tn, c, i));
                    }
                }
            }
        }
        let r = Some((names, files));
        assert(r is Some);
        assert((r->0).0@ == names@);
        assert forall|c: Seq<char>| #[trigger] is_child(self@, shallow_dirs(folder_path@), c)
            implies exists|i: int| 0 <= i < (r->0).0@.len() && #[trigger] (r->0).0@[i]@ == c by {
            let i = choose|i: int| 0 <= i < names@.len() && #[trigger] names@[i]@ == c;
            assert((r->0).0@[i]@ == c);
        }
        r
    }

    /// Every file below this folder whose lowercased name contains
    /// `file_name`, with its path under `current_path`: this folder's files
    /// first, then each subfolder's, subfolders in name order.
    pub fn search_file_recursive<'a>(&'a self, file_name: &str, current_path: &str) -> (r: Vec<(String, &'a IPFFileTable)>)
        ensures
            hits_view(r@) == tree_hits(*self, file_name@, current_path@),
        decreases *self,
    {
        let needle = chars_of(file_name);
        let mut results: Vec<(String, &'a IPFFileTable)> = Vec::new();
        let mut i: usize = 0;
        proof {
            assert(table_view(self.files@).take(0) =~= Seq::<IPFFileTableView>::empty());
        }
        while i < self.files.len()
            invariant
                i <= self.files@.len(),
                needle@ == file_name@,
                hits_view(results@) == local_hits(table_view(self.files@).take(i as int), file_name@, current_path@),
            decreases self.files@.len() - i,
        {
            let f: &'a IPFFileTable = &self.files[i];
            let lower = to_lowercase(f.directory_name.as_str());
            let lower_chars = chars_of(lower.as_str());
            proof {
                let t = table_view(self.files@).take(i + 1);
                assert(t.drop_last() =~= table_view(self.files@).take(i as int));
                assert(t.last() == f@);
            }
            if contains_chars(lower_chars.as_slice(), needle.as_slice()) {
                let full = join_path(current_path, f.directory_name.as_str());
                results.push((full, f));
                proof {
                    assert(hits_view(results@) =~= local_hits(table_view(self.files@).take(i as int), file_name@, current_path@).push(
                        (path_join(current_path@, f.directory_name@), f@)));
                }
            }
            i = i + 1;
        }
        proof {
            assert(table_view(self.files@).take(i as int) =~= table_view(self.files@));
        }
        let ghost local = hits_view(results@);
        let mut j: usize = 0;
        proof {
            assert(self.subfolders@.take(0) =~= Seq::<(String, Folder)>::empty());
            assert(local + Seq::<(Seq<char>, IPFFileTableView)>::empty() =~= local);
        }
        while j < self.subfolders.len()
            invariant
                j <= self.subfolders@.len(),
                hits_view(results@) == local + subs_hits(self.subfolders@.take(j as int), file_name@, current_path@),
            decreases self.subfolders@.len() - j,
        {
            let entry = &self.subfolders[j];
            let path = join_path(current_path, entry.0.as_str());
            let mut sub = entry.1.search_file_recursive(file_name, path.as_str());
            proof {
                let t = self.subfolders@.take(j + 1);
                assert(t.drop_last() =~= self.subfolders@.take(j as int));
                assert(t.last() == *entry);
                assert(hits_view(results@ + sub@) =~= hits_view(results@) + hits_view(sub@));
            }
            results.append(&mut sub);
            j = j + 1;
        }
        proof {
            assert(self.subfolders@.take(j as int) =~= self.subfolders@);
        }
        results
    }

    /// Appends to `results` the files named as the last of `parts` in the
    /// folder that the other parts name, each with its full path: the parts
    /// joined with `/` onto `current_path`.
    pub fn search_file_by_parts<'a>(&'a self, parts: &[String], current_path: &str, results: &mut Vec<(String, &'a IPFFileTable)>)
        requires
            folder_wf(*self),
        ensures
            parts@.len() == 0 ==> final(results)@ == old(results)@,
            parts@.len() > 0 ==> hits_view(final(results)@) == hits_view(old(results)@) + Seq::new(
                found_by_full_path_in(*self, texts(parts@)).len(),
                |i: int| (fold_join(current_path@, texts(parts@)), found_by_full_path_in(*self, texts(parts@))[i]),
            ),
        decreases parts@.len(),
    {
        if parts.len() == 0 {
            return;
        }
        let ghost ps = texts(parts@);
        if parts.len() == 1 {
            let filename = &parts[0];
            let full_path = join_path(current_path, filename.as_str());
            let ghost start = hits_view(results@);
            let mut i: usize = 0;
            proof {
                assert(ps.drop_last() =~= Seq::<Seq<char>>::empty());
                assert(folder_at(*self, ps.drop_last()) == Some(*self));
                assert(fold_join(current_path@, ps) == fold_join(path_join(current_path@, ps[0]), ps.drop_first()));
                assert(ps.drop_first().len() == 0);
                assert(table_view(self.files@).take(0) =~= Seq::<IPFFileTableView>::empty());
            }
            while i < self.files.len()
                invariant
                    i <= self.files@.len(),
                    ps.len() == 1,
                    full_path@ == fold_join(current_path@, ps),
                    filename@ == ps.last(),
                    hits_view(results@) == start + Seq::new(
                        named(table_view(self.files@).take(i as int), ps.last()).len(),
                        |k: int| (fold_join(current_path@, ps), named(table_view(self.files@).take(i as int), ps.last())[k]),
                    ),
                decreases self.files@.len() - i,
            {
                let f: &'a IPFFileTable = &self.files[i];
                proof {
                    let t = table_view(self.files@).take(i + 1);
                    assert(t.drop_last() =~= table_view(self.files@).take(i as int));
                    assert(t.last() == f@);
                }
                let ghost old_results = results@;
                if f.directory_name == *filename {
                    results.push((full_path.clone(), f));
                    proof {
                        let n0 = named(table_view(self.files@).take(i as int), ps.last());
                        let n1 = named(table_view(self.files@).take(i + 1), ps.last());
                        assert(f@.directory_name == ps.last());
                        assert(n1 == n0.push(f@));
                        assert(hits_view(results@) =~= hits_view(old_results).push((full_path@, f@)));
                        assert(hits_view(results@) =~= start + Seq::new(n1.len(), |k: int| (fold_join(current_path@, ps), n1[k])));
                    }
                }
                i = i + 1;
            }
            proof {
                assert(table_view(self.files@).take(i as int) =~= table_view(self.files@));
            }
        } else {
            let folder_name = &parts[0];
            let folder_chars = chars_of(folder_name.as_str());
            proof {
                assert(folder_at(*self, Seq::<Seq<char>>::empty()) is Some);
            }
            let (k, found) = locate(&self.subfolders, folder_chars.as_slice());
            let ghost rest = ps.drop_first();
            proof {
                assert(ps.drop_last() =~= seq![ps[0]] + rest.drop_last());
                assert(ps.last() == rest.last());
                assert(texts(parts@.subrange(1, parts@.len() as int)) =~= rest);
            }
            if found {
                let new_path = join_path(current_path, folder_name.as_str());
                proof {
                    lemma_folder_at_sub(*self, k as int, rest.drop_last());
                    lemma_wf_sub(*self, k as int);
                }
                self.subfolders[k].1.search_file_by_parts(&parts[1..parts.len()], new_path.as_str(), results);
            } else {
                proof {
                    if index_of_name(entry_names(self.subfolders@), ps[0]) is Some {
                        lemma_index_of_name_some(entry_names(self.subfolders@), ps[0]);
                        let j = index_of_name(entry_names(self.subfolders@), ps[0])->0;
                        lemma_str_lt_irreflexive(ps[0]);
                        assert(str_lt(entry_names(self.subfolders@)[j], ps[0]) || str_lt(ps[0], entry_names(self.subfolders@)[j]));
                    }
                    assert((seq![ps[0]] + rest.drop_last())[0] == ps[0]);
                    assert(folder_at(*self, ps.drop_last()) is None);
                    assert(hits_view(results@) =~= hits_view(results@) + Seq::new(
                        found_by_full_path_in(*self, ps).len(),
                        |i: int| (fold_join(current_path@, ps), found_by_full_path_in(*self, ps)[i]),
                    ));
                }
            }
        }
    }

    /// The files at the full path `full_path` (such as
    /// "ui/brush/spraycursor_1.tga"), each with that path: every file
    /// version filed there, in the order filed.
    pub fn search_file_by_full_path<'a>(&'a self, full_path: &str) -> (r: Vec<(String, &'a IPFFileTable)>)
        requires
            folder_wf(*self),
        ensures
            hits_view(r@) == Seq::new(
                found_by_full_path(self@, full_path@).len(),
                |i: int| (fold_join(Seq::empty(), path_parts(full_path@)), found_by_full_path(self@, full_path@)[i]),
            ),
    {
        let chars = chars_of(full_path);
        let parts = split_path(chars.as_slice());
        let mut results: Vec<(String, &'a IPFFileTable)> = Vec::new();
        let empty = "";
        proof {
            reveal_strlit("");
            lemma_path_parts_nonempty(full_path@);
            lemma_found_in_view(*self, path_parts(full_path@));
        }
        self.search_file_by_parts(parts.as_slice(), empty, &mut results);
        proof {
            assert(hits_view(Seq::<(String, &IPFFileTable)>::empty()) =~= Seq::<(Seq<char>, IPFFileTableView)>::empty());
        }
        results
    }
}

/// The folder tree of grouped entries: each entry, its directory name cut to
/// its file name, filed under the folders of its group's path.
pub fn build_tree(grouped: Vec<(String, Vec<IPFFileTable>)>) -> (root: Folder)
    ensures
        folder_wf(root),
        root@ == built_tree(grouped_view(grouped@)),
{
    let ghost gv = grouped_view(grouped@);
    let mut grouped = grouped;
    let mut root = Folder::new();
    let n = grouped.len();
    let mut i: usize = 0;
    proof {
        assert(gv.take(0) =~= Seq::<(Seq<char>, Seq<IPFFileTableView>)>::empty());
    }
    while i < n
        invariant
            n == grouped@.len(),
            n == gv.len(),
            i <= n,
            folder_wf(root),
            root@ == built_tree(gv.take(i as int)),
            forall|k: int| i <= k < n ==> (#[trigger] grouped@[k]).0@ == gv[k].0 && table_view(grouped@[k].1@) == gv[k].1,
        decreases n - i,
    {
        let mut entry: (String, Vec<IPFFileTable>) = (String::new(), Vec::new());
        grouped.set_and_swap(i, &mut entry);
        let dir = entry.0;
        let mut files = entry.1;
        let ghost fv = table_view(files@);
        let ghost base = root@;
        let m = files.len();
        let mut j: usize = 0;
        proof {
            assert(fv.take(0) =~= Seq::<IPFFileTableView>::empty());
        }
        while j < m
            invariant
                m == files@.len(),
                j <= m,
                folder_wf(root),
                root@ == tree_with_files(base, dir@, fv.take(j as int)),
                forall|k: int| j <= k < m ==> (#[trigger] files@[k])@ == fv[k],
                fv.len() == m,
            decreases m - j,
        {
            let mut file = crate::ipf::vacant_entry();
            files.set_and_swap(j, &mut file);
            let ghost orig = file@;
            match file_name_of(file.directory_name.as_str()) {
                Some(name) => {
                    file.directory_name = name;
                },
                None => {},
            }
            proof {
                assert(file@ == renamed(orig));
                let t = fv.take(j + 1);
                assert(t.drop_last() =~= fv.take(j as int));
                assert(t.last() == orig);
            }
            root.insert(dir.as_str(), file);
            j = j + 1;
        }
        proof {
            assert(fv.take(j as int) =~= fv);
            let t = gv.take(i + 1);
            assert(t.drop_last() =~= gv.take(i as int));
            assert(t.last() == gv[i as int]);
        }
        i = i + 1;
    }
    proof {
        assert(gv.take(n as int) =~= gv);
    }
    root
}

// ------------------------------------------------------------------ laws

proof fn lemma_local_hits_sound(files: Seq<IPFFileTableView>, needle: Seq<char>, cur: Seq<char>)
    ensures
        forall|i: int| 0 <= i < local_hits(files, needle, cur).len()
            ==> seq_contains(lowercase((#[trigger] local_hits(files, needle, cur)[i]).1.directory_name), needle),
    decreases files.len(),
{
    if files.len() > 0 {
        lemma_local_hits_sound(files.drop_last(), needle, cur);
    }
}

proof fn lemma_tree_hits_sound(f: Folder, needle: Seq<char>, cur: Seq<char>)
    ensures
        forall|i: int| 0 <= i < tree_hits(f, needle, cur).len()
            ==> seq_contains(lowercase((#[trigger] tree_hits(f, needle, cur)[i]).1.directory_name), needle),
    decreases f, 1int,
{
    let l = local_hits(table_view(f.files@), needle, cur);
    let r = subs_hits(f.subfolders@, needle, cur);
    lemma_local_hits_sound(table_view(f.files@), needle, cur);
    lemma_subs_hits_sound(f.subfolders@, needle, cur);
    assert forall|i: int| 0 <= i < (l + r).len()
        implies seq_contains(lowercase((#[trigger] (l + r)[i]).1.directory_name), needle) by {
        if i < l.len() {
            assert((l + r)[i] == l[i]);
        } else {
            assert((l + r)[i] == r[i - l.len()]);
        }
    }
}

proof fn lemma_subs_hits_sound(s: Seq<(String, Folder)>, needle: Seq<char>, cur: Seq<char>)
    ensures
        forall|i: int| 0 <= i < subs_hits(s, needle, cur).len()
            ==> seq_contains(lowercase((#[trigger] subs_hits(s, needle, cur)[i]).1.directory_name), needle),
    decreases s, 0int,
{
    if s.len() > 0 {
        let l = subs_hits(s.drop_last(), needle, cur);
        let r = tree_hits(s.last().1, needle, path_join(cur, s.last().0@));
        lemma_subs_hits_sound(s.drop_last(), needle, cur);
        lemma_tree_hits_sound(s.last().1, needle, path_join(cur, s.last().0@));
        assert forall|i: int| 0 <= i < (l + r).len()
            implies seq_contains(lowercase((#[trigger] (l + r)[i]).1.directory_name), needle) by {
            if i < l.len() {
                assert((l + r)[i] == l[i]);
            } else {
                assert((l + r)[i] == r[i - l.len()]);
            }
        }
    }
}

proof fn lemma_local_hits_complete(files: Seq<IPFFileTableView>, needle: Seq<char>, cur: Seq<char>, k: int)
    requires
        0 <= k < files.len(),
        seq_contains(lowercase(files[k].directory_name), needle),
    ensures
        local_hits(files, needle, cur).contains((path_join(cur, files[k].directory_name), files[k])),
    decreases files.len(),
{
    let h = local_hits(files.drop_last(), needle, cur);
    if k == files.len() - 1 {
        let e = (path_join(cur, files[k].directory_name), files[k]);
        assert(files.last() == files[k]);
        assert(local_hits(files, needle, cur) == h.push(e));
        assert(h.push(e)[h.len() as int] == e);
    } else {
        assert(files.drop_last()[k] == files[k]);
        lemma_local_hits_complete(files.drop_last(), needle, cur, k);
        let e = (path_join(cur, files[k].directory_name), files[k]);
        let i = choose|i: int| 0 <= i < h.len() && h[i] == e;
        let f = files.last();
        if seq_contains(lowercase(f.directory_name), needle) {
            let g = h.push((path_join(cur, f.directory_name), f));
            assert(g[i] == e);
        }
    }
}

/// A search below a folder returns only files whose lowercased name holds
/// the search text.
pub proof fn law_search_hits_match(f: Folder, needle: Seq<char>, cur: Seq<char>)
    ensures
        forall|i: int| 0 <= i < tree_hits(f, needle, cur).len()
            ==> seq_contains(lowercase((#[trigger] tree_hits(f, needle, cur)[i]).1.directory_name), needle),
{
    lemma_tree_hits_sound(f, needle, cur);
}

/// A file directly in the folder whose lowercased name holds the search
/// text is among what the search returns, with its path under `cur`.
pub proof fn law_search_finds_matching_file(f: Folder, needle: Seq<char>, cur: Seq<char>, k: int)
    requires
        0 <= k < f.files@.len(),
        seq_contains(lowercase(f.files@[k].directory_name@), needle),
    ensures
        tree_hits(f, needle, cur).contains((path_join(cur, f.files@[k].directory_name@), f.files@[k]@)),
{
    let files = table_view(f.files@);
    assert(files[k] == f.files@[k]@);
    lemma_local_hits_complete(files, needle, cur, k);
    let l = local_hits(files, needle, cur);
    let r = subs_hits(f.subfolders@, needle, cur);
    let e = (path_join(cur, f.files@[k].directory_name@), f.files@[k]@);
    let i = choose|i: int| 0 <= i < l.len() && l[i] == e;
    assert((l + r)[i] == e);
}

/// A file filed under a path, bearing the path's last piece as its name, is
/// found again by a search for that path, after everything found there
/// before; and the folder of the path then exists.
pub proof fn law_search_finds_filed(
    m: Map<Seq<Seq<char>>, Seq<IPFFileTableView>>,
    path: Seq<char>,
    file: IPFFileTableView,
)
    requires
        file.directory_name == leaf_name(path),
    ensures
        found_by_full_path(tree_with_file(m, path, file), path) == found_by_full_path(m, path).push(file),
        tree_with_file(m, path, file).contains_key(dir_parts(path)),
{
    let m2 = tree_with_file(m, path, file);
    let d = dir_parts(path);
    assert(is_prefix_of(d, d)) by {
        assert(d.take(d.len() as int) =~= d);
    }
    let before = if m.contains_key(d) { m[d] } else { Seq::empty() };
    assert(m2[d] == before + seq![file]);
    assert((before + seq![file]).drop_last() =~= before);
    if !m.contains_key(d) {
        assert(named(before, leaf_name(path)) == Seq::<IPFFileTableView>::empty());
    }
}

/// Filing a file leaves the search for any other path as it was, unless
/// that path names the same folder and the file bears its last piece.
pub proof fn law_search_unaffected(
    m: Map<Seq<Seq<char>>, Seq<IPFFileTableView>>,
    path: Seq<char>,
    file: IPFFileTableView,
    q: Seq<char>,
)
    requires
        dir_parts(q) != dir_parts(path) || file.directory_name != leaf_name(q),
    ensures
        found_by_full_path(tree_with_file(m, path, file), q) == found_by_full_path(m, q),
{
    let m2 = tree_with_file(m, path, file);
    let d = dir_parts(q);
    if m2.contains_key(d) {
        let before = if m.contains_key(d) { m[d] } else { Seq::empty() };
        if d == dir_parts(path) {
            assert((before + seq![file]).drop_last() =~= before);
            assert((before + seq![file]).last() == file);
            if !m.contains_key(d) {
                assert(named(before, leaf_name(q)) == Seq::<IPFFileTableView>::empty());
            }
        } else {
            assert(before + Seq::<IPFFileTableView>::empty() =~= before);
            if !m.contains_key(d) {
                assert(named(before, leaf_name(q)) == Seq::<IPFFileTableView>::empty());
            }
        }
    }
}

/// What a search for `q` finds in the tree built from the groups `g`: the
/// files of every group whose path names the same folders as `q`, renamed
/// as `build_tree` files them and bearing the last piece of `q`, group
/// after group.
pub open spec fn group_hits(g: Seq<(Seq<char>, Seq<IPFFileTableView>)>, q: Seq<char>) -> Seq<IPFFileTableView>
    decreases g.len(),
{
    if g.len() == 0 {
        Seq::empty()
    } else {
        group_hits(g.drop_last(), q) + (if dir_parts(g.last().0) == dir_parts(q) {
            named(g.last().1.map_values(|f: IPFFileTableView| renamed(f)), leaf_name(q))
        } else {
            Seq::empty()
        })
    }
}

proof fn lemma_search_with_files(
    m: Map<Seq<Seq<char>>, Seq<IPFFileTableView>>,
    path: Seq<char>,
    files: Seq<IPFFileTableView>,
    q: Seq<char>,
)
    ensures
        found_by_full_path(tree_with_files(m, path, files), q) == found_by_full_path(m, q) + (if dir_parts(path) == dir_parts(q) {
            named(files.map_values(|f: IPFFileTableView| renamed(f)), leaf_name(q))
        } else {
            Seq::empty()
        }),
    decreases files.len(),
{
    let rn = |f: IPFFileTableView| renamed(f);
    if files.len() == 0 {
        assert(files.map_values(rn) =~= Seq::<IPFFileTableView>::empty());
        assert(found_by_full_path(m, q) + Seq::<IPFFileTableView>::empty() =~= found_by_full_path(m, q));
    } else {
        let m1 = tree_with_files(m, path, files.drop_last());
        let f = renamed(files.last());
        lemma_search_with_files(m, path, files.drop_last(), q);
        assert(files.map_values(rn).drop_last() =~= files.drop_last().map_values(rn));
        assert(files.map_values(rn).last() == f);
        if dir_parts(q) == dir_parts(path) && f.directory_name == leaf_name(q) {
            lemma_found_same_folder(m1, path, q, f);
            assert(named(files.map_values(rn), leaf_name(q)) == named(files.drop_last().map_values(rn), leaf_name(q)).push(f));
        } else {
            law_search_unaffected(m1, path, f, q);
            if dir_parts(path) == dir_parts(q) {
                assert(named(files.map_values(rn), leaf_name(q)) == named(files.drop_last().map_values(rn), leaf_name(q)));
            }
        }
    }
}

/// Filing under `path` a file named as `q`'s last piece, where `q` names the
/// same folders, adds it to the search for `q`.
proof fn lemma_found_same_folder(
    m: Map<Seq<Seq<char>>, Seq<IPFFileTableView>>,
    path: Seq<char>,
    q: Seq<char>,
    file: IPFFileTableView,
)
    requires
        dir_parts(q) == dir_parts(path),
        file.directory_name == leaf_name(q),
    ensures
        found_by_full_path(tree_with_file(m, path, file), q) == found_by_full_path(m, q).push(file),
{
    let d = dir_parts(q);
    let m2 = tree_with_file(m, path, file);
    assert(is_prefix_of(d, dir_parts(path))) by {
        assert(d.take(d.len() as int) =~= d);
    }
    let before = if m.contains_key(d) { m[d] } else { Seq::empty() };
    assert(m2[d] == before + seq![file]);
    assert((before + seq![file]).drop_last() =~= before);
    if !m.contains_key(d) {
        assert(named(before, leaf_name(q)) == Seq::<IPFFileTableView>::empty());
    }
}

/// Searching the tree built from grouped entries by a full path finds the
/// entries of every group filed in that path's folder under that file
/// name, in group order and, within a group, in their order.
pub proof fn law_built_tree_search(g: Seq<(Seq<char>, Seq<IPFFileTableView>)>, q: Seq<char>)
    ensures
        found_by_full_path(built_tree(g), q) == group_hits(g, q),
    decreases g.len(),
{
    if g.len() == 0 {
        let d = dir_parts(q);
        if d.len() == 0 {
            assert(d =~= Seq::<Seq<char>>::empty());
            assert(named(Seq::<IPFFileTableView>::empty(), leaf_name(q)) == Seq::<IPFFileTableView>::empty());
        }
    } else {
        law_built_tree_search(g.drop_last(), q);
        lemma_search_with_files(built_tree(g.drop_last()), g.last().0, g.last().1, q);
    }
}


// ------------------------------------------------------------------ listings

/// One line of a folder listing.
#[derive(Debug, PartialEq, Eq)]
pub enum TreeLine {
    /// `{prefix}Folder: {name}`.
    Folder { prefix: String, name: String },
    /// `{prefix}File: {path:?}`, for a file whose archive path is known.
    File { prefix: String, path: Option<String> },
    /// `{prefix}... ({count} more folders)`.
    MoreFolders { prefix: String, count: usize },
    /// `{prefix}... ({count} more files)`.
    MoreFiles { prefix: String, count: usize },
}

/// A listing line with its texts as character sequences.
pub enum TreeLineView {
    Folder(Seq<char>, Seq<char>),
    File(Seq<char>, Option<Seq<char>>),
    MoreFolders(Seq<char>, nat),
    MoreFiles(Seq<char>, nat),
}

impl View for TreeLine {
    type V = TreeLineView;

    open spec fn view(&self) -> TreeLineView {
        match self {
            TreeLine::Folder { prefix, name } => TreeLineView::Folder(prefix@, name@),
            TreeLine::File { prefix, path } => TreeLineView::File(prefix@, match path {
                Some(p) => Some(p@),
                None => None,
            }),
            TreeLine::MoreFolders { prefix, count } => TreeLineView::MoreFolders(prefix@, *count as nat),
            TreeLine::MoreFiles { prefix, count } => TreeLineView::MoreFiles(prefix@, *count as nat),
        }
    }
}

/// The views of the lines `s`.
pub open spec fn lines_view(s: Seq<TreeLine>) -> Seq<TreeLineView> {
    Seq::new(s.len(), |i: int| s[i]@)
}

/// The smaller of `n` and `k`: how many of `n` entries a limit of `k` shows.
pub open spec fn shown(n: nat, k: nat) -> nat {
    if n <= k { n } else { k }
}

/// The prefix of the lines one level down.
pub open spec fn indent(prefix: Seq<char>) -> Seq<char> {
    prefix + seq![' ', ' ']
}

/// A `File` line for each of `files`.
pub open spec fn file_lines(files: Seq<IPFFileTable>, prefix: Seq<char>) -> Seq<TreeLineView> {
    Seq::new(files.len(), |i: int| TreeLineView::File(prefix, files[i]@.file_path))
}

/// The line that tells how many of `n` entries a limit of `k` leaves out,
/// if it leaves any out.
pub open spec fn more_line(n: nat, k: nat, folders: bool, prefix: Seq<char>) -> Seq<TreeLineView> {
    if n > k {
        if folders {
            seq![TreeLineView::MoreFolders(prefix, (n - k) as nat)]
        } else {
            seq![TreeLineView::MoreFiles(prefix, (n - k) as nat)]
        }
    } else {
        Seq::empty()
    }
}

/// The listing of `f` with at most `fl` subfolders and `fi` files shown in
/// each folder: each shown subfolder's line followed by its own listing one
/// level down, a line for the subfolders left out, then the shown files and
/// a line for the files left out.
pub open spec fn listing(f: Folder, prefix: Seq<char>, fl: nat, fi: nat) -> Seq<TreeLineView>
    decreases f, 1int, 0nat,
{
    let n = f.subfolders@.len();
    let m = f.files@.len();
    subs_listing(f.subfolders@, shown(n, fl), prefix, fl, fi) + more_line(n, fl, true, prefix)
        + file_lines(f.files@.take(shown(m, fi) as int), prefix) + more_line(m, fi, false, prefix)
}

/// The lines of the first `k` subfolders of `s`.
pub open spec fn subs_listing(s: Seq<(String, Folder)>, k: nat, prefix: Seq<char>, fl: nat, fi: nat) -> Seq<TreeLineView>
    decreases s, 0int, k,
{
    if k == 0 || k > s.len() {
        Seq::empty()
    } else {
        subs_listing(s, (k - 1) as nat, prefix, fl, fi) + seq![TreeLineView::Folder(prefix, s[k - 1].0@)]
            + listing(s[k - 1].1, indent(prefix), fl, fi)
    }
}

/// The names of the first `k` of `files`.
pub open spec fn first_names(files: Seq<IPFFileTable>, k: nat) -> Seq<Seq<char>> {
    Seq::new(shown(files.len(), k), |i: int| files[i].directory_name@)
}

/// A copy of `s`.
fn copy_text(s: &str) -> (r: String)
    ensures
        r@ == s@,
{
    String::from_str(s)
}

/// The names of the first `k` of `files`.
fn first_file_names(files: &Vec<IPFFileTable>, k: usize) -> (r: Vec<String>)
    ensures
        texts(r@) == first_names(files@, k as nat),
{
    let n = if files.len() <= k { files.len() } else { k };
    let mut r: Vec<String> = Vec::new();
    let mut i: usize = 0;
    while i < n
        invariant
            i <= n,
            n == shown(files@.len(), k as nat),
            texts(r@) =~= first_names(files@, k as nat).take(i as int),
        decreases n - i,
    {
        let name = copy_text(files[i].directory_name.as_str());
        let ghost before = r@;
        r.push(name);
        proof {
            assert(texts(r@) =~= texts(before).push(name@));
            assert(first_names(files@, k as nat).take(i + 1) =~= first_names(files@, k as nat).take(i as int).push(
                files@[i as int].directory_name@));
        }
        i = i + 1;
    }
    r
}

impl Folder {
    /// The lines that list this folder with at most `folder_limit`
    /// subfolders and `file_limit` files shown in each folder, each line
    /// starting with `prefix` and two more spaces for each level down.
    pub fn listing_lines(&self, prefix: &str, folder_limit: usize, file_limit: usize) -> (r: Vec<TreeLine>)
        ensures
            lines_view(r@) == listing(*self, prefix@, folder_limit as nat, file_limit as nat),
        decreases *self,
    {
        let ghost fl = folder_limit as nat;
        let ghost fi = file_limit as nat;
        let mut out: Vec<TreeLine> = Vec::new();
        let mut sub_prefix = copy_text(prefix);
        let two = "  ";
        proof {
            reveal_strlit("  ");
        }
        sub_prefix.append(two);
        let n = self.subfolders.len();
        let k = if n <= folder_limit { n } else { folder_limit };
        let mut i: usize = 0;
        proof {
            assert(lines_view(out@) =~= subs_listing(self.subfolders@, 0, prefix@, fl, fi));
        }
        while i < k
            invariant
                i <= k,
                n == self.subfolders@.len(),
                k == shown(n as nat, fl),
                fl == folder_limit,
                fi == file_limit,
                sub_prefix@ == indent(prefix@),
                lines_view(out@) == subs_listing(self.subfolders@, i as nat, prefix@, fl, fi),
            decreases k - i,
        {
            let entry = &self.subfolders[i];
            let ghost before = out@;
            out.push(TreeLine::Folder { prefix: copy_text(prefix), name: copy_text(entry.0.as_str()) });
            let mut sub = entry.1.listing_lines(sub_prefix.as_str(), folder_limit, file_limit);
            let ghost sub_view = sub@;
            out.append(&mut sub);
            proof {
                assert(lines_view(out@) =~= lines_view(before) + seq![TreeLineView::Folder(prefix@, entry.0@)]
                    + lines_view(sub_view));
            }
            i = i + 1;
        }
        let ghost after_subs = lines_view(out@);
        if n > folder_limit {
            out.push(TreeLine::MoreFolders { prefix: copy_text(prefix), count: n - folder_limit });
        }
        proof {
            assert(lines_view(out@) =~= after_subs + more_line(n as nat, fl, true, prefix@));
        }
        let ghost after_more = lines_view(out@);
        let m = self.files.len();
        let kf = if m <= file_limit { m } else { file_limit };
        let mut j: usize = 0;
        while j < kf
            invariant
                j <= kf,
                m == self.files@.len(),
                kf == shown(m as nat, fi),
                fi == file_limit,
                lines_view(out@) == after_more + file_lines(self.files@.take(j as int), prefix@),
            decreases kf - j,
        {
            let f = &self.files[j];
            let path = match &f.file_path {
                Some(p) => Some(copy_text(p.as_str())),
                None => None,
            };
            let ghost before = out@;
            out.push(TreeLine::File { prefix: copy_text(prefix), path });
            proof {
                let line = TreeLineView::File(prefix@, f@.file_path);
                assert(out@.last()@ == line);
                assert(lines_view(out@) =~= lines_view(before).push(line));
                assert(file_lines(self.files@.take(j + 1), prefix@) =~= file_lines(self.files@.take(j as int), prefix@).push(line));
                assert(lines_view(out@) =~= after_more + file_lines(self.files@.take(j + 1), prefix@));
            }
            j = j + 1;
        }
        let ghost after_files = lines_view(out@);
        if m > file_limit {
            out.push(TreeLine::MoreFiles { prefix: copy_text(prefix), count: m - file_limit });
        }
        proof {
            assert(lines_view(out@) =~= after_files + more_line(m as nat, fi, false, prefix@));
        }
        out
    }
}

/// What `print_shallow_tree` shows of `root`: the first `max_subfolders`
/// subfolders, each with the names of its first `max_files` files, then the
/// names of the first `max_files` files of the root itself.
pub fn shallow_tree(root: &Folder, max_subfolders: usize, max_files: usize) -> (r: (Vec<(String, Vec<String>)>, Vec<String>))
    ensures
        r.0@.len() == shown(root.subfolders@.len(), max_subfolders as nat),
        forall|i: int| 0 <= i < r.0@.len() ==> (#[trigger] r.0@[i]).0@ == root.subfolders@[i].0@
            && texts(r.0@[i].1@) == first_names(root.subfolders@[i].1.files@, max_files as nat),
        texts(r.1@) == first_names(root.files@, max_files as nat),
{
    let n = if root.subfolders.len() <= max_subfolders { root.subfolders.len() } else { max_subfolders };
    let mut folders: Vec<(String, Vec<String>)> = Vec::new();
    let mut i: usize = 0;
    while i < n
        invariant
            i <= n,
            n == shown(root.subfolders@.len(), max_subfolders as nat),
            folders@.len() == i,
            forall|x: int| 0 <= x < i ==> (#[trigger] folders@[x]).0@ == root.subfolders@[x].0@
                && texts(folders@[x].1@) == first_names(root.subfolders@[x].1.files@, max_files as nat),
        decreases n - i,
    {
        let entry = &root.subfolders[i];
        folders.push((copy_text(entry.0.as_str()), first_file_names(&entry.1.files, max_files)));
        i = i + 1;
    }
    (folders, first_file_names(&root.files, max_files))
}

} // verus!
