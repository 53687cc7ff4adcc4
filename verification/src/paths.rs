//! Archive paths as the standard library's `Path` sees them: their
//! components, parent and file name, and the order of `Path`.

use vstd::prelude::*;
use std::path::Component;
use crate::order::{str_lt, order_chars, lemma_str_lt_irreflexive, lemma_str_lt_transitive, lemma_str_lt_total};
use crate::sort::KeyOrder;
use crate::text::chars_of;

verus! {

/// A component of a path, as `std::path::Component` has it.
pub enum PathPart {
    Prefix(String),
    RootDir,
    CurDir,
    ParentDir,
    Normal(String),
}

/// A component as the rank of its kind, in the order in which `Component`
/// declares its kinds, and its text (empty for the kinds without one).
pub open spec fn part_view(p: PathPart) -> (u8, Seq<char>) {
    match p {
        PathPart::Prefix(s) => (0u8, s@),
        PathPart::RootDir => (1u8, Seq::empty()),
        PathPart::CurDir => (2u8, Seq::empty()),
        PathPart::ParentDir => (3u8, Seq::empty()),
        PathPart::Normal(s) => (4u8, s@),
    }
}

/// The components of `v`, as views.
pub open spec fn parts_view(v: Seq<PathPart>) -> Seq<(u8, Seq<char>)> {
    Seq::new(v.len(), |i: int| part_view(v[i]))
}

/// The components of the path of the characters `p`, as
/// `Path::components` yields them.
pub uninterp spec fn path_components(p: Seq<char>) -> Seq<(u8, Seq<char>)>;

/// `Path::new(p).components()`, each converted to a `PathPart`. The
/// contract names the result; how the standard library splits and
/// normalizes a path is not stated.
#[verifier::external_body]
pub fn components_of(p: &str) -> (r: Vec<PathPart>)
    ensures
        parts_view(r@) == path_components(p@),
{
    std::path::Path::new(p).components().map(|c| match c {
        Component::Prefix(x) => PathPart::Prefix(x.as_os_str().to_string_lossy().into_owned()),
        Component::RootDir => PathPart::RootDir,
        Component::CurDir => PathPart::CurDir,
        Component::ParentDir => PathPart::ParentDir,
        Component::Normal(x) => PathPart::Normal(x.to_string_lossy().into_owned()),
    }).collect()
}

/// The characters of `Path::parent` of the path of the characters `p`, if
/// it has one.
pub uninterp spec fn path_parent(p: Seq<char>) -> Option<Seq<char>>;

/// `Path::new(p).parent()` as text. The contract names the result.
#[verifier::external_body]
pub fn parent_of(p: &str) -> (r: Option<String>)
    ensures
        match r {
            Some(q) => path_parent(p@) == Some(q@),
            None => path_parent(p@) is None,
        },
{
    std::path::Path::new(p).parent().and_then(|q| q.to_str()).map(|q| q.to_string())
}

/// The characters of `Path::file_name` of the path of the characters `p`,
/// if it has one.
pub uninterp spec fn path_file_name(p: Seq<char>) -> Option<Seq<char>>;

/// `Path::new(p).file_name()` as text: the final component of the path,
/// if there is one. The contract names the result.
#[verifier::external_body]
pub fn file_name_of(p: &str) -> (r: Option<String>)
    ensures
        match r {
            Some(n) => path_file_name(p@) == Some(n@),
            None => path_file_name(p@) is None,
        },
{
    std::path::Path::new(p).file_name().and_then(|s| s.to_str()).map(|s| s.to_string())
}

// ------------------------------------------------------------------ order

/// One component sorts before another: by kind, then by text.
pub open spec fn part_lt(a: (u8, Seq<char>), b: (u8, Seq<char>)) -> bool {
    a.0 < b.0 || (a.0 == b.0 && str_lt(a.1, b.1))
}

/// The order of `Path`: its components compared in turn.
pub open spec fn parts_lt(a: Seq<(u8, Seq<char>)>, b: Seq<(u8, Seq<char>)>) -> bool
    decreases a.len(),
{
    if a.len() == 0 {
        b.len() > 0
    } else if b.len() == 0 {
        false
    } else if a[0] != b[0] {
        part_lt(a[0], b[0])
    } else {
        parts_lt(a.drop_first(), b.drop_first())
    }
}

proof fn lemma_part_lt_facts(a: (u8, Seq<char>), b: (u8, Seq<char>), c: (u8, Seq<char>))
    ensures
        !part_lt(a, a),
        part_lt(a, b) && part_lt(b, c) ==> part_lt(a, c),
        a == b || part_lt(a, b) || part_lt(b, a),
{
    lemma_str_lt_irreflexive(a.1);
    if part_lt(a, b) && part_lt(b, c) && a.0 == b.0 && b.0 == c.0 {
        lemma_str_lt_transitive(a.1, b.1, c.1);
    }
    lemma_str_lt_total(a.1, b.1);
}

proof fn lemma_parts_lt_irreflexive(a: Seq<(u8, Seq<char>)>)
    ensures
        !parts_lt(a, a),
    decreases a.len(),
{
    if a.len() > 0 {
        lemma_parts_lt_irreflexive(a.drop_first());
    }
}

proof fn lemma_parts_lt_transitive(a: Seq<(u8, Seq<char>)>, b: Seq<(u8, Seq<char>)>, c: Seq<(u8, Seq<char>)>)
    requires
        parts_lt(a, b),
        parts_lt(b, c),
    ensures
        parts_lt(a, c),
    decreases a.len(),
{
    if a.len() > 0 && b.len() > 0 && c.len() > 0 {
        lemma_part_lt_facts(a[0], b[0], c[0]);
        lemma_part_lt_facts(a[0], c[0], b[0]);
        lemma_part_lt_facts(b[0], a[0], c[0]);
        lemma_part_lt_facts(c[0], b[0], a[0]);
        if a[0] == b[0] && b[0] == c[0] {
            lemma_parts_lt_transitive(a.drop_first(), b.drop_first(), c.drop_first());
        }
    }
}

proof fn lemma_parts_lt_total(a: Seq<(u8, Seq<char>)>, b: Seq<(u8, Seq<char>)>)
    ensures
        a == b || parts_lt(a, b) || parts_lt(b, a),
    decreases a.len(),
{
    if a.len() > 0 && b.len() > 0 {
        lemma_part_lt_facts(a[0], b[0], b[0]);
        if a[0] == b[0] {
            lemma_parts_lt_total(a.drop_first(), b.drop_first());
            if a.drop_first() == b.drop_first() {
                assert(a =~= seq![a[0]] + a.drop_first());
                assert(b =~= seq![b[0]] + b.drop_first());
            }
        }
    } else if a.len() == 0 && b.len() == 0 {
        assert(a =~= b);
    }
}

/// Where component `a` stands against `b`: -1 before, 0 equal, 1 after.
fn order_parts(a: &PathPart, b: &PathPart) -> (r: i8)
    ensures
        r == -1 <==> part_lt(part_view(*a), part_view(*b)),
        r == 0 <==> part_view(*a) == part_view(*b),
        r == 1 <==> part_lt(part_view(*b), part_view(*a)),
        r == -1 || r == 0 || r == 1,
{
    let ra: u8 = match a {
        PathPart::Prefix(_) => 0,
        PathPart::RootDir => 1,
        PathPart::CurDir => 2,
        PathPart::ParentDir => 3,
        PathPart::Normal(_) => 4,
    };
    let rb: u8 = match b {
        PathPart::Prefix(_) => 0,
        PathPart::RootDir => 1,
        PathPart::CurDir => 2,
        PathPart::ParentDir => 3,
        PathPart::Normal(_) => 4,
    };
    proof {
        lemma_part_lt_facts(part_view(*a), part_view(*b), part_view(*b));
        lemma_part_lt_facts(part_view(*b), part_view(*a), part_view(*a));
    }
    if ra < rb {
        return -1;
    }
    if rb < ra {
        return 1;
    }
    let ta: Vec<char> = match a {
        PathPart::Prefix(s) => chars_of(s.as_str()),
        PathPart::Normal(s) => chars_of(s.as_str()),
        _ => Vec::new(),
    };
    let tb: Vec<char> = match b {
        PathPart::Prefix(s) => chars_of(s.as_str()),
        PathPart::Normal(s) => chars_of(s.as_str()),
        _ => Vec::new(),
    };
    proof {
        assert(ta@ == part_view(*a).1);
        assert(tb@ == part_view(*b).1);
    }
    order_chars(ta.as_slice(), tb.as_slice())
}

/// Where the path of components `a` stands against that of `b`.
fn order_part_lists(a: &Vec<PathPart>, b: &Vec<PathPart>) -> (r: i8)
    ensures
        r == -1 <==> parts_lt(parts_view(a@), parts_view(b@)),
        r == 0 <==> parts_view(a@) == parts_view(b@),
        r == 1 <==> parts_lt(parts_view(b@), parts_view(a@)),
        r == -1 || r == 0 || r == 1,
{
    let ghost va = parts_view(a@);
    let ghost vb = parts_view(b@);
    let mut i: usize = 0;
    proof {
        lemma_parts_lt_irreflexive(va);
        lemma_parts_lt_irreflexive(vb);
        lemma_parts_lt_total(va, vb);
    }
    loop
        invariant
            va == parts_view(a@),
            vb == parts_view(b@),
            i <= a@.len(),
            i <= b@.len(),
            va.take(i as int) == vb.take(i as int),
            !parts_lt(va, va),
            !parts_lt(vb, vb),
            va == vb || parts_lt(va, vb) || parts_lt(vb, va),
        decreases a@.len() - i,
    {
        proof {
            lemma_parts_lt_skip(va, vb, i as int);
            lemma_parts_lt_skip(vb, va, i as int);
        }
        if i == a.len() && i == b.len() {
            assert(va =~= va.take(i as int));
            assert(vb =~= vb.take(i as int));
            return 0;
        }
        if i == a.len() {
            assert(va.skip(i as int).len() == 0);
            return -1;
        }
        if i == b.len() {
            assert(vb.skip(i as int).len() == 0);
            return 1;
        }
        let o = order_parts(&a[i], &b[i]);
        assert(va.skip(i as int)[0] == va[i as int]);
        assert(vb.skip(i as int)[0] == vb[i as int]);
        if o != 0 {
            proof {
                if va == vb {
                    assert(va[i as int] == vb[i as int]);
                }
            }
            return o;
        }
        assert(va.take(i + 1) =~= va.take(i as int).push(va[i as int]));
        assert(vb.take(i + 1) =~= vb.take(i as int).push(vb[i as int]));
        i = i + 1;
    }
}

proof fn lemma_parts_lt_skip(a: Seq<(u8, Seq<char>)>, b: Seq<(u8, Seq<char>)>, i: int)
    requires
        0 <= i <= a.len(),
        i <= b.len(),
        a.take(i) == b.take(i),
    ensures
        parts_lt(a, b) == parts_lt(a.skip(i), b.skip(i)),
    decreases i,
{
    if i > 0 {
        assert(a[0] == a.take(i)[0]);
        assert(b[0] == b.take(i)[0]);
        assert(a.drop_first().take(i - 1) =~= a.take(i).drop_first());
        assert(b.drop_first().take(i - 1) =~= b.take(i).drop_first());
        lemma_parts_lt_skip(a.drop_first(), b.drop_first(), i - 1);
        assert(a.drop_first().skip(i - 1) =~= a.skip(i));
        assert(b.drop_first().skip(i - 1) =~= b.skip(i));
    } else {
        assert(a.skip(0) =~= a);
        assert(b.skip(0) =~= b);
    }
}

/// The sort key of an archive entry: the components of the parent of its
/// archive path, then the archive's file name.
pub struct FolderFileKey {
    pub parent: Vec<PathPart>,
    pub name: Vec<char>,
}

/// A key as components and text.
pub open spec fn folder_key_view(k: FolderFileKey) -> (Seq<(u8, Seq<char>)>, Seq<char>) {
    (parts_view(k.parent@), k.name@)
}

/// Keys sort by parent folder first, then by file name.
pub open spec fn folder_key_lt(a: (Seq<(u8, Seq<char>)>, Seq<char>), b: (Seq<(u8, Seq<char>)>, Seq<char>)) -> bool {
    parts_lt(a.0, b.0) || (a.0 == b.0 && str_lt(a.1, b.1))
}

proof fn lemma_folder_key_facts(
    a: (Seq<(u8, Seq<char>)>, Seq<char>),
    b: (Seq<(u8, Seq<char>)>, Seq<char>),
    c: (Seq<(u8, Seq<char>)>, Seq<char>),
)
    ensures
        !folder_key_lt(a, a),
        folder_key_lt(a, b) && folder_key_lt(b, c) ==> folder_key_lt(a, c),
        folder_key_lt(a, c) ==> folder_key_lt(a, b) || folder_key_lt(b, c),
{
    lemma_parts_lt_irreflexive(a.0);
    lemma_str_lt_irreflexive(a.1);
    lemma_parts_lt_total(a.0, b.0);
    lemma_parts_lt_total(b.0, c.0);
    lemma_parts_lt_total(a.0, c.0);
    lemma_str_lt_total(a.1, b.1);
    lemma_str_lt_total(b.1, c.1);
    if parts_lt(a.0, b.0) && parts_lt(b.0, c.0) {
        lemma_parts_lt_transitive(a.0, b.0, c.0);
    }
    if parts_lt(b.0, a.0) && parts_lt(c.0, b.0) {
        lemma_parts_lt_transitive(c.0, b.0, a.0);
        lemma_parts_lt_irreflexive(c.0);
        if parts_lt(a.0, c.0) {
            lemma_parts_lt_transitive(a.0, c.0, a.0);
        }
    }
    if parts_lt(b.0, a.0) && parts_lt(a.0, c.0) {
        lemma_parts_lt_transitive(b.0, a.0, c.0);
    }
    if parts_lt(a.0, c.0) && parts_lt(c.0, b.0) {
        lemma_parts_lt_transitive(a.0, c.0, b.0);
    }
    if str_lt(a.1, b.1) && str_lt(b.1, c.1) {
        lemma_str_lt_transitive(a.1, b.1, c.1);
    }
    if str_lt(b.1, a.1) && str_lt(c.1, b.1) {
        lemma_str_lt_transitive(c.1, b.1, a.1);
        lemma_str_lt_irreflexive(c.1);
        if str_lt(a.1, c.1) {
            lemma_str_lt_transitive(a.1, c.1, a.1);
        }
    }
    if parts_lt(b.0, a.0) && parts_lt(a.0, b.0) {
        lemma_parts_lt_transitive(a.0, b.0, a.0);
    }
    if parts_lt(c.0, b.0) && parts_lt(b.0, c.0) {
        lemma_parts_lt_transitive(b.0, c.0, b.0);
        lemma_parts_lt_irreflexive(b.0);
    }
    lemma_parts_lt_irreflexive(b.0);
    lemma_parts_lt_irreflexive(c.0);
}

impl KeyOrder for FolderFileKey {
    open spec fn key_lt(a: Self, b: Self) -> bool {
        folder_key_lt(folder_key_view(a), folder_key_view(b))
    }

    proof fn lemma_irreflexive(a: Self) {
        lemma_folder_key_facts(folder_key_view(a), folder_key_view(a), folder_key_view(a));
    }

    proof fn lemma_transitive(a: Self, b: Self, c: Self) {
        lemma_folder_key_facts(folder_key_view(a), folder_key_view(b), folder_key_view(c));
    }

    proof fn lemma_negative_transitive(a: Self, b: Self, c: Self) {
        lemma_folder_key_facts(folder_key_view(a), folder_key_view(b), folder_key_view(c));
    }

    fn key_less(&self, other: &Self) -> (r: bool) {
        let o = order_part_lists(&self.parent, &other.parent);
        let ghost pa = parts_view(self.parent@);
        let ghost pb = parts_view(other.parent@);
        proof {
            lemma_parts_lt_irreflexive(pa);
            if parts_lt(pa, pb) && parts_lt(pb, pa) {
                lemma_parts_lt_transitive(pa, pb, pa);
            }
        }
        if o == -1 {
            true
        } else if o == 1 {
            false
        } else {
            order_chars(self.name.as_slice(), other.name.as_slice()) == -1
        }
    }
}

} // verus!
