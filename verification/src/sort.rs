//! Stable sorting by key: the order in which a stable sort puts the items
//! of a list, computed by merge sort.

use vstd::prelude::*;
use vstd::set_lib::{set_int_range, lemma_int_range, lemma_subset_equality, lemma_len_subset};

verus! {

/// Keys with a strict weak order.
pub trait KeyOrder: Sized {
    /// `a` sorts strictly before `b`.
    spec fn key_lt(a: Self, b: Self) -> bool;

    proof fn lemma_irreflexive(a: Self)
        ensures
            !Self::key_lt(a, a),
    ;

    proof fn lemma_transitive(a: Self, b: Self, c: Self)
        requires
            Self::key_lt(a, b),
            Self::key_lt(b, c),
        ensures
            Self::key_lt(a, c),
    ;

    /// Whatever `b` is, it does not fall outside `a < c`.
    proof fn lemma_negative_transitive(a: Self, b: Self, c: Self)
        requires
            Self::key_lt(a, c),
        ensures
            Self::key_lt(a, b) || Self::key_lt(b, c),
    ;

    fn key_less(&self, other: &Self) -> (r: bool)
        ensures
            r == Self::key_lt(*self, *other),
    ;
}

/// Item `i` goes before item `j` in a stable sort by `keys`: its key is
/// smaller, or the keys are equivalent and it came first.
pub open spec fn rank_lt<K: KeyOrder>(keys: Seq<K>, i: int, j: int) -> bool {
    K::key_lt(keys[i], keys[j]) || (!K::key_lt(keys[j], keys[i]) && i < j)
}

/// `s` lists items in stable order.
pub open spec fn rank_sorted<K: KeyOrder>(keys: Seq<K>, s: Seq<usize>) -> bool {
    forall|a: int, b: int| 0 <= a < b < s.len() ==> rank_lt(keys, #[trigger] s[a] as int, #[trigger] s[b] as int)
}

/// `v` occurs in `s`.
pub open spec fn occurs(s: Seq<usize>, v: int) -> bool {
    exists|a: int| 0 <= a < s.len() && s[a] == v
}

/// `s` is the order in which a stable sort by `keys` puts the items: every
/// index of `keys` exactly once, in stable order.
pub open spec fn is_stable_order<K: KeyOrder>(keys: Seq<K>, s: Seq<usize>) -> bool {
    &&& s.len() == keys.len()
    &&& forall|a: int| 0 <= a < s.len() ==> (#[trigger] s[a]) < keys.len()
    &&& forall|v: int| 0 <= v < keys.len() ==> #[trigger] occurs(s, v)
    &&& rank_sorted(keys, s)
}

pub proof fn lemma_rank_irreflexive<K: KeyOrder>(keys: Seq<K>, i: int)
    ensures
        !rank_lt(keys, i, i),
{
    K::lemma_irreflexive(keys[i]);
}

pub proof fn lemma_rank_transitive<K: KeyOrder>(keys: Seq<K>, i: int, j: int, k: int)
    requires
        rank_lt(keys, i, j),
        rank_lt(keys, j, k),
    ensures
        rank_lt(keys, i, k),
{
    let (a, b, c) = (keys[i], keys[j], keys[k]);
    if K::key_lt(a, b) && K::key_lt(b, c) {
        K::lemma_transitive(a, b, c);
    } else if K::key_lt(a, b) {
        K::lemma_negative_transitive(a, c, b);
    } else if K::key_lt(b, c) {
        K::lemma_negative_transitive(b, a, c);
    } else {
        if K::key_lt(c, a) {
            K::lemma_negative_transitive(c, b, a);
        }
    }
}

/// Two different items are always ordered one way or the other.
pub proof fn lemma_rank_total<K: KeyOrder>(keys: Seq<K>, i: int, j: int)
    requires
        i != j,
    ensures
        rank_lt(keys, i, j) || rank_lt(keys, j, i),
{
}

/// Merges two stably sorted runs, the first of items from `lo..mid`, the
/// second from `mid..hi`.
fn merge_runs<K: KeyOrder>(keys: &Vec<K>, a: Vec<usize>, b: Vec<usize>, Ghost(lo): Ghost<int>, Ghost(mid): Ghost<int>, Ghost(hi): Ghost<int>) -> (out: Vec<usize>)
    requires
        lo <= mid <= hi <= keys@.len(),
        rank_sorted(keys@, a@),
        rank_sorted(keys@, b@),
        forall|x: int| 0 <= x < a@.len() ==> lo <= #[trigger] a@[x] < mid,
        forall|x: int| 0 <= x < b@.len() ==> mid <= #[trigger] b@[x] < hi,
    ensures
        out@.len() == a@.len() + b@.len(),
        rank_sorted(keys@, out@),
        forall|x: int| 0 <= x < out@.len() ==> lo <= #[trigger] out@[x] < hi,
{
    let mut out: Vec<usize> = Vec::new();
    let mut i: usize = 0;
    let mut j: usize = 0;
    while i < a.len() || j < b.len()
        invariant
            i <= a@.len(),
            j <= b@.len(),
            out@.len() == i + j,
            lo <= mid <= hi <= keys@.len(),
            rank_sorted(keys@, a@),
            rank_sorted(keys@, b@),
            forall|x: int| 0 <= x < a@.len() ==> lo <= #[trigger] a@[x] < mid,
            forall|x: int| 0 <= x < b@.len() ==> mid <= #[trigger] b@[x] < hi,
            rank_sorted(keys@, out@),
            forall|x: int| 0 <= x < out@.len() ==> lo <= #[trigger] out@[x] < hi,
            i < a@.len() ==> forall|x: int| 0 <= x < out@.len() ==> rank_lt(keys@, #[trigger] out@[x] as int, a@[i as int] as int),
            j < b@.len() ==> forall|x: int| 0 <= x < out@.len() ==> rank_lt(keys@, #[trigger] out@[x] as int, b@[j as int] as int),
        decreases a@.len() + b@.len() - i - j,
    {
        let take_a = if i == a.len() {
            false
        } else if j == b.len() {
            true
        } else {
            !keys[b[j]].key_less(&keys[a[i]])
        };
        if take_a {
            let e = a[i];
            proof {
                if j < b@.len() {
                    assert(rank_lt(keys@, e as int, b@[j as int] as int));
                }
                if i + 1 < a@.len() {
                    assert(rank_lt(keys@, e as int, a@[i + 1] as int));
                    assert forall|x: int| 0 <= x < out@.len() implies rank_lt(keys@, #[trigger] out@[x] as int, a@[i + 1] as int) by {
                        lemma_rank_transitive(keys@, out@[x] as int, e as int, a@[i + 1] as int);
                    }
                }
            }
            out.push(e);
            i = i + 1;
        } else {
            let e = b[j];
            proof {
                if i < a@.len() {
                    assert(rank_lt(keys@, e as int, a@[i as int] as int));
                }
                if j + 1 < b@.len() {
                    assert(rank_lt(keys@, e as int, b@[j + 1] as int));
                    assert forall|x: int| 0 <= x < out@.len() implies rank_lt(keys@, #[trigger] out@[x] as int, b@[j + 1] as int) by {
                        lemma_rank_transitive(keys@, out@[x] as int, e as int, b@[j + 1] as int);
                    }
                }
            }
            out.push(e);
            j = j + 1;
        }
    }
    out
}

/// The items `lo..hi` in stable order.
fn sort_range<K: KeyOrder>(keys: &Vec<K>, lo: usize, hi: usize) -> (out: Vec<usize>)
    requires
        lo <= hi <= keys@.len(),
    ensures
        out@.len() == hi - lo,
        rank_sorted(keys@, out@),
        forall|x: int| 0 <= x < out@.len() ==> lo <= #[trigger] out@[x] < hi,
    decreases hi - lo,
{
    if hi - lo == 0 {
        Vec::new()
    } else if hi - lo == 1 {
        let mut v: Vec<usize> = Vec::new();
        v.push(lo);
        v
    } else {
        let mid = lo + (hi - lo) / 2;
        let a = sort_range(keys, lo, mid);
        let b = sort_range(keys, mid, hi);
        merge_runs(keys, a, b, Ghost(lo as int), Ghost(mid as int), Ghost(hi as int))
    }
}

/// A stably sorted list of `n` items of `0..n` holds each of them.
proof fn lemma_covers<K: KeyOrder>(keys: Seq<K>, s: Seq<usize>)
    requires
        s.len() == keys.len(),
        forall|a: int| 0 <= a < s.len() ==> (#[trigger] s[a]) < keys.len(),
        rank_sorted(keys, s),
    ensures
        forall|v: int| 0 <= v < keys.len() ==> #[trigger] occurs(s, v),
{
    let t = Seq::new(s.len(), |a: int| s[a] as int);
    assert forall|a: int, b: int| 0 <= a < t.len() && 0 <= b < t.len() && a != b implies t[a] != t[b] by {
        if a < b {
            assert(rank_lt(keys, s[a] as int, s[b] as int));
            lemma_rank_irreflexive(keys, s[a] as int);
        } else {
            assert(rank_lt(keys, s[b] as int, s[a] as int));
            lemma_rank_irreflexive(keys, s[b] as int);
        }
    }
    assert(t.no_duplicates());
    t.unique_seq_to_set();
    let r = set_int_range(0, keys.len() as int);
    lemma_int_range(0, keys.len() as int);
    assert(t.to_set().subset_of(r));
    lemma_len_subset(t.to_set(), r);
    lemma_subset_equality(t.to_set(), r);
    assert forall|v: int| 0 <= v < keys.len() implies #[trigger] occurs(s, v) by {
        assert(r.contains(v));
        assert(t.to_set().contains(v));
        let a = choose|a: int| 0 <= a < t.len() && t[a] == v;
        assert(s[a] == v);
    }
}

/// The order in which a stable sort by `keys` puts the items.
pub fn stable_order<K: KeyOrder>(keys: &Vec<K>) -> (out: Vec<usize>)
    ensures
        is_stable_order(keys@, out@),
{
    let out = sort_range(keys, 0, keys.len());
    proof {
        lemma_covers(keys@, out@);
    }
    out
}

/// A stable sort leaves no choice: two orders that both sort the items
/// stably by `keys` are the same.
pub proof fn lemma_stable_order_unique<K: KeyOrder>(keys: Seq<K>, s: Seq<usize>, t: Seq<usize>)
    requires
        is_stable_order(keys, s),
        is_stable_order(keys, t),
    ensures
        s == t,
{
    assert forall|a: int| 0 <= a < s.len() implies s[a] == t[a] by {
        lemma_stable_order_agree(keys, s, t, a);
    }
    assert(s =~= t);
}

/// The stable orders `s` and `t` agree at `a` (by induction on `a`).
proof fn lemma_stable_order_agree<K: KeyOrder>(keys: Seq<K>, s: Seq<usize>, t: Seq<usize>, a: int)
    requires
        is_stable_order(keys, s),
        is_stable_order(keys, t),
        0 <= a < s.len(),
    ensures
        s[a] == t[a],
    decreases a,
{
    assert forall|c: int| 0 <= c < a implies s[c] == t[c] by {
        lemma_stable_order_agree(keys, s, t, c);
    }
    let x = s[a] as int;
    let y = t[a] as int;
    if x != y {
        // x occurs in t at some index b, and y in s at some index d
        assert(occurs(t, x));
        let b = choose|b: int| 0 <= b < t.len() && t[b] == x;
        assert(occurs(s, y));
        let d = choose|d: int| 0 <= d < s.len() && s[d] == y;
        if b < a {
            // t[b] == s[b], so s[b] == s[a] with b < a
            assert(rank_lt(keys, s[b] as int, s[a] as int));
            lemma_rank_irreflexive(keys, x);
        } else if d < a {
            assert(t[d] == s[d]);
            assert(rank_lt(keys, t[d] as int, t[a] as int));
            lemma_rank_irreflexive(keys, y);
        } else {
            assert(b > a && d > a);
            // in s, x comes before y; in t, y comes before x
            assert(rank_lt(keys, s[a] as int, s[d] as int));
            assert(rank_lt(keys, t[a] as int, t[b] as int));
            lemma_rank_transitive(keys, x, y, x);
            lemma_rank_irreflexive(keys, x);
        }
    }
}

} // verus!
