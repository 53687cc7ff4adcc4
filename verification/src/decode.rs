//! Reading little-endian records out of a byte slice, one field after the
//! other. Every reader takes the position to read at and gives back the value
//! with the position after it, or nothing where the data ends first.

use vstd::prelude::*;
use crate::bytes::{get_u16_le, get_u32_le, le16, le32, signed16, signed32};
use crate::text::{utf8_lossy, lossy_utf8};

verus! {

/// The `n` bytes at `p` lie within `b`.
pub open spec fn fits(b: Seq<u8>, p: int, n: int) -> bool {
    0 <= p && 0 <= n && p + n <= b.len()
}

/// The `n` little-endian 16-bit values at `p`.
pub open spec fn u16s_at(b: Seq<u8>, p: int, n: nat) -> Seq<u16> {
    Seq::new(n, |i: int| le16(b, p + 2 * i) as u16)
}

/// The `n` little-endian 32-bit values at `p`.
pub open spec fn u32s_at(b: Seq<u8>, p: int, n: nat) -> Seq<u32> {
    Seq::new(n, |i: int| le32(b, p + 4 * i) as u32)
}

/// Where the text at `p` (a 32-bit length, then that many bytes) ends, if
/// the data holds it.
pub open spec fn lstr_end(b: Seq<u8>, p: int) -> Option<int> {
    if fits(b, p, 4) && fits(b, p + 4, le32(b, p)) {
        Some(p + 4 + le32(b, p))
    } else {
        None
    }
}

/// The text at `p`, its bytes decoded with replacement.
pub open spec fn lstr_at(b: Seq<u8>, p: int) -> Seq<char> {
    lossy_utf8(b.subrange(p + 4, p + 4 + le32(b, p)))
}

/// Where `n` items from `p` end, each item ending where `step` says it does
/// when it starts at the end of the one before.
pub open spec fn items_end(step: spec_fn(int) -> Option<int>, p: int, n: nat) -> Option<int>
    decreases n,
{
    if n == 0 {
        Some(p)
    } else {
        match items_end(step, p, (n - 1) as nat) {
            Some(q) => step(q),
            None => None,
        }
    }
}

/// Where the item with index `i` starts.
pub open spec fn item_pos(step: spec_fn(int) -> Option<int>, p: int, i: int) -> int {
    items_end(step, p, i as nat)->0
}

/// Once a run of items fails to fit, every longer run fails too.
pub proof fn lemma_items_end_none(step: spec_fn(int) -> Option<int>, p: int, i: nat, n: nat)
    requires
        i <= n,
        items_end(step, p, i) is None,
    ensures
        items_end(step, p, n) is None,
    decreases n - i,
{
    if i < n {
        lemma_items_end_none(step, p, (i + 1) as nat, n);
    }
}

pub fn take_u8(b: &[u8], p: usize) -> (r: Option<(u8, usize)>)
    ensures
        r is Some <==> fits(b@, p as int, 1),
        r is Some ==> (r->0).0 == b@[p as int] && (r->0).1 == p + 1,
{
    if p < b.len() {
        Some((b[p], p + 1))
    } else {
        None
    }
}

pub fn take_u16(b: &[u8], p: usize) -> (r: Option<(u16, usize)>)
    ensures
        r is Some <==> fits(b@, p as int, 2),
        r is Some ==> (r->0).0 == le16(b@, p as int) && (r->0).1 == p + 2,
{
    if p <= b.len() && b.len() - p >= 2 {
        Some((get_u16_le(b, p), p + 2))
    } else {
        None
    }
}

pub fn take_u32(b: &[u8], p: usize) -> (r: Option<(u32, usize)>)
    ensures
        r is Some <==> fits(b@, p as int, 4),
        r is Some ==> (r->0).0 == le32(b@, p as int) && (r->0).1 == p + 4,
{
    if p <= b.len() && b.len() - p >= 4 {
        Some((get_u32_le(b, p), p + 4))
    } else {
        None
    }
}

pub fn take_i16(b: &[u8], p: usize) -> (r: Option<(i16, usize)>)
    ensures
        r is Some <==> fits(b@, p as int, 2),
        r is Some ==> (r->0).0 == signed16(le16(b@, p as int)) && (r->0).1 == p + 2,
{
    let (v, q) = take_u16(b, p)?;
    let s: i16 = if v < 32768 {
        v as i16
    } else {
        (v as i32 - 65536) as i16
    };
    Some((s, q))
}

pub fn take_i32(b: &[u8], p: usize) -> (r: Option<(i32, usize)>)
    ensures
        r is Some <==> fits(b@, p as int, 4),
        r is Some ==> (r->0).0 == signed32(le32(b@, p as int)) && (r->0).1 == p + 4,
{
    let (v, q) = take_u32(b, p)?;
    let s: i32 = if v < 2147483648 {
        v as i32
    } else {
        (v as i64 - 4294967296) as i32
    };
    Some((s, q))
}

/// The `n` bytes at `p`.
pub fn take_bytes(b: &[u8], p: usize, n: usize) -> (r: Option<(Vec<u8>, usize)>)
    ensures
        r is Some <==> fits(b@, p as int, n as int),
        r is Some ==> (r->0).0@ == b@.subrange(p as int, p + n) && (r->0).1 == p + n,
{
    if p <= b.len() && b.len() - p >= n {
        let mut v: Vec<u8> = Vec::new();
        let mut i: usize = 0;
        while i < n
            invariant
                p + n <= b@.len(),
                b@.len() <= usize::MAX,
                i <= n,
                v@ == b@.subrange(p as int, p + i),
            decreases n - i,
        {
            v.push(b[p + i]);
            i = i + 1;
            assert(v@ =~= b@.subrange(p as int, p + i));
        }
        Some((v, p + n))
    } else {
        None
    }
}

/// The `n` little-endian 16-bit values at `p`.
pub fn take_u16s(b: &[u8], p: usize, n: u32) -> (r: Option<(Vec<u16>, usize)>)
    ensures
        r is Some <==> fits(b@, p as int, 2 * n),
        r is Some ==> (r->0).0@ == u16s_at(b@, p as int, n as nat) && (r->0).1 == p + 2 * n,
{
    if p <= b.len() && (b.len() - p) / 2 >= n as usize {
        assert(p + 2 * n <= b@.len()) by (nonlinear_arith)
            requires
                p <= b@.len(),
                (b@.len() - p) / 2 >= n,
        ;
        let mut v: Vec<u16> = Vec::new();
        let mut i: u32 = 0;
        while i < n
            invariant
                p + 2 * n <= b@.len(),
                b@.len() <= usize::MAX,
                i <= n,
                v@ =~= u16s_at(b@, p as int, i as nat),
            decreases n - i,
        {
            v.push(get_u16_le(b, p + 2 * (i as usize)));
            i = i + 1;
            assert(v@ =~= u16s_at(b@, p as int, i as nat));
        }
        Some((v, p + 2 * (n as usize)))
    } else {
        None
    }
}

/// The `n` little-endian 32-bit values at `p`.
pub fn take_u32s(b: &[u8], p: usize, n: u32) -> (r: Option<(Vec<u32>, usize)>)
    ensures
        r is Some <==> fits(b@, p as int, 4 * n),
        r is Some ==> (r->0).0@ == u32s_at(b@, p as int, n as nat) && (r->0).1 == p + 4 * n,
{
    if p <= b.len() && (b.len() - p) / 4 >= n as usize {
        assert(p + 4 * n <= b@.len()) by (nonlinear_arith)
            requires
                p <= b@.len(),
                (b@.len() - p) / 4 >= n,
        ;
        let mut v: Vec<u32> = Vec::new();
        let mut i: u32 = 0;
        while i < n
            invariant
                p + 4 * n <= b@.len(),
                b@.len() <= usize::MAX,
                i <= n,
                v@ =~= u32s_at(b@, p as int, i as nat),
            decreases n - i,
        {
            v.push(get_u32_le(b, p + 4 * (i as usize)));
            i = i + 1;
            assert(v@ =~= u32s_at(b@, p as int, i as nat));
        }
        Some((v, p + 4 * (n as usize)))
    } else {
        None
    }
}

/// The text at `p`: a 32-bit length, then that many bytes, decoded with
/// replacement.
pub fn take_lstr(b: &[u8], p: usize) -> (r: Option<(String, usize)>)
    ensures
        r is Some <==> lstr_end(b@, p as int) is Some,
        r is Some ==> (r->0).0@ == lstr_at(b@, p as int) && (r->0).1 == lstr_end(
            b@,
            p as int,
        )->0,
{
    let (n, q) = take_u32(b, p)?;
    if q <= b.len() && b.len() - q >= n as usize {
        let e = q + n as usize;
        let s = utf8_lossy(&b[q..e]);
        assert(b@.subrange(q as int, e as int) == b@.subrange(p + 4, p + 4 + le32(b@, p as int)));
        Some((s, e))
    } else {
        None
    }
}

/// The three bytes at `p`.
pub fn take_arr3(b: &[u8], p: usize) -> (r: Option<([u8; 3], usize)>)
    ensures
        r is Some <==> fits(b@, p as int, 3),
        r is Some ==> (r->0).0@ == b@.subrange(p as int, p + 3) && (r->0).1 == p + 3,
{
    if p <= b.len() && b.len() - p >= 3 {
        let a = [b[p], b[p + 1], b[p + 2]];
        assert(a@ =~= b@.subrange(p as int, p + 3));
        Some((a, p + 3))
    } else {
        None
    }
}

/// The two bytes at `p`.
pub fn take_arr2(b: &[u8], p: usize) -> (r: Option<([u8; 2], usize)>)
    ensures
        r is Some <==> fits(b@, p as int, 2),
        r is Some ==> (r->0).0@ == b@.subrange(p as int, p + 2) && (r->0).1 == p + 2,
{
    if p <= b.len() && b.len() - p >= 2 {
        let a = [b[p], b[p + 1]];
        assert(a@ =~= b@.subrange(p as int, p + 2));
        Some((a, p + 2))
    } else {
        None
    }
}

/// The nine bytes at `p`.
pub fn take_arr9(b: &[u8], p: usize) -> (r: Option<([u8; 9], usize)>)
    ensures
        r is Some <==> fits(b@, p as int, 9),
        r is Some ==> (r->0).0@ == b@.subrange(p as int, p + 9) && (r->0).1 == p + 9,
{
    if p <= b.len() && b.len() - p >= 9 {
        let a = [b[p], b[p + 1], b[p + 2], b[p + 3], b[p + 4], b[p + 5], b[p + 6], b[p + 7], b[p + 8]];
        assert(a@ =~= b@.subrange(p as int, p + 9));
        Some((a, p + 9))
    } else {
        None
    }
}

/// A record of a file format that is read field after field from a
/// position. `ctx` is a number that some records take from the record that
/// holds them (a count of vertices, for instance); the others ignore it.
pub trait Record: Sized {
    /// Where the record read at `p` ends, if the data holds it.
    spec fn end(b: Seq<u8>, p: int, ctx: u32) -> Option<int>;

    /// `v` is the record read at `p`.
    spec fn at(b: Seq<u8>, p: int, ctx: u32, v: Self) -> bool;

    fn read(b: &[u8], p: usize, ctx: u32) -> (r: Option<(Self, usize)>)
        ensures
            r is Some <==> Self::end(b@, p as int, ctx) is Some,
            r is Some ==> (r->0).1 == Self::end(b@, p as int, ctx)->0 && Self::at(
                b@,
                p as int,
                ctx,
                (r->0).0,
            ),
    ;
}

/// The step from one record of type `T` to the next.
pub open spec fn step_of<T: Record>(b: Seq<u8>, ctx: u32) -> spec_fn(int) -> Option<int> {
    |q: int| T::end(b, q, ctx)
}

/// Where `n` records of type `T` from `p` end, if the data holds them.
pub open spec fn list_end<T: Record>(b: Seq<u8>, p: int, ctx: u32, n: nat) -> Option<int> {
    items_end(step_of::<T>(b, ctx), p, n)
}

/// `s` holds the `n` records of type `T` read one after the other from `p`.
pub open spec fn list_at<T: Record>(b: Seq<u8>, p: int, ctx: u32, n: nat, s: Seq<T>) -> bool {
    &&& s.len() == n
    &&& forall|i: int|
        0 <= i < n ==> T::at(b, item_pos(step_of::<T>(b, ctx), p, i), ctx, #[trigger] s[i])
}

/// The `n` records of type `T` one after the other from `p`.
pub fn read_list<T: Record>(b: &[u8], p: usize, ctx: u32, n: u32) -> (r: Option<(Vec<T>, usize)>)
    ensures
        r is Some <==> list_end::<T>(b@, p as int, ctx, n as nat) is Some,
        r is Some ==> (r->0).1 == list_end::<T>(b@, p as int, ctx, n as nat)->0 && list_at::<T>(
            b@,
            p as int,
            ctx,
            n as nat,
            (r->0).0@,
        ),
{
    let ghost step = step_of::<T>(b@, ctx);
    let mut v: Vec<T> = Vec::new();
    let mut q: usize = p;
    let mut i: u32 = 0;
    while i < n
        invariant
            i <= n,
            step == step_of::<T>(b@, ctx),
            items_end(step, p as int, i as nat) == Some(q as int),
            v@.len() == i,
            forall|k: int| 0 <= k < i ==> T::at(b@, item_pos(step, p as int, k), ctx, #[trigger] v@[k]),
        decreases n - i,
    {
        match T::read(b, q, ctx) {
            Some((x, q2)) => {
                assert(items_end(step, p as int, (i + 1) as nat) == Some(q2 as int));
                v.push(x);
                q = q2;
                i = i + 1;
            },
            None => {
                assert(items_end(step, p as int, (i + 1) as nat) is None);
                proof {
                    lemma_items_end_none(step, p as int, (i + 1) as nat, n as nat);
                }
                return None;
            },
        }
    }
    Some((v, q))
}

impl Record for String {
    open spec fn end(b: Seq<u8>, p: int, ctx: u32) -> Option<int> {
        lstr_end(b, p)
    }

    open spec fn at(b: Seq<u8>, p: int, ctx: u32, v: String) -> bool {
        v@ == lstr_at(b, p)
    }

    fn read(b: &[u8], p: usize, ctx: u32) -> (r: Option<(String, usize)>) {
        take_lstr(b, p)
    }
}

/// Where `n` texts one after the other from `p` end, if the data holds them.
pub open spec fn strs_end(b: Seq<u8>, p: int, n: nat) -> Option<int> {
    list_end::<String>(b, p, 0, n)
}

/// Where the text with index `i` of a run of texts from `p` starts.
pub open spec fn str_pos(b: Seq<u8>, p: int, i: int) -> int {
    item_pos(step_of::<String>(b, 0), p, i)
}

/// Three texts one after the other from `p`.
pub fn read_strs3(b: &[u8], p: usize) -> (r: Option<((String, String, String), usize)>)
    ensures
        r is Some <==> strs_end(b@, p as int, 3) is Some,
        r is Some ==> {
            let (t, q) = r->0;
            &&& q == strs_end(b@, p as int, 3)->0
            &&& t.0@ == lstr_at(b@, str_pos(b@, p as int, 0))
            &&& t.1@ == lstr_at(b@, str_pos(b@, p as int, 1))
            &&& t.2@ == lstr_at(b@, str_pos(b@, p as int, 2))
        },
{
    let ghost step = step_of::<String>(b@, 0);
    assert(items_end(step, p as int, 0) == Some(p as int));
    let r0 = take_lstr(b, p);
    assert(items_end(step, p as int, 1) == lstr_end(b@, p as int));
    if r0.is_none() {
        proof { lemma_items_end_none(step, p as int, 1, 3); }
        return None;
    }
    let (s0, q1) = r0.unwrap();
    let r1 = take_lstr(b, q1);
    assert(items_end(step, p as int, 2) == lstr_end(b@, q1 as int));
    if r1.is_none() {
        proof { lemma_items_end_none(step, p as int, 2, 3); }
        return None;
    }
    let (s1, q2) = r1.unwrap();
    let r2 = take_lstr(b, q2);
    assert(items_end(step, p as int, 3) == lstr_end(b@, q2 as int));
    let (s2, q3) = r2?;
    Some(((s0, s1, s2), q3))
}

/// Four texts one after the other from `p`.
pub fn read_strs4(b: &[u8], p: usize) -> (r: Option<((String, String, String, String), usize)>)
    ensures
        r is Some <==> strs_end(b@, p as int, 4) is Some,
        r is Some ==> {
            let (t, q) = r->0;
            &&& q == strs_end(b@, p as int, 4)->0
            &&& t.0@ == lstr_at(b@, str_pos(b@, p as int, 0))
            &&& t.1@ == lstr_at(b@, str_pos(b@, p as int, 1))
            &&& t.2@ == lstr_at(b@, str_pos(b@, p as int, 2))
            &&& t.3@ == lstr_at(b@, str_pos(b@, p as int, 3))
        },
{
    let ghost step = step_of::<String>(b@, 0);
    let r3 = read_strs3(b, p);
    if r3.is_none() {
        proof { lemma_items_end_none(step, p as int, 3, 4); }
        return None;
    }
    let ((s0, s1, s2), q3) = r3.unwrap();
    let r4 = take_lstr(b, q3);
    assert(items_end(step, p as int, 4) == lstr_end(b@, q3 as int));
    let (s3, q4) = r4?;
    Some(((s0, s1, s2, s3), q4))
}

/// Where a run of `n` records of type `T` from `p` ends, when a run is only
/// read for a count above zero.
pub open spec fn opt_list_end<T: Record>(b: Seq<u8>, p: int, n: nat) -> Option<int> {
    if n == 0 { Some(p) } else { list_end::<T>(b, p, 0, n) }
}

/// `o` is nothing for a count of zero, else the run of `n` records from `p`.
pub open spec fn opt_list_at<T: Record>(b: Seq<u8>, p: int, n: nat, o: Option<Vec<T>>) -> bool {
    if n == 0 {
        o is None
    } else {
        o is Some && list_at::<T>(b, p, 0, n, (o->0)@)
    }
}

/// Nothing for a count of zero, else the `n` records of type `T` from `p`.
pub fn read_opt_list<T: Record>(b: &[u8], p: usize, n: u32) -> (r: Option<(Option<Vec<T>>, usize)>)
    ensures
        r is Some <==> opt_list_end::<T>(b@, p as int, n as nat) is Some,
        r is Some ==> (r->0).1 == opt_list_end::<T>(b@, p as int, n as nat)->0 && opt_list_at::<T>(
            b@,
            p as int,
            n as nat,
            (r->0).0,
        ),
{
    if n == 0 {
        Some((None, p))
    } else {
        let (v, q) = read_list::<T>(b, p, 0, n)?;
        Some((Some(v), q))
    }
}

} // verus!
