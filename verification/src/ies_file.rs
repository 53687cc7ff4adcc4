//! The flat IES table reader: the header, the column descriptors (names
//! unmasked, ordered by kind and then by position) and the rows. A number
//! cell is kept as the 32 bits stored; what the number is read as is left
//! to the caller.

use vstd::prelude::*;
use crate::bytes::{le16, le32};
use crate::decode::{fits, take_u16, take_u32, take_bytes};
use crate::sort::{KeyOrder, stable_order, is_stable_order, lemma_stable_order_unique};
use crate::text::{utf8_strict, xor1, xor_bytes, chars_of, string_from_chars};
use crate::xac_file::w32;
use crate::api::text_eq;
use vstd::string::StrSliceExecFns;

verus! {

/// `s` without the characters `c` at its end.
pub open spec fn trim_end(s: Seq<char>, c: char) -> Seq<char>
    decreases s.len(),
{
    if s.len() > 0 && s.last() == c {
        trim_end(s.drop_last(), c)
    } else {
        s
    }
}

/// `s` without the characters `c` at its end.
fn trim_end_matches(s: &str, c: char) -> (r: String)
    ensures
        r@ == trim_end(s@, c),
{
    let chars = chars_of(s);
    let mut end = chars.len();
    assert(chars@.subrange(0, end as int) =~= s@);
    while end > 0 && chars[end - 1] == c
        invariant
            end <= chars@.len(),
            chars@ == s@,
            trim_end(s@, c) == trim_end(chars@.subrange(0, end as int), c),
        decreases end,
    {
        assert(chars@.subrange(0, end as int).drop_last() =~= chars@.subrange(0, end - 1));
        end = end - 1;
    }
    string_from_chars(&chars.as_slice()[0..end])
}

/// The text of masked bytes: every byte's lowest bit flipped, read as
/// UTF-8 where that is valid, without the characters U+0001 at its end.
pub open spec fn unmask(b: Seq<u8>) -> Option<Seq<char>> {
    if vstd::utf8::valid_utf8(xor1(b)) {
        Some(trim_end(vstd::utf8::decode_utf8(xor1(b)), '\u{1}'))
    } else {
        None
    }
}

/// Unmasks a text; `None` where the unmasked bytes are not UTF-8.
pub fn decrypt_string(data: &[u8]) -> (r: Option<String>)
    ensures
        r is Some <==> unmask(data@) is Some,
        r matches Some(s) ==> s@ == unmask(data@)->0,
{
    let plain = xor_bytes(data);
    match utf8_strict(plain) {
        Ok(s) => Some(trim_end_matches(s.as_str(), '\u{1}')),
        Err(_) => None,
    }
}

/// What the cells of a column hold.
#[derive(Copy, Clone, PartialEq, Eq, Structural, Debug)]
pub enum IesColumnType {
    Float,
    String,
    StringSecond,
}

/// The kind of column that a stored kind number gives.
pub open spec fn column_type_of(n: int) -> IesColumnType {
    if n == 0 {
        IesColumnType::Float
    } else if n == 1 {
        IesColumnType::String
    } else {
        IesColumnType::StringSecond
    }
}

/// Where the kind sorts: numbers first, then first texts, then second texts.
pub open spec fn type_rank(t: IesColumnType) -> int {
    match t {
        IesColumnType::Float => 0,
        IesColumnType::String => 1,
        IesColumnType::StringSecond => 2,
    }
}

/// The table's header.
pub struct IesHeader {
    pub data_offset: u32,
    pub resource_offset: u32,
    pub file_size: u32,
    pub name: String,
    pub column_count: u16,
    pub row_count: u16,
    pub number_column_count: u16,
    pub string_column_count: u16,
}

/// A column: its two names, its kind and its position.
pub struct IesColumn {
    pub name: String,
    pub name_second: String,
    pub column_type: IesColumnType,
    pub position: u16,
}

/// A cell: a number cell holds the 32 bits stored; a text cell its text,
/// none where that is empty.
pub struct IesRow {
    pub value_bits: Option<u32>,
    pub value_string: Option<String>,
}

/// A whole table.
pub struct IesFile {
    pub header: IesHeader,
    pub columns: Vec<IesColumn>,
    pub rows: Vec<Vec<IesRow>>,
}

/// The header can be read from `b`: its 156 bytes are there and its name's
/// 128 bytes are UTF-8.
pub open spec fn header_ok(b: Seq<u8>) -> bool {
    b.len() >= 156 && vstd::utf8::valid_utf8(b.subrange(0, 128))
}

/// `h` is the header of `b`.
pub open spec fn header_at(b: Seq<u8>, h: IesHeader) -> bool {
    &&& h.name@ == trim_end(vstd::utf8::decode_utf8(b.subrange(0, 128)), '\0')
    &&& h.data_offset == le32(b, 132)
    &&& h.resource_offset == le32(b, 136)
    &&& h.file_size == le32(b, 140)
    &&& h.row_count == le16(b, 146)
    &&& h.column_count == le16(b, 148)
    &&& h.number_column_count == le16(b, 150)
    &&& h.string_column_count == le16(b, 152)
}

fn read_header(b: &[u8]) -> (r: Option<IesHeader>)
    ensures
        r is Some <==> header_ok(b@),
        r matches Some(h) ==> header_at(b@, h),
{
    let (raw, q) = take_bytes(b, 0, 128)?;
    let name = match utf8_strict(raw) {
        Ok(s) => trim_end_matches(s.as_str(), '\0'),
        Err(_) => {
            return None;
        },
    };
    let (_, q) = take_u32(b, q)?;
    let (data_offset, q) = take_u32(b, q)?;
    let (resource_offset, q) = take_u32(b, q)?;
    let (file_size, q) = take_u32(b, q)?;
    let (_, q) = take_u16(b, q)?;
    let (row_count, q) = take_u16(b, q)?;
    let (column_count, q) = take_u16(b, q)?;
    let (number_column_count, q) = take_u16(b, q)?;
    let (string_column_count, q) = take_u16(b, q)?;
    let (_, q) = take_u16(b, q)?;
    Some(IesHeader {
        data_offset,
        resource_offset,
        file_size,
        name,
        column_count,
        row_count,
        number_column_count,
        string_column_count,
    })
}

/// The column at `p` can be read: its 136 bytes are there, both its names
/// unmask to UTF-8 and its kind number is 0, 1 or 2.
pub open spec fn column_ok(b: Seq<u8>, p: int) -> bool {
    &&& fits(b, p, 136)
    &&& unmask(b.subrange(p, p + 64)) is Some
    &&& unmask(b.subrange(p + 64, p + 128)) is Some
    &&& le16(b, p + 128) <= 2
}

/// `c` is the column at `p`.
pub open spec fn column_at(b: Seq<u8>, p: int, c: IesColumn) -> bool {
    &&& c.name@ == unmask(b.subrange(p, p + 64))->0
    &&& c.name_second@ == unmask(b.subrange(p + 64, p + 128))->0
    &&& c.column_type == column_type_of(le16(b, p + 128))
    &&& c.position == le16(b, p + 134)
}

fn read_column(b: &[u8], p: usize) -> (r: Option<IesColumn>)
    ensures
        r is Some <==> column_ok(b@, p as int),
        r matches Some(c) ==> column_at(b@, p as int, c),
{
    let (raw, q) = take_bytes(b, p, 64)?;
    let name = decrypt_string(raw.as_slice())?;
    let (raw2, q) = take_bytes(b, q, 64)?;
    let name_second = decrypt_string(raw2.as_slice())?;
    let (num, q) = take_u16(b, q)?;
    let column_type = if num == 0 {
        IesColumnType::Float
    } else if num == 1 {
        IesColumnType::String
    } else if num == 2 {
        IesColumnType::StringSecond
    } else {
        return None;
    };
    let (_, q) = take_u32(b, q)?;
    let (position, q) = take_u16(b, q)?;
    Some(IesColumn { name, name_second, column_type, position })
}

/// Where the column descriptors start: as far before the end of the data
/// as the header's two offsets add up to.
pub open spec fn columns_start(b: Seq<u8>) -> int {
    b.len() - (le32(b, 136) + le32(b, 132))
}

/// Every column can be read.
pub open spec fn columns_ok(b: Seq<u8>) -> bool {
    &&& columns_start(b) >= 0
    &&& forall|i: int| 0 <= i < le16(b, 148) ==> column_ok(b, #[trigger] (columns_start(b) + 136 * i))
}

/// How columns are ordered: by the rank of their kind, then by position.
#[derive(Copy, Clone, PartialEq, Eq, Structural, Debug)]
pub struct ColumnKey {
    pub rank: u8,
    pub position: u16,
}

impl KeyOrder for ColumnKey {
    open spec fn key_lt(a: Self, b: Self) -> bool {
        a.rank < b.rank || (a.rank == b.rank && a.position < b.position)
    }

    proof fn lemma_irreflexive(a: Self) {
    }

    proof fn lemma_transitive(a: Self, b: Self, c: Self) {
    }

    proof fn lemma_negative_transitive(a: Self, b: Self, c: Self) {
    }

    fn key_less(&self, other: &Self) -> (r: bool) {
        self.rank < other.rank || (self.rank == other.rank && self.position < other.position)
    }
}

/// The order key of the column at `p`.
pub open spec fn key_at(b: Seq<u8>, p: int) -> ColumnKey {
    ColumnKey { rank: type_rank(column_type_of(le16(b, p + 128))) as u8, position: le16(b, p + 134) as u16 }
}

/// The order keys of the `n` columns from `p`.
pub open spec fn column_keys(b: Seq<u8>, p: int, n: nat) -> Seq<ColumnKey> {
    Seq::new(n, |i: int| key_at(b, p + 136 * i))
}

/// `cols` are the columns of `b` ordered stably by kind, then position.
pub open spec fn columns_at(b: Seq<u8>, cols: Seq<IesColumn>) -> bool {
    exists|s: Seq<usize>| {
        &&& is_stable_order(column_keys(b, columns_start(b), le16(b, 148) as nat), s)
        &&& cols.len() == s.len()
        &&& forall|i: int| 0 <= i < cols.len() ==> column_at(b, columns_start(b) + 136 * s[i], #[trigger] cols[i])
    }
}

/// Reads the columns and orders them stably by kind, then position.
fn read_columns(b: &[u8], n: u16, data_offset: u32, resource_offset: u32) -> (r: Option<Vec<IesColumn>>)
    requires
        header_ok(b@),
        n == le16(b@, 148),
        data_offset == le32(b@, 132),
        resource_offset == le32(b@, 136),
    ensures
        r is Some <==> columns_ok(b@),
        r matches Some(cols) ==> columns_at(b@, cols@),
{
    let back = data_offset as u64 + resource_offset as u64;
    if back > b.len() as u64 {
        return None;
    }
    let cs = b.len() - back as usize;
    assert(cs == columns_start(b@));
    let ghost keys_spec = column_keys(b@, cs as int, n as nat);
    let mut keys: Vec<ColumnKey> = Vec::new();
    let mut i: u16 = 0;
    while i < n
        invariant
            cs == columns_start(b@),
            n == le16(b@, 148),
            keys_spec == column_keys(b@, cs as int, n as nat),
            i <= n,
            keys@ == keys_spec.take(i as int),
            forall|k: int| 0 <= k < i ==> column_ok(b@, #[trigger] (cs + 136 * k)),
        decreases n - i,
    {
        let off = 136 * (i as usize);
        if off > b.len() - cs {
            assert(!column_ok(b@, cs + 136 * i));
            return None;
        }
        let p = cs + off;
        assert(p == cs + 136 * i);
        match read_column(b, p) {
            None => {
                return None;
            },
            Some(c) => {
                let rank: u8 = match c.column_type {
                    IesColumnType::Float => 0,
                    IesColumnType::String => 1,
                    IesColumnType::StringSecond => 2,
                };
                keys.push(ColumnKey { rank, position: c.position });
                assert(keys@.last() == key_at(b@, cs + 136 * i));
                i = i + 1;
                assert(keys@ =~= keys_spec.take(i as int));
            },
        }
    }
    assert(keys@ =~= keys_spec);
    let order = stable_order(&keys);
    let mut cols: Vec<IesColumn> = Vec::new();
    let mut a: usize = 0;
    while a < order.len()
        invariant
            cs == columns_start(b@),
            n == le16(b@, 148),
            keys@ == column_keys(b@, cs as int, n as nat),
            is_stable_order(keys@, order@),
            b@.len() <= usize::MAX,
            forall|k: int| 0 <= k < n ==> column_ok(b@, #[trigger] (cs + 136 * k)),
            a <= order@.len(),
            cols@.len() == a,
            forall|x: int| 0 <= x < a ==> column_at(b@, cs + 136 * order@[x], #[trigger] cols@[x]),
        decreases order@.len() - a,
    {
        let v = order[a];
        assert(v < n);
        assert(column_ok(b@, cs + 136 * v));
        assert(cs + 136 * v <= b@.len());
        let off: usize = 136 * v;
        let p: usize = cs + off;
        let c = read_column(b, p).unwrap();
        cols.push(c);
        a = a + 1;
    }
    Some(cols)
}

/// The kinds of the columns `cols`, in order.
pub open spec fn kinds_of(cols: Seq<IesColumn>) -> Seq<IesColumnType> {
    Seq::new(cols.len(), |i: int| cols[i].column_type)
}

/// Where the text cell at `p` ends: a 16-bit length, then that many masked
/// bytes that unmask to UTF-8.
pub open spec fn text_cell_end(b: Seq<u8>, p: int) -> Option<int> {
    if fits(b, p, 2) && fits(b, p + 2, le16(b, p)) && unmask(b.subrange(p + 2, p + 2 + le16(b, p))) is Some {
        Some(p + 2 + le16(b, p))
    } else {
        None
    }
}

/// Where the cell of kind `t` at `p` ends, if it can be read.
pub open spec fn cell_end(b: Seq<u8>, p: int, t: IesColumnType) -> Option<int> {
    match t {
        IesColumnType::Float => if fits(b, p, 4) { Some(p + 4) } else { None },
        _ => text_cell_end(b, p),
    }
}

/// `v` is the cell of kind `t` at `p`.
pub open spec fn cell_at(b: Seq<u8>, p: int, t: IesColumnType, v: IesRow) -> bool {
    match t {
        IesColumnType::Float => v.value_bits == Some(w32(b, p)) && v.value_string is None,
        _ => {
            let s = unmask(b.subrange(p + 2, p + 2 + le16(b, p)))->0;
            &&& v.value_bits is None
            &&& if s.len() == 0 {
                v.value_string is None
            } else {
                v.value_string matches Some(x) && x@ == s
            }
        },
    }
}

/// Where the first `k` cells of kinds `ts` from `p` end.
pub open spec fn cells_end(b: Seq<u8>, p: int, ts: Seq<IesColumnType>, k: nat) -> Option<int>
    decreases k,
{
    if k == 0 {
        Some(p)
    } else {
        match cells_end(b, p, ts, (k - 1) as nat) {
            Some(q) => cell_end(b, q, ts[k - 1]),
            None => None,
        }
    }
}

proof fn lemma_cells_none(b: Seq<u8>, p: int, ts: Seq<IesColumnType>, i: nat, n: nat)
    requires
        i <= n,
        cells_end(b, p, ts, i) is None,
    ensures
        cells_end(b, p, ts, n) is None,
    decreases n - i,
{
    if i < n {
        lemma_cells_none(b, p, ts, (i + 1) as nat, n);
    }
}

/// Where the cells of the row at `p` start: after four padding bytes, a
/// 16-bit count and that many bytes.
pub open spec fn row_cells_start(b: Seq<u8>, p: int) -> Option<int> {
    if fits(b, p, 6) && fits(b, p + 6, le16(b, p + 4)) {
        Some(p + 6 + le16(b, p + 4))
    } else {
        None
    }
}

/// Where the next row starts after the row at `p`: after its cells of the
/// kinds `ts`, `skip` bytes on.
pub open spec fn row_end(b: Seq<u8>, p: int, ts: Seq<IesColumnType>, skip: int) -> Option<int> {
    match row_cells_start(b, p) {
        Some(q) => match cells_end(b, q, ts, ts.len()) {
            Some(e) => Some(e + skip),
            None => None,
        },
        None => None,
    }
}

/// `row` holds the cells of the row at `p`.
pub open spec fn row_at(b: Seq<u8>, p: int, ts: Seq<IesColumnType>, row: Seq<IesRow>) -> bool {
    &&& row.len() == ts.len()
    &&& forall|i: int| 0 <= i < row.len() ==> cell_at(b, cells_end(b, row_cells_start(b, p)->0, ts, i as nat)->0, ts[i], #[trigger] row[i])
}

/// Where the first `n` rows from `p` end.
pub open spec fn rows_end(b: Seq<u8>, p: int, ts: Seq<IesColumnType>, skip: int, n: nat) -> Option<int>
    decreases n,
{
    if n == 0 {
        Some(p)
    } else {
        match rows_end(b, p, ts, skip, (n - 1) as nat) {
            Some(q) => row_end(b, q, ts, skip),
            None => None,
        }
    }
}

proof fn lemma_rows_none(b: Seq<u8>, p: int, ts: Seq<IesColumnType>, skip: int, i: nat, n: nat)
    requires
        i <= n,
        rows_end(b, p, ts, skip, i) is None,
    ensures
        rows_end(b, p, ts, skip, n) is None,
    decreases n - i,
{
    if i < n {
        lemma_rows_none(b, p, ts, skip, (i + 1) as nat, n);
    }
}

/// `rows` hold the rows one after the other from `p`.
pub open spec fn rows_at(b: Seq<u8>, p: int, ts: Seq<IesColumnType>, skip: int, rows: Seq<Vec<IesRow>>) -> bool {
    forall|r: int| 0 <= r < rows.len() ==> row_at(b, rows_end(b, p, ts, skip, r as nat)->0, ts, (#[trigger] rows[r])@)
}

/// Reads the cell of kind `t` at `p`.
fn read_cell(b: &[u8], p: usize, t: IesColumnType) -> (r: Option<(IesRow, usize)>)
    ensures
        r is Some <==> cell_end(b@, p as int, t) is Some,
        r matches Some((v, q)) ==> q == cell_end(b@, p as int, t)->0 && cell_at(b@, p as int, t, v),
{
    match t {
        IesColumnType::Float => {
            let (bits, q) = take_u32(b, p)?;
            Some((IesRow { value_bits: Some(bits), value_string: None }, q))
        },
        _ => {
            let (length, q) = take_u16(b, p)?;
            let (raw, q) = take_bytes(b, q, length as usize)?;
            let text = decrypt_string(raw.as_slice())?;
            if text.as_str().unicode_len() == 0 {
                Some((IesRow { value_bits: None, value_string: None }, q))
            } else {
                Some((IesRow { value_bits: None, value_string: Some(text) }, q))
            }
        },
    }
}

/// Reads the row at `p`, its cells of the kinds of `cols`.
fn read_row(b: &[u8], p: usize, cols: &Vec<IesColumn>) -> (r: Option<(Vec<IesRow>, usize)>)
    ensures
        ({
            let ts = kinds_of(cols@);
            &&& r is Some <==> (row_cells_start(b@, p as int) matches Some(q) && cells_end(b@, q, ts, ts.len()) is Some)
            &&& r matches Some((row, e)) ==> e == cells_end(b@, row_cells_start(b@, p as int)->0, ts, ts.len())->0
                && row_at(b@, p as int, ts, row@)
        }),
{
    let ghost ts = kinds_of(cols@);
    let (_, q) = take_u32(b, p)?;
    let (count, q) = take_u16(b, q)?;
    let (_, q) = take_bytes(b, q, count as usize)?;
    let ghost start = q as int;
    let mut row: Vec<IesRow> = Vec::new();
    let mut pos = q;
    let mut i: usize = 0;
    while i < cols.len()
        invariant
            ts == kinds_of(cols@),
            start == row_cells_start(b@, p as int)->0,
            row_cells_start(b@, p as int) is Some,
            i <= cols@.len(),
            cells_end(b@, start, ts, i as nat) == Some(pos as int),
            row@.len() == i,
            forall|k: int| 0 <= k < i ==> cell_at(b@, cells_end(b@, start, ts, k as nat)->0, ts[k], #[trigger] row@[k]),
        decreases cols@.len() - i,
    {
        match read_cell(b, pos, cols[i].column_type) {
            None => {
                proof {
                    lemma_cells_none(b@, start, ts, (i + 1) as nat, ts.len());
                }
                return None;
            },
            Some((v, q2)) => {
                row.push(v);
                pos = q2;
                i = i + 1;
            },
        }
    }
    Some((row, pos))
}

/// Two readings of the columns of `b` give columns of the same kinds.
proof fn lemma_kinds_unique(b: Seq<u8>, c1: Seq<IesColumn>, c2: Seq<IesColumn>)
    requires
        columns_at(b, c1),
        columns_at(b, c2),
    ensures
        kinds_of(c1) == kinds_of(c2),
{
    let keys = column_keys(b, columns_start(b), le16(b, 148) as nat);
    let cs = columns_start(b);
    let s1 = choose|s: Seq<usize>| {
        &&& is_stable_order(keys, s)
        &&& c1.len() == s.len()
        &&& forall|i: int| 0 <= i < c1.len() ==> column_at(b, cs + 136 * s[i], #[trigger] c1[i])
    };
    let s2 = choose|s: Seq<usize>| {
        &&& is_stable_order(keys, s)
        &&& c2.len() == s.len()
        &&& forall|i: int| 0 <= i < c2.len() ==> column_at(b, cs + 136 * s[i], #[trigger] c2[i])
    };
    lemma_stable_order_unique(keys, s1, s2);
    assert forall|i: int| 0 <= i < c1.len() implies c1[i].column_type == c2[i].column_type by {
        assert(column_at(b, cs + 136 * s1[i], c1[i]));
        assert(column_at(b, cs + 136 * s2[i], c2[i]));
    }
    assert(kinds_of(c1) =~= kinds_of(c2));
}

/// Where the rows start: as far before the end of the data as the
/// header's resource offset says.
pub open spec fn rows_start(b: Seq<u8>) -> int {
    b.len() - le32(b, 136)
}

/// Where the rows of `b` end, read with the kinds of `cols`.
pub open spec fn table_rows_end(b: Seq<u8>, cols: Seq<IesColumn>) -> Option<int> {
    rows_end(b, rows_start(b), kinds_of(cols), le16(b, 152) as int, le16(b, 146) as nat)
}

/// The whole table can be read from `b`: the header, every column, and
/// every row with the cells of the columns' kinds (each row followed by as
/// many bytes as the header's text column count says).
pub open spec fn ies_file_ok(b: Seq<u8>) -> bool {
    &&& header_ok(b)
    &&& columns_ok(b)
    &&& rows_start(b) >= 0
    &&& forall|cols: Seq<IesColumn>| columns_at(b, cols) ==> #[trigger] table_rows_end(b, cols) is Some
}

/// `x` is the table that `b` holds.
pub open spec fn ies_file_at(b: Seq<u8>, x: IesFile) -> bool {
    &&& header_at(b, x.header)
    &&& columns_at(b, x.columns@)
    &&& x.rows@.len() == le16(b, 146)
    &&& rows_at(b, rows_start(b), kinds_of(x.columns@), le16(b, 152) as int, x.rows@)
}

/// Every row has a cell for every column.
pub open spec fn rows_fit(x: IesFile) -> bool {
    forall|r: int| 0 <= r < x.rows@.len() ==> (#[trigger] x.rows@[r])@.len() == x.columns@.len()
}

impl IesFile {
    /// Reads a whole table: the header, the columns from as far before the
    /// end as its two offsets add up to (names unmasked, ordered by kind
    /// and then by position), and the rows from as far before the end as
    /// its resource offset says. `None` where the data cannot be read that
    /// way.
    #[verifier::rlimit(30)]
    pub fn try_load_from_bytes(bytes: Vec<u8>) -> (r: Option<IesFile>)
        ensures
            r is Some <==> ies_file_ok(bytes@),
            r matches Some(x) ==> ies_file_at(bytes@, x) && rows_fit(x),
    {
        let b = bytes.as_slice();
        let header = read_header(b)?;
        let columns = read_columns(b, header.column_count, header.data_offset, header.resource_offset)?;
        if header.resource_offset as usize > b.len() {
            return None;
        }
        let rs = b.len() - header.resource_offset as usize;
        let ghost ts = kinds_of(columns@);
        let ghost skip = header.string_column_count as int;
        let ghost n = header.row_count as nat;
        let mut rows: Vec<Vec<IesRow>> = Vec::new();
        let mut pos: usize = rs;
        let mut i: u16 = 0;
        while i < header.row_count
            invariant
                b@ == bytes@,
                header_ok(b@),
                header_at(b@, header),
                columns_ok(b@),
                columns_at(b@, columns@),
                rs == rows_start(b@),
                ts == kinds_of(columns@),
                skip == le16(b@, 152),
                n == le16(b@, 146),
                i <= header.row_count,
                rows_end(b@, rs as int, ts, skip, i as nat) == Some(pos as int),
                rows@.len() == i,
                rows_at(b@, rs as int, ts, skip, rows@),
                forall|r: int| 0 <= r < rows@.len() ==> (#[trigger] rows@[r])@.len() == columns@.len(),
            decreases header.row_count - i,
        {
            match read_row(b, pos, &columns) {
                None => {
                    proof {
                        lemma_rows_none(b@, rs as int, ts, skip, (i + 1) as nat, n);
                        assert(table_rows_end(b@, columns@) is None);
                    }
                    return None;
                },
                Some((row, e)) => {
                    let ghost old_rows = rows@;
                    rows.push(row);
                    proof {
                        assert forall|r: int| 0 <= r < rows@.len() implies row_at(b@, rows_end(b@, rs as int, ts, skip, r as nat)->0, ts, (#[trigger] rows@[r])@) by {
                            if r < old_rows.len() {
                                assert(rows@[r] == old_rows[r]);
                            }
                        }
                    }
                    i = i + 1;
                    let sc = header.string_column_count as usize;
                    if sc > b.len() - e {
                        if i < header.row_count {
                            proof {
                                assert(row_cells_start(b@, e + skip) is None);
                                lemma_rows_none(b@, rs as int, ts, skip, (i + 1) as nat, n);
                                assert(table_rows_end(b@, columns@) is None);
                            }
                            return None;
                        }
                        proof {
                            assert forall|cols: Seq<IesColumn>| columns_at(b@, cols) implies #[trigger] table_rows_end(b@, cols) is Some by {
                                lemma_kinds_unique(b@, cols, columns@);
                            }
                        }
                        return Some(IesFile { header, columns, rows });
                    }
                    pos = e + sc;
                },
            }
        }
        proof {
            assert forall|cols: Seq<IesColumn>| columns_at(b@, cols) implies #[trigger] table_rows_end(b@, cols) is Some by {
                lemma_kinds_unique(b@, cols, columns@);
            }
        }
        Some(IesFile { header, columns, rows })
    }

    /// Reads a whole table as `try_load_from_bytes` does; not to be called
    /// on data that cannot be read.
    pub fn load_from_bytes(bytes: Vec<u8>) -> (r: IesFile)
        requires
            ies_file_ok(bytes@),
        ensures
            ies_file_at(bytes@, r) && rows_fit(r),
    {
        let r = IesFile::try_load_from_bytes(bytes);
        r.unwrap()
    }
}

/// The index of the first column named `name` by its first name, else by
/// its second name, if any.
pub open spec fn column_index_of(cols: Seq<IesColumn>, name: Seq<char>) -> Option<int> {
    if exists|i: int| 0 <= i < cols.len() && cols[i].name@ == name {
        Some(choose|i: int| 0 <= i < cols.len() && cols[i].name@ == name && forall|j: int| 0 <= j < i ==> cols[j].name@ != name)
    } else if exists|i: int| 0 <= i < cols.len() && cols[i].name_second@ == name {
        Some(choose|i: int| 0 <= i < cols.len() && cols[i].name_second@ == name && forall|j: int| 0 <= j < i ==> cols[j].name_second@ != name)
    } else {
        None
    }
}

impl IesFile {
    /// How many columns the table has.
    pub fn get_columns_length(&self) -> (r: usize)
        ensures
            r == self.columns@.len(),
    {
        self.columns.len()
    }

    /// How many rows the table has.
    pub fn get_rows_length(&self) -> (r: usize)
        ensures
            r == self.rows@.len(),
    {
        self.rows.len()
    }

    /// The first names of the columns, in order.
    pub fn get_column_names(&self) -> (r: Vec<&String>)
        ensures
            r@.len() == self.columns@.len(),
            forall|i: int| 0 <= i < r@.len() ==> (#[trigger] r@[i])@ == self.columns@[i].name@,
    {
        let mut out: Vec<&String> = Vec::new();
        let mut i: usize = 0;
        while i < self.columns.len()
            invariant
                i <= self.columns@.len(),
                out@.len() == i,
                forall|k: int| 0 <= k < i ==> (#[trigger] out@[k])@ == self.columns@[k].name@,
            decreases self.columns@.len() - i,
        {
            out.push(&self.columns[i].name);
            i = i + 1;
        }
        out
    }

    /// The index of the first column named `column_name`, looked for among
    /// the first names and then among the second names.
    pub fn get_column_index_by_name(&self, column_name: &str) -> (r: Option<usize>)
        ensures
            r is None <==> column_index_of(self.columns@, column_name@) is None,
            r matches Some(i) ==> column_index_of(self.columns@, column_name@) == Some(i as int) && i < self.columns@.len(),
    {
        let n = self.columns.len();
        let mut i: usize = 0;
        while i < n
            invariant
                n == self.columns@.len(),
                i <= n,
                forall|j: int| 0 <= j < i ==> self.columns@[j].name@ != column_name@,
            decreases n - i,
        {
            if text_eq(self.columns[i].name.as_str(), column_name) {
                proof {
                    let c = self.columns@;
                    let k = choose|k: int| 0 <= k < c.len() && c[k].name@ == column_name@ && forall|j: int| 0 <= j < k ==> c[j].name@ != column_name@;
                    if k < i {
                    } else if k > i {
                        assert(c[i as int].name@ == column_name@);
                    }
                }
                return Some(i);
            }
            i = i + 1;
        }
        let mut i: usize = 0;
        while i < n
            invariant
                n == self.columns@.len(),
                i <= n,
                forall|j: int| 0 <= j < n ==> self.columns@[j].name@ != column_name@,
                forall|j: int| 0 <= j < i ==> self.columns@[j].name_second@ != column_name@,
            decreases n - i,
        {
            if text_eq(self.columns[i].name_second.as_str(), column_name) {
                proof {
                    let c = self.columns@;
                    let k = choose|k: int| 0 <= k < c.len() && c[k].name_second@ == column_name@ && forall|j: int| 0 <= j < k ==> c[j].name_second@ != column_name@;
                    if k > i {
                        assert(c[i as int].name_second@ == column_name@);
                    }
                }
                return Some(i);
            }
            i = i + 1;
        }
        None
    }

    /// The cell of the row `row_index` in the column named `column_name`
    /// (see `get_column_index_by_name`), if both are there.
    pub fn get_data_by_column_name_and_index(&self, column_name: &str, row_index: usize) -> (r: Option<&IesRow>)
        requires
            rows_fit(*self),
        ensures
            match column_index_of(self.columns@, column_name@) {
                Some(c) => if row_index < self.rows@.len() {
                    r == Some(&self.rows@[row_index as int]@[c])
                } else {
                    r is None
                },
                None => r is None,
            },
    {
        match self.get_column_index_by_name(column_name) {
            Some(column_index) => {
                if row_index < self.rows.len() {
                    let cell = &self.rows[row_index][column_index];
                    Some(cell)
                } else {
                    None
                }
            },
            None => None,
        }
    }
}

} // verus!
