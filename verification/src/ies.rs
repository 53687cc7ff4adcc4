//! IES tables as the viewer reads them: a header, column descriptors with
//! their names unmasked, rows of numbers and texts, and the table of mesh
//! paths drawn from them.

use vstd::prelude::*;
use crate::bytes::{get_u16_le, get_u32_le, get_i32_le, to_i8, le16, le32, signed32, signed8};
use crate::text::{utf8_lossy, lossy_utf8, trim_unprintable_end, trim_unkept, xor1, xor_bytes, chars_of, string_from_chars, to_lowercase, lowercase};
use crate::sort::{KeyOrder, stable_order, is_stable_order, rank_lt, occurs};
use crate::category::{locate, names_sorted, entry_names, index_of_name, name_at};


verus! {

/// The key that masks every byte of a stored column name or text.
pub const XOR_KEY: u8 = 1;

/// Bytes in the header.
pub const HEADER_SIZE: usize = 156;

/// Bytes in a column descriptor.
pub const COLUMN_SIZE: usize = 136;

/// Why an IES table cannot be read.
#[derive(Copy, Clone, PartialEq, Eq, Structural, Debug)]
pub enum IesError {
    /// The data ends before the table does.
    UnexpectedEof,
}

/// What `decrypt_bytes_to_string` makes of stored bytes: unmasked, decoded
/// with replacement, without the trailing characters that are neither ASCII
/// graphic nor ASCII whitespace.
pub open spec fn spec_decrypt(b: Seq<u8>) -> Seq<char> {
    trim_unkept(lossy_utf8(xor1(b)))
}

/// What `trim_padding` makes of stored bytes: decoded with replacement,
/// without the same trailing characters.
pub open spec fn spec_trim_padding(b: Seq<u8>) -> Seq<char> {
    trim_unkept(lossy_utf8(b))
}

fn decrypt_bytes_to_string(encrypted_bytes: &[u8]) -> (r: String)
    ensures
        r@ == spec_decrypt(encrypted_bytes@),
{
    let plain = xor_bytes(encrypted_bytes);
    let s = utf8_lossy(plain.as_slice());
    trim_unprintable_end(s.as_str())
}

fn trim_padding(padded_bytes: &[u8]) -> (r: String)
    ensures
        r@ == spec_trim_padding(padded_bytes@),
{
    let s = utf8_lossy(padded_bytes);
    trim_unprintable_end(s.as_str())
}

/// A column descriptor with its names unmasked.
pub struct IESColumn {
    pub column: String,
    pub name: String,
    pub type_data: u16,
    pub access_data: u16,
    pub sync_data: u16,
    pub decl_idx: u16,
}

/// A text cell: its stored length and its unmasked text.
pub struct IESRowText {
    pub text_length: u16,
    pub text_data: String,
}

/// A number cell: the bits of its 32-bit float, as stored.
pub struct IESRowFloat {
    pub float_bits: u32,
}

/// A row: its index, its own text, its number cells, its text cells and
/// one padding byte per text cell.
pub struct IESColumnData {
    pub index_data: i32,
    pub row_text: IESRowText,
    pub floats: Vec<IESRowFloat>,
    pub texts: Vec<IESRowText>,
    pub padding: Vec<i8>,
}

/// The header, its two names decoded.
pub struct IESHeader {
    pub idspace: String,
    pub keyspace: String,
    pub version: u16,
    pub padding: u16,
    pub info_size: u32,
    pub data_size: u32,
    pub total_size: u32,
    pub use_class_id: u8,
    pub padding2: u8,
    pub num_field: u16,
    pub num_column: u16,
    pub num_column_number: u16,
    pub num_column_string: u16,
    pub padding3: u16,
}

/// A whole table.
pub struct IESRoot {
    pub header: IESHeader,
    pub columns: Vec<IESColumn>,
    pub data: Vec<IESColumnData>,
}

// ------------------------------------------------------------------ layout

/// Where the text cell at `pos` ends, if the data holds it.
pub open spec fn text_end(b: Seq<u8>, pos: int) -> Option<int> {
    if 0 <= pos && pos + 2 <= b.len() && pos + 2 + le16(b, pos) <= b.len() {
        Some(pos + 2 + le16(b, pos))
    } else {
        None
    }
}

/// Where `k` text cells from `pos` end, if the data holds them.
pub open spec fn texts_end(b: Seq<u8>, pos: int, k: nat) -> Option<int>
    decreases k,
{
    if k == 0 {
        Some(pos)
    } else {
        match texts_end(b, pos, (k - 1) as nat) {
            Some(p) => text_end(b, p),
            None => None,
        }
    }
}

/// Where the row at `pos` ends, if the data holds it.
pub open spec fn row_end(b: Seq<u8>, pos: int, ncn: nat, ncs: nat) -> Option<int> {
    if pos + 4 > b.len() {
        None
    } else {
        match text_end(b, pos + 4) {
            None => None,
            Some(p2) => if p2 + 4 * ncn > b.len() {
                None
            } else {
                match texts_end(b, p2 + 4 * ncn, ncs) {
                    None => None,
                    Some(p4) => if p4 + ncs <= b.len() {
                        Some(p4 + ncs)
                    } else {
                        None
                    },
                }
            },
        }
    }
}

/// Where `n` rows from `pos` end, if the data holds them.
pub open spec fn rows_end(b: Seq<u8>, pos: int, n: nat, ncn: nat, ncs: nat) -> Option<int>
    decreases n,
{
    if n == 0 {
        Some(pos)
    } else {
        match rows_end(b, pos, (n - 1) as nat, ncn, ncs) {
            Some(p) => row_end(b, p, ncn, ncs),
            None => None,
        }
    }
}

/// Where the column descriptors end.
pub open spec fn columns_end(b: Seq<u8>) -> int {
    HEADER_SIZE + COLUMN_SIZE * le16(b, 148)
}

/// Where the whole table ends, if the data holds it.
pub open spec fn root_end(b: Seq<u8>) -> Option<int> {
    if b.len() < HEADER_SIZE || columns_end(b) > b.len() {
        None
    } else {
        rows_end(b, columns_end(b), le16(b, 146) as nat, le16(b, 150) as nat, le16(b, 152) as nat)
    }
}

// ------------------------------------------------------------------ contents

/// `t` is the text cell stored at `pos`.
pub open spec fn text_at(b: Seq<u8>, pos: int, t: IESRowText) -> bool {
    &&& t.text_length == le16(b, pos)
    &&& t.text_data@ == spec_decrypt(b.subrange(pos + 2, pos + 2 + le16(b, pos)))
}

/// `c` is the column descriptor stored at `pos`.
pub open spec fn column_at(b: Seq<u8>, pos: int, c: IESColumn) -> bool {
    &&& c.column@ == spec_decrypt(b.subrange(pos, pos + 64))
    &&& c.name@ == spec_decrypt(b.subrange(pos + 64, pos + 128))
    &&& c.type_data == le16(b, pos + 128)
    &&& c.access_data == le16(b, pos + 130)
    &&& c.sync_data == le16(b, pos + 132)
    &&& c.decl_idx == le16(b, pos + 134)
}

/// `r` is the row stored at `pos`, with `ncn` number and `ncs` text cells.
pub open spec fn row_at(b: Seq<u8>, pos: int, ncn: nat, ncs: nat, r: IESColumnData) -> bool {
    let p2 = text_end(b, pos + 4)->0;
    let p3 = p2 + 4 * ncn;
    let p4 = texts_end(b, p3, ncs)->0;
    &&& r.index_data == signed32(le32(b, pos))
    &&& text_at(b, pos + 4, r.row_text)
    &&& r.floats@.len() == ncn
    &&& forall|i: int| 0 <= i < ncn ==> (#[trigger] r.floats@[i]).float_bits == le32(b, p2 + 4 * i)
    &&& r.texts@.len() == ncs
    &&& forall|i: int| 0 <= i < ncs ==> text_at(b, texts_end(b, p3, i as nat)->0, #[trigger] r.texts@[i])
    &&& r.padding@.len() == ncs
    &&& forall|i: int| 0 <= i < ncs ==> #[trigger] r.padding@[i] == signed8(b[p4 + i] as int)
}

/// `h` is the header stored at the start of `b`.
pub open spec fn header_at(b: Seq<u8>, h: IESHeader) -> bool {
    &&& h.idspace@ == spec_trim_padding(b.subrange(0, 64))
    &&& h.keyspace@ == spec_trim_padding(b.subrange(64, 128))
    &&& h.version == le16(b, 128)
    &&& h.padding == le16(b, 130)
    &&& h.info_size == le32(b, 132)
    &&& h.data_size == le32(b, 136)
    &&& h.total_size == le32(b, 140)
    &&& h.use_class_id == b[144]
    &&& h.padding2 == b[145]
    &&& h.num_field == le16(b, 146)
    &&& h.num_column == le16(b, 148)
    &&& h.num_column_number == le16(b, 150)
    &&& h.num_column_string == le16(b, 152)
    &&& h.padding3 == le16(b, 154)
}

/// `root` is the table stored in `b`.
pub open spec fn root_at(b: Seq<u8>, root: IESRoot) -> bool {
    let ncn = le16(b, 150) as nat;
    let ncs = le16(b, 152) as nat;
    &&& header_at(b, root.header)
    &&& root.columns@.len() == le16(b, 148)
    &&& forall|i: int| 0 <= i < root.columns@.len() ==> column_at(b, HEADER_SIZE + COLUMN_SIZE * i, #[trigger] root.columns@[i])
    &&& root.data@.len() == le16(b, 146)
    &&& forall|r: int| 0 <= r < root.data@.len() ==> row_at(b, rows_end(b, columns_end(b), r as nat, ncn, ncs)->0, ncn, ncs, #[trigger] root.data@[r])
}

proof fn lemma_texts_end_stays_none(b: Seq<u8>, pos: int, i: nat, k: nat)
    requires
        texts_end(b, pos, i) is None,
        i <= k,
    ensures
        texts_end(b, pos, k) is None,
    decreases k - i,
{
    if i < k {
        lemma_texts_end_stays_none(b, pos, i, (k - 1) as nat);
    }
}

proof fn lemma_rows_end_stays_none(b: Seq<u8>, pos: int, i: nat, k: nat, ncn: nat, ncs: nat)
    requires
        rows_end(b, pos, i, ncn, ncs) is None,
        i <= k,
    ensures
        rows_end(b, pos, k, ncn, ncs) is None,
    decreases k - i,
{
    if i < k {
        lemma_rows_end_stays_none(b, pos, i, (k - 1) as nat, ncn, ncs);
    }
}

proof fn lemma_texts_end_grows(b: Seq<u8>, pos: int, k: nat)
    requires
        texts_end(b, pos, k) is Some,
    ensures
        pos <= texts_end(b, pos, k)->0 <= b.len() || k == 0,
        k > 0 ==> pos <= texts_end(b, pos, k)->0 <= b.len(),
    decreases k,
{
    if k > 0 {
        lemma_texts_end_grows(b, pos, (k - 1) as nat);
    }
}

/// Reads the text cell at `pos`.
fn read_text(b: &[u8], pos: usize) -> (r: Result<(IESRowText, usize), IesError>)
    requires
        pos <= b@.len(),
    ensures
        match text_end(b@, pos as int) {
            Some(e) => r matches Ok((t, e2)) && e2 == e && text_at(b@, pos as int, t),
            None => r is Err,
        },
{
    if b.len() - pos < 2 {
        return Err(IesError::UnexpectedEof);
    }
    let n = get_u16_le(b, pos);
    if b.len() - pos - 2 < n as usize {
        return Err(IesError::UnexpectedEof);
    }
    let end = pos + 2 + n as usize;
    let text = decrypt_bytes_to_string(&b[pos + 2..end]);
    Ok((IESRowText { text_length: n, text_data: text }, end))
}

/// Reads the column descriptor at `pos`.
fn read_column(b: &[u8], pos: usize) -> (c: IESColumn)
    requires
        pos + COLUMN_SIZE <= b.len(),
    ensures
        column_at(b@, pos as int, c),
{
    IESColumn {
        column: decrypt_bytes_to_string(&b[pos..pos + 64]),
        name: decrypt_bytes_to_string(&b[pos + 64..pos + 128]),
        type_data: get_u16_le(b, pos + 128),
        access_data: get_u16_le(b, pos + 130),
        sync_data: get_u16_le(b, pos + 132),
        decl_idx: get_u16_le(b, pos + 134),
    }
}

/// Reads the row at `pos`.
fn read_row(b: &[u8], pos: usize, ncn: u16, ncs: u16) -> (r: Result<(IESColumnData, usize), IesError>)
    requires
        pos <= b@.len(),
    ensures
        match row_end(b@, pos as int, ncn as nat, ncs as nat) {
            Some(e) => r matches Ok((d, e2)) && e2 == e && row_at(b@, pos as int, ncn as nat, ncs as nat, d),
            None => r is Err,
        },
{
    if b.len() - pos < 4 {
        return Err(IesError::UnexpectedEof);
    }
    let index_data = get_i32_le(b, pos);
    let (row_text, p2) = match read_text(b, pos + 4) {
        Ok(x) => x,
        Err(e) => {
            return Err(e);
        },
    };
    if b.len() - p2 < 4 * (ncn as usize) {
        return Err(IesError::UnexpectedEof);
    }
    let mut floats: Vec<IESRowFloat> = Vec::new();
    let mut i: usize = 0;
    while i < ncn as usize
        invariant
            p2 + 4 * (ncn as int) <= b.len(),
            i <= ncn,
            floats@.len() == i,
            forall|k: int| 0 <= k < i ==> (#[trigger] floats@[k]).float_bits == le32(b@, p2 + 4 * k),
        decreases ncn - i,
    {
        floats.push(IESRowFloat { float_bits: get_u32_le(b, p2 + 4 * i) });
        i = i + 1;
    }
    let p3 = p2 + 4 * (ncn as usize);
    let mut texts: Vec<IESRowText> = Vec::new();
    let mut p = p3;
    let mut i: usize = 0;
    while i < ncs as usize
        invariant
            pos + 4 <= b@.len(),
            text_end(b@, pos + 4) == Some(p2 as int),
            p3 == p2 + 4 * (ncn as int),
            p3 <= b@.len(),
            i <= ncs,
            texts_end(b@, p3 as int, i as nat) == Some(p as int),
            p <= b@.len(),
            texts@.len() == i,
            forall|k: int| 0 <= k < i ==> text_at(b@, texts_end(b@, p3 as int, k as nat)->0, #[trigger] texts@[k]),
        decreases ncs - i,
    {
        match read_text(b, p) {
            Ok((t, e)) => {
                texts.push(t);
                p = e;
            },
            Err(e) => {
                proof {
                    assert(texts_end(b@, p3 as int, (i + 1) as nat) is None);
                    lemma_texts_end_stays_none(b@, p3 as int, (i + 1) as nat, ncs as nat);
                }
                return Err(e);
            },
        }
        i = i + 1;
    }
    if b.len() - p < ncs as usize {
        return Err(IesError::UnexpectedEof);
    }
    let mut padding: Vec<i8> = Vec::new();
    let mut i: usize = 0;
    while i < ncs as usize
        invariant
            p + ncs <= b.len(),
            i <= ncs,
            padding@.len() == i,
            forall|k: int| 0 <= k < i ==> #[trigger] padding@[k] == signed8(b@[p + k] as int),
        decreases ncs - i,
    {
        padding.push(to_i8(b[p + i]));
        i = i + 1;
    }
    let end = p + ncs as usize;
    Ok((IESColumnData { index_data, row_text, floats, texts, padding }, end))
}

impl IESRoot {
    /// Reads a whole table from `bytes`; fails exactly where the data ends
    /// before the table does.
    pub fn from_bytes(bytes: &[u8]) -> (res: Result<IESRoot, IesError>)
        ensures
            res is Ok <==> root_end(bytes@) is Some,
            res matches Ok(root) ==> root_at(bytes@, root),
    {
        let b = bytes;
        if b.len() < HEADER_SIZE {
            return Err(IesError::UnexpectedEof);
        }
        let header = IESHeader {
            idspace: trim_padding(&b[0..64]),
            keyspace: trim_padding(&b[64..128]),
            version: get_u16_le(b, 128),
            padding: get_u16_le(b, 130),
            info_size: get_u32_le(b, 132),
            data_size: get_u32_le(b, 136),
            total_size: get_u32_le(b, 140),
            use_class_id: b[144],
            padding2: b[145],
            num_field: get_u16_le(b, 146),
            num_column: get_u16_le(b, 148),
            num_column_number: get_u16_le(b, 150),
            num_column_string: get_u16_le(b, 152),
            padding3: get_u16_le(b, 154),
        };
        let nc = header.num_column as usize;
        if (b.len() - HEADER_SIZE) / COLUMN_SIZE < nc {
            return Err(IesError::UnexpectedEof);
        }
        let mut columns: Vec<IESColumn> = Vec::new();
        let mut i: usize = 0;
        while i < nc
            invariant
                HEADER_SIZE + COLUMN_SIZE * nc <= b.len(),
                i <= nc,
                columns@.len() == i,
                forall|k: int| 0 <= k < i ==> column_at(b@, HEADER_SIZE + COLUMN_SIZE * k, #[trigger] columns@[k]),
            decreases nc - i,
        {
            columns.push(read_column(b, HEADER_SIZE + COLUMN_SIZE * i));
            i = i + 1;
        }
        let start = HEADER_SIZE + COLUMN_SIZE * nc;
        let nf = header.num_field;
        let ncn = header.num_column_number;
        let ncs = header.num_column_string;
        let mut data: Vec<IESColumnData> = Vec::new();
        let mut p = start;
        let mut r: usize = 0;
        while r < nf as usize
            invariant
                b@ == bytes@,
                b@.len() >= HEADER_SIZE,
                nf == le16(b@, 146),
                ncn == le16(b@, 150),
                ncs == le16(b@, 152),
                start <= b@.len(),
                start == columns_end(b@),
                r <= nf,
                p <= b@.len(),
                rows_end(b@, start as int, r as nat, ncn as nat, ncs as nat) == Some(p as int),
                data@.len() == r,
                forall|k: int| 0 <= k < r ==> row_at(b@, rows_end(b@, start as int, k as nat, ncn as nat, ncs as nat)->0, ncn as nat, ncs as nat, #[trigger] data@[k]),
            decreases nf - r,
        {
            match read_row(b, p, ncn, ncs) {
                Ok((d, e)) => {
                    data.push(d);
                    p = e;
                    proof {
                        lemma_row_end_bound(b@, rows_end(b@, start as int, r as nat, ncn as nat, ncs as nat)->0, ncn as nat, ncs as nat);
                    }
                },
                Err(e) => {
                    proof {
                        assert(rows_end(b@, start as int, (r + 1) as nat, ncn as nat, ncs as nat) is None);
                        lemma_rows_end_stays_none(b@, start as int, (r + 1) as nat, nf as nat, ncn as nat, ncs as nat);
                        assert(le16(b@, 146) as nat == nf as nat);
                        assert(le16(b@, 150) as nat == ncn as nat);
                        assert(le16(b@, 152) as nat == ncs as nat);
                        assert(!(b@.len() < HEADER_SIZE || columns_end(b@) > b@.len()));
                        assert(root_end(b@) is None);
                    }
                    return Err(e);
                },
            }
            r = r + 1;
        }
        Ok(IESRoot { header, columns, data })
    }
}

proof fn lemma_row_end_bound(b: Seq<u8>, pos: int, ncn: nat, ncs: nat)
    requires
        row_end(b, pos, ncn, ncs) is Some,
    ensures
        row_end(b, pos, ncn, ncs)->0 <= b.len(),
{
}

// ------------------------------------------------------------------ meshes

/// The order in which `extract_mesh_path_map` lists columns: by
/// declaration index, then by type.
#[derive(Copy, Clone)]
pub struct ColumnOrderKey {
    pub decl_idx: u16,
    pub type_data: u16,
}

impl KeyOrder for ColumnOrderKey {
    open spec fn key_lt(a: Self, b: Self) -> bool {
        a.decl_idx < b.decl_idx || (a.decl_idx == b.decl_idx && a.type_data < b.type_data)
    }

    proof fn lemma_irreflexive(a: Self) {
    }

    proof fn lemma_transitive(a: Self, b: Self, c: Self) {
    }

    proof fn lemma_negative_transitive(a: Self, b: Self, c: Self) {
    }

    fn key_less(&self, other: &Self) -> (r: bool) {
        self.decl_idx < other.decl_idx || (self.decl_idx == other.decl_idx && self.type_data < other.type_data)
    }
}

/// The order keys of the columns.
pub open spec fn column_keys(cols: Seq<IESColumn>) -> Seq<ColumnOrderKey> {
    Seq::new(cols.len(), |i: int| ColumnOrderKey { decl_idx: cols[i].decl_idx, type_data: cols[i].type_data })
}

/// The text "Mesh".
pub open spec fn mesh_word() -> Seq<char> {
    seq!['M', 'e', 's', 'h']
}

/// The text "Path".
pub open spec fn path_word() -> Seq<char> {
    seq!['P', 'a', 't', 'h']
}

/// The last position in the column order `s` of a column named `word`.
pub open spec fn last_named(cols: Seq<IESColumn>, s: Seq<usize>, word: Seq<char>) -> Option<int>
    decreases s.len(),
{
    if s.len() == 0 {
        None
    } else if cols[s.last() as int].column@ == word {
        Some(s.len() - 1)
    } else {
        last_named(cols, s.drop_last(), word)
    }
}

proof fn lemma_last_named_range(cols: Seq<IESColumn>, s: Seq<usize>, word: Seq<char>)
    ensures
        last_named(cols, s, word) matches Some(i) ==> 0 <= i < s.len(),
    decreases s.len(),
{
    if s.len() > 0 {
        lemma_last_named_range(cols, s.drop_last(), word);
    }
}

/// `s` with every backslash turned into a slash.
pub open spec fn slash_fixed(s: Seq<char>) -> Seq<char> {
    s.map_values(|c: char| if c == '\\' { '/' } else { c })
}

/// The text of a row's text cell `k`, backslashes turned into slashes, or
/// nothing where the row has no such cell.
pub open spec fn cell_text(row: IESColumnData, k: int) -> Seq<char> {
    if 0 <= k < row.texts@.len() {
        slash_fixed(row.texts@[k].text_data@)
    } else {
        Seq::empty()
    }
}

/// The mesh table of `rows`: for each row whose mesh and path cells are
/// both non-empty, its lowercased mesh name mapped to its path, a later
/// row replacing an earlier one of the same name.
pub open spec fn mesh_entries(rows: Seq<IESColumnData>, mi: int, pi: int) -> Map<Seq<char>, Seq<char>>
    decreases rows.len(),
{
    if rows.len() == 0 {
        Map::empty()
    } else {
        let m = mesh_entries(rows.drop_last(), mi, pi);
        let mesh = cell_text(rows.last(), mi);
        let path = cell_text(rows.last(), pi);
        if mesh.len() > 0 && path.len() > 0 {
            m.insert(lowercase(mesh), path)
        } else {
            m
        }
    }
}

/// In the mesh table, the lowercased mesh name of a row with both cells
/// non-empty, where no later such row has the same lowercased name, maps to
/// that row's path text with its backslashes made slashes and its case
/// kept; every name in the table comes from such a row.
pub proof fn law_mesh_table_keeps_path_text(rows: Seq<IESColumnData>, mi: int, pi: int, j: int)
    requires
        0 <= j < rows.len(),
        0 <= mi < rows[j].texts@.len(),
        0 <= pi < rows[j].texts@.len(),
        rows[j].texts@[mi].text_data@.len() > 0,
        rows[j].texts@[pi].text_data@.len() > 0,
        forall|k: int| j < k < rows.len() && cell_text(#[trigger] rows[k], mi).len() > 0 && cell_text(rows[k], pi).len() > 0
            ==> lowercase(cell_text(rows[k], mi)) != lowercase(slash_fixed(rows[j].texts@[mi].text_data@)),
    ensures
        mesh_entries(rows, mi, pi).contains_key(lowercase(slash_fixed(rows[j].texts@[mi].text_data@))),
        mesh_entries(rows, mi, pi)[lowercase(slash_fixed(rows[j].texts@[mi].text_data@))]
            == slash_fixed(rows[j].texts@[pi].text_data@),
    decreases rows.len(),
{
    let key = lowercase(slash_fixed(rows[j].texts@[mi].text_data@));
    if j == rows.len() - 1 {
        assert(rows.last() == rows[j]);
    } else {
        let init = rows.drop_last();
        assert forall|k: int| j < k < init.len() && cell_text(#[trigger] init[k], mi).len() > 0 && cell_text(init[k], pi).len() > 0
            implies lowercase(cell_text(init[k], mi)) != key by {
            assert(init[k] == rows[k]);
        }
        assert(init[j] == rows[j]);
        law_mesh_table_keeps_path_text(init, mi, pi, j);
        let last = rows[rows.len() - 1];
        assert(rows.last() == last);
    }
}

/// Every name in the mesh table is the lowercased mesh text of some row
/// with both cells non-empty, and maps to that row's path text with its
/// backslashes made slashes and its case kept.
pub proof fn law_mesh_table_entries_from_rows(rows: Seq<IESColumnData>, mi: int, pi: int, key: Seq<char>)
    requires
        mesh_entries(rows, mi, pi).contains_key(key),
    ensures
        exists|j: int| 0 <= j < rows.len() && 0 <= mi < (#[trigger] rows[j]).texts@.len() && 0 <= pi < rows[j].texts@.len()
            && lowercase(slash_fixed(rows[j].texts@[mi].text_data@)) == key
            && slash_fixed(rows[j].texts@[pi].text_data@)
                == mesh_entries(rows, mi, pi)[key],
    decreases rows.len(),
{
    let init = rows.drop_last();
    let last = rows.last();
    let mesh = cell_text(last, mi);
    let path = cell_text(last, pi);
    if mesh.len() > 0 && path.len() > 0 && lowercase(mesh) == key {
        let j = rows.len() - 1;
        assert(rows[j] == last);
        assert(slash_fixed(rows[j].texts@[pi].text_data@)
            =~= path);
    } else {
        law_mesh_table_entries_from_rows(init, mi, pi, key);
        let j = choose|j: int| 0 <= j < init.len() && 0 <= mi < (#[trigger] init[j]).texts@.len() && 0 <= pi < init[j].texts@.len()
            && lowercase(slash_fixed(init[j].texts@[mi].text_data@)) == key
            && slash_fixed(init[j].texts@[pi].text_data@)
                == mesh_entries(init, mi, pi)[key];
        assert(rows[j] == init[j]);
    }
}

/// The mesh table that `extract_mesh_path_map` draws from the table under
/// the column order `s`.
pub open spec fn spec_mesh_map(root: IESRoot, s: Seq<usize>) -> Map<Seq<char>, Seq<char>> {
    match (last_named(root.columns@, s, mesh_word()), last_named(root.columns@, s, path_word())) {
        (Some(m), Some(p)) => mesh_entries(root.data@, m - 1, p - 1),
        _ => Map::empty(),
    }
}

/// No column named "Mesh" or "Path" comes first in the column order.
pub open spec fn mesh_path_not_first(cols: Seq<IESColumn>, s: Seq<usize>) -> bool {
    s.len() > 0 ==> cols[s[0] as int].column@ != mesh_word() && cols[s[0] as int].column@ != path_word()
}

/// Every column named "Mesh" or "Path" has another column ordered before
/// it, so that none of them comes first.
pub open spec fn mesh_path_preceded(cols: Seq<IESColumn>) -> bool {
    forall|c: int| 0 <= c < cols.len() && (cols[c].column@ == mesh_word() || cols[c].column@ == path_word())
        ==> exists|d: int| 0 <= d < cols.len() && #[trigger] rank_lt(column_keys(cols), d, c)
}

proof fn lemma_preceded_not_first(cols: Seq<IESColumn>, s: Seq<usize>)
    requires
        mesh_path_preceded(cols),
        is_stable_order(column_keys(cols), s),
    ensures
        mesh_path_not_first(cols, s),
{
    let keys = column_keys(cols);
    if s.len() > 0 {
        let c = s[0] as int;
        if cols[c].column@ == mesh_word() || cols[c].column@ == path_word() {
            let d = choose|d: int| 0 <= d < cols.len() && #[trigger] rank_lt(keys, d, c);
            assert(occurs(s, d));
            let a = choose|a: int| 0 <= a < s.len() && s[a] == d;
            crate::sort::lemma_rank_irreflexive(keys, c);
            if a > 0 {
                assert(rank_lt(keys, s[0] as int, s[a] as int));
                crate::sort::lemma_rank_transitive(keys, c, d, c);
            }
        }
    }
}

/// The map that the list of pairs `v` holds.
pub open spec fn pairs_map(v: Seq<(String, String)>) -> Map<Seq<char>, Seq<char>> {
    Map::new(
        |k: Seq<char>| index_of_name(entry_names(v), k) is Some,
        |k: Seq<char>| v[index_of_name(entry_names(v), k)->0].1@,
    )
}

/// `s` with every backslash turned into a slash (`s.replace('\\', "/")`).
pub(crate) fn fix_slashes(s: &str) -> (r: String)
    ensures
        r@ == slash_fixed(s@),
{
    let chars = chars_of(s);
    let mut out: Vec<char> = Vec::new();
    let mut i: usize = 0;
    while i < chars.len()
        invariant
            i <= chars@.len(),
            chars@ == s@,
            out@ == slash_fixed(chars@.take(i as int)),
        decreases chars@.len() - i,
    {
        let c = chars[i];
        out.push(if c == '\\' { '/' } else { c });
        i = i + 1;
        assert(out@ =~= slash_fixed(chars@.take(i as int)));
    }
    assert(chars@.take(i as int) =~= chars@);
    string_from_chars(out.as_slice())
}

impl IESRoot {
    /// The mesh table: the columns are ordered stably by declaration index
    /// and type; the text cells one before the last "Mesh" and "Path"
    /// columns in that order give, for every row where both are non-empty,
    /// the lowercased mesh name and its path. Without both columns the table
    /// is empty. The pairs come sorted by mesh name, each name once.
    pub fn extract_mesh_path_map(&self) -> (r: Vec<(String, String)>)
        requires
            mesh_path_preceded(self.columns@),
        ensures
            names_sorted(entry_names(r@)),
            exists|s: Seq<usize>| is_stable_order(column_keys(self.columns@), s) && pairs_map(r@) == spec_mesh_map(*self, s),
    {
        let n = self.columns.len();
        let mut keys: Vec<ColumnOrderKey> = Vec::new();
        let mut i: usize = 0;
        while i < n
            invariant
                n == self.columns@.len(),
                i <= n,
                keys@ == column_keys(self.columns@).take(i as int),
            decreases n - i,
        {
            keys.push(ColumnOrderKey { decl_idx: self.columns[i].decl_idx, type_data: self.columns[i].type_data });
            i = i + 1;
            assert(keys@ =~= column_keys(self.columns@).take(i as int));
        }
        assert(keys@ =~= column_keys(self.columns@));
        let order = stable_order(&keys);
        let ghost s = order@;
        proof {
            lemma_preceded_not_first(self.columns@, s);
        }
        let mesh_word_s = String::from_str("Mesh");
        let path_word_s = String::from_str("Path");
        proof {
            reveal_strlit("Mesh");
            reveal_strlit("Path");
            assert(mesh_word_s@ =~= mesh_word());
            assert(path_word_s@ =~= path_word());
        }
        let mut mesh_idx: Option<usize> = None;
        let mut path_idx: Option<usize> = None;
        let mut i: usize = 0;
        while i < n
            invariant
                n == self.columns@.len(),
                n == order@.len(),
                s == order@,
                is_stable_order(column_keys(self.columns@), s),
                mesh_path_not_first(self.columns@, s),
                mesh_word_s@ == mesh_word(),
                path_word_s@ == path_word(),
                i <= n,
                match last_named(self.columns@, s.take(i as int), mesh_word()) {
                    Some(m) => mesh_idx == Some((m - 1) as usize) && m >= 1,
                    None => mesh_idx is None,
                },
                match last_named(self.columns@, s.take(i as int), path_word()) {
                    Some(p) => path_idx == Some((p - 1) as usize) && p >= 1,
                    None => path_idx is None,
                },
            decreases n - i,
        {
            let col = &self.columns[order[i]];
            proof {
                let t = s.take(i + 1);
                assert(t.drop_last() =~= s.take(i as int));
                assert(t.last() == s[i as int]);
            }
            if col.column == mesh_word_s {
                proof {
                    if i == 0 {
                        assert(s[0] == order@[0]);
                    }
                }
                mesh_idx = Some(i - 1);
            } else if col.column == path_word_s {
                proof {
                    if i == 0 {
                        assert(s[0] == order@[0]);
                    }
                }
                path_idx = Some(i - 1);
            }
            i = i + 1;
        }
        proof {
            assert(s.take(n as int) =~= s);
        }
        let mut map: Vec<(String, String)> = Vec::new();
        let (mi, pi) = match (mesh_idx, path_idx) {
            (Some(m), Some(p)) => {
                proof {
                    assert(s.take(n as int) =~= s);
                    lemma_last_named_range(self.columns@, s, mesh_word());
                    lemma_last_named_range(self.columns@, s, path_word());
                }
                (m, p)
            },
            _ => {
                proof {
                    assert(pairs_map(map@) =~= spec_mesh_map(*self, s));
                }
                return map;
            },
        };
        let nr = self.data.len();
        let mut r: usize = 0;
        proof {
            assert(self.data@.take(0) =~= Seq::<IESColumnData>::empty());
            assert(pairs_map(map@) =~= Map::<Seq<char>, Seq<char>>::empty());
        }
        while r < nr
            invariant
                nr == self.data@.len(),
                is_stable_order(column_keys(self.columns@), s),
                match (last_named(self.columns@, s, mesh_word()), last_named(self.columns@, s, path_word())) {
                    (Some(m), Some(p)) => m - 1 == mi && p - 1 == pi,
                    _ => false,
                },
                r <= nr,
                names_sorted(entry_names(map@)),
                pairs_map(map@) == mesh_entries(self.data@.take(r as int), mi as int, pi as int),
            decreases nr - r,
        {
            let row = &self.data[r];
            let mesh_name = if mi < row.texts.len() {
                fix_slashes(row.texts[mi].text_data.as_str())
            } else {
                String::new()
            };
            let path = if pi < row.texts.len() {
                fix_slashes(row.texts[pi].text_data.as_str())
            } else {
                String::new()
            };
            proof {
                let t = self.data@.take(r + 1);
                assert(t.drop_last() =~= self.data@.take(r as int));
                assert(t.last() == *row);
                assert(mesh_name@ == cell_text(*row, mi as int));
                assert(path@ == cell_text(*row, pi as int));
            }
            if mesh_name.unicode_len() > 0 && path.unicode_len() > 0 {
                let key = to_lowercase(mesh_name.as_str());
                insert_pair(&mut map, key, path);
            }
            r = r + 1;
        }
        proof {
            assert(self.data@.take(nr as int) =~= self.data@);
            assert(pairs_map(map@) == spec_mesh_map(*self, s));
            assert(is_stable_order(column_keys(self.columns@), s) && pairs_map(map@) == spec_mesh_map(*self, s));
        }
        map
    }
}

/// Maps `key` to `value` in the sorted list of pairs `map`.
pub(crate) fn insert_pair(map: &mut Vec<(String, String)>, key: String, value: String)
    requires
        names_sorted(entry_names(old(map)@)),
    ensures
        names_sorted(entry_names(final(map)@)),
        pairs_map(final(map)@) == pairs_map(old(map)@).insert(key@, value@),
{
    let key_chars = chars_of(key.as_str());
    let (k, found) = locate(map, key_chars.as_slice());
    let ghost before = map@;
    let ghost names = entry_names(before);
    if found {
        let mut entry = (key, value);
        map.set_and_swap(k, &mut entry);
        proof {
            assert(entry_names(map@) =~= names);
            assert forall|q: Seq<char>| #[trigger] pairs_map(map@).contains_key(q) == pairs_map(before).insert(key@, value@).contains_key(q) by {
                if q == key@ {
                    assert(name_at(names, q, k as int));
                }
            }
            assert forall|q: Seq<char>| pairs_map(map@).contains_key(q) implies #[trigger] pairs_map(map@)[q] == pairs_map(before).insert(key@, value@)[q] by {
                let j = choose|j: int| name_at(entry_names(map@), q, j);
                assert(name_at(entry_names(map@), q, j));
                lemma_unique_index(names, q, j);
                if q == key@ {
                    lemma_unique_index(names, q, k as int);
                } else {
                    lemma_unique_index(names, q, j);
                }
            }
            assert(pairs_map(map@) =~= pairs_map(before).insert(key@, value@));
        }
    } else {
        map.insert(k, (key, value));
        proof {
            assert(entry_names(map@) =~= names.insert(k as int, key_chars@));
            crate::category::lemma_sorted_insert_pub(names, k as int, key_chars@);
            let n2 = entry_names(map@);
            assert forall|q: Seq<char>| #[trigger] pairs_map(map@).contains_key(q) == pairs_map(before).insert(key@, value@).contains_key(q) by {
                if q == key@ {
                    assert(name_at(n2, q, k as int));
                } else if index_of_name(names, q) is Some {
                    let j = choose|j: int| name_at(names, q, j);
                    assert(name_at(names, q, j));
                    if j < k {
                        assert(name_at(n2, q, j));
                    } else {
                        assert(name_at(n2, q, j + 1));
                    }
                } else if index_of_name(n2, q) is Some {
                    let j = choose|j: int| name_at(n2, q, j);
                    assert(name_at(n2, q, j));
                    if j < k {
                        assert(name_at(names, q, j));
                    } else if j > k {
                        assert(name_at(names, q, j - 1));
                    }
                }
            }
            assert forall|q: Seq<char>| pairs_map(map@).contains_key(q) implies #[trigger] pairs_map(map@)[q] == pairs_map(before).insert(key@, value@)[q] by {
                let j = choose|j: int| name_at(n2, q, j);
                assert(name_at(n2, q, j));
                lemma_unique_index(n2, q, j);
                if q == key@ {
                    lemma_unique_index(n2, q, k as int);
                } else if j < k {
                    lemma_unique_index(names, q, j);
                } else {
                    assert(j != k);
                    lemma_unique_index(names, q, j - 1);
                }
            }
            assert(pairs_map(map@) =~= pairs_map(before).insert(key@, value@));
        }
    }
}

proof fn lemma_unique_index(names: Seq<Seq<char>>, q: Seq<char>, j: int)
    requires
        names_sorted(names),
        name_at(names, q, j),
    ensures
        index_of_name(names, q) == Some(j),
{
    crate::category::lemma_index_of_name_pub(names, q, j);
}

impl IESRoot {
    /// Whether every column named "Mesh" or "Path" has another column
    /// ordered before it: `extract_mesh_path_map` needs it.
    pub fn mesh_columns_preceded(&self) -> (r: bool)
        ensures
            r == mesh_path_preceded(self.columns@),
    {
        let ghost keys = column_keys(self.columns@);
        let n = self.columns.len();
        let mesh_word_s = String::from_str("Mesh");
        let path_word_s = String::from_str("Path");
        proof {
            reveal_strlit("Mesh");
            reveal_strlit("Path");
            assert(mesh_word_s@ =~= mesh_word());
            assert(path_word_s@ =~= path_word());
        }
        let mut c: usize = 0;
        while c < n
            invariant
                n == self.columns@.len(),
                keys == column_keys(self.columns@),
                mesh_word_s@ == mesh_word(),
                path_word_s@ == path_word(),
                c <= n,
                forall|x: int| 0 <= x < c && (self.columns@[x].column@ == mesh_word() || self.columns@[x].column@ == path_word())
                    ==> exists|d: int| 0 <= d < n && #[trigger] rank_lt(keys, d, x),
            decreases n - c,
        {
            let col = &self.columns[c];
            if col.column == mesh_word_s || col.column == path_word_s {
                let mut found = false;
                let mut d: usize = 0;
                while d < n
                    invariant
                        n == self.columns@.len(),
                        keys == column_keys(self.columns@),
                        c < n,
                        *col == self.columns@[c as int],
                        d <= n,
                        found ==> exists|e: int| 0 <= e < n && #[trigger] rank_lt(keys, e, c as int),
                        !found ==> forall|e: int| 0 <= e < d ==> !#[trigger] rank_lt(keys, e, c as int),
                    decreases n - d,
                {
                    let a = &self.columns[d];
                    let before = a.decl_idx < col.decl_idx
                        || (a.decl_idx == col.decl_idx && a.type_data < col.type_data)
                        || (!(col.decl_idx < a.decl_idx || (col.decl_idx == a.decl_idx && col.type_data < a.type_data)) && d < c);
                    proof {
                        assert(keys[d as int] == ColumnOrderKey { decl_idx: a.decl_idx, type_data: a.type_data });
                        assert(keys[c as int] == ColumnOrderKey { decl_idx: col.decl_idx, type_data: col.type_data });
                        assert(before == rank_lt(keys, d as int, c as int));
                    }
                    if before {
                        found = true;
                    }
                    d = d + 1;
                }
                if !found {
                    return false;
                }
            }
            c = c + 1;
        }
        true
    }
}

} // verus!
