//! The IES table as stored, byte for byte: a header, column descriptors
//! and rows, with every column name and row text XOR-masked. Holds the
//! conversions between the stored form and a plain-text form, and the
//! reading and writing of whole files.

use vstd::prelude::*;
use vstd::string::StringSliceAdditionalSpecFns;
use crate::bytes::{le16, le32, signed32, signed8, to_i8, le16_bytes, le32_bytes, u16_le_bytes, u32_le_bytes};
use crate::gltf::push_all;
use crate::decode::{fits, take_u8, take_u16, take_u32, take_i32, take_bytes, Record, list_end, list_at, read_list, step_of, items_end, item_pos};
use crate::text::{
    lossy_utf8, decoded_text, utf8_lossy, trim_unprintable_end, trim_nul_end, trim_unkept, trim_nul, xor1,
    xor_bytes, lemma_xor1_involution,
};

verus! {

/// The key that masks every byte of a stored column name or row text.
pub const XOR_KEY: u8 = 1;

/// A column descriptor: two masked 64-byte names and four attributes.
pub struct IESColumn {
    pub column: Vec<u8>,
    pub name: Vec<u8>,
    pub type_data: u16,
    pub access_data: u16,
    pub sync_data: u16,
    pub decl_idx: u16,
}

/// A column descriptor with its names as plain text.
pub struct IESColumnSerializable {
    pub column_name: String,
    pub name: String,
    pub type_data: u16,
    pub access_data: u16,
    pub sync_data: u16,
    pub decl_idx: u16,
}

/// A masked text with its stored length.
pub struct IESRowText {
    pub text_length: u16,
    pub text_data: Vec<u8>,
}

/// A row text as plain text.
pub struct IESRowTextSerializable {
    pub text: String,
}

/// The text whose masked UTF-8 bytes, decoded with replacement, make up
/// the characters of `s`: what `xor_encrypt_decrypt_string` returns.
pub open spec fn spec_xor_text(s: Seq<char>) -> Seq<char> {
    decoded_text(xor1(vstd::utf8::encode_utf8(s)))
}

/// What `decrypt_bytes_to_string` returns for the stored bytes `b`.
pub open spec fn spec_decrypt_text(b: Seq<u8>) -> Seq<char> {
    trim_unkept(decoded_text(xor1(b)))
}

/// The 64 stored bytes of a name whose masked UTF-8 bytes are `m`: at most
/// the first 63 of them, then zeros.
pub open spec fn spec_name_field(m: Seq<u8>) -> Seq<u8> {
    let n = if m.len() < 63 { m.len() as int } else { 63 };
    Seq::new(64, |i: int| if i < n { m[i] } else { 0u8 })
}

/// Masks the UTF-8 bytes of `s` and decodes the result with replacement.
pub fn xor_encrypt_decrypt_string(s: &str) -> (r: String)
    ensures
        r@ == spec_xor_text(s@),
{
    let masked = xor_bytes(s.as_bytes());
    utf8_lossy(masked.as_slice())
}

/// Unmasks `encrypted_bytes`, decodes them with replacement and drops the
/// trailing characters that are neither ASCII graphic nor ASCII whitespace.
pub fn decrypt_bytes_to_string(encrypted_bytes: &[u8]) -> (r: String)
    ensures
        r@ == spec_decrypt_text(encrypted_bytes@),
{
    let plain = xor_bytes(encrypted_bytes);
    let s = utf8_lossy(plain.as_slice());
    trim_unprintable_end(s.as_str())
}

fn name_field(m: &[u8]) -> (r: Vec<u8>)
    ensures
        r@ == spec_name_field(m@),
{
    let n: usize = if m.len() < 63 { m.len() } else { 63 };
    let mut r: Vec<u8> = Vec::new();
    let mut i: usize = 0;
    while i < 64
        invariant
            i <= 64,
            n == (if m@.len() < 63 { m@.len() as int } else { 63 }),
            r@ == spec_name_field(m@).take(i as int),
        decreases 64 - i,
    {
        if i < n {
            r.push(m[i]);
        } else {
            r.push(0u8);
        }
        i = i + 1;
        assert(r@ =~= spec_name_field(m@).take(i as int));
    }
    assert(spec_name_field(m@).take(64) =~= spec_name_field(m@));
    r
}

impl IESColumn {
    pub fn column_str(&self) -> (r: String)
        ensures
            r@ == spec_decrypt_text(self.column@),
    {
        decrypt_bytes_to_string(self.column.as_slice())
    }

    pub fn name_str(&self) -> (r: String)
        ensures
            r@ == spec_decrypt_text(self.name@),
    {
        decrypt_bytes_to_string(self.name.as_slice())
    }

    /// A descriptor whose names hold the masked texts of `column` and
    /// `name`, each cut to 63 bytes and padded with zeros to 64.
    pub fn new(
        column: &str,
        name: &str,
        type_data: u16,
        access_data: u16,
        sync_data: u16,
        decl_idx: u16,
    ) -> (r: Self)
        ensures
            r.column@ == spec_name_field(vstd::utf8::encode_utf8(spec_xor_text(column@))),
            r.name@ == spec_name_field(vstd::utf8::encode_utf8(spec_xor_text(name@))),
            r.type_data == type_data,
            r.access_data == access_data,
            r.sync_data == sync_data,
            r.decl_idx == decl_idx,
    {
        let encrypted_column = xor_encrypt_decrypt_string(column);
        let column_bytes = name_field(encrypted_column.as_str().as_bytes());
        let encrypted_name = xor_encrypt_decrypt_string(name);
        let name_bytes = name_field(encrypted_name.as_str().as_bytes());
        Self { column: column_bytes, name: name_bytes, type_data, access_data, sync_data, decl_idx }
    }

    pub fn to_serializable(&self) -> (r: IESColumnSerializable)
        ensures
            r.column_name@ == spec_decrypt_text(self.column@),
            r.name@ == spec_decrypt_text(self.name@),
            r.type_data == self.type_data,
            r.access_data == self.access_data,
            r.sync_data == self.sync_data,
            r.decl_idx == self.decl_idx,
    {
        IESColumnSerializable {
            column_name: self.column_str(),
            name: self.name_str(),
            type_data: self.type_data,
            access_data: self.access_data,
            sync_data: self.sync_data,
            decl_idx: self.decl_idx,
        }
    }

    pub fn from_serializable(serializable: &IESColumnSerializable) -> (r: Self)
        ensures
            r.column@ == spec_name_field(vstd::utf8::encode_utf8(spec_xor_text(serializable.column_name@))),
            r.name@ == spec_name_field(vstd::utf8::encode_utf8(spec_xor_text(serializable.name@))),
            r.type_data == serializable.type_data,
            r.access_data == serializable.access_data,
            r.sync_data == serializable.sync_data,
            r.decl_idx == serializable.decl_idx,
    {
        Self::new(
            serializable.column_name.as_str(),
            serializable.name.as_str(),
            serializable.type_data,
            serializable.access_data,
            serializable.sync_data,
            serializable.decl_idx,
        )
    }
}

impl IESRowText {
    /// The unmasked bytes decoded with replacement.
    pub fn text_str(&self) -> (r: String)
        ensures
            r@ == lossy_utf8(xor1(self.text_data@)),
            r@ == decoded_text(xor1(self.text_data@)),
    {
        let plain = xor_bytes(self.text_data.as_slice());
        utf8_lossy(plain.as_slice())
    }

    /// The masked UTF-8 bytes of `text`, with their count cut to 16 bits.
    pub fn new(text: &str) -> (r: Self)
        ensures
            r.text_data@ == xor1(text.spec_bytes()),
            r.text_length == (text.spec_bytes().len() as u16),
    {
        let encrypted_bytes = xor_bytes(text.as_bytes());
        let n = encrypted_bytes.len();
        Self { text_length: n as u16, text_data: encrypted_bytes }
    }

    pub fn to_serializable(&self) -> (r: IESRowTextSerializable)
        ensures
            r.text@ == lossy_utf8(xor1(self.text_data@)),
            r.text@ == decoded_text(xor1(self.text_data@)),
    {
        IESRowTextSerializable { text: self.text_str() }
    }

    pub fn from_serializable(serializable: &IESRowTextSerializable) -> (r: Self)
        ensures
            r.text_data@ == xor1(vstd::utf8::encode_utf8(serializable.text@)),
            r.text_length == (vstd::utf8::encode_utf8(serializable.text@).len() as u16),
    {
        Self::new(serializable.text.as_str())
    }
}

/// A text masked by `IESRowText::new` unmasks to valid UTF-8 that decodes
/// to the text itself, so `text_str` gives it back unchanged.
pub proof fn law_row_text_roundtrip(text: Seq<char>)
    ensures
        vstd::utf8::valid_utf8(xor1(xor1(vstd::utf8::encode_utf8(text)))),
        vstd::utf8::decode_utf8(xor1(xor1(vstd::utf8::encode_utf8(text)))) == text,
{
    lemma_xor1_involution(vstd::utf8::encode_utf8(text));
    vstd::utf8::encode_utf8_valid_utf8(text);
    vstd::utf8::encode_utf8_decode_utf8(text);
}

/// A space or an ASCII graphic character.
pub open spec fn printable_ascii(c: char) -> bool {
    0x20 <= (c as u32) <= 0x7E
}

/// `k` characters U+0001, what the zero padding of a name field unmasks to.
spec fn ones(k: nat) -> Seq<char> {
    Seq::new(k, |i: int| '\x01')
}

proof fn lemma_trim_unkept_ones(t: Seq<char>, k: nat)
    ensures
        trim_unkept(t + ones(k)) == trim_unkept(t),
    decreases k,
{
    if k == 0 {
        assert(t + ones(0) =~= t);
    } else {
        assert((t + ones(k)).drop_last() =~= t + ones((k - 1) as nat));
        assert((t + ones(k)).last() == '\x01');
        lemma_trim_unkept_ones(t, (k - 1) as nat);
    }
}

proof fn lemma_char_ascii(c: char)
    requires
        (c as u32) < 0x80,
    ensures
        '\0' <= c <= '\u{7f}',
{
}

/// ASCII characters are the UTF-8 encoding of themselves, byte for byte:
/// `m` encodes to `b`, which is valid UTF-8 and decodes to `m`.
proof fn lemma_ascii_decodes(m: Seq<char>, b: Seq<u8>)
    requires
        m.len() == b.len(),
        forall|i: int| 0 <= i < m.len() ==> (#[trigger] m[i] as u32) < 0x80 && m[i] as u8 == b[i],
    ensures
        vstd::utf8::encode_utf8(m) == b,
        vstd::utf8::valid_utf8(b),
        vstd::utf8::decode_utf8(b) == m,
{
    assert(vstd::utf8::is_ascii_chars(m)) by {
        assert forall|i: int| 0 <= i < m.len() implies '\0' <= #[trigger] m[i] <= '\u{7f}' by {
            lemma_char_ascii(m[i]);
        }
    }
    vstd::utf8::is_ascii_chars_encode_utf8(m);
    assert(vstd::utf8::encode_utf8(m) =~= b);
    vstd::utf8::encode_utf8_valid_utf8(m);
    vstd::utf8::encode_utf8_decode_utf8(m);
}

/// A column or key name of printable ASCII characters survives
/// `IESColumn::new` and `column_str` / `name_str`: what comes back is the
/// name cut to its first 63 characters.
pub proof fn law_column_name_roundtrip(s: Seq<char>)
    requires
        forall|i: int| 0 <= i < s.len() ==> printable_ascii(#[trigger] s[i]),
    ensures
        spec_decrypt_text(spec_name_field(vstd::utf8::encode_utf8(spec_xor_text(s))))
            == s.take(if s.len() < 63 { s.len() as int } else { 63 }),
{
    let e = vstd::utf8::encode_utf8(s);
    assert(vstd::utf8::is_ascii_chars(s)) by {
        assert forall|i: int| 0 <= i < s.len() implies '\0' <= #[trigger] s[i] <= '\u{7f}' by {
            assert(printable_ascii(s[i]));
            lemma_char_ascii(s[i]);
        }
    }
    vstd::utf8::is_ascii_chars_encode_utf8(s);
    let x = xor1(e);
    let m = Seq::new(x.len(), |i: int| x[i] as char);
    assert forall|i: int| 0 <= i < m.len() implies (#[trigger] m[i] as u32) < 0x80 && m[i] as u8 == x[i] by {
        let b = e[i];
        assert(printable_ascii(s[i]));
        assert(s[i] as u8 == b);
        assert(0x20 <= b <= 0x7e ==> (b ^ 1u8) <= 0x7f) by (bit_vector);
    }
    lemma_ascii_decodes(m, x);
    assert(spec_xor_text(s) == m);
    assert(vstd::utf8::encode_utf8(m) == x);
    let n: int = if s.len() < 63 { s.len() as int } else { 63 };
    let f = spec_name_field(x);
    let t = s.take(n) + ones((64 - n) as nat);
    assert forall|i: int| 0 <= i < t.len() implies (#[trigger] t[i] as u32) < 0x80 && t[i] as u8 == xor1(f)[i] by {
        if i < n {
            let b = e[i];
            assert(printable_ascii(s[i]));
            assert(s[i] as u8 == b);
            assert((b ^ 1u8) ^ 1u8 == b) by (bit_vector);
        } else {
            assert(0u8 ^ 1u8 == 1u8) by (bit_vector);
        }
    }
    lemma_ascii_decodes(t, xor1(f));
    lemma_trim_unkept_ones(s.take(n), (64 - n) as nat);
    if n > 0 {
        assert(printable_ascii(s[n - 1]));
        assert(s.take(n).last() == s[n - 1]);
    }
}

/// A row text whose unmasked bytes are valid UTF-8 and whose stored length
/// is its byte count survives `to_serializable` and then
/// `from_serializable`: the same bytes and the same length come back.
pub proof fn law_row_text_stored_roundtrip(r: IESRowText)
    requires
        vstd::utf8::valid_utf8(xor1(r.text_data@)),
        r.text_length == r.text_data@.len(),
    ensures
        xor1(vstd::utf8::encode_utf8(decoded_text(xor1(r.text_data@)))) == r.text_data@,
        vstd::utf8::encode_utf8(decoded_text(xor1(r.text_data@))).len() as u16 == r.text_length,
{
    vstd::utf8::decode_utf8_encode_utf8(xor1(r.text_data@));
    lemma_xor1_involution(r.text_data@);
    assert(xor1(r.text_data@).len() == r.text_data@.len());
}

/// A plain row text survives `from_serializable` and then
/// `to_serializable` unchanged.
pub proof fn law_row_text_plain_roundtrip(text: Seq<char>)
    ensures
        decoded_text(xor1(xor1(vstd::utf8::encode_utf8(text)))) == text,
{
    law_row_text_roundtrip(text);
}

// ------------------------------------------------------------------ rows and the header

/// A number cell, kept as the bits of its 32-bit float.
#[derive(Copy, Clone, PartialEq, Eq, Structural, Debug)]
pub struct IESRowFloat {
    pub float_bits: u32,
}

/// A row: its index, its masked text, its number cells, its text cells and
/// one padding byte per text cell.
pub struct IESColumnData {
    pub index_data: i32,
    pub text_data: IESRowText,
    pub float_data: Vec<IESRowFloat>,
    pub string_data: Vec<IESRowText>,
    pub padding: Vec<i8>,
}

/// A row with its texts as plain text.
pub struct IESColumnDataSerializable {
    pub index_data: i32,
    pub text_data: IESRowTextSerializable,
    pub float_data: Vec<IESRowFloat>,
    pub string_data: Vec<IESRowTextSerializable>,
}

/// A whole table as stored: the two 64-byte space names, the counts and
/// sizes, the columns and the rows.
pub struct IESHeader {
    pub idspace: Vec<u8>,
    pub keyspace: Vec<u8>,
    pub version: u16,
    pub padding: u16,
    pub info_size: u32,
    pub data_size: u32,
    pub total_size: u32,
    pub use_class_id: u8,
    pub padding2: u8,
    pub num_field: u16,
    pub num_column: u16,
    pub num_column_number: u16,
    pub num_column_string: u16,
    pub padding3: u16,
    pub columns: Vec<IESColumn>,
    pub column_data: Vec<IESColumnData>,
}

/// A whole table with its names and texts as plain text.
pub struct IESHeaderSerializable {
    pub id_space: String,
    pub key_space: String,
    pub version: u16,
    pub info_size: u32,
    pub data_size: u32,
    pub total_size: u32,
    pub use_class_id: u8,
    pub num_field: u16,
    pub num_column: u16,
    pub num_column_number: u16,
    pub num_column_string: u16,
    pub columns: Vec<IESColumnSerializable>,
    pub column_data: Vec<IESColumnDataSerializable>,
}

/// The plain texts of the masked row texts `t`.
pub open spec fn row_texts(t: Seq<IESRowText>) -> Seq<Seq<char>> {
    Seq::new(t.len(), |i: int| lossy_utf8(xor1(t[i].text_data@)))
}

/// The texts of `t`.
pub open spec fn plain_texts(t: Seq<IESRowTextSerializable>) -> Seq<Seq<char>> {
    Seq::new(t.len(), |i: int| t[i].text@)
}

fn copy_floats(v: &Vec<IESRowFloat>) -> (r: Vec<IESRowFloat>)
    ensures
        r@ == v@,
{
    let mut r: Vec<IESRowFloat> = Vec::new();
    let mut i: usize = 0;
    while i < v.len()
        invariant
            i <= v@.len(),
            r@ == v@.take(i as int),
        decreases v@.len() - i,
    {
        r.push(v[i]);
        i = i + 1;
        assert(r@ =~= v@.take(i as int));
    }
    assert(v@.take(v@.len() as int) =~= v@);
    r
}

impl IESColumnData {
    pub fn to_serializable(&self) -> (r: IESColumnDataSerializable)
        ensures
            r.index_data == self.index_data,
            r.text_data.text@ == lossy_utf8(xor1(self.text_data.text_data@)),
            r.float_data@ == self.float_data@,
            plain_texts(r.string_data@) == row_texts(self.string_data@),
    {
        let mut string_data: Vec<IESRowTextSerializable> = Vec::new();
        let mut i: usize = 0;
        while i < self.string_data.len()
            invariant
                i <= self.string_data@.len(),
                string_data@.len() == i,
                forall|k: int| 0 <= k < i ==> (#[trigger] string_data@[k]).text@ == lossy_utf8(xor1(self.string_data@[k].text_data@)),
            decreases self.string_data@.len() - i,
        {
            string_data.push(self.string_data[i].to_serializable());
            i = i + 1;
        }
        assert(plain_texts(string_data@) =~= row_texts(self.string_data@));
        IESColumnDataSerializable {
            index_data: self.index_data,
            text_data: self.text_data.to_serializable(),
            float_data: copy_floats(&self.float_data),
            string_data,
        }
    }

    /// The stored row of `serializable`, with `num_column_string` zero
    /// padding bytes.
    pub fn from_serializable(serializable: &IESColumnDataSerializable, num_column_string: u16) -> (r: Self)
        ensures
            r.index_data == serializable.index_data,
            r.text_data.text_data@ == xor1(vstd::utf8::encode_utf8(serializable.text_data.text@)),
            r.text_data.text_length == (vstd::utf8::encode_utf8(serializable.text_data.text@).len() as u16),
            r.float_data@ == serializable.float_data@,
            r.string_data@.len() == serializable.string_data@.len(),
            forall|i: int| 0 <= i < r.string_data@.len() ==> {
                &&& (#[trigger] r.string_data@[i]).text_data@ == xor1(vstd::utf8::encode_utf8(serializable.string_data@[i].text@))
                &&& r.string_data@[i].text_length == (vstd::utf8::encode_utf8(serializable.string_data@[i].text@).len() as u16)
            },
            r.padding@ == Seq::new(num_column_string as nat, |i: int| 0i8),
    {
        let mut string_data: Vec<IESRowText> = Vec::new();
        let mut i: usize = 0;
        while i < serializable.string_data.len()
            invariant
                i <= serializable.string_data@.len(),
                string_data@.len() == i,
                forall|k: int| 0 <= k < i ==> {
                    &&& (#[trigger] string_data@[k]).text_data@ == xor1(vstd::utf8::encode_utf8(serializable.string_data@[k].text@))
                    &&& string_data@[k].text_length == (vstd::utf8::encode_utf8(serializable.string_data@[k].text@).len() as u16)
                },
            decreases serializable.string_data@.len() - i,
        {
            string_data.push(IESRowText::from_serializable(&serializable.string_data[i]));
            i = i + 1;
        }
        let mut padding: Vec<i8> = Vec::new();
        let mut k: u16 = 0;
        while k < num_column_string
            invariant
                k <= num_column_string,
                padding@ == Seq::new(k as nat, |i: int| 0i8),
            decreases num_column_string - k,
        {
            padding.push(0i8);
            k = k + 1;
            assert(padding@ =~= Seq::new(k as nat, |i: int| 0i8));
        }
        Self {
            index_data: serializable.index_data,
            text_data: IESRowText::from_serializable(&serializable.text_data),
            float_data: copy_floats(&serializable.float_data),
            string_data,
            padding,
        }
    }
}

/// `s` is the plain-text form of the column `c`.
pub open spec fn column_plain(c: IESColumn, s: IESColumnSerializable) -> bool {
    &&& s.column_name@ == spec_decrypt_text(c.column@)
    &&& s.name@ == spec_decrypt_text(c.name@)
    &&& s.type_data == c.type_data
    &&& s.access_data == c.access_data
    &&& s.sync_data == c.sync_data
    &&& s.decl_idx == c.decl_idx
}

/// `s` is the plain-text form of the row `d`.
pub open spec fn row_plain(d: IESColumnData, s: IESColumnDataSerializable) -> bool {
    &&& s.index_data == d.index_data
    &&& s.text_data.text@ == lossy_utf8(xor1(d.text_data.text_data@))
    &&& s.float_data@ == d.float_data@
    &&& plain_texts(s.string_data@) == row_texts(d.string_data@)
}

/// `c` is the stored column of the plain-text column `s`.
pub open spec fn column_stored(s: IESColumnSerializable, c: IESColumn) -> bool {
    &&& c.column@ == spec_name_field(vstd::utf8::encode_utf8(spec_xor_text(s.column_name@)))
    &&& c.name@ == spec_name_field(vstd::utf8::encode_utf8(spec_xor_text(s.name@)))
    &&& c.type_data == s.type_data
    &&& c.access_data == s.access_data
    &&& c.sync_data == s.sync_data
    &&& c.decl_idx == s.decl_idx
}

/// `d` is the stored row of the plain-text row `s`, with `n` padding bytes.
pub open spec fn row_stored(s: IESColumnDataSerializable, n: u16, d: IESColumnData) -> bool {
    &&& d.index_data == s.index_data
    &&& d.text_data.text_data@ == xor1(vstd::utf8::encode_utf8(s.text_data.text@))
    &&& d.text_data.text_length == (vstd::utf8::encode_utf8(s.text_data.text@).len() as u16)
    &&& d.float_data@ == s.float_data@
    &&& d.string_data@.len() == s.string_data@.len()
    &&& forall|i: int| 0 <= i < d.string_data@.len() ==> {
        &&& (#[trigger] d.string_data@[i]).text_data@ == xor1(vstd::utf8::encode_utf8(s.string_data@[i].text@))
        &&& d.string_data@[i].text_length == (vstd::utf8::encode_utf8(s.string_data@[i].text@).len() as u16)
    }
    &&& d.padding@ == Seq::new(n as nat, |i: int| 0i8)
}

/// The text of a stored space name: its bytes decoded with replacement,
/// without trailing NUL characters.
pub open spec fn space_text(b: Seq<u8>) -> Seq<char> {
    trim_nul(lossy_utf8(b))
}

impl IESHeader {
    pub fn idspace_str(&self) -> (r: String)
        ensures
            r@ == space_text(self.idspace@),
            vstd::utf8::valid_utf8(self.idspace@) ==> r@ == trim_nul(vstd::utf8::decode_utf8(self.idspace@)),
    {
        let s = utf8_lossy(self.idspace.as_slice());
        trim_nul_end(s.as_str())
    }

    pub fn keyspace_str(&self) -> (r: String)
        ensures
            r@ == space_text(self.keyspace@),
            vstd::utf8::valid_utf8(self.keyspace@) ==> r@ == trim_nul(vstd::utf8::decode_utf8(self.keyspace@)),
    {
        let s = utf8_lossy(self.keyspace.as_slice());
        trim_nul_end(s.as_str())
    }

    /// The table with its space names, column names and texts as plain text.
    pub fn to_serializable(&self) -> (r: IESHeaderSerializable)
        ensures
            r.id_space@ == space_text(self.idspace@),
            r.key_space@ == space_text(self.keyspace@),
            r.version == self.version,
            r.info_size == self.info_size,
            r.data_size == self.data_size,
            r.total_size == self.total_size,
            r.use_class_id == self.use_class_id,
            r.num_field == self.num_field,
            r.num_column == self.num_column,
            r.num_column_number == self.num_column_number,
            r.num_column_string == self.num_column_string,
            r.columns@.len() == self.columns@.len(),
            forall|i: int| 0 <= i < r.columns@.len() ==> column_plain(self.columns@[i], #[trigger] r.columns@[i]),
            r.column_data@.len() == self.column_data@.len(),
            forall|i: int| 0 <= i < r.column_data@.len() ==> row_plain(self.column_data@[i], #[trigger] r.column_data@[i]),
    {
        let mut columns: Vec<IESColumnSerializable> = Vec::new();
        let mut i: usize = 0;
        while i < self.columns.len()
            invariant
                i <= self.columns@.len(),
                columns@.len() == i,
                forall|k: int| 0 <= k < i ==> column_plain(self.columns@[k], #[trigger] columns@[k]),
            decreases self.columns@.len() - i,
        {
            columns.push(self.columns[i].to_serializable());
            i = i + 1;
        }
        let mut column_data: Vec<IESColumnDataSerializable> = Vec::new();
        let mut j: usize = 0;
        while j < self.column_data.len()
            invariant
                j <= self.column_data@.len(),
                column_data@.len() == j,
                forall|k: int| 0 <= k < j ==> row_plain(self.column_data@[k], #[trigger] column_data@[k]),
            decreases self.column_data@.len() - j,
        {
            column_data.push(self.column_data[j].to_serializable());
            j = j + 1;
        }
        IESHeaderSerializable {
            id_space: self.idspace_str(),
            key_space: self.keyspace_str(),
            version: self.version,
            info_size: self.info_size,
            data_size: self.data_size,
            total_size: self.total_size,
            use_class_id: self.use_class_id,
            num_field: self.num_field,
            num_column: self.num_column,
            num_column_number: self.num_column_number,
            num_column_string: self.num_column_string,
            columns,
            column_data,
        }
    }

    /// The stored table of `serializable`: the space names' UTF-8 bytes
    /// (unmasked) cut to 63 bytes and padded with zeros to 64, the columns
    /// and rows stored again, the padding fields zero.
    pub fn from_serializable(serializable: &IESHeaderSerializable) -> (r: Self)
        ensures
            r.idspace@ == spec_name_field(vstd::utf8::encode_utf8(serializable.id_space@)),
            r.keyspace@ == spec_name_field(vstd::utf8::encode_utf8(serializable.key_space@)),
            r.version == serializable.version,
            r.padding == 0,
            r.info_size == serializable.info_size,
            r.data_size == serializable.data_size,
            r.total_size == serializable.total_size,
            r.use_class_id == serializable.use_class_id,
            r.padding2 == 0,
            r.num_field == serializable.num_field,
            r.num_column == serializable.num_column,
            r.num_column_number == serializable.num_column_number,
            r.num_column_string == serializable.num_column_string,
            r.padding3 == 0,
            r.columns@.len() == serializable.columns@.len(),
            forall|i: int| 0 <= i < r.columns@.len() ==> column_stored(serializable.columns@[i], #[trigger] r.columns@[i]),
            r.column_data@.len() == serializable.column_data@.len(),
            forall|i: int| 0 <= i < r.column_data@.len() ==> row_stored(serializable.column_data@[i], serializable.num_column_string, #[trigger] r.column_data@[i]),
    {
        let mut columns: Vec<IESColumn> = Vec::new();
        let mut i: usize = 0;
        while i < serializable.columns.len()
            invariant
                i <= serializable.columns@.len(),
                columns@.len() == i,
                forall|k: int| 0 <= k < i ==> column_stored(serializable.columns@[k], #[trigger] columns@[k]),
            decreases serializable.columns@.len() - i,
        {
            columns.push(IESColumn::from_serializable(&serializable.columns[i]));
            i = i + 1;
        }
        let mut column_data: Vec<IESColumnData> = Vec::new();
        let mut j: usize = 0;
        while j < serializable.column_data.len()
            invariant
                j <= serializable.column_data@.len(),
                column_data@.len() == j,
                forall|k: int| 0 <= k < j ==> row_stored(serializable.column_data@[k], serializable.num_column_string, #[trigger] column_data@[k]),
            decreases serializable.column_data@.len() - j,
        {
            column_data.push(IESColumnData::from_serializable(&serializable.column_data[j], serializable.num_column_string));
            j = j + 1;
        }
        Self {
            idspace: name_field(serializable.id_space.as_str().as_bytes()),
            keyspace: name_field(serializable.key_space.as_str().as_bytes()),
            version: serializable.version,
            padding: 0,
            info_size: serializable.info_size,
            data_size: serializable.data_size,
            total_size: serializable.total_size,
            use_class_id: serializable.use_class_id,
            padding2: 0,
            num_field: serializable.num_field,
            num_column: serializable.num_column,
            num_column_number: serializable.num_column_number,
            num_column_string: serializable.num_column_string,
            padding3: 0,
            columns,
            column_data,
        }
    }
}

/// The UTF-8 encoding of two texts one after the other is the one's
/// encoding followed by the other's.
proof fn lemma_encode_concat(a: Seq<char>, b: Seq<char>)
    ensures
        vstd::utf8::encode_utf8(a + b) == vstd::utf8::encode_utf8(a) + vstd::utf8::encode_utf8(b),
    decreases a.len(),
{
    if a.len() == 0 {
        assert(a + b =~= b);
        assert(vstd::utf8::encode_utf8(a) + vstd::utf8::encode_utf8(b) =~= vstd::utf8::encode_utf8(b));
    } else {
        assert((a + b).drop_first() =~= a.drop_first() + b);
        assert((a + b)[0] == a[0]);
        lemma_encode_concat(a.drop_first(), b);
        assert(vstd::utf8::encode_utf8(a + b) =~= vstd::utf8::encode_utf8(a) + vstd::utf8::encode_utf8(b));
    }
}

/// `k` NUL characters.
pub open spec fn nuls(k: nat) -> Seq<char> {
    Seq::new(k, |i: int| '\0')
}

proof fn lemma_trim_nul_append(t: Seq<char>, k: nat)
    ensures
        trim_nul(t + nuls(k)) == trim_nul(t),
    decreases k,
{
    if k == 0 {
        assert(t + nuls(0) =~= t);
    } else {
        assert((t + nuls(k)).drop_last() =~= t + nuls((k - 1) as nat));
        lemma_trim_nul_append(t, (k - 1) as nat);
    }
}

/// A text without its trailing NULs has none left to drop.
pub proof fn lemma_trim_nul_idempotent(s: Seq<char>)
    ensures
        trim_nul(trim_nul(s)) == trim_nul(s),
    decreases s.len(),
{
    if s.len() > 0 && s.last() == '\0' {
        lemma_trim_nul_idempotent(s.drop_last());
    }
}

/// A space name survives the round trip through its plain-text form: the
/// field that `from_serializable` stores for a text `t` (which ends in no
/// NUL character and takes at most 63 bytes in UTF-8) is valid UTF-8, and
/// `idspace_str` / `keyspace_str` read `t` back from it.
pub proof fn law_space_name_roundtrip(t: Seq<char>)
    requires
        trim_nul(t) == t,
        vstd::utf8::encode_utf8(t).len() <= 63,
    ensures
        vstd::utf8::valid_utf8(spec_name_field(vstd::utf8::encode_utf8(t))),
        trim_nul(vstd::utf8::decode_utf8(spec_name_field(vstd::utf8::encode_utf8(t)))) == t,
{
    let e = vstd::utf8::encode_utf8(t);
    let k = (64 - e.len()) as nat;
    let z = nuls(k);
    assert(vstd::utf8::is_ascii_chars(z));
    vstd::utf8::is_ascii_chars_encode_utf8(z);
    assert(vstd::utf8::encode_utf8(z) =~= Seq::new(k, |i: int| 0u8));
    lemma_encode_concat(t, z);
    assert(spec_name_field(e) =~= e + vstd::utf8::encode_utf8(z));
    vstd::utf8::encode_utf8_valid_utf8(t + z);
    vstd::utf8::encode_utf8_decode_utf8(t + z);
    lemma_trim_nul_append(t, k);
}

// ------------------------------------------------------------------ reading the stored form

impl Record for IESColumn {
    open spec fn end(b: Seq<u8>, p: int, ctx: u32) -> Option<int> {
        if fits(b, p, 136) { Some(p + 136) } else { None }
    }

    open spec fn at(b: Seq<u8>, p: int, ctx: u32, v: IESColumn) -> bool {
        &&& v.column@ == b.subrange(p, p + 64)
        &&& v.name@ == b.subrange(p + 64, p + 128)
        &&& v.type_data == le16(b, p + 128)
        &&& v.access_data == le16(b, p + 130)
        &&& v.sync_data == le16(b, p + 132)
        &&& v.decl_idx == le16(b, p + 134)
    }

    fn read(b: &[u8], p: usize, ctx: u32) -> (r: Option<(IESColumn, usize)>) {
        let (column, q) = take_bytes(b, p, 64)?;
        let (name, q) = take_bytes(b, q, 64)?;
        let (type_data, q) = take_u16(b, q)?;
        let (access_data, q) = take_u16(b, q)?;
        let (sync_data, q) = take_u16(b, q)?;
        let (decl_idx, q) = take_u16(b, q)?;
        Some((IESColumn { column, name, type_data, access_data, sync_data, decl_idx }, q))
    }
}

impl Record for IESRowText {
    open spec fn end(b: Seq<u8>, p: int, ctx: u32) -> Option<int> {
        if fits(b, p, 2) && fits(b, p + 2, le16(b, p)) { Some(p + 2 + le16(b, p)) } else { None }
    }

    open spec fn at(b: Seq<u8>, p: int, ctx: u32, v: IESRowText) -> bool {
        &&& v.text_length == le16(b, p)
        &&& v.text_data@ == b.subrange(p + 2, p + 2 + le16(b, p))
    }

    fn read(b: &[u8], p: usize, ctx: u32) -> (r: Option<(IESRowText, usize)>) {
        let (text_length, q) = take_u16(b, p)?;
        let (text_data, q) = take_bytes(b, q, text_length as usize)?;
        Some((IESRowText { text_length, text_data }, q))
    }
}

impl Record for IESRowFloat {
    open spec fn end(b: Seq<u8>, p: int, ctx: u32) -> Option<int> {
        if fits(b, p, 4) { Some(p + 4) } else { None }
    }

    open spec fn at(b: Seq<u8>, p: int, ctx: u32, v: IESRowFloat) -> bool {
        v.float_bits == le32(b, p)
    }

    fn read(b: &[u8], p: usize, ctx: u32) -> (r: Option<(IESRowFloat, usize)>) {
        let (float_bits, q) = take_u32(b, p)?;
        Some((IESRowFloat { float_bits }, q))
    }
}

/// The row counts packed in one number: the number cells above, the text
/// cells below.
pub open spec fn row_ctx(nn: u16, ns: u16) -> u32 {
    (nn as int * 65536 + ns as int) as u32
}

/// Where the number cells of the row at `p` start.
pub open spec fn row_floats_start(b: Seq<u8>, p: int) -> Option<int> {
    if fits(b, p, 4) { IESRowText::end(b, p + 4, 0) } else { None }
}

pub open spec fn row_strings_start(b: Seq<u8>, p: int, ctx: u32) -> Option<int> {
    match row_floats_start(b, p) {
        Some(q) => list_end::<IESRowFloat>(b, q, 0, (ctx / 65536) as nat),
        None => None,
    }
}

pub open spec fn row_padding_start(b: Seq<u8>, p: int, ctx: u32) -> Option<int> {
    match row_strings_start(b, p, ctx) {
        Some(q) => list_end::<IESRowText>(b, q, 0, (ctx % 65536) as nat),
        None => None,
    }
}

impl Record for IESColumnData {
    open spec fn end(b: Seq<u8>, p: int, ctx: u32) -> Option<int> {
        match row_padding_start(b, p, ctx) {
            Some(q) => if fits(b, q, (ctx % 65536) as int) { Some(q + ctx % 65536) } else { None },
            None => None,
        }
    }

    open spec fn at(b: Seq<u8>, p: int, ctx: u32, v: IESColumnData) -> bool {
        &&& v.index_data == signed32(le32(b, p))
        &&& IESRowText::at(b, p + 4, 0, v.text_data)
        &&& list_at::<IESRowFloat>(b, row_floats_start(b, p)->0, 0, (ctx / 65536) as nat, v.float_data@)
        &&& list_at::<IESRowText>(b, row_strings_start(b, p, ctx)->0, 0, (ctx % 65536) as nat, v.string_data@)
        &&& v.padding@ == Seq::new((ctx % 65536) as nat, |i: int| signed8(b[row_padding_start(b, p, ctx)->0 + i] as int) as i8)
    }

    fn read(b: &[u8], p: usize, ctx: u32) -> (r: Option<(IESColumnData, usize)>) {
        let (index_data, q) = take_i32(b, p)?;
        let (text_data, q) = IESRowText::read(b, q, 0)?;
        let (float_data, q) = read_list::<IESRowFloat>(b, q, 0, ctx / 65536)?;
        let (string_data, q) = read_list::<IESRowText>(b, q, 0, ctx % 65536)?;
        let ns = (ctx % 65536) as usize;
        if q > b.len() || b.len() - q < ns {
            return None;
        }
        let mut padding: Vec<i8> = Vec::new();
        let mut i: usize = 0;
        while i < ns
            invariant
                q + ns <= b@.len(),
                i <= ns,
                padding@ == Seq::new(i as nat, |k: int| signed8(b@[q + k] as int) as i8),
            decreases ns - i,
        {
            padding.push(to_i8(b[q + i]));
            i = i + 1;
            assert(padding@ =~= Seq::new(i as nat, |k: int| signed8(b@[q + k] as int) as i8));
        }
        Some((IESColumnData { index_data, text_data, float_data, string_data, padding }, q + ns))
    }
}

/// Where the columns of a stored table end.
pub open spec fn tool_columns_end(b: Seq<u8>) -> Option<int> {
    if fits(b, 0, 156) { list_end::<IESColumn>(b, 156, 0, le16(b, 148) as nat) } else { None }
}

/// The packed row counts of the stored table `b`.
pub open spec fn tool_row_ctx(b: Seq<u8>) -> u32 {
    row_ctx(le16(b, 150) as u16, le16(b, 152) as u16)
}

/// Where a stored table ends, if the data holds it.
pub open spec fn tool_header_end(b: Seq<u8>) -> Option<int> {
    match tool_columns_end(b) {
        Some(q) => list_end::<IESColumnData>(b, q, tool_row_ctx(b), le16(b, 146) as nat),
        None => None,
    }
}

/// `h` is the stored table at the start of `b`.
pub open spec fn tool_header_at(b: Seq<u8>, h: IESHeader) -> bool {
    &&& h.idspace@ == b.subrange(0, 64)
    &&& h.keyspace@ == b.subrange(64, 128)
    &&& h.version == le16(b, 128)
    &&& h.padding == le16(b, 130)
    &&& h.info_size == le32(b, 132)
    &&& h.data_size == le32(b, 136)
    &&& h.total_size == le32(b, 140)
    &&& h.use_class_id == b[144]
    &&& h.padding2 == b[145]
    &&& h.num_field == le16(b, 146)
    &&& h.num_column == le16(b, 148)
    &&& h.num_column_number == le16(b, 150)
    &&& h.num_column_string == le16(b, 152)
    &&& h.padding3 == le16(b, 154)
    &&& list_at::<IESColumn>(b, 156, 0, le16(b, 148) as nat, h.columns@)
    &&& list_at::<IESColumnData>(b, tool_columns_end(b)->0, tool_row_ctx(b), le16(b, 146) as nat, h.column_data@)
}

impl IESHeader {
    /// Reads a stored table from the start of `bytes`: the 156-byte header,
    /// `num_column` column descriptors and `num_field` rows, each with
    /// `num_column_number` number cells, `num_column_string` text cells and
    /// as many padding bytes. `None` where the data ends first.
    pub fn read_from_bytes(bytes: &[u8]) -> (r: Option<IESHeader>)
        ensures
            r is Some <==> tool_header_end(bytes@) is Some,
            r matches Some(h) ==> tool_header_at(bytes@, h),
    {
        let b = bytes;
        let (idspace, q) = take_bytes(b, 0, 64)?;
        let (keyspace, q) = take_bytes(b, q, 64)?;
        let (version, q) = take_u16(b, q)?;
        let (padding, q) = take_u16(b, q)?;
        let (info_size, q) = take_u32(b, q)?;
        let (data_size, q) = take_u32(b, q)?;
        let (total_size, q) = take_u32(b, q)?;
        let (use_class_id, q) = take_u8(b, q)?;
        let (padding2, q) = take_u8(b, q)?;
        let (num_field, q) = take_u16(b, q)?;
        let (num_column, q) = take_u16(b, q)?;
        let (num_column_number, q) = take_u16(b, q)?;
        let (num_column_string, q) = take_u16(b, q)?;
        let (padding3, q) = take_u16(b, q)?;
        let (columns, q) = read_list::<IESColumn>(b, q, 0, num_column as u32)?;
        let ctx: u32 = num_column_number as u32 * 65536 + num_column_string as u32;
        assert(ctx == tool_row_ctx(b@));
        let (column_data, _) = read_list::<IESColumnData>(b, q, ctx, num_field as u32)?;
        Some(IESHeader {
            idspace,
            keyspace,
            version,
            padding,
            info_size,
            data_size,
            total_size,
            use_class_id,
            padding2,
            num_field,
            num_column,
            num_column_number,
            num_column_string,
            padding3,
            columns,
            column_data,
        })
    }
}

// ------------------------------------------------------------------ writing the stored form

/// `v` padded with zeros to 64 bytes where it is shorter.
pub open spec fn pad64(v: Seq<u8>) -> Seq<u8> {
    if v.len() < 64 {
        v + Seq::new((64 - v.len()) as nat, |i: int| 0u8)
    } else {
        v
    }
}

/// The stored bytes of a column descriptor.
pub open spec fn column_bytes(c: IESColumn) -> Seq<u8> {
    pad64(c.column@) + pad64(c.name@) + le16_bytes(c.type_data as int) + le16_bytes(c.access_data as int)
        + le16_bytes(c.sync_data as int) + le16_bytes(c.decl_idx as int)
}

/// The stored bytes of a row text: its stored length, then all its bytes.
pub open spec fn text_bytes(t: IESRowText) -> Seq<u8> {
    le16_bytes(t.text_length as int) + t.text_data@
}

pub open spec fn texts_bytes(ts: Seq<IESRowText>) -> Seq<u8>
    decreases ts.len(),
{
    if ts.len() == 0 {
        Seq::empty()
    } else {
        texts_bytes(ts.drop_last()) + text_bytes(ts.last())
    }
}

pub open spec fn floats_bytes(fs: Seq<IESRowFloat>) -> Seq<u8>
    decreases fs.len(),
{
    if fs.len() == 0 {
        Seq::empty()
    } else {
        floats_bytes(fs.drop_last()) + le32_bytes(fs.last().float_bits as int)
    }
}

/// The two's complement bits of a 32-bit signed value.
pub open spec fn u32_of_i32(x: i32) -> int {
    if x >= 0 { x as int } else { x as int + 4294967296 }
}

/// The two's complement bits of an 8-bit signed value.
pub open spec fn u8_of_i8(x: i8) -> u8 {
    (if x >= 0 { x as int } else { x as int + 256 }) as u8
}

/// The stored bytes of padding values.
pub open spec fn pad_bytes(p: Seq<i8>) -> Seq<u8> {
    p.map_values(|x: i8| u8_of_i8(x))
}

/// The stored bytes of a row.
pub open spec fn row_bytes(d: IESColumnData) -> Seq<u8> {
    le32_bytes(u32_of_i32(d.index_data)) + text_bytes(d.text_data) + floats_bytes(d.float_data@)
        + texts_bytes(d.string_data@) + pad_bytes(d.padding@)
}

pub open spec fn columns_bytes(cs: Seq<IESColumn>) -> Seq<u8>
    decreases cs.len(),
{
    if cs.len() == 0 {
        Seq::empty()
    } else {
        columns_bytes(cs.drop_last()) + column_bytes(cs.last())
    }
}

pub open spec fn rows_bytes(ds: Seq<IESColumnData>) -> Seq<u8>
    decreases ds.len(),
{
    if ds.len() == 0 {
        Seq::empty()
    } else {
        rows_bytes(ds.drop_last()) + row_bytes(ds.last())
    }
}

/// The stored bytes of a table's fixed part: the two space names as they
/// are, then the counts and sizes.
pub open spec fn tool_fixed_bytes(h: IESHeader) -> Seq<u8> {
    h.idspace@ + h.keyspace@ + le16_bytes(h.version as int) + le16_bytes(h.padding as int) + le32_bytes(
        h.info_size as int,
    ) + le32_bytes(h.data_size as int) + le32_bytes(h.total_size as int) + seq![h.use_class_id, h.padding2]
        + le16_bytes(h.num_field as int) + le16_bytes(h.num_column as int) + le16_bytes(h.num_column_number as int)
        + le16_bytes(h.num_column_string as int) + le16_bytes(h.padding3 as int)
}

/// The stored bytes of a whole table: the fixed part, the columns and the
/// rows.
pub open spec fn tool_header_bytes(h: IESHeader) -> Seq<u8> {
    tool_fixed_bytes(h) + columns_bytes(h.columns@) + rows_bytes(h.column_data@)
}

fn push_pad64(out: &mut Vec<u8>, v: &Vec<u8>)
    ensures
        final(out)@ == old(out)@ + pad64(v@),
{
    push_all(out, v.as_slice());
    let mut n = v.len();
    let ghost start = old(out)@ + v@;
    while n < 64
        invariant
            v@.len() <= n <= 64 || (n == v@.len() && n >= 64),
            out@ == start + Seq::new((n - v@.len()) as nat, |i: int| 0u8),
        decreases 64 - n,
    {
        out.push(0u8);
        n = n + 1;
        assert(out@ =~= start + Seq::new((n - v@.len()) as nat, |i: int| 0u8));
    }
    assert(n == v@.len() ==> Seq::new((n - v@.len()) as nat, |i: int| 0u8) =~= Seq::<u8>::empty());
    assert(out@ =~= old(out)@ + pad64(v@));
}

fn push_text(out: &mut Vec<u8>, t: &IESRowText)
    ensures
        final(out)@ == old(out)@ + text_bytes(*t),
{
    let l = u16_le_bytes(t.text_length);
    push_all(out, l.as_slice());
    push_all(out, t.text_data.as_slice());
    assert(out@ =~= old(out)@ + text_bytes(*t));
}

fn push_row(out: &mut Vec<u8>, d: &IESColumnData)
    ensures
        final(out)@ == old(out)@ + row_bytes(*d),
{
    let ghost start = old(out)@;
    let bits: u32 = if d.index_data >= 0 {
        d.index_data as u32
    } else {
        (d.index_data as i64 + 4294967296) as u32
    };
    let idx = u32_le_bytes(bits);
    push_all(out, idx.as_slice());
    push_text(out, &d.text_data);
    let ghost s1 = out@;
    let mut i: usize = 0;
    while i < d.float_data.len()
        invariant
            i <= d.float_data@.len(),
            out@ == s1 + floats_bytes(d.float_data@.take(i as int)),
        decreases d.float_data@.len() - i,
    {
        let w = u32_le_bytes(d.float_data[i].float_bits);
        push_all(out, w.as_slice());
        assert(d.float_data@.take(i + 1).drop_last() =~= d.float_data@.take(i as int));
        i = i + 1;
        assert(out@ =~= s1 + floats_bytes(d.float_data@.take(i as int)));
    }
    assert(d.float_data@.take(i as int) =~= d.float_data@);
    let ghost s2 = out@;
    let mut j: usize = 0;
    while j < d.string_data.len()
        invariant
            j <= d.string_data@.len(),
            out@ == s2 + texts_bytes(d.string_data@.take(j as int)),
        decreases d.string_data@.len() - j,
    {
        push_text(out, &d.string_data[j]);
        assert(d.string_data@.take(j + 1).drop_last() =~= d.string_data@.take(j as int));
        j = j + 1;
        assert(out@ =~= s2 + texts_bytes(d.string_data@.take(j as int)));
    }
    assert(d.string_data@.take(j as int) =~= d.string_data@);
    let ghost s3 = out@;
    let mut k: usize = 0;
    while k < d.padding.len()
        invariant
            k <= d.padding@.len(),
            out@ == s3 + pad_bytes(d.padding@.take(k as int)),
        decreases d.padding@.len() - k,
    {
        let x = d.padding[k];
        let byte: u8 = if x >= 0 {
            x as u8
        } else {
            (x as i16 + 256) as u8
        };
        out.push(byte);
        k = k + 1;
        assert(out@ =~= s3 + pad_bytes(d.padding@.take(k as int)));
    }
    assert(d.padding@.take(k as int) =~= d.padding@);
    assert(out@ =~= start + row_bytes(*d));
}

fn push_column(out: &mut Vec<u8>, c: &IESColumn)
    ensures
        final(out)@ == old(out)@ + column_bytes(*c),
{
    push_pad64(out, &c.column);
    push_pad64(out, &c.name);
    push_all(out, u16_le_bytes(c.type_data).as_slice());
    push_all(out, u16_le_bytes(c.access_data).as_slice());
    push_all(out, u16_le_bytes(c.sync_data).as_slice());
    push_all(out, u16_le_bytes(c.decl_idx).as_slice());
    assert(out@ =~= old(out)@ + column_bytes(*c));
}

impl IESHeader {
    /// The stored bytes of the table (see `tool_header_bytes`).
    pub fn write_to_bytes(&self) -> (r: Vec<u8>)
        ensures
            r@ == tool_header_bytes(*self),
    {
        let mut out: Vec<u8> = Vec::new();
        push_all(&mut out, self.idspace.as_slice());
        push_all(&mut out, self.keyspace.as_slice());
        push_all(&mut out, u16_le_bytes(self.version).as_slice());
        push_all(&mut out, u16_le_bytes(self.padding).as_slice());
        push_all(&mut out, u32_le_bytes(self.info_size).as_slice());
        push_all(&mut out, u32_le_bytes(self.data_size).as_slice());
        push_all(&mut out, u32_le_bytes(self.total_size).as_slice());
        out.push(self.use_class_id);
        out.push(self.padding2);
        push_all(&mut out, u16_le_bytes(self.num_field).as_slice());
        push_all(&mut out, u16_le_bytes(self.num_column).as_slice());
        push_all(&mut out, u16_le_bytes(self.num_column_number).as_slice());
        push_all(&mut out, u16_le_bytes(self.num_column_string).as_slice());
        push_all(&mut out, u16_le_bytes(self.padding3).as_slice());
        let ghost s1 = out@;
        let mut i: usize = 0;
        while i < self.columns.len()
            invariant
                i <= self.columns@.len(),
                out@ == s1 + columns_bytes(self.columns@.take(i as int)),
            decreases self.columns@.len() - i,
        {
            push_column(&mut out, &self.columns[i]);
            assert(self.columns@.take(i + 1).drop_last() =~= self.columns@.take(i as int));
            i = i + 1;
            assert(out@ =~= s1 + columns_bytes(self.columns@.take(i as int)));
        }
        assert(self.columns@.take(i as int) =~= self.columns@);
        let ghost s2 = out@;
        let mut j: usize = 0;
        while j < self.column_data.len()
            invariant
                j <= self.column_data@.len(),
                out@ == s2 + rows_bytes(self.column_data@.take(j as int)),
            decreases self.column_data@.len() - j,
        {
            push_row(&mut out, &self.column_data[j]);
            assert(self.column_data@.take(j + 1).drop_last() =~= self.column_data@.take(j as int));
            j = j + 1;
            assert(out@ =~= s2 + rows_bytes(self.column_data@.take(j as int)));
        }
        assert(self.column_data@.take(j as int) =~= self.column_data@);
        assert(out@ =~= tool_header_bytes(*self));
        out
    }
}

// ------------------------------------------------------------------ writing then reading

/// The row counts come back out of their packed form.
proof fn lemma_row_ctx(nn: u16, ns: u16)
    ensures
        row_ctx(nn, ns) / 65536 == nn,
        row_ctx(nn, ns) % 65536 == ns,
{
    let v = nn as int * 65536 + ns as int;
    assert(0 <= v < 0x1_0000_0000) by (nonlinear_arith)
        requires
            0 <= nn < 65536,
            0 <= ns < 65536,
            v == nn as int * 65536 + ns as int,
    ;
    assert(row_ctx(nn, ns) == v);
    assert(v / 65536 == nn && v % 65536 == ns) by (nonlinear_arith)
        requires
            0 <= nn < 65536,
            0 <= ns < 65536,
            v == nn as int * 65536 + ns as int,
    ;
}

/// An 8-bit signed value comes back from its stored byte.
proof fn lemma_i8_roundtrip(x: i8)
    ensures
        signed8(u8_of_i8(x) as int) as i8 == x,
{
}

/// `b` holds the bytes `s` from `p` on.
pub open spec fn holds_at(b: Seq<u8>, p: int, s: Seq<u8>) -> bool {
    &&& 0 <= p
    &&& p + s.len() <= b.len()
    &&& b.subrange(p, p + s.len()) == s
}

/// Holding `x + y` at `p` is holding `x` at `p` and `y` right after it.
proof fn lemma_holds_split(b: Seq<u8>, p: int, x: Seq<u8>, y: Seq<u8>)
    requires
        holds_at(b, p, x + y),
    ensures
        holds_at(b, p, x),
        holds_at(b, p + x.len(), y),
{
    assert(b.subrange(p, p + x.len()) =~= (x + y).subrange(0, x.len() as int));
    assert((x + y).subrange(0, x.len() as int) =~= x);
    assert(b.subrange(p + x.len(), p + x.len() + y.len()) =~= (x + y).subrange(x.len() as int, (x.len() + y.len()) as int));
    assert((x + y).subrange(x.len() as int, (x.len() + y.len()) as int) =~= y);
}

/// The 16-bit value whose stored bytes `b` holds at `p`.
proof fn lemma_holds_le16(b: Seq<u8>, p: int, v: u16)
    requires
        holds_at(b, p, le16_bytes(v as int)),
    ensures
        le16(b, p) == v,
{
    assert(b[p] == b.subrange(p, p + 2)[0]);
    assert(b[p + 1] == b.subrange(p, p + 2)[1]);
    crate::bytes::lemma_le16_roundtrip(v as int);
}

/// The 32-bit value whose stored bytes `b` holds at `p`.
proof fn lemma_holds_le32(b: Seq<u8>, p: int, v: int)
    requires
        0 <= v < 4294967296,
        holds_at(b, p, le32_bytes(v)),
    ensures
        le32(b, p) == v,
{
    assert(b[p] == b.subrange(p, p + 4)[0]);
    assert(b[p + 1] == b.subrange(p, p + 4)[1]);
    assert(b[p + 2] == b.subrange(p, p + 4)[2]);
    assert(b[p + 3] == b.subrange(p, p + 4)[3]);
    crate::bytes::lemma_le32_roundtrip(v);
}

/// The column descriptors `cs` (64-byte names) are read back from their
/// stored bytes.
proof fn lemma_columns_read(b: Seq<u8>, p: int, cs: Seq<IESColumn>)
    requires
        holds_at(b, p, columns_bytes(cs)),
        forall|i: int| 0 <= i < cs.len() ==> (#[trigger] cs[i]).column@.len() == 64 && cs[i].name@.len() == 64,
    ensures
        columns_bytes(cs).len() == 136 * cs.len(),
        list_end::<IESColumn>(b, p, 0, cs.len()) == Some(p + 136 * cs.len()),
        list_at::<IESColumn>(b, p, 0, cs.len(), cs),
    decreases cs.len(),
{
    if cs.len() > 0 {
        let init = cs.drop_last();
        let c = cs.last();
        let n = cs.len();
        assert(forall|i: int| 0 <= i < init.len() ==> init[i] == cs[i]);
        lemma_holds_split(b, p, columns_bytes(init), column_bytes(c));
        lemma_columns_read(b, p, init);
        let q = p + 136 * (n - 1);
        assert(c.column@.len() == 64 && c.name@.len() == 64) by {
            assert(c == cs[n - 1]);
        }
        assert(pad64(c.column@) == c.column@);
        assert(pad64(c.name@) == c.name@);
        let y = column_bytes(c);
        assert(y.len() == 136);
        assert(c.column@ + (c.name@ + le16_bytes(c.type_data as int) + le16_bytes(c.access_data as int)
            + le16_bytes(c.sync_data as int) + le16_bytes(c.decl_idx as int)) =~= y);
        lemma_holds_split(b, q, c.column@, c.name@ + le16_bytes(c.type_data as int) + le16_bytes(c.access_data as int)
            + le16_bytes(c.sync_data as int) + le16_bytes(c.decl_idx as int));
        let r1 = le16_bytes(c.type_data as int) + le16_bytes(c.access_data as int) + le16_bytes(c.sync_data as int) + le16_bytes(c.decl_idx as int);
        assert(c.name@ + r1 =~= c.name@ + le16_bytes(c.type_data as int) + le16_bytes(c.access_data as int)
            + le16_bytes(c.sync_data as int) + le16_bytes(c.decl_idx as int));
        lemma_holds_split(b, q + 64, c.name@, r1);
        let r2 = le16_bytes(c.access_data as int) + le16_bytes(c.sync_data as int) + le16_bytes(c.decl_idx as int);
        assert(r1 =~= le16_bytes(c.type_data as int) + r2);
        lemma_holds_split(b, q + 128, le16_bytes(c.type_data as int), r2);
        let r3 = le16_bytes(c.sync_data as int) + le16_bytes(c.decl_idx as int);
        assert(r2 =~= le16_bytes(c.access_data as int) + r3);
        lemma_holds_split(b, q + 130, le16_bytes(c.access_data as int), r3);
        lemma_holds_split(b, q + 132, le16_bytes(c.sync_data as int), le16_bytes(c.decl_idx as int));
        lemma_holds_le16(b, q + 128, c.type_data);
        lemma_holds_le16(b, q + 130, c.access_data);
        lemma_holds_le16(b, q + 132, c.sync_data);
        lemma_holds_le16(b, q + 134, c.decl_idx);
        assert(IESColumn::at(b, q, 0, c));
        let step = step_of::<IESColumn>(b, 0);
        assert(items_end(step, p, n as nat) == Some(q + 136));
        assert forall|i: int| 0 <= i < n implies IESColumn::at(b, item_pos(step, p, i), 0, #[trigger] cs[i]) by {
            if i < n - 1 {
                assert(cs[i] == init[i]);
            }
        }
    }
}

/// The number cells `fs` are read back from their stored bytes.
proof fn lemma_floats_read(b: Seq<u8>, p: int, fs: Seq<IESRowFloat>)
    requires
        holds_at(b, p, floats_bytes(fs)),
    ensures
        floats_bytes(fs).len() == 4 * fs.len(),
        list_end::<IESRowFloat>(b, p, 0, fs.len()) == Some(p + 4 * fs.len()),
        list_at::<IESRowFloat>(b, p, 0, fs.len(), fs),
    decreases fs.len(),
{
    if fs.len() > 0 {
        let init = fs.drop_last();
        let f = fs.last();
        let n = fs.len();
        lemma_holds_split(b, p, floats_bytes(init), le32_bytes(f.float_bits as int));
        lemma_floats_read(b, p, init);
        let q = p + 4 * (n - 1);
        lemma_holds_le32(b, q, f.float_bits as int);
        let step = step_of::<IESRowFloat>(b, 0);
        assert(items_end(step, p, n as nat) == Some(q + 4));
        assert forall|i: int| 0 <= i < n implies IESRowFloat::at(b, item_pos(step, p, i), 0, #[trigger] fs[i]) by {
            if i < n - 1 {
                assert(fs[i] == init[i]);
            }
        }
    }
}

/// A row text whose stored length is its length.
pub open spec fn text_fits(t: IESRowText) -> bool {
    t.text_length == t.text_data@.len()
}

/// A row text is read back from its stored bytes.
proof fn lemma_text_read(b: Seq<u8>, p: int, t: IESRowText)
    requires
        holds_at(b, p, text_bytes(t)),
        text_fits(t),
    ensures
        IESRowText::end(b, p, 0) == Some(p + text_bytes(t).len()),
        IESRowText::at(b, p, 0, t),
{
    lemma_holds_split(b, p, le16_bytes(t.text_length as int), t.text_data@);
    lemma_holds_le16(b, p, t.text_length);
}

/// The row texts `ts` are read back from their stored bytes.
proof fn lemma_texts_read(b: Seq<u8>, p: int, ts: Seq<IESRowText>)
    requires
        holds_at(b, p, texts_bytes(ts)),
        forall|i: int| 0 <= i < ts.len() ==> text_fits(#[trigger] ts[i]),
    ensures
        list_end::<IESRowText>(b, p, 0, ts.len()) == Some(p + texts_bytes(ts).len()),
        list_at::<IESRowText>(b, p, 0, ts.len(), ts),
    decreases ts.len(),
{
    if ts.len() > 0 {
        let init = ts.drop_last();
        let t = ts.last();
        let n = ts.len();
        assert(forall|i: int| 0 <= i < init.len() ==> init[i] == ts[i]);
        lemma_holds_split(b, p, texts_bytes(init), text_bytes(t));
        lemma_texts_read(b, p, init);
        let q = p + texts_bytes(init).len();
        assert(text_fits(t)) by {
            assert(t == ts[n - 1]);
        }
        lemma_text_read(b, q, t);
        let step = step_of::<IESRowText>(b, 0);
        assert(items_end(step, p, n as nat) == Some(p + texts_bytes(ts).len()));
        assert forall|i: int| 0 <= i < n implies IESRowText::at(b, item_pos(step, p, i), 0, #[trigger] ts[i]) by {
            if i < n - 1 {
                assert(ts[i] == init[i]);
            }
        }
    }
}

/// A row with the counts `nn` and `ns`: its texts' stored lengths are
/// their lengths, and it has `nn` number cells, `ns` text cells and `ns`
/// padding bytes.
pub open spec fn row_fits(d: IESColumnData, nn: u16, ns: u16) -> bool {
    &&& text_fits(d.text_data)
    &&& d.float_data@.len() == nn
    &&& d.string_data@.len() == ns
    &&& forall|i: int| 0 <= i < d.string_data@.len() ==> text_fits(#[trigger] d.string_data@[i])
    &&& d.padding@.len() == ns
}

/// A row is read back from its stored bytes.
proof fn lemma_row_read(b: Seq<u8>, q: int, d: IESColumnData, nn: u16, ns: u16)
    requires
        holds_at(b, q, row_bytes(d)),
        row_fits(d, nn, ns),
    ensures
        IESColumnData::end(b, q, row_ctx(nn, ns)) == Some(q + row_bytes(d).len()),
        IESColumnData::at(b, q, row_ctx(nn, ns), d),
{
    let ctx = row_ctx(nn, ns);
    lemma_row_ctx(nn, ns);
    let a = le32_bytes(u32_of_i32(d.index_data));
    let t = text_bytes(d.text_data);
    let f = floats_bytes(d.float_data@);
    let s = texts_bytes(d.string_data@);
    let pb = pad_bytes(d.padding@);
    assert(row_bytes(d) == a + t + f + s + pb);
    assert(a + t + f + s + pb =~= a + (t + (f + (s + pb))));
    lemma_holds_split(b, q, a, t + (f + (s + pb)));
    lemma_holds_split(b, q + 4, t, f + (s + pb));
    let q1 = q + 4 + t.len();
    lemma_holds_split(b, q1, f, s + pb);
    lemma_floats_read(b, q1, d.float_data@);
    let q2 = q1 + f.len();
    lemma_holds_split(b, q2, s, pb);
    lemma_texts_read(b, q2, d.string_data@);
    let q3 = q2 + s.len();
    lemma_holds_le32(b, q, u32_of_i32(d.index_data));
    crate::bytes::lemma_le32_roundtrip(u32_of_i32(d.index_data));
    lemma_text_read(b, q + 4, d.text_data);
    assert(row_floats_start(b, q) == Some(q1));
    assert(row_strings_start(b, q, ctx) == Some(q2));
    assert(row_padding_start(b, q, ctx) == Some(q3));
    assert(pb.len() == ns);
    assert forall|i: int| 0 <= i < ns implies #[trigger] d.padding@[i] == signed8(b[q3 + i] as int) as i8 by {
        assert(b[q3 + i] == pb[i]);
        lemma_i8_roundtrip(d.padding@[i]);
    }
    assert(d.padding@ =~= Seq::new((ctx % 65536) as nat, |i: int| signed8(b[row_padding_start(b, q, ctx)->0 + i] as int) as i8));
}

/// The rows `ds` are read back from their stored bytes.
proof fn lemma_rows_read(b: Seq<u8>, p: int, ds: Seq<IESColumnData>, nn: u16, ns: u16)
    requires
        holds_at(b, p, rows_bytes(ds)),
        forall|i: int| 0 <= i < ds.len() ==> row_fits(#[trigger] ds[i], nn, ns),
    ensures
        list_end::<IESColumnData>(b, p, row_ctx(nn, ns), ds.len()) == Some(p + rows_bytes(ds).len()),
        list_at::<IESColumnData>(b, p, row_ctx(nn, ns), ds.len(), ds),
    decreases ds.len(),
{
    if ds.len() > 0 {
        let init = ds.drop_last();
        let d = ds.last();
        let n = ds.len();
        assert(forall|i: int| 0 <= i < init.len() ==> init[i] == ds[i]);
        lemma_holds_split(b, p, rows_bytes(init), row_bytes(d));
        lemma_rows_read(b, p, init, nn, ns);
        let q = p + rows_bytes(init).len();
        assert(row_fits(d, nn, ns)) by {
            assert(d == ds[n - 1]);
        }
        lemma_row_read(b, q, d, nn, ns);
        let step = step_of::<IESColumnData>(b, row_ctx(nn, ns));
        assert(items_end(step, p, n as nat) == Some(p + rows_bytes(ds).len()));
        assert forall|i: int| 0 <= i < n implies IESColumnData::at(b, item_pos(step, p, i), row_ctx(nn, ns), #[trigger] ds[i]) by {
            if i < n - 1 {
                assert(ds[i] == init[i]);
            }
        }
    }
}

/// A table whose stored form says what it holds: 64-byte space names and
/// column names, as many columns and rows as its counts say, and rows that
/// fit its cell counts.
pub open spec fn tool_header_fits(h: IESHeader) -> bool {
    &&& h.idspace@.len() == 64
    &&& h.keyspace@.len() == 64
    &&& h.columns@.len() == h.num_column
    &&& forall|i: int| 0 <= i < h.columns@.len() ==> (#[trigger] h.columns@[i]).column@.len() == 64 && h.columns@[i].name@.len() == 64
    &&& h.column_data@.len() == h.num_field
    &&& forall|i: int| 0 <= i < h.column_data@.len() ==> row_fits(#[trigger] h.column_data@[i], h.num_column_number, h.num_column_string)
}

/// The fields of a table's fixed part are read back from its bytes.
proof fn lemma_fixed_read(b: Seq<u8>, h: IESHeader)
    requires
        holds_at(b, 0, tool_fixed_bytes(h)),
        h.idspace@.len() == 64,
        h.keyspace@.len() == 64,
    ensures
        tool_fixed_bytes(h).len() == 156,
        b.subrange(0, 64) == h.idspace@,
        b.subrange(64, 128) == h.keyspace@,
        le16(b, 128) == h.version,
        le16(b, 130) == h.padding,
        le32(b, 132) == h.info_size,
        le32(b, 136) == h.data_size,
        le32(b, 140) == h.total_size,
        b[144] == h.use_class_id,
        b[145] == h.padding2,
        le16(b, 146) == h.num_field,
        le16(b, 148) == h.num_column,
        le16(b, 150) == h.num_column_number,
        le16(b, 152) == h.num_column_string,
        le16(b, 154) == h.padding3,
{
    let p1 = h.idspace@ + h.keyspace@;
    let p2 = p1 + le16_bytes(h.version as int);
    let p3 = p2 + le16_bytes(h.padding as int);
    let p4 = p3 + le32_bytes(h.info_size as int);
    let p5 = p4 + le32_bytes(h.data_size as int);
    let p6 = p5 + le32_bytes(h.total_size as int);
    let p7 = p6 + seq![h.use_class_id, h.padding2];
    let p8 = p7 + le16_bytes(h.num_field as int);
    let p9 = p8 + le16_bytes(h.num_column as int);
    let p10 = p9 + le16_bytes(h.num_column_number as int);
    let p11 = p10 + le16_bytes(h.num_column_string as int);
    lemma_holds_split(b, 0, p11, le16_bytes(h.padding3 as int));
    lemma_holds_split(b, 0, p10, le16_bytes(h.num_column_string as int));
    lemma_holds_split(b, 0, p9, le16_bytes(h.num_column_number as int));
    lemma_holds_split(b, 0, p8, le16_bytes(h.num_column as int));
    lemma_holds_split(b, 0, p7, le16_bytes(h.num_field as int));
    lemma_holds_split(b, 0, p6, seq![h.use_class_id, h.padding2]);
    lemma_holds_split(b, 0, p5, le32_bytes(h.total_size as int));
    lemma_holds_split(b, 0, p4, le32_bytes(h.data_size as int));
    lemma_holds_split(b, 0, p3, le32_bytes(h.info_size as int));
    lemma_holds_split(b, 0, p2, le16_bytes(h.padding as int));
    lemma_holds_split(b, 0, p1, le16_bytes(h.version as int));
    lemma_holds_split(b, 0, h.idspace@, h.keyspace@);
    lemma_holds_le16(b, 128, h.version);
    lemma_holds_le16(b, 130, h.padding);
    lemma_holds_le32(b, 132, h.info_size as int);
    lemma_holds_le32(b, 136, h.data_size as int);
    lemma_holds_le32(b, 140, h.total_size as int);
    assert(b[144] == b.subrange(144, 146)[0]);
    assert(b[145] == b.subrange(144, 146)[1]);
    lemma_holds_le16(b, 146, h.num_field);
    lemma_holds_le16(b, 148, h.num_column);
    lemma_holds_le16(b, 150, h.num_column_number);
    lemma_holds_le16(b, 152, h.num_column_string);
    lemma_holds_le16(b, 154, h.padding3);
}

/// What `write_to_bytes` writes, `read_from_bytes` reads back: for a table
/// whose stored form says what it holds, the written bytes hold a whole
/// stored table, and that table is the one written.
pub proof fn law_tool_header_write_then_read(h: IESHeader)
    requires
        tool_header_fits(h),
    ensures
        tool_header_end(tool_header_bytes(h)) == Some(tool_header_bytes(h).len() as int),
        tool_header_at(tool_header_bytes(h), h),
{
    let b = tool_header_bytes(h);
    let fb = tool_fixed_bytes(h);
    let cb = columns_bytes(h.columns@);
    let rb = rows_bytes(h.column_data@);
    assert(holds_at(b, 0, b)) by {
        assert(b.subrange(0, b.len() as int) =~= b);
    }
    lemma_holds_split(b, 0, fb + cb, rb);
    lemma_holds_split(b, 0, fb, cb);
    lemma_fixed_read(b, h);
    lemma_columns_read(b, 156, h.columns@);
    lemma_rows_read(b, 156 + cb.len() as int, h.column_data@, h.num_column_number, h.num_column_string);
    assert(tool_columns_end(b) == Some(156 + cb.len() as int));
    assert(tool_row_ctx(b) == row_ctx(h.num_column_number, h.num_column_string));
}

/// Two row texts hold the same stored length and bytes.
pub open spec fn same_text(x: IESRowText, y: IESRowText) -> bool {
    x.text_length == y.text_length && x.text_data@ == y.text_data@
}

/// Two rows hold the same values.
pub open spec fn same_row(x: IESColumnData, y: IESColumnData) -> bool {
    &&& x.index_data == y.index_data
    &&& same_text(x.text_data, y.text_data)
    &&& x.float_data@ == y.float_data@
    &&& x.string_data@.len() == y.string_data@.len()
    &&& forall|i: int| 0 <= i < x.string_data@.len() ==> same_text(#[trigger] x.string_data@[i], y.string_data@[i])
    &&& x.padding@ == y.padding@
}

/// Two column descriptors hold the same values.
pub open spec fn same_column(x: IESColumn, y: IESColumn) -> bool {
    &&& x.column@ == y.column@
    &&& x.name@ == y.name@
    &&& x.type_data == y.type_data
    &&& x.access_data == y.access_data
    &&& x.sync_data == y.sync_data
    &&& x.decl_idx == y.decl_idx
}

/// Two tables hold the same values.
pub open spec fn same_table(x: IESHeader, y: IESHeader) -> bool {
    &&& x.idspace@ == y.idspace@
    &&& x.keyspace@ == y.keyspace@
    &&& x.version == y.version
    &&& x.padding == y.padding
    &&& x.info_size == y.info_size
    &&& x.data_size == y.data_size
    &&& x.total_size == y.total_size
    &&& x.use_class_id == y.use_class_id
    &&& x.padding2 == y.padding2
    &&& x.num_field == y.num_field
    &&& x.num_column == y.num_column
    &&& x.num_column_number == y.num_column_number
    &&& x.num_column_string == y.num_column_string
    &&& x.padding3 == y.padding3
    &&& x.columns@.len() == y.columns@.len()
    &&& forall|i: int| 0 <= i < x.columns@.len() ==> same_column(#[trigger] x.columns@[i], y.columns@[i])
    &&& x.column_data@.len() == y.column_data@.len()
    &&& forall|i: int| 0 <= i < x.column_data@.len() ==> same_row(#[trigger] x.column_data@[i], y.column_data@[i])
}

proof fn lemma_row_unique(b: Seq<u8>, q: int, ctx: u32, x: IESColumnData, y: IESColumnData)
    requires
        IESColumnData::at(b, q, ctx, x),
        IESColumnData::at(b, q, ctx, y),
    ensures
        same_row(x, y),
{
    let fs = row_floats_start(b, q)->0;
    let ss = row_strings_start(b, q, ctx)->0;
    let sf = step_of::<IESRowFloat>(b, 0);
    let st = step_of::<IESRowText>(b, 0);
    assert forall|i: int| 0 <= i < x.float_data@.len() implies x.float_data@[i] == y.float_data@[i] by {
        assert(IESRowFloat::at(b, item_pos(sf, fs, i), 0, x.float_data@[i]));
        assert(IESRowFloat::at(b, item_pos(sf, fs, i), 0, y.float_data@[i]));
    }
    assert(x.float_data@ =~= y.float_data@);
    assert forall|i: int| 0 <= i < x.string_data@.len() implies same_text(#[trigger] x.string_data@[i], y.string_data@[i]) by {
        assert(IESRowText::at(b, item_pos(st, ss, i), 0, x.string_data@[i]));
        assert(IESRowText::at(b, item_pos(st, ss, i), 0, y.string_data@[i]));
    }
}

/// The stored table at the start of some bytes is one table: two tables
/// read from the same bytes hold the same values.
pub proof fn law_tool_header_read_unique(b: Seq<u8>, x: IESHeader, y: IESHeader)
    requires
        tool_header_at(b, x),
        tool_header_at(b, y),
    ensures
        same_table(x, y),
{
    let sc = step_of::<IESColumn>(b, 0);
    assert forall|i: int| 0 <= i < x.columns@.len() implies same_column(#[trigger] x.columns@[i], y.columns@[i]) by {
        assert(IESColumn::at(b, item_pos(sc, 156, i), 0, x.columns@[i]));
        assert(IESColumn::at(b, item_pos(sc, 156, i), 0, y.columns@[i]));
    }
    let sr = step_of::<IESColumnData>(b, tool_row_ctx(b));
    let r0 = tool_columns_end(b)->0;
    assert forall|i: int| 0 <= i < x.column_data@.len() implies same_row(#[trigger] x.column_data@[i], y.column_data@[i]) by {
        lemma_row_unique(b, item_pos(sr, r0, i), tool_row_ctx(b), x.column_data@[i], y.column_data@[i]);
    }
}

} // verus!
