//! IPF archives: the trailing header, the file table, the per-entry
//! stream decryption and the size statistics over many archives.

use vstd::prelude::*;
use crate::bytes::{get_u16_le, get_u32_le, le16, le32};
use crate::text::{utf8_strict, chars_of, string_from_chars, nat_digits, push_digits};
use crate::category::{named, names_sorted, entry_names, index_of_name, name_at, locate, texts};
use crate::order::{str_lt, lemma_str_lt_total, lemma_str_lt_transitive, lemma_str_lt_irreflexive};
use crate::sort::{stable_order, rank_lt, occurs, is_stable_order, lemma_rank_irreflexive};
use crate::paths::{FolderFileKey, folder_key_view, folder_key_lt, path_parent, path_file_name, path_components, parent_of, file_name_of, components_of};
use vstd::wrapping::u32_specs::{wrapping_add, wrapping_mul};
use flate2::DecompressError;

verus! {

/// Offset of the header from the end of an archive.
pub const HEADER_LOCATION: i64 = -24;

/// The header's magic number (`PK\x05\x06`).
pub const MAGIC_NUMBER: u32 = 0x06054B50;

/// CRC-32 lookup table used by the key schedule of the entry cipher.
pub const CRC32_TABLE: [u32; 256] = [
    0x00000000, 0x77073096, 0xee0e612c, 0x990951ba, 0x076dc419, 0x706af48f, 0xe963a535, 0x9e6495a3,
    0x0edb8832, 0x79dcb8a4, 0xe0d5e91e, 0x97d2d988, 0x09b64c2b, 0x7eb17cbd, 0xe7b82d07, 0x90bf1d91,
    0x1db71064, 0x6ab020f2, 0xf3b97148, 0x84be41de, 0x1adad47d, 0x6ddde4eb, 0xf4d4b551, 0x83d385c7,
    0x136c9856, 0x646ba8c0, 0xfd62f97a, 0x8a65c9ec, 0x14015c4f, 0x63066cd9, 0xfa0f3d63, 0x8d080df5,
    0x3b6e20c8, 0x4c69105e, 0xd56041e4, 0xa2677172, 0x3c03e4d1, 0x4b04d447, 0xd20d85fd, 0xa50ab56b,
    0x35b5a8fa, 0x42b2986c, 0xdbbbc9d6, 0xacbcf940, 0x32d86ce3, 0x45df5c75, 0xdcd60dcf, 0xabd13d59,
    0x26d930ac, 0x51de003a, 0xc8d75180, 0xbfd06116, 0x21b4f4b5, 0x56b3c423, 0xcfba9599, 0xb8bda50f,
    0x2802b89e, 0x5f058808, 0xc60cd9b2, 0xb10be924, 0x2f6f7c87, 0x58684c11, 0xc1611dab, 0xb6662d3d,
    0x76dc4190, 0x01db7106, 0x98d220bc, 0xefd5102a, 0x71b18589, 0x06b6b51f, 0x9fbfe4a5, 0xe8b8d433,
    0x7807c9a2, 0x0f00f934, 0x9609a88e, 0xe10e9818, 0x7f6a0dbb, 0x086d3d2d, 0x91646c97, 0xe6635c01,
    0x6b6b51f4, 0x1c6c6162, 0x856530d8, 0xf262004e, 0x6c0695ed, 0x1b01a57b, 0x8208f4c1, 0xf50fc457,
    0x65b0d9c6, 0x12b7e950, 0x8bbeb8ea, 0xfcb9887c, 0x62dd1ddf, 0x15da2d49, 0x8cd37cf3, 0xfbd44c65,
    0x4db26158, 0x3ab551ce, 0xa3bc0074, 0xd4bb30e2, 0x4adfa541, 0x3dd895d7, 0xa4d1c46d, 0xd3d6f4fb,
    0x4369e96a, 0x346ed9fc, 0xad678846, 0xda60b8d0, 0x44042d73, 0x33031de5, 0xaa0a4c5f, 0xdd0d7cc9,
    0x5005713c, 0x270241aa, 0xbe0b1010, 0xc90c2086, 0x5768b525, 0x206f85b3, 0xb966d409, 0xce61e49f,
    0x5edef90e, 0x29d9c998, 0xb0d09822, 0xc7d7a8b4, 0x59b33d17, 0x2eb40d81, 0xb7bd5c3b, 0xc0ba6cad,
    0xedb88320, 0x9abfb3b6, 0x03b6e20c, 0x74b1d29a, 0xead54739, 0x9dd277af, 0x04db2615, 0x73dc1683,
    0xe3630b12, 0x94643b84, 0x0d6d6a3e, 0x7a6a5aa8, 0xe40ecf0b, 0x9309ff9d, 0x0a00ae27, 0x7d079eb1,
    0xf00f9344, 0x8708a3d2, 0x1e01f268, 0x6906c2fe, 0xf762575d, 0x806567cb, 0x196c3671, 0x6e6b06e7,
    0xfed41b76, 0x89d32be0, 0x10da7a5a, 0x67dd4acc, 0xf9b9df6f, 0x8ebeeff9, 0x17b7be43, 0x60b08ed5,
    0xd6d6a3e8, 0xa1d1937e, 0x38d8c2c4, 0x4fdff252, 0xd1bb67f1, 0xa6bc5767, 0x3fb506dd, 0x48b2364b,
    0xd80d2bda, 0xaf0a1b4c, 0x36034af6, 0x41047a60, 0xdf60efc3, 0xa867df55, 0x316e8eef, 0x4669be79,
    0xcb61b38c, 0xbc66831a, 0x256fd2a0, 0x5268e236, 0xcc0c7795, 0xbb0b4703, 0x220216b9, 0x5505262f,
    0xc5ba3bbe, 0xb2bd0b28, 0x2bb45a92, 0x5cb36a04, 0xc2d7ffa7, 0xb5d0cf31, 0x2cd99e8b, 0x5bdeae1d,
    0x9b64c2b0, 0xec63f226, 0x756aa39c, 0x026d930a, 0x9c0906a9, 0xeb0e363f, 0x72076785, 0x05005713,
    0x95bf4a82, 0xe2b87a14, 0x7bb12bae, 0x0cb61b38, 0x92d28e9b, 0xe5d5be0d, 0x7cdcefb7, 0x0bdbdf21,
    0x86d3d2d4, 0xf1d4e242, 0x68ddb3f8, 0x1fda836e, 0x81be16cd, 0xf6b9265b, 0x6fb077e1, 0x18b74777,
    0x88085ae6, 0xff0f6a70, 0x66063bca, 0x11010b5c, 0x8f659eff, 0xf862ae69, 0x616bffd3, 0x166ccf45,
    0xa00ae278, 0xd70dd2ee, 0x4e048354, 0x3903b3c2, 0xa7672661, 0xd06016f7, 0x4969474d, 0x3e6e77db,
    0xaed16a4a, 0xd9d65adc, 0x40df0b66, 0x37d83bf0, 0xa9bcae53, 0xdebb9ec5, 0x47b2cf7f, 0x30b5ffe9,
    0xbdbdf21c, 0xcabac28a, 0x53b39330, 0x24b4a3a6, 0xbad03605, 0xcdd70693, 0x54de5729, 0x23d967bf,
    0xb3667a2e, 0xc4614ab8, 0x5d681b02, 0x2a6f2b94, 0xb40bbe37, 0xc30c8ea1, 0x5a05df1b, 0x2d02ef8d,
];

/// Password that seeds the entry cipher's keys.
pub const PASSWORD: [u8; 20] = [
    0x6F, 0x66, 0x4F, 0x31, 0x61, 0x30, 0x75, 0x65, 0x58, 0x41, 0x3F, 0x20, 0x5B, 0xFF, 0x73, 0x20,
    0x68, 0x20, 0x25, 0x3F,
];

/// Why an archive or an entry could not be read.
#[derive(Copy, Clone, PartialEq, Eq, Structural, Debug)]
pub enum IpfError {
    /// The archive is shorter than its 24-byte header.
    TooShort,
    /// The header's magic number is not `MAGIC_NUMBER`.
    BadMagic,
    /// The file table runs past the end of the archive.
    UnexpectedEof,
    /// A name in the file table is not valid UTF-8.
    InvalidUtf8,
    /// A container name has no file stem to prefix the entry's path with.
    NoFileStem,
    /// The entry's data could not be inflated.
    DecompressFailed,
}

#[derive(Copy, Clone, PartialEq, Eq, Structural, Debug)]
pub struct IPFHeader {
    pub file_count: u16,
    pub file_table_pointer: u32,
    pub padding: u16,
    pub header_pointer: u32,
    pub magic: u32,
    pub version_to_patch: u32,
    pub new_version: u32,
}

pub struct IPFFileTable {
    pub directory_name_length: u16,
    pub crc32: u32,
    pub file_size_compressed: u32,
    pub file_size_uncompressed: u32,
    pub file_pointer: u32,
    pub container_name_length: u16,
    pub container_name: String,
    pub directory_name: String,
    /// Path of the archive that holds the entry, once known.
    pub file_path: Option<String>,
}

/// What an `IPFFileTable` holds, with its texts as character sequences.
pub struct IPFFileTableView {
    pub directory_name_length: u16,
    pub crc32: u32,
    pub file_size_compressed: u32,
    pub file_size_uncompressed: u32,
    pub file_pointer: u32,
    pub container_name_length: u16,
    pub container_name: Seq<char>,
    pub directory_name: Seq<char>,
    pub file_path: Option<Seq<char>>,
}

impl View for IPFFileTable {
    type V = IPFFileTableView;

    open spec fn view(&self) -> IPFFileTableView {
        IPFFileTableView {
            directory_name_length: self.directory_name_length,
            crc32: self.crc32,
            file_size_compressed: self.file_size_compressed,
            file_size_uncompressed: self.file_size_uncompressed,
            file_pointer: self.file_pointer,
            container_name_length: self.container_name_length,
            container_name: self.container_name@,
            directory_name: self.directory_name@,
            file_path: match self.file_path {
                Some(p) => Some(p@),
                None => None,
            },
        }
    }
}

pub struct IPFRoot {
    pub header: IPFHeader,
    pub file_table: Vec<IPFFileTable>,
}

/// The header stored in the last 24 bytes of `b`.
pub open spec fn spec_header(b: Seq<u8>) -> IPFHeader {
    let at = b.len() - 24;
    IPFHeader {
        file_count: le16(b, at) as u16,
        file_table_pointer: le32(b, at + 2) as u32,
        padding: le16(b, at + 6) as u16,
        header_pointer: le32(b, at + 8) as u32,
        magic: le32(b, at + 12) as u32,
        version_to_patch: le32(b, at + 16) as u32,
        new_version: le32(b, at + 20) as u32,
    }
}

/// The file table entry stored at `at`, and where the next one starts;
/// or why it cannot be read. The container name is checked before the
/// directory name is read.
pub open spec fn spec_entry(b: Seq<u8>, at: int) -> Result<(IPFFileTableView, int), IpfError> {
    if at + 20 > b.len() {
        Err(IpfError::UnexpectedEof)
    } else {
        let dlen = le16(b, at);
        let clen = le16(b, at + 18);
        let cstart = at + 20;
        let dstart = cstart + clen;
        if dstart > b.len() {
            Err(IpfError::UnexpectedEof)
        } else if !vstd::utf8::valid_utf8(b.subrange(cstart, dstart)) {
            Err(IpfError::InvalidUtf8)
        } else if dstart + dlen > b.len() {
            Err(IpfError::UnexpectedEof)
        } else if !vstd::utf8::valid_utf8(b.subrange(dstart, dstart + dlen)) {
            Err(IpfError::InvalidUtf8)
        } else {
            Ok((
                IPFFileTableView {
                    directory_name_length: dlen as u16,
                    crc32: le32(b, at + 2) as u32,
                    file_size_compressed: le32(b, at + 6) as u32,
                    file_size_uncompressed: le32(b, at + 10) as u32,
                    file_pointer: le32(b, at + 14) as u32,
                    container_name_length: clen as u16,
                    container_name: vstd::utf8::decode_utf8(b.subrange(cstart, dstart)),
                    directory_name: vstd::utf8::decode_utf8(b.subrange(dstart, dstart + dlen)),
                    file_path: None,
                },
                dstart + dlen,
            ))
        }
    }
}

/// The `n` consecutive entries that start at `at`, or the first failure.
pub open spec fn spec_entries(b: Seq<u8>, at: int, n: nat) -> Result<Seq<IPFFileTableView>, IpfError>
    decreases n,
{
    if n == 0 {
        Ok(Seq::empty())
    } else {
        match spec_entry(b, at) {
            Err(e) => Err(e),
            Ok((ent, next)) => match spec_entries(b, next, (n - 1) as nat) {
                Err(e) => Err(e),
                Ok(rest) => Ok(seq![ent] + rest),
            },
        }
    }
}

/// The header and file table of the archive `b`, or why it cannot be read.
pub open spec fn spec_archive(b: Seq<u8>) -> Result<(IPFHeader, Seq<IPFFileTableView>), IpfError> {
    if b.len() < 24 {
        Err(IpfError::TooShort)
    } else if spec_header(b).magic != MAGIC_NUMBER {
        Err(IpfError::BadMagic)
    } else {
        match spec_entries(b, spec_header(b).file_table_pointer as int, spec_header(b).file_count as nat) {
            Err(e) => Err(e),
            Ok(t) => Ok((spec_header(b), t)),
        }
    }
}

/// The views of the entries of `table`.
pub open spec fn table_view(table: Seq<IPFFileTable>) -> Seq<IPFFileTableView> {
    Seq::new(table.len(), |i: int| table[i]@)
}

fn read_header(b: &[u8]) -> (h: IPFHeader)
    requires
        b@.len() >= 24,
    ensures
        h == spec_header(b@),
{
    let at = b.len() - 24;
    IPFHeader {
        file_count: get_u16_le(b, at),
        file_table_pointer: get_u32_le(b, at + 2),
        padding: get_u16_le(b, at + 6),
        header_pointer: get_u32_le(b, at + 8),
        magic: get_u32_le(b, at + 12),
        version_to_patch: get_u32_le(b, at + 16),
        new_version: get_u32_le(b, at + 20),
    }
}

fn copy_range(b: &[u8], start: usize, end: usize) -> (r: Vec<u8>)
    requires
        start <= end <= b@.len(),
    ensures
        r@ == b@.subrange(start as int, end as int),
{
    let mut r: Vec<u8> = Vec::new();
    let mut i = start;
    while i < end
        invariant
            start <= i <= end,
            end <= b@.len(),
            r@ == b@.subrange(start as int, i as int),
        decreases end - i,
    {
        r.push(b[i]);
        i = i + 1;
    }
    r
}

fn read_entry(b: &[u8], at: usize) -> (res: Result<(IPFFileTable, usize), IpfError>)
    ensures
        match spec_entry(b@, at as int) {
            Ok((v, next)) => res matches Ok((e, n)) && e@ == v && n == next,
            Err(err) => res == Err::<(IPFFileTable, usize), IpfError>(err),
        },
{
    let len = b.len();
    if at > len || len - at < 20 {
        return Err(IpfError::UnexpectedEof);
    }
    let dlen = get_u16_le(b, at) as usize;
    let clen = get_u16_le(b, at + 18) as usize;
    let cstart = at + 20;
    if len - cstart < clen {
        return Err(IpfError::UnexpectedEof);
    }
    let dstart = cstart + clen;
    let container_name = match utf8_strict(copy_range(b, cstart, dstart)) {
        Ok(s) => s,
        Err(_) => return Err(IpfError::InvalidUtf8),
    };
    if len - dstart < dlen {
        return Err(IpfError::UnexpectedEof);
    }
    let directory_name = match utf8_strict(copy_range(b, dstart, dstart + dlen)) {
        Ok(s) => s,
        Err(_) => return Err(IpfError::InvalidUtf8),
    };
    let e = IPFFileTable {
        directory_name_length: dlen as u16,
        crc32: get_u32_le(b, at + 2),
        file_size_compressed: get_u32_le(b, at + 6),
        file_size_uncompressed: get_u32_le(b, at + 10),
        file_pointer: get_u32_le(b, at + 14),
        container_name_length: clen as u16,
        container_name,
        directory_name,
        file_path: None,
    };
    Ok((e, dstart + dlen))
}

impl IPFRoot {
    /// Reads the header from the last 24 bytes of `bytes`, checks its magic
    /// number, then reads `file_count` file table entries from
    /// `file_table_pointer` on.
    pub fn from_bytes(bytes: &[u8]) -> (res: Result<IPFRoot, IpfError>)
        ensures
            match spec_archive(bytes@) {
                Ok((h, t)) => res matches Ok(root) && root.header == h && table_view(root.file_table@) == t,
                Err(e) => res matches Err(e2) && e2 == e,
            },
    {
        if bytes.len() < 24 {
            return Err(IpfError::TooShort);
        }
        let header = read_header(bytes);
        if header.magic != MAGIC_NUMBER {
            return Err(IpfError::BadMagic);
        }
        let ghost b = bytes@;
        let ghost start = header.file_table_pointer as int;
        let n = header.file_count as usize;
        let mut at = header.file_table_pointer as usize;
        let mut table: Vec<IPFFileTable> = Vec::new();
        let mut i: usize = 0;
        while i < n
            invariant
                i <= n,
                n == header.file_count,
                b == bytes@,
                b.len() >= 24,
                header == spec_header(b),
                header.magic == MAGIC_NUMBER,
                start == header.file_table_pointer as int,
                match spec_entries(b, at as int, (n - i) as nat) {
                    Ok(rest) => spec_entries(b, start, n as nat) == Ok::<Seq<IPFFileTableView>, IpfError>(table_view(table@) + rest),
                    Err(e) => spec_entries(b, start, n as nat) == Err::<Seq<IPFFileTableView>, IpfError>(e),
                },
            decreases n - i,
        {
            let (e, next) = match read_entry(bytes, at) {
                Ok(p) => p,
                Err(err) => {
                    assert(spec_entries(b, at as int, (n - i) as nat) == Err::<Seq<IPFFileTableView>, IpfError>(err));
                    return Err(err);
                },
            };
            proof {
                let old_tv = table_view(table@);
                assert(table_view(table@.push(e)) =~= old_tv + seq![e@]);
                match spec_entries(b, next as int, (n - i - 1) as nat) {
                    Ok(rest) => {
                        assert(old_tv + (seq![e@] + rest) =~= (old_tv + seq![e@]) + rest);
                    },
                    Err(_) => {},
                }
            }
            table.push(e);
            at = next;
            i = i + 1;
        }
        proof {
            assert(table_view(table@) + Seq::<IPFFileTableView>::empty() =~= table_view(table@));
        }
        Ok(IPFRoot { header, file_table: table })
    }
}


// ---------------------------------------------------------------- cipher

/// The three rolling keys of the entry cipher.
pub type Keys = (u32, u32, u32);

/// One step of the CRC-32 used by the key schedule.
pub open spec fn crc_step(crc: u32, b: u8) -> u32 {
    CRC32_TABLE@[((crc ^ (b as u32)) & 0xff) as int] ^ (crc >> 8u32)
}

/// The keys after absorbing the plain byte `b`.
pub open spec fn keys_step(k: Keys, b: u8) -> Keys {
    let k0 = crc_step(k.0, b);
    let k1 = wrapping_add(wrapping_mul(0x8088405u32, wrapping_add((k0 as u8) as u32, k.1)), 1);
    let k2 = crc_step(k.2, (k1 >> 24u32) as u8);
    (k0, k1, k2)
}

/// The keys after absorbing `bytes` in order, starting from `k`.
pub open spec fn keys_after(k: Keys, bytes: Seq<u8>) -> Keys
    decreases bytes.len(),
{
    if bytes.len() == 0 {
        k
    } else {
        keys_step(keys_after(k, bytes.drop_last()), bytes.last())
    }
}

/// The keys that every entry's decryption starts from: the fixed seed
/// after absorbing `PASSWORD`.
pub open spec fn initial_keys() -> Keys {
    keys_after((0x12345678u32, 0x23456789u32, 0x34567890u32), PASSWORD@)
}

/// The byte that the third key masks a cipher byte with.
pub open spec fn key_stream_byte(k2: u32) -> u8 {
    let v = (k2 & 0xFFFDu32) | 2u32;
    (wrapping_mul(v, v ^ 1u32) >> 8u32) as u8
}

/// The keys in force when the `j`-th even-indexed byte of `data` is decrypted.
pub open spec fn keys_at(data: Seq<u8>, j: nat) -> Keys
    decreases j,
{
    if j == 0 {
        initial_keys()
    } else {
        let prev = keys_at(data, (j - 1) as nat);
        keys_step(prev, data[2 * (j - 1)] ^ key_stream_byte(prev.2))
    }
}

/// Decryption of an entry's data: each byte at an even index is masked
/// with the key stream, the keys absorbing each plain byte; the bytes at
/// odd indices are kept as stored.
pub open spec fn decrypt_spec(data: Seq<u8>) -> Seq<u8> {
    Seq::new(
        data.len(),
        |i: int|
            if i % 2 == 0 {
                data[i] ^ key_stream_byte(keys_at(data, (i / 2) as nat).2)
            } else {
                data[i]
            },
    )
}

/// The characters after the last '.', or all of `s` where there is none.
pub open spec fn after_last_dot(s: Seq<char>) -> Seq<char>
    decreases s.len(),
{
    if s.len() == 0 {
        s
    } else if s.last() == '.' {
        Seq::empty()
    } else {
        after_last_dot(s.drop_last()).push(s.last())
    }
}

/// The code of `c` after ASCII lower-casing.
pub open spec fn lower_code(c: char) -> u32 {
    if 65 <= (c as u32) <= 90 { (c as u32 + 32) as u32 } else { c as u32 }
}

pub open spec fn lowered(s: Seq<char>) -> Seq<u32> {
    s.map_values(|c: char| lower_code(c))
}

/// Entries named with extension `fsb`, `jpg` or `mp3` (in any ASCII case)
/// are stored plain; a name with no '.' has no extension.
pub open spec fn spec_skips_decompression(name: Seq<char>) -> bool {
    let ext = lowered(after_last_dot(name));
    &&& name.contains('.')
    &&& (ext == seq!['f' as u32, 's' as u32, 'b' as u32] || ext == seq!['j' as u32, 'p' as u32, 'g' as u32]
        || ext == seq!['m' as u32, 'p' as u32, '3' as u32])
}

/// The bytes that raw inflating of `data` yields into an output of `limit` bytes.
pub uninterp spec fn inflate_result(data: Seq<u8>, limit: nat) -> Option<Seq<u8>>;

#[verifier::external_type_specification]
#[verifier::external_body]
pub struct ExDecompressError(DecompressError);

/// `flate2::Decompress::new(false).decompress(data, out, FlushDecompress::Finish)`
/// into an output buffer of `limit` bytes, keeping the bytes written. The
/// outcome is named as a function of `data` and `limit`; what is stated
/// besides is that no more than `limit` bytes come out.
#[verifier::external_body]
fn inflate_raw(data: &[u8], limit: usize) -> (res: Result<Vec<u8>, DecompressError>)
    ensures
        res is Ok <==> inflate_result(data@, limit as nat) is Some,
        res matches Ok(v) ==> v@ == inflate_result(data@, limit as nat)->0 && v@.len() <= limit,
{
    let mut d = flate2::Decompress::new(false);
    let mut out = vec![0u8; limit];
    d.decompress(data, &mut out, flate2::FlushDecompress::Finish)?;
    out.truncate(d.total_out() as usize);
    Ok(out)
}

/// What `decode_stored` gives for an entry named `name` with uncompressed size
/// `size` whose stored bytes are `raw`.
pub open spec fn spec_decode_stored(name: Seq<char>, size: u32, raw: Seq<u8>) -> Result<Seq<u8>, IpfError> {
    if spec_skips_decompression(name) {
        Ok(raw)
    } else {
        match inflate_result(decrypt_spec(raw), size as nat) {
            Some(v) => Ok(v),
            None => Err(IpfError::DecompressFailed),
        }
    }
}

impl IPFFileTable {
    /// Whether the entry is stored plain, by its extension.
    pub fn should_skip_decompression(&self) -> (r: bool)
        ensures
            r == spec_skips_decompression(self.directory_name@),
    {
        let chars = chars_of(self.directory_name.as_str());
        let n = chars.len();
        let mut start = n;
        assert(chars@.subrange(0, n as int) =~= chars@);
        assert(after_last_dot(chars@) =~= after_last_dot(chars@) + chars@.subrange(n as int, n as int));
        while start > 0 && chars[start - 1] != '.'
            invariant
                start <= n,
                n == chars@.len(),
                after_last_dot(chars@) == after_last_dot(chars@.subrange(0, start as int)) + chars@.subrange(start as int, n as int),
                forall|k: int| start <= k < n ==> chars@[k] != '.',
            decreases start,
        {
            proof {
                let pre = chars@.subrange(0, start as int);
                assert(pre.drop_last() =~= chars@.subrange(0, start - 1));
                assert(chars@.subrange(start - 1, n as int) =~= seq![pre.last()] + chars@.subrange(start as int, n as int));
                assert(after_last_dot(pre) == after_last_dot(pre.drop_last()).push(pre.last()));
                assert(after_last_dot(pre.drop_last()).push(pre.last()) + chars@.subrange(start as int, n as int)
                    =~= after_last_dot(pre.drop_last()) + chars@.subrange(start - 1, n as int));
            }
            start = start - 1;
        }
        proof {
            let pre = chars@.subrange(0, start as int);
            assert(after_last_dot(pre) =~= Seq::<char>::empty());
            assert(chars@.subrange(0, n as int) =~= chars@);
        }
        let ghost ext = chars@.subrange(start as int, n as int);
        assert(after_last_dot(chars@) =~= ext);
        if start == 0 {
            assert(!chars@.contains('.'));
            return false;
        }
        assert(chars@[start - 1] == '.');
        assert(chars@.contains('.'));
        if n - start != 3 {
            assert(lowered(ext).len() != 3);
            return false;
        }
        let c0 = lower_char_code(chars[start]);
        let c1 = lower_char_code(chars[start + 1]);
        let c2 = lower_char_code(chars[start + 2]);
        let ghost low = seq![c0, c1, c2];
        assert(lowered(ext) =~= low);
        (c0 == 'f' as u32 && c1 == 's' as u32 && c2 == 'b' as u32) || (c0 == 'j' as u32 && c1
            == 'p' as u32 && c2 == 'g' as u32) || (c0 == 'm' as u32 && c1 == 'p' as u32 && c2
            == '3' as u32)
    }

    /// Decrypts the bytes at even indices in place with the entry cipher.
    fn decrypt_in_place(&self, buffer: &mut Vec<u8>)
        ensures
            final(buffer)@ == decrypt_spec(old(buffer)@),
    {
        if buffer.len() == 0 {
            assert(decrypt_spec(old(buffer)@) =~= old(buffer)@);
            return;
        }
        let ghost data = buffer@;
        let mut keys = self.generate_keys();
        let len = buffer.len();
        let steps = (len - 1) / 2 + 1;
        let mut j: usize = 0;
        while j < steps
            invariant
                len == buffer@.len(),
                len == data.len(),
                len > 0,
                steps == (len - 1) / 2 + 1,
                j <= steps,
                (keys[0], keys[1], keys[2]) == keys_at(data, j as nat),
                forall|k: int| 0 <= k < len ==> #[trigger] buffer@[k] == (if k < 2 * j && k % 2 == 0 {
                    data[k] ^ key_stream_byte(keys_at(data, (k / 2) as nat).2)
                } else {
                    data[k]
                }),
            decreases steps - j,
        {
            let idx = j * 2;
            let v = (keys[2] & 0xFFFD) | 2;
            let mask = (v.wrapping_mul(v ^ 1) >> 8) as u8;
            let plain = buffer[idx] ^ mask;
            buffer.set(idx, plain);
            self.update_keys(&mut keys, plain);
            proof {
                assert(idx / 2 == j);
                assert(buffer@[idx as int] == data[idx as int] ^ key_stream_byte(keys_at(data, j as nat).2));
                assert forall|k: int| 0 <= k < len implies #[trigger] buffer@[k] == (if k < 2 * (j + 1) && k % 2 == 0 {
                    data[k] ^ key_stream_byte(keys_at(data, (k / 2) as nat).2)
                } else {
                    data[k]
                }) by {
                    if k == idx {
                        assert(k / 2 == j);
                    }
                }
            }
            j = j + 1;
        }
        assert(buffer@ =~= decrypt_spec(data));
    }

    /// One CRC-32 step of the key schedule.
    fn compute_crc32(&self, crc: u32, b: u8) -> (r: u32)
        ensures
            r == crc_step(crc, b),
    {
        let i = ((crc ^ b as u32) & 0xFF) as usize;
        assert(((crc ^ b as u32) & 0xFF) < 256) by (bit_vector);
        CRC32_TABLE[i] ^ (crc >> 8)
    }

    /// The byte at `byte_index` (0 = least significant) of `value`.
    fn extract_byte_at(&self, value: u32, byte_index: usize) -> (r: u8)
        requires
            byte_index < 4,
        ensures
            r == (value >> ((byte_index * 8) as u32)) as u8,
    {
        (value >> ((byte_index * 8) as u32)) as u8
    }

    /// Absorbs the plain byte `byte` into the keys.
    fn update_keys(&self, keys: &mut [u32; 3], byte: u8)
        ensures
            (final(keys)[0], final(keys)[1], final(keys)[2]) == keys_step((old(keys)[0], old(keys)[1], old(keys)[2]), byte),
    {
        keys[0] = self.compute_crc32(keys[0], byte);
        keys[1] = 0x8088405u32.wrapping_mul((keys[0] as u8 as u32).wrapping_add(keys[1])).wrapping_add(1);
        let b3 = self.extract_byte_at(keys[1], 3);
        keys[2] = self.compute_crc32(keys[2], b3);
    }

    /// The seed keys after absorbing `PASSWORD`.
    fn generate_keys(&self) -> (k: [u32; 3])
        ensures
            (k[0], k[1], k[2]) == initial_keys(),
    {
        let mut keys: [u32; 3] = [0x12345678, 0x23456789, 0x34567890];
        let mut i: usize = 0;
        while i < 20
            invariant
                i <= 20,
                (keys[0], keys[1], keys[2]) == keys_after((0x12345678u32, 0x23456789u32, 0x34567890u32), PASSWORD@.take(i as int)),
            decreases 20 - i,
        {
            assert(PASSWORD@.take(i + 1).drop_last() =~= PASSWORD@.take(i as int));
            self.update_keys(&mut keys, PASSWORD[i]);
            i = i + 1;
        }
        assert(PASSWORD@.take(20) =~= PASSWORD@);
        keys
    }

    /// Raw-inflates `data` into at most `file_size_uncompressed` bytes.
    fn decompress_data(&self, data: &[u8]) -> (res: Result<Vec<u8>, IpfError>)
        ensures
            match inflate_result(data@, self.file_size_uncompressed as nat) {
                Some(v) => res matches Ok(out) && out@ == v,
                None => res == Err::<Vec<u8>, IpfError>(IpfError::DecompressFailed),
            },
    {
        match inflate_raw(data, self.file_size_uncompressed as usize) {
            Ok(v) => Ok(v),
            Err(_) => Err(IpfError::DecompressFailed),
        }
    }

    /// The content of the entry from its stored bytes `raw` (the
    /// `file_size_compressed` bytes at `file_pointer` in its archive):
    /// plain entries as stored, the others decrypted and then inflated.
    pub fn decode_stored(&self, raw: Vec<u8>) -> (res: Result<Vec<u8>, IpfError>)
        ensures
            match spec_decode_stored(self.directory_name@, self.file_size_uncompressed, raw@) {
                Ok(v) => res matches Ok(out) && out@ == v,
                Err(e) => res == Err::<Vec<u8>, IpfError>(e),
            },
    {
        let mut buffer = raw;
        if !self.should_skip_decompression() {
            self.decrypt_in_place(&mut buffer);
            buffer = self.decompress_data(buffer.as_slice())?;
        }
        Ok(buffer)
    }
}

fn lower_char_code(c: char) -> (r: u32)
    ensures
        r == lower_code(c),
{
    let u = c as u32;
    if 65 <= u && u <= 90 { u + 32 } else { u }
}


// ---------------------------------------------------------------- archive names

/// The file stem of the path `p`, as `std::path::Path::file_stem` gives it.
pub uninterp spec fn path_file_stem(p: Seq<char>) -> Option<Seq<char>>;

/// `Path::new(p).file_stem()` converted with `to_string_lossy`. The stem is
/// named as a function of `p`; nothing else about it is stated.
#[verifier::external_body]
fn file_stem_of(p: &str) -> (r: Option<String>)
    ensures
        r is Some <==> path_file_stem(p@) is Some,
        r matches Some(s) ==> s@ == path_file_stem(p@)->0,
{
    std::path::Path::new(p).file_stem().map(|s| s.to_string_lossy().into_owned())
}

/// An entry read from the archive at `path`: it records `path`, and its
/// directory name is prefixed with its container's file stem and a '/';
/// `None` where the container name has no file stem.
pub open spec fn spec_placed(e: IPFFileTableView, path: Seq<char>) -> Option<IPFFileTableView> {
    match path_file_stem(e.container_name) {
        None => None,
        Some(stem) => Some(
            IPFFileTableView {
                directory_name: stem + seq!['/'] + e.directory_name,
                file_path: Some(path),
                ..e
            },
        ),
    }
}

/// Whether every entry's container name has a file stem.
pub open spec fn all_placeable(t: Seq<IPFFileTableView>) -> bool {
    forall|i: int| 0 <= i < t.len() ==> (#[trigger] path_file_stem(t[i].container_name)) is Some
}

/// The entries as `spec_placed` gives them.
pub open spec fn placed_table(t: Seq<IPFFileTableView>, path: Seq<char>) -> Seq<IPFFileTableView> {
    t.map_values(|e: IPFFileTableView| spec_placed(e, path)->0)
}

fn place_entry(e: &IPFFileTable, path: &str) -> (r: Option<IPFFileTable>)
    ensures
        match spec_placed(e@, path@) {
            Some(v) => r matches Some(x) && x@ == v,
            None => r is None,
        },
{
    let stem = file_stem_of(e.container_name.as_str());
    match stem {
        None => None,
        Some(mut name) => {
            name.append("/");
            name.append(e.directory_name.as_str());
            proof {
                reveal_strlit("/");
                assert("/"@ =~= seq!['/']);
            }
            let r = IPFFileTable {
                directory_name_length: e.directory_name_length,
                crc32: e.crc32,
                file_size_compressed: e.file_size_compressed,
                file_size_uncompressed: e.file_size_uncompressed,
                file_pointer: e.file_pointer,
                container_name_length: e.container_name_length,
                container_name: e.container_name.clone(),
                directory_name: name,
                file_path: Some(String::from_str(path)),
            };
            Some(r)
        },
    }
}

/// What `IPFRoot::from_archive` makes of the archive `bytes` stored at
/// `path`: its header and placed entries, or the error.
pub open spec fn spec_from_archive(bytes: Seq<u8>, path: Seq<char>) -> Result<(IPFHeader, Seq<IPFFileTableView>), IpfError> {
    match spec_archive(bytes) {
        Ok((h, t)) => if all_placeable(t) {
            Ok((h, placed_table(t, path)))
        } else {
            Err(IpfError::NoFileStem)
        },
        Err(e) => Err(e),
    }
}

/// What `parse_game_ipfs` makes of the archives `a` (path, bytes): all of
/// them read, or the error of the first that fails.
pub open spec fn spec_parse_all(a: Seq<(Seq<char>, Seq<u8>)>) -> Result<Seq<(IPFHeader, Seq<IPFFileTableView>)>, IpfError>
    decreases a.len(),
{
    if a.len() == 0 {
        Ok(Seq::empty())
    } else {
        match spec_parse_all(a.drop_last()) {
            Err(e) => Err(e),
            Ok(xs) => match spec_from_archive(a.last().1, a.last().0) {
                Ok(x) => Ok(xs.push(x)),
                Err(e) => Err(e),
            },
        }
    }
}

/// The archives as paths and bytes.
pub open spec fn archives_view(a: Seq<(String, Vec<u8>)>) -> Seq<(Seq<char>, Seq<u8>)> {
    Seq::new(a.len(), |i: int| (a[i].0@, a[i].1@))
}

/// The archives read, as headers and entry views.
pub open spec fn roots_view(r: Seq<IPFRoot>) -> Seq<(IPFHeader, Seq<IPFFileTableView>)> {
    Seq::new(r.len(), |i: int| (r[i].header, table_view(r[i].file_table@)))
}

impl IPFRoot {
    /// Reads the archive `bytes` stored at `path` as `from_bytes` does, then
    /// records `path` in every entry and prefixes each directory name with
    /// the file stem of its container name and a '/'. A container name
    /// without a file stem is refused.
    pub fn from_archive(bytes: &[u8], path: &str) -> (res: Result<IPFRoot, IpfError>)
        ensures
            match spec_from_archive(bytes@, path@) {
                Ok((h, t)) => res matches Ok(root) && root.header == h && table_view(root.file_table@) == t,
                Err(e) => res matches Err(e2) && e2 == e,
            },
    {
        let root = Self::from_bytes(bytes)?;
        let ghost t = table_view(root.file_table@);
        proof {
            match spec_archive(bytes@) {
                Ok((h, tt)) => {
                    assert(h == root.header && tt == t);
                },
                Err(e) => {
                    assert(false);
                },
            }
        }
        let mut table: Vec<IPFFileTable> = Vec::new();
        let mut i: usize = 0;
        while i < root.file_table.len()
            invariant
                i <= root.file_table@.len(),
                t == table_view(root.file_table@),
                spec_archive(bytes@) == Ok::<(IPFHeader, Seq<IPFFileTableView>), IpfError>((root.header, t)),
                forall|k: int| 0 <= k < i ==> (#[trigger] path_file_stem(t[k].container_name)) is Some,
                table_view(table@) == placed_table(t.take(i as int), path@),
            decreases root.file_table@.len() - i,
        {
            match place_entry(&root.file_table[i], path) {
                None => {
                    assert(t[i as int] == root.file_table@[i as int]@);
                    assert(path_file_stem(t[i as int].container_name) is None);
                    assert(!all_placeable(t));
                    return Err(IpfError::NoFileStem);
                },
                Some(e) => {
                    proof {
                        assert(t[i as int] == root.file_table@[i as int]@);
                        assert(spec_placed(t[i as int], path@) == Some(e@));
                        assert(t.take(i + 1) =~= t.take(i as int).push(t[i as int]));
                        assert(placed_table(t.take(i + 1), path@) =~= placed_table(t.take(i as int), path@).push(e@));
                        assert(table_view(table@.push(e)) =~= placed_table(t.take(i + 1), path@));
                    }
                    table.push(e);
                },
            }
            i = i + 1;
        }
        assert(t.take(i as int) =~= t);
        Ok(IPFRoot { header: root.header, file_table: table })
    }
}

/// Moves the file table out of every archive, in order, and returns all
/// entries together; each archive keeps its header and an empty table.
pub fn collect_file_tables_from_parsed(parsed_ipfs: &mut Vec<IPFRoot>) -> (r: Vec<IPFFileTable>)
    ensures
        table_view(r@) == all_entries(old(parsed_ipfs)@),
        final(parsed_ipfs)@.len() == old(parsed_ipfs)@.len(),
        forall|i: int| 0 <= i < old(parsed_ipfs)@.len() ==> {
            &&& (#[trigger] final(parsed_ipfs)@[i]).header == old(parsed_ipfs)@[i].header
            &&& final(parsed_ipfs)@[i].file_table@.len() == 0
        },
{
    let ghost orig = parsed_ipfs@;
    let mut all: Vec<IPFFileTable> = Vec::new();
    let mut i: usize = 0;
    proof {
        assert(orig.take(0) =~= Seq::<IPFRoot>::empty());
    }
    while i < parsed_ipfs.len()
        invariant
            i <= parsed_ipfs@.len(),
            parsed_ipfs@.len() == orig.len(),
            forall|k: int| i <= k < orig.len() ==> #[trigger] parsed_ipfs@[k] == orig[k],
            forall|k: int| 0 <= k < i ==> {
                &&& (#[trigger] parsed_ipfs@[k]).header == orig[k].header
                &&& parsed_ipfs@[k].file_table@.len() == 0
            },
            table_view(all@) == all_entries(orig.take(i as int)),
        decreases orig.len() - i,
    {
        let mut taken = IPFRoot { header: parsed_ipfs[i].header, file_table: Vec::new() };
        parsed_ipfs.set_and_swap(i, &mut taken);
        let mut t = taken.file_table;
        proof {
            lemma_all_entries_push(orig, i as int);
            assert(table_view(all@ + t@) =~= table_view(all@) + table_view(t@));
        }
        all.append(&mut t);
        i = i + 1;
    }
    assert(orig.take(i as int) =~= orig);
    all
}

// ---------------------------------------------------------------- statistics

#[derive(Copy, Clone, PartialEq, Eq, Structural, Debug)]
pub struct FileSizeStats {
    pub count_duplicated: u32,
    pub count_unique: u32,
    pub compressed_lowest: u32,
    pub compressed_highest: u32,
    pub compressed_avg: u32,
    pub uncompressed_lowest: u32,
    pub uncompressed_highest: u32,
    pub uncompressed_avg: u32,
}

/// The entries of all archives, archive after archive.
pub open spec fn all_entries(ipfs: Seq<IPFRoot>) -> Seq<IPFFileTableView>
    decreases ipfs.len(),
{
    if ipfs.len() == 0 {
        Seq::empty()
    } else {
        all_entries(ipfs.drop_last()) + table_view(ipfs.last().file_table@)
    }
}

pub open spec fn compressed_sizes(s: Seq<IPFFileTableView>) -> Seq<u32> {
    s.map_values(|e: IPFFileTableView| e.file_size_compressed)
}

pub open spec fn uncompressed_sizes(s: Seq<IPFFileTableView>) -> Seq<u32> {
    s.map_values(|e: IPFFileTableView| e.file_size_uncompressed)
}

pub open spec fn seq_sum(s: Seq<u32>) -> int
    decreases s.len(),
{
    if s.len() == 0 { 0 } else { seq_sum(s.drop_last()) + s.last() }
}

/// The least element, or `u32::MAX` for an empty sequence.
pub open spec fn seq_min(s: Seq<u32>) -> u32
    decreases s.len(),
{
    if s.len() == 0 {
        u32::MAX
    } else {
        let m = seq_min(s.drop_last());
        if s.last() < m { s.last() } else { m }
    }
}

/// The greatest element, or 0 for an empty sequence.
pub open spec fn seq_max(s: Seq<u32>) -> u32
    decreases s.len(),
{
    if s.len() == 0 {
        0
    } else {
        let m = seq_max(s.drop_last());
        if s.last() > m { s.last() } else { m }
    }
}

/// Count, least, greatest and mean (rounded down) of the compressed and
/// uncompressed sizes of `entries`; all zero when there are none.
/// `count_unique` is left at zero.
pub open spec fn spec_stats(entries: Seq<IPFFileTableView>) -> FileSizeStats {
    let n = entries.len();
    if n == 0 {
        FileSizeStats {
            count_duplicated: 0,
            count_unique: 0,
            compressed_lowest: 0,
            compressed_highest: 0,
            compressed_avg: 0,
            uncompressed_lowest: 0,
            uncompressed_highest: 0,
            uncompressed_avg: 0,
        }
    } else {
        FileSizeStats {
            count_duplicated: n as u32,
            count_unique: 0,
            compressed_lowest: seq_min(compressed_sizes(entries)),
            compressed_highest: seq_max(compressed_sizes(entries)),
            compressed_avg: (seq_sum(compressed_sizes(entries)) / (n as int)) as u32,
            uncompressed_lowest: seq_min(uncompressed_sizes(entries)),
            uncompressed_highest: seq_max(uncompressed_sizes(entries)),
            uncompressed_avg: (seq_sum(uncompressed_sizes(entries)) / (n as int)) as u32,
        }
    }
}

proof fn lemma_sum_bound(s: Seq<u32>)
    ensures
        0 <= seq_sum(s) <= s.len() * (u32::MAX as int),
    decreases s.len(),
{
    if s.len() > 0 {
        lemma_sum_bound(s.drop_last());
    }
}

proof fn lemma_all_entries_push(ipfs: Seq<IPFRoot>, i: int)
    requires
        0 <= i < ipfs.len(),
    ensures
        all_entries(ipfs.take(i + 1)) == all_entries(ipfs.take(i)) + table_view(ipfs[i].file_table@),
{
    assert(ipfs.take(i + 1).drop_last() =~= ipfs.take(i));
}

proof fn lemma_prefix_len(ipfs: Seq<IPFRoot>, k: int)
    requires
        0 <= k <= ipfs.len(),
    ensures
        all_entries(ipfs.take(k)).len() <= all_entries(ipfs).len(),
    decreases ipfs.len() - k,
{
    if k < ipfs.len() {
        lemma_all_entries_push(ipfs, k);
        lemma_prefix_len(ipfs, k + 1);
    } else {
        assert(ipfs.take(k) =~= ipfs);
    }
}

/// Size statistics over every entry of every archive in `ipfs`.
pub fn compute_ipf_file_stats(ipfs: &[IPFRoot]) -> (r: FileSizeStats)
    requires
        all_entries(ipfs@).len() <= u32::MAX,
    ensures
        r == spec_stats(all_entries(ipfs@)),
{
    let mut count_duplicated: u32 = 0;
    let mut compressed_sum: u64 = 0;
    let mut uncompressed_sum: u64 = 0;
    let mut compressed_lowest: u32 = u32::MAX;
    let mut compressed_highest: u32 = 0;
    let mut uncompressed_lowest: u32 = u32::MAX;
    let mut uncompressed_highest: u32 = 0;
    let ghost total = all_entries(ipfs@);
    let mut i: usize = 0;
    proof {
        assert(ipfs@.take(0) =~= Seq::<IPFRoot>::empty());
    }
    while i < ipfs.len()
        invariant
            i <= ipfs@.len(),
            total == all_entries(ipfs@),
            total.len() <= u32::MAX,
            ({
                let done = all_entries(ipfs@.take(i as int));
                &&& done.len() == count_duplicated
                &&& compressed_sum == seq_sum(compressed_sizes(done))
                &&& uncompressed_sum == seq_sum(uncompressed_sizes(done))
                &&& compressed_lowest == seq_min(compressed_sizes(done))
                &&& compressed_highest == seq_max(compressed_sizes(done))
                &&& uncompressed_lowest == seq_min(uncompressed_sizes(done))
                &&& uncompressed_highest == seq_max(uncompressed_sizes(done))
                &&& done.len() <= total.len()
            }),
        decreases ipfs@.len() - i,
    {
        let table = &ipfs[i].file_table;
        let ghost before = all_entries(ipfs@.take(i as int));
        proof {
            lemma_all_entries_push(ipfs@, i as int);
            lemma_prefix_len(ipfs@, i + 1);
        }
        let mut j: usize = 0;
        while j < table.len()
            invariant
                j <= table@.len(),
                ({
                    let done = before + table_view(table@).take(j as int);
                    &&& done.len() == count_duplicated
                    &&& compressed_sum == seq_sum(compressed_sizes(done))
                    &&& uncompressed_sum == seq_sum(uncompressed_sizes(done))
                    &&& compressed_lowest == seq_min(compressed_sizes(done))
                    &&& compressed_highest == seq_max(compressed_sizes(done))
                    &&& uncompressed_lowest == seq_min(uncompressed_sizes(done))
                    &&& uncompressed_highest == seq_max(uncompressed_sizes(done))
                    &&& done.len() <= total.len()
                }),
                before.len() + table@.len() <= total.len(),
                total.len() <= u32::MAX,
            decreases table@.len() - j,
        {
            let ghost done = before + table_view(table@).take(j as int);
            let ghost next = before + table_view(table@).take(j + 1);
            let f = &table[j];
            proof {
                assert(next =~= done.push(f@));
                assert(compressed_sizes(next).drop_last() =~= compressed_sizes(done));
                assert(uncompressed_sizes(next).drop_last() =~= uncompressed_sizes(done));
                lemma_sum_bound(compressed_sizes(done));
                lemma_sum_bound(uncompressed_sizes(done));
            }
            count_duplicated = count_duplicated + 1;
            compressed_sum = compressed_sum + f.file_size_compressed as u64;
            uncompressed_sum = uncompressed_sum + f.file_size_uncompressed as u64;
            if f.file_size_compressed < compressed_lowest {
                compressed_lowest = f.file_size_compressed;
            }
            if f.file_size_compressed > compressed_highest {
                compressed_highest = f.file_size_compressed;
            }
            if f.file_size_uncompressed < uncompressed_lowest {
                uncompressed_lowest = f.file_size_uncompressed;
            }
            if f.file_size_uncompressed > uncompressed_highest {
                uncompressed_highest = f.file_size_uncompressed;
            }
            j = j + 1;
        }
        proof {
            assert(table_view(table@).take(j as int) =~= table_view(table@));
        }
        i = i + 1;
    }
    proof {
        assert(ipfs@.take(i as int) =~= ipfs@);
    }
    if count_duplicated == 0 {
        return FileSizeStats {
            count_duplicated: 0,
            count_unique: 0,
            compressed_lowest: 0,
            compressed_highest: 0,
            compressed_avg: 0,
            uncompressed_lowest: 0,
            uncompressed_highest: 0,
            uncompressed_avg: 0,
        };
    }
    proof {
        lemma_sum_bound(compressed_sizes(total));
        lemma_sum_bound(uncompressed_sizes(total));
        assert(seq_sum(compressed_sizes(total)) / (total.len() as int) <= u32::MAX) by (nonlinear_arith)
            requires seq_sum(compressed_sizes(total)) <= total.len() * (u32::MAX as int), total.len() > 0;
        assert(seq_sum(uncompressed_sizes(total)) / (total.len() as int) <= u32::MAX) by (nonlinear_arith)
            requires seq_sum(uncompressed_sizes(total)) <= total.len() * (u32::MAX as int), total.len() > 0;
    }
    FileSizeStats {
        count_duplicated,
        count_unique: 0,
        compressed_lowest,
        compressed_highest,
        compressed_avg: (compressed_sum / count_duplicated as u64) as u32,
        uncompressed_lowest,
        uncompressed_highest,
        uncompressed_avg: (uncompressed_sum / count_duplicated as u64) as u32,
    }
}

// ---------------------------------------------------------------- grouping

/// An entry with no name and no content, left behind where an entry is
/// moved out of a list.
pub(crate) fn vacant_entry() -> (r: IPFFileTable)
    ensures
        r@ == (IPFFileTableView {
            directory_name_length: 0,
            crc32: 0,
            file_size_compressed: 0,
            file_size_uncompressed: 0,
            file_pointer: 0,
            container_name_length: 0,
            container_name: Seq::empty(),
            directory_name: Seq::empty(),
            file_path: None,
        }),
{
    IPFFileTable {
        directory_name_length: 0,
        crc32: 0,
        file_size_compressed: 0,
        file_size_uncompressed: 0,
        file_pointer: 0,
        container_name_length: 0,
        container_name: String::new(),
        directory_name: String::new(),
        file_path: None,
    }
}

/// The entries grouped by their directory name: one group per name, names
/// ascending, each group holding the entries of that name in their order.
pub fn group_file_tables_by_directory(file_tables: Vec<IPFFileTable>) -> (r: Vec<(String, Vec<IPFFileTable>)>)
    ensures
        names_sorted(entry_names(r@)),
        forall|i: int| 0 <= i < r@.len() ==> table_view((#[trigger] r@[i]).1@) == named(table_view(file_tables@), r@[i].0@),
        forall|i: int| 0 <= i < r@.len() ==> (#[trigger] r@[i]).1@.len() > 0,
        forall|j: int| 0 <= j < file_tables@.len() ==> (#[trigger] index_of_name(entry_names(r@), file_tables@[j].directory_name@)) is Some,
{
    let ghost input = table_view(file_tables@);
    let mut file_tables = file_tables;
    let n = file_tables.len();
    let mut keys: Vec<Vec<char>> = Vec::new();
    let mut j: usize = 0;
    while j < n
        invariant
            n == file_tables@.len(),
            j <= n,
            keys@.len() == j,
            forall|k: int| 0 <= k < j ==> (#[trigger] keys@[k])@ == file_tables@[k].directory_name@,
        decreases n - j,
    {
        keys.push(chars_of(file_tables[j].directory_name.as_str()));
        j = j + 1;
    }
    let order = stable_order(&keys);
    // the distinct names, ascending
    let mut groups: Vec<(String, Vec<IPFFileTable>)> = Vec::new();
    let mut a: usize = 0;
    while a < n
        invariant
            n == file_tables@.len(),
            n == keys@.len(),
            crate::sort::is_stable_order(keys@, order@),
            a <= n,
            names_sorted(entry_names(groups@)),
            forall|g: int| 0 <= g < groups@.len() ==> (#[trigger] groups@[g]).1@.len() == 0,
            a > 0 ==> groups@.len() > 0 && groups@.last().0@ == keys@[order@[a - 1] as int]@,
            a == 0 ==> groups@.len() == 0,
            forall|b: int| 0 <= b < a ==> (#[trigger] index_of_name(entry_names(groups@), keys@[order@[b] as int]@)) is Some,
            forall|g: int| #![trigger groups@[g]] 0 <= g < groups@.len() ==> exists|b: int| 0 <= b < a && #[trigger] keys@[order@[b] as int]@ == groups@[g].0@,
        decreases n - a,
    {
        let k = &keys[order[a]];
        let is_new = if a == 0 {
            true
        } else {
            let last = chars_of(groups[groups.len() - 1].0.as_str());
            crate::order::order_chars(last.as_slice(), k.as_slice()) != 0
        };
        let ghost old_groups = groups@;
        if is_new {
            let name = string_from_chars(k.as_slice());
            proof {
                let names = entry_names(groups@);
                if a > 0 {
                    let p = order@[a - 1] as int;
                    let q = order@[a as int] as int;
                    assert(rank_lt(keys@, p, q));
                    lemma_str_lt_total(keys@[p]@, keys@[q]@);
                    assert(str_lt(names.last(), k@));
                    assert forall|g: int| 0 <= g < names.len() implies str_lt(#[trigger] names[g], k@) by {
                        if g < names.len() - 1 {
                            lemma_str_lt_transitive(names[g], names.last(), k@);
                        }
                    }
                }
            }
            groups.push((name, Vec::new()));
            proof {
                let names = entry_names(groups@);
                assert(names =~= entry_names(old_groups).push(k@));
                assert forall|i: int, m: int| 0 <= i < m < names.len() implies str_lt(#[trigger] names[i], #[trigger] names[m]) by {
                    if m == names.len() - 1 {
                        assert(names[i] == entry_names(old_groups)[i]);
                    } else {
                        assert(names[i] == entry_names(old_groups)[i]);
                        assert(names[m] == entry_names(old_groups)[m]);
                    }
                }
                assert forall|b: int| 0 <= b < a + 1 implies (#[trigger] index_of_name(entry_names(groups@), keys@[order@[b] as int]@)) is Some by {
                    if b == a {
                        assert(name_at(names, keys@[order@[b] as int]@, names.len() - 1));
                    } else {
                        let key = keys@[order@[b] as int]@;
                        assert(index_of_name(entry_names(old_groups), key) is Some);
                        let g = choose|g: int| name_at(entry_names(old_groups), key, g);
                        assert(name_at(names, key, g));
                    }
                }
                assert forall|g: int| #![trigger groups@[g]] 0 <= g < groups@.len() implies exists|b: int| 0 <= b < a + 1 && #[trigger] keys@[order@[b] as int]@ == groups@[g].0@ by {
                    if g == groups@.len() - 1 {
                        assert(keys@[order@[a as int] as int]@ == groups@[g].0@);
                    } else {
                        assert(groups@[g] == old_groups[g]);
                    }
                }
            }
        } else {
            proof {
                assert forall|b: int| 0 <= b < a + 1 implies (#[trigger] index_of_name(entry_names(groups@), keys@[order@[b] as int]@)) is Some by {
                    if b == a {
                        assert(name_at(entry_names(groups@), keys@[order@[b] as int]@, groups@.len() - 1));
                    }
                }
            }
        }
        a = a + 1;
    }
    proof {
        assert forall|j: int| 0 <= j < n implies (#[trigger] index_of_name(entry_names(groups@), keys@[j]@)) is Some by {
            assert(occurs(order@, j));
            let b = choose|b: int| 0 <= b < order@.len() && order@[b] == j;
            assert(index_of_name(entry_names(groups@), keys@[order@[b] as int]@) is Some);
        }
        assert(input.take(0) =~= Seq::<IPFFileTableView>::empty());
    }
    // fill the groups, entry by entry
    let ghost orig = file_tables@;
    let mut j: usize = 0;
    while j < n
        invariant
            n == file_tables@.len(),
            n == keys@.len(),
            n == orig.len(),
            input == table_view(orig),
            j <= n,
            forall|k: int| 0 <= k < n ==> (#[trigger] keys@[k])@ == orig[k].directory_name@,
            forall|k: int| j <= k < n ==> #[trigger] file_tables@[k] == orig[k],
            names_sorted(entry_names(groups@)),
            forall|k: int| 0 <= k < n ==> (#[trigger] index_of_name(entry_names(groups@), keys@[k]@)) is Some,
            forall|g: int| 0 <= g < groups@.len() ==> table_view((#[trigger] groups@[g]).1@) == named(input.take(j as int), groups@[g].0@),
            forall|g: int| #![trigger groups@[g]] 0 <= g < groups@.len() ==> exists|k: int| 0 <= k < n && #[trigger] orig[k].directory_name@ == groups@[g].0@,
        decreases n - j,
    {
        let mut file = vacant_entry();
        file_tables.set_and_swap(j, &mut file);
        let (g, found) = locate(&groups, keys[j].as_slice());
        proof {
            assert(index_of_name(entry_names(groups@), keys@[j as int]@) is Some);
            let i0 = choose|i: int| name_at(entry_names(groups@), keys@[j as int]@, i);
            if !found {
                assert(str_lt(entry_names(groups@)[i0], keys@[j as int]@) || str_lt(keys@[j as int]@, entry_names(groups@)[i0]));
                lemma_str_lt_irreflexive(keys@[j as int]@);
            }
        }
        let ghost before = groups@;
        let mut entry = (String::new(), Vec::new());
        groups.set_and_swap(g, &mut entry);
        entry.1.push(file);
        groups.set_and_swap(g, &mut entry);
        proof {
            let t = input.take(j + 1);
            assert(t.drop_last() =~= input.take(j as int));
            assert(t.last() == orig[j as int]@);
            assert(entry_names(groups@) =~= entry_names(before));
            assert forall|h: int| 0 <= h < groups@.len() implies table_view((#[trigger] groups@[h]).1@) == named(input.take(j + 1), groups@[h].0@) by {
                if h == g {
                    assert(table_view(groups@[h].1@) =~= table_view(before[h].1@).push(orig[j as int]@));
                } else {
                    assert(groups@[h] == before[h]);
                    lemma_str_lt_irreflexive(groups@[h].0@);
                    assert(groups@[h].0@ != orig[j as int].directory_name@) by {
                        if h < g {
                            assert(str_lt(entry_names(before)[h], entry_names(before)[g as int]));
                        } else {
                            assert(str_lt(entry_names(before)[g as int], entry_names(before)[h]));
                        }
                    }
                }
            }
            assert forall|h: int| #![trigger groups@[h]] 0 <= h < groups@.len() implies exists|k: int| 0 <= k < n && #[trigger] orig[k].directory_name@ == groups@[h].0@ by {
                assert(groups@[h].0@ == before[h].0@);
            }
        }
        j = j + 1;
    }
    proof {
        assert(input.take(n as int) =~= input);
        assert forall|g: int| 0 <= g < groups@.len() implies (#[trigger] groups@[g]).1@.len() > 0 by {
            let k = choose|k: int| 0 <= k < n && #[trigger] orig[k].directory_name@ == groups@[g].0@;
            lemma_named_holds(input, groups@[g].0@, k);
        }
        assert forall|j: int| 0 <= j < file_tables@.len() implies (#[trigger] index_of_name(entry_names(groups@), orig[j].directory_name@)) is Some by {
            assert(index_of_name(entry_names(groups@), keys@[j]@) is Some);
        }
    }
    groups
}

/// A file named `name` is kept by `named`.
proof fn lemma_named_holds(files: Seq<IPFFileTableView>, name: Seq<char>, k: int)
    requires
        0 <= k < files.len(),
        files[k].directory_name == name,
    ensures
        named(files, name).len() > 0,
    decreases files.len(),
{
    if k < files.len() - 1 {
        lemma_named_holds(files.drop_last(), name, k);
    }
}

// ---------------------------------------------------------------- sorting

/// The key by which entries of the archive at path `p` are sorted: the
/// components of the path's parent, then its file name.
pub open spec fn entry_folder_key(p: Seq<char>) -> (Seq<(u8, Seq<char>)>, Seq<char>) {
    (path_components(path_parent(p)->0), path_file_name(p)->0)
}

/// An entry whose archive path has a parent and a file name, so that it can
/// be sorted.
pub open spec fn sortable_entry(e: IPFFileTableView) -> bool {
    &&& e.file_path is Some
    &&& path_parent(e.file_path->0) is Some
    &&& path_file_name(e.file_path->0) is Some
}

/// The sort keys of `t`'s entries.
pub open spec fn folder_keys(t: Seq<IPFFileTableView>) -> Seq<(Seq<(u8, Seq<char>)>, Seq<char>)> {
    Seq::new(t.len(), |i: int| entry_folder_key(t[i].file_path->0))
}

/// Entry `i` goes before entry `j` when sorting stably by `keys`.
pub open spec fn folder_rank_lt(keys: Seq<(Seq<(u8, Seq<char>)>, Seq<char>)>, i: int, j: int) -> bool {
    folder_key_lt(keys[i], keys[j]) || (!folder_key_lt(keys[j], keys[i]) && i < j)
}

/// `s` is the order of a stable sort by `keys`: every index once, in
/// stable order.
pub open spec fn is_folder_order(keys: Seq<(Seq<(u8, Seq<char>)>, Seq<char>)>, s: Seq<usize>) -> bool {
    &&& s.len() == keys.len()
    &&& forall|a: int| 0 <= a < s.len() ==> (#[trigger] s[a]) < keys.len()
    &&& forall|v: int| 0 <= v < keys.len() ==> #[trigger] occurs(s, v)
    &&& forall|a: int, b: int| 0 <= a < b < s.len() ==> folder_rank_lt(keys, #[trigger] s[a] as int, #[trigger] s[b] as int)
}

/// The sort key of an entry, computed.
fn folder_key_of(e: &IPFFileTable) -> (k: FolderFileKey)
    requires
        sortable_entry(e@),
    ensures
        folder_key_view(k) == entry_folder_key(e@.file_path->0),
{
    let p = match &e.file_path {
        Some(p) => p,
        None => {
            assert(false);
            return FolderFileKey { parent: Vec::new(), name: Vec::new() };
        },
    };
    let parent = match parent_of(p.as_str()) {
        Some(q) => q,
        None => {
            assert(false);
            return FolderFileKey { parent: Vec::new(), name: Vec::new() };
        },
    };
    let name = match file_name_of(p.as_str()) {
        Some(n) => n,
        None => {
            assert(false);
            return FolderFileKey { parent: Vec::new(), name: Vec::new() };
        },
    };
    FolderFileKey { parent: components_of(parent.as_str()), name: chars_of(name.as_str()) }
}

/// Sorts the entries stably by the folder of their archive path, then by
/// the archive's file name.
pub fn sort_file_tables_by_folder_then_name(file_tables: &mut Vec<IPFFileTable>)
    requires
        old(file_tables)@.len() <= 1 || forall|i: int| 0 <= i < old(file_tables)@.len() ==> sortable_entry(#[trigger] old(file_tables)@[i]@),
    ensures
        old(file_tables)@.len() <= 1 ==> final(file_tables)@ == old(file_tables)@,
        old(file_tables)@.len() > 1 ==> exists|s: Seq<usize>| is_folder_order(folder_keys(table_view(old(file_tables)@)), s)
            && table_view(final(file_tables)@) == Seq::new(s.len(), |a: int| table_view(old(file_tables)@)[s[a] as int]),
{
    let n = file_tables.len();
    if n <= 1 {
        return;
    }
    let ghost orig = file_tables@;
    let ghost kv = folder_keys(table_view(orig));
    let mut keys: Vec<FolderFileKey> = Vec::new();
    let mut i: usize = 0;
    while i < n
        invariant
            n == file_tables@.len(),
            file_tables@ == orig,
            n > 1,
            forall|k: int| 0 <= k < n ==> sortable_entry(#[trigger] orig[k]@),
            kv == folder_keys(table_view(orig)),
            i <= n,
            keys@.len() == i,
            forall|k: int| 0 <= k < i ==> folder_key_view(#[trigger] keys@[k]) == kv[k],
        decreases n - i,
    {
        keys.push(folder_key_of(&file_tables[i]));
        i = i + 1;
    }
    let order = stable_order(&keys);
    proof {
        assert forall|a: int, b: int| 0 <= a < b < order@.len() implies folder_rank_lt(kv, #[trigger] order@[a] as int, #[trigger] order@[b] as int) by {
            assert(rank_lt(keys@, order@[a] as int, order@[b] as int));
        }
        assert(is_folder_order(kv, order@));
    }
    let mut out: Vec<IPFFileTable> = Vec::new();
    let mut a: usize = 0;
    while a < n
        invariant
            n == file_tables@.len(),
            n == orig.len(),
            n == keys@.len(),
            is_stable_order(keys@, order@),
            a <= n,
            out@.len() == a,
            forall|x: int| 0 <= x < a ==> (#[trigger] out@[x])@ == orig[order@[x] as int]@,
            forall|v: int| 0 <= v < n ==> (forall|x: int| 0 <= x < a ==> #[trigger] order@[x] != v) ==> #[trigger] file_tables@[v] == orig[v],
        decreases n - a,
    {
        let v = order[a];
        proof {
            assert forall|x: int| 0 <= x < a implies #[trigger] order@[x] != v by {
                assert(rank_lt(keys@, order@[x] as int, order@[a as int] as int));
                lemma_rank_irreflexive(keys@, v as int);
            }
        }
        let mut e = vacant_entry();
        file_tables.set_and_swap(v, &mut e);
        out.push(e);
        a = a + 1;
    }
    *file_tables = out;
    proof {
        assert(table_view(file_tables@) =~= Seq::new(order@.len(), |a: int| table_view(orig)[order@[a] as int]));
    }
}

/// Reads every archive of the game, given as its path and bytes, in the
/// order given (the caller lists those of the `data` folder before those of
/// `patch`); fails with the error of the first archive that cannot be read.
pub fn parse_game_ipfs(archives: &Vec<(String, Vec<u8>)>) -> (r: Result<Vec<IPFRoot>, IpfError>)
    ensures
        match spec_parse_all(archives_view(archives@)) {
            Ok(xs) => r matches Ok(roots) && roots_view(roots@) == xs,
            Err(e) => r matches Err(e2) && e2 == e,
        },
{
    let ghost av = archives_view(archives@);
    let mut roots: Vec<IPFRoot> = Vec::new();
    let mut i: usize = 0;
    proof {
        assert(av.take(0) =~= Seq::<(Seq<char>, Seq<u8>)>::empty());
        assert(roots_view(roots@) =~= Seq::<(IPFHeader, Seq<IPFFileTableView>)>::empty());
    }
    while i < archives.len()
        invariant
            av == archives_view(archives@),
            i <= archives@.len(),
            spec_parse_all(av.take(i as int)) == Ok::<Seq<(IPFHeader, Seq<IPFFileTableView>)>, IpfError>(roots_view(roots@)),
        decreases archives@.len() - i,
    {
        proof {
            let t = av.take(i + 1);
            assert(t.drop_last() =~= av.take(i as int));
            assert(t.last() == (archives@[i as int].0@, archives@[i as int].1@));
        }
        let root = IPFRoot::from_archive(archives[i].1.as_slice(), archives[i].0.as_str());
        match root {
            Ok(root) => {
                proof {
                    assert(roots_view(roots@.push(root)) =~= roots_view(roots@).push((root.header, table_view(root.file_table@))));
                }
                roots.push(root);
            },
            Err(e) => {
                proof {
                    lemma_parse_all_fails(av, i as int);
                }
                return Err(e);
            },
        }
        i = i + 1;
    }
    proof {
        assert(av.take(i as int) =~= av);
    }
    Ok(roots)
}

/// The first archive that fails decides the outcome of reading them all.
proof fn lemma_parse_all_fails(a: Seq<(Seq<char>, Seq<u8>)>, i: int)
    requires
        0 <= i < a.len(),
        spec_parse_all(a.take(i)) is Ok,
        spec_from_archive(a[i].1, a[i].0) is Err,
    ensures
        spec_parse_all(a) == Err::<Seq<(IPFHeader, Seq<IPFFileTableView>)>, IpfError>(spec_from_archive(a[i].1, a[i].0)->Err_0),
    decreases a.len(),
{
    if i == a.len() - 1 {
        assert(a.drop_last() =~= a.take(i));
    } else {
        assert(a.drop_last().take(i) =~= a.take(i));
        lemma_parse_all_fails(a.drop_last(), i);
    }
}


// ------------------------------------------------------------------ hex view

/// Bytes shown on each line of a hex view.
pub const BYTES_PER_LINE: usize = 16;

/// `n` in decimal, with zeros in front to make at least eight digits.
pub open spec fn offset_text(n: nat) -> Seq<char> {
    let d = nat_digits(n);
    if d.len() < 8 {
        Seq::new((8 - d.len()) as nat, |i: int| '0') + d
    } else {
        d
    }
}

/// The uppercase hexadecimal digit of `d`, for `d` below 16.
pub open spec fn hex_digit(d: int) -> char {
    if d == 0 { '0' } else if d == 1 { '1' } else if d == 2 { '2' } else if d == 3 { '3' }
    else if d == 4 { '4' } else if d == 5 { '5' } else if d == 6 { '6' } else if d == 7 { '7' }
    else if d == 8 { '8' } else if d == 9 { '9' } else if d == 10 { 'A' } else if d == 11 { 'B' }
    else if d == 12 { 'C' } else if d == 13 { 'D' } else if d == 14 { 'E' } else { 'F' }
}

/// How a byte shows in the text column: itself if it is a printable ASCII
/// character or a space, else '.'.
pub open spec fn shown_char(b: u8) -> char {
    if (0x21 <= b && b <= 0x7e) || b == 0x20 { b as char } else { '.' }
}

/// Each byte of `chunk` as two uppercase hex digits and a space.
pub open spec fn hex_cells(chunk: Seq<u8>) -> Seq<char>
    decreases chunk.len(),
{
    if chunk.len() == 0 {
        Seq::empty()
    } else {
        hex_cells(chunk.drop_last()) + seq![hex_digit((chunk.last() / 16) as int), hex_digit((chunk.last() % 16) as int), ' ']
    }
}

/// `n` spaces.
pub open spec fn spaces(n: nat) -> Seq<char> {
    Seq::new(n, |i: int| ' ')
}

/// One line of a hex view: the offset, two spaces, the hex cells, spaces
/// for the cells a short last line lacks, a space and the text column.
pub open spec fn hex_line(chunk: Seq<u8>, offset: nat) -> Seq<char> {
    offset_text(offset) + seq![' ', ' '] + hex_cells(chunk) + spaces((3 * (16 - chunk.len())) as nat) + seq![' ']
        + Seq::new(chunk.len(), |i: int| shown_char(chunk[i]))
}

/// The lines of the hex view of `data`: one per 16 bytes, the last one
/// shorter where fewer are left.
pub open spec fn hex_view(data: Seq<u8>) -> Seq<Seq<char>> {
    Seq::new(((data.len() + 15) / 16) as nat, |i: int|
        hex_line(data.subrange(16 * i, if 16 * i + 16 <= data.len() { 16 * i + 16 } else { data.len() as int }), (16 * i) as nat))
}

fn hex_digit_char(d: u8) -> (c: char)
    requires
        d < 16,
    ensures
        c == hex_digit(d as int),
{
    if d == 0 { '0' } else if d == 1 { '1' } else if d == 2 { '2' } else if d == 3 { '3' }
    else if d == 4 { '4' } else if d == 5 { '5' } else if d == 6 { '6' } else if d == 7 { '7' }
    else if d == 8 { '8' } else if d == 9 { '9' } else if d == 10 { 'A' } else if d == 11 { 'B' }
    else if d == 12 { 'C' } else if d == 13 { 'D' } else if d == 14 { 'E' } else { 'F' }
}

/// The line for the bytes `data[start..end]`.
fn hex_line_of(data: &[u8], start: usize, end: usize) -> (r: String)
    requires
        start <= end <= data@.len(),
        end - start <= 16,
    ensures
        r@ == hex_line(data@.subrange(start as int, end as int), start as nat),
{
    let ghost chunk = data@.subrange(start as int, end as int);
    let mut out: Vec<char> = Vec::new();
    let mut digits: Vec<char> = Vec::new();
    push_digits(start as u64, &mut digits);
    proof {
        assert(digits@ =~= nat_digits(start as nat));
    }
    if digits.len() < 8 {
        let mut z: usize = 0;
        let pad = 8 - digits.len();
        while z < pad
            invariant
                z <= pad,
                out@ =~= Seq::new(z as nat, |i: int| '0'),
            decreases pad - z,
        {
            out.push('0');
            z = z + 1;
        }
    }
    let mut k: usize = 0;
    let ghost base = out@;
    while k < digits.len()
        invariant
            k <= digits@.len(),
            out@ =~= base + digits@.take(k as int),
        decreases digits@.len() - k,
    {
        out.push(digits[k]);
        k = k + 1;
    }
    proof {
        assert(digits@.take(digits@.len() as int) =~= digits@);
        assert(out@ =~= offset_text(start as nat));
    }
    out.push(' ');
    out.push(' ');
    let ghost head = out@;
    let mut i: usize = start;
    proof {
        assert(chunk.subrange(0, 0) =~= Seq::<u8>::empty());
    }
    while i < end
        invariant
            start <= i <= end,
            end <= data@.len(),
            chunk == data@.subrange(start as int, end as int),
            out@ =~= head + hex_cells(chunk.subrange(0, i - start)),
        decreases end - i,
    {
        let b = data[i];
        out.push(hex_digit_char(b / 16));
        out.push(hex_digit_char(b % 16));
        out.push(' ');
        proof {
            let t = chunk.subrange(0, i + 1 - start);
            assert(t.drop_last() =~= chunk.subrange(0, i - start));
            assert(t.last() == b);
        }
        i = i + 1;
    }
    proof {
        assert(chunk.subrange(0, end - start) =~= chunk);
    }
    let ghost cells = out@;
    let pad = 3 * (16 - (end - start));
    let mut z: usize = 0;
    while z < pad
        invariant
            z <= pad,
            out@ =~= cells + spaces(z as nat),
        decreases pad - z,
    {
        out.push(' ');
        z = z + 1;
    }
    out.push(' ');
    let ghost before_text = out@;
    let mut j: usize = start;
    while j < end
        invariant
            start <= j <= end,
            end <= data@.len(),
            chunk == data@.subrange(start as int, end as int),
            out@ =~= before_text + Seq::new((j - start) as nat, |x: int| shown_char(chunk[x])),
        decreases end - j,
    {
        let b = data[j];
        let c = if (0x21 <= b && b <= 0x7e) || b == 0x20 { b as char } else { '.' };
        out.push(c);
        j = j + 1;
    }
    proof {
        assert(out@ =~= hex_line(chunk, start as nat));
    }
    string_from_chars(out.as_slice())
}

/// The lines of the hex view of `data` (see `hex_view`), which
/// `print_hex_viewer` prints one by one.
pub fn hex_viewer_lines(data: &[u8]) -> (r: Vec<String>)
    ensures
        texts(r@) == hex_view(data@),
{
    let mut r: Vec<String> = Vec::new();
    let mut start: usize = 0;
    let n = data.len();
    while start < n
        invariant
            n == data@.len(),
            start <= n,
            start == 16 * r@.len() || (start == n && r@.len() == (n + 15) / 16),
            forall|i: int| 0 <= i < r@.len() ==> (#[trigger] r@[i])@ == hex_view(data@)[i],
        decreases n - start,
    {
        let end = if n - start >= 16 { start + 16 } else { n };
        let line = hex_line_of(data, start, end);
        let ghost idx = r@.len() as int;
        r.push(line);
        proof {
            assert(16 * idx == start);
            assert((data@.len() + 15) / 16 > idx);
        }
        start = end;
    }
    proof {
        assert(r@.len() == (n + 15) / 16);
        assert(texts(r@) =~= hex_view(data@));
    }
    r
}

} // verus!
