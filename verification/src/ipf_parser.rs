//! An older reader of IPF archives: the footer at the end of the archive,
//! then the table of files that it points to, names read one byte per
//! character.

use vstd::prelude::*;
use crate::bytes::{le16, le32};
use crate::decode::{fits, take_u16, take_u32};
use crate::paths::{file_name_of, path_file_name};
use crate::text::{string_from_chars, lowercase, ends_with, lower_ends_with};

verus! {

/// The characters of `b`, one per byte, each the character with the byte's
/// value.
pub open spec fn latin1(b: Seq<u8>) -> Seq<char> {
    b.map_values(|x: u8| x as char)
}

/// The `length` bytes at `p` as text, one character per byte.
fn ipf_read_string(b: &[u8], p: usize, length: u16) -> (r: Option<(String, usize)>)
    ensures
        r is Some <==> fits(b@, p as int, length as int),
        r is Some ==> (r->0).0@ == latin1(b@.subrange(p as int, p + length)) && (r->0).1 == p
            + length,
{
    if p > b.len() || b.len() - p < length as usize {
        return None;
    }
    let mut text: Vec<char> = Vec::new();
    let mut i: usize = 0;
    while i < length as usize
        invariant
            p + length <= b@.len(),
            b@.len() <= usize::MAX,
            i <= length,
            text@ =~= latin1(b@.subrange(p as int, p + i)),
        decreases length - i,
    {
        let character = b[p + i];
        text.push(character as char);
        i = i + 1;
        assert(text@ =~= latin1(b@.subrange(p as int, p + i)));
    }
    Some((string_from_chars(text.as_slice()), p + length as usize))
}

/// The footer: versions, the number of files, where the file table and the
/// footer start, and the four magic bytes.
pub struct IPFFooter {
    pub version_to_patch: u32,
    pub new_version: u32,
    pub file_count: u16,
    pub file_table_pointer: u32,
    pub footer_pointer: u32,
    pub magic: Vec<u8>,
}

/// An entry of the file table. `directory_name` is the stored path,
/// `filename` its last component; `content` is left empty.
pub struct IPFFileTable {
    pub idx: i32,
    pub filename_length: u16,
    pub container_name_length: u16,
    pub file_size_compressed: u32,
    pub file_size_uncompressed: u32,
    pub file_pointer: u32,
    pub crc32: u32,
    pub container_name: String,
    pub filename: String,
    pub directory_name: String,
    pub content: Vec<u8>,
}

/// An archive's footer and file table.
pub struct IpfFile {
    pub footer: IPFFooter,
    pub file_table: Vec<IPFFileTable>,
}

/// The magic bytes that close an archive ("PK", 5, 6).
pub open spec fn ipf_magic() -> Seq<u8> {
    seq![0x50u8, 0x4Bu8, 0x05u8, 0x06u8]
}

/// Why an archive cannot be read.
#[derive(Debug, Clone, Copy, PartialEq, Eq, Structural)]
pub enum IpfReadError {
    /// The archive is shorter than its footer.
    InvalidSeek,
    /// The file table ends before an entry does.
    UnexpectedEof,
}

/// Why an archive cannot be read, with the archives on which reading stops.
#[derive(Debug, Clone, Copy, PartialEq, Eq, Structural)]
pub enum IpfReadFault {
    InvalidSeek,
    UnexpectedEof,
    /// The footer's magic bytes are wrong.
    BadMagic,
    /// An entry's path has no last component.
    NoFileName,
}

/// Where the entry at `p` ends, if the data holds it: twenty fixed bytes,
/// the container name and the path.
pub open spec fn entry_end(b: Seq<u8>, p: int) -> Option<int> {
    let cl = le16(b, p + 18);
    let fl = le16(b, p);
    if fits(b, p, 20) && fits(b, p + 20, cl) && fits(b, p + 20 + cl, fl) {
        Some(p + 20 + cl + fl)
    } else {
        None
    }
}

/// The stored path of the entry at `p`.
pub open spec fn entry_path(b: Seq<u8>, p: int) -> Seq<char> {
    let cl = le16(b, p + 18);
    latin1(b.subrange(p + 20 + cl, p + 20 + cl + le16(b, p)))
}

/// How reading entries ends: with the entries' positions, on an entry that
/// the data does not hold, or on one whose path has no last component.
pub enum EntryRun {
    Done(Seq<int>),
    Eof,
    NoName,
}

/// Reading `k` entries from `p`.
pub open spec fn entries_from(b: Seq<u8>, p: int, k: nat) -> EntryRun
    decreases k,
{
    if k == 0 {
        EntryRun::Done(Seq::empty())
    } else {
        match entry_end(b, p) {
            None => EntryRun::Eof,
            Some(q) => if path_file_name(entry_path(b, p)) is None {
                EntryRun::NoName
            } else {
                match entries_from(b, q, (k - 1) as nat) {
                    EntryRun::Done(s) => EntryRun::Done(seq![p] + s),
                    other => other,
                }
            },
        }
    }
}

/// The run `r` after the entries at the positions of `s`.
pub open spec fn entries_after(s: Seq<int>, r: EntryRun) -> EntryRun {
    match r {
        EntryRun::Done(t) => EntryRun::Done(s + t),
        other => other,
    }
}

/// `t` is the entry with index `i` read at `p`.
pub open spec fn entry_at(b: Seq<u8>, p: int, i: int, t: IPFFileTable) -> bool {
    let cl = le16(b, p + 18);
    &&& t.idx == i
    &&& t.filename_length == le16(b, p)
    &&& t.crc32 == le32(b, p + 2)
    &&& t.file_size_compressed == le32(b, p + 6)
    &&& t.file_size_uncompressed == le32(b, p + 10)
    &&& t.file_pointer == le32(b, p + 14)
    &&& t.container_name_length == cl
    &&& t.container_name@ == latin1(b.subrange(p + 20, p + 20 + cl))
    &&& t.directory_name@ == entry_path(b, p)
    &&& path_file_name(entry_path(b, p)) == Some(t.filename@)
    &&& t.content@ == Seq::<u8>::empty()
}

fn read_entry(b: &[u8], p: usize, i: u16) -> (r: Result<(IPFFileTable, usize), IpfReadFault>)
    ensures
        match entry_end(b@, p as int) {
            None => r == Err::<(IPFFileTable, usize), IpfReadFault>(IpfReadFault::UnexpectedEof),
            Some(q) => if path_file_name(entry_path(b@, p as int)) is None {
                r == Err::<(IPFFileTable, usize), IpfReadFault>(IpfReadFault::NoFileName)
            } else {
                r matches Ok((t, q2)) && q2 == q && entry_at(b@, p as int, i as int, t)
            },
        },
{
    let eof = IpfReadFault::UnexpectedEof;
    let (filename_length, q) = take_u16(b, p).ok_or(eof)?;
    let (crc32, q) = take_u32(b, q).ok_or(eof)?;
    let (file_size_compressed, q) = take_u32(b, q).ok_or(eof)?;
    let (file_size_uncompressed, q) = take_u32(b, q).ok_or(eof)?;
    let (file_pointer, q) = take_u32(b, q).ok_or(eof)?;
    let (container_name_length, q) = take_u16(b, q).ok_or(eof)?;
    let (container_name, q) = ipf_read_string(b, q, container_name_length).ok_or(eof)?;
    let (directory_name, q) = ipf_read_string(b, q, filename_length).ok_or(eof)?;
    let filename = match file_name_of(directory_name.as_str()) {
        Some(n) => n,
        None => {
            return Err(IpfReadFault::NoFileName);
        },
    };
    Ok((IPFFileTable {
        idx: i as i32,
        filename_length,
        container_name_length,
        file_size_compressed,
        file_size_uncompressed,
        file_pointer,
        crc32,
        container_name,
        filename,
        directory_name,
        content: Vec::new(),
    }, q))
}

/// `f` is the footer that closes `b`.
pub open spec fn footer_at(b: Seq<u8>, f: IPFFooter) -> bool {
    let e = b.len() - 24;
    &&& f.file_count == le16(b, e)
    &&& f.file_table_pointer == le32(b, e + 2)
    &&& f.footer_pointer == le32(b, e + 8)
    &&& f.magic@ == b.subrange(e + 12, e + 16)
    &&& f.version_to_patch == le32(b, e + 16)
    &&& f.new_version == le32(b, e + 20)
}

/// `r` is the archive `b` holds, its entries at `starts`.
pub open spec fn ipf_file_at(b: Seq<u8>, starts: Seq<int>, r: IpfFile) -> bool {
    &&& footer_at(b, r.footer)
    &&& r.file_table@.len() == starts.len()
    &&& forall|i: int|
        0 <= i < starts.len() ==> entry_at(b, starts[i], i, #[trigger] r.file_table@[i])
}

/// Reading the archive `b`: the footer, then as many entries as it counts
/// from where it points.
pub open spec fn ipf_entries(b: Seq<u8>) -> EntryRun {
    entries_from(b, le32(b, b.len() - 22), le16(b, b.len() - 24) as nat)
}

/// The footer's magic bytes are right.
pub open spec fn ipf_magic_ok(b: Seq<u8>) -> bool {
    b.subrange(b.len() - 12, b.len() - 8) == ipf_magic()
}

/// The path names an archive: lowercased, it ends with ".ipf".
pub fn is_ipf_path(path: &str) -> (r: bool)
    ensures
        r == ends_with(lowercase(path@), seq!['.', 'i', 'p', 'f']),
{
    let ext = ".ipf";
    proof {
        reveal_strlit(".ipf");
        assert(ext@ =~= seq!['.', 'i', 'p', 'f']);
    }
    lower_ends_with(path, ext)
}

impl IpfFile {
    /// Reads an archive held in `b`, with the reader's outcomes on the
    /// archives on which it stops: wrong magic bytes, or an entry whose
    /// path has no last component.
    pub fn try_load_from_reader(b: &[u8]) -> (r: Result<IpfFile, IpfReadFault>)
        ensures
            b@.len() < 24 ==> r == Err::<IpfFile, IpfReadFault>(IpfReadFault::InvalidSeek),
            b@.len() >= 24 && !ipf_magic_ok(b@) ==> r == Err::<IpfFile, IpfReadFault>(
                IpfReadFault::BadMagic,
            ),
            b@.len() >= 24 && ipf_magic_ok(b@) ==> match ipf_entries(b@) {
                EntryRun::Done(starts) => r matches Ok(f) && ipf_file_at(b@, starts, f),
                EntryRun::Eof => r == Err::<IpfFile, IpfReadFault>(IpfReadFault::UnexpectedEof),
                EntryRun::NoName => r == Err::<IpfFile, IpfReadFault>(IpfReadFault::NoFileName),
            },
    {
        if b.len() < 24 {
            return Err(IpfReadFault::InvalidSeek);
        }
        let e = b.len() - 24;
        let file_count = crate::bytes::get_u16_le(b, e);
        let file_table_pointer = crate::bytes::get_u32_le(b, e + 2);
        let footer_pointer = crate::bytes::get_u32_le(b, e + 8);
        let magic = vec![b[e + 12], b[e + 13], b[e + 14], b[e + 15]];
        let version_to_patch = crate::bytes::get_u32_le(b, e + 16);
        let new_version = crate::bytes::get_u32_le(b, e + 20);
        assert(magic@ =~= b@.subrange(e + 12, e + 16));
        if !(magic[0] == 0x50 && magic[1] == 0x4B && magic[2] == 0x05 && magic[3] == 0x06) {
            assert(magic@ != ipf_magic());
            return Err(IpfReadFault::BadMagic);
        }
        assert(magic@ =~= ipf_magic());
        let footer = IPFFooter {
            version_to_patch,
            new_version,
            file_count,
            file_table_pointer,
            footer_pointer,
            magic,
        };
        let mut file_table: Vec<IPFFileTable> = Vec::new();
        let mut pos: usize = file_table_pointer as usize;
        let ghost p0 = file_table_pointer as int;
        let ghost mut starts: Seq<int> = Seq::empty();
        let mut i: u16 = 0;
        while i < file_count
            invariant
                i <= file_count,
                b@.len() >= 24,
                ipf_magic_ok(b@),
                file_count == le16(b@, b@.len() - 24),
                p0 == le32(b@, b@.len() - 22),
                ipf_entries(b@) == entries_after(starts, entries_from(b@, pos as int, (file_count - i) as nat)),
                starts.len() == i,
                file_table@.len() == i,
                forall|k: int|
                    0 <= k < i ==> entry_at(b@, starts[k], k, #[trigger] file_table@[k]),
            decreases file_count - i,
        {
            match read_entry(b, pos, i) {
                Ok((t, q)) => {
                    let ghost old_starts = starts;
                    let ghost rest = entries_from(b@, q as int, (file_count - i - 1) as nat);
                    proof {
                        starts = starts.push(pos as int);
                        match rest {
                            EntryRun::Done(t2) => {
                                assert(old_starts + (seq![pos as int] + t2) =~= starts + t2);
                            },
                            _ => {},
                        }
                    }
                    file_table.push(t);
                    assert forall|k: int| 0 <= k < i + 1 implies entry_at(
                        b@,
                        starts[k],
                        k,
                        #[trigger] file_table@[k],
                    ) by {
                        if k < i {
                            assert(starts[k] == old_starts[k]);
                        }
                    }
                    pos = q;
                    i = i + 1;
                },
                Err(f) => {
                    return Err(f);
                },
            }
        }
        assert(starts + Seq::<int>::empty() =~= starts);
        Ok(IpfFile { footer, file_table })
    }

    /// Reads an archive held in `b`: the footer from its last 24 bytes, then
    /// as many entries as it counts from where it points. Fails where the
    /// archive is shorter than its footer or the table ends before an entry
    /// does. On an archive on which reading stops (see
    /// `try_load_from_reader`) it is not to be called.
    pub fn load_from_reader(b: &[u8]) -> (r: Result<IpfFile, IpfReadError>)
        requires
            b@.len() >= 24 ==> ipf_magic_ok(b@) && !(ipf_entries(b@) is NoName),
        ensures
            b@.len() < 24 ==> r == Err::<IpfFile, IpfReadError>(IpfReadError::InvalidSeek),
            b@.len() >= 24 ==> match ipf_entries(b@) {
                EntryRun::Done(starts) => r matches Ok(f) && ipf_file_at(b@, starts, f),
                _ => r == Err::<IpfFile, IpfReadError>(IpfReadError::UnexpectedEof),
            },
    {
        match IpfFile::try_load_from_reader(b) {
            Ok(f) => Ok(f),
            Err(IpfReadFault::InvalidSeek) => Err(IpfReadError::InvalidSeek),
            Err(_) => Err(IpfReadError::UnexpectedEof),
        }
    }
}

} // verus!
