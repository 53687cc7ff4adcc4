//! What the archive viewer's web interface answers: the start-up summary,
//! folder listings, search results with their links, the choice of file
//! version, and how a file is previewed.

use vstd::prelude::*;
use crate::category::{Folder, folder_wf, shallow_dirs, is_child, names_sorted, texts};
use crate::ipf::{FileSizeStats, IPFFileTable, after_last_dot};
use crate::order::{str_lt, order_chars, lemma_str_lt_total, lemma_str_lt_transitive, lemma_str_lt_irreflexive};
use crate::sort::{stable_order, is_stable_order, rank_lt, occurs};
use crate::text::{chars_of, string_from_chars, to_lowercase, lowercase, decimal_u64, nat_digits, matches_at};
use crate::ies::pairs_map;
use crate::category::{entry_names, index_of_name, name_at, locate};

verus! {

// ------------------------------------------------------------------ summary

/// The start-up summary: the game folder, how many duplicate entries each
/// list holds, and the archive statistics.
pub struct InfoResponse {
    pub game_root: String,
    pub duplicates_xac: usize,
    pub duplicates_xsm: usize,
    pub duplicates_xsmtime: usize,
    pub duplicates_xpm: usize,
    pub duplicates_dds: usize,
    pub count_duplicated: u32,
    pub count_unique: u32,
    pub compressed_lowest: u32,
    pub compressed_highest: u32,
    pub compressed_avg: u32,
    pub uncompressed_lowest: u32,
    pub uncompressed_highest: u32,
    pub uncompressed_avg: u32,
}

/// The duplicate lists of each kind of file: each duplicate's path mapped
/// to the path of the file it duplicates, sorted by duplicate path, each
/// path once.
pub struct Duplicates {
    pub xac: Vec<(String, String)>,
    pub xsm: Vec<(String, String)>,
    pub xsmtime: Vec<(String, String)>,
    pub xpm: Vec<(String, String)>,
    pub dds: Vec<(String, String)>,
}

impl InfoResponse {
    /// The summary of the game folder `game_root`, its duplicate lists and
    /// its archive statistics.
    pub fn new(game_root: String, duplicates: &Duplicates, file_stats: &FileSizeStats) -> (r: InfoResponse)
        ensures
            r.game_root@ == game_root@,
            r.duplicates_xac == duplicates.xac@.len(),
            r.duplicates_xsm == duplicates.xsm@.len(),
            r.duplicates_xsmtime == duplicates.xsmtime@.len(),
            r.duplicates_xpm == duplicates.xpm@.len(),
            r.duplicates_dds == duplicates.dds@.len(),
            r.count_duplicated == file_stats.count_duplicated,
            r.count_unique == file_stats.count_unique,
            r.compressed_lowest == file_stats.compressed_lowest,
            r.compressed_highest == file_stats.compressed_highest,
            r.compressed_avg == file_stats.compressed_avg,
            r.uncompressed_lowest == file_stats.uncompressed_lowest,
            r.uncompressed_highest == file_stats.uncompressed_highest,
            r.uncompressed_avg == file_stats.uncompressed_avg,
    {
        InfoResponse {
            game_root,
            duplicates_xac: duplicates.xac.len(),
            duplicates_xsm: duplicates.xsm.len(),
            duplicates_xsmtime: duplicates.xsmtime.len(),
            duplicates_xpm: duplicates.xpm.len(),
            duplicates_dds: duplicates.dds.len(),
            count_duplicated: file_stats.count_duplicated,
            count_unique: file_stats.count_unique,
            compressed_lowest: file_stats.compressed_lowest,
            compressed_highest: file_stats.compressed_highest,
            compressed_avg: file_stats.compressed_avg,
            uncompressed_lowest: file_stats.uncompressed_lowest,
            uncompressed_highest: file_stats.uncompressed_highest,
            uncompressed_avg: file_stats.uncompressed_avg,
        }
    }
}

// ------------------------------------------------------------------ listing

/// The query of a folder listing.
pub struct ShallowSearchQuery {
    pub folder_name: String,
}

/// A folder listing: its subfolders and file names, each once.
pub struct ShallowSearchResponse {
    pub folder_name: String,
    pub subfolders: Vec<String>,
    pub files: Vec<String>,
}

/// `x` is one of the texts of `v`.
pub open spec fn holds_text(v: Seq<String>, x: Seq<char>) -> bool {
    exists|i: int| 0 <= i < v.len() && #[trigger] v[i]@ == x
}

/// The distinct texts of `v`, sorted.
pub fn distinct_sorted(v: &Vec<String>) -> (r: Vec<String>)
    ensures
        names_sorted(texts(r@)),
        forall|x: Seq<char>| #[trigger] holds_text(r@, x) <==> holds_text(v@, x),
{
    let n = v.len();
    let mut keys: Vec<Vec<char>> = Vec::new();
    let mut i: usize = 0;
    while i < n
        invariant
            n == v@.len(),
            i <= n,
            keys@.len() == i,
            forall|k: int| 0 <= k < i ==> (#[trigger] keys@[k])@ == v@[k]@,
        decreases n - i,
    {
        keys.push(chars_of(v[i].as_str()));
        i = i + 1;
    }
    let order = stable_order(&keys);
    let mut out: Vec<String> = Vec::new();
    let mut a: usize = 0;
    while a < n
        invariant
            n == v@.len(),
            n == keys@.len(),
            forall|k: int| 0 <= k < n ==> (#[trigger] keys@[k])@ == v@[k]@,
            is_stable_order(keys@, order@),
            a <= n,
            names_sorted(texts(out@)),
            a > 0 ==> out@.len() > 0 && out@.last()@ == keys@[order@[a - 1] as int]@,
            a == 0 ==> out@.len() == 0,
            forall|b: int| 0 <= b < a ==> #[trigger] holds_text(out@, keys@[order@[b] as int]@),
            forall|x: Seq<char>| #[trigger] holds_text(out@, x) ==> holds_text(v@, x),
        decreases n - a,
    {
        let k = &keys[order[a]];
        let is_new = if a == 0 {
            true
        } else {
            let last = chars_of(out[out.len() - 1].as_str());
            order_chars(last.as_slice(), k.as_slice()) != 0
        };
        let ghost old_out = out@;
        proof {
            assert(v@[order@[a as int] as int]@ == k@);
            assert(holds_text(v@, k@));
        }
        if is_new {
            let s = string_from_chars(k.as_slice());
            proof {
                let names = texts(out@);
                if a > 0 {
                    let p = order@[a - 1] as int;
                    let q = order@[a as int] as int;
                    assert(rank_lt(keys@, p, q));
                    lemma_str_lt_total(keys@[p]@, keys@[q]@);
                    assert forall|g: int| 0 <= g < names.len() implies str_lt(#[trigger] names[g], k@) by {
                        if g < names.len() - 1 {
                            assert(str_lt(names[g], names[names.len() - 1]));
                            lemma_str_lt_transitive(names[g], names[names.len() - 1], k@);
                        }
                    }
                }
            }
            out.push(s);
            proof {
                let names = texts(out@);
                assert(names =~= texts(old_out).push(k@));
                assert forall|i: int, m: int| 0 <= i < m < names.len() implies str_lt(#[trigger] names[i], #[trigger] names[m]) by {
                    assert(names[i] == texts(old_out)[i]);
                    if m < names.len() - 1 {
                        assert(names[m] == texts(old_out)[m]);
                    }
                }
                assert forall|b: int| 0 <= b < a + 1 implies #[trigger] holds_text(out@, keys@[order@[b] as int]@) by {
                    if b == a {
                        assert(out@[out@.len() - 1]@ == k@);
                    } else {
                        assert(holds_text(old_out, keys@[order@[b] as int]@));
                        let i0 = choose|i: int| 0 <= i < old_out.len() && #[trigger] old_out[i]@ == keys@[order@[b] as int]@;
                        assert(out@[i0] == old_out[i0]);
                    }
                }
                assert forall|x: Seq<char>| #[trigger] holds_text(out@, x) implies holds_text(v@, x) by {
                    let i0 = choose|i: int| 0 <= i < out@.len() && #[trigger] out@[i]@ == x;
                    if i0 < old_out.len() {
                        assert(old_out[i0] == out@[i0]);
                        assert(holds_text(old_out, x));
                    }
                }
            }
        } else {
            proof {
                assert(out@[out@.len() - 1]@ == k@);
            }
        }
        a = a + 1;
    }
    proof {
        assert forall|x: Seq<char>| holds_text(v@, x) implies #[trigger] holds_text(out@, x) by {
            let j = choose|j: int| 0 <= j < v@.len() && #[trigger] v@[j]@ == x;
            assert(occurs(order@, j));
            let b = choose|b: int| 0 <= b < order@.len() && order@[b] == j;
            assert(holds_text(out@, keys@[order@[b] as int]@));
        }
    }
    out
}

/// The listing of the folder that `query` names, each name once and
/// sorted, or `None` where there is no such folder.
pub fn folder_shallow(tree: &Folder, query: &ShallowSearchQuery) -> (r: Option<ShallowSearchResponse>)
    requires
        folder_wf(*tree),
    ensures
        r is Some <==> tree@.contains_key(shallow_dirs(query.folder_name@)),
        r matches Some(res) ==> {
            &&& res.folder_name@ == query.folder_name@
            &&& names_sorted(texts(res.subfolders@))
            &&& names_sorted(texts(res.files@))
            &&& forall|c: Seq<char>| #[trigger] holds_text(res.subfolders@, c)
                <==> is_child(tree@, shallow_dirs(query.folder_name@), c)
            &&& forall|x: Seq<char>| #[trigger] holds_text(res.files@, x)
                <==> exists|i: int| 0 <= i < tree@[shallow_dirs(query.folder_name@)].len()
                    && #[trigger] tree@[shallow_dirs(query.folder_name@)][i].directory_name == x
        },
{
    match tree.search_folder_shallow(query.folder_name.as_str()) {
        Some((subfolders, files)) => {
            let ghost dirs = shallow_dirs(query.folder_name@);
            let s = distinct_sorted(&subfolders);
            let f = distinct_sorted(&files);
            proof {
                assert forall|c: Seq<char>| #[trigger] holds_text(s@, c) <==> is_child(tree@, dirs, c) by {
                    if is_child(tree@, dirs, c) {
                        let i = choose|i: int| 0 <= i < subfolders@.len() && #[trigger] subfolders@[i]@ == c;
                        assert(holds_text(subfolders@, c));
                    }
                    if holds_text(subfolders@, c) {
                        let i = choose|i: int| 0 <= i < subfolders@.len() && #[trigger] subfolders@[i]@ == c;
                        assert(exists|i: int| 0 <= i < subfolders@.len() && #[trigger] subfolders@[i]@ == c);
                    }
                }
                assert forall|x: Seq<char>| #[trigger] holds_text(f@, x)
                    <==> exists|i: int| 0 <= i < tree@[dirs].len() && #[trigger] tree@[dirs][i].directory_name == x by {
                    if holds_text(files@, x) {
                        let i = choose|i: int| 0 <= i < files@.len() && #[trigger] files@[i]@ == x;
                        assert(tree@[dirs][i].directory_name == x);
                    }
                    if exists|i: int| 0 <= i < tree@[dirs].len() && #[trigger] tree@[dirs][i].directory_name == x {
                        let i = choose|i: int| 0 <= i < tree@[dirs].len() && #[trigger] tree@[dirs][i].directory_name == x;
                        assert(files@[i]@ == x);
                        assert(holds_text(files@, x));
                    }
                }
            }
            Some(ShallowSearchResponse { folder_name: query.folder_name.clone(), subfolders: s, files: f })
        },
        None => None,
    }
}

// ------------------------------------------------------------------ searches

/// The query of a search by file name.
pub struct FileSearchQuery {
    pub file_name: String,
}

/// A search hit: its index in the results (its version), its path, and the
/// links that download and parse it.
pub struct FileSearchItemVersioned<'a> {
    pub version: usize,
    pub file_path: &'a str,
    pub download_url: String,
    pub parse_url: String,
}

/// The answer to a search by file name.
pub struct RecursiveSearchResponseVersioned<'a> {
    pub file_name: &'a str,
    pub found_files: Vec<FileSearchItemVersioned<'a>>,
}

/// The query of a search by full path.
pub struct FileFullPathQuery {
    pub full_path: String,
}

/// A version of a file found by full path, with its place in its archive.
pub struct FileFullPathInfo<'a> {
    pub version: usize,
    pub file_path: String,
    pub container_name: &'a str,
    pub crc32: u32,
    pub file_size_compressed: u32,
    pub file_size_uncompressed: u32,
    pub file_pointer: u32,
    pub download_url: String,
    pub parse_url: String,
}

/// The query of a download or parse: a full path and a version, 0 when
/// none is given.
pub struct FileDownloadQuery {
    pub path: String,
    pub version: Option<usize>,
}

/// The query of a preview: a full path and a version, 0 when none is
/// given.
pub struct FilePreviewQuery {
    pub path: String,
    pub version: Option<usize>,
}

/// The link `base` + "?path=" + `path` + "&version=" + the version.
pub open spec fn link(base: Seq<char>, path: Seq<char>, version: nat) -> Seq<char> {
    base + "?path="@ + path + "&version="@ + nat_digits(version)
}

/// The download link of a version of a file.
pub open spec fn download_link(path: Seq<char>, version: nat) -> Seq<char> {
    link("/api/file/download"@, path, version)
}

/// The parse link of a version of a file.
pub open spec fn parse_link(path: Seq<char>, version: nat) -> Seq<char> {
    link("/api/file/parse"@, path, version)
}

fn make_link(base: &str, path: &str, version: usize) -> (r: String)
    ensures
        r@ == link(base@, path@, version as nat),
{
    let mut r = String::from_str(base);
    r.append("?path=");
    r.append(path);
    r.append("&version=");
    let v = decimal_u64(version as u64);
    r.append(v.as_str());
    r
}

/// The items of a search by file name: each hit with its index as version
/// and its links.
pub fn versioned_items<'a>(results: &'a Vec<(String, &'a IPFFileTable)>) -> (r: Vec<FileSearchItemVersioned<'a>>)
    ensures
        r@.len() == results@.len(),
        forall|i: int| 0 <= i < r@.len() ==> {
            &&& (#[trigger] r@[i]).version == i
            &&& r@[i].file_path@ == results@[i].0@
            &&& r@[i].download_url@ == download_link(results@[i].0@, i as nat)
            &&& r@[i].parse_url@ == parse_link(results@[i].0@, i as nat)
        },
{
    let mut items: Vec<FileSearchItemVersioned<'a>> = Vec::new();
    let mut i: usize = 0;
    while i < results.len()
        invariant
            i <= results@.len(),
            items@.len() == i,
            forall|k: int| 0 <= k < i ==> {
                &&& (#[trigger] items@[k]).version == k
                &&& items@[k].file_path@ == results@[k].0@
                &&& items@[k].download_url@ == download_link(results@[k].0@, k as nat)
                &&& items@[k].parse_url@ == parse_link(results@[k].0@, k as nat)
            },
        decreases results@.len() - i,
    {
        let full_path: &'a str = results[i].0.as_str();
        let download_url = make_link("/api/file/download", full_path, i);
        let parse_url = make_link("/api/file/parse", full_path, i);
        items.push(FileSearchItemVersioned { version: i, file_path: full_path, download_url, parse_url });
        i = i + 1;
    }
    items
}

/// The answer to a search by file name, given the hits.
pub fn recursive_search_response<'a>(file_name: &'a str, results: &'a Vec<(String, &'a IPFFileTable)>) -> (r: RecursiveSearchResponseVersioned<'a>)
    ensures
        r.file_name@ == file_name@,
        r.found_files@.len() == results@.len(),
        forall|i: int| 0 <= i < r.found_files@.len() ==> {
            &&& (#[trigger] r.found_files@[i]).version == i
            &&& r.found_files@[i].file_path@ == results@[i].0@
            &&& r.found_files@[i].download_url@ == download_link(results@[i].0@, i as nat)
            &&& r.found_files@[i].parse_url@ == parse_link(results@[i].0@, i as nat)
        },
{
    RecursiveSearchResponseVersioned { file_name, found_files: versioned_items(results) }
}

/// The versions of a file found by the full path `full_path`, each with
/// its archive path ("" where none is recorded), its place in its archive
/// and its links.
pub fn full_path_infos<'a>(full_path: &str, results: &'a Vec<(String, &'a IPFFileTable)>) -> (r: Vec<FileFullPathInfo<'a>>)
    ensures
        r@.len() == results@.len(),
        forall|i: int| 0 <= i < r@.len() ==> {
            let e = results@[i].1;
            &&& (#[trigger] r@[i]).version == i
            &&& r@[i].file_path@ == (match e.file_path {
                Some(p) => p@,
                None => Seq::empty(),
            })
            &&& r@[i].container_name@ == e.container_name@
            &&& r@[i].crc32 == e.crc32
            &&& r@[i].file_size_compressed == e.file_size_compressed
            &&& r@[i].file_size_uncompressed == e.file_size_uncompressed
            &&& r@[i].file_pointer == e.file_pointer
            &&& r@[i].download_url@ == download_link(full_path@, i as nat)
            &&& r@[i].parse_url@ == parse_link(full_path@, i as nat)
        },
{
    let mut items: Vec<FileFullPathInfo<'a>> = Vec::new();
    let mut i: usize = 0;
    while i < results.len()
        invariant
            i <= results@.len(),
            items@.len() == i,
            forall|k: int| 0 <= k < i ==> {
                let e = results@[k].1;
                &&& (#[trigger] items@[k]).version == k
                &&& items@[k].file_path@ == (match e.file_path {
                    Some(p) => p@,
                    None => Seq::empty(),
                })
                &&& items@[k].container_name@ == e.container_name@
                &&& items@[k].crc32 == e.crc32
                &&& items@[k].file_size_compressed == e.file_size_compressed
                &&& items@[k].file_size_uncompressed == e.file_size_uncompressed
                &&& items@[k].file_pointer == e.file_pointer
                &&& items@[k].download_url@ == download_link(full_path@, k as nat)
                &&& items@[k].parse_url@ == parse_link(full_path@, k as nat)
            },
        decreases results@.len() - i,
    {
        let e: &'a IPFFileTable = results[i].1;
        let file_path = match &e.file_path {
            Some(p) => p.clone(),
            None => String::new(),
        };
        let download_url = make_link("/api/file/download", full_path, i);
        let parse_url = make_link("/api/file/parse", full_path, i);
        items.push(FileFullPathInfo {
            version: i,
            file_path,
            container_name: e.container_name.as_str(),
            crc32: e.crc32,
            file_size_compressed: e.file_size_compressed,
            file_size_uncompressed: e.file_size_uncompressed,
            file_pointer: e.file_pointer,
            download_url,
            parse_url,
        });
        i = i + 1;
    }
    items
}

/// The hit of the asked version, 0 when none is asked, if there is one.
pub fn select_version<'a, 'b>(results: &'b Vec<(String, &'a IPFFileTable)>, version: Option<usize>) -> (r: Option<&'b (String, &'a IPFFileTable)>)
    ensures
        ({
            let v = match version {
                Some(x) => x as int,
                None => 0,
            };
            match r {
                Some(x) => 0 <= v < results@.len() && *x == results@[v],
                None => v >= results@.len(),
            }
        }),
{
    let v = match version {
        Some(x) => x,
        None => 0,
    };
    if v < results.len() {
        Some(&results[v])
    } else {
        None
    }
}

// ------------------------------------------------------------------ preview

/// An image format told by its first bytes.
#[derive(Copy, Clone, PartialEq, Eq, Structural, Debug)]
pub enum ImageFormat {
    Png,
    Jpeg,
    Bmp,
    Dds,
    Unknown,
}

/// How a file is shown.
#[derive(Copy, Clone, PartialEq, Eq, Structural, Debug)]
pub enum PreviewKind {
    /// A TGA image, converted to PNG.
    Tga,
    /// Another image, sent as it is.
    Image(ImageFormat),
    Audio,
    Font,
    /// An IES table, sent as read.
    Ies,
    /// An XAC model, sent as a scene.
    Xac,
    /// Text, decoded with replacement.
    Text,
    Binary,
}

/// The format that the first bytes of `d` show.
pub open spec fn image_format_of(d: Seq<u8>) -> ImageFormat {
    if d.len() >= 8 && d.subrange(0, 8) == seq![0x89u8, 0x50, 0x4E, 0x47, 0x0D, 0x0A, 0x1A, 0x0A] {
        ImageFormat::Png
    } else if d.len() >= 3 && d.subrange(0, 3) == seq![0xFFu8, 0xD8, 0xFF] {
        ImageFormat::Jpeg
    } else if d.len() >= 2 && d.subrange(0, 2) == seq![0x42u8, 0x4D] {
        ImageFormat::Bmp
    } else if d.len() > 4 && d.subrange(0, 4) == seq![0x44u8, 0x44, 0x53, 0x20] {
        ImageFormat::Dds
    } else {
        ImageFormat::Unknown
    }
}

fn starts_with(d: &[u8], p: &[u8]) -> (r: bool)
    ensures
        r == (d@.len() >= p@.len() && d@.subrange(0, p@.len() as int) == p@),
{
    if d.len() < p.len() {
        return false;
    }
    let mut i: usize = 0;
    while i < p.len()
        invariant
            p@.len() <= d@.len(),
            i <= p@.len(),
            forall|k: int| 0 <= k < i ==> d@[k] == p@[k],
        decreases p@.len() - i,
    {
        if d[i] != p[i] {
            assert(d@.subrange(0, p@.len() as int)[i as int] != p@[i as int]);
            return false;
        }
        i = i + 1;
    }
    assert(d@.subrange(0, p@.len() as int) =~= p@);
    true
}

/// The format of an image by its first bytes.
pub fn image_format(data: &[u8]) -> (r: ImageFormat)
    ensures
        r == image_format_of(data@),
{
    let png: [u8; 8] = [0x89u8, 0x50, 0x4E, 0x47, 0x0D, 0x0A, 0x1A, 0x0A];
    let jpeg: [u8; 3] = [0xFFu8, 0xD8, 0xFF];
    let bmp: [u8; 2] = [0x42u8, 0x4D];
    let dds: [u8; 4] = [0x44u8, 0x44, 0x53, 0x20];
    proof {
        assert(png@ =~= seq![0x89u8, 0x50, 0x4E, 0x47, 0x0D, 0x0A, 0x1A, 0x0A]);
        assert(jpeg@ =~= seq![0xFFu8, 0xD8, 0xFF]);
        assert(bmp@ =~= seq![0x42u8, 0x4D]);
        assert(dds@ =~= seq![0x44u8, 0x44, 0x53, 0x20]);
    }
    if starts_with(data, png.as_slice()) {
        ImageFormat::Png
    } else if starts_with(data, jpeg.as_slice()) {
        ImageFormat::Jpeg
    } else if starts_with(data, bmp.as_slice()) {
        ImageFormat::Bmp
    } else if data.len() > 4 && starts_with(data, dds.as_slice()) {
        ImageFormat::Dds
    } else {
        ImageFormat::Unknown
    }
}

impl ImageFormat {
    /// The MIME type under which an image of this format is sent.
    pub fn mime_type(&self) -> (r: &'static str)
        ensures
            *self == ImageFormat::Png ==> r@ == "image/png"@,
            *self == ImageFormat::Jpeg ==> r@ == "image/jpeg"@,
            *self == ImageFormat::Bmp ==> r@ == "image/bmp"@,
            *self == ImageFormat::Dds ==> r@ == "image/dds"@,
            *self == ImageFormat::Unknown ==> r@ == "application/octet-stream"@,
    {
        match self {
            ImageFormat::Png => "image/png",
            ImageFormat::Jpeg => "image/jpeg",
            ImageFormat::Bmp => "image/bmp",
            ImageFormat::Dds => "image/dds",
            ImageFormat::Unknown => "application/octet-stream",
        }
    }
}

/// The extensions of the images that are previewed.
pub open spec fn is_image_ext(e: Seq<char>) -> bool {
    e == "tga"@ || e == "png"@ || e == "jpg"@ || e == "jpeg"@ || e == "bmp"@ || e == "dds"@
}

/// The extensions of the files that are previewed as text.
pub open spec fn is_text_ext(e: Seq<char>) -> bool {
    e == "xml"@ || e == "skn"@ || e == "3dprop"@ || e == "3dworld"@ || e == "3drender"@ || e == "3deffect"@
        || e == "x"@ || e == "fx"@ || e == "fxh"@ || e == "sani"@ || e == "effect"@ || e == "json"@
        || e == "atlas"@ || e == "sprbin"@ || e == "xsd"@ || e == "lua"@ || e == "lst"@ || e == "export"@
}

/// How the file at `path` with content `data` is shown: by the lowercased
/// text after the path's last '.', images further by their first bytes.
pub open spec fn preview_kind_of(path: Seq<char>, data: Seq<u8>) -> PreviewKind {
    let e = lowercase(after_last_dot(path));
    if is_image_ext(e) {
        if e == "tga"@ {
            PreviewKind::Tga
        } else {
            PreviewKind::Image(image_format_of(data))
        }
    } else if e == "mp3"@ {
        PreviewKind::Audio
    } else if e == "ttf"@ {
        PreviewKind::Font
    } else if e == "ies"@ {
        PreviewKind::Ies
    } else if e == "xac"@ {
        PreviewKind::Xac
    } else if is_text_ext(e) {
        PreviewKind::Text
    } else {
        PreviewKind::Binary
    }
}

pub(crate) fn text_eq(a: &str, b: &str) -> (r: bool)
    ensures
        r == (a@ == b@),
{
    let x = chars_of(a);
    let y = chars_of(b);
    order_chars(x.as_slice(), y.as_slice()) == 0
}

/// The characters after the last '.' of `s`, or all of `s`.
fn extension_of(s: &str) -> (r: String)
    ensures
        r@ == after_last_dot(s@),
{
    let chars = chars_of(s);
    let n = chars.len();
    let mut start = n;
    assert(chars@.subrange(n as int, n as int) =~= Seq::<char>::empty());
    assert(chars@.subrange(0, n as int) =~= chars@);
    assert(after_last_dot(chars@) =~= after_last_dot(chars@) + chars@.subrange(n as int, n as int));
    while start > 0 && chars[start - 1] != '.'
        invariant
            start <= n,
            n == chars@.len(),
            chars@ == s@,
            after_last_dot(chars@) == after_last_dot(chars@.subrange(0, start as int)) + chars@.subrange(start as int, n as int),
        decreases start,
    {
        proof {
            let pre = chars@.subrange(0, start as int);
            assert(pre.drop_last() =~= chars@.subrange(0, start - 1));
            assert(chars@.subrange(start - 1, n as int) =~= seq![pre.last()] + chars@.subrange(start as int, n as int));
            assert(after_last_dot(pre.drop_last()).push(pre.last()) + chars@.subrange(start as int, n as int)
                =~= after_last_dot(pre.drop_last()) + chars@.subrange(start - 1, n as int));
        }
        start = start - 1;
    }
    proof {
        let pre = chars@.subrange(0, start as int);
        assert(after_last_dot(pre) =~= Seq::<char>::empty());
    }
    let ext = &chars.as_slice()[start..n];
    assert(ext@ =~= chars@.subrange(start as int, n as int));
    string_from_chars(ext)
}

/// How the file at `full_path` with content `data` is shown.
pub fn preview_kind(full_path: &str, data: &[u8]) -> (r: PreviewKind)
    ensures
        r == preview_kind_of(full_path@, data@),
{
    let ext = extension_of(full_path);
    let e = to_lowercase(ext.as_str());
    let es = e.as_str();
    let image = text_eq(es, "tga") || text_eq(es, "png") || text_eq(es, "jpg") || text_eq(es, "jpeg")
        || text_eq(es, "bmp") || text_eq(es, "dds");
    if image {
        if text_eq(es, "tga") {
            return PreviewKind::Tga;
        }
        return PreviewKind::Image(image_format(data));
    }
    if text_eq(es, "mp3") {
        return PreviewKind::Audio;
    }
    if text_eq(es, "ttf") {
        return PreviewKind::Font;
    }
    if text_eq(es, "ies") {
        return PreviewKind::Ies;
    }
    if text_eq(es, "xac") {
        return PreviewKind::Xac;
    }
    let text = text_eq(es, "xml") || text_eq(es, "skn") || text_eq(es, "3dprop") || text_eq(es, "3dworld")
        || text_eq(es, "3drender") || text_eq(es, "3deffect") || text_eq(es, "x") || text_eq(es, "fx")
        || text_eq(es, "fxh") || text_eq(es, "sani") || text_eq(es, "effect") || text_eq(es, "json")
        || text_eq(es, "atlas") || text_eq(es, "sprbin") || text_eq(es, "xsd") || text_eq(es, "lua")
        || text_eq(es, "lst") || text_eq(es, "export");
    if text {
        PreviewKind::Text
    } else {
        PreviewKind::Binary
    }
}

/// `s` with every occurrence of `pat` (taken left to right, not
/// overlapping) replaced by `rep` (`str::replace`), for a non-empty `pat`.
pub open spec fn replace_all(s: Seq<char>, pat: Seq<char>, rep: Seq<char>) -> Seq<char>
    decreases s.len(),
{
    if s.len() == 0 || pat.len() == 0 {
        s
    } else if s.len() >= pat.len() && s.take(pat.len() as int) == pat {
        rep + replace_all(s.skip(pat.len() as int), pat, rep)
    } else {
        seq![s[0]] + replace_all(s.drop_first(), pat, rep)
    }
}

/// Index of the last '/' in `s`, or -1.
pub open spec fn last_slash(s: Seq<char>) -> int
    decreases s.len(),
{
    if s.len() == 0 {
        -1
    } else if s.last() == '/' {
        s.len() - 1
    } else {
        last_slash(s.drop_last())
    }
}

/// The folder in which to look for an XAC model's textures when the mesh
/// table has no entry for it: its path with "char_hi" replaced by
/// "char_texture", cut at the last '/', ending with a '/'.
pub open spec fn texture_fallback(path: Seq<char>) -> Seq<char> {
    let p = replace_all(path, "char_hi"@, "char_texture"@);
    let cut = if last_slash(p) >= 0 { p.take(last_slash(p)) } else { p };
    if cut.len() > 0 && cut.last() == '/' {
        cut
    } else {
        cut.push('/')
    }
}

/// `s` with every `pat` replaced by `rep`.
fn replace_chars(s: &[char], pat: &[char], rep: &[char]) -> (r: Vec<char>)
    requires
        pat@.len() > 0,
    ensures
        r@ == replace_all(s@, pat@, rep@),
{
    let n = s.len();
    let m = pat.len();
    let mut out: Vec<char> = Vec::new();
    let mut i: usize = 0;
    proof {
        assert(s@.skip(0) =~= s@);
        assert(Seq::<char>::empty() + replace_all(s@, pat@, rep@) =~= replace_all(s@, pat@, rep@));
    }
    while i < n
        invariant
            n == s@.len(),
            m == pat@.len(),
            m > 0,
            i <= n,
            out@ + replace_all(s@.skip(i as int), pat@, rep@) == replace_all(s@, pat@, rep@),
        decreases n - i,
    {
        let ghost t = s@.skip(i as int);
        if n - i >= m && matches_at(s, pat, i) {
            proof {
                assert(t.take(m as int) =~= s@.subrange(i as int, i + m));
                assert(t.skip(m as int) =~= s@.skip(i + m));
                assert(out@ + (rep@ + replace_all(s@.skip(i + m), pat@, rep@)) =~= (out@ + rep@) + replace_all(s@.skip(i + m), pat@, rep@));
            }
            let mut k: usize = 0;
            let ghost before = out@;
            while k < rep.len()
                invariant
                    k <= rep@.len(),
                    out@ == before + rep@.take(k as int),
                decreases rep@.len() - k,
            {
                out.push(rep[k]);
                k = k + 1;
                assert(out@ =~= before + rep@.take(k as int));
            }
            assert(rep@.take(k as int) =~= rep@);
            i = i + m;
        } else {
            proof {
                if t.len() >= m {
                    assert(t.take(m as int) =~= s@.subrange(i as int, i + m));
                }
                assert(t[0] == s@[i as int]);
                assert(t.drop_first() =~= s@.skip(i + 1));
                assert(out@ + (seq![s@[i as int]] + replace_all(s@.skip(i + 1), pat@, rep@)) =~= out@.push(s@[i as int]) + replace_all(s@.skip(i + 1), pat@, rep@));
            }
            out.push(s[i]);
            i = i + 1;
        }
    }
    proof {
        assert(s@.skip(n as int) =~= Seq::<char>::empty());
        assert(out@ + Seq::<char>::empty() =~= out@);
    }
    out
}

/// The folder in which to look for an XAC model's textures when the mesh
/// table has no entry for it.
pub fn xac_texture_fallback(full_path: &str) -> (r: String)
    ensures
        r@ == texture_fallback(full_path@),
{
    let path = chars_of(full_path);
    let pat = chars_of("char_hi");
    let rep = chars_of("char_texture");
    proof {
        reveal_strlit("char_hi");
    }
    let mut p = replace_chars(path.as_slice(), pat.as_slice(), rep.as_slice());
    let ghost replaced = p@;
    let mut j = p.len();
    proof {
        assert(replaced.take(j as int) =~= replaced);
    }
    while j > 0 && p[j - 1] != '/'
        invariant
            j <= p@.len(),
            p@ == replaced,
            last_slash(replaced) == last_slash(replaced.take(j as int)),
        decreases j,
    {
        assert(replaced.take(j as int).drop_last() =~= replaced.take(j - 1));
        j = j - 1;
    }
    if j > 0 {
        assert(replaced.take(j as int).last() == '/');
        p.truncate(j - 1);
        assert(p@ =~= replaced.take(j - 1));
    }
    let ghost cut = p@;
    if p.len() == 0 || p[p.len() - 1] != '/' {
        p.push('/');
    }
    string_from_chars(p.as_slice())
}

/// Where the textures of an XAC model are: the path that the mesh table
/// gives for the model's path, or the fallback folder.
pub open spec fn texture_path_of(mesh_map: Map<Seq<char>, Seq<char>>, full_path: Seq<char>) -> Seq<char> {
    if mesh_map.contains_key(full_path) {
        mesh_map[full_path]
    } else {
        texture_fallback(full_path)
    }
}

/// Where the textures of the XAC model at `full_path` are, by the mesh
/// table `mesh_map` (sorted, each name once).
pub fn xac_texture_path(mesh_map: &Vec<(String, String)>, full_path: &str) -> (r: String)
    requires
        names_sorted(entry_names(mesh_map@)),
    ensures
        r@ == texture_path_of(pairs_map(mesh_map@), full_path@),
{
    let key = chars_of(full_path);
    let (k, found) = locate(mesh_map, key.as_slice());
    if found {
        proof {
            crate::category::lemma_index_of_name_pub(entry_names(mesh_map@), full_path@, k as int);
        }
        mesh_map[k].1.clone()
    } else {
        proof {
            if index_of_name(entry_names(mesh_map@), full_path@) is Some {
                let j = choose|j: int| name_at(entry_names(mesh_map@), full_path@, j);
                assert(name_at(entry_names(mesh_map@), full_path@, j));
                lemma_str_lt_irreflexive(full_path@);
                assert(str_lt(entry_names(mesh_map@)[j], full_path@) || str_lt(full_path@, entry_names(mesh_map@)[j]));
            }
        }
        xac_texture_fallback(full_path)
    }
}

} // verus!
