use std::io::Write;

use tosmole::category::build_tree;
use tosmole::ipf::{
    collect_file_tables_from_parsed, compute_ipf_file_stats, group_file_tables_by_directory,
    parse_game_ipfs, sort_file_tables_by_folder_then_name, IPFFileTable, IPFRoot, IpfError,
    CRC32_TABLE, MAGIC_NUMBER, PASSWORD,
};

fn archive(entries: &[(&str, &str, u32, u32)], new_version: u32) -> Vec<u8> {
    let mut b = Vec::new();
    for (container, dir, comp, uncomp) in entries {
        b.extend_from_slice(&(dir.len() as u16).to_le_bytes());
        b.extend_from_slice(&0x1234u32.to_le_bytes());
        b.extend_from_slice(&comp.to_le_bytes());
        b.extend_from_slice(&uncomp.to_le_bytes());
        b.extend_from_slice(&0u32.to_le_bytes());
        b.extend_from_slice(&(container.len() as u16).to_le_bytes());
        b.extend_from_slice(container.as_bytes());
        b.extend_from_slice(dir.as_bytes());
    }
    b.extend_from_slice(&(entries.len() as u16).to_le_bytes());
    b.extend_from_slice(&0u32.to_le_bytes());
    b.extend_from_slice(&0u16.to_le_bytes());
    b.extend_from_slice(&0u32.to_le_bytes());
    b.extend_from_slice(&MAGIC_NUMBER.to_le_bytes());
    b.extend_from_slice(&1u32.to_le_bytes());
    b.extend_from_slice(&new_version.to_le_bytes());
    b
}

fn crc(c: u32, b: u8) -> u32 {
    CRC32_TABLE[((c ^ b as u32) & 0xFF) as usize] ^ (c >> 8)
}

fn update(keys: &mut [u32; 3], b: u8) {
    keys[0] = crc(keys[0], b);
    keys[1] = 0x8088405u32.wrapping_mul((keys[0] as u8 as u32).wrapping_add(keys[1])).wrapping_add(1);
    keys[2] = crc(keys[2], (keys[1] >> 24) as u8);
}

fn encrypt(plain: &[u8]) -> Vec<u8> {
    let mut keys = [0x12345678u32, 0x23456789, 0x34567890];
    for &b in PASSWORD.iter() {
        update(&mut keys, b);
    }
    let mut out = plain.to_vec();
    let mut i = 0;
    while i < plain.len() {
        let v = (keys[2] & 0xFFFD) | 2;
        out[i] = plain[i] ^ ((v.wrapping_mul(v ^ 1)) >> 8) as u8;
        update(&mut keys, plain[i]);
        i += 2;
    }
    out
}

fn deflate(data: &[u8]) -> Vec<u8> {
    let mut e = flate2::write::DeflateEncoder::new(Vec::new(), flate2::Compression::default());
    e.write_all(data).unwrap();
    e.finish().unwrap()
}

fn sample() -> Vec<u8> {
    archive(
        &[
            ("data.ipf", "ui/brush/x.tga", 10, 40),
            ("data.ipf", "ui/y.xml", 30, 20),
            ("data.ipf", "ui/brush/x.tga", 5, 60),
        ],
        11001,
    )
}

#[test]
fn reads_header_and_file_table() {
    let root = IPFRoot::from_bytes(&sample()).unwrap();
    assert_eq!(root.header.file_count, 3);
    assert_eq!(root.header.magic, MAGIC_NUMBER);
    assert_eq!(root.header.new_version, 11001);
    assert_eq!(root.file_table.len(), 3);
    assert_eq!(root.file_table[1].directory_name, "ui/y.xml");
    assert_eq!(root.file_table[1].container_name, "data.ipf");
    assert_eq!(root.file_table[0].crc32, 0x1234);
    assert!(root.file_table[0].file_path.is_none());
}

#[test]
fn archive_errors() {
    assert_eq!(IPFRoot::from_bytes(&[0; 10]).err(), Some(IpfError::TooShort));
    let mut bad = sample();
    let n = bad.len();
    bad[n - 12] ^= 0xFF;
    assert_eq!(IPFRoot::from_bytes(&bad).err(), Some(IpfError::BadMagic));
    let mut more = sample();
    let n = more.len();
    more[n - 24] = 9;
    assert_eq!(IPFRoot::from_bytes(&more).err(), Some(IpfError::UnexpectedEof));
    let bad_utf8 = archive(&[("data.ipf", "\u{0}", 1, 1)], 1);
    let mut bad_utf8 = bad_utf8;
    let pos = 20 + "data.ipf".len();
    bad_utf8[pos] = 0xFF;
    assert_eq!(IPFRoot::from_bytes(&bad_utf8).err(), Some(IpfError::InvalidUtf8));
    let no_stem = archive(&[("", "a.xml", 1, 1)], 1);
    assert_eq!(IPFRoot::from_archive(&no_stem, "x.ipf").err(), Some(IpfError::NoFileStem));
}

#[test]
fn archive_path_prefixes_names() {
    let root = IPFRoot::from_archive(&sample(), "game/data/data.ipf").unwrap();
    assert_eq!(root.file_table[0].directory_name, "data/ui/brush/x.tga");
    assert_eq!(root.file_table[0].file_path.as_deref(), Some("game/data/data.ipf"));
}

#[test]
fn stored_entries_decode() {
    let root = IPFRoot::from_bytes(&archive(&[("d.ipf", "a/b.JPG", 3, 3), ("d.ipf", "a/c.xml", 0, 0)], 1)).unwrap();
    assert!(root.file_table[0].should_skip_decompression());
    assert!(!root.file_table[1].should_skip_decompression());
    assert_eq!(root.file_table[0].decode_stored(vec![1, 2, 3]), Ok(vec![1, 2, 3]));
}

#[test]
fn compressed_entry_is_decrypted_and_inflated() {
    let content = b"<root>hello hello hello hello</root>".to_vec();
    let stored = encrypt(&deflate(&content));
    let b = archive(&[("d.ipf", "a/c.xml", stored.len() as u32, content.len() as u32)], 1);
    let root = IPFRoot::from_bytes(&b).unwrap();
    assert_eq!(root.file_table[0].decode_stored(stored).unwrap(), content);
}

#[test]
fn garbage_does_not_inflate() {
    let b = archive(&[("d.ipf", "a/c.xml", 4, 100)], 1);
    let root = IPFRoot::from_bytes(&b).unwrap();
    let stored = encrypt(&[0xFF, 0xFF, 0xFF, 0xFF]);
    assert_eq!(root.file_table[0].decode_stored(stored), Err(IpfError::DecompressFailed));
}

#[test]
fn statistics_over_all_entries() {
    let roots = vec![IPFRoot::from_bytes(&sample()).unwrap()];
    let s = compute_ipf_file_stats(&roots);
    assert_eq!(s.count_duplicated, 3);
    assert_eq!(s.count_unique, 0);
    assert_eq!((s.compressed_lowest, s.compressed_highest, s.compressed_avg), (5, 30, 15));
    assert_eq!((s.uncompressed_lowest, s.uncompressed_highest, s.uncompressed_avg), (20, 60, 40));
    let empty = compute_ipf_file_stats(&[]);
    assert_eq!((empty.count_duplicated, empty.compressed_lowest), (0, 0));
}

#[test]
fn whole_game_pipeline() {
    let archives = vec![
        ("game/data/data.ipf".to_string(), sample()),
        ("game/patch/p.ipf".to_string(), archive(&[("data.ipf", "ui/z.lua", 1, 1)], 2)),
    ];
    let mut roots = parse_game_ipfs(&archives).unwrap();
    assert_eq!(roots.len(), 2);
    let tables = collect_file_tables_from_parsed(&mut roots);
    assert_eq!(tables.len(), 4);
    assert!(roots.iter().all(|r| r.file_table.is_empty()));
    assert_eq!(roots[1].header.new_version, 2);
    let grouped = group_file_tables_by_directory(tables);
    let names: Vec<&str> = grouped.iter().map(|g| g.0.as_str()).collect();
    assert_eq!(names, vec!["data/ui/brush/x.tga", "data/ui/y.xml", "data/ui/z.lua"]);
    assert_eq!(grouped[0].1.len(), 2);
    assert_eq!(grouped[0].1[0].file_size_compressed, 10);
    assert_eq!(grouped[0].1[1].file_size_compressed, 5);
    let tree = build_tree(grouped);
    let (folders, files) = tree.search_folder_shallow("data/ui/").unwrap();
    assert_eq!(folders, vec!["brush".to_string()]);
    assert_eq!(files, vec!["y.xml".to_string(), "z.lua".to_string()]);
    assert!(tree.search_folder_shallow("data/none").is_none());
    let (top, top_files) = tree.search_folder_shallow("").unwrap();
    assert_eq!(top, vec!["data".to_string()]);
    assert!(top_files.is_empty());
    let hits = tree.search_file_by_full_path("data/ui/brush/x.tga");
    assert_eq!(hits.len(), 2);
    assert_eq!(hits[0].0, "data/ui/brush/x.tga");
    assert_eq!(hits[1].1.file_size_compressed, 5);
    assert!(tree.search_file_by_full_path("data/ui/x.tga").is_empty());
    let found = tree.search_file_recursive(".l", "");
    assert_eq!(found.len(), 1);
    assert_eq!(found[0].0, "data/ui/z.lua");
    let found = tree.search_file_recursive("x.t", "root");
    assert_eq!(found[0].0, "root/data/ui/brush/x.tga");
}

#[test]
fn first_unreadable_archive_fails_the_game() {
    let archives = vec![
        ("a.ipf".to_string(), vec![0; 3]),
        ("b.ipf".to_string(), sample()),
    ];
    assert_eq!(parse_game_ipfs(&archives).err(), Some(IpfError::TooShort));
}

#[test]
fn sorting_by_folder_then_archive_name() {
    let mk = |path: &str, n: u32| {
        let mut t = IPFRoot::from_bytes(&archive(&[("d.ipf", "f", n, n)], 1)).unwrap().file_table.remove(0);
        t.file_path = Some(path.to_string());
        t
    };
    let mut v: Vec<IPFFileTable> = vec![mk("game/patch/b.ipf", 1), mk("game/data/z.ipf", 2), mk("game/patch/a.ipf", 3), mk("game/data/z.ipf", 4)];
    sort_file_tables_by_folder_then_name(&mut v);
    let order: Vec<u32> = v.iter().map(|t| t.file_size_compressed).collect();
    assert_eq!(order, vec![2, 4, 3, 1]);
}

fn named_entry(name: &str) -> IPFFileTable {
    IPFFileTable {
        directory_name_length: name.len() as u16,
        crc32: 0,
        file_size_compressed: 0,
        file_size_uncompressed: 0,
        file_pointer: 0,
        container_name_length: 0,
        container_name: String::new(),
        directory_name: name.to_string(),
        file_path: None,
    }
}

#[test]
fn skip_is_decided_by_the_extension_alone() {
    assert!(named_entry("a/B.MP3").should_skip_decompression());
    assert!(named_entry("sound/x.fsb").should_skip_decompression());
    assert!(named_entry("ui/y.Jpg").should_skip_decompression());
    assert!(!named_entry("a/x.ies").should_skip_decompression());
    assert!(!named_entry("fsb").should_skip_decompression());
    assert!(!named_entry("jpg").should_skip_decompression());
    assert!(!named_entry("a.fsb.xml").should_skip_decompression());
}
