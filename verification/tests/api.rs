use tosmole::api::{
    distinct_sorted, folder_shallow, full_path_infos, image_format, preview_kind,
    recursive_search_response, select_version, versioned_items, xac_texture_fallback,
    xac_texture_path, Duplicates, ImageFormat, InfoResponse, PreviewKind, ShallowSearchQuery,
};
use tosmole::category::Folder;
use tosmole::ipf::{FileSizeStats, IPFFileTable, IPFRoot, MAGIC_NUMBER};

fn entry(container: &str, dir: &str, crc: u32) -> IPFFileTable {
    let mut b = Vec::new();
    b.extend_from_slice(&(dir.len() as u16).to_le_bytes());
    b.extend_from_slice(&crc.to_le_bytes());
    b.extend_from_slice(&7u32.to_le_bytes());
    b.extend_from_slice(&9u32.to_le_bytes());
    b.extend_from_slice(&100u32.to_le_bytes());
    b.extend_from_slice(&(container.len() as u16).to_le_bytes());
    b.extend_from_slice(container.as_bytes());
    b.extend_from_slice(dir.as_bytes());
    b.extend_from_slice(&1u16.to_le_bytes());
    b.extend_from_slice(&0u32.to_le_bytes());
    b.extend_from_slice(&[0; 6]);
    b.extend_from_slice(&MAGIC_NUMBER.to_le_bytes());
    b.extend_from_slice(&[0; 8]);
    IPFRoot::from_bytes(&b).unwrap().file_table.remove(0)
}

fn pair(a: &str, b: &str) -> (String, String) {
    (a.to_string(), b.to_string())
}

#[test]
fn info_counts_duplicates_and_copies_stats() {
    let d = Duplicates {
        xac: vec![pair("a", "b"), pair("c", "d")],
        xsm: vec![],
        xsmtime: vec![pair("t", "u")],
        xpm: vec![],
        dds: vec![pair("x", "y"), pair("y", "z"), pair("z", "w")],
    };
    let s = FileSizeStats {
        count_duplicated: 4,
        count_unique: 0,
        compressed_lowest: 1,
        compressed_highest: 9,
        compressed_avg: 5,
        uncompressed_lowest: 2,
        uncompressed_highest: 8,
        uncompressed_avg: 6,
    };
    let r = InfoResponse::new("C:/game".to_string(), &d, &s);
    assert_eq!(r.game_root, "C:/game");
    assert_eq!((r.duplicates_xac, r.duplicates_xsm, r.duplicates_xsmtime, r.duplicates_xpm, r.duplicates_dds), (2, 0, 1, 0, 3));
    assert_eq!((r.count_duplicated, r.compressed_avg, r.uncompressed_highest), (4, 5, 8));
}

#[test]
fn distinct_sorted_removes_repeats() {
    let v = vec!["b".to_string(), "a".to_string(), "b".to_string(), "".to_string()];
    assert_eq!(distinct_sorted(&v), vec!["".to_string(), "a".to_string(), "b".to_string()]);
}

#[test]
fn folder_listing_is_sorted_and_distinct() {
    let mut tree = Folder::new();
    tree.insert("ui/brush/x.tga", entry("d.ipf", "x.tga", 1));
    tree.insert("ui/brush/x.tga", entry("d.ipf", "x.tga", 2));
    tree.insert("ui/a.xml", entry("d.ipf", "a.xml", 3));
    tree.insert("ui/font/f.ttf", entry("d.ipf", "f.ttf", 4));
    let q = ShallowSearchQuery { folder_name: "ui".to_string() };
    let r = folder_shallow(&tree, &q).unwrap();
    assert_eq!(r.folder_name, "ui");
    assert_eq!(r.subfolders, vec!["brush".to_string(), "font".to_string()]);
    assert_eq!(r.files, vec!["a.xml".to_string()]);
    let brush = folder_shallow(&tree, &ShallowSearchQuery { folder_name: "ui/brush/".to_string() }).unwrap();
    assert_eq!(brush.files, vec!["x.tga".to_string()]);
    assert!(folder_shallow(&tree, &ShallowSearchQuery { folder_name: "nope".to_string() }).is_none());
}

#[test]
fn search_answers_number_versions_and_link() {
    let mut tree = Folder::new();
    tree.insert("ui/x.tga", entry("d.ipf", "x.tga", 11));
    tree.insert("ui/x.tga", entry("p.ipf", "x.tga", 22));
    let hits = tree.search_file_by_full_path("ui/x.tga");
    let items = versioned_items(&hits);
    assert_eq!(items.len(), 2);
    assert_eq!(items[1].version, 1);
    assert_eq!(items[1].file_path, "ui/x.tga");
    assert_eq!(items[0].download_url, "/api/file/download?path=ui/x.tga&version=0");
    assert_eq!(items[1].parse_url, "/api/file/parse?path=ui/x.tga&version=1");
    let resp = recursive_search_response("x.tga", &hits);
    assert_eq!(resp.file_name, "x.tga");
    assert_eq!(resp.found_files.len(), 2);
    let infos = full_path_infos("ui/x.tga", &hits);
    assert_eq!(infos[1].container_name, "p.ipf");
    assert_eq!(infos[1].crc32, 22);
    assert_eq!((infos[0].file_size_compressed, infos[0].file_size_uncompressed, infos[0].file_pointer), (7, 9, 100));
    assert_eq!(select_version(&hits, None).unwrap().1.crc32, 11);
    assert_eq!(select_version(&hits, Some(1)).unwrap().1.crc32, 22);
    assert!(select_version(&hits, Some(2)).is_none());
}

#[test]
fn preview_kinds_by_extension_and_magic() {
    let png = [0x89, 0x50, 0x4E, 0x47, 0x0D, 0x0A, 0x1A, 0x0A, 0];
    assert_eq!(image_format(&png), ImageFormat::Png);
    assert_eq!(image_format(&[0xFF, 0xD8, 0xFF]), ImageFormat::Jpeg);
    assert_eq!(image_format(b"BM.."), ImageFormat::Bmp);
    assert_eq!(image_format(b"DDS "), ImageFormat::Unknown);
    assert_eq!(image_format(b"DDS !"), ImageFormat::Dds);
    assert_eq!(ImageFormat::Dds.mime_type(), "image/dds");
    assert_eq!(ImageFormat::Unknown.mime_type(), "application/octet-stream");
    assert_eq!(preview_kind("ui/a.TGA", &[]), PreviewKind::Tga);
    assert_eq!(preview_kind("ui/a.png", &png), PreviewKind::Image(ImageFormat::Png));
    assert_eq!(preview_kind("ui/a.jpg", &png), PreviewKind::Image(ImageFormat::Png));
    assert_eq!(preview_kind("s.mp3", &[]), PreviewKind::Audio);
    assert_eq!(preview_kind("f.ttf", &[]), PreviewKind::Font);
    assert_eq!(preview_kind("t.ies", &[]), PreviewKind::Ies);
    assert_eq!(preview_kind("m.xac", &[]), PreviewKind::Xac);
    assert_eq!(preview_kind("a.lua", &[]), PreviewKind::Text);
    assert_eq!(preview_kind("a.xsm", &[]), PreviewKind::Binary);
    assert_eq!(preview_kind("noext", &[]), PreviewKind::Binary);
}

#[test]
fn texture_folder_of_a_model() {
    assert_eq!(xac_texture_fallback("char_hi/npc/body.xac"), "char_texture/npc/");
    assert_eq!(xac_texture_fallback("body.xac"), "body.xac/");
    assert_eq!(xac_texture_fallback("/body.xac"), "/");
    let map = vec![pair("char_hi/a.xac", "tex/a/"), pair("char_hi/b.xac", "tex/b/")];
    assert_eq!(xac_texture_path(&map, "char_hi/b.xac"), "tex/b/");
    assert_eq!(xac_texture_path(&map, "char_hi/c.xac"), "char_texture/");
}
