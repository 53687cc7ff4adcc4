use tosmole::category::{shallow_tree, Folder, TreeLine};
use tosmole::ipf::IPFFileTable;
use tosmole::ipf_parser::is_ipf_path;
use tosmole::text::lower_ends_with;
use tosmole::xac_file::is_xac_path;

fn file(name: &str, path: Option<&str>) -> IPFFileTable {
    IPFFileTable {
        directory_name_length: name.len() as u16,
        crc32: 0,
        file_size_compressed: 0,
        file_size_uncompressed: 0,
        file_pointer: 0,
        container_name_length: 0,
        container_name: String::new(),
        directory_name: name.to_string(),
        file_path: path.map(|p| p.to_string()),
    }
}

fn sample() -> Folder {
    Folder {
        files: vec![file("x.xml", Some("data/one.ipf"))],
        subfolders: vec![
            (
                "a".to_string(),
                Folder {
                    files: vec![file("y.ies", Some("data/two.ipf")), file("z.ies", None)],
                    subfolders: vec![],
                },
            ),
            ("b".to_string(), Folder { files: vec![], subfolders: vec![] }),
        ],
    }
}

fn s(t: &str) -> String {
    t.to_string()
}

#[test]
fn limited_listing_cuts_folders_and_files() {
    let lines = sample().listing_lines("", 1, 1);
    assert_eq!(
        lines,
        vec![
            TreeLine::Folder { prefix: s(""), name: s("a") },
            TreeLine::File { prefix: s("  "), path: Some(s("data/two.ipf")) },
            TreeLine::MoreFiles { prefix: s("  "), count: 1 },
            TreeLine::MoreFolders { prefix: s(""), count: 1 },
            TreeLine::File { prefix: s(""), path: Some(s("data/one.ipf")) },
        ]
    );
}

#[test]
fn unlimited_listing_shows_everything() {
    let lines = sample().listing_lines(">", usize::MAX, usize::MAX);
    assert_eq!(
        lines,
        vec![
            TreeLine::Folder { prefix: s(">"), name: s("a") },
            TreeLine::File { prefix: s(">  "), path: Some(s("data/two.ipf")) },
            TreeLine::File { prefix: s(">  "), path: None },
            TreeLine::Folder { prefix: s(">"), name: s("b") },
            TreeLine::File { prefix: s(">"), path: Some(s("data/one.ipf")) },
        ]
    );
}

#[test]
fn zero_limits_leave_only_counts() {
    let lines = sample().listing_lines("", 0, 0);
    assert_eq!(
        lines,
        vec![
            TreeLine::MoreFolders { prefix: s(""), count: 2 },
            TreeLine::MoreFiles { prefix: s(""), count: 1 },
        ]
    );
}

#[test]
fn shallow_tree_takes_the_first_entries() {
    let (folders, root_files) = shallow_tree(&sample(), 1, 1);
    assert_eq!(folders, vec![(s("a"), vec![s("y.ies")])]);
    assert_eq!(root_files, vec![s("x.xml")]);
    let (folders, root_files) = shallow_tree(&sample(), 5, 5);
    assert_eq!(folders, vec![(s("a"), vec![s("y.ies"), s("z.ies")]), (s("b"), vec![])]);
    assert_eq!(root_files, vec![s("x.xml")]);
}

#[test]
fn extensions_are_told_without_case() {
    assert!(is_ipf_path("data/ui.IPF"));
    assert!(!is_ipf_path("data/ui.ipfx"));
    assert!(!is_ipf_path("ipf"));
    assert!(is_xac_path("char_hi/m.Xac"));
    assert!(!is_xac_path("m.xsm"));
    assert!(lower_ends_with("ABC", "bc"));
    assert!(lower_ends_with("abc", ""));
    assert!(!lower_ends_with("c", "bc"));
}
