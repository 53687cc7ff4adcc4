use tosmole::ipf_parser::{IpfFile, IpfReadError, IpfReadFault};

fn archive(count: u16, entries: &[(&str, &str)]) -> Vec<u8> {
    let mut b = Vec::new();
    for (container, path) in entries {
        b.extend_from_slice(&(path.len() as u16).to_le_bytes());
        b.extend_from_slice(&0xDEADBEEFu32.to_le_bytes());
        b.extend_from_slice(&10u32.to_le_bytes());
        b.extend_from_slice(&20u32.to_le_bytes());
        b.extend_from_slice(&0u32.to_le_bytes());
        b.extend_from_slice(&(container.len() as u16).to_le_bytes());
        b.extend_from_slice(container.as_bytes());
        b.extend_from_slice(path.as_bytes());
    }
    let table_end = b.len() as u32;
    b.extend_from_slice(&count.to_le_bytes());
    b.extend_from_slice(&0u32.to_le_bytes());
    b.extend_from_slice(&[0, 0]);
    b.extend_from_slice(&table_end.to_le_bytes());
    b.extend_from_slice(&[0x50, 0x4B, 0x05, 0x06]);
    b.extend_from_slice(&1u32.to_le_bytes());
    b.extend_from_slice(&11001u32.to_le_bytes());
    b
}

#[test]
fn reads_footer_and_table() {
    let b = archive(2, &[("data.ipf", "dir/sub/file.xml"), ("data.ipf", "top.lua")]);
    let f = IpfFile::load_from_reader(&b).expect("readable");
    assert_eq!(f.footer.file_count, 2);
    assert_eq!(f.footer.new_version, 11001);
    assert_eq!(f.footer.magic, vec![0x50, 0x4B, 0x05, 0x06]);
    assert_eq!(f.file_table.len(), 2);
    assert_eq!(f.file_table[0].directory_name, "dir/sub/file.xml");
    assert_eq!(f.file_table[0].filename, "file.xml");
    assert_eq!(f.file_table[0].container_name, "data.ipf");
    assert_eq!(f.file_table[0].crc32, 0xDEADBEEF);
    assert_eq!(f.file_table[1].idx, 1);
    assert_eq!(f.file_table[1].filename, "top.lua");
}

#[test]
fn names_are_read_one_character_per_byte() {
    let mut b = archive(1, &[("c", "d/x")]);
    // turn the 'x' of the path into the byte 0xE9
    let pos = 2 + 4 + 4 + 4 + 4 + 2 + 1 + 2;
    b[pos] = 0xE9;
    let f = IpfFile::load_from_reader(&b).expect("readable");
    assert_eq!(f.file_table[0].filename, "\u{e9}");
}

#[test]
fn short_archive_is_an_invalid_seek() {
    assert!(matches!(IpfFile::load_from_reader(&[0; 23]), Err(IpfReadError::InvalidSeek)));
}

#[test]
fn missing_entries_are_unexpected_eof() {
    let b = archive(3, &[("c", "a/b")]);
    assert!(matches!(IpfFile::load_from_reader(&b), Err(IpfReadError::UnexpectedEof)));
}

#[test]
fn stopping_archives_are_reported() {
    let mut bad = archive(0, &[]);
    let n = bad.len();
    bad[n - 12] = 0;
    assert!(matches!(IpfFile::try_load_from_reader(&bad), Err(IpfReadFault::BadMagic)));
    let dots = archive(1, &[("c", "..")]);
    assert!(matches!(IpfFile::try_load_from_reader(&dots), Err(IpfReadFault::NoFileName)));
}
