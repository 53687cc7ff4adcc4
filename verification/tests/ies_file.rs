use tosmole::ies_file::{decrypt_string, IesColumnType, IesFile};

fn masked(s: &str, width: usize) -> Vec<u8> {
    let mut v: Vec<u8> = s.bytes().map(|b| b ^ 1).collect();
    v.resize(width, 0);
    v
}

fn column(name: &str, second: &str, kind: u16, position: u16) -> Vec<u8> {
    let mut c = masked(name, 64);
    c.extend(masked(second, 64));
    c.extend_from_slice(&kind.to_le_bytes());
    c.extend_from_slice(&[0, 0, 0, 0]);
    c.extend_from_slice(&position.to_le_bytes());
    c
}

fn text_cell(s: &str) -> Vec<u8> {
    let mut c = (s.len() as u16).to_le_bytes().to_vec();
    c.extend(s.bytes().map(|b| b ^ 1));
    c
}

fn table(columns: &[Vec<u8>], rows: &[Vec<u8>], skip: u16) -> Vec<u8> {
    let cols: Vec<u8> = columns.concat();
    let rs: Vec<u8> = rows.concat();
    let mut h = b"cell".to_vec();
    h.resize(128, 0);
    h.extend_from_slice(&[0, 0, 0, 0]);
    h.extend_from_slice(&(cols.len() as u32).to_le_bytes());
    h.extend_from_slice(&(rs.len() as u32).to_le_bytes());
    h.extend_from_slice(&1234u32.to_le_bytes());
    h.extend_from_slice(&[0, 0]);
    h.extend_from_slice(&(rows.len() as u16).to_le_bytes());
    h.extend_from_slice(&(columns.len() as u16).to_le_bytes());
    h.extend_from_slice(&2u16.to_le_bytes());
    h.extend_from_slice(&skip.to_le_bytes());
    h.extend_from_slice(&[0, 0]);
    h.extend(cols);
    h.extend(rs);
    h
}

fn row(id: f32, level: f32, name: &str, desc: &str, skip: usize) -> Vec<u8> {
    let mut r = vec![0, 0, 0, 0, 1, 0, 0xEE];
    r.extend_from_slice(&id.to_le_bytes());
    r.extend_from_slice(&level.to_le_bytes());
    r.extend(text_cell(name));
    r.extend(text_cell(desc));
    r.extend(std::iter::repeat(0u8).take(skip));
    r
}

fn sample() -> Vec<u8> {
    table(
        &[
            column("ClassName", "Name", 1, 1),
            column("ClassID", "Id", 0, 0),
            column("Desc", "Text", 2, 0),
            column("Level", "Lv", 0, 2),
        ],
        &[row(1.0, 5.0, "Flame", "Hot", 2), row(2.0, 7.0, "Ice", "", 2)],
        2,
    )
}

#[test]
fn unmasks_and_trims_texts() {
    assert_eq!(decrypt_string(&[b'I' ^ 1, b'd' ^ 1, 0, 0]).as_deref(), Some("Id"));
    assert_eq!(decrypt_string(&[0xFE]), None);
}

#[test]
fn reads_table_header_columns_and_rows() {
    let t = IesFile::try_load_from_bytes(sample()).expect("readable");
    assert_eq!(t.header.name, "cell");
    assert_eq!(t.header.file_size, 1234);
    assert_eq!(t.header.row_count, 2);
    assert_eq!(t.get_columns_length(), 4);
    assert_eq!(t.get_rows_length(), 2);
    let names: Vec<&str> = t.get_column_names().into_iter().map(|s| s.as_str()).collect();
    assert_eq!(names, vec!["ClassID", "Level", "ClassName", "Desc"]);
    assert_eq!(t.columns[0].column_type, IesColumnType::Float);
    assert_eq!(t.columns[3].column_type, IesColumnType::StringSecond);
    assert_eq!(t.rows[0][0].value_bits, Some(1.0f32.to_bits()));
    assert_eq!(t.rows[1][1].value_bits, Some(7.0f32.to_bits()));
    assert_eq!(t.rows[1][3].value_string, None);
}

#[test]
fn looks_up_cells_by_either_column_name() {
    let t = IesFile::load_from_bytes(sample());
    let data = t.get_data_by_column_name_and_index("ClassName", 0).expect("cell");
    assert_eq!(data.value_string.clone().expect("text"), String::from("Flame"));
    assert_eq!(t.get_column_index_by_name("Lv"), Some(1));
    assert_eq!(t.get_column_index_by_name("Text"), Some(3));
    assert_eq!(
        t.get_data_by_column_name_and_index("Desc", 0).and_then(|c| c.value_string.clone()),
        Some("Hot".to_string())
    );
    assert!(t.get_data_by_column_name_and_index("ClassName", 2).is_none());
    assert!(t.get_data_by_column_name_and_index("Missing", 0).is_none());
}

#[test]
fn unknown_column_kind_or_short_data_cannot_be_read() {
    let bad = table(&[column("A", "", 3, 0)], &[], 0);
    assert!(IesFile::try_load_from_bytes(bad).is_none());
    let mut short = sample();
    short.truncate(100);
    assert!(IesFile::try_load_from_bytes(short).is_none());
    let mut far = sample();
    far[136..140].copy_from_slice(&0x0100_0000u32.to_le_bytes());
    assert!(IesFile::try_load_from_bytes(far).is_none());
}
