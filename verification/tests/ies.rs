use tosmole::ies::{IESRoot, IesError};

fn name64(s: &str, mask: bool) -> Vec<u8> {
    let mut v: Vec<u8> = s.bytes().map(|b| if mask { b ^ 1 } else { b }).collect();
    v.resize(64, 0);
    v
}

fn text(v: &mut Vec<u8>, s: &str) {
    v.extend_from_slice(&(s.len() as u16).to_le_bytes());
    v.extend(s.bytes().map(|b| b ^ 1));
}

fn table(columns: &[(&str, u16, u16)], rows: &[(i32, &str, f32, [&str; 2])]) -> Vec<u8> {
    let mut b = Vec::new();
    b.extend(name64("ClassID", false));
    b.extend(name64("ClassName", false));
    b.extend_from_slice(&1u16.to_le_bytes());
    b.extend_from_slice(&0u16.to_le_bytes());
    b.extend_from_slice(&[0; 12]);
    b.extend_from_slice(&[1, 0]);
    b.extend_from_slice(&(rows.len() as u16).to_le_bytes());
    b.extend_from_slice(&(columns.len() as u16).to_le_bytes());
    b.extend_from_slice(&1u16.to_le_bytes());
    b.extend_from_slice(&2u16.to_le_bytes());
    b.extend_from_slice(&0u16.to_le_bytes());
    for (name, decl, ty) in columns {
        b.extend(name64(name, true));
        b.extend(name64(&format!("{}_name", name), true));
        b.extend_from_slice(&ty.to_le_bytes());
        b.extend_from_slice(&0u16.to_le_bytes());
        b.extend_from_slice(&0u16.to_le_bytes());
        b.extend_from_slice(&decl.to_le_bytes());
    }
    for (index, row_text, number, texts) in rows {
        b.extend_from_slice(&index.to_le_bytes());
        text(&mut b, row_text);
        b.extend_from_slice(&number.to_le_bytes());
        for t in texts {
            text(&mut b, t);
        }
        b.extend_from_slice(&[0xFF, 0x01]);
    }
    b
}

fn sample() -> Vec<u8> {
    table(
        &[("Path", 2, 0), ("X", 0, 0), ("Mesh", 1, 0)],
        &[
            (7, "first", 1.5, ["Char\\Body.XAC", "char\\tex"]),
            (8, "second", -2.0, ["other.xac", ""]),
        ],
    )
}

#[test]
fn reads_header_columns_and_rows() {
    let root = IESRoot::from_bytes(&sample()).unwrap();
    assert_eq!(root.header.idspace, "ClassID");
    assert_eq!(root.header.keyspace, "ClassName");
    assert_eq!(root.header.num_field, 2);
    assert_eq!(root.columns.len(), 3);
    assert_eq!(root.columns[2].column, "Mesh");
    assert_eq!(root.columns[2].name, "Mesh_name");
    assert_eq!(root.columns[0].decl_idx, 2);
    assert_eq!(root.data.len(), 2);
    assert_eq!(root.data[0].index_data, 7);
    assert_eq!(root.data[0].row_text.text_data, "first");
    assert_eq!(f32::from_bits(root.data[1].floats[0].float_bits), -2.0);
    assert_eq!(root.data[0].texts[0].text_data, "Char\\Body.XAC");
    assert_eq!(root.data[0].padding, vec![-1, 1]);
}

#[test]
fn mesh_table_lowercases_names_and_fixes_slashes() {
    let root = IESRoot::from_bytes(&sample()).unwrap();
    assert!(root.mesh_columns_preceded());
    let map = root.extract_mesh_path_map();
    assert_eq!(map, vec![("char/body.xac".to_string(), "char/tex".to_string())]);
}

#[test]
fn mesh_table_without_both_columns_is_empty() {
    let b = table(&[("A", 0, 0), ("Mesh", 1, 0)], &[(1, "r", 0.0, ["m.xac", "p"])]);
    let root = IESRoot::from_bytes(&b).unwrap();
    assert!(root.mesh_columns_preceded());
    assert!(root.extract_mesh_path_map().is_empty());
}

#[test]
fn mesh_column_first_is_not_preceded() {
    let b = table(&[("Mesh", 0, 0), ("Path", 1, 0)], &[]);
    let root = IESRoot::from_bytes(&b).unwrap();
    assert!(!root.mesh_columns_preceded());
}

#[test]
fn truncated_table_is_unexpected_eof() {
    let b = sample();
    assert!(matches!(IESRoot::from_bytes(&b[..b.len() - 1]), Err(IesError::UnexpectedEof)));
    assert!(matches!(IESRoot::from_bytes(&b[..100]), Err(IesError::UnexpectedEof)));
}
