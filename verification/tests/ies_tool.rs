use tosmole::ies_tool::{
    xor_encrypt_decrypt_string, IESColumn, IESColumnData, IESHeader, IESRowFloat, IESRowText, IESRowTextSerializable,
};

#[test]
fn test_ies_column_creation() {
    let column = IESColumn::new("TestCol", "TestName", 1, 2, 3, 4);
    assert_eq!(column.column_str(), "TestCol");
    assert_eq!(column.name_str(), "TestName");
    assert_eq!(column.type_data, 1);
}

#[test]
fn test_ies_row_text() {
    let text = IESRowText::new("Hello World");
    assert_eq!(text.text_str(), "Hello World");
    assert_eq!(text.text_length, 11);
}

#[test]
fn test_serialization_conversion() {
    let column = IESColumn::new("TestCol", "TestName", 1, 2, 3, 4);
    let serializable = column.to_serializable();
    let converted_back = IESColumn::from_serializable(&serializable);

    assert_eq!(column.column_str(), converted_back.column_str());
    assert_eq!(column.name_str(), converted_back.name_str());
    assert_eq!(column.type_data, converted_back.type_data);
}

#[test]
fn column_names_are_masked_and_padded_to_64_bytes() {
    let column = IESColumn::new("AB", "", 0, 0, 0, 0);
    assert_eq!(column.column.len(), 64);
    assert_eq!(column.column[0], b'A' ^ 1);
    assert_eq!(column.column[1], b'B' ^ 1);
    assert!(column.column[2..].iter().all(|&b| b == 0));
    assert_eq!(column.name_str(), "");
}

#[test]
fn long_column_name_is_cut_to_63_bytes() {
    let long = "x".repeat(100);
    let column = IESColumn::new(&long, "n", 0, 0, 0, 0);
    assert_eq!(column.column.len(), 64);
    assert_eq!(column.column[63], 0);
    assert_eq!(column.column_str(), "x".repeat(63));
}

#[test]
fn row_text_round_trip_law_on_values() {
    let original = "Ünïcode text ✓";
    let row = IESRowText::new(original);
    assert_eq!(row.text_str(), original);
    let s = row.to_serializable();
    let back = IESRowText::from_serializable(&IESRowTextSerializable { text: s.text.clone() });
    assert_eq!(back.text_data, row.text_data);
    assert_eq!(back.text_length as usize, original.len());
}

#[test]
fn xor_string_masks_each_byte() {
    assert_eq!(xor_encrypt_decrypt_string("abc"), "`cb");
    assert_eq!(xor_encrypt_decrypt_string(&xor_encrypt_decrypt_string("hello")), "hello");
}

fn sample_table() -> IESHeader {
    let mut idspace = vec![0u8; 64];
    idspace[..9].copy_from_slice(b"SAMPLE_ID");
    let mut keyspace = vec![0u8; 64];
    keyspace[..10].copy_from_slice(b"SAMPLE_KEY");
    let columns = vec![
        IESColumn::new("ClassID", "ID", 1, 0, 0, 0),
        IESColumn::new("ClassName", "Name", 2, 0, 0, 1),
        IESColumn::new("Value", "Value", 3, 0, 0, 2),
    ];
    let column_data = vec![
        IESColumnData {
            index_data: 1,
            text_data: IESRowText::new("Sample Row 1"),
            float_data: vec![IESRowFloat { float_bits: 1.5f32.to_bits() }],
            string_data: vec![IESRowText::new("String1")],
            padding: vec![0],
        },
        IESColumnData {
            index_data: -2,
            text_data: IESRowText::new("Sample Row 2"),
            float_data: vec![IESRowFloat { float_bits: 2.5f32.to_bits() }],
            string_data: vec![IESRowText::new("String2")],
            padding: vec![-1],
        },
    ];
    IESHeader {
        idspace,
        keyspace,
        version: 1,
        padding: 0,
        info_size: 0,
        data_size: 0,
        total_size: 0,
        use_class_id: 1,
        padding2: 0,
        num_field: 2,
        num_column: 3,
        num_column_number: 1,
        num_column_string: 1,
        padding3: 0,
        columns,
        column_data,
    }
}

#[test]
fn plain_text_round_trip_keeps_counts_and_space_names() {
    let original = sample_table();
    let plain = original.to_serializable();
    assert_eq!(plain.id_space, "SAMPLE_ID");
    assert_eq!(plain.columns[1].column_name, "ClassName");
    assert_eq!(plain.column_data[0].text_data.text, "Sample Row 1");
    let back = IESHeader::from_serializable(&plain);
    assert_eq!(original.version, back.version);
    assert_eq!(original.num_field, back.num_field);
    assert_eq!(original.num_column, back.num_column);
    assert_eq!(original.idspace_str(), back.idspace_str());
    assert_eq!(original.keyspace_str(), back.keyspace_str());
    assert_eq!(back.column_data[1].padding, vec![0]);
    assert_eq!(back.column_data[1].string_data[0].text_str(), "String2");
}

#[test]
fn stored_table_write_then_read() {
    let original = sample_table();
    let bytes = original.write_to_bytes();
    assert_eq!(bytes.len(), 156 + 3 * 136 + 2 * (4 + 14 + 4 + 9 + 1));
    let back = IESHeader::read_from_bytes(&bytes).expect("readable");
    assert_eq!(back.idspace, original.idspace);
    assert_eq!(back.num_column_string, 1);
    assert_eq!(back.columns.len(), 3);
    assert_eq!(back.columns[2].column, original.columns[2].column);
    assert_eq!(back.columns[2].decl_idx, 2);
    assert_eq!(back.column_data[1].index_data, -2);
    assert_eq!(back.column_data[1].float_data, original.column_data[1].float_data);
    assert_eq!(back.column_data[1].string_data[0].text_data, original.column_data[1].string_data[0].text_data);
    assert_eq!(back.column_data[1].padding, vec![-1]);
    assert!(IESHeader::read_from_bytes(&bytes[..bytes.len() - 1]).is_none());
}

#[test]
fn printable_column_names_come_back_cut_to_63() {
    let c = IESColumn::new("Attack Power ", "ClassID", 1, 2, 3, 4);
    assert_eq!(c.column_str(), "Attack Power ");
    assert_eq!(c.name_str(), "ClassID");
    let long: String = (0..70).map(|i| (b'!' + (i % 90) as u8) as char).collect();
    let c = IESColumn::new(&long, "", 0, 0, 0, 0);
    assert_eq!(c.column_str(), long[..63].to_string());
    assert_eq!(c.name_str(), "");
}

#[test]
fn row_text_round_trips_through_its_plain_form() {
    let stored = IESRowText::new("Épée de fer");
    let back = IESRowText::from_serializable(&stored.to_serializable());
    assert_eq!(back.text_length, stored.text_length);
    assert_eq!(back.text_data, stored.text_data);
    let plain = IESRowTextSerializable { text: "Ring of 3 ✓".to_string() };
    assert_eq!(IESRowText::from_serializable(&plain).to_serializable().text, plain.text);
}
