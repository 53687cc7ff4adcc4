use tosmole::tok::{parse_tok_file, try_parse_tok_file, TokAttrType, TokError, TokFault};

fn sample() -> Vec<u8> {
    let mut b = b"world\0model\0\0".to_vec();
    b.push(1);
    b.extend_from_slice(b"File\0");
    b.push(3);
    b.extend_from_slice(b"x\0");
    b.push(4);
    b.extend_from_slice(b"y\0");
    b.push(0);
    b.extend_from_slice(&[1, 1]);
    b.extend_from_slice(b"a.xac\0");
    b.extend_from_slice(&[2, 0xFB, 0xFF]);
    b.extend_from_slice(&[3, 0xFE]);
    b.push(0);
    b.extend_from_slice(&[2, 0, 0]);
    b.push(0);
    b
}

#[test]
fn parses_elements_attributes_and_tree() {
    let f = parse_tok_file(&sample()).unwrap();
    assert_eq!(f.elements.len(), 2);
    assert_eq!((f.elements[1].index, f.elements[1].name.as_str()), (2, "model"));
    assert_eq!(f.attributes.len(), 3);
    assert_eq!(f.attributes[1].attr_type, TokAttrType::SInt16);
    assert_eq!(f.attributes[2].index, 3);
    assert_eq!(f.root_nodes.len(), 1);
    let root = &f.root_nodes[0];
    assert_eq!(root.element_name, "world");
    assert_eq!(
        root.attributes,
        vec![
            ("File".to_string(), "a.xac".to_string()),
            ("x".to_string(), "-5".to_string()),
            ("y".to_string(), "-2".to_string()),
        ]
    );
    assert_eq!(root.children.len(), 1);
    assert_eq!(root.children[0].element_name, "model");
    assert!(root.children[0].attributes.is_empty());
}

#[test]
fn attribute_type_codes() {
    assert_eq!(TokAttrType::from(1u8), TokAttrType::CString);
    assert_eq!(TokAttrType::from(4u8), TokAttrType::SInt8);
    assert_eq!(TokAttrType::from(9u8), TokAttrType::Unknown(9));
}

#[test]
fn unknown_element_index_gets_a_made_up_name() {
    let mut b = b"a\0\0".to_vec();
    b.push(0);
    b.extend_from_slice(&[7, 0, 0]);
    let f = parse_tok_file(&b).unwrap();
    assert_eq!(f.root_nodes[0].element_name, "unknown_7");
}

#[test]
fn empty_document() {
    let f = parse_tok_file(&[]).unwrap();
    assert!(f.elements.is_empty());
    assert!(f.attributes.is_empty());
    assert!(f.root_nodes.is_empty());
}

#[test]
fn short_number_is_unexpected_eof() {
    let mut b = b"e\0\0".to_vec();
    b.push(3);
    b.extend_from_slice(b"n\0");
    b.push(0);
    b.extend_from_slice(&[1, 1, 0x05]);
    assert_eq!(parse_tok_file(&b).err(), Some(TokError::UnexpectedEof));
}

#[test]
fn node_cut_inside_its_attributes_stops_the_reader() {
    let mut b = b"e\0\0".to_vec();
    b.push(0);
    b.push(1);
    assert_eq!(try_parse_tok_file(&b).err(), Some(TokFault::Malformed));
}
