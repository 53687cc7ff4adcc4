use tosmole::tsv::{parse_language_data, parse_tsv_bytes, TsvError};
use tosmole::xml::{duplicates_from_events, XmlError, XmlEvent};

fn attr(k: &str, v: &str) -> Option<(String, String)> {
    Some((k.to_string(), v.to_string()))
}

#[test]
fn tsv_rows_split_at_tabs_and_lines() {
    let rows = parse_tsv_bytes(b"a\tb\r\nc\n\nd\te\tf".to_vec()).unwrap();
    assert_eq!(
        rows,
        vec![
            vec!["a".to_string(), "b".to_string()],
            vec!["c".to_string()],
            vec!["".to_string()],
            vec!["d".to_string(), "e".to_string(), "f".to_string()],
        ]
    );
}

#[test]
fn tsv_trailing_newline_adds_no_row() {
    let rows = parse_tsv_bytes(b"x\ty\n".to_vec()).unwrap();
    assert_eq!(rows, vec![vec!["x".to_string(), "y".to_string()]]);
    assert!(parse_tsv_bytes(Vec::new()).unwrap().is_empty());
}

#[test]
fn tsv_invalid_utf8_is_an_error() {
    assert_eq!(parse_tsv_bytes(vec![0xC3]), Err(TsvError::InvalidData));
    assert_eq!(parse_language_data(b"ok".to_vec(), vec![0xFF]), Err(TsvError::InvalidData));
    let (e, i) = parse_language_data(b"k\tv".to_vec(), b"1\t2\n3".to_vec()).unwrap();
    assert_eq!(e.len(), 1);
    assert_eq!(i.len(), 2);
}

#[test]
fn duplicates_map_targets_to_sources() {
    let events = vec![
        XmlEvent::Element(false, "list".to_string(), vec![]),
        XmlEvent::Element(false, "source".to_string(), vec![attr("file", "char\\a.xac")]),
        XmlEvent::Element(true, "target".to_string(), vec![None, attr("other", "x"), attr("file", "char\\b.xac")]),
        XmlEvent::Element(true, "target".to_string(), vec![attr("file", "a0.xac")]),
        XmlEvent::Element(false, "target".to_string(), vec![attr("file", "not_empty.xac")]),
        XmlEvent::End("source".to_string()),
        XmlEvent::Element(true, "target".to_string(), vec![attr("file", "orphan.xac")]),
        XmlEvent::Element(true, "source".to_string(), vec![attr("file", "empty_source.xac")]),
        XmlEvent::Element(true, "target".to_string(), vec![attr("file", "orphan2.xac")]),
        XmlEvent::Element(false, "source".to_string(), vec![attr("file", "c.xac")]),
        XmlEvent::Element(true, "target".to_string(), vec![attr("file", "a0.xac")]),
    ];
    let pairs = duplicates_from_events(&events);
    assert_eq!(
        pairs,
        vec![
            ("a0.xac".to_string(), "c.xac".to_string()),
            ("char/b.xac".to_string(), "char/a.xac".to_string()),
        ]
    );
}

#[test]
fn duplicates_read_from_xml_bytes() {
    let xml = br#"<?xml version="1.0"?>
<list>
  <source file="char\body.xac">
    <target file="char\copy_a.xac" />
    <target other="x" file="char\copy_b.xac"/>
  </source>
  <source file="solo.xml" />
  <target file="orphan.xac" />
  <source file="b.ies"><target file="char\copy_a.xac"/></source>
</list>"#;
    let r = tosmole::xml::parse_duplicates_xml(xml).unwrap();
    assert_eq!(
        r,
        vec![
            ("char/copy_a.xac".to_string(), "b.ies".to_string()),
            ("char/copy_b.xac".to_string(), "char/body.xac".to_string()),
        ]
    );
}

#[test]
fn duplicates_of_malformed_xml_fail() {
    let xml = b"<list><source file=\"a\"></target></list>";
    assert_eq!(tosmole::xml::parse_duplicates_xml(xml), Err(XmlError::InvalidData));
    assert_eq!(tosmole::xml::parse_duplicates_xml(b""), Ok(vec![]));
}
