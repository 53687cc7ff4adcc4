use tosmole::ipf::{hex_viewer_lines, BYTES_PER_LINE};

/// The lines as the viewer prints them, written with the standard
/// formatting machinery.
fn reference(data: &[u8]) -> Vec<String> {
    let mut out = Vec::new();
    for (i, chunk) in data.chunks(BYTES_PER_LINE).enumerate() {
        let mut line = format!("{:08}  ", i * BYTES_PER_LINE);
        for b in chunk {
            line.push_str(&format!("{:02X} ", b));
        }
        for _ in 0..(BYTES_PER_LINE - chunk.len()) * 3 {
            line.push(' ');
        }
        line.push(' ');
        for &b in chunk {
            line.push(if b.is_ascii_graphic() || b == b' ' { b as char } else { '.' });
        }
        out.push(line);
    }
    out
}

#[test]
fn hex_view_of_a_full_and_a_short_line() {
    let data = b"ABCDEFGHIJKLMNOP\n";
    let lines = hex_viewer_lines(data);
    assert_eq!(lines.len(), 2);
    assert_eq!(lines[0], "00000000  41 42 43 44 45 46 47 48 49 4A 4B 4C 4D 4E 4F 50  ABCDEFGHIJKLMNOP");
    assert_eq!(lines[1], format!("00000016  0A {} .", " ".repeat(45)));
}

#[test]
fn hex_view_of_nothing_is_empty() {
    assert!(hex_viewer_lines(&[]).is_empty());
}

#[test]
fn hex_view_matches_the_formatting_of_every_byte() {
    let data: Vec<u8> = (0..=255u8).chain(0..40u8).collect();
    assert_eq!(hex_viewer_lines(&data), reference(&data));
}

#[test]
fn hex_view_marks_unprintable_bytes() {
    let data = vec![0x7fu8; 16 * 3 + 5];
    let lines = hex_viewer_lines(&data);
    assert_eq!(lines, reference(&data));
    assert!(lines[3].starts_with("00000048  7F 7F 7F 7F 7F "));
    assert!(lines[3].ends_with("  ....."));
}
