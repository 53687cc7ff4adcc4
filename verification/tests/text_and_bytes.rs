use tosmole::bytes::{get_i16_le, get_i32_le, get_u16_le, get_u32_le, get_u64_le, to_i8, u16_le_bytes, u32_le_bytes};
use tosmole::decode::{take_bytes, take_i16, take_i32, take_lstr, take_u16s, take_u32, take_u32s};
use tosmole::order::order_chars;
use tosmole::paths::{components_of, file_name_of, parent_of, PathPart};
use tosmole::sort::stable_order;
use tosmole::text::{
    chars_of, contains_chars, decimal_string, decimal_u64, string_from_chars, to_lowercase,
    trim_nul_end, trim_unprintable_end, utf8_lossy, utf8_strict, xor_bytes,
};

#[test]
fn little_endian_integers() {
    let b = [0xFE, 0xFF, 0xFF, 0xFF, 0x01, 0x00, 0x00, 0x80];
    assert_eq!(get_u16_le(&b, 0), 0xFFFE);
    assert_eq!(get_i16_le(&b, 0), -2);
    assert_eq!(get_u32_le(&b, 4), 0x8000_0001);
    assert_eq!(get_i32_le(&b, 0), -2);
    assert_eq!(get_i32_le(&b, 4), i32::MIN + 1);
    assert_eq!(get_u64_le(&b, 0), 0x8000_0001_FFFF_FFFE);
    assert_eq!(to_i8(200), -56);
    assert_eq!(to_i8(5), 5);
    assert_eq!(u16_le_bytes(0x1234), vec![0x34, 0x12]);
    assert_eq!(u32_le_bytes(0x01020304), vec![4, 3, 2, 1]);
    assert_eq!(get_u32_le(&u32_le_bytes(0xCAFEBABE), 0), 0xCAFEBABE);
}

#[test]
fn field_readers() {
    let mut b = Vec::new();
    b.extend_from_slice(&3u32.to_le_bytes());
    b.extend_from_slice(b"abc");
    b.extend_from_slice(&(-7i16).to_le_bytes());
    assert_eq!(take_lstr(&b, 0), Some(("abc".to_string(), 7)));
    assert_eq!(take_i16(&b, 7), Some((-7, 9)));
    assert_eq!(take_i16(&b, 8), None);
    assert_eq!(take_u32(&b, 6), None);
    assert_eq!(take_lstr(&b, 1), None);
    assert_eq!(take_bytes(&b, 4, 3), Some((b"abc".to_vec(), 7)));
    assert_eq!(take_u16s(&[1, 0, 2, 0, 3], 0, 2), Some((vec![1, 2], 4)));
    assert_eq!(take_u32s(&[1, 0, 0, 0], 0, 2), None);
    assert_eq!(take_i32(&(-1i32).to_le_bytes(), 0), Some((-1, 4)));
}

#[test]
fn decoding_text() {
    assert_eq!(utf8_lossy(b"ok"), "ok");
    assert_eq!(utf8_lossy(&[0x66, 0xFF]), "f\u{FFFD}");
    assert!(utf8_strict(vec![0xFF]).is_err());
    assert_eq!(utf8_strict(b"fine".to_vec()).unwrap(), "fine");
    assert_eq!(string_from_chars(&['a', 'b']), "ab");
    assert_eq!(chars_of("héllo"), vec!['h', 'é', 'l', 'l', 'o']);
}

#[test]
fn trimming_and_masking() {
    assert_eq!(trim_unprintable_end("name\u{1}\u{0}\u{7f}"), "name");
    assert_eq!(trim_unprintable_end("keep \t\n"), "keep \t\n");
    assert_eq!(trim_nul_end("ab\0\0"), "ab");
    assert_eq!(trim_nul_end("a\0b"), "a\0b");
    assert_eq!(xor_bytes(&[0x00, 0x01, 0xFF]), vec![0x01, 0x00, 0xFE]);
    assert_eq!(xor_bytes(&xor_bytes(b"round trip")), b"round trip".to_vec());
}

#[test]
fn lowercase_contains_and_numbers() {
    assert_eq!(to_lowercase("MiXeD.XAC"), "mixed.xac");
    let hay: Vec<char> = "char_hi/body".chars().collect();
    let yes: Vec<char> = "hi/b".chars().collect();
    let no: Vec<char> = "hib".chars().collect();
    assert!(contains_chars(&hay, &yes));
    assert!(!contains_chars(&hay, &no));
    assert!(contains_chars(&hay, &[]));
    assert_eq!(decimal_string(-1205), "-1205");
    assert_eq!(decimal_string(0), "0");
    assert_eq!(decimal_string(i32::MIN), "-2147483648");
    assert_eq!(decimal_u64(u64::MAX), "18446744073709551615");
}

#[test]
fn ordering_and_stable_sort() {
    let a: Vec<char> = "abc".chars().collect();
    let b: Vec<char> = "abd".chars().collect();
    let c: Vec<char> = "ab".chars().collect();
    assert_eq!(order_chars(&a, &b), -1);
    assert_eq!(order_chars(&b, &a), 1);
    assert_eq!(order_chars(&a, &a), 0);
    assert_eq!(order_chars(&c, &a), -1);
    let keys: Vec<Vec<char>> = vec![b.clone(), a.clone(), b.clone(), c.clone()];
    assert_eq!(stable_order(&keys), vec![3, 1, 0, 2]);
}

#[test]
fn path_wrappers() {
    assert_eq!(file_name_of("a/b/c.txt"), Some("c.txt".to_string()));
    assert_eq!(file_name_of(".."), None);
    assert_eq!(parent_of("a/b/c.txt"), Some("a/b".to_string()));
    assert_eq!(parent_of("c.txt"), Some("".to_string()));
    let parts = components_of("a/b");
    assert_eq!(parts.len(), 2);
    assert!(matches!(&parts[0], PathPart::Normal(s) if s == "a"));
}
