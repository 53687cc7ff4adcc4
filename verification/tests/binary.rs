use tosmole::binary::{reversed, BinaryReader, BinaryWriter, Endian, IoError, SeekFrom};

#[test]
fn reader_reads_integers_in_either_order() {
    let mut r = BinaryReader::new(vec![0x01, 0x02, 0x03, 0x04, 0x05, 0x06, 0x07], Endian::Little);
    assert_eq!(r.read_u8(), Ok(0x01));
    assert_eq!(r.read_u16(), Ok(0x0302));
    assert_eq!(r.read_u32_with(Endian::Big), Ok(0x04050607));
    assert_eq!(r.position(), Ok(7));
    assert_eq!(r.read_u8(), Err(IoError::UnexpectedEof));
    assert_eq!(r.position(), Ok(7));
}

#[test]
fn big_endian_reader_reads_big_endian_by_default() {
    let mut r = BinaryReader::new(vec![0x12, 0x34, 0xAB, 0xCD, 0xEF, 0x01], Endian::Big);
    assert_eq!(r.read_u16(), Ok(0x1234));
    assert_eq!(r.read_u32(), Ok(0xABCDEF01));
}

#[test]
fn requested_endian_alone_fixes_the_byte_order() {
    for d in [Endian::Little, Endian::Big] {
        let mut r = BinaryReader::new(vec![0x12, 0x34], d);
        assert_eq!(r.read_u16_with(Endian::Big), Ok(0x1234));
        let mut r = BinaryReader::new(vec![0x12, 0x34], d);
        assert_eq!(r.read_u16_with(Endian::Little), Ok(0x3412));
        let mut r = BinaryReader::new(vec![1, 2, 3, 4], d);
        assert_eq!(r.read_u32_with(Endian::Big), Ok(0x01020304));
        let mut r = BinaryReader::new(vec![1, 2, 3, 4], d);
        assert_eq!(r.read_u32_with(Endian::Little), Ok(0x04030201));
        let mut w = BinaryWriter::new(d);
        assert_eq!(w.write_u16_with(0x1234, Endian::Big), Ok(()));
        assert_eq!(w.write_u32_with(0x01020304, Endian::Little), Ok(()));
        assert_eq!(w.data(), &vec![0x12, 0x34, 4, 3, 2, 1]);
    }
}

#[test]
fn reader_exact_vec_and_string() {
    let mut r = BinaryReader::new(b"abcdef".to_vec(), Endian::Little);
    assert_eq!(r.read_exact::<2>(), Ok(b"ab".to_vec()));
    assert_eq!(r.read_with_endian::<2>(Endian::Big), Ok(b"dc".to_vec()));
    assert_eq!(r.read_string(2), Ok("ef".to_string()));
    assert_eq!(r.read_vec(1), Err(IoError::UnexpectedEof));
}

#[test]
fn short_read_leaves_position_unchanged() {
    let mut r = BinaryReader::new(vec![1, 2, 3], Endian::Little);
    assert_eq!(r.read_u32(), Err(IoError::UnexpectedEof));
    assert_eq!(r.position(), Ok(0));
    assert_eq!(r.read_u16(), Ok(0x0201));
}

#[test]
fn reader_seeks() {
    let mut r = BinaryReader::new(vec![0, 1, 2, 3, 4, 5, 6, 7, 8, 9], Endian::Little);
    assert_eq!(r.seek(SeekFrom::End(-2)), Ok(8));
    assert_eq!(r.read_u8(), Ok(8));
    assert_eq!(r.seek(SeekFrom::Current(-5)), Ok(4));
    assert_eq!(r.seek(SeekFrom::Start(20)), Ok(20));
    assert_eq!(r.read_u8(), Err(IoError::UnexpectedEof));
    assert_eq!(r.seek(SeekFrom::End(-11)), Err(IoError::InvalidInput));
    assert_eq!(r.position(), Ok(20));
}

#[test]
fn writer_then_reader_gives_back_values() {
    let mut w = BinaryWriter::new(Endian::Little);
    assert_eq!(w.write_u8(7), Ok(()));
    assert_eq!(w.write_u16(0xBEEF), Ok(()));
    assert_eq!(w.write_u32_with(0x01020304, Endian::Big), Ok(()));
    assert_eq!(w.write_string("hi"), Ok(()));
    assert_eq!(w.flush(), Ok(()));
    assert_eq!(w.data(), &vec![7, 0xEF, 0xBE, 1, 2, 3, 4, b'h', b'i']);
    let mut r = BinaryReader::new(w.data().clone(), Endian::Little);
    assert_eq!(r.read_u8(), Ok(7));
    assert_eq!(r.read_u16(), Ok(0xBEEF));
    assert_eq!(r.read_u32_with(Endian::Big), Ok(0x01020304));
    assert_eq!(r.read_string(2), Ok("hi".to_string()));
}

#[test]
fn writer_overwrites_and_pads_after_seek() {
    let mut w = BinaryWriter::new(Endian::Big);
    assert_eq!(w.write_u32(0x11223344), Ok(()));
    assert_eq!(w.seek(SeekFrom::Start(1)), Ok(1));
    assert_eq!(w.write_u16_with(0xAAAA, Endian::Little), Ok(()));
    assert_eq!(w.data(), &vec![0x11, 0xAA, 0xAA, 0x44]);
    assert_eq!(w.seek(SeekFrom::End(2)), Ok(6));
    assert_eq!(w.write_vec(&[9]), Ok(()));
    assert_eq!(w.data(), &vec![0x11, 0xAA, 0xAA, 0x44, 0, 0, 9]);
    assert_eq!(w.position(), Ok(7));
    assert_eq!(w.seek(SeekFrom::Current(-8)), Err(IoError::InvalidInput));
}

#[test]
fn reversed_reverses() {
    assert_eq!(reversed(&vec![1, 2, 3]), vec![3, 2, 1]);
    assert!(reversed(&vec![]).is_empty());
}
