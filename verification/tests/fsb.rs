use tosmole::fsb::{ExtraChunk, FSB5File, FsbError, FsbFault, Mode, SampleData};

fn header(mode: u32, num_samples: i32, sample_header_size: i32, name_table_size: i32, data_size: i32) -> Vec<u8> {
    let mut b = b"FSB5".to_vec();
    b.extend_from_slice(&1i32.to_le_bytes());
    b.extend_from_slice(&num_samples.to_le_bytes());
    b.extend_from_slice(&sample_header_size.to_le_bytes());
    b.extend_from_slice(&name_table_size.to_le_bytes());
    b.extend_from_slice(&data_size.to_le_bytes());
    b.extend_from_slice(&mode.to_le_bytes());
    b.extend_from_slice(&[0; 32]);
    b
}

fn bitfield(extra: bool, freq: u64, offset16: u64, samples: u64) -> [u8; 8] {
    let raw = (extra as u64) | (freq << 1) | (offset16 << 6) | (samples << 34);
    raw.to_le_bytes()
}

fn chunk_header(next: bool, size: u32, kind: u32) -> [u8; 4] {
    ((next as u32) | (size << 1) | (kind << 25)).to_le_bytes()
}

#[test]
fn reads_pcm_bank_with_extra_chunks_and_names() {
    let mut sh = Vec::new();
    sh.extend_from_slice(&bitfield(true, 9, 0, 1234));
    sh.extend_from_slice(&chunk_header(true, 4, 2));
    sh.extend_from_slice(&44100u32.to_le_bytes());
    sh.extend_from_slice(&chunk_header(false, 1, 1));
    sh.push(2);
    sh.extend_from_slice(&bitfield(false, 3, 1, 20));
    let mut names = Vec::new();
    names.extend_from_slice(&8u32.to_le_bytes());
    names.extend_from_slice(&13u32.to_le_bytes());
    names.extend_from_slice(b"drum\0bell\0");
    names.extend_from_slice(&[0, 0]);
    let mut b = header(2, 2, sh.len() as i32, names.len() as i32, 24);
    b.extend_from_slice(&sh);
    b.extend_from_slice(&names);
    b.extend_from_slice(&[1; 16]);
    b.extend_from_slice(&[2; 8]);
    let f = FSB5File::read(&b).unwrap();
    assert_eq!(&f.header.id, b"FSB5");
    assert_eq!(f.header.mode, Mode::PCM16);
    assert_eq!(f.header.unknown, None);
    assert_eq!(f.sample_headers.len(), 2);
    let h0 = &f.sample_headers[0];
    assert!(h0.bitfield.extra_params);
    assert_eq!(h0.bitfield.frequency, 9);
    assert_eq!(h0.bitfield.samples, 1234);
    assert_eq!(h0.extra_chunks.len(), 2);
    assert!(matches!(h0.extra_chunks[0], ExtraChunk::Frequency(44100)));
    assert!(matches!(h0.extra_chunks[1], ExtraChunk::Channels(2)));
    assert_eq!(f.sample_headers[1].bitfield.data_offset, 1);
    let names = f.name_table.as_ref().unwrap();
    assert_eq!(names[0].name, "drum");
    assert_eq!(names[1].name_start, 13);
    assert_eq!(names[1].name, "bell");
    assert!(matches!(&f.sample_data[0], SampleData::Raw(d) if d == &vec![1u8; 16]));
    assert!(matches!(&f.sample_data[1], SampleData::Raw(d) if d == &vec![2u8; 8]));
}

#[test]
fn reads_vorbis_packets() {
    let sh = bitfield(false, 1, 0, 0);
    let mut b = header(15, 1, 8, 0, 9);
    b.extend_from_slice(&sh);
    b.extend_from_slice(&3u16.to_le_bytes());
    b.push(0b0000_0101);
    b.extend_from_slice(&[7, 8]);
    b.extend_from_slice(&2u16.to_le_bytes());
    b.push(0);
    b.push(9);
    b.extend_from_slice(&0u16.to_le_bytes());
    let f = FSB5File::read(&b).unwrap();
    match &f.sample_data[0] {
        SampleData::Vorbis(p) => {
            assert_eq!(p.len(), 2);
            assert!(p[0].audio);
            assert_eq!(p[0].r, 2);
            assert_eq!(p[0].data, vec![7, 8]);
            assert!(!p[1].audio);
            assert_eq!(p[1].data, vec![9]);
        }
        _ => panic!("expected vorbis packets"),
    }
}

#[test]
fn errors_and_stops() {
    assert!(matches!(FSB5File::read(b"FSB5"), Err(FsbError::UnexpectedEof)));
    let bad_mode = header(99, 0, 0, 0, 0);
    assert!(matches!(FSB5File::read(&bad_mode), Err(FsbError::InvalidMode)));
    let mut bad_channels = header(2, 1, 13, 0, 0);
    bad_channels.extend_from_slice(&bitfield(true, 1, 0, 0));
    bad_channels.extend_from_slice(&chunk_header(false, 2, 1));
    bad_channels.push(1);
    assert!(matches!(FSB5File::try_read(&bad_channels), Err(FsbFault::Malformed)));
    let mut short_data = header(2, 1, 8, 0, 100);
    short_data.extend_from_slice(&bitfield(false, 1, 0, 0));
    assert!(matches!(FSB5File::read(&short_data), Err(FsbError::UnexpectedEof)));
}
