use tosmole::shared_formats::{FileAttribute, FileType, SkeletalMotionType, MOTION_EVENT_TABLE};
use tosmole::xpm::{XPMChunk, XPMChunkData, XPMRoot, XpmError};
use tosmole::xsm::{CompressorType, WaveletType, XSMChunk, XSMChunkData, XSMRoot, XsmError};

fn u32le(v: &mut Vec<u8>, x: u32) {
    v.extend_from_slice(&x.to_le_bytes());
}

fn lstr(v: &mut Vec<u8>, s: &str) {
    u32le(v, s.len() as u32);
    v.extend_from_slice(s.as_bytes());
}

fn frame(v: &mut Vec<u8>, id: u32, size: u32, version: u32) {
    u32le(v, id);
    u32le(v, size);
    u32le(v, version);
}

fn info_v1(fps: u32, name: &str) -> Vec<u8> {
    let mut d = Vec::new();
    u32le(&mut d, fps);
    d.extend_from_slice(&[2, 34, 0, 0]);
    lstr(&mut d, "app");
    lstr(&mut d, "orig.max");
    lstr(&mut d, "2020");
    lstr(&mut d, name);
    d
}

#[test]
fn xsm_reads_info_and_skips_unknown_chunks() {
    let mut b = b"XSM ".to_vec();
    b.extend_from_slice(&[1, 0, 0, 0]);
    let info = info_v1(30, "run");
    frame(&mut b, 201, info.len() as u32, 1);
    b.extend_from_slice(&info);
    frame(&mut b, 999, 4, 1);
    b.extend_from_slice(&[1, 2, 3, 4]);
    frame(&mut b, 202, 4, 2);
    u32le(&mut b, 0);
    let root = XSMRoot::from_bytes(&b).expect("readable");
    assert_eq!(&root.header.fourcc, b"XSM ");
    assert_eq!(root.chunks.len(), 2);
    match &root.chunks[0].chunk_data {
        XSMChunkData::Info(i) => {
            assert_eq!(i.motion_fps, 30);
            assert_eq!(i.motion_name, "run");
            assert_eq!(i.source_app, "app");
        }
        _ => panic!("expected info"),
    }
    match &root.chunks[1].chunk_data {
        XSMChunkData::SubMotions2(s) => assert!(s.sub_motions.is_empty()),
        _ => panic!("expected submotions"),
    }
}

#[test]
fn xsm_record_may_run_past_its_frame() {
    let mut b = b"XSM ".to_vec();
    b.extend_from_slice(&[1, 0, 0, 0]);
    let info = info_v1(24, "walk");
    frame(&mut b, 201, 0, 1);
    b.extend_from_slice(&info);
    let root = XSMRoot::from_bytes(&b).expect("readable");
    assert_eq!(root.chunks.len(), 1);
    assert_eq!(root.chunks[0].chunk.size_in_bytes, 0);
}

#[test]
fn xsm_unreadable_record_is_skipped() {
    let mut b = b"XSM ".to_vec();
    b.extend_from_slice(&[1, 0, 0, 0]);
    frame(&mut b, 201, 4, 1);
    b.extend_from_slice(&[0; 4]);
    let root = XSMRoot::from_bytes(&b).expect("readable");
    assert!(root.chunks.is_empty());
}

#[test]
fn xsm_short_header_is_an_error() {
    assert!(matches!(XSMRoot::from_bytes(b"XSM"), Err(XsmError::Header)));
}

#[test]
fn xsm_kind_numbers() {
    assert_eq!(XSMChunk::Info.value(), 201);
    assert_eq!(XSMChunk::MotionEventTable.value(), MOTION_EVENT_TABLE);
    assert_eq!(WaveletType::CDF97.value(), 2);
    assert_eq!(CompressorType::Rice.value(), 1);
}

#[test]
fn xpm_reads_submotions_with_keys() {
    let mut b = b"XPM ".to_vec();
    b.extend_from_slice(&[1, 0, 0, 0]);
    let mut d = Vec::new();
    u32le(&mut d, 1);
    u32le(&mut d, 0.5f32.to_bits());
    u32le(&mut d, 0.0f32.to_bits());
    u32le(&mut d, 1.0f32.to_bits());
    u32le(&mut d, 0);
    u32le(&mut d, 2);
    lstr(&mut d, "smile");
    for k in 0..2u32 {
        u32le(&mut d, (k as f32).to_bits());
        d.extend_from_slice(&(100u16 + k as u16).to_le_bytes());
        d.extend_from_slice(&[0, 0]);
    }
    frame(&mut b, 102, d.len() as u32, 1);
    b.extend_from_slice(&d);
    let root = XPMRoot::from_bytes(&b).expect("readable");
    assert_eq!(root.chunks.len(), 1);
    match &root.chunks[0].chunk_data {
        XPMChunkData::XPMSubMotions(s) => {
            assert_eq!(s.num_sub_motions, 1);
            let m = &s.progressive_sub_motions[0];
            assert_eq!(m.name, "smile");
            assert_eq!(f32::from_bits(m.pose_weight), 0.5);
            assert_eq!(m.xpm_key.len(), 2);
            assert_eq!(m.xpm_key[1].value, 101);
        }
        _ => panic!("expected submotions"),
    }
}

#[test]
fn xpm_info_and_errors() {
    let mut b = b"XPM ".to_vec();
    b.extend_from_slice(&[1, 0, 0, 0]);
    let info = info_v1(60, "blink");
    frame(&mut b, 101, info.len() as u32, 7);
    b.extend_from_slice(&info);
    let root = XPMRoot::from_bytes(&b).expect("readable");
    match &root.chunks[0].chunk_data {
        XPMChunkData::XPMInfo(i) => assert_eq!((i.motion_fps, i.motion_name.as_str()), (60, "blink")),
        _ => panic!("expected info"),
    }
    assert!(matches!(XPMRoot::from_bytes(&[0; 7]), Err(XpmError::Header)));
    assert_eq!(XPMChunk::SUBMOTIONS.value(), 102);
}

#[test]
fn shared_kinds_and_attribute() {
    let a = FileAttribute::new(1, 12, 3);
    assert_eq!((a.data_type, a.num_bytes, a.flags), (1, 12, 3));
    assert_eq!(SkeletalMotionType::Wavelet.value(), 1);
    assert_eq!(FileType::PMorphMotion.value(), 4);
}
