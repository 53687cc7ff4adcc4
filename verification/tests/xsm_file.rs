use tosmole::xsm_file::{is_xsm_path, xsm_parse, XsmFile, XsmFileFault};

fn u32le(v: &mut Vec<u8>, x: u32) {
    v.extend_from_slice(&x.to_le_bytes());
}

fn i32le(v: &mut Vec<u8>, x: i32) {
    v.extend_from_slice(&x.to_le_bytes());
}

fn f32le(v: &mut Vec<u8>, x: f32) {
    v.extend_from_slice(&x.to_le_bytes());
}

fn text(v: &mut Vec<u8>, s: &str) {
    u32le(v, s.len() as u32);
    v.extend_from_slice(s.as_bytes());
}

fn header() -> Vec<u8> {
    vec![b'X', b'S', b'M', b' ', 2, 1, 0, 0]
}

fn chunk(v: &mut Vec<u8>, id: i32, length: i32, data: &[u8]) {
    i32le(v, id);
    i32le(v, length);
    i32le(v, 1);
    v.extend_from_slice(data);
}

fn metadata(name: &str) -> Vec<u8> {
    let mut m = Vec::new();
    f32le(&mut m, 0.0);
    f32le(&mut m, 0.001);
    i32le(&mut m, 30);
    m.extend_from_slice(&[4, 5, 0, 0]);
    text(&mut m, "app");
    text(&mut m, "walk.max");
    text(&mut m, "yesterday");
    text(&mut m, name);
    m
}

fn animation(bones: &[(&str, u32)]) -> Vec<u8> {
    let mut a = Vec::new();
    i32le(&mut a, bones.len() as i32);
    for (name, pos_keys) in bones {
        for q in 0..4i16 {
            for c in 0..4i16 {
                a.extend_from_slice(&(q * 10 + c - 20).to_le_bytes());
            }
        }
        for v in 0..4u32 {
            for c in 0..3u32 {
                f32le(&mut a, (v * 3 + c) as f32);
            }
        }
        i32le(&mut a, *pos_keys as i32);
        i32le(&mut a, 1);
        i32le(&mut a, -1);
        i32le(&mut a, 0);
        f32le(&mut a, 0.5);
        text(&mut a, name);
        for k in 0..*pos_keys {
            f32le(&mut a, 1.0);
            f32le(&mut a, 2.0);
            f32le(&mut a, 3.0);
            f32le(&mut a, k as f32);
        }
        for c in [1i16, -2, 3, -4] {
            a.extend_from_slice(&c.to_le_bytes());
        }
        f32le(&mut a, 0.25);
    }
    a
}

#[test]
fn reads_header_metadata_and_bones() {
    let mut b = header();
    let m = metadata("walk");
    chunk(&mut b, 201, m.len() as i32, &m);
    let a = animation(&[("Bip01", 2), ("Bip01 Head", 0)]);
    chunk(&mut b, 202, a.len() as i32, &a);
    let x = XsmFile::load_from_bytes(b).expect("readable");
    assert_eq!(x.header.magic, "XSM ");
    assert_eq!(x.header.major_version, 2);
    assert_eq!(x.header.minor_version, 1);
    assert!(!x.header.big_endian);
    assert_eq!(x.metadata.fps, 30);
    assert_eq!(x.metadata.motion_name, "walk");
    assert_eq!(x.metadata.export_date, "yesterday");
    assert_eq!(f32::from_bits(x.metadata.max_acceptable_error), 0.001);
    assert_eq!(x.bone_animation.num_submotion, 2);
    let subs = &x.bone_animation.skeletal_submotion;
    assert_eq!(subs.len(), 2);
    assert_eq!(subs[0].node_name, "Bip01");
    assert_eq!(subs[0].pose_rot.x, -20);
    assert_eq!(subs[0].bind_pose_scale_rot.w, 13);
    assert_eq!(f32::from_bits(subs[0].bind_pose_scale_pos.z), 11.0);
    assert_eq!(subs[0].pos_key.len(), 2);
    assert_eq!(f32::from_bits(subs[0].pos_key[1].time), 1.0);
    assert_eq!(subs[0].rot_key.len(), 1);
    assert_eq!(subs[0].rot_key[0].rot.y, -2);
    assert_eq!(subs[0].num_scale_keys, -1);
    assert!(subs[0].scale_key.is_empty());
    assert_eq!(subs[1].node_name, "Bip01 Head");
    assert!(subs[1].pos_key.is_empty());
}

#[test]
fn bone_animation_chunks_are_joined() {
    let mut b = header();
    let a1 = animation(&[("a", 0)]);
    chunk(&mut b, 202, a1.len() as i32, &a1);
    let a2 = animation(&[("b", 1), ("c", 0)]);
    chunk(&mut b, 202, a2.len() as i32, &a2);
    let x = XsmFile::try_load_from_bytes(b).expect("readable");
    assert_eq!(x.bone_animation.num_submotion, 2);
    let names: Vec<&str> = x.bone_animation.skeletal_submotion.iter().map(|s| s.node_name.as_str()).collect();
    assert_eq!(names, vec!["a", "b", "c"]);
}

#[test]
fn other_chunks_are_passed_over() {
    let mut b = header();
    chunk(&mut b, 7, 3, &[1, 2, 3]);
    let m = metadata("idle");
    chunk(&mut b, 201, m.len() as i32, &m);
    let x = XsmFile::try_load_from_bytes(b).expect("readable");
    assert_eq!(x.metadata.motion_name, "idle");
}

#[test]
fn negative_length_ends_reading_or_overflows() {
    // record start 20, length -100: the position lands past any data
    let mut b = header();
    chunk(&mut b, 7, -100, &[]);
    chunk(&mut b, 201, 0, &[]);
    assert!(XsmFile::try_load_from_bytes(b).is_ok());
    // record start 20, length -4: the position would go below zero
    let mut b = header();
    chunk(&mut b, 7, -4, &[]);
    assert_eq!(XsmFile::try_load_from_bytes(b).err(), Some(XsmFileFault::LengthOverflow));
}

#[test]
fn faults() {
    assert_eq!(XsmFile::try_load_from_bytes(vec![1, 2]).err(), Some(XsmFileFault::UnexpectedEof));
    assert_eq!(
        XsmFile::try_load_from_bytes(vec![0xFF, 0xFE, 0, 0, 0, 0, 0, 0]).err(),
        Some(XsmFileFault::InvalidMagic)
    );
    assert_eq!(XsmFile::try_load_from_bytes(vec![b'X', b'S', b'M', b' ', 1]).err(), Some(XsmFileFault::UnexpectedEof));
    let mut b = header();
    chunk(&mut b, 201, 4, &[0, 0, 0, 0]);
    assert_eq!(XsmFile::try_load_from_bytes(b).err(), Some(XsmFileFault::UnexpectedEof));
}

#[test]
fn motion_paths() {
    assert!(is_xsm_path("anim/Walk.XSM"));
    assert!(is_xsm_path("a.xsm"));
    assert!(!is_xsm_path("a.xsmx"));
    assert!(!is_xsm_path("xsm"));
}

#[test]
fn parse_from_a_byte_slice_reads_the_same() {
    let mut b = header();
    let m = metadata("run");
    chunk(&mut b, 201, m.len() as i32, &m);
    let a = animation(&[("Bip01", 1)]);
    chunk(&mut b, 202, a.len() as i32, &a);
    let x = xsm_parse(&b);
    let y = XsmFile::load_from_bytes(b.clone()).expect("readable");
    assert_eq!(x.metadata.motion_name, "run");
    assert_eq!(x.metadata.motion_name, y.metadata.motion_name);
    assert_eq!(x.bone_animation.skeletal_submotion.len(), 1);
    assert_eq!(x.bone_animation.skeletal_submotion[0].pos_key, y.bone_animation.skeletal_submotion[0].pos_key);
}
