use tosmole::mesh::Scene;
use tosmole::xac::{
    XACAttribute, XACChunk, XACChunkData, XACRoot, XacChunkError, XacError, XacFault,
};

fn u32le(v: &mut Vec<u8>, x: u32) {
    v.extend_from_slice(&x.to_le_bytes());
}

fn f32le(v: &mut Vec<u8>, x: f32) {
    v.extend_from_slice(&x.to_le_bytes());
}

fn lstr(v: &mut Vec<u8>, s: &str) {
    u32le(v, s.len() as u32);
    v.extend_from_slice(s.as_bytes());
}

fn chunk(v: &mut Vec<u8>, id: u32, version: u32, data: &[u8]) {
    u32le(v, id);
    u32le(v, data.len() as u32);
    u32le(v, version);
    v.extend_from_slice(data);
}

fn header() -> Vec<u8> {
    let mut v = b"XAC ".to_vec();
    v.extend_from_slice(&[1, 0, 0, 1]);
    v
}

fn std_material_v1(name: &str) -> Vec<u8> {
    let mut d = Vec::new();
    for _ in 0..16 {
        f32le(&mut d, 0.5);
    }
    for _ in 0..4 {
        f32le(&mut d, 1.0);
    }
    d.extend_from_slice(&[1, 0, b'F', 0]);
    lstr(&mut d, name);
    d
}

fn fx_material_v2(bitmaps: &[(&str, &str)]) -> Vec<u8> {
    let mut d = Vec::new();
    u32le(&mut d, 1); // ints
    u32le(&mut d, 0); // floats
    u32le(&mut d, 0); // colors
    u32le(&mut d, 0); // bools
    u32le(&mut d, 0); // vectors
    u32le(&mut d, bitmaps.len() as u32);
    lstr(&mut d, "fxmat");
    lstr(&mut d, "effect.fx");
    lstr(&mut d, "tech");
    u32le(&mut d, (-5i32) as u32);
    lstr(&mut d, "count");
    for (name, value) in bitmaps {
        lstr(&mut d, name);
        lstr(&mut d, value);
    }
    d
}

fn mesh_v1(positions: &[[f32; 3]], indices: &[u32], material: u32) -> Vec<u8> {
    let mut d = Vec::new();
    let n = positions.len() as u32;
    u32le(&mut d, 0); // node
    u32le(&mut d, n); // org verts
    u32le(&mut d, n); // total verts
    u32le(&mut d, indices.len() as u32);
    u32le(&mut d, 1); // submeshes
    u32le(&mut d, 1); // layers
    d.extend_from_slice(&[0, 0, 0, 0]);
    // one position layer
    u32le(&mut d, 0);
    u32le(&mut d, 12);
    d.extend_from_slice(&[0, 0, 0, 0]);
    for p in positions {
        for c in p {
            f32le(&mut d, *c);
        }
    }
    // one submesh
    u32le(&mut d, indices.len() as u32);
    u32le(&mut d, n);
    u32le(&mut d, material);
    u32le(&mut d, 0);
    for i in indices {
        u32le(&mut d, *i);
    }
    d
}

#[test]
fn reads_header_and_material_names() {
    let mut b = header();
    chunk(&mut b, 3, 1, &std_material_v1("skin.dds"));
    chunk(&mut b, 5, 2, &fx_material_v2(&[("diffuse", "face.dds"), ("normal", "face_n.dds")]));
    let root = XACRoot::from_bytes(&b).expect("readable");
    assert_eq!(root.header.fourcc, u32::from_le_bytes(*b"XAC "));
    assert_eq!(root.header.mul_order, 1);
    assert_eq!(root.chunks.len(), 2);
    assert_eq!(root.get_texture_names(), vec!["skin.dds", "face.dds", "face_n.dds"]);
    match &root.chunks[1].chunk_data {
        XACChunkData::XACFXMaterial2(m) => {
            assert_eq!(m.name, "fxmat");
            assert_eq!(m.effect_file, "effect.fx");
            let ints = m.xac_fx_int_parameter.as_ref().expect("one int");
            assert_eq!(ints[0].value, -5);
            assert!(m.xac_fx_float_parameter.is_none());
        }
        _ => panic!("expected an effect material"),
    }
}

#[test]
fn short_header_is_an_error() {
    assert!(matches!(XACRoot::from_bytes(b"XAC"), Err(XacError::Header)));
    assert!(matches!(XACRoot::try_from_bytes(b""), Err(XacFault::Header)));
}

#[test]
fn header_alone_gives_no_chunks() {
    let root = XACRoot::from_bytes(&header()).expect("readable");
    assert!(root.chunks.is_empty());
    assert!(root.get_texture_names().is_empty());
}

#[test]
fn trailing_bytes_shorter_than_a_frame_are_ignored() {
    let mut b = header();
    chunk(&mut b, 13, 1, &[1, 0, 0, 0, 2, 0, 0, 0, 3, 0, 0, 0]);
    b.extend_from_slice(&[9; 11]);
    let root = XACRoot::from_bytes(&b).expect("readable");
    assert_eq!(root.chunks.len(), 1);
    match &root.chunks[0].chunk_data {
        XACChunkData::XACMaterialInfo(m) => {
            assert_eq!((m.num_total_materials, m.num_standard_materials, m.num_fx_materials), (1, 2, 3));
        }
        _ => panic!("expected material info"),
    }
}

#[test]
fn frame_announcing_too_many_bytes_is_unexpected_eof() {
    let mut b = header();
    u32le(&mut b, 13);
    u32le(&mut b, 100);
    u32le(&mut b, 1);
    b.extend_from_slice(&[0; 12]);
    assert!(matches!(XACRoot::from_bytes(&b), Err(XacError::UnexpectedEof)));
    assert!(matches!(XACRoot::try_from_bytes(&b), Err(XacFault::UnexpectedEof)));
}

#[test]
fn unsupported_chunk_is_reported() {
    let mut b = header();
    chunk(&mut b, 99, 1, &[0; 4]);
    match XACRoot::try_from_bytes(&b) {
        Err(XacFault::Chunk(XacChunkError::Unsupported { chunk_id, version })) => {
            assert_eq!((chunk_id, version), (99, 1));
        }
        _ => panic!("expected an unsupported chunk"),
    }
}

#[test]
fn truncated_record_is_reported_malformed() {
    let mut b = header();
    chunk(&mut b, 13, 2, &[0; 8]);
    match XACRoot::try_from_bytes(&b) {
        Err(XacFault::Chunk(XacChunkError::Malformed { chunk_id, version })) => {
            assert_eq!((chunk_id, version), (13, 2));
        }
        _ => panic!("expected a malformed chunk"),
    }
}

#[test]
fn material_layer_version_two_reads_as_first_version() {
    let mut d = Vec::new();
    for _ in 0..6 {
        f32le(&mut d, 1.0);
    }
    d.extend_from_slice(&[7, 0, 2, 9]);
    lstr(&mut d, "tex.dds");
    let mut b = header();
    chunk(&mut b, 4, 2, &d);
    let root = XACRoot::from_bytes(&b).expect("readable");
    match &root.chunks[0].chunk_data {
        XACChunkData::XACStandardMaterialLayer(l) => {
            assert_eq!(l.material_number, 7);
            assert_eq!(l.map_type, 2);
            assert_eq!(l.padding, 9);
            assert_eq!(l.texture_name, "tex.dds");
            assert_eq!(l.amount, 1.0f32.to_bits());
        }
        _ => panic!("expected a first-version layer"),
    }
}

#[test]
fn chunk_and_attribute_numbers() {
    assert_eq!(XACChunk::XACChunkMesh.value(), 1);
    assert_eq!(XACChunk::XACChunkAttachmentnodes.value(), 15);
    assert_eq!(XACChunk::XACForce32bit.value(), 0xFFFF_FFFF);
    assert_eq!(XACAttribute::from_u32(3), Some(XACAttribute::AttribUvcoords));
    assert_eq!(XACAttribute::from_u32(8), None);
    assert_eq!(XACAttribute::AttribBitangents.value(), 7);
}

#[test]
fn morph_targets_nest() {
    let mut d = Vec::new();
    u32le(&mut d, 1); // one nested set
    u32le(&mut d, 4); // lod
    u32le(&mut d, 0); // nested: none
    u32le(&mut d, 5); // nested lod
    let mut b = header();
    chunk(&mut b, 12, 1, &d);
    let root = XACRoot::from_bytes(&b).expect("readable");
    match &root.chunks[0].chunk_data {
        XACChunkData::XACPMorphTargets(t) => {
            assert_eq!(t.lod, 4);
            assert_eq!(t.morph_targets.len(), 1);
            assert_eq!(t.morph_targets[0].lod, 5);
            assert!(t.morph_targets[0].morph_targets.is_empty());
        }
        _ => panic!("expected morph targets"),
    }
}

#[test]
fn scene_from_mesh_turns_sign_of_x() {
    let mut b = header();
    chunk(&mut b, 3, 1, &std_material_v1("zero"));
    chunk(&mut b, 3, 1, &std_material_v1("one.dds"));
    chunk(&mut b, 1, 1, &mesh_v1(&[[1.0, 2.0, 3.0], [-4.0, 5.0, 6.0], [0.0, 0.0, 1.0]], &[0, 1, 2], 1));
    let root = XACRoot::from_bytes(&b).expect("readable");
    let scene = Scene::from_xac_root(&root);
    assert_eq!(scene.root_nodes.len(), 1);
    let model = scene.root_nodes[0].model.as_ref().expect("a model");
    assert_eq!(model.submeshes.len(), 1);
    let s = &model.submeshes[0];
    assert_eq!(s.textures, "one.dds");
    assert_eq!(s.indices, vec![0, 1, 2]);
    assert_eq!(s.positions.len(), 3);
    assert_eq!(f32::from_bits(s.positions[0].x), -1.0);
    assert_eq!(f32::from_bits(s.positions[0].y), 2.0);
    assert_eq!(f32::from_bits(s.positions[1].x), 4.0);
    assert_eq!(f32::from_bits(s.positions[2].z), 1.0);
    assert!(s.normals.is_empty());
    assert!(s.uvcoords.is_empty());
}

#[test]
fn scene_without_meshes_is_empty() {
    let mut b = header();
    chunk(&mut b, 3, 1, &std_material_v1("a"));
    let root = XACRoot::from_bytes(&b).expect("readable");
    assert!(Scene::from_xac_root(&root).root_nodes.is_empty());
}

#[test]
fn scene_can_be_built_only_where_indices_are_there() {
    let mut b = header();
    chunk(&mut b, 3, 1, &std_material_v1("a"));
    chunk(&mut b, 1, 1, &mesh_v1(&[[1.0, 0.0, 0.0], [0.0, 1.0, 0.0], [0.0, 0.0, 1.0]], &[0, 1, 2], 0));
    let mut root = XACRoot::from_bytes(&b).expect("readable");
    assert!(Scene::can_build(&root));
    match &mut root.chunks[1].chunk_data {
        XACChunkData::XACMesh(mesh) => mesh.sub_meshes[0].num_indices = 4,
        _ => panic!("expected a mesh"),
    }
    assert!(!Scene::can_build(&root));
}

#[test]
fn file_without_meshes_can_always_be_built() {
    let mut b = header();
    chunk(&mut b, 3, 1, &std_material_v1("a"));
    let root = XACRoot::from_bytes(&b).expect("readable");
    assert!(Scene::can_build(&root));
}

#[test]
fn print_default_empty_scene() {
    let scene = Scene::default();
    println!("Default empty scene: {} root nodes", scene.root_nodes.len());
    assert!(scene.root_nodes.is_empty(), "Default scene should have no root nodes");
}
