use tosmole::xac_file::{try_xac_parse, xac_parse, xac_read_string, XacFileFault};

fn u32le(v: &mut Vec<u8>, x: u32) {
    v.extend_from_slice(&x.to_le_bytes());
}

fn f32le(v: &mut Vec<u8>, x: f32) {
    v.extend_from_slice(&x.to_le_bytes());
}

fn text(v: &mut Vec<u8>, s: &str) {
    u32le(v, s.len() as u32);
    v.extend_from_slice(s.as_bytes());
}

fn header() -> Vec<u8> {
    vec![b'X', b'A', b'C', b' ', 1, 0, 0, 7]
}

fn chunk(v: &mut Vec<u8>, id: u32, data: &[u8]) {
    u32le(v, id);
    u32le(v, data.len() as u32);
    u32le(v, 1);
    v.extend_from_slice(data);
}

fn mesh(positions: &[[f32; 3]], ranges: u32, indices: &[u32]) -> Vec<u8> {
    let mut d = Vec::new();
    u32le(&mut d, 3); // node
    u32le(&mut d, ranges);
    u32le(&mut d, positions.len() as u32);
    u32le(&mut d, indices.len() as u32);
    u32le(&mut d, 1); // sub meshes
    u32le(&mut d, 2); // layers
    d.extend_from_slice(&[1, 0, 0, 0]);
    // positions
    u32le(&mut d, 0);
    u32le(&mut d, 12);
    d.extend_from_slice(&[0, 0, 0, 0]);
    for p in positions {
        for c in p {
            f32le(&mut d, *c);
        }
    }
    // 32-bit colours
    u32le(&mut d, 4);
    u32le(&mut d, 3);
    d.extend_from_slice(&[0, 1, 0, 0]);
    for i in 0..positions.len() {
        d.extend_from_slice(&[i as u8, 10, 20]);
    }
    // one sub mesh
    u32le(&mut d, indices.len() as u32);
    u32le(&mut d, positions.len() as u32);
    u32le(&mut d, 5); // material
    u32le(&mut d, 1); // bones
    for i in indices {
        u32le(&mut d, *i);
    }
    u32le(&mut d, 9);
    d
}

#[test]
fn reads_text_as_one_character_per_byte() {
    let mut b = Vec::new();
    u32le(&mut b, 3);
    b.extend_from_slice(&[b'a', 0xE9, b'z']);
    let (s, end) = xac_read_string(&b, 0).expect("text");
    assert_eq!(s, "a\u{e9}z");
    assert_eq!(end, 7);
}

#[test]
fn negative_text_length_reads_nothing() {
    let mut b = Vec::new();
    u32le(&mut b, 0xFFFF_FFFF);
    let (s, end) = xac_read_string(&b, 0).expect("text");
    assert_eq!(s, "");
    assert_eq!(end, 4);
}

#[test]
fn header_alone_gives_an_empty_actor() {
    let x = xac_parse(&header());
    assert_eq!(x.header.magic, "XAC ");
    assert_eq!(x.header.multiply_order, 7);
    assert!(x.mesh_data.is_empty());
    assert!(x.shader_material.is_empty());
    assert_eq!(x.metadata.actor_name, "");
}

#[test]
fn header_faults() {
    assert_eq!(try_xac_parse(b"XA").err(), Some(XacFileFault::UnexpectedEof));
    assert_eq!(try_xac_parse(b"XAD \x01\x00\x00\x00").err(), Some(XacFileFault::BadMagic));
    assert_eq!(
        try_xac_parse(b"XAC \x02\x01\x00\x00").err(),
        Some(XacFileFault::UnsupportedVersion { major: 2, minor: 1 })
    );
    assert_eq!(try_xac_parse(b"XAC \x01\x00\x01\x00").err(), Some(XacFileFault::BigEndian));
    assert_eq!(try_xac_parse(b"XAC \x01\x00\x00").err(), Some(XacFileFault::UnexpectedEof));
}

#[test]
fn mesh_layers_and_parts() {
    let mut b = header();
    chunk(&mut b, 1, &mesh(&[[1.0, 2.0, 3.0], [4.0, 5.0, 6.0]], 2, &[0, 1, 1]));
    let x = xac_parse(&b);
    assert_eq!(x.mesh_data.len(), 1);
    let m = &x.mesh_data[0];
    assert_eq!(m.node_id, 3);
    assert_eq!(m.num_vertices, 2);
    assert!(m.collision_mesh);
    let a = &m.vertices_attribute;
    assert_eq!(a.type_id, 4);
    assert_eq!(a.attribute_size, 3);
    assert!(!a.keep_original);
    assert!(a.scale_factor);
    assert_eq!(a.vertex_positions.len(), 2);
    assert_eq!(f32::from_bits(a.vertex_positions[1].y), 5.0);
    assert_eq!(a.vertex_colors_32.len(), 2);
    assert_eq!((a.vertex_colors_32[1].x, a.vertex_colors_32[1].y, a.vertex_colors_32[1].z), (1, 10, 20));
    assert!(a.vertex_normals.is_empty());
    assert_eq!(m.sub_mesh.len(), 1);
    assert_eq!(m.sub_mesh[0].material_id, 5);
    assert_eq!(m.sub_mesh[0].relative_indices, vec![0, 1, 1]);
    assert_eq!(m.sub_mesh[0].bone_id, vec![9]);
}

#[test]
fn second_tangent_layer_fills_bitangents_and_a_third_is_skipped() {
    let mut d = Vec::new();
    u32le(&mut d, 0);
    u32le(&mut d, 0);
    u32le(&mut d, 1); // one vertex
    u32le(&mut d, 0);
    u32le(&mut d, 0); // no sub meshes
    u32le(&mut d, 3); // three layers
    d.extend_from_slice(&[0, 0, 0, 0]);
    for k in 0..2u32 {
        u32le(&mut d, 2);
        u32le(&mut d, 16);
        d.extend_from_slice(&[0, 0, 0, 0]);
        for c in 0..4u32 {
            u32le(&mut d, 10 * k + c);
        }
    }
    u32le(&mut d, 2);
    u32le(&mut d, 16);
    d.extend_from_slice(&[0, 0, 0, 0]);
    let mut b = header();
    chunk(&mut b, 1, &d);
    let x = xac_parse(&b);
    let a = &x.mesh_data[0].vertices_attribute;
    assert_eq!(a.vertex_tangents.len(), 1);
    assert_eq!(a.vertex_tangents[0].w, 3);
    assert_eq!(a.vertex_bi_tangents.len(), 1);
    assert_eq!(a.vertex_bi_tangents[0].x, 10);
}

#[test]
fn skinning_takes_its_runs_from_the_last_mesh() {
    let mut b = header();
    chunk(&mut b, 1, &mesh(&[[0.0, 0.0, 0.0]], 2, &[0]));
    let mut s = Vec::new();
    u32le(&mut s, 4);
    u32le(&mut s, 6);
    u32le(&mut s, 1); // one influence
    s.extend_from_slice(&[0, 0, 0, 0]);
    f32le(&mut s, 0.5);
    u32le(&mut s, 2);
    for r in [(0u32, 1u32), (1, 0)] {
        u32le(&mut s, r.0);
        u32le(&mut s, r.1);
    }
    chunk(&mut b, 2, &s);
    let x = xac_parse(&b);
    assert_eq!(x.skinning.node_id, 4);
    assert_eq!(x.skinning.num_local_bones, 6);
    assert_eq!(x.skinning.influence_data.len(), 1);
    assert_eq!(f32::from_bits(x.skinning.influence_data[0].weight), 0.5);
    assert_eq!(x.skinning.influence_data[0].bone_id, 2);
    assert_eq!(x.skinning.influence_range.len(), 2);
    assert_eq!(x.skinning.influence_range[1].first_influence_index, 1);
}

#[test]
fn skinning_before_any_mesh_is_a_fault() {
    let mut b = header();
    let mut s = Vec::new();
    u32le(&mut s, 0);
    u32le(&mut s, 0);
    u32le(&mut s, 0);
    s.extend_from_slice(&[0, 0, 0, 0]);
    chunk(&mut b, 2, &s);
    assert_eq!(try_xac_parse(&b).err(), Some(XacFileFault::SkinningWithoutMesh));
}

#[test]
fn records_of_the_last_chunk_and_joined_lists() {
    let mut b = header();
    // metadata twice: the last one stays
    for name in ["first", "second"] {
        let mut m = Vec::new();
        u32le(&mut m, 1);
        u32le(&mut m, 2);
        m.extend_from_slice(&[3, 4, 0, 0]);
        f32le(&mut m, 1.5);
        text(&mut m, "app");
        text(&mut m, "file.max");
        text(&mut m, "today");
        text(&mut m, name);
        chunk(&mut b, 7, &m);
    }
    // two skeleton chunks: nodes joined, counts of the last
    for (n, name) in [(1u32, "root"), (1, "arm")] {
        let mut h = Vec::new();
        u32le(&mut h, n);
        u32le(&mut h, 1);
        h.extend_from_slice(&[0u8; 76]);
        u32le(&mut h, 0xFFFF_FFFF);
        u32le(&mut h, 0);
        u32le(&mut h, 1);
        h.extend_from_slice(&[0u8; 64]);
        f32le(&mut h, 1.0);
        text(&mut h, name);
        chunk(&mut b, 11, &h);
    }
    let mut t = Vec::new();
    u32le(&mut t, 3);
    u32le(&mut t, 2);
    u32le(&mut t, 1);
    chunk(&mut b, 13, &t);
    chunk(&mut b, 12, &[1, 2, 3]);
    chunk(&mut b, 99, &[]);
    let x = xac_parse(&b);
    assert_eq!(x.metadata.actor_name, "second");
    assert_eq!(x.metadata.source_app, "app");
    assert_eq!(x.metadata.exporter_minor_version, 4);
    assert_eq!(f32::from_bits(x.metadata.retarget_root_offset), 1.5);
    assert_eq!(x.node_hierarchy.num_nodes, 1);
    assert_eq!(x.node_hierarchy.node.len(), 2);
    assert_eq!(x.node_hierarchy.node[0].name, "root");
    assert_eq!(x.node_hierarchy.node[1].name, "arm");
    assert_eq!(x.node_hierarchy.node[1].parent_node_id, 0xFFFF_FFFF);
    assert_eq!(x.node_hierarchy.node[1].include_inbounds_calc, 1);
    assert_eq!(x.material_totals.num_total_materials, 3);
    assert_eq!(x.material_totals.num_fx_materials, 1);
}

#[test]
fn material_and_effect_material() {
    let mut b = header();
    let mut m = Vec::new();
    m.extend_from_slice(&[0u8; 64]);
    for f in [0.25f32, 1.0, 0.5, 1.3] {
        f32le(&mut m, f);
    }
    m.extend_from_slice(&[1, 0, 0, 1]);
    text(&mut m, "skin");
    for f in [1.0f32, 0.0, 0.0, 1.0, 1.0, 0.0] {
        f32le(&mut m, f);
    }
    m.extend_from_slice(&(-2i16).to_le_bytes());
    m.extend_from_slice(&[2, 0]);
    text(&mut m, "skin.dds");
    chunk(&mut b, 3, &m);

    let mut s = Vec::new();
    u32le(&mut s, 1); // ints
    u32le(&mut s, 1); // floats
    u32le(&mut s, 0);
    u32le(&mut s, 1); // bools
    u32le(&mut s, 8); // flag
    u32le(&mut s, 1); // strings
    text(&mut s, "mat");
    text(&mut s, "shader");
    text(&mut s, "count");
    u32le(&mut s, 42);
    text(&mut s, "gloss");
    f32le(&mut s, 0.75);
    text(&mut s, "lit");
    s.push(1);
    u32le(&mut s, 2); // skipped run
    s.extend_from_slice(&[0xAA, 0xBB]);
    text(&mut s, "diffuse");
    text(&mut s, "face.dds");
    chunk(&mut b, 5, &s);

    let x = xac_parse(&b);
    let md = &x.material_definition;
    assert_eq!(f32::from_bits(md.shine), 0.25);
    assert!(md.double_sided);
    assert!(!md.wireframe);
    assert_eq!(md.num_layers, 1);
    assert_eq!(md.name, "skin");
    assert_eq!(md.layers.len(), 1);
    assert_eq!(md.layers[0].material_id, -2);
    assert_eq!(md.layers[0].map_type, 2);
    assert_eq!(md.layers[0].name, "skin.dds");
    assert_eq!(x.shader_material.len(), 1);
    let sm = &x.shader_material[0];
    assert_eq!(sm.flag, 8);
    assert_eq!(sm.name_shader, "shader");
    assert_eq!(sm.int_property[0].value, 42);
    assert_eq!(f32::from_bits(sm.float_property[0].value), 0.75);
    assert_eq!(sm.bool_property[0].value, 1);
    assert_eq!(sm.string_property[0].name_properties, "diffuse");
    assert_eq!(sm.string_property[0].value, "face.dds");
}

#[test]
fn truncated_frame_or_record_is_unexpected_eof() {
    let mut b = header();
    b.extend_from_slice(&[1, 0, 0]);
    assert_eq!(try_xac_parse(&b).err(), Some(XacFileFault::UnexpectedEof));

    let mut b = header();
    let mut t = Vec::new();
    u32le(&mut t, 3);
    chunk(&mut b, 13, &t);
    assert_eq!(try_xac_parse(&b).err(), Some(XacFileFault::UnexpectedEof));
}

#[test]
fn next_frame_follows_the_announced_length() {
    let mut b = header();
    // a material-count chunk announcing more bytes than its record: the
    // extra bytes are passed over
    let mut t = Vec::new();
    u32le(&mut t, 1);
    u32le(&mut t, 1);
    u32le(&mut t, 0);
    t.extend_from_slice(&[0xEE; 5]);
    chunk(&mut b, 13, &t);
    let mut t2 = Vec::new();
    u32le(&mut t2, 9);
    u32le(&mut t2, 9);
    u32le(&mut t2, 0);
    chunk(&mut b, 13, &t2);
    let x = xac_parse(&b);
    assert_eq!(x.material_totals.num_total_materials, 9);
}
