use tosmole::gltf::export_glb_bytes;

#[test]
fn container_with_json_only() {
    let b = export_glb_bytes(b"{}", &[]);
    let mut expect = b"glTF".to_vec();
    expect.extend_from_slice(&2u32.to_le_bytes());
    expect.extend_from_slice(&24u32.to_le_bytes());
    expect.extend_from_slice(&4u32.to_le_bytes());
    expect.extend_from_slice(b"JSON");
    expect.extend_from_slice(b"{}  ");
    assert_eq!(b, expect);
}

#[test]
fn container_with_binary_chunk() {
    let b = export_glb_bytes(b"{\"a\":1}", &[1, 2, 3]);
    assert_eq!(&b[0..4], b"glTF");
    assert_eq!(u32::from_le_bytes([b[8], b[9], b[10], b[11]]) as usize, b.len());
    assert_eq!(u32::from_le_bytes([b[12], b[13], b[14], b[15]]), 8);
    assert_eq!(&b[16..20], b"JSON");
    assert_eq!(&b[20..28], b"{\"a\":1} ");
    assert_eq!(u32::from_le_bytes([b[28], b[29], b[30], b[31]]), 4);
    assert_eq!(&b[32..36], b"BIN\0");
    assert_eq!(&b[36..40], &[1, 2, 3, 0]);
    assert_eq!(b.len(), 40);
}

#[test]
fn export_into_glb_bytes() {
    let mut builder = mesh_tools::GltfBuilder::new();

    let mesh_a = builder.create_box(1.0);
    let node_a = builder.add_node(Some("CubeA".to_string()), Some(mesh_a), Some([0.0, 0.0, 0.0]), None, None);

    let mesh_b = builder.create_box(2.0);
    let rot_b = [0.0, (45f32.to_radians() / 2.0).sin(), 0.0, (45f32.to_radians() / 2.0).cos()];
    let node_b = builder.add_node(
        Some("CubeB".to_string()),
        Some(mesh_b),
        Some([3.0, 0.0, 0.0]),
        Some(rot_b),
        Some([1.2, 1.0, 0.8]),
    );

    let mesh_c = builder.create_box(0.5);
    let rot_c = [0.0, 0.0, (30f32.to_radians() / 2.0).sin(), (30f32.to_radians() / 2.0).cos()];
    let node_c = builder.add_node(Some("CubeC".to_string()), Some(mesh_c), Some([-1.5, 1.0, -0.5]), Some(rot_c), None);

    builder.add_scene(Some("ThreeCubesScene".to_string()), Some(vec![node_a, node_b, node_c]));

    let json = serde_json::to_string(&builder.gltf).expect("GLB export failed");
    let glb = export_glb_bytes(json.as_bytes(), &builder.buffer_data);
    println!("GLB size = {} bytes", glb.len());

    assert_eq!(&glb[0..4], b"glTF");
    assert_eq!(u32::from_le_bytes([glb[8], glb[9], glb[10], glb[11]]) as usize, glb.len());
    assert_eq!(glb.len() % 4, 0);
    let json_chunk = u32::from_le_bytes([glb[12], glb[13], glb[14], glb[15]]) as usize;
    assert_eq!(&glb[20..20 + json.len()], json.as_bytes());
    assert_eq!(&glb[20 + json_chunk + 4..20 + json_chunk + 8], b"BIN\0");
}
