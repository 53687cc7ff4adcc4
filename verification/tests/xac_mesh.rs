use tosmole::render_util::{try_xac_to_mesh, xac_to_mesh};
use tosmole::xac_file::{
    xac_parse, XacFile, XacMesh, XacShaderMaterial, XacStringProperties, XacSubMesh, XacVec2d, XacVec3d,
    XacVec4d, XacVerticesAttribute,
};

fn v3(i: u32) -> XacVec3d {
    XacVec3d { x: i, y: i + 100, z: i + 200 }
}

fn v4(i: u32) -> XacVec4d {
    XacVec4d { x: i, y: 0, z: 0, w: 1 }
}

fn v2(i: u32) -> XacVec2d {
    XacVec2d { x: i, y: i }
}

fn shader(values: &[&str]) -> XacShaderMaterial {
    XacShaderMaterial {
        num_int: 0,
        num_float: 0,
        num_bool: 0,
        num_string: values.len() as u32,
        flag: 0,
        name_material: String::new(),
        name_shader: String::new(),
        int_property: vec![],
        float_property: vec![],
        bool_property: vec![],
        string_property: values
            .iter()
            .map(|v| XacStringProperties { name_properties: "tex".to_string(), value: v.to_string() })
            .collect(),
    }
}

fn sub(num_vertices: u32, material_id: u32, indices: &[u32]) -> XacSubMesh {
    XacSubMesh {
        num_indices: indices.len() as u32,
        num_vertices,
        material_id,
        num_bones: 0,
        relative_indices: indices.to_vec(),
        bone_id: vec![],
    }
}

fn mesh(n: u32, with_normals: bool, subs: Vec<XacSubMesh>) -> XacMesh {
    XacMesh {
        node_id: 0,
        num_influence_ranges: 0,
        num_vertices: n,
        num_indices: 0,
        num_sub_meshes: subs.len() as u32,
        num_attribute_layer: 0,
        collision_mesh: false,
        vertices_attribute: XacVerticesAttribute {
            type_id: 0,
            attribute_size: 0,
            keep_original: false,
            scale_factor: false,
            vertex_positions: (0..n).map(v3).collect(),
            vertex_normals: if with_normals { (0..n).map(|i| v3(i + 50)).collect() } else { vec![] },
            vertex_tangents: vec![],
            vertex_bi_tangents: (0..n).map(v4).collect(),
            vertex_uvs: (0..n).map(v2).collect(),
            vertex_colors_32: vec![],
            vertex_colors_128: vec![],
            vertex_influences: vec![],
        },
        sub_mesh: subs,
    }
}

fn file(shaders: Vec<XacShaderMaterial>, meshes: Vec<XacMesh>) -> XacFile {
    let mut x = xac_parse(&[b'X', b'A', b'C', b' ', 1, 0, 0, 7]);
    x.shader_material = shaders;
    x.mesh_data = meshes;
    x
}

#[test]
fn sub_meshes_take_their_share_of_the_vertices() {
    let x = file(
        vec![shader(&["a.dds"]), shader(&["b.dds", "c.dds"])],
        vec![
            mesh(5, true, vec![sub(2, 1, &[0, 1]), sub(3, 0, &[]), sub(3, 5, &[2, 0, 1])]),
            mesh(2, false, vec![sub(2, 0, &[])]),
        ],
    );
    let r = xac_to_mesh(x);
    assert_eq!(r.len(), 1);
    assert_eq!(r[0].len(), 2);
    let first = &r[0][0];
    assert_eq!(first.name_texture, "b.dds");
    assert_eq!(first.positions, vec![v3(0), v3(1)]);
    assert_eq!(first.normals, vec![v3(50), v3(51)]);
    assert!(first.tangents.is_empty());
    assert_eq!(first.bi_tangents, vec![v4(0), v4(1)]);
    assert_eq!(first.uv_set, vec![v2(0), v2(1)]);
    assert_eq!(first.mesh_indices, vec![0, 1]);
    let second = &r[0][1];
    // material 5 picks name 5 % 3; its vertices follow the first sub-mesh's,
    // while its texture coordinates start again from the first.
    assert_eq!(second.name_texture, "c.dds");
    assert_eq!(second.positions, vec![v3(2), v3(3), v3(4)]);
    assert_eq!(second.uv_set, vec![v2(0), v2(1), v2(2)]);
    assert_eq!(second.mesh_indices, vec![2, 0, 1]);
}

#[test]
fn meshes_that_do_not_fit_are_refused() {
    let no_names = file(vec![], vec![mesh(2, false, vec![sub(2, 1, &[])])]);
    assert!(try_xac_to_mesh(no_names).is_none());
    let too_many = file(vec![shader(&["a"])], vec![mesh(2, false, vec![sub(2, 1, &[]), sub(1, 1, &[])])]);
    assert!(try_xac_to_mesh(too_many).is_none());
    let no_material = file(vec![], vec![mesh(2, false, vec![sub(9, 0, &[])])]);
    assert_eq!(try_xac_to_mesh(no_material).map(|r| r.len()), Some(0));
}
