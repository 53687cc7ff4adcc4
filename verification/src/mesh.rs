//! A scene built from an XAC actor: one node per mesh chunk, each holding a
//! model whose submeshes take their vertices, in order, from the mesh's
//! attribute layers. Every component that is a 32-bit float is kept as its
//! bits.

use vstd::prelude::*;
use crate::bytes::{get_u32_le, le32};
use crate::xac::{
    XACAttribute, XACChunk, XACChunkData, XACChunkEntry, XACRoot, XACSubMesh,
    XACVertexAttributeLayer, textures_of, texts_of,
};

verus! {

/// A 2D vector; components as the bits of 32-bit floats.
#[derive(Debug, Clone, Copy, PartialEq, Eq, Structural)]
pub struct Vector2 {
    pub x: u32,
    pub y: u32,
}

/// A 3D vector; components as the bits of 32-bit floats.
#[derive(Debug, Clone, Copy, PartialEq, Eq, Structural)]
pub struct Vector3 {
    pub x: u32,
    pub y: u32,
    pub z: u32,
}

/// A 4D vector; components as the bits of 32-bit floats.
#[derive(Debug, Clone, Copy, PartialEq, Eq, Structural)]
pub struct Vector4 {
    pub x: u32,
    pub y: u32,
    pub z: u32,
    pub w: u32,
}

/// An RGBA color; components as the bits of 32-bit floats.
#[derive(Debug, Clone, Copy, PartialEq, Eq, Structural)]
pub struct RGBAColor {
    pub r: u32,
    pub g: u32,
    pub b: u32,
    pub a: u32,
}

/// The vertices, texture and indices of one submesh.
pub struct SubMesh {
    pub name: String,
    pub textures: String,
    pub positions: Vec<Vector3>,
    pub normals: Vec<Vector3>,
    pub tangents: Vec<Vector4>,
    pub bitangents: Vec<Vector3>,
    pub uvcoords: Vec<Vector2>,
    pub colors32: Vec<u32>,
    pub colors128: Vec<RGBAColor>,
    pub original_vertex_numbers: Vec<u32>,
    pub indices: Vec<u32>,
}

/// A named list of submeshes.
pub struct Model {
    pub name: String,
    pub submeshes: Vec<SubMesh>,
}

/// A node of the scene: a name, a 4x4 transform (bits of 32-bit floats), a
/// model and child nodes.
pub struct SceneNode {
    pub name: String,
    pub transform: Option<[[u32; 4]; 4]>,
    pub model: Option<Model>,
    pub children: Vec<SceneNode>,
}

/// The nodes at the root of a scene.
pub struct Scene {
    pub root_nodes: Vec<SceneNode>,
}

impl Default for Scene {
    /// The empty scene.
    fn default() -> (r: Scene)
        ensures
            r.root_nodes@.len() == 0,
    {
        Scene { root_nodes: Vec::new() }
    }
}

// ------------------------------------------------------------------ vertex data

/// The bits of a 32-bit float with its sign turned (what negating it gives).
pub open spec fn negated(bits: u32) -> u32 {
    bits ^ 0x8000_0000u32
}

/// The data of the first layer of kind `id`, if any.
pub open spec fn layer_data(layers: Seq<XACVertexAttributeLayer>, id: u32) -> Option<Seq<u8>>
    decreases layers.len(),
{
    if layers.len() == 0 {
        None
    } else if layers[0].layer_type_id == id {
        Some(layers[0].mesh_data@)
    } else {
        layer_data(layers.drop_first(), id)
    }
}

/// How many of the `n` vertices from vertex `o` have a whole value of
/// `size` bytes in data of `len` bytes.
pub open spec fn fit_count(len: int, size: int, o: int, n: int) -> int {
    let cap = len / size - o;
    if cap <= 0 {
        0
    } else if cap >= n {
        n
    } else {
        cap
    }
}

/// The 32-bit word at `k`.
pub open spec fn word(d: Seq<u8>, k: int) -> u32 {
    le32(d, k) as u32
}

/// Positions (or normals) of vertices `o` to `o + n`: three words each, the
/// first with its sign turned; only those whose words the data holds.
pub open spec fn flipped_vec3s(d: Option<Seq<u8>>, o: int, n: int) -> Seq<Vector3> {
    match d {
        None => Seq::empty(),
        Some(d) => Seq::new(
            fit_count(d.len() as int, 12, o, n) as nat,
            |i: int| Vector3 {
                x: negated(word(d, (o + i) * 12)),
                y: word(d, (o + i) * 12 + 4),
                z: word(d, (o + i) * 12 + 8),
            },
        ),
    }
}

/// Three words per vertex, as stored.
pub open spec fn vec3s(d: Option<Seq<u8>>, o: int, n: int) -> Seq<Vector3> {
    match d {
        None => Seq::empty(),
        Some(d) => Seq::new(
            fit_count(d.len() as int, 12, o, n) as nat,
            |i: int| Vector3 {
                x: word(d, (o + i) * 12),
                y: word(d, (o + i) * 12 + 4),
                z: word(d, (o + i) * 12 + 8),
            },
        ),
    }
}

/// Four words per vertex, as stored.
pub open spec fn vec4s(d: Option<Seq<u8>>, o: int, n: int) -> Seq<Vector4> {
    match d {
        None => Seq::empty(),
        Some(d) => Seq::new(
            fit_count(d.len() as int, 16, o, n) as nat,
            |i: int| Vector4 {
                x: word(d, (o + i) * 16),
                y: word(d, (o + i) * 16 + 4),
                z: word(d, (o + i) * 16 + 8),
                w: word(d, (o + i) * 16 + 12),
            },
        ),
    }
}

/// Two words per vertex, as stored.
pub open spec fn vec2s(d: Option<Seq<u8>>, o: int, n: int) -> Seq<Vector2> {
    match d {
        None => Seq::empty(),
        Some(d) => Seq::new(
            fit_count(d.len() as int, 8, o, n) as nat,
            |i: int| Vector2 { x: word(d, (o + i) * 8), y: word(d, (o + i) * 8 + 4) },
        ),
    }
}

/// One word per vertex, as stored.
pub open spec fn words(d: Option<Seq<u8>>, o: int, n: int) -> Seq<u32> {
    match d {
        None => Seq::empty(),
        Some(d) => Seq::new(fit_count(d.len() as int, 4, o, n) as nat, |i: int| word(d, (o + i) * 4)),
    }
}

/// Four words per vertex as a color, as stored.
pub open spec fn colors(d: Option<Seq<u8>>, o: int, n: int) -> Seq<RGBAColor> {
    match d {
        None => Seq::empty(),
        Some(d) => Seq::new(
            fit_count(d.len() as int, 16, o, n) as nat,
            |i: int| RGBAColor {
                r: word(d, (o + i) * 16),
                g: word(d, (o + i) * 16 + 4),
                b: word(d, (o + i) * 16 + 8),
                a: word(d, (o + i) * 16 + 12),
            },
        ),
    }
}

/// How many vertices the first `k` submeshes have together.
pub open spec fn verts_before(subs: Seq<XACSubMesh>, k: int) -> int
    decreases k,
{
    if k <= 0 {
        0
    } else {
        verts_before(subs, k - 1) + subs[k - 1].num_verts
    }
}

/// The texture of a submesh with material `m`: the texture with that index
/// for a material other than 0, where there is one; else empty.
pub open spec fn texture_for(textures: Seq<Seq<char>>, m: u32) -> Seq<char> {
    if m != 0 && m < textures.len() {
        textures[m as int]
    } else {
        Seq::empty()
    }
}

/// `s` is the submesh built from `sub`, whose vertices start at vertex `o`
/// of the layers.
pub open spec fn submesh_built(
    layers: Seq<XACVertexAttributeLayer>,
    textures: Seq<Seq<char>>,
    sub: XACSubMesh,
    o: int,
    s: SubMesh,
) -> bool {
    let n = sub.num_verts as int;
    &&& s.name@ == Seq::<char>::empty()
    &&& s.textures@ == texture_for(textures, sub.material_index)
    &&& s.indices@ == sub.indices@.take(sub.num_indices as int)
    &&& s.positions@ == flipped_vec3s(layer_data(layers, 0), o, n)
    &&& s.normals@ == flipped_vec3s(layer_data(layers, 1), o, n)
    &&& s.tangents@ == vec4s(layer_data(layers, 2), o, n)
    &&& s.uvcoords@ == vec2s(layer_data(layers, 3), o, n)
    &&& s.colors32@ == words(layer_data(layers, 4), o, n)
    &&& s.colors128@ == colors(layer_data(layers, 6), o, n)
    &&& s.bitangents@ == vec3s(layer_data(layers, 7), o, n)
    &&& s.original_vertex_numbers@ == Seq::<u32>::empty()
}

/// Positions and normals of a built submesh go through the same mirroring:
/// vertex `i` of each is the three words stored for vertex `o + i` of its
/// layer, the first with its sign turned, the other two as stored.
pub proof fn law_normals_mirrored_like_positions(
    layers: Seq<XACVertexAttributeLayer>,
    textures: Seq<Seq<char>>,
    sub: XACSubMesh,
    o: int,
    s: SubMesh,
    i: int,
)
    requires
        submesh_built(layers, textures, sub, o, s),
    ensures
        0 <= i < s.positions@.len() ==> layer_data(layers, 0) is Some && {
            let d = layer_data(layers, 0)->0;
            &&& s.positions@[i].x == le32(d, (o + i) * 12) as u32 ^ 0x8000_0000u32
            &&& s.positions@[i].y == le32(d, (o + i) * 12 + 4)
            &&& s.positions@[i].z == le32(d, (o + i) * 12 + 8)
        },
        0 <= i < s.normals@.len() ==> layer_data(layers, 1) is Some && {
            let d = layer_data(layers, 1)->0;
            &&& s.normals@[i].x == le32(d, (o + i) * 12) as u32 ^ 0x8000_0000u32
            &&& s.normals@[i].y == le32(d, (o + i) * 12 + 4)
            &&& s.normals@[i].z == le32(d, (o + i) * 12 + 8)
        },
{
}

/// The other layers of a built submesh are taken as stored: vertex `i` of
/// the tangents, texture coordinates and bitangents is the words stored
/// for vertex `o + i` of its layer, none of them mirrored.
pub proof fn law_other_layers_as_stored(
    layers: Seq<XACVertexAttributeLayer>,
    textures: Seq<Seq<char>>,
    sub: XACSubMesh,
    o: int,
    s: SubMesh,
    i: int,
)
    requires
        submesh_built(layers, textures, sub, o, s),
    ensures
        0 <= i < s.tangents@.len() ==> layer_data(layers, 2) is Some && {
            let d = layer_data(layers, 2)->0;
            &&& s.tangents@[i].x == le32(d, (o + i) * 16)
            &&& s.tangents@[i].w == le32(d, (o + i) * 16 + 12)
        },
        0 <= i < s.uvcoords@.len() ==> layer_data(layers, 3) is Some && {
            let d = layer_data(layers, 3)->0;
            &&& s.uvcoords@[i].x == le32(d, (o + i) * 8)
            &&& s.uvcoords@[i].y == le32(d, (o + i) * 8 + 4)
        },
        0 <= i < s.bitangents@.len() ==> layer_data(layers, 7) is Some && {
            let d = layer_data(layers, 7)->0;
            &&& s.bitangents@[i].x == le32(d, (o + i) * 12)
            &&& s.bitangents@[i].y == le32(d, (o + i) * 12 + 4)
            &&& s.bitangents@[i].z == le32(d, (o + i) * 12 + 8)
        },
{
}

/// What building submeshes from `subs` asks of them: each holds as many
/// indices as it counts, and the byte offsets of all vertices fit in a
/// `usize`.
pub open spec fn submeshes_ok(subs: Seq<XACSubMesh>) -> bool {
    &&& forall|k: int| 0 <= k < subs.len() ==> #[trigger] subs[k].indices@.len() >= subs[k].num_indices
    &&& verts_before(subs, subs.len() as int) * 16 <= usize::MAX
}

/// The first layer of kind `id`'s data, if any.
fn find_layer(layers: &[XACVertexAttributeLayer], id: u32) -> (r: Option<&Vec<u8>>)
    ensures
        match r {
            Some(d) => layer_data(layers@, id) == Some(d@),
            None => layer_data(layers@, id) is None,
        },
{
    let mut i: usize = 0;
    assert(layers@.skip(0) =~= layers@);
    while i < layers.len()
        invariant
            i <= layers@.len(),
            layer_data(layers@, id) == layer_data(layers@.skip(i as int), id),
        decreases layers.len() - i,
    {
        assert(layers@.skip(i as int).drop_first() =~= layers@.skip(i + 1));
        if layers[i].layer_type_id == id {
            return Some(&layers[i].mesh_data);
        }
        i = i + 1;
    }
    assert(layers@.skip(i as int).len() == 0);
    None
}

/// Taking one vertex more adds one to the count exactly when its value fits.
proof fn lemma_fit_step(len: int, size: int, o: int, v: int)
    requires
        0 < size,
        0 <= len,
        0 <= o,
        0 <= v,
    ensures
        fit_count(len, size, o, v + 1) == fit_count(len, size, o, v) + (if (o + v) * size + size
            <= len {
            1int
        } else {
            0int
        }),
{
    assert((o + v) * size + size <= len <==> o + v + 1 <= len / size) by (nonlinear_arith)
        requires
            0 < size,
            0 <= len,
            0 <= o,
            0 <= v,
    ;
}

/// The word at `k` of `d`.
fn word_at(d: &Vec<u8>, k: usize) -> (r: u32)
    requires
        k + 4 <= d@.len(),
    ensures
        r == word(d@, k as int),
{
    get_u32_le(d.as_slice(), k)
}


/// Three words per vertex, the first with its sign turned where `flip` says so.
fn read_vec3s(d: Option<&Vec<u8>>, o: usize, n: u32, flip: bool) -> (r: Vec<Vector3>)
    requires
        (o + n) * 16 <= usize::MAX,
    ensures
        r@ == if flip { flipped_vec3s(match d { Some(d) => Some(d@), None => None }, o as int, n as int) } else { vec3s(match d { Some(d) => Some(d@), None => None }, o as int, n as int) },
{
    let mut out: Vec<Vector3> = Vec::new();
    if let Some(d) = d {
        let ghost dd = Some(d@);
        let mut v: u32 = 0;
        while v < n
            invariant
                v <= n,
                (o + n) * 16 <= usize::MAX,
                out@ =~= Seq::new(
                    fit_count(d@.len() as int, 12, o as int, v as int) as nat,
                    |i: int| Vector3 { x: if flip { negated(word(d@, (o + i) * 12)) } else { word(d@, (o + i) * 12) }, y: word(d@, (o + i) * 12 + 4), z: word(d@, (o + i) * 12 + 8) },
                ),
            decreases n - v,
        {
            proof {
                lemma_fit_step(d@.len() as int, 12, o as int, v as int);
            }
            let offset = (o + v as usize) * 12;
            if offset + 12 <= d.len() {
                out.push(Vector3 { x: if flip { word_at(d, offset) ^ 0x8000_0000u32 } else { word_at(d, offset) }, y: word_at(d, offset + 4), z: word_at(d, offset + 8) });
            }
            v = v + 1;
        }
    }
    out
}

/// Four words per vertex.
fn read_vec4s(d: Option<&Vec<u8>>, o: usize, n: u32) -> (r: Vec<Vector4>)
    requires
        (o + n) * 16 <= usize::MAX,
    ensures
        r@ == vec4s(match d { Some(d) => Some(d@), None => None }, o as int, n as int),
{
    let mut out: Vec<Vector4> = Vec::new();
    if let Some(d) = d {
        let ghost dd = Some(d@);
        let mut v: u32 = 0;
        while v < n
            invariant
                v <= n,
                (o + n) * 16 <= usize::MAX,
                out@ =~= Seq::new(
                    fit_count(d@.len() as int, 16, o as int, v as int) as nat,
                    |i: int| Vector4 { x: word(d@, (o + i) * 16), y: word(d@, (o + i) * 16 + 4), z: word(d@, (o + i) * 16 + 8), w: word(d@, (o + i) * 16 + 12) },
                ),
            decreases n - v,
        {
            proof {
                lemma_fit_step(d@.len() as int, 16, o as int, v as int);
            }
            let offset = (o + v as usize) * 16;
            if offset + 16 <= d.len() {
                out.push(Vector4 { x: word_at(d, offset), y: word_at(d, offset + 4), z: word_at(d, offset + 8), w: word_at(d, offset + 12) });
            }
            v = v + 1;
        }
    }
    out
}

/// Two words per vertex.
fn read_vec2s(d: Option<&Vec<u8>>, o: usize, n: u32) -> (r: Vec<Vector2>)
    requires
        (o + n) * 16 <= usize::MAX,
    ensures
        r@ == vec2s(match d { Some(d) => Some(d@), None => None }, o as int, n as int),
{
    let mut out: Vec<Vector2> = Vec::new();
    if let Some(d) = d {
        let ghost dd = Some(d@);
        let mut v: u32 = 0;
        while v < n
            invariant
                v <= n,
                (o + n) * 16 <= usize::MAX,
                out@ =~= Seq::new(
                    fit_count(d@.len() as int, 8, o as int, v as int) as nat,
                    |i: int| Vector2 { x: word(d@, (o + i) * 8), y: word(d@, (o + i) * 8 + 4) },
                ),
            decreases n - v,
        {
            proof {
                lemma_fit_step(d@.len() as int, 8, o as int, v as int);
            }
            let offset = (o + v as usize) * 8;
            if offset + 8 <= d.len() {
                out.push(Vector2 { x: word_at(d, offset), y: word_at(d, offset + 4) });
            }
            v = v + 1;
        }
    }
    out
}

/// One word per vertex.
fn read_words(d: Option<&Vec<u8>>, o: usize, n: u32) -> (r: Vec<u32>)
    requires
        (o + n) * 16 <= usize::MAX,
    ensures
        r@ == words(match d { Some(d) => Some(d@), None => None }, o as int, n as int),
{
    let mut out: Vec<u32> = Vec::new();
    if let Some(d) = d {
        let ghost dd = Some(d@);
        let mut v: u32 = 0;
        while v < n
            invariant
                v <= n,
                (o + n) * 16 <= usize::MAX,
                out@ =~= Seq::new(
                    fit_count(d@.len() as int, 4, o as int, v as int) as nat,
                    |i: int| word(d@, (o + i) * 4),
                ),
            decreases n - v,
        {
            proof {
                lemma_fit_step(d@.len() as int, 4, o as int, v as int);
            }
            let offset = (o + v as usize) * 4;
            if offset + 4 <= d.len() {
                out.push(word_at(d, offset));
            }
            v = v + 1;
        }
    }
    out
}

/// Four words per vertex as a color.
fn read_colors(d: Option<&Vec<u8>>, o: usize, n: u32) -> (r: Vec<RGBAColor>)
    requires
        (o + n) * 16 <= usize::MAX,
    ensures
        r@ == colors(match d { Some(d) => Some(d@), None => None }, o as int, n as int),
{
    let mut out: Vec<RGBAColor> = Vec::new();
    if let Some(d) = d {
        let ghost dd = Some(d@);
        let mut v: u32 = 0;
        while v < n
            invariant
                v <= n,
                (o + n) * 16 <= usize::MAX,
                out@ =~= Seq::new(
                    fit_count(d@.len() as int, 16, o as int, v as int) as nat,
                    |i: int| RGBAColor { r: word(d@, (o + i) * 16), g: word(d@, (o + i) * 16 + 4), b: word(d@, (o + i) * 16 + 8), a: word(d@, (o + i) * 16 + 12) },
                ),
            decreases n - v,
        {
            proof {
                lemma_fit_step(d@.len() as int, 16, o as int, v as int);
            }
            let offset = (o + v as usize) * 16;
            if offset + 16 <= d.len() {
                out.push(RGBAColor { r: word_at(d, offset), g: word_at(d, offset + 4), b: word_at(d, offset + 8), a: word_at(d, offset + 12) });
            }
            v = v + 1;
        }
    }
    out
}


/// Counting the vertices of more submeshes never gives fewer.
proof fn lemma_verts_before_mono(subs: Seq<XACSubMesh>, j: int, k: int)
    requires
        0 <= j <= k,
    ensures
        verts_before(subs, j) <= verts_before(subs, k),
    decreases k - j,
{
    if j < k {
        lemma_verts_before_mono(subs, j, k - 1);
    }
}

/// The data of the layers each vertex attribute is taken from.
struct VertexLayers<'a> {
    positions: Option<&'a Vec<u8>>,
    normals: Option<&'a Vec<u8>>,
    tangents: Option<&'a Vec<u8>>,
    uvs: Option<&'a Vec<u8>>,
    colors32: Option<&'a Vec<u8>>,
    colors128: Option<&'a Vec<u8>>,
    bitangents: Option<&'a Vec<u8>>,
}

/// The view of a layer's data that was found, if one was.
spec fn found(d: Option<&Vec<u8>>) -> Option<Seq<u8>> {
    match d {
        Some(d) => Some(d@),
        None => None,
    }
}

/// `v` holds the data of the first layers of each attribute kind.
spec fn layers_found(layers: Seq<XACVertexAttributeLayer>, v: VertexLayers) -> bool {
    &&& found(v.positions) == layer_data(layers, 0)
    &&& found(v.normals) == layer_data(layers, 1)
    &&& found(v.tangents) == layer_data(layers, 2)
    &&& found(v.uvs) == layer_data(layers, 3)
    &&& found(v.colors32) == layer_data(layers, 4)
    &&& found(v.colors128) == layer_data(layers, 6)
    &&& found(v.bitangents) == layer_data(layers, 7)
}

fn build_submesh(
    v: &VertexLayers,
    textures_data: &Vec<String>,
    sub: &XACSubMesh,
    o: usize,
) -> (s: SubMesh)
    requires
        sub.indices@.len() >= sub.num_indices,
        (o + sub.num_verts) * 16 <= usize::MAX,
    ensures
        forall|layers: Seq<XACVertexAttributeLayer>|
            layers_found(layers, *v) ==> submesh_built(
                layers,
                texts_of(textures_data@),
                *sub,
                o as int,
                s,
            ),
{
    let m = sub.material_index;
    let textures = if m != 0 && (m as usize) < textures_data.len() {
        textures_data[m as usize].clone()
    } else {
        String::new()
    };
    let mut indices: Vec<u32> = Vec::new();
    let mut i: u32 = 0;
    while i < sub.num_indices
        invariant
            i <= sub.num_indices,
            sub.num_indices <= sub.indices@.len(),
            indices@ =~= sub.indices@.take(i as int),
        decreases sub.num_indices - i,
    {
        indices.push(sub.indices[i as usize]);
        i = i + 1;
    }
    let n = sub.num_verts;
    SubMesh {
        name: String::new(),
        textures,
        positions: read_vec3s(v.positions, o, n, true),
        normals: read_vec3s(v.normals, o, n, true),
        tangents: read_vec4s(v.tangents, o, n),
        bitangents: read_vec3s(v.bitangents, o, n, false),
        uvcoords: read_vec2s(v.uvs, o, n),
        colors32: read_words(v.colors32, o, n),
        colors128: read_colors(v.colors128, o, n),
        original_vertex_numbers: Vec::new(),
        indices,
    }
}

impl Scene {
    /// Builds the submeshes of a mesh: for each submesh, in order, its
    /// texture (the texture with its material's index, for a material other
    /// than 0 that has one; else empty), its indices, and for each of its
    /// vertices (which follow those of the submeshes before it) the values
    /// of the first layer of each attribute kind whose data holds them:
    /// positions and normals with the sign of their first component turned,
    /// tangents, texture coordinates, 32-bit colors, 128-bit colors and
    /// bitangents as stored.
    pub fn parse_vertex_data(
        layers: &[XACVertexAttributeLayer],
        submeshes: &[XACSubMesh],
        textures_data: Vec<String>,
    ) -> (r: Vec<SubMesh>)
        requires
            submeshes_ok(submeshes@),
        ensures
            r@.len() == submeshes@.len(),
            forall|k: int|
                0 <= k < submeshes@.len() ==> submesh_built(
                    layers@,
                    texts_of(textures_data@),
                    submeshes@[k],
                    verts_before(submeshes@, k),
                    #[trigger] r@[k],
                ),
    {
        let v = VertexLayers {
            positions: find_layer(layers, XACAttribute::AttribPositions.value()),
            normals: find_layer(layers, XACAttribute::AttribNormals.value()),
            tangents: find_layer(layers, XACAttribute::AttribTangents.value()),
            uvs: find_layer(layers, XACAttribute::AttribUvcoords.value()),
            colors32: find_layer(layers, XACAttribute::AttribColors32.value()),
            colors128: find_layer(layers, XACAttribute::AttribColors128.value()),
            bitangents: find_layer(layers, XACAttribute::AttribBitangents.value()),
        };
        assert(layers_found(layers@, v));
        let mut vertex_offset: usize = 0;
        let mut parsed: Vec<SubMesh> = Vec::new();
        let mut k: usize = 0;
        while k < submeshes.len()
            invariant
                k <= submeshes@.len(),
                submeshes_ok(submeshes@),
                layers_found(layers@, v),
                vertex_offset == verts_before(submeshes@, k as int),
                parsed@.len() == k,
                forall|j: int|
                    0 <= j < k ==> submesh_built(
                        layers@,
                        texts_of(textures_data@),
                        submeshes@[j],
                        verts_before(submeshes@, j),
                        #[trigger] parsed@[j],
                    ),
            decreases submeshes.len() - k,
        {
            proof {
                lemma_verts_before_mono(submeshes@, k + 1, submeshes@.len() as int);
            }
            let sub = &submeshes[k];
            assert(sub.indices@.len() >= sub.num_indices);
            let s = build_submesh(&v, &textures_data, sub, vertex_offset);
            parsed.push(s);
            vertex_offset = vertex_offset + sub.num_verts as usize;
            k = k + 1;
        }
        parsed
    }
}


// ------------------------------------------------------------------ scenes

/// The layers and submeshes of a chunk that becomes a node: a mesh chunk in
/// version 1 with a first-version mesh, or in version 2 with a
/// second-version mesh.
pub open spec fn mesh_of(e: XACChunkEntry) -> Option<(Seq<XACVertexAttributeLayer>, Seq<XACSubMesh>)> {
    if e.chunk.chunk_id != 1 {
        None
    } else if e.chunk.version == 1 {
        match e.chunk_data {
            XACChunkData::XACMesh(m) => Some((m.vertex_attribute_layer@, m.sub_meshes@)),
            _ => None,
        }
    } else if e.chunk.version == 2 {
        match e.chunk_data {
            XACChunkData::XACMesh2(m) => Some((m.vertex_attribute_layer@, m.sub_meshes@)),
            _ => None,
        }
    } else {
        None
    }
}

/// The indices of the chunks of `es` that become nodes, in order.
pub open spec fn mesh_indices(es: Seq<XACChunkEntry>) -> Seq<int>
    decreases es.len(),
{
    if es.len() == 0 {
        Seq::empty()
    } else {
        mesh_indices(es.drop_last()) + if mesh_of(es.last()) is Some {
            seq![es.len() - 1]
        } else {
            Seq::empty()
        }
    }
}

/// `n` is the node built from a mesh with `layers` and `subs`: unnamed,
/// without transform or children, holding an unnamed model with one
/// submesh built per submesh.
pub open spec fn node_built(
    textures: Seq<Seq<char>>,
    layers: Seq<XACVertexAttributeLayer>,
    subs: Seq<XACSubMesh>,
    n: SceneNode,
) -> bool {
    &&& n.name@ == Seq::<char>::empty()
    &&& n.transform is None
    &&& n.children@.len() == 0
    &&& n.model matches Some(m) && {
        &&& m.name@ == Seq::<char>::empty()
        &&& m.submeshes@.len() == subs.len()
        &&& forall|k: int|
            0 <= k < subs.len() ==> submesh_built(
                layers,
                textures,
                subs[k],
                verts_before(subs, k),
                #[trigger] m.submeshes@[k],
            )
    }
}

/// What building a scene asks of an actor: the submeshes of every mesh
/// that becomes a node meet `submeshes_ok`.
pub open spec fn meshes_ok(es: Seq<XACChunkEntry>) -> bool {
    forall|i: int| 0 <= i < es.len() ==> match #[trigger] mesh_of(es[i]) {
        Some((_, subs)) => submeshes_ok(subs),
        None => true,
    }
}

fn mesh_node(
    layers: &[XACVertexAttributeLayer],
    submeshes: &[XACSubMesh],
    textures_data: Vec<String>,
) -> (n: SceneNode)
    requires
        submeshes_ok(submeshes@),
    ensures
        node_built(texts_of(textures_data@), layers@, submeshes@, n),
{
    let submeshes = Scene::parse_vertex_data(layers, submeshes, textures_data);
    let model = Model { name: String::new(), submeshes };
    SceneNode { name: String::new(), transform: None, model: Some(model), children: Vec::new() }
}

impl Scene {
    /// Builds a scene from an actor: one root node per mesh chunk (version 1
    /// with a first-version mesh, version 2 with a second-version one), in
    /// chunk order, each holding a model built from the mesh's layers and
    /// submeshes with the actor's texture names.
    pub fn from_xac_root(xac: &XACRoot) -> (r: Scene)
        requires
            meshes_ok(xac.chunks@),
        ensures
            r.root_nodes@.len() == mesh_indices(xac.chunks@).len(),
            forall|j: int|
                0 <= j < r.root_nodes@.len() ==> {
                    let m = mesh_of(xac.chunks@[mesh_indices(xac.chunks@)[j]])->0;
                    node_built(textures_of(xac.chunks@), m.0, m.1, #[trigger] r.root_nodes@[j])
                },
    {
        let mut root_nodes: Vec<SceneNode> = Vec::new();
        let mut i: usize = 0;
        while i < xac.chunks.len()
            invariant
                i <= xac.chunks@.len(),
                meshes_ok(xac.chunks@),
                root_nodes@.len() == mesh_indices(xac.chunks@.take(i as int)).len(),
                forall|j: int|
                    0 <= j < root_nodes@.len() ==> {
                        let m = mesh_of(xac.chunks@[mesh_indices(xac.chunks@.take(i as int))[j]])->0;
                        node_built(textures_of(xac.chunks@), m.0, m.1, #[trigger] root_nodes@[j])
                    },
                forall|j: int|
                    0 <= j < mesh_indices(xac.chunks@.take(i as int)).len() ==> 0
                        <= #[trigger] mesh_indices(xac.chunks@.take(i as int))[j] < i,
            decreases xac.chunks.len() - i,
        {
            let entry = &xac.chunks[i];
            let ghost before = mesh_indices(xac.chunks@.take(i as int));
            let ghost old_nodes = root_nodes@;
            assert(xac.chunks@.take(i + 1).drop_last() =~= xac.chunks@.take(i as int));
            assert(xac.chunks@.take(i + 1).last() == xac.chunks@[i as int]);
            assert(mesh_of(xac.chunks@[i as int]) == mesh_of(*entry));
            if entry.chunk.chunk_id == XACChunk::XACChunkMesh.value() {
                if entry.chunk.version == 1 {
                    if let XACChunkData::XACMesh(mesh) = &entry.chunk_data {
                        let node = mesh_node(
                            mesh.vertex_attribute_layer.as_slice(),
                            mesh.sub_meshes.as_slice(),
                            xac.get_texture_names(),
                        );
                        root_nodes.push(node);
                    }
                } else if entry.chunk.version == 2 {
                    if let XACChunkData::XACMesh2(mesh) = &entry.chunk_data {
                        let node = mesh_node(
                            mesh.vertex_attribute_layer.as_slice(),
                            mesh.sub_meshes.as_slice(),
                            xac.get_texture_names(),
                        );
                        root_nodes.push(node);
                    }
                }
            }
            let ghost after = mesh_indices(xac.chunks@.take(i + 1));
            assert forall|j: int| 0 <= j < root_nodes@.len() implies {
                let m = mesh_of(xac.chunks@[after[j]])->0;
                node_built(textures_of(xac.chunks@), m.0, m.1, #[trigger] root_nodes@[j])
            } by {
                if j < old_nodes.len() {
                    assert(after[j] == before[j]);
                    assert(root_nodes@[j] == old_nodes[j]);
                }
            }
            i = i + 1;
        }
        assert(xac.chunks@.take(xac.chunks@.len() as int) =~= xac.chunks@);
        Scene { root_nodes }
    }
}


/// Whether building submeshes from `subs` meets `submeshes_ok`.
fn submeshes_fit(subs: &Vec<XACSubMesh>) -> (r: bool)
    ensures
        r == submeshes_ok(subs@),
{
    let mut total: u128 = 0;
    let mut k: usize = 0;
    while k < subs.len()
        invariant
            k <= subs@.len(),
            total == verts_before(subs@, k as int),
            total * 16 <= usize::MAX,
            forall|j: int| 0 <= j < k ==> #[trigger] subs@[j].indices@.len() >= subs@[j].num_indices,
        decreases subs.len() - k,
    {
        if subs[k].indices.len() < subs[k].num_indices as usize {
            return false;
        }
        total = total + subs[k].num_verts as u128;
        if total * 16 > usize::MAX as u128 {
            proof {
                lemma_verts_before_mono(subs@, k + 1, subs@.len() as int);
            }
            return false;
        }
        k = k + 1;
    }
    true
}

impl Scene {
    /// Whether `from_xac_root` can build a scene from `xac`: every submesh
    /// of the meshes it uses holds as many indices as it counts, and their
    /// vertices' byte offsets fit in a `usize`.
    pub fn can_build(xac: &XACRoot) -> (r: bool)
        ensures
            r == meshes_ok(xac.chunks@),
    {
        let mut i: usize = 0;
        while i < xac.chunks.len()
            invariant
                i <= xac.chunks@.len(),
                forall|j: int| 0 <= j < i ==> match #[trigger] mesh_of(xac.chunks@[j]) {
                    Some((_, subs)) => submeshes_ok(subs),
                    None => true,
                },
            decreases xac.chunks.len() - i,
        {
            let entry = &xac.chunks[i];
            assert(mesh_of(xac.chunks@[i as int]) == mesh_of(*entry));
            if entry.chunk.chunk_id == XACChunk::XACChunkMesh.value() {
                if entry.chunk.version == 1 {
                    if let XACChunkData::XACMesh(mesh) = &entry.chunk_data {
                        if !submeshes_fit(&mesh.sub_meshes) {
                            return false;
                        }
                    }
                } else if entry.chunk.version == 2 {
                    if let XACChunkData::XACMesh2(mesh) = &entry.chunk_data {
                        if !submeshes_fit(&mesh.sub_meshes) {
                            return false;
                        }
                    }
                }
            }
            i = i + 1;
        }
        true
    }
}

} // verus!
