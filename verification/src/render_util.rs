//! Turning a read model file into the sub-meshes a renderer draws: for each
//! mesh, each sub-mesh that has a material gets its texture name, its share
//! of the vertex layers, its texture coordinates and its indices. Vector
//! components stay the bits of their 32-bit floats.

use vstd::prelude::*;
use crate::category::texts;
use crate::xac_file::{XacFile, XacMesh, XacShaderMaterial, XacSubMesh, XacVec2d, XacVec3d, XacVec4d};

verus! {

/// A sub-mesh ready to draw.
pub struct BevyMesh {
    pub name_texture: String,
    pub positions: Vec<XacVec3d>,
    pub normals: Vec<XacVec3d>,
    pub tangents: Vec<XacVec4d>,
    pub bi_tangents: Vec<XacVec4d>,
    pub uv_set: Vec<XacVec2d>,
    pub mesh_indices: Vec<u32>,
}

/// What a `BevyMesh` holds, its texture name as characters.
pub struct BevyMeshView {
    pub name_texture: Seq<char>,
    pub positions: Seq<XacVec3d>,
    pub normals: Seq<XacVec3d>,
    pub tangents: Seq<XacVec4d>,
    pub bi_tangents: Seq<XacVec4d>,
    pub uv_set: Seq<XacVec2d>,
    pub mesh_indices: Seq<u32>,
}

impl View for BevyMesh {
    type V = BevyMeshView;

    open spec fn view(&self) -> BevyMeshView {
        BevyMeshView {
            name_texture: self.name_texture@,
            positions: self.positions@,
            normals: self.normals@,
            tangents: self.tangents@,
            bi_tangents: self.bi_tangents@,
            uv_set: self.uv_set@,
            mesh_indices: self.mesh_indices@,
        }
    }
}

/// The views of the sub-meshes of each mesh.
pub open spec fn meshes_view(r: Seq<Vec<BevyMesh>>) -> Seq<Seq<BevyMeshView>> {
    Seq::new(r.len(), |j: int| Seq::new(r[j]@.len(), |k: int| r[j]@[k]@))
}

/// The values of the text properties of the effect materials, material by
/// material: the texture names that sub-meshes pick from.
pub open spec fn shader_names(s: Seq<XacShaderMaterial>) -> Seq<Seq<char>>
    decreases s.len(),
{
    if s.len() == 0 {
        Seq::empty()
    } else {
        shader_names(s.drop_last()) + Seq::new(
            s.last().string_property@.len(),
            |i: int| s.last().string_property@[i].value@,
        )
    }
}

/// Where the vertices of sub-mesh `k` start: after those of the earlier
/// sub-meshes that have a material.
pub open spec fn sub_start(subs: Seq<XacSubMesh>, k: int) -> int
    decreases k,
{
    if k <= 0 {
        0
    } else {
        sub_start(subs, k - 1) + if subs[k - 1].material_id >= 1 { subs[k - 1].num_vertices as int } else { 0 }
    }
}

/// The `n` entries of `v` from `start`, or nothing where the layer is empty.
pub open spec fn span<T>(v: Seq<T>, start: int, n: int) -> Seq<T> {
    if v.len() == 0 { Seq::empty() } else { v.subrange(start, start + n) }
}

/// A sub-mesh with nothing in it.
pub open spec fn empty_mesh() -> BevyMeshView {
    BevyMeshView {
        name_texture: Seq::empty(),
        positions: Seq::empty(),
        normals: Seq::empty(),
        tangents: Seq::empty(),
        bi_tangents: Seq::empty(),
        uv_set: Seq::empty(),
        mesh_indices: Seq::empty(),
    }
}

/// The index of the texture name that material `id` picks among `count`.
pub open spec fn material_index(id: u32, count: nat) -> int {
    (id % (count as u32)) as int
}

/// Sub-mesh `k` of `m` as drawn: with a material, the texture name it
/// picks, the next `num_vertices` entries of each non-empty vertex layer,
/// the first `num_vertices` texture coordinates and its indices; without
/// one, empty.
pub open spec fn sub_mesh_view(m: XacMesh, names: Seq<Seq<char>>, k: int) -> BevyMeshView {
    let s = m.sub_mesh@[k];
    let a = m.vertices_attribute;
    let st = sub_start(m.sub_mesh@, k);
    let n = s.num_vertices as int;
    if s.material_id >= 1 {
        BevyMeshView {
            name_texture: names[material_index(s.material_id, names.len())],
            positions: span(a.vertex_positions@, st, n),
            normals: span(a.vertex_normals@, st, n),
            tangents: span(a.vertex_tangents@, st, n),
            bi_tangents: span(a.vertex_bi_tangents@, st, n),
            uv_set: a.vertex_uvs@.subrange(0, n),
            mesh_indices: s.relative_indices@,
        }
    } else {
        empty_mesh()
    }
}

/// The drawn sub-meshes among the first `k` of `m`: those with positions.
pub open spec fn kept_subs(m: XacMesh, names: Seq<Seq<char>>, k: int) -> Seq<BevyMeshView>
    decreases k,
{
    if k <= 0 {
        Seq::empty()
    } else {
        let v = sub_mesh_view(m, names, k - 1);
        kept_subs(m, names, k - 1) + if v.positions.len() > 0 { seq![v] } else { Seq::empty() }
    }
}

/// The meshes among the first `j` of `meshes` that keep a sub-mesh, each
/// as its kept sub-meshes.
pub open spec fn kept_meshes(meshes: Seq<XacMesh>, names: Seq<Seq<char>>, j: int) -> Seq<Seq<BevyMeshView>>
    decreases j,
{
    if j <= 0 {
        Seq::empty()
    } else {
        let subs = kept_subs(meshes[j - 1], names, meshes[j - 1].sub_mesh@.len() as int);
        kept_meshes(meshes, names, j - 1) + if subs.len() > 0 { seq![subs] } else { Seq::empty() }
    }
}

/// Sub-mesh `k` of `m` can be drawn: where it has a material, there are
/// texture names to pick from, its vertices lie inside each non-empty
/// layer (and inside the machine's range), and there are as many texture
/// coordinates as it has vertices.
pub open spec fn sub_mesh_fits(m: XacMesh, names: Seq<Seq<char>>, k: int) -> bool {
    let s = m.sub_mesh@[k];
    let a = m.vertices_attribute;
    let end = sub_start(m.sub_mesh@, k) + s.num_vertices;
    s.material_id >= 1 ==> {
        &&& (names.len() as u32) != 0
        &&& end <= usize::MAX
        &&& (a.vertex_positions@.len() > 0 ==> end <= a.vertex_positions@.len())
        &&& (a.vertex_normals@.len() > 0 ==> end <= a.vertex_normals@.len())
        &&& (a.vertex_tangents@.len() > 0 ==> end <= a.vertex_tangents@.len())
        &&& (a.vertex_bi_tangents@.len() > 0 ==> end <= a.vertex_bi_tangents@.len())
        &&& s.num_vertices <= a.vertex_uvs@.len()
    }
}

/// Every sub-mesh of every mesh of `x` can be drawn.
pub open spec fn meshes_fit(x: XacFile) -> bool {
    forall|j: int, k: int|
        0 <= j < x.mesh_data@.len() && 0 <= k < x.mesh_data@[j].sub_mesh@.len()
            ==> #[trigger] sub_mesh_fits(x.mesh_data@[j], shader_names(x.shader_material@), k)
}

/// The texture names of the effect materials.
fn collect_shader_names(shaders: &Vec<XacShaderMaterial>) -> (r: Vec<String>)
    ensures
        texts(r@) == shader_names(shaders@),
{
    let mut r: Vec<String> = Vec::new();
    let mut i: usize = 0;
    while i < shaders.len()
        invariant
            i <= shaders@.len(),
            texts(r@) == shader_names(shaders@.take(i as int)),
        decreases shaders@.len() - i,
    {
        let props = &shaders[i].string_property;
        let ghost before = texts(r@);
        let mut k: usize = 0;
        while k < props.len()
            invariant
                k <= props@.len(),
                texts(r@) == before + Seq::new(k as nat, |q: int| props@[q].value@),
            decreases props@.len() - k,
        {
            let val = props[k].value.clone();
            let ghost prev = r@;
            r.push(val);
            proof {
                assert(texts(r@) =~= texts(prev).push(val@));
                assert(texts(r@) =~= before + Seq::new((k + 1) as nat, |q: int| props@[q].value@));
            }
            k = k + 1;
        }
        proof {
            let t = shaders@.take(i + 1);
            assert(t.drop_last() =~= shaders@.take(i as int));
            assert(t.last() == shaders@[i as int]);
        }
        i = i + 1;
    }
    proof {
        assert(shaders@.take(i as int) =~= shaders@);
    }
    r
}

/// The `n` entries of `v` from `start`, or nothing where `v` is empty.
fn copy_span<T: Copy>(v: &Vec<T>, start: usize, n: usize) -> (r: Vec<T>)
    requires
        v@.len() > 0 ==> start + n <= v@.len(),
    ensures
        r@ == span(v@, start as int, n as int),
{
    let mut r: Vec<T> = Vec::new();
    if v.len() == 0 {
        return r;
    }
    let mut i: usize = 0;
    while i < n
        invariant
            i <= n,
            start + n <= v@.len(),
            v@.len() <= usize::MAX,
            r@ == v@.subrange(start as int, start + i),
        decreases n - i,
    {
        r.push(v[start + i]);
        proof {
            assert(r@ =~= v@.subrange(start as int, start + i + 1));
        }
        i = i + 1;
    }
    r
}

/// Sub-mesh `k` of `m`, whose vertices start at `start`, as drawn.
fn convert_sub(m: &XacMesh, names: &Vec<String>, k: usize, start: usize) -> (r: BevyMesh)
    requires
        k < m.sub_mesh@.len(),
        start == sub_start(m.sub_mesh@, k as int),
        sub_mesh_fits(*m, texts(names@), k as int),
    ensures
        r@ == sub_mesh_view(*m, texts(names@), k as int),
{
    let s = &m.sub_mesh[k];
    let a = &m.vertices_attribute;
    if s.material_id >= 1 {
        let len = names.len();
        let count = len as u32;
        let idx = (s.material_id % count) as usize;
        proof {
            assert((len as u32) as int <= len) by (bit_vector);
        }
        let n = s.num_vertices as usize;
        let name_texture = names[idx].clone();
        let mesh_indices = copy_span(&s.relative_indices, 0, s.relative_indices.len());
        let uv_set = copy_span(&a.vertex_uvs, 0, n);
        proof {
            assert(idx as int == material_index(s.material_id, texts(names@).len()));
            assert(name_texture@ == texts(names@)[idx as int]);
            assert(mesh_indices@ =~= s.relative_indices@);
            if a.vertex_uvs@.len() == 0 {
                assert(uv_set@ =~= a.vertex_uvs@.subrange(0, n as int));
            }
        }
        BevyMesh {
            name_texture,
            positions: copy_span(&a.vertex_positions, start, n),
            normals: copy_span(&a.vertex_normals, start, n),
            tangents: copy_span(&a.vertex_tangents, start, n),
            bi_tangents: copy_span(&a.vertex_bi_tangents, start, n),
            uv_set,
            mesh_indices,
        }
    } else {
        BevyMesh {
            name_texture: String::new(),
            positions: Vec::new(),
            normals: Vec::new(),
            tangents: Vec::new(),
            bi_tangents: Vec::new(),
            uv_set: Vec::new(),
            mesh_indices: Vec::new(),
        }
    }
}

/// The drawn sub-meshes of `m`.
fn convert_mesh(m: &XacMesh, names: &Vec<String>) -> (r: Vec<BevyMesh>)
    requires
        forall|k: int| 0 <= k < m.sub_mesh@.len() ==> #[trigger] sub_mesh_fits(*m, texts(names@), k),
    ensures
        Seq::new(r@.len(), |k: int| r@[k]@) == kept_subs(*m, texts(names@), m.sub_mesh@.len() as int),
{
    let mut out: Vec<BevyMesh> = Vec::new();
    let mut number: usize = 0;
    let mut k: usize = 0;
    while k < m.sub_mesh.len()
        invariant
            k <= m.sub_mesh@.len(),
            number == sub_start(m.sub_mesh@, k as int),
            forall|q: int| 0 <= q < m.sub_mesh@.len() ==> #[trigger] sub_mesh_fits(*m, texts(names@), q),
            Seq::new(out@.len(), |q: int| out@[q]@) == kept_subs(*m, texts(names@), k as int),
        decreases m.sub_mesh@.len() - k,
    {
        assert(sub_mesh_fits(*m, texts(names@), k as int));
        let sub = convert_sub(m, names, k, number);
        let ghost before = Seq::new(out@.len(), |q: int| out@[q]@);
        if sub.positions.len() != 0 {
            out.push(sub);
            proof {
                assert(Seq::new(out@.len(), |q: int| out@[q]@) =~= before.push(out@.last()@));
            }
        }
        proof {
            assert(Seq::new(out@.len(), |q: int| out@[q]@) =~= kept_subs(*m, texts(names@), k + 1));
        }
        if m.sub_mesh[k].material_id >= 1 {
            number = number + m.sub_mesh[k].num_vertices as usize;
        }
        k = k + 1;
    }
    out
}

/// The meshes of `xac_file` as drawn: for each mesh that keeps a sub-mesh,
/// its sub-meshes that have a material and positions (see `kept_meshes`).
pub fn xac_to_mesh(xac_file: XacFile) -> (r: Vec<Vec<BevyMesh>>)
    requires
        meshes_fit(xac_file),
    ensures
        meshes_view(r@) == kept_meshes(
            xac_file.mesh_data@,
            shader_names(xac_file.shader_material@),
            xac_file.mesh_data@.len() as int,
        ),
{
    let names = collect_shader_names(&xac_file.shader_material);
    let ghost tn = shader_names(xac_file.shader_material@);
    let mut out: Vec<Vec<BevyMesh>> = Vec::new();
    let mut j: usize = 0;
    while j < xac_file.mesh_data.len()
        invariant
            j <= xac_file.mesh_data@.len(),
            texts(names@) == tn,
            tn == shader_names(xac_file.shader_material@),
            meshes_fit(xac_file),
            meshes_view(out@) == kept_meshes(xac_file.mesh_data@, tn, j as int),
        decreases xac_file.mesh_data@.len() - j,
    {
        let m = &xac_file.mesh_data[j];
        assert forall|k: int| 0 <= k < m.sub_mesh@.len() implies #[trigger] sub_mesh_fits(*m, texts(names@), k) by {
            assert(sub_mesh_fits(xac_file.mesh_data@[j as int], shader_names(xac_file.shader_material@), k));
        }
        let subs = convert_mesh(m, &names);
        let ghost before = meshes_view(out@);
        if subs.len() != 0 {
            out.push(subs);
            proof {
                assert(meshes_view(out@) =~= before.push(Seq::new(out@.last()@.len(), |q: int| out@.last()@[q]@)));
            }
        }
        proof {
            assert(meshes_view(out@) =~= kept_meshes(xac_file.mesh_data@, tn, j + 1));
        }
        j = j + 1;
    }
    out
}


/// Whether sub-mesh `k` of `m`, whose vertices start at `start`, can be
/// drawn with `count` texture names (see `sub_mesh_fits`).
fn sub_fits(m: &XacMesh, count: usize, k: usize, start: usize) -> (r: bool)
    requires
        k < m.sub_mesh@.len(),
        start == sub_start(m.sub_mesh@, k as int),
    ensures
        forall|names: Seq<Seq<char>>| names.len() == count ==> (r == sub_mesh_fits(*m, names, k as int)),
{
    let s = &m.sub_mesh[k];
    let a = &m.vertices_attribute;
    if s.material_id < 1 {
        return true;
    }
    if count as u32 == 0 {
        return false;
    }
    let end = match start.checked_add(s.num_vertices as usize) {
        Some(e) => e,
        None => return false,
    };
    (a.vertex_positions.len() == 0 || end <= a.vertex_positions.len())
        && (a.vertex_normals.len() == 0 || end <= a.vertex_normals.len())
        && (a.vertex_tangents.len() == 0 || end <= a.vertex_tangents.len())
        && (a.vertex_bi_tangents.len() == 0 || end <= a.vertex_bi_tangents.len())
        && (s.num_vertices as usize) <= a.vertex_uvs.len()
}

/// Converts the meshes of `xac_file` where every sub-mesh can be drawn
/// (`xac_to_mesh`), `None` where one cannot.
pub fn try_xac_to_mesh(xac_file: XacFile) -> (r: Option<Vec<Vec<BevyMesh>>>)
    ensures
        r is Some <==> meshes_fit(xac_file),
        r matches Some(v) ==> meshes_view(v@) == kept_meshes(
            xac_file.mesh_data@,
            shader_names(xac_file.shader_material@),
            xac_file.mesh_data@.len() as int,
        ),
{
    let names = collect_shader_names(&xac_file.shader_material);
    let ghost tn = shader_names(xac_file.shader_material@);
    let count = names.len();
    let mut j: usize = 0;
    while j < xac_file.mesh_data.len()
        invariant
            j <= xac_file.mesh_data@.len(),
            texts(names@) == tn,
            tn == shader_names(xac_file.shader_material@),
            count == tn.len(),
            forall|jj: int, k: int| 0 <= jj < j && 0 <= k < xac_file.mesh_data@[jj].sub_mesh@.len()
                ==> #[trigger] sub_mesh_fits(xac_file.mesh_data@[jj], tn, k),
        decreases xac_file.mesh_data@.len() - j,
    {
        let m = &xac_file.mesh_data[j];
        let mut number: usize = 0;
        let mut k: usize = 0;
        while k < m.sub_mesh.len()
            invariant
                k <= m.sub_mesh@.len(),
                j < xac_file.mesh_data@.len(),
                tn == shader_names(xac_file.shader_material@),
                *m == xac_file.mesh_data@[j as int],
                count == tn.len(),
                number == sub_start(m.sub_mesh@, k as int),
                forall|q: int| 0 <= q < k ==> #[trigger] sub_mesh_fits(*m, tn, q),
            decreases m.sub_mesh@.len() - k,
        {
            if !sub_fits(m, count, k, number) {
                assert(!sub_mesh_fits(xac_file.mesh_data@[j as int], tn, k as int));
                return None;
            }
            if m.sub_mesh[k].material_id >= 1 {
                number = number + m.sub_mesh[k].num_vertices as usize;
            }
            k = k + 1;
        }
        j = j + 1;
    }
    Some(xac_to_mesh(xac_file))
}

} // verus!
