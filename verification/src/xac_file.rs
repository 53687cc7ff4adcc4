//! The flat XAC actor reader: the header, then every chunk, each record
//! kind gathered into one place of an `XacFile` (meshes and shader
//! materials listed, the other records kept from the last chunk of their
//! kind with their lists joined). Floating-point fields are kept as the
//! bits of their 32-bit floats.

use vstd::prelude::*;
use crate::bytes::{le16, le32, signed16};
use crate::decode::{fits, take_u8, take_u32, take_i16, take_u32s, u32s_at, Record, list_end, list_at, read_list};
use crate::ipf_parser::latin1;
use crate::text::{string_from_chars, lowercase, ends_with, lower_ends_with};

verus! {

// ------------------------------------------------------------------ texts

/// The length of the text at `p`: its 32-bit length read as a signed
/// number, and no character where that is negative.
pub open spec fn xstr_len(b: Seq<u8>, p: int) -> int {
    if le32(b, p) < 0x8000_0000 {
        le32(b, p)
    } else {
        0
    }
}

/// Where the text at `p` ends, if the data holds it.
pub open spec fn xstr_end(b: Seq<u8>, p: int) -> Option<int> {
    if fits(b, p, 4) && fits(b, p + 4, xstr_len(b, p)) {
        Some(p + 4 + xstr_len(b, p))
    } else {
        None
    }
}

/// The text at `p`: one character per byte.
pub open spec fn xstr_at(b: Seq<u8>, p: int) -> Seq<char> {
    latin1(b.subrange(p + 4, p + 4 + xstr_len(b, p)))
}

/// Reads a text: a signed 32-bit length, then that many bytes, each the
/// character of the same value.
pub fn xac_read_string(b: &[u8], p: usize) -> (r: Option<(String, usize)>)
    ensures
        r is Some <==> xstr_end(b@, p as int) is Some,
        r is Some ==> (r->0).0@ == xstr_at(b@, p as int) && (r->0).1 == xstr_end(b@, p as int)->0,
{
    let (raw, q) = take_u32(b, p)?;
    let n: usize = if raw < 0x8000_0000 {
        raw as usize
    } else {
        0
    };
    if q > b.len() || b.len() - q < n {
        return None;
    }
    let mut text: Vec<char> = Vec::new();
    let mut i: usize = 0;
    while i < n
        invariant
            q == p + 4,
            n == xstr_len(b@, p as int),
            q + n <= b@.len(),
            b@.len() <= usize::MAX,
            i <= n,
            text@ =~= latin1(b@.subrange(q as int, q + i)),
        decreases n - i,
    {
        let c = b[q + i];
        text.push(c as char);
        i = i + 1;
        assert(text@ =~= latin1(b@.subrange(q as int, q + i)));
    }
    Some((string_from_chars(text.as_slice()), q + n))
}

/// Reads a flag: one byte, set where it is not zero.
pub fn xac_read_boolean(b: &[u8], p: usize) -> (r: Option<(bool, usize)>)
    ensures
        r is Some <==> fits(b@, p as int, 1),
        r is Some ==> (r->0).0 == (b@[p as int] != 0) && (r->0).1 == p + 1,
{
    let (v, q) = take_u8(b, p)?;
    Some((v != 0, q))
}

// ------------------------------------------------------------------ vectors

#[derive(Copy, Clone, PartialEq, Eq, Structural, Debug, Default)]
pub struct XacVec2d {
    pub x: u32,
    pub y: u32,
}

#[derive(Copy, Clone, PartialEq, Eq, Structural, Debug, Default)]
pub struct XacVec3d {
    pub x: u32,
    pub y: u32,
    pub z: u32,
}

#[derive(Copy, Clone, PartialEq, Eq, Structural, Debug, Default)]
pub struct XacVec4d {
    pub x: u32,
    pub y: u32,
    pub z: u32,
    pub w: u32,
}

#[derive(Copy, Clone, PartialEq, Eq, Structural, Debug, Default)]
pub struct XacColor {
    pub x: u32,
    pub y: u32,
    pub z: u32,
}

#[derive(Copy, Clone, PartialEq, Eq, Structural, Debug, Default)]
pub struct XacColor8 {
    pub x: u8,
    pub y: u8,
    pub z: u8,
}

#[derive(Copy, Clone, PartialEq, Eq, Structural, Debug, Default)]
pub struct XacQuaternion {
    pub x: u32,
    pub y: u32,
    pub z: u32,
    pub w: u32,
}

#[derive(Copy, Clone, PartialEq, Eq, Structural, Debug, Default)]
pub struct XacMatrix44 {
    pub axis_1: XacVec4d,
    pub axis_2: XacVec4d,
    pub axis_3: XacVec4d,
    pub pos: XacVec4d,
}

/// The 32-bit word at `p`.
pub open spec fn w32(b: Seq<u8>, p: int) -> u32 {
    le32(b, p) as u32
}

pub open spec fn vec2_at(b: Seq<u8>, p: int) -> XacVec2d {
    XacVec2d { x: w32(b, p), y: w32(b, p + 4) }
}

pub open spec fn vec3_at(b: Seq<u8>, p: int) -> XacVec3d {
    XacVec3d { x: w32(b, p), y: w32(b, p + 4), z: w32(b, p + 8) }
}

pub open spec fn vec4_at(b: Seq<u8>, p: int) -> XacVec4d {
    XacVec4d { x: w32(b, p), y: w32(b, p + 4), z: w32(b, p + 8), w: w32(b, p + 12) }
}

pub open spec fn color_at(b: Seq<u8>, p: int) -> XacColor {
    XacColor { x: w32(b, p), y: w32(b, p + 4), z: w32(b, p + 8) }
}

pub open spec fn color8_at(b: Seq<u8>, p: int) -> XacColor8 {
    XacColor8 { x: b[p], y: b[p + 1], z: b[p + 2] }
}

pub open spec fn quat_at(b: Seq<u8>, p: int) -> XacQuaternion {
    XacQuaternion { x: w32(b, p), y: w32(b, p + 4), z: w32(b, p + 8), w: w32(b, p + 12) }
}

pub open spec fn matrix_at(b: Seq<u8>, p: int) -> XacMatrix44 {
    XacMatrix44 {
        axis_1: vec4_at(b, p),
        axis_2: vec4_at(b, p + 16),
        axis_3: vec4_at(b, p + 32),
        pos: vec4_at(b, p + 48),
    }
}

pub fn xac_read_vec2d(b: &[u8], p: usize) -> (r: Option<(XacVec2d, usize)>)
    ensures
        r is Some <==> fits(b@, p as int, 8),
        r is Some ==> (r->0).0 == vec2_at(b@, p as int) && (r->0).1 == p + 8,
{
    let (x, q) = take_u32(b, p)?;
    let (y, q) = take_u32(b, q)?;
    Some((XacVec2d { x, y }, q))
}

pub fn xac_read_vec3d(b: &[u8], p: usize) -> (r: Option<(XacVec3d, usize)>)
    ensures
        r is Some <==> fits(b@, p as int, 12),
        r is Some ==> (r->0).0 == vec3_at(b@, p as int) && (r->0).1 == p + 12,
{
    let (x, q) = take_u32(b, p)?;
    let (y, q) = take_u32(b, q)?;
    let (z, q) = take_u32(b, q)?;
    Some((XacVec3d { x, y, z }, q))
}

pub fn xac_read_vec4d(b: &[u8], p: usize) -> (r: Option<(XacVec4d, usize)>)
    ensures
        r is Some <==> fits(b@, p as int, 16),
        r is Some ==> (r->0).0 == vec4_at(b@, p as int) && (r->0).1 == p + 16,
{
    let (x, q) = take_u32(b, p)?;
    let (y, q) = take_u32(b, q)?;
    let (z, q) = take_u32(b, q)?;
    let (w, q) = take_u32(b, q)?;
    Some((XacVec4d { x, y, z, w }, q))
}

pub fn xac_read_color(b: &[u8], p: usize) -> (r: Option<(XacColor, usize)>)
    ensures
        r is Some <==> fits(b@, p as int, 12),
        r is Some ==> (r->0).0 == color_at(b@, p as int) && (r->0).1 == p + 12,
{
    let (x, q) = take_u32(b, p)?;
    let (y, q) = take_u32(b, q)?;
    let (z, q) = take_u32(b, q)?;
    Some((XacColor { x, y, z }, q))
}

pub fn xac_read_color8(b: &[u8], p: usize) -> (r: Option<(XacColor8, usize)>)
    ensures
        r is Some <==> fits(b@, p as int, 3),
        r is Some ==> (r->0).0 == color8_at(b@, p as int) && (r->0).1 == p + 3,
{
    let (x, q) = take_u8(b, p)?;
    let (y, q) = take_u8(b, q)?;
    let (z, q) = take_u8(b, q)?;
    Some((XacColor8 { x, y, z }, q))
}

pub fn xac_read_quaternion(b: &[u8], p: usize) -> (r: Option<(XacQuaternion, usize)>)
    ensures
        r is Some <==> fits(b@, p as int, 16),
        r is Some ==> (r->0).0 == quat_at(b@, p as int) && (r->0).1 == p + 16,
{
    let (x, q) = take_u32(b, p)?;
    let (y, q) = take_u32(b, q)?;
    let (z, q) = take_u32(b, q)?;
    let (w, q) = take_u32(b, q)?;
    Some((XacQuaternion { x, y, z, w }, q))
}

pub fn xac_read_matrix44(b: &[u8], p: usize) -> (r: Option<(XacMatrix44, usize)>)
    ensures
        r is Some <==> fits(b@, p as int, 64),
        r is Some ==> (r->0).0 == matrix_at(b@, p as int) && (r->0).1 == p + 64,
{
    let (axis_1, q) = xac_read_vec4d(b, p)?;
    let (axis_2, q) = xac_read_vec4d(b, q)?;
    let (axis_3, q) = xac_read_vec4d(b, q)?;
    let (pos, q) = xac_read_vec4d(b, q)?;
    Some((XacMatrix44 { axis_1, axis_2, axis_3, pos }, q))
}


/// The `n` XacVec2ds one after the other from `p`.
pub open spec fn vec2s_at(b: Seq<u8>, p: int, n: nat) -> Seq<XacVec2d> {
    Seq::new(n, |i: int| vec2_at(b, p + 8 * i))
}

fn read_vec2s(b: &[u8], p: usize, n: u32) -> (r: Option<(Vec<XacVec2d>, usize)>)
    requires
        p <= b@.len(),
    ensures
        r is Some <==> fits(b@, p as int, 8 * n),
        r is Some ==> (r->0).0@ == vec2s_at(b@, p as int, n as nat) && (r->0).1 == p + 8 * n,
{
    let mut v: Vec<XacVec2d> = Vec::new();
    let mut q: usize = p;
    let mut i: u32 = 0;
    while i < n
        invariant
            i <= n,
            q == p + 8 * i,
            fits(b@, p as int, 8 * i),
            v@ =~= vec2s_at(b@, p as int, i as nat),
        decreases n - i,
    {
        match xac_read_vec2d(b, q) {
            Some((x, q2)) => {
                v.push(x);
                q = q2;
                i = i + 1;
                assert(v@ =~= vec2s_at(b@, p as int, i as nat));
            },
            None => {
                return None;
            },
        }
    }
    Some((v, q))
}

/// The `n` XacVec3ds one after the other from `p`.
pub open spec fn vec3s_at(b: Seq<u8>, p: int, n: nat) -> Seq<XacVec3d> {
    Seq::new(n, |i: int| vec3_at(b, p + 12 * i))
}

fn read_vec3s(b: &[u8], p: usize, n: u32) -> (r: Option<(Vec<XacVec3d>, usize)>)
    requires
        p <= b@.len(),
    ensures
        r is Some <==> fits(b@, p as int, 12 * n),
        r is Some ==> (r->0).0@ == vec3s_at(b@, p as int, n as nat) && (r->0).1 == p + 12 * n,
{
    let mut v: Vec<XacVec3d> = Vec::new();
    let mut q: usize = p;
    let mut i: u32 = 0;
    while i < n
        invariant
            i <= n,
            q == p + 12 * i,
            fits(b@, p as int, 12 * i),
            v@ =~= vec3s_at(b@, p as int, i as nat),
        decreases n - i,
    {
        match xac_read_vec3d(b, q) {
            Some((x, q2)) => {
                v.push(x);
                q = q2;
                i = i + 1;
                assert(v@ =~= vec3s_at(b@, p as int, i as nat));
            },
            None => {
                return None;
            },
        }
    }
    Some((v, q))
}

/// The `n` XacVec4ds one after the other from `p`.
pub open spec fn vec4s_at(b: Seq<u8>, p: int, n: nat) -> Seq<XacVec4d> {
    Seq::new(n, |i: int| vec4_at(b, p + 16 * i))
}

fn read_vec4s(b: &[u8], p: usize, n: u32) -> (r: Option<(Vec<XacVec4d>, usize)>)
    requires
        p <= b@.len(),
    ensures
        r is Some <==> fits(b@, p as int, 16 * n),
        r is Some ==> (r->0).0@ == vec4s_at(b@, p as int, n as nat) && (r->0).1 == p + 16 * n,
{
    let mut v: Vec<XacVec4d> = Vec::new();
    let mut q: usize = p;
    let mut i: u32 = 0;
    while i < n
        invariant
            i <= n,
            q == p + 16 * i,
            fits(b@, p as int, 16 * i),
            v@ =~= vec4s_at(b@, p as int, i as nat),
        decreases n - i,
    {
        match xac_read_vec4d(b, q) {
            Some((x, q2)) => {
                v.push(x);
                q = q2;
                i = i + 1;
                assert(v@ =~= vec4s_at(b@, p as int, i as nat));
            },
            None => {
                return None;
            },
        }
    }
    Some((v, q))
}

/// The `n` XacColor8s one after the other from `p`.
pub open spec fn color8s_at(b: Seq<u8>, p: int, n: nat) -> Seq<XacColor8> {
    Seq::new(n, |i: int| color8_at(b, p + 3 * i))
}

fn read_color8s(b: &[u8], p: usize, n: u32) -> (r: Option<(Vec<XacColor8>, usize)>)
    requires
        p <= b@.len(),
    ensures
        r is Some <==> fits(b@, p as int, 3 * n),
        r is Some ==> (r->0).0@ == color8s_at(b@, p as int, n as nat) && (r->0).1 == p + 3 * n,
{
    let mut v: Vec<XacColor8> = Vec::new();
    let mut q: usize = p;
    let mut i: u32 = 0;
    while i < n
        invariant
            i <= n,
            q == p + 3 * i,
            fits(b@, p as int, 3 * i),
            v@ =~= color8s_at(b@, p as int, i as nat),
        decreases n - i,
    {
        match xac_read_color8(b, q) {
            Some((x, q2)) => {
                v.push(x);
                q = q2;
                i = i + 1;
                assert(v@ =~= color8s_at(b@, p as int, i as nat));
            },
            None => {
                return None;
            },
        }
    }
    Some((v, q))
}

// ------------------------------------------------------------------ records

/// Where a record of `n` fixed bytes followed by a text ends.
pub open spec fn fixed_then_text_end(b: Seq<u8>, p: int, n: int) -> Option<int> {
    if fits(b, p, n) {
        xstr_end(b, p + n)
    } else {
        None
    }
}

/// Where a text followed by `n` fixed bytes ends.
pub open spec fn text_then_fixed_end(b: Seq<u8>, p: int, n: int) -> Option<int> {
    match xstr_end(b, p) {
        Some(q) => if fits(b, q, n) {
            Some(q + n)
        } else {
            None
        },
        None => None,
    }
}

/// A node of the skeleton.
pub struct XacNode {
    pub rotation: XacQuaternion,
    pub scale_rotation: XacQuaternion,
    pub position: XacVec3d,
    pub scale: XacVec3d,
    pub parent_node_id: u32,
    pub num_children: u32,
    pub include_inbounds_calc: u32,
    pub transform: XacMatrix44,
    pub importance_factor: u32,
    pub name: String,
}

impl Record for XacNode {
    open spec fn end(b: Seq<u8>, p: int, ctx: u32) -> Option<int> {
        fixed_then_text_end(b, p, 156)
    }

    open spec fn at(b: Seq<u8>, p: int, ctx: u32, v: XacNode) -> bool {
        &&& v.rotation == quat_at(b, p)
        &&& v.scale_rotation == quat_at(b, p + 16)
        &&& v.position == vec3_at(b, p + 32)
        &&& v.scale == vec3_at(b, p + 44)
        &&& v.parent_node_id == le32(b, p + 76)
        &&& v.num_children == le32(b, p + 80)
        &&& v.include_inbounds_calc == le32(b, p + 84)
        &&& v.transform == matrix_at(b, p + 88)
        &&& v.importance_factor == le32(b, p + 152)
        &&& v.name@ == xstr_at(b, p + 156)
    }

    fn read(b: &[u8], p: usize, ctx: u32) -> (r: Option<(XacNode, usize)>) {
        let (rotation, q) = xac_read_quaternion(b, p)?;
        let (scale_rotation, q) = xac_read_quaternion(b, q)?;
        let (position, q) = xac_read_vec3d(b, q)?;
        let (scale, q) = xac_read_vec3d(b, q)?;
        let (_, q) = take_u32(b, q)?;
        let (_, q) = take_u32(b, q)?;
        let (_, q) = take_u32(b, q)?;
        let (_, q) = take_u32(b, q)?;
        let (_, q) = take_u32(b, q)?;
        let (parent_node_id, q) = take_u32(b, q)?;
        let (num_children, q) = take_u32(b, q)?;
        let (include_inbounds_calc, q) = take_u32(b, q)?;
        let (transform, q) = xac_read_matrix44(b, q)?;
        let (importance_factor, q) = take_u32(b, q)?;
        let (name, q) = xac_read_string(b, q)?;
        Some((XacNode {
            rotation,
            scale_rotation,
            position,
            scale,
            parent_node_id,
            num_children,
            include_inbounds_calc,
            transform,
            importance_factor,
            name,
        }, q))
    }
}

/// A texture layer of a material.
pub struct XacMaterialLayer {
    pub amount: u32,
    pub v_offset: u32,
    pub u_offset: u32,
    pub v_tiling: u32,
    pub u_tiling: u32,
    pub rotation_in_radians: u32,
    pub material_id: i16,
    pub map_type: u8,
    pub name: String,
}

impl Record for XacMaterialLayer {
    open spec fn end(b: Seq<u8>, p: int, ctx: u32) -> Option<int> {
        fixed_then_text_end(b, p, 28)
    }

    open spec fn at(b: Seq<u8>, p: int, ctx: u32, v: XacMaterialLayer) -> bool {
        &&& v.amount == le32(b, p)
        &&& v.u_offset == le32(b, p + 4)
        &&& v.v_offset == le32(b, p + 8)
        &&& v.u_tiling == le32(b, p + 12)
        &&& v.v_tiling == le32(b, p + 16)
        &&& v.rotation_in_radians == le32(b, p + 20)
        &&& v.material_id == signed16(le16(b, p + 24))
        &&& v.map_type == b[p + 26]
        &&& v.name@ == xstr_at(b, p + 28)
    }

    fn read(b: &[u8], p: usize, ctx: u32) -> (r: Option<(XacMaterialLayer, usize)>) {
        let (amount, q) = take_u32(b, p)?;
        let (u_offset, q) = take_u32(b, q)?;
        let (v_offset, q) = take_u32(b, q)?;
        let (u_tiling, q) = take_u32(b, q)?;
        let (v_tiling, q) = take_u32(b, q)?;
        let (rotation_in_radians, q) = take_u32(b, q)?;
        let (material_id, q) = take_i16(b, q)?;
        let (map_type, q) = take_u8(b, q)?;
        let (_, q) = take_u8(b, q)?;
        let (name, q) = xac_read_string(b, q)?;
        Some((XacMaterialLayer {
            amount,
            v_offset,
            u_offset,
            v_tiling,
            u_tiling,
            rotation_in_radians,
            material_id,
            map_type,
            name,
        }, q))
    }
}

/// A named whole-number shader property.
pub struct XacIntProperties {
    pub name_properties: String,
    pub value: u32,
}

impl Record for XacIntProperties {
    open spec fn end(b: Seq<u8>, p: int, ctx: u32) -> Option<int> {
        text_then_fixed_end(b, p, 4)
    }

    open spec fn at(b: Seq<u8>, p: int, ctx: u32, v: XacIntProperties) -> bool {
        &&& v.name_properties@ == xstr_at(b, p)
        &&& v.value == le32(b, xstr_end(b, p)->0)
    }

    fn read(b: &[u8], p: usize, ctx: u32) -> (r: Option<(XacIntProperties, usize)>) {
        let (name_properties, q) = xac_read_string(b, p)?;
        let (value, q) = take_u32(b, q)?;
        Some((XacIntProperties { name_properties, value }, q))
    }
}

/// A named floating-point shader property, kept as its bits.
pub struct XacFloatProperties {
    pub name_properties: String,
    pub value: u32,
}

impl Record for XacFloatProperties {
    open spec fn end(b: Seq<u8>, p: int, ctx: u32) -> Option<int> {
        text_then_fixed_end(b, p, 4)
    }

    open spec fn at(b: Seq<u8>, p: int, ctx: u32, v: XacFloatProperties) -> bool {
        &&& v.name_properties@ == xstr_at(b, p)
        &&& v.value == le32(b, xstr_end(b, p)->0)
    }

    fn read(b: &[u8], p: usize, ctx: u32) -> (r: Option<(XacFloatProperties, usize)>) {
        let (name_properties, q) = xac_read_string(b, p)?;
        let (value, q) = take_u32(b, q)?;
        Some((XacFloatProperties { name_properties, value }, q))
    }
}

/// A named one-byte shader property.
pub struct XacBoolProperties {
    pub name_properties: String,
    pub value: u8,
}

impl Record for XacBoolProperties {
    open spec fn end(b: Seq<u8>, p: int, ctx: u32) -> Option<int> {
        text_then_fixed_end(b, p, 1)
    }

    open spec fn at(b: Seq<u8>, p: int, ctx: u32, v: XacBoolProperties) -> bool {
        &&& v.name_properties@ == xstr_at(b, p)
        &&& v.value == b[xstr_end(b, p)->0]
    }

    fn read(b: &[u8], p: usize, ctx: u32) -> (r: Option<(XacBoolProperties, usize)>) {
        let (name_properties, q) = xac_read_string(b, p)?;
        let (value, q) = take_u8(b, q)?;
        Some((XacBoolProperties { name_properties, value }, q))
    }
}

/// A named text shader property.
pub struct XacStringProperties {
    pub name_properties: String,
    pub value: String,
}

impl Record for XacStringProperties {
    open spec fn end(b: Seq<u8>, p: int, ctx: u32) -> Option<int> {
        match xstr_end(b, p) {
            Some(q) => xstr_end(b, q),
            None => None,
        }
    }

    open spec fn at(b: Seq<u8>, p: int, ctx: u32, v: XacStringProperties) -> bool {
        &&& v.name_properties@ == xstr_at(b, p)
        &&& v.value@ == xstr_at(b, xstr_end(b, p)->0)
    }

    fn read(b: &[u8], p: usize, ctx: u32) -> (r: Option<(XacStringProperties, usize)>) {
        let (name_properties, q) = xac_read_string(b, p)?;
        let (value, q) = xac_read_string(b, q)?;
        Some((XacStringProperties { name_properties, value }, q))
    }
}

/// A part of a mesh drawn with one material: its indices and bones.
pub struct XacSubMesh {
    pub num_indices: u32,
    pub num_vertices: u32,
    pub material_id: u32,
    pub num_bones: u32,
    pub relative_indices: Vec<u32>,
    pub bone_id: Vec<u32>,
}

impl Record for XacSubMesh {
    open spec fn end(b: Seq<u8>, p: int, ctx: u32) -> Option<int> {
        if fits(b, p, 16) && fits(b, p + 16, 4 * le32(b, p)) && fits(b, p + 16 + 4 * le32(b, p), 4 * le32(b, p + 12)) {
            Some(p + 16 + 4 * le32(b, p) + 4 * le32(b, p + 12))
        } else {
            None
        }
    }

    open spec fn at(b: Seq<u8>, p: int, ctx: u32, v: XacSubMesh) -> bool {
        &&& v.num_indices == le32(b, p)
        &&& v.num_vertices == le32(b, p + 4)
        &&& v.material_id == le32(b, p + 8)
        &&& v.num_bones == le32(b, p + 12)
        &&& v.relative_indices@ == u32s_at(b, p + 16, le32(b, p) as nat)
        &&& v.bone_id@ == u32s_at(b, p + 16 + 4 * le32(b, p), le32(b, p + 12) as nat)
    }

    fn read(b: &[u8], p: usize, ctx: u32) -> (r: Option<(XacSubMesh, usize)>) {
        let (num_indices, q) = take_u32(b, p)?;
        let (num_vertices, q) = take_u32(b, q)?;
        let (material_id, q) = take_u32(b, q)?;
        let (num_bones, q) = take_u32(b, q)?;
        let (relative_indices, q) = take_u32s(b, q, num_indices)?;
        let (bone_id, q) = take_u32s(b, q, num_bones)?;
        Some((XacSubMesh { num_indices, num_vertices, material_id, num_bones, relative_indices, bone_id }, q))
    }
}

/// A bone's weight on a vertex, the weight kept as its bits.
#[derive(Copy, Clone, PartialEq, Eq, Structural, Debug)]
pub struct XacInfluenceData {
    pub weight: u32,
    pub bone_id: u32,
}

impl Record for XacInfluenceData {
    open spec fn end(b: Seq<u8>, p: int, ctx: u32) -> Option<int> {
        if fits(b, p, 8) {
            Some(p + 8)
        } else {
            None
        }
    }

    open spec fn at(b: Seq<u8>, p: int, ctx: u32, v: XacInfluenceData) -> bool {
        v.weight == le32(b, p) && v.bone_id == le32(b, p + 4)
    }

    fn read(b: &[u8], p: usize, ctx: u32) -> (r: Option<(XacInfluenceData, usize)>) {
        let (weight, q) = take_u32(b, p)?;
        let (bone_id, q) = take_u32(b, q)?;
        Some((XacInfluenceData { weight, bone_id }, q))
    }
}

/// The run of influences of one vertex.
#[derive(Copy, Clone, PartialEq, Eq, Structural, Debug)]
pub struct XacInfluenceRange {
    pub first_influence_index: u32,
    pub num_influences: u32,
}

impl Record for XacInfluenceRange {
    open spec fn end(b: Seq<u8>, p: int, ctx: u32) -> Option<int> {
        if fits(b, p, 8) {
            Some(p + 8)
        } else {
            None
        }
    }

    open spec fn at(b: Seq<u8>, p: int, ctx: u32, v: XacInfluenceRange) -> bool {
        v.first_influence_index == le32(b, p) && v.num_influences == le32(b, p + 4)
    }

    fn read(b: &[u8], p: usize, ctx: u32) -> (r: Option<(XacInfluenceRange, usize)>) {
        let (first_influence_index, q) = take_u32(b, p)?;
        let (num_influences, q) = take_u32(b, q)?;
        Some((XacInfluenceRange { first_influence_index, num_influences }, q))
    }
}

// ------------------------------------------------------------------ chunk records

/// The start of the file: its four magic bytes as text, the version, the
/// byte order and the matrix multiplication order.
pub struct XacHeader {
    pub magic: String,
    pub major_version: u8,
    pub minor_version: u8,
    pub big_endian: bool,
    pub multiply_order: u8,
}

/// The actor's metadata.
pub struct XacMetaData {
    pub reposition_mask: u32,
    pub repositioning_node: u32,
    pub exporter_major_version: u8,
    pub exporter_minor_version: u8,
    pub retarget_root_offset: u32,
    pub source_app: String,
    pub original_filename: String,
    pub export_date: String,
    pub actor_name: String,
}

/// Where the `k`-th of the texts that follow each other from `p` starts.
pub open spec fn nth_text(b: Seq<u8>, p: int, k: nat) -> Option<int>
    decreases k,
{
    if k == 0 {
        Some(p)
    } else {
        match nth_text(b, p, (k - 1) as nat) {
            Some(q) => xstr_end(b, q),
            None => None,
        }
    }
}

impl Record for XacMetaData {
    open spec fn end(b: Seq<u8>, p: int, ctx: u32) -> Option<int> {
        if fits(b, p, 16) {
            nth_text(b, p + 16, 4)
        } else {
            None
        }
    }

    open spec fn at(b: Seq<u8>, p: int, ctx: u32, v: XacMetaData) -> bool {
        &&& v.reposition_mask == le32(b, p)
        &&& v.repositioning_node == le32(b, p + 4)
        &&& v.exporter_major_version == b[p + 8]
        &&& v.exporter_minor_version == b[p + 9]
        &&& v.retarget_root_offset == le32(b, p + 12)
        &&& v.source_app@ == xstr_at(b, nth_text(b, p + 16, 0)->0)
        &&& v.original_filename@ == xstr_at(b, nth_text(b, p + 16, 1)->0)
        &&& v.export_date@ == xstr_at(b, nth_text(b, p + 16, 2)->0)
        &&& v.actor_name@ == xstr_at(b, nth_text(b, p + 16, 3)->0)
    }

    fn read(b: &[u8], p: usize, ctx: u32) -> (r: Option<(XacMetaData, usize)>) {
        proof {
            reveal_with_fuel(nth_text, 5);
        }
        let (reposition_mask, q) = take_u32(b, p)?;
        let (repositioning_node, q) = take_u32(b, q)?;
        let (exporter_major_version, q) = take_u8(b, q)?;
        let (exporter_minor_version, q) = take_u8(b, q)?;
        let (_, q) = take_u8(b, q)?;
        let (_, q) = take_u8(b, q)?;
        let (retarget_root_offset, q) = take_u32(b, q)?;
        let ghost t = q as int;
        let (source_app, q) = xac_read_string(b, q)?;
        assert(nth_text(b@, t, 1) == Some(q as int));
        let (original_filename, q) = xac_read_string(b, q)?;
        assert(nth_text(b@, t, 2) == Some(q as int));
        let (export_date, q) = xac_read_string(b, q)?;
        assert(nth_text(b@, t, 3) == Some(q as int));
        let (actor_name, q) = xac_read_string(b, q)?;
        assert(nth_text(b@, t, 4) == Some(q as int));
        Some((XacMetaData {
            reposition_mask,
            repositioning_node,
            exporter_major_version,
            exporter_minor_version,
            retarget_root_offset,
            source_app,
            original_filename,
            export_date,
            actor_name,
        }, q))
    }
}

/// How many materials the actor has, of each kind.
#[derive(Copy, Clone, PartialEq, Eq, Structural, Debug)]
pub struct XacMaterialTotals {
    pub num_total_materials: u32,
    pub num_standard_materials: u32,
    pub num_fx_materials: u32,
}

pub open spec fn totals_at(b: Seq<u8>, p: int) -> XacMaterialTotals {
    XacMaterialTotals {
        num_total_materials: w32(b, p),
        num_standard_materials: w32(b, p + 4),
        num_fx_materials: w32(b, p + 8),
    }
}

fn read_material_total(b: &[u8], p: usize) -> (r: Option<(XacMaterialTotals, usize)>)
    ensures
        r is Some <==> fits(b@, p as int, 12),
        r is Some ==> (r->0).0 == totals_at(b@, p as int) && (r->0).1 == p + 12,
{
    let (num_total_materials, q) = take_u32(b, p)?;
    let (num_standard_materials, q) = take_u32(b, q)?;
    let (num_fx_materials, q) = take_u32(b, q)?;
    Some((XacMaterialTotals { num_total_materials, num_standard_materials, num_fx_materials }, q))
}

/// The skeleton: how many nodes and root nodes, and the nodes.
pub struct XacNodeHierarchy {
    pub num_nodes: u32,
    pub num_root_nodes: u32,
    pub node: Vec<XacNode>,
}

/// Where the skeleton chunk at `p` ends, if the data holds it.
pub open spec fn hierarchy_end(b: Seq<u8>, p: int) -> Option<int> {
    if fits(b, p, 8) {
        list_end::<XacNode>(b, p + 8, 0, le32(b, p) as nat)
    } else {
        None
    }
}

/// Reads a skeleton chunk: the two counts and the nodes.
fn read_node_hierarchy(b: &[u8], p: usize) -> (r: Option<(XacNodeHierarchy, usize)>)
    ensures
        r is Some <==> hierarchy_end(b@, p as int) is Some,
        r matches Some((h, q)) ==> {
            &&& q == hierarchy_end(b@, p as int)->0
            &&& h.num_nodes == le32(b@, p as int)
            &&& h.num_root_nodes == le32(b@, p + 4)
            &&& list_at::<XacNode>(b@, p + 8, 0, le32(b@, p as int) as nat, h.node@)
        },
{
    let (num_nodes, q) = take_u32(b, p)?;
    let (num_root_nodes, q) = take_u32(b, q)?;
    let (node, q) = read_list::<XacNode>(b, q, 0, num_nodes)?;
    Some((XacNodeHierarchy { num_nodes, num_root_nodes, node }, q))
}

/// A standard material: its colours and factors, its name and its layers.
pub struct XacMaterialDefinition {
    pub ambient_color: XacVec4d,
    pub diffuse_color: XacVec4d,
    pub specular_color: XacVec4d,
    pub emissive_color: XacVec4d,
    pub shine: u32,
    pub shine_strength: u32,
    pub opacity: u32,
    pub ior: u32,
    pub double_sided: bool,
    pub wireframe: bool,
    pub num_layers: u8,
    pub name: String,
    pub layers: Vec<XacMaterialLayer>,
}

/// Where the layers of the material chunk at `p` start.
pub open spec fn material_layers_start(b: Seq<u8>, p: int) -> Option<int> {
    fixed_then_text_end(b, p, 84)
}

/// Where the material chunk at `p` ends, if the data holds it.
pub open spec fn material_end(b: Seq<u8>, p: int) -> Option<int> {
    match material_layers_start(b, p) {
        Some(q) => list_end::<XacMaterialLayer>(b, q, 0, b[p + 83] as nat),
        None => None,
    }
}

/// `v`'s fields but its layers are those of the material chunk at `p`.
pub open spec fn material_head_at(b: Seq<u8>, p: int, v: XacMaterialDefinition) -> bool {
    &&& v.ambient_color == vec4_at(b, p)
    &&& v.diffuse_color == vec4_at(b, p + 16)
    &&& v.specular_color == vec4_at(b, p + 32)
    &&& v.emissive_color == vec4_at(b, p + 48)
    &&& v.shine == le32(b, p + 64)
    &&& v.shine_strength == le32(b, p + 68)
    &&& v.opacity == le32(b, p + 72)
    &&& v.ior == le32(b, p + 76)
    &&& v.double_sided == (b[p + 80] != 0)
    &&& v.wireframe == (b[p + 81] != 0)
    &&& v.num_layers == b[p + 83]
    &&& v.name@ == xstr_at(b, p + 84)
}

/// Reads a material chunk: its fields, its name and its layers.
fn read_material_definition(b: &[u8], p: usize) -> (r: Option<(XacMaterialDefinition, usize)>)
    ensures
        r is Some <==> material_end(b@, p as int) is Some,
        r matches Some((m, q)) ==> {
            &&& q == material_end(b@, p as int)->0
            &&& material_head_at(b@, p as int, m)
            &&& list_at::<XacMaterialLayer>(b@, material_layers_start(b@, p as int)->0, 0, b@[p + 83] as nat, m.layers@)
        },
{
    let (ambient_color, q) = xac_read_vec4d(b, p)?;
    let (diffuse_color, q) = xac_read_vec4d(b, q)?;
    let (specular_color, q) = xac_read_vec4d(b, q)?;
    let (emissive_color, q) = xac_read_vec4d(b, q)?;
    let (shine, q) = take_u32(b, q)?;
    let (shine_strength, q) = take_u32(b, q)?;
    let (opacity, q) = take_u32(b, q)?;
    let (ior, q) = take_u32(b, q)?;
    let (double_sided, q) = xac_read_boolean(b, q)?;
    let (wireframe, q) = xac_read_boolean(b, q)?;
    let (_, q) = take_u8(b, q)?;
    let (num_layers, q) = take_u8(b, q)?;
    let (name, q) = xac_read_string(b, q)?;
    let (layers, q) = read_list::<XacMaterialLayer>(b, q, 0, num_layers as u32)?;
    Some((XacMaterialDefinition {
        ambient_color,
        diffuse_color,
        specular_color,
        emissive_color,
        shine,
        shine_strength,
        opacity,
        ior,
        double_sided,
        wireframe,
        num_layers,
        name,
        layers,
    }, q))
}

/// An effect material: property counts, flags, names and properties.
pub struct XacShaderMaterial {
    pub num_int: u32,
    pub num_float: u32,
    pub num_bool: u32,
    pub num_string: u32,
    pub flag: u32,
    pub name_material: String,
    pub name_shader: String,
    pub int_property: Vec<XacIntProperties>,
    pub float_property: Vec<XacFloatProperties>,
    pub bool_property: Vec<XacBoolProperties>,
    pub string_property: Vec<XacStringProperties>,
}

/// Where the names of the effect material at `p` end.
pub open spec fn shader_names_end(b: Seq<u8>, p: int) -> Option<int> {
    match fixed_then_text_end(b, p, 24) {
        Some(q) => xstr_end(b, q),
        None => None,
    }
}

/// Where its whole-number properties end.
pub open spec fn shader_ints_end(b: Seq<u8>, p: int) -> Option<int> {
    match shader_names_end(b, p) {
        Some(q) => list_end::<XacIntProperties>(b, q, 0, le32(b, p) as nat),
        None => None,
    }
}

/// Where its floating-point properties end.
pub open spec fn shader_floats_end(b: Seq<u8>, p: int) -> Option<int> {
    match shader_ints_end(b, p) {
        Some(q) => list_end::<XacFloatProperties>(b, q, 0, le32(b, p + 4) as nat),
        None => None,
    }
}

/// Where its one-byte properties end.
pub open spec fn shader_bools_end(b: Seq<u8>, p: int) -> Option<int> {
    match shader_floats_end(b, p) {
        Some(q) => list_end::<XacBoolProperties>(b, q, 0, le32(b, p + 12) as nat),
        None => None,
    }
}

/// Where the skipped run after them ends: a signed 32-bit count, then that
/// many bytes (none where the count is negative).
pub open spec fn shader_skip_end(b: Seq<u8>, p: int) -> Option<int> {
    match shader_bools_end(b, p) {
        Some(q) => xstr_end(b, q),
        None => None,
    }
}

/// Where the effect material at `p` ends, if the data holds it.
pub open spec fn shader_end(b: Seq<u8>, p: int) -> Option<int> {
    match shader_skip_end(b, p) {
        Some(q) => list_end::<XacStringProperties>(b, q, 0, le32(b, p + 20) as nat),
        None => None,
    }
}

/// `v` is the effect material at `p` (whose data the bytes hold).
pub open spec fn shader_at(b: Seq<u8>, p: int, v: XacShaderMaterial) -> bool {
    &&& v.num_int == le32(b, p)
    &&& v.num_float == le32(b, p + 4)
    &&& v.num_bool == le32(b, p + 12)
    &&& v.flag == le32(b, p + 16)
    &&& v.num_string == le32(b, p + 20)
    &&& v.name_material@ == xstr_at(b, p + 24)
    &&& v.name_shader@ == xstr_at(b, xstr_end(b, p + 24)->0)
    &&& list_at::<XacIntProperties>(b, shader_names_end(b, p)->0, 0, le32(b, p) as nat, v.int_property@)
    &&& list_at::<XacFloatProperties>(b, shader_ints_end(b, p)->0, 0, le32(b, p + 4) as nat, v.float_property@)
    &&& list_at::<XacBoolProperties>(b, shader_floats_end(b, p)->0, 0, le32(b, p + 12) as nat, v.bool_property@)
    &&& list_at::<XacStringProperties>(b, shader_skip_end(b, p)->0, 0, le32(b, p + 20) as nat, v.string_property@)
}

/// Skips a signed 32-bit count and then that many bytes.
fn skip_counted(b: &[u8], p: usize) -> (r: Option<usize>)
    ensures
        r is Some <==> xstr_end(b@, p as int) is Some,
        r is Some ==> r->0 == xstr_end(b@, p as int)->0,
{
    let (raw, q) = take_u32(b, p)?;
    let n: usize = if raw < 0x8000_0000 {
        raw as usize
    } else {
        0
    };
    if q > b.len() || b.len() - q < n {
        None
    } else {
        Some(q + n)
    }
}

/// Reads an effect material chunk.
fn read_shader_material(b: &[u8], p: usize) -> (r: Option<(XacShaderMaterial, usize)>)
    ensures
        r is Some <==> shader_end(b@, p as int) is Some,
        r matches Some((m, q)) ==> q == shader_end(b@, p as int)->0 && shader_at(b@, p as int, m),
{
    let (num_int, q) = take_u32(b, p)?;
    let (num_float, q) = take_u32(b, q)?;
    let (_, q) = take_u32(b, q)?;
    let (num_bool, q) = take_u32(b, q)?;
    let (flag, q) = take_u32(b, q)?;
    let (num_string, q) = take_u32(b, q)?;
    let (name_material, q) = xac_read_string(b, q)?;
    let (name_shader, q) = xac_read_string(b, q)?;
    let (int_property, q) = read_list::<XacIntProperties>(b, q, 0, num_int)?;
    let (float_property, q) = read_list::<XacFloatProperties>(b, q, 0, num_float)?;
    let (bool_property, q) = read_list::<XacBoolProperties>(b, q, 0, num_bool)?;
    let q = skip_counted(b, q)?;
    let (string_property, q) = read_list::<XacStringProperties>(b, q, 0, num_string)?;
    Some((XacShaderMaterial {
        num_int,
        num_float,
        num_bool,
        num_string,
        flag,
        name_material,
        name_shader,
        int_property,
        float_property,
        bool_property,
        string_property,
    }, q))
}

/// The vertex data of a mesh: the header of the last layer read and the
/// values of every layer, gathered by kind.
pub struct XacVerticesAttribute {
    pub type_id: u32,
    pub attribute_size: u32,
    pub keep_original: bool,
    pub scale_factor: bool,
    pub vertex_positions: Vec<XacVec3d>,
    pub vertex_normals: Vec<XacVec3d>,
    pub vertex_tangents: Vec<XacVec4d>,
    pub vertex_bi_tangents: Vec<XacVec4d>,
    pub vertex_uvs: Vec<XacVec2d>,
    pub vertex_colors_32: Vec<XacColor8>,
    pub vertex_colors_128: Vec<XacVec3d>,
    pub vertex_influences: Vec<u32>,
}

/// What an `XacVerticesAttribute` holds.
pub struct AttrView {
    pub type_id: u32,
    pub attribute_size: u32,
    pub keep_original: bool,
    pub scale_factor: bool,
    pub positions: Seq<XacVec3d>,
    pub normals: Seq<XacVec3d>,
    pub tangents: Seq<XacVec4d>,
    pub bi_tangents: Seq<XacVec4d>,
    pub uvs: Seq<XacVec2d>,
    pub colors_32: Seq<XacColor8>,
    pub colors_128: Seq<XacVec3d>,
    pub influences: Seq<u32>,
}

impl View for XacVerticesAttribute {
    type V = AttrView;

    open spec fn view(&self) -> AttrView {
        AttrView {
            type_id: self.type_id,
            attribute_size: self.attribute_size,
            keep_original: self.keep_original,
            scale_factor: self.scale_factor,
            positions: self.vertex_positions@,
            normals: self.vertex_normals@,
            tangents: self.vertex_tangents@,
            bi_tangents: self.vertex_bi_tangents@,
            uvs: self.vertex_uvs@,
            colors_32: self.vertex_colors_32@,
            colors_128: self.vertex_colors_128@,
            influences: self.vertex_influences@,
        }
    }
}

/// No layer read yet.
pub open spec fn empty_attr() -> AttrView {
    AttrView {
        type_id: 0,
        attribute_size: 0,
        keep_original: false,
        scale_factor: false,
        positions: Seq::empty(),
        normals: Seq::empty(),
        tangents: Seq::empty(),
        bi_tangents: Seq::empty(),
        uvs: Seq::empty(),
        colors_32: Seq::empty(),
        colors_128: Seq::empty(),
        influences: Seq::empty(),
    }
}

/// `a` with the header of the layer at `p`.
pub open spec fn with_layer_header(b: Seq<u8>, p: int, a: AttrView) -> AttrView {
    AttrView {
        type_id: w32(b, p),
        attribute_size: w32(b, p + 4),
        keep_original: b[p + 8] != 0,
        scale_factor: b[p + 9] != 0,
        ..a
    }
}

/// Reading the layer at `p` of a mesh of `nv` vertices into `a`: its
/// twelve-byte header, then `nv` values of the layer's kind, added to the
/// values of that kind. A tangent layer fills the tangents, else the
/// bitangents, and is skipped when both are filled; a layer of another
/// kind holds no values.
pub open spec fn layer_step(b: Seq<u8>, p: int, nv: nat, a: AttrView) -> Option<(int, AttrView)> {
    let h = with_layer_header(b, p, a);
    let q = p + 12;
    let t = le32(b, p);
    if !fits(b, p, 12) {
        None
    } else if t == 0 {
        if fits(b, q, 12 * nv as int) { Some((q + 12 * nv, AttrView { positions: a.positions + vec3s_at(b, q, nv), ..h })) } else { None }
    } else if t == 1 {
        if fits(b, q, 12 * nv as int) { Some((q + 12 * nv, AttrView { normals: a.normals + vec3s_at(b, q, nv), ..h })) } else { None }
    } else if t == 2 {
        if a.tangents.len() == 0 {
            if fits(b, q, 16 * nv as int) { Some((q + 16 * nv, AttrView { tangents: a.tangents + vec4s_at(b, q, nv), ..h })) } else { None }
        } else if a.bi_tangents.len() == 0 {
            if fits(b, q, 16 * nv as int) { Some((q + 16 * nv, AttrView { bi_tangents: a.bi_tangents + vec4s_at(b, q, nv), ..h })) } else { None }
        } else {
            Some((q, h))
        }
    } else if t == 3 {
        if fits(b, q, 8 * nv as int) { Some((q + 8 * nv, AttrView { uvs: a.uvs + vec2s_at(b, q, nv), ..h })) } else { None }
    } else if t == 4 {
        if fits(b, q, 3 * nv as int) { Some((q + 3 * nv, AttrView { colors_32: a.colors_32 + color8s_at(b, q, nv), ..h })) } else { None }
    } else if t == 5 {
        if fits(b, q, 4 * nv as int) { Some((q + 4 * nv, AttrView { influences: a.influences + u32s_at(b, q, nv), ..h })) } else { None }
    } else if t == 6 {
        if fits(b, q, 12 * nv as int) { Some((q + 12 * nv, AttrView { colors_128: a.colors_128 + vec3s_at(b, q, nv), ..h })) } else { None }
    } else {
        Some((q, h))
    }
}

/// Reading `k` layers of a mesh of `nv` vertices from `p`.
pub open spec fn layers(b: Seq<u8>, p: int, nv: nat, k: nat) -> Option<(int, AttrView)>
    decreases k,
{
    if k == 0 {
        Some((p, empty_attr()))
    } else {
        match layers(b, p, nv, (k - 1) as nat) {
            Some((q, a)) => layer_step(b, q, nv, a),
            None => None,
        }
    }
}

/// Reads the layer at `p` into `attr`.
fn read_layer(b: &[u8], p: usize, nv: u32, attr: &mut XacVerticesAttribute) -> (r: Option<usize>)
    requires
        p <= b@.len(),
    ensures
        r is Some <==> layer_step(b@, p as int, nv as nat, old(attr)@) is Some,
        r matches Some(q) ==> (layer_step(b@, p as int, nv as nat, old(attr)@) matches Some((e, a))
            && q == e && final(attr)@ == a),
{
    let (type_id, q) = take_u32(b, p)?;
    let (attribute_size, q) = take_u32(b, q)?;
    let (keep_original, q) = xac_read_boolean(b, q)?;
    let (scale_factor, q) = xac_read_boolean(b, q)?;
    let (_, q) = take_u8(b, q)?;
    let (_, q) = take_u8(b, q)?;
    let tangents_empty = attr.vertex_tangents.len() == 0;
    let bi_tangents_empty = attr.vertex_bi_tangents.len() == 0;
    let q = if type_id == 0 {
        let (mut v, q) = read_vec3s(b, q, nv)?;
        attr.vertex_positions.append(&mut v);
        q
    } else if type_id == 1 {
        let (mut v, q) = read_vec3s(b, q, nv)?;
        attr.vertex_normals.append(&mut v);
        q
    } else if type_id == 2 {
        if tangents_empty {
            let (mut v, q) = read_vec4s(b, q, nv)?;
            attr.vertex_tangents.append(&mut v);
            q
        } else if bi_tangents_empty {
            let (mut v, q) = read_vec4s(b, q, nv)?;
            attr.vertex_bi_tangents.append(&mut v);
            q
        } else {
            q
        }
    } else if type_id == 3 {
        let (mut v, q) = read_vec2s(b, q, nv)?;
        attr.vertex_uvs.append(&mut v);
        q
    } else if type_id == 4 {
        let (mut v, q) = read_color8s(b, q, nv)?;
        attr.vertex_colors_32.append(&mut v);
        q
    } else if type_id == 5 {
        let (mut v, q) = take_u32s(b, q, nv)?;
        attr.vertex_influences.append(&mut v);
        q
    } else if type_id == 6 {
        let (mut v, q) = read_vec3s(b, q, nv)?;
        attr.vertex_colors_128.append(&mut v);
        q
    } else {
        q
    };
    attr.type_id = type_id;
    attr.attribute_size = attribute_size;
    attr.keep_original = keep_original;
    attr.scale_factor = scale_factor;
    Some(q)
}

/// Once reading layers fails, reading more fails too.
proof fn lemma_layers_none(b: Seq<u8>, p: int, nv: nat, i: nat, n: nat)
    requires
        i <= n,
        layers(b, p, nv, i) is None,
    ensures
        layers(b, p, nv, n) is None,
    decreases n - i,
{
    if i < n {
        lemma_layers_none(b, p, nv, (i + 1) as nat, n);
    }
}

/// A mesh: its counts, its collision flag, its vertex data and its parts.
pub struct XacMesh {
    pub node_id: u32,
    pub num_influence_ranges: u32,
    pub num_vertices: u32,
    pub num_indices: u32,
    pub num_sub_meshes: u32,
    pub num_attribute_layer: u32,
    pub collision_mesh: bool,
    pub vertices_attribute: XacVerticesAttribute,
    pub sub_mesh: Vec<XacSubMesh>,
}

/// Reading the layers of the mesh chunk at `p`.
pub open spec fn mesh_layers(b: Seq<u8>, p: int) -> Option<(int, AttrView)> {
    if fits(b, p, 28) {
        layers(b, p + 28, le32(b, p + 8) as nat, le32(b, p + 20) as nat)
    } else {
        None
    }
}

/// Where the parts of the mesh chunk at `p` start.
pub open spec fn mesh_parts_start(b: Seq<u8>, p: int) -> int {
    match mesh_layers(b, p) {
        Some((q, _)) => q,
        None => 0,
    }
}

/// The vertex data of the mesh chunk at `p`.
pub open spec fn mesh_attr(b: Seq<u8>, p: int) -> AttrView {
    match mesh_layers(b, p) {
        Some((_, a)) => a,
        None => empty_attr(),
    }
}

/// Where the mesh chunk at `p` ends, if the data holds it.
pub open spec fn mesh_end(b: Seq<u8>, p: int) -> Option<int> {
    match mesh_layers(b, p) {
        Some((q, _)) => list_end::<XacSubMesh>(b, q, 0, le32(b, p + 16) as nat),
        None => None,
    }
}

/// `m` is the mesh chunk at `p` (whose data the bytes hold).
pub open spec fn mesh_at(b: Seq<u8>, p: int, m: XacMesh) -> bool {
    &&& m.node_id == le32(b, p)
    &&& m.num_influence_ranges == le32(b, p + 4)
    &&& m.num_vertices == le32(b, p + 8)
    &&& m.num_indices == le32(b, p + 12)
    &&& m.num_sub_meshes == le32(b, p + 16)
    &&& m.num_attribute_layer == le32(b, p + 20)
    &&& m.collision_mesh == (b[p + 24] != 0)
    &&& m.vertices_attribute@ == mesh_attr(b, p)
    &&& list_at::<XacSubMesh>(b, mesh_parts_start(b, p), 0, le32(b, p + 16) as nat, m.sub_mesh@)
}

/// Reads a mesh chunk: the counts, the layers one after the other into one
/// vertex record, then the parts.
fn read_mesh(b: &[u8], p: usize) -> (r: Option<(XacMesh, usize)>)
    ensures
        r is Some <==> mesh_end(b@, p as int) is Some,
        r matches Some((m, q)) ==> q == mesh_end(b@, p as int)->0 && mesh_at(b@, p as int, m),
{
    let (node_id, q) = take_u32(b, p)?;
    let (num_influence_ranges, q) = take_u32(b, q)?;
    let (num_vertices, q) = take_u32(b, q)?;
    let (num_indices, q) = take_u32(b, q)?;
    let (num_sub_meshes, q) = take_u32(b, q)?;
    let (num_attribute_layer, q) = take_u32(b, q)?;
    let (collision_mesh, q) = xac_read_boolean(b, q)?;
    let (_, q) = take_u8(b, q)?;
    let (_, q) = take_u8(b, q)?;
    let (_, mut q) = take_u8(b, q)?;
    let ghost start = q as int;
    let ghost nv = num_vertices as nat;
    let mut vertices_attribute = XacVerticesAttribute {
        type_id: 0,
        attribute_size: 0,
        keep_original: false,
        scale_factor: false,
        vertex_positions: Vec::new(),
        vertex_normals: Vec::new(),
        vertex_tangents: Vec::new(),
        vertex_bi_tangents: Vec::new(),
        vertex_uvs: Vec::new(),
        vertex_colors_32: Vec::new(),
        vertex_colors_128: Vec::new(),
        vertex_influences: Vec::new(),
    };
    assert(vertices_attribute@ =~= empty_attr());
    let mut i: u32 = 0;
    while i < num_attribute_layer
        invariant
            start == p + 28,
            nv == num_vertices,
            fits(b@, p as int, 28),
            num_vertices == le32(b@, p + 8),
            num_attribute_layer == le32(b@, p + 20),
            i <= num_attribute_layer,
            q <= b@.len(),
            layers(b@, start, nv, i as nat) == Some((q as int, vertices_attribute@)),
        decreases num_attribute_layer - i,
    {
        match read_layer(b, q, num_vertices, &mut vertices_attribute) {
            Some(q2) => {
                q = q2;
                i = i + 1;
            },
            None => {
                proof {
                    lemma_layers_none(b@, start, nv, (i + 1) as nat, num_attribute_layer as nat);
                }
                return None;
            },
        }
    }
    let (sub_mesh, q) = read_list::<XacSubMesh>(b, q, 0, num_sub_meshes)?;
    Some((XacMesh {
        node_id,
        num_influence_ranges,
        num_vertices,
        num_indices,
        num_sub_meshes,
        num_attribute_layer,
        collision_mesh,
        vertices_attribute,
        sub_mesh,
    }, q))
}

/// The skinning of the last mesh: its counts, its flag, the bone weights
/// and the runs of weights of each vertex.
pub struct XacSkinning {
    pub node_id: u32,
    pub num_local_bones: u32,
    pub num_influences: u32,
    pub collision_mesh: bool,
    pub influence_data: Vec<XacInfluenceData>,
    pub influence_range: Vec<XacInfluenceRange>,
}

/// Where the weights of the skinning chunk at `p` end.
pub open spec fn skin_influences_end(b: Seq<u8>, p: int) -> Option<int> {
    if fits(b, p, 16) {
        list_end::<XacInfluenceData>(b, p + 16, 0, le32(b, p + 8) as nat)
    } else {
        None
    }
}

/// The fixed part of the skinning chunk at `p` and its weights.
struct SkinHead {
    node_id: u32,
    num_local_bones: u32,
    num_influences: u32,
    collision_mesh: bool,
    influence_data: Vec<XacInfluenceData>,
}

fn read_skinning_head(b: &[u8], p: usize) -> (r: Option<(SkinHead, usize)>)
    ensures
        r is Some <==> skin_influences_end(b@, p as int) is Some,
        r matches Some((h, q)) ==> {
            &&& q == skin_influences_end(b@, p as int)->0
            &&& h.node_id == le32(b@, p as int)
            &&& h.num_local_bones == le32(b@, p + 4)
            &&& h.num_influences == le32(b@, p + 8)
            &&& h.collision_mesh == (b@[p + 12] != 0)
            &&& list_at::<XacInfluenceData>(b@, p + 16, 0, le32(b@, p + 8) as nat, h.influence_data@)
        },
{
    let (node_id, q) = take_u32(b, p)?;
    let (num_local_bones, q) = take_u32(b, q)?;
    let (num_influences, q) = take_u32(b, q)?;
    let (collision_mesh, q) = xac_read_boolean(b, q)?;
    let (_, q) = take_u8(b, q)?;
    let (_, q) = take_u8(b, q)?;
    let (_, q) = take_u8(b, q)?;
    let (influence_data, q) = read_list::<XacInfluenceData>(b, q, 0, num_influences)?;
    Some((SkinHead { node_id, num_local_bones, num_influences, collision_mesh, influence_data }, q))
}

// ------------------------------------------------------------------ the file

/// A whole actor: the header and the records of every chunk, gathered.
pub struct XacFile {
    pub header: XacHeader,
    pub metadata: XacMetaData,
    pub node_hierarchy: XacNodeHierarchy,
    pub material_totals: XacMaterialTotals,
    pub material_definition: XacMaterialDefinition,
    pub shader_material: Vec<XacShaderMaterial>,
    pub mesh_data: Vec<XacMesh>,
    pub skinning: XacSkinning,
}

/// Why a file cannot be read.
#[derive(Copy, Clone, PartialEq, Eq, Structural, Debug)]
pub enum XacFileFault {
    /// The data ends inside the header, a chunk's frame or its record.
    UnexpectedEof,
    /// The first four bytes are not "XAC ".
    BadMagic,
    /// The version is not 1.0.
    UnsupportedVersion { major: u8, minor: u8 },
    /// The file is stored big-endian.
    BigEndian,
    /// A skinning chunk comes before any mesh.
    SkinningWithoutMesh,
}

/// What is wrong with the header of `b`, if anything.
pub open spec fn header_fault(b: Seq<u8>) -> Option<XacFileFault> {
    if b.len() < 4 {
        Some(XacFileFault::UnexpectedEof)
    } else if b.subrange(0, 4) != seq![0x58u8, 0x41, 0x43, 0x20] {
        Some(XacFileFault::BadMagic)
    } else if b.len() < 6 {
        Some(XacFileFault::UnexpectedEof)
    } else if b[4] != 1 || b[5] != 0 {
        Some(XacFileFault::UnsupportedVersion { major: b[4], minor: b[5] })
    } else if b.len() < 7 {
        Some(XacFileFault::UnexpectedEof)
    } else if b[6] != 0 {
        Some(XacFileFault::BigEndian)
    } else if b.len() < 8 {
        Some(XacFileFault::UnexpectedEof)
    } else {
        None
    }
}

/// What reading the record of a chunk of kind `t` at `s` gives: the number
/// of influence runs of the last mesh read (`ranges` before it), or why it
/// cannot be read.
pub open spec fn chunk_outcome(b: Seq<u8>, t: int, s: int, ranges: Option<u32>) -> Result<Option<u32>, XacFileFault> {
    if t == 1 {
        if mesh_end(b, s) is Some {
            Ok(Some(w32(b, s + 4)))
        } else {
            Err(XacFileFault::UnexpectedEof)
        }
    } else if t == 2 {
        match skin_influences_end(b, s) {
            None => Err(XacFileFault::UnexpectedEof),
            Some(q) => match ranges {
                None => Err(XacFileFault::SkinningWithoutMesh),
                Some(n) => if list_end::<XacInfluenceRange>(b, q, 0, n as nat) is Some {
                    Ok(ranges)
                } else {
                    Err(XacFileFault::UnexpectedEof)
                },
            },
        }
    } else if (t == 3 && material_end(b, s) is None) || (t == 5 && shader_end(b, s) is None) || (t == 7
        && XacMetaData::end(b, s, 0) is None) || (t == 11 && hierarchy_end(b, s) is None) || (t == 13
        && !fits(b, s, 12)) {
        Err(XacFileFault::UnexpectedEof)
    } else {
        Ok(ranges)
    }
}

/// A chunk read: its kind, where its record starts, and the number of
/// influence runs of the last mesh before it (0 where there is none).
pub type Frame = (u32, int, u32);

/// How reading chunks ends: with the chunks read, or with a fault.
pub enum XacFileRun {
    Done(Seq<Frame>),
    Crash(XacFileFault),
}

/// Reading chunks from `pos`, `ranges` being what the last mesh read gave:
/// while `pos` is inside the data, a twelve-byte frame (kind, length,
/// version), the record of its kind, and the next frame `length` bytes
/// after the record's start.
pub open spec fn frames_from(b: Seq<u8>, pos: int, ranges: Option<u32>) -> XacFileRun
    decreases b.len() - pos,
{
    if pos < 0 || pos >= b.len() {
        XacFileRun::Done(Seq::empty())
    } else if !fits(b, pos, 12) {
        XacFileRun::Crash(XacFileFault::UnexpectedEof)
    } else {
        let t = le32(b, pos);
        let s = pos + 12;
        let next = s + le32(b, pos + 4);
        let f: Frame = (t as u32, s, match ranges {
            Some(n) => n,
            None => 0,
        });
        match chunk_outcome(b, t, s, ranges) {
            Err(e) => XacFileRun::Crash(e),
            Ok(r2) => if next >= b.len() {
                XacFileRun::Done(seq![f])
            } else {
                match frames_from(b, next, r2) {
                    XacFileRun::Done(fs) => XacFileRun::Done(seq![f] + fs),
                    other => other,
                }
            },
        }
    }
}

/// Reading the whole file: the header, then the chunks after it.
pub open spec fn xac_file_run(b: Seq<u8>) -> XacFileRun {
    match header_fault(b) {
        Some(e) => XacFileRun::Crash(e),
        None => frames_from(b, 8, None),
    }
}

/// The run `r` after the chunks `fr`.
pub open spec fn after_frames(fr: Seq<Frame>, r: XacFileRun) -> XacFileRun {
    match r {
        XacFileRun::Done(t) => XacFileRun::Done(fr + t),
        other => other,
    }
}

/// Where the records of the chunks of kind `t` among `fr` start.
pub open spec fn starts_of(fr: Seq<Frame>, t: u32) -> Seq<int>
    decreases fr.len(),
{
    if fr.len() == 0 {
        Seq::empty()
    } else if fr.last().0 == t {
        starts_of(fr.drop_last(), t).push(fr.last().1)
    } else {
        starts_of(fr.drop_last(), t)
    }
}

/// Where the record of the last chunk of kind `t` among `fr` starts.
pub open spec fn last_of(fr: Seq<Frame>, t: u32) -> Option<int>
    decreases fr.len(),
{
    if fr.len() == 0 {
        None
    } else if fr.last().0 == t {
        Some(fr.last().1)
    } else {
        last_of(fr.drop_last(), t)
    }
}

/// The lists that the chunks add to.
pub enum PartKind {
    Nodes,
    Layers,
    Influences,
    Ranges,
}

/// The list of kind `k` that the chunk `f` adds: where it starts and how
/// many records it holds.
pub open spec fn part_of(b: Seq<u8>, f: Frame, k: PartKind) -> Option<(int, nat)> {
    let t = f.0;
    let s = f.1;
    match k {
        PartKind::Nodes => if t == 11 { Some((s + 8, le32(b, s) as nat)) } else { None },
        PartKind::Layers => if t == 3 { Some((material_layers_start(b, s)->0, b[s + 83] as nat)) } else { None },
        PartKind::Influences => if t == 2 { Some((s + 16, le32(b, s + 8) as nat)) } else { None },
        PartKind::Ranges => if t == 2 { Some((skin_influences_end(b, s)->0, f.2 as nat)) } else { None },
    }
}

/// The lists of kind `k` that the chunks `fr` add, in order.
pub open spec fn parts_of(b: Seq<u8>, fr: Seq<Frame>, k: PartKind) -> Seq<(int, nat)>
    decreases fr.len(),
{
    if fr.len() == 0 {
        Seq::empty()
    } else {
        match part_of(b, fr.last(), k) {
            Some(x) => parts_of(b, fr.drop_last(), k).push(x),
            None => parts_of(b, fr.drop_last(), k),
        }
    }
}

/// `s` holds the records of the lists `parts`, one list after the other.
pub open spec fn concat_at<T: Record>(b: Seq<u8>, parts: Seq<(int, nat)>, s: Seq<T>) -> bool
    decreases parts.len(),
{
    if parts.len() == 0 {
        s.len() == 0
    } else {
        let k = s.len() - parts.last().1;
        &&& k >= 0
        &&& concat_at::<T>(b, parts.drop_last(), s.take(k))
        &&& list_at::<T>(b, parts.last().0, 0, parts.last().1, s.skip(k))
    }
}

pub proof fn lemma_concat_push<T: Record>(b: Seq<u8>, parts: Seq<(int, nat)>, s: Seq<T>, q: int, n: nat, l: Seq<T>)
    requires
        concat_at::<T>(b, parts, s),
        list_at::<T>(b, q, 0, n, l),
    ensures
        concat_at::<T>(b, parts.push((q, n)), s + l),
{
    assert(parts.push((q, n)).drop_last() =~= parts);
    assert((s + l).take(s.len() as int) =~= s);
    assert((s + l).skip(s.len() as int) =~= l);
}

/// What each kind of list, and where each record kind was last or every
/// time read, becomes when the chunk `f` is read after `fr`.
proof fn lemma_push_frame(b: Seq<u8>, fr: Seq<Frame>, f: Frame)
    ensures
        forall|t: u32| #[trigger] starts_of(fr.push(f), t) == if f.0 == t { starts_of(fr, t).push(f.1) } else { starts_of(fr, t) },
        forall|t: u32| #[trigger] last_of(fr.push(f), t) == if f.0 == t { Some(f.1) } else { last_of(fr, t) },
        forall|k: PartKind| #[trigger] parts_of(b, fr.push(f), k) == match part_of(b, f, k) {
            Some(x) => parts_of(b, fr, k).push(x),
            None => parts_of(b, fr, k),
        },
{
    assert(fr.push(f).drop_last() =~= fr);
}

/// `h` is the header of `b` (which starts with one that is read).
pub open spec fn header_at(b: Seq<u8>, h: XacHeader) -> bool {
    &&& h.magic@ == seq!['X', 'A', 'C', ' ']
    &&& h.major_version == 1
    &&& h.minor_version == 0
    &&& !h.big_endian
    &&& h.multiply_order == b[7]
}

/// No metadata read.
pub open spec fn metadata_empty(m: XacMetaData) -> bool {
    &&& m.reposition_mask == 0
    &&& m.repositioning_node == 0
    &&& m.exporter_major_version == 0
    &&& m.exporter_minor_version == 0
    &&& m.retarget_root_offset == 0
    &&& m.source_app@.len() == 0
    &&& m.original_filename@.len() == 0
    &&& m.export_date@.len() == 0
    &&& m.actor_name@.len() == 0
}

pub open spec fn zero4() -> XacVec4d {
    XacVec4d { x: 0, y: 0, z: 0, w: 0 }
}

/// No material read: the fields but the layers are zero, false or empty.
pub open spec fn material_head_empty(v: XacMaterialDefinition) -> bool {
    &&& v.ambient_color == zero4()
    &&& v.diffuse_color == zero4()
    &&& v.specular_color == zero4()
    &&& v.emissive_color == zero4()
    &&& v.shine == 0
    &&& v.shine_strength == 0
    &&& v.opacity == 0
    &&& v.ior == 0
    &&& !v.double_sided
    &&& !v.wireframe
    &&& v.num_layers == 0
    &&& v.name@.len() == 0
}

/// The skinning's fields but its lists are those of the chunk at `s`, or
/// zero and false where there is none.
pub open spec fn skin_head_at(b: Seq<u8>, s: Option<int>, k: XacSkinning) -> bool {
    match s {
        Some(p) => {
            &&& k.node_id == le32(b, p)
            &&& k.num_local_bones == le32(b, p + 4)
            &&& k.num_influences == le32(b, p + 8)
            &&& k.collision_mesh == (b[p + 12] != 0)
        },
        None => k.node_id == 0 && k.num_local_bones == 0 && k.num_influences == 0 && !k.collision_mesh,
    }
}

/// The influence runs of the last mesh among `fr`, if any.
pub open spec fn ranges_after(b: Seq<u8>, fr: Seq<Frame>) -> Option<u32> {
    match last_of(fr, 1) {
        Some(s) => Some(w32(b, s + 4)),
        None => None,
    }
}

/// `x` is what reading `b` gives once the chunks `fr` are read: every mesh
/// and effect material in order; the metadata, material counts, material
/// fields, skeleton counts and skinning fields of the last chunk of their
/// kind; and the nodes, material layers, weights and weight runs of every
/// chunk, joined in order.
pub open spec fn file_at(b: Seq<u8>, fr: Seq<Frame>, x: XacFile) -> bool {
    &&& header_at(b, x.header)
    &&& x.mesh_data@.len() == starts_of(fr, 1).len()
    &&& forall|i: int| 0 <= i < x.mesh_data@.len() ==> mesh_at(b, starts_of(fr, 1)[i], #[trigger] x.mesh_data@[i])
    &&& x.shader_material@.len() == starts_of(fr, 5).len()
    &&& forall|i: int| 0 <= i < x.shader_material@.len() ==> shader_at(b, starts_of(fr, 5)[i], #[trigger] x.shader_material@[i])
    &&& match last_of(fr, 7) {
        Some(s) => XacMetaData::at(b, s, 0, x.metadata),
        None => metadata_empty(x.metadata),
    }
    &&& x.material_totals == match last_of(fr, 13) {
        Some(s) => totals_at(b, s),
        None => XacMaterialTotals { num_total_materials: 0, num_standard_materials: 0, num_fx_materials: 0 },
    }
    &&& match last_of(fr, 11) {
        Some(s) => x.node_hierarchy.num_nodes == le32(b, s) && x.node_hierarchy.num_root_nodes == le32(b, s + 4),
        None => x.node_hierarchy.num_nodes == 0 && x.node_hierarchy.num_root_nodes == 0,
    }
    &&& concat_at::<XacNode>(b, parts_of(b, fr, PartKind::Nodes), x.node_hierarchy.node@)
    &&& match last_of(fr, 3) {
        Some(s) => material_head_at(b, s, x.material_definition),
        None => material_head_empty(x.material_definition),
    }
    &&& concat_at::<XacMaterialLayer>(b, parts_of(b, fr, PartKind::Layers), x.material_definition.layers@)
    &&& skin_head_at(b, last_of(fr, 2), x.skinning)
    &&& concat_at::<XacInfluenceData>(b, parts_of(b, fr, PartKind::Influences), x.skinning.influence_data@)
    &&& concat_at::<XacInfluenceRange>(b, parts_of(b, fr, PartKind::Ranges), x.skinning.influence_range@)
}

/// The chunk of kind `t` whose record starts at `s`, read while `ranges`
/// is what the last mesh gave.
pub open spec fn frame_of(t: u32, s: int, ranges: Option<u32>) -> Frame {
    (t, s, match ranges {
        Some(n) => n,
        None => 0,
    })
}

/// Reads the record of a chunk of kind `t` at `s` into `xac`.
#[verifier::rlimit(40)]
fn read_chunk_record(
    b: &[u8],
    t: u32,
    s: usize,
    ranges: Option<u32>,
    xac: &mut XacFile,
    Ghost(fr): Ghost<Seq<Frame>>,
) -> (r: Result<Option<u32>, XacFileFault>)
    requires
        s <= b@.len(),
        file_at(b@, fr, *old(xac)),
        ranges == ranges_after(b@, fr),
    ensures
        chunk_outcome(b@, t as int, s as int, ranges) matches Err(e) ==> r == Err::<Option<u32>, XacFileFault>(e),
        chunk_outcome(b@, t as int, s as int, ranges) matches Ok(r2) ==> {
            &&& r == Ok::<Option<u32>, XacFileFault>(r2)
            &&& file_at(b@, fr.push(frame_of(t, s as int, ranges)), *final(xac))
            &&& r2 == ranges_after(b@, fr.push(frame_of(t, s as int, ranges)))
        },
{
    let ghost f = frame_of(t, s as int, ranges);
    let ghost old_x = *xac;
    proof {
        lemma_push_frame(b@, fr, f);
    }
    if t == 1 {
        match read_mesh(b, s) {
            None => Err(XacFileFault::UnexpectedEof),
            Some((m, _)) => {
                let n = m.num_influence_ranges;
                xac.mesh_data.push(m);
                proof {
                    let st = starts_of(fr.push(f), 1);
                    assert forall|i: int| 0 <= i < xac.mesh_data@.len() implies mesh_at(b@, st[i], #[trigger] xac.mesh_data@[i]) by {
                        if i < old_x.mesh_data@.len() {
                            assert(xac.mesh_data@[i] == old_x.mesh_data@[i]);
                        }
                    }
                }
                Ok(Some(n))
            },
        }
    } else if t == 2 {
        match read_skinning_head(b, s) {
            None => Err(XacFileFault::UnexpectedEof),
            Some((mut h, q)) => match ranges {
                None => Err(XacFileFault::SkinningWithoutMesh),
                Some(n) => match read_list::<XacInfluenceRange>(b, q, 0, n) {
                    None => Err(XacFileFault::UnexpectedEof),
                    Some((mut rs, _)) => {
                        proof {
                            lemma_concat_push::<XacInfluenceData>(
                                b@,
                                parts_of(b@, fr, PartKind::Influences),
                                old_x.skinning.influence_data@,
                                s + 16,
                                le32(b@, s + 8) as nat,
                                h.influence_data@,
                            );
                            lemma_concat_push::<XacInfluenceRange>(
                                b@,
                                parts_of(b@, fr, PartKind::Ranges),
                                old_x.skinning.influence_range@,
                                q as int,
                                n as nat,
                                rs@,
                            );
                        }
                        xac.skinning.node_id = h.node_id;
                        xac.skinning.num_local_bones = h.num_local_bones;
                        xac.skinning.num_influences = h.num_influences;
                        xac.skinning.collision_mesh = h.collision_mesh;
                        xac.skinning.influence_data.append(&mut h.influence_data);
                        xac.skinning.influence_range.append(&mut rs);
                        Ok(ranges)
                    },
                },
            },
        }
    } else if t == 3 {
        match read_material_definition(b, s) {
            None => Err(XacFileFault::UnexpectedEof),
            Some((mut md, _)) => {
                proof {
                    lemma_concat_push::<XacMaterialLayer>(
                        b@,
                        parts_of(b@, fr, PartKind::Layers),
                        old_x.material_definition.layers@,
                        material_layers_start(b@, s as int)->0,
                        b@[s + 83] as nat,
                        md.layers@,
                    );
                }
                xac.material_definition.ambient_color = md.ambient_color;
                xac.material_definition.diffuse_color = md.diffuse_color;
                xac.material_definition.specular_color = md.specular_color;
                xac.material_definition.emissive_color = md.emissive_color;
                xac.material_definition.shine = md.shine;
                xac.material_definition.shine_strength = md.shine_strength;
                xac.material_definition.opacity = md.opacity;
                xac.material_definition.ior = md.ior;
                xac.material_definition.double_sided = md.double_sided;
                xac.material_definition.wireframe = md.wireframe;
                xac.material_definition.num_layers = md.num_layers;
                xac.material_definition.name = md.name;
                xac.material_definition.layers.append(&mut md.layers);
                Ok(ranges)
            },
        }
    } else if t == 5 {
        match read_shader_material(b, s) {
            None => Err(XacFileFault::UnexpectedEof),
            Some((m, _)) => {
                xac.shader_material.push(m);
                proof {
                    let st = starts_of(fr.push(f), 5);
                    assert forall|i: int| 0 <= i < xac.shader_material@.len() implies shader_at(b@, st[i], #[trigger] xac.shader_material@[i]) by {
                        if i < old_x.shader_material@.len() {
                            assert(xac.shader_material@[i] == old_x.shader_material@[i]);
                        }
                    }
                }
                Ok(ranges)
            },
        }
    } else if t == 7 {
        match XacMetaData::read(b, s, 0) {
            None => Err(XacFileFault::UnexpectedEof),
            Some((m, _)) => {
                xac.metadata = m;
                Ok(ranges)
            },
        }
    } else if t == 11 {
        match read_node_hierarchy(b, s) {
            None => Err(XacFileFault::UnexpectedEof),
            Some((mut h, _)) => {
                proof {
                    lemma_concat_push::<XacNode>(
                        b@,
                        parts_of(b@, fr, PartKind::Nodes),
                        old_x.node_hierarchy.node@,
                        s + 8,
                        le32(b@, s as int) as nat,
                        h.node@,
                    );
                }
                xac.node_hierarchy.num_nodes = h.num_nodes;
                xac.node_hierarchy.num_root_nodes = h.num_root_nodes;
                xac.node_hierarchy.node.append(&mut h.node);
                Ok(ranges)
            },
        }
    } else if t == 13 {
        match read_material_total(b, s) {
            None => Err(XacFileFault::UnexpectedEof),
            Some((tot, _)) => {
                xac.material_totals = tot;
                Ok(ranges)
            },
        }
    } else {
        Ok(ranges)
    }
}

/// Reading `b` stops on a fault.
pub open spec fn xac_file_fails(b: Seq<u8>) -> bool {
    xac_file_run(b) is Crash
}

/// The path names a model file: lowercased, it ends with ".xac".
pub fn is_xac_path(path: &str) -> (r: bool)
    ensures
        r == ends_with(lowercase(path@), seq!['.', 'x', 'a', 'c']),
{
    let ext = ".xac";
    proof {
        reveal_strlit(".xac");
        assert(ext@ =~= seq!['.', 'x', 'a', 'c']);
    }
    lower_ends_with(path, ext)
}

/// Reads a whole file: the header (four magic bytes "XAC ", version 1.0,
/// little-endian, the multiplication order), then, while the position is
/// inside the data, a chunk frame, the record of its kind, and the next
/// frame `length` bytes after the record's start. Fails where the data
/// ends inside something read, on a wrong header, and on a skinning chunk
/// before any mesh.
pub fn try_xac_parse(b: &[u8]) -> (r: Result<XacFile, XacFileFault>)
    ensures
        match xac_file_run(b@) {
            XacFileRun::Done(fr) => r matches Ok(x) && file_at(b@, fr, x),
            XacFileRun::Crash(e) => r == Err::<XacFile, XacFileFault>(e),
        },
{
    if b.len() < 4 {
        return Err(XacFileFault::UnexpectedEof);
    }
    let magic_ok = b[0] == 0x58 && b[1] == 0x41 && b[2] == 0x43 && b[3] == 0x20;
    proof {
        let m = seq![0x58u8, 0x41, 0x43, 0x20];
        if magic_ok {
            assert(b@.subrange(0, 4) =~= m);
        } else {
            assert(b@.subrange(0, 4) != m) by {
                if b@.subrange(0, 4) == m {
                    assert(b@.subrange(0, 4)[0] == m[0]);
                    assert(b@.subrange(0, 4)[1] == m[1]);
                    assert(b@.subrange(0, 4)[2] == m[2]);
                    assert(b@.subrange(0, 4)[3] == m[3]);
                }
            }
        }
    }
    if !magic_ok {
        return Err(XacFileFault::BadMagic);
    }
    if b.len() < 6 {
        return Err(XacFileFault::UnexpectedEof);
    }
    if b[4] != 1 || b[5] != 0 {
        return Err(XacFileFault::UnsupportedVersion { major: b[4], minor: b[5] });
    }
    if b.len() < 7 {
        return Err(XacFileFault::UnexpectedEof);
    }
    if b[6] != 0 {
        return Err(XacFileFault::BigEndian);
    }
    if b.len() < 8 {
        return Err(XacFileFault::UnexpectedEof);
    }
    let magic_chars: [char; 4] = ['X', 'A', 'C', ' '];
    let magic = string_from_chars(magic_chars.as_slice());
    assert(magic@ =~= seq!['X', 'A', 'C', ' ']);
    let mut xac = XacFile {
        header: XacHeader { magic, major_version: 1, minor_version: 0, big_endian: false, multiply_order: b[7] },
        metadata: XacMetaData {
            reposition_mask: 0,
            repositioning_node: 0,
            exporter_major_version: 0,
            exporter_minor_version: 0,
            retarget_root_offset: 0,
            source_app: String::new(),
            original_filename: String::new(),
            export_date: String::new(),
            actor_name: String::new(),
        },
        node_hierarchy: XacNodeHierarchy { num_nodes: 0, num_root_nodes: 0, node: Vec::new() },
        material_totals: XacMaterialTotals { num_total_materials: 0, num_standard_materials: 0, num_fx_materials: 0 },
        material_definition: XacMaterialDefinition {
            ambient_color: XacVec4d { x: 0, y: 0, z: 0, w: 0 },
            diffuse_color: XacVec4d { x: 0, y: 0, z: 0, w: 0 },
            specular_color: XacVec4d { x: 0, y: 0, z: 0, w: 0 },
            emissive_color: XacVec4d { x: 0, y: 0, z: 0, w: 0 },
            shine: 0,
            shine_strength: 0,
            opacity: 0,
            ior: 0,
            double_sided: false,
            wireframe: false,
            num_layers: 0,
            name: String::new(),
            layers: Vec::new(),
        },
        shader_material: Vec::new(),
        mesh_data: Vec::new(),
        skinning: XacSkinning {
            node_id: 0,
            num_local_bones: 0,
            num_influences: 0,
            collision_mesh: false,
            influence_data: Vec::new(),
            influence_range: Vec::new(),
        },
    };
    let mut pos: usize = 8;
    let mut ranges: Option<u32> = None;
    let ghost mut seen: Seq<Frame> = Seq::empty();
    assert(file_at(b@, seen, xac));
    loop
        invariant
            8 <= pos,
            header_fault(b@) is None,
            xac_file_run(b@) == after_frames(seen, frames_from(b@, pos as int, ranges)),
            file_at(b@, seen, xac),
            ranges == ranges_after(b@, seen),
        decreases b@.len() - pos,
    {
        if pos >= b.len() {
            assert(seen + Seq::<Frame>::empty() =~= seen);
            return Ok(xac);
        }
        if b.len() - pos < 12 {
            return Err(XacFileFault::UnexpectedEof);
        }
        let (t, q) = take_u32(b, pos).unwrap();
        let (length, s) = take_u32(b, q).unwrap();
        let (_, s) = take_u32(b, s).unwrap();
        let ghost f = frame_of(t, s as int, ranges);
        let r2 = read_chunk_record(b, t, s, ranges, &mut xac, Ghost(seen))?;
        proof {
            let next = s + length;
            if next < b@.len() {
                match frames_from(b@, next, r2) {
                    XacFileRun::Done(fs) => {
                        assert(seen + (seq![f] + fs) =~= seen.push(f) + fs);
                    },
                    _ => {},
                }
            } else {
                assert(seen + seq![f] =~= seen.push(f));
            }
            seen = seen.push(f);
        }
        ranges = r2;
        if b.len() - s <= length as usize {
            assert(seen + Seq::<Frame>::empty() =~= seen);
            return Ok(xac);
        }
        pos = s + length as usize;
    }
}

/// Reads a whole file as `try_xac_parse` does; not to be called on data
/// whose reading fails.
pub fn xac_parse(b: &[u8]) -> (r: XacFile)
    requires
        !xac_file_fails(b@),
    ensures
        xac_file_run(b@) matches XacFileRun::Done(fr) && file_at(b@, fr, r),
{
    let r = try_xac_parse(b);
    r.unwrap()
}

} // verus!
