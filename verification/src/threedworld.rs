//! The contents of a `.3dworld` description: the directories its models,
//! textures and animations come from, its light maps, where one stands, and
//! its models. Every value is kept as the text the description gives.

use vstd::prelude::*;

verus! {

/// A directory of models: the archive it lies in and its path.
pub struct ModelDir {
    pub ipf_name: String,
    pub path: String,
}

/// A directory of textures.
pub struct TexDir {
    pub ipf_name: String,
    pub path: String,
}

/// A directory of secondary textures.
pub struct SubTexDir {
    pub ipf_name: String,
    pub path: String,
}

/// A directory of animations.
pub struct AnimationDir {
    pub ipf_name: String,
    pub path: String,
}

/// A directory of shadow textures.
pub struct ShaTexDir {
    pub ipf_name: String,
    pub path: String,
}

/// A light map: its file, and where given, its length, offset and size.
pub struct LightMap {
    pub file: String,
    pub length: Option<String>,
    pub offset: Option<String>,
    pub size: Option<String>,
}

/// A position, as written.
pub struct Pos {
    pub pos: String,
}

/// A placed model: its file, its model, and where given its shadow map,
/// position, rotation and scale.
pub struct Model {
    pub file: String,
    pub model: String,
    pub shadow_map: Option<String>,
    pub pos: Option<String>,
    pub rot: Option<String>,
    pub scale: Option<String>,
}

/// A whole description; a kind of entry that it lacks is an empty list.
pub struct World {
    pub model_dirs: Vec<ModelDir>,
    pub tex_dirs: Vec<TexDir>,
    pub sub_tex_dirs: Vec<SubTexDir>,
    pub animation_dirs: Vec<AnimationDir>,
    pub sha_tex_dirs: Vec<ShaTexDir>,
    pub light_maps: Vec<LightMap>,
    pub stand_on_pos: Option<Pos>,
    pub models: Vec<Model>,
}

} // verus!
