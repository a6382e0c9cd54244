//! Which image each texture binding of a material descriptor set receives.
//!
//! A material descriptor set has a uniform buffer at binding 0 and six texture
//! bindings: base color, normal, metallic-roughness, ambient occlusion, emission and
//! opacity.  A slot without a texture gets a default image: the flat normal map for
//! the normal binding, white for the others.

use vstd::prelude::*;
use vstd::string::StringExecFns;

use crate::texture_manager::TextureHandle;

verus! {

/// The image bound to a texture binding.
#[derive(Debug, Clone, Copy, PartialEq, Eq, Structural)]
pub enum TextureSource {
    /// The loaded texture with this index in the renderer's texture list
    Loaded(u32),
    /// The default white texture
    DefaultWhite,
    /// The default flat normal map
    DefaultNormal,
    /// The default metallic-roughness texture
    DefaultMetallicRoughness,
}

/// The textures chosen for the six texture bindings of a material.
#[derive(Debug, Clone, Copy, PartialEq, Eq, Structural)]
pub struct MaterialTextureSet {
    /// Base color texture (binding 1)
    pub base_color: Option<TextureHandle>,
    /// Normal map (binding 2)
    pub normal: Option<TextureHandle>,
    /// Metallic/roughness texture (binding 3)
    pub metallic_roughness: Option<TextureHandle>,
    /// Ambient occlusion texture (binding 4)
    pub ao: Option<TextureHandle>,
    /// Emission texture (binding 5)
    pub emission: Option<TextureHandle>,
    /// Opacity texture (binding 6)
    pub opacity: Option<TextureHandle>,
}

/// The image a slot gets: its texture, or the default for the slot.
pub open spec fn source_of(slot: Option<TextureHandle>, normal_default: bool) -> TextureSource {
    match slot {
        Some(h) => TextureSource::Loaded(h.0),
        None => if normal_default {
            TextureSource::DefaultNormal
        } else {
            TextureSource::DefaultWhite
        },
    }
}

/// The images of bindings 1 to 6, in binding order.
pub open spec fn binding_sources(t: MaterialTextureSet) -> Seq<TextureSource> {
    seq![
        source_of(t.base_color, false),
        source_of(t.normal, true),
        source_of(t.metallic_roughness, false),
        source_of(t.ao, false),
        source_of(t.emission, false),
        source_of(t.opacity, false),
    ]
}

/// Whether a source names a texture that is not among the `loaded` textures.
pub open spec fn missing(s: TextureSource, loaded: usize) -> bool {
    s matches TextureSource::Loaded(i) && i >= loaded
}

/// The image a slot gets.
fn source_for(slot: Option<TextureHandle>, normal_default: bool) -> (s: TextureSource)
    ensures
        s == source_of(slot, normal_default),
{
    match slot {
        Some(h) => TextureSource::Loaded(h.0),
        None => if normal_default {
            TextureSource::DefaultNormal
        } else {
            TextureSource::DefaultWhite
        },
    }
}

/// The image a texture loaded at start-up gives its binding: the texture when it was
/// loaded and is among the `loaded` textures, else the binding's default.
pub open spec fn startup_source(loaded_index: Option<usize>, loaded: usize, default: TextureSource) -> TextureSource {
    match loaded_index {
        Some(i) => if i < loaded && i <= u32::MAX {
            TextureSource::Loaded(i as u32)
        } else {
            default
        },
        None => default,
    }
}

/// The images of bindings 1 to 6 of the default material set, in binding order.
pub open spec fn startup_sources(
    base_color: Option<usize>,
    normal: Option<usize>,
    emission: Option<usize>,
    loaded: usize,
) -> Seq<TextureSource> {
    seq![
        startup_source(base_color, loaded, TextureSource::DefaultWhite),
        startup_source(normal, loaded, TextureSource::DefaultNormal),
        TextureSource::DefaultMetallicRoughness,
        TextureSource::DefaultWhite,
        startup_source(emission, loaded, TextureSource::DefaultWhite),
        TextureSource::DefaultWhite,
    ]
}

fn startup_source_for(loaded_index: Option<usize>, loaded: usize, default: TextureSource) -> (s: TextureSource)
    ensures
        s == startup_source(loaded_index, loaded, default),
{
    match loaded_index {
        Some(i) => if i < loaded && i <= 0xffff_ffffusize {
            TextureSource::Loaded(i as u32)
        } else {
            default
        },
        None => default,
    }
}

/// The images of bindings 1 to 6 of the default material descriptor set, given the
/// indices at which the base color, normal and emission textures found at start-up
/// were stored (`None` where loading failed) and how many textures are loaded.  An
/// index that names no loaded texture falls back to the binding's default; the
/// metallic-roughness binding always gets its default texture, the occlusion and
/// opacity bindings white.
pub fn default_material_sources(
    base_color: Option<usize>,
    normal: Option<usize>,
    emission: Option<usize>,
    loaded_textures: usize,
) -> (v: Vec<TextureSource>)
    ensures
        v@ == startup_sources(base_color, normal, emission, loaded_textures),
{
    let mut v: Vec<TextureSource> = Vec::new();
    v.push(startup_source_for(base_color, loaded_textures, TextureSource::DefaultWhite));
    v.push(startup_source_for(normal, loaded_textures, TextureSource::DefaultNormal));
    v.push(TextureSource::DefaultMetallicRoughness);
    v.push(TextureSource::DefaultWhite);
    v.push(startup_source_for(emission, loaded_textures, TextureSource::DefaultWhite));
    v.push(TextureSource::DefaultWhite);
    assert(v@ =~= startup_sources(base_color, normal, emission, loaded_textures));
    v
}

/// What `material_texture_sources` returns: the images of bindings 1 to 6, unless a
/// slot names a texture that is not loaded.
pub open spec fn texture_sources_result(textures: MaterialTextureSet, loaded: usize, r: Result<Vec<TextureSource>, String>) -> bool {
    &&& (exists|i: int| 0 <= i < 6 && #[trigger] missing(binding_sources(textures)[i], loaded))
        ==> (r matches Err(m) && m@ == "Texture not found in resource manager"@)
    &&& !(exists|i: int| 0 <= i < 6 && #[trigger] missing(binding_sources(textures)[i], loaded))
        ==> (r matches Ok(v) && v@ == binding_sources(textures))
}

/// Texture bookkeeping for material descriptor sets.
pub struct TextureManager;

impl TextureManager {
    /// The handle of the texture stored at `texture_index` in the renderer's list.
    pub fn handle_for_index(texture_index: u32) -> (h: TextureHandle)
        ensures
            h == TextureHandle(texture_index),
    {
        TextureHandle(texture_index)
    }

    /// The images of bindings 1 to 6 of a material descriptor set, given how many
    /// textures are loaded.  A slot naming a texture that is not loaded makes the
    /// descriptor set impossible: `Texture not found in resource manager`.
    pub fn material_texture_sources(textures: &MaterialTextureSet, loaded_textures: usize) -> (r: Result<
        Vec<TextureSource>,
        String,
    >)
        ensures
            texture_sources_result(*textures, loaded_textures, r),
    {
        let mut v: Vec<TextureSource> = Vec::new();
        v.push(source_for(textures.base_color, false));
        v.push(source_for(textures.normal, true));
        v.push(source_for(textures.metallic_roughness, false));
        v.push(source_for(textures.ao, false));
        v.push(source_for(textures.emission, false));
        v.push(source_for(textures.opacity, false));
        assert(v@ =~= binding_sources(*textures));
        let mut i: usize = 0;
        while i < v.len()
            invariant
                v@ == binding_sources(*textures),
                i <= 6,
                forall|j: int| 0 <= j < i ==> !missing(#[trigger] binding_sources(*textures)[j], loaded_textures),
            decreases 6 - i,
        {
            match v[i] {
                TextureSource::Loaded(index) => {
                    if index as usize >= loaded_textures {
                        assert(missing(binding_sources(*textures)[i as int], loaded_textures));
                        return Err(String::from_str("Texture not found in resource manager"));
                    }
                },
                _ => {},
            }
            i = i + 1;
        }
        Ok(v)
    }

    /// A material with only a base color texture.
    pub fn simple_material(base_color: TextureHandle) -> (t: MaterialTextureSet)
        ensures
            t == (MaterialTextureSet {
                base_color: Some(base_color),
                normal: None,
                metallic_roughness: None,
                ao: None,
                emission: None,
                opacity: None,
            }),
    {
        MaterialTextureSet {
            base_color: Some(base_color),
            normal: None,
            metallic_roughness: None,
            ao: None,
            emission: None,
            opacity: None,
        }
    }

    /// A material with a base color and an emission texture.
    pub fn emissive_material(base_color: TextureHandle, emission: TextureHandle) -> (t: MaterialTextureSet)
        ensures
            t == (MaterialTextureSet {
                base_color: Some(base_color),
                normal: None,
                metallic_roughness: None,
                ao: None,
                emission: Some(emission),
                opacity: None,
            }),
    {
        MaterialTextureSet {
            base_color: Some(base_color),
            normal: None,
            metallic_roughness: None,
            ao: None,
            emission: Some(emission),
            opacity: None,
        }
    }

    /// A PBR material with base color and normal textures and an optional emission one.
    pub fn pbr_material(base_color: TextureHandle, normal: TextureHandle, emission: Option<TextureHandle>) -> (t:
        MaterialTextureSet)
        ensures
            t == (MaterialTextureSet {
                base_color: Some(base_color),
                normal: Some(normal),
                metallic_roughness: None,
                ao: None,
                emission,
                opacity: None,
            }),
    {
        MaterialTextureSet {
            base_color: Some(base_color),
            normal: Some(normal),
            metallic_roughness: None,
            ao: None,
            emission,
            opacity: None,
        }
    }
}


/// Whether the image of a binding is the one its slot asks for: the slot's texture, or
/// `default` for an empty slot.
pub open spec fn binding_gets(image: TextureSource, slot: Option<TextureHandle>, default: TextureSource) -> bool {
    match slot {
        Some(h) => image == TextureSource::Loaded(h.0),
        None => image == default,
    }
}

/// Whether a slot names a texture at or beyond index `loaded`.
pub open spec fn slot_missing(slot: Option<TextureHandle>, loaded: usize) -> bool {
    slot matches Some(h) && h.0 >= loaded
}

/// Binding `k + 1` of a material descriptor set receives the image of the `k`-th slot
/// in binding order (base color, normal, metallic-roughness, ambient occlusion,
/// emission, opacity): its texture when it has one, else white, or the flat normal
/// map for the normal slot.  The call fails exactly when some slot names a texture
/// that is not loaded.
pub proof fn law_each_binding_gets_its_slot(t: MaterialTextureSet, loaded: usize, r: Result<Vec<TextureSource>, String>)
    requires
        texture_sources_result(t, loaded, r),
    ensures
        r is Err <==> (slot_missing(t.base_color, loaded) || slot_missing(t.normal, loaded) || slot_missing(
            t.metallic_roughness,
            loaded,
        ) || slot_missing(t.ao, loaded) || slot_missing(t.emission, loaded) || slot_missing(t.opacity, loaded)),
        r matches Ok(v) ==> {
            &&& v@.len() == 6
            &&& binding_gets(v@[0], t.base_color, TextureSource::DefaultWhite)
            &&& binding_gets(v@[1], t.normal, TextureSource::DefaultNormal)
            &&& binding_gets(v@[2], t.metallic_roughness, TextureSource::DefaultWhite)
            &&& binding_gets(v@[3], t.ao, TextureSource::DefaultWhite)
            &&& binding_gets(v@[4], t.emission, TextureSource::DefaultWhite)
            &&& binding_gets(v@[5], t.opacity, TextureSource::DefaultWhite)
        },
{
    let b = binding_sources(t);
    assert(missing(b[0], loaded) == slot_missing(t.base_color, loaded));
    assert(missing(b[1], loaded) == slot_missing(t.normal, loaded));
    assert(missing(b[2], loaded) == slot_missing(t.metallic_roughness, loaded));
    assert(missing(b[3], loaded) == slot_missing(t.ao, loaded));
    assert(missing(b[4], loaded) == slot_missing(t.emission, loaded));
    assert(missing(b[5], loaded) == slot_missing(t.opacity, loaded));
}

} // verus!
