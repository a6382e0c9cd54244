//! Registry of material textures: handles are issued in order from 1, and 0 means "no texture".

use vstd::prelude::*;
use vstd::string::StringExecFns;

use crate::error::VulkanError;

verus! {

/// Handle for a GPU texture resource.
#[derive(Debug, Clone, Copy, PartialEq, Eq, Hash, Structural)]
pub struct TextureHandle(pub u32);

/// Types of textures supported by the material system.
#[derive(Debug, Clone, Copy, PartialEq, Eq, Structural)]
pub enum TextureType {
    /// Base color/albedo texture
    BaseColor,
    /// Normal map texture
    Normal,
    /// Metallic-roughness texture (metallic in B channel, roughness in G channel)
    MetallicRoughness,
    /// Ambient occlusion texture
    AmbientOcclusion,
    /// Emission texture
    Emission,
}

/// Texture filtering modes.
#[derive(Debug, Clone, Copy, PartialEq, Eq, Structural)]
pub enum FilterMode {
    /// Nearest neighbor filtering
    Nearest,
    /// Linear filtering
    Linear,
}

/// Texture wrapping modes.
#[derive(Debug, Clone, Copy, PartialEq, Eq, Structural)]
pub enum WrapMode {
    /// Repeat the texture
    Repeat,
    /// Mirror the texture
    MirroredRepeat,
    /// Clamp to edge
    ClampToEdge,
}

/// Texture creation parameters.
#[derive(Debug, Clone, Copy, PartialEq, Eq, Structural)]
pub struct TextureParams {
    /// Texture filtering mode
    pub filter_mode: FilterMode,
    /// Texture wrapping mode
    pub wrap_mode: WrapMode,
    /// Generate mipmaps
    pub generate_mipmaps: bool,
}

/// The parameters used when none are given: linear filtering, repeat wrapping, mipmaps.
pub open spec fn default_texture_params() -> TextureParams {
    TextureParams { filter_mode: FilterMode::Linear, wrap_mode: WrapMode::Repeat, generate_mipmaps: true }
}

impl Default for TextureParams {
    fn default() -> (p: Self)
        ensures
            p == default_texture_params(),
    {
        TextureParams { filter_mode: FilterMode::Linear, wrap_mode: WrapMode::Repeat, generate_mipmaps: true }
    }
}

/// Information about a registered texture.
#[derive(Debug, Clone)]
pub struct TextureInfo {
    /// Texture handle
    pub handle: TextureHandle,
    /// Texture type/usage
    pub texture_type: TextureType,
    /// Creation parameters
    pub params: TextureParams,
    /// Optional name for debugging
    pub name: Option<String>,
}

/// The debug name given to a solid color texture of the given type.
pub open spec fn solid_color_name(t: TextureType) -> Seq<char> {
    match t {
        TextureType::BaseColor => "SolidColor_BaseColor"@,
        TextureType::Normal => "SolidColor_Normal"@,
        TextureType::MetallicRoughness => "SolidColor_MetallicRoughness"@,
        TextureType::AmbientOcclusion => "SolidColor_AmbientOcclusion"@,
        TextureType::Emission => "SolidColor_Emission"@,
    }
}

/// Registry of textures. The texture registered `k`-th (from 0) has handle `k + 1`;
/// handle 0 is never issued and stands for "no texture".
pub struct TextureManager {
    textures: Vec<TextureInfo>,
    next_handle: u32,
}

impl TextureManager {
    /// The registered textures, in the order in which they were registered.
    pub closed spec fn entries(&self) -> Seq<TextureInfo> {
        self.textures@
    }

    /// The handle the next registration will receive.
    pub closed spec fn spec_next_handle(&self) -> u32 {
        self.next_handle
    }

    /// Handles are issued consecutively from 1 and the next one follows the last.
    pub closed spec fn wf(&self) -> bool {
        &&& self.next_handle as int == self.textures@.len() + 1
        &&& forall|i: int| 0 <= i < self.textures@.len() ==> #[trigger] self.textures@[i].handle.0 == i + 1
    }

    /// Whether `handle` was issued by this manager.
    pub open spec fn issued(&self, handle: TextureHandle) -> bool {
        1 <= handle.0 < self.spec_next_handle()
    }

    /// The entries of a well-formed manager carry handles `1, 2, ...` in order.
    pub proof fn lemma_wf(&self)
        requires
            self.wf(),
        ensures
            self.spec_next_handle() as int == self.entries().len() + 1,
            forall|i: int| 0 <= i < self.entries().len() ==> #[trigger] self.entries()[i].handle.0 == i + 1,
    {
    }

    /// Create an empty texture manager; the first handle issued will be 1.
    pub fn new() -> (m: Self)
        ensures
            m.wf(),
            m.entries().len() == 0,
            m.spec_next_handle() == 1,
    {
        TextureManager { textures: Vec::new(), next_handle: 1 }
    }

    /// Register `info` under the next handle and advance it.
    fn register(&mut self, texture_type: TextureType, params: TextureParams, name: Option<String>) -> (h: TextureHandle)
        requires
            old(self).wf(),
            old(self).spec_next_handle() < u32::MAX,
        ensures
            final(self).wf(),
            h.0 == old(self).spec_next_handle(),
            final(self).spec_next_handle() == old(self).spec_next_handle() + 1,
            final(self).entries() == old(self).entries().push(
                TextureInfo { handle: h, texture_type, params, name },
            ),
    {
        let handle = TextureHandle(self.next_handle);
        self.next_handle = self.next_handle + 1;
        self.textures.push(TextureInfo { handle, texture_type, params, name });
        handle
    }

    /// Register a texture to be loaded from a file. No image is read: the texture is
    /// recorded with its type and parameters and receives the next handle.
    pub fn load_texture_from_file(
        &mut self,
        file_path: &str,
        texture_type: TextureType,
        params: TextureParams,
    ) -> (r: Result<TextureHandle, VulkanError>)
        requires
            old(self).wf(),
            old(self).spec_next_handle() < u32::MAX,
        ensures
            final(self).wf(),
            r matches Ok(h) && h.0 == old(self).spec_next_handle(),
            final(self).spec_next_handle() == old(self).spec_next_handle() + 1,
            final(self).entries() == old(self).entries().push(
                TextureInfo {
                    handle: TextureHandle(old(self).spec_next_handle()),
                    texture_type,
                    params,
                    name: None,
                },
            ),
    {
        let handle = self.register(texture_type, params, None);
        Ok(handle)
    }

    /// Register a solid color texture of the given type, with default parameters and the
    /// debug name `SolidColor_<type>`.
    pub fn create_solid_color_texture(&mut self, color: [u8; 4], texture_type: TextureType) -> (r: Result<
        TextureHandle,
        VulkanError,
    >)
        requires
            old(self).wf(),
            old(self).spec_next_handle() < u32::MAX,
        ensures
            final(self).wf(),
            r matches Ok(h) && h.0 == old(self).spec_next_handle(),
            final(self).spec_next_handle() == old(self).spec_next_handle() + 1,
            final(self).entries().len() == old(self).entries().len() + 1,
            final(self).entries().drop_last() == old(self).entries(),
            final(self).entries().last().handle == TextureHandle(old(self).spec_next_handle()),
            final(self).entries().last().texture_type == texture_type,
            final(self).entries().last().params == default_texture_params(),
            final(self).entries().last().name matches Some(n) && n@ == solid_color_name(texture_type),
    {
        let name = match texture_type {
            TextureType::BaseColor => String::from_str("SolidColor_BaseColor"),
            TextureType::Normal => String::from_str("SolidColor_Normal"),
            TextureType::MetallicRoughness => String::from_str("SolidColor_MetallicRoughness"),
            TextureType::AmbientOcclusion => String::from_str("SolidColor_AmbientOcclusion"),
            TextureType::Emission => String::from_str("SolidColor_Emission"),
        };
        let handle = self.register(texture_type, TextureParams::default(), Some(name));
        proof {
            assert(self.entries().drop_last() =~= old(self).entries());
        }
        Ok(handle)
    }

    /// The information recorded for `handle`, if it was issued by this manager.
    pub fn get_texture_info(&self, handle: TextureHandle) -> (r: Option<&TextureInfo>)
        requires
            self.wf(),
        ensures
            r matches Some(info) ==> self.issued(handle) && *info == self.entries()[handle.0 - 1],
            r is None ==> !self.issued(handle),
    {
        if handle.0 >= 1 && handle.0 < self.next_handle {
            Some(&self.textures[(handle.0 - 1) as usize])
        } else {
            None
        }
    }

    /// Number of registered textures.
    pub fn texture_count(&self) -> (n: usize)
        requires
            self.wf(),
        ensures
            n == self.entries().len(),
    {
        self.textures.len()
    }

    /// The handles of all registered textures, in the order in which they were issued.
    pub fn get_all_texture_handles(&self) -> (v: Vec<TextureHandle>)
        requires
            self.wf(),
        ensures
            v@.len() == self.entries().len(),
            forall|i: int| 0 <= i < v@.len() ==> #[trigger] v@[i].0 == i + 1,
    {
        let mut v: Vec<TextureHandle> = Vec::new();
        let mut i: usize = 0;
        while i < self.textures.len()
            invariant
                self.wf(),
                i <= self.textures@.len(),
                v@.len() == i,
                forall|j: int| 0 <= j < i ==> #[trigger] v@[j].0 == j + 1,
            decreases self.textures@.len() - i,
        {
            v.push(self.textures[i].handle);
            i = i + 1;
        }
        v
    }

    /// The handle the next registration will receive.
    pub fn next_handle(&self) -> (h: u32)
        ensures
            h == self.spec_next_handle(),
    {
        self.next_handle
    }
}

impl Default for TextureManager {
    fn default() -> (m: Self)
        ensures
            m.wf(),
            m.entries().len() == 0,
            m.spec_next_handle() == 1,
    {
        TextureManager::new()
    }
}

/// Handles identify textures: no registered texture has handle 0 (which stands for
/// "no texture"), no two registered textures share a handle, and every handle issued
/// is below the next one.
pub proof fn law_texture_handles_unique_and_nonzero(m: TextureManager, i: int, j: int)
    requires
        m.wf(),
        0 <= i < m.entries().len(),
        0 <= j < m.entries().len(),
    ensures
        m.entries()[i].handle.0 != 0,
        m.issued(m.entries()[i].handle),
        i != j ==> m.entries()[i].handle != m.entries()[j].handle,
{
    m.lemma_wf();
}

/// Which textures are bound to which material slots.
#[derive(Debug, Clone, Copy, PartialEq, Eq, Structural)]
pub struct MaterialTextures {
    /// Base color texture
    pub base_color: Option<TextureHandle>,
    /// Normal map texture
    pub normal: Option<TextureHandle>,
    /// Metallic-roughness texture
    pub metallic_roughness: Option<TextureHandle>,
    /// Ambient occlusion texture
    pub ambient_occlusion: Option<TextureHandle>,
    /// Emission texture
    pub emission: Option<TextureHandle>,
}

/// The binding with no texture in any slot.
pub open spec fn no_material_textures() -> MaterialTextures {
    MaterialTextures {
        base_color: None,
        normal: None,
        metallic_roughness: None,
        ambient_occlusion: None,
        emission: None,
    }
}

/// 1 where the slot holds a texture, else 0.
pub open spec fn slot_flag(slot: Option<TextureHandle>) -> u32 {
    if slot is Some { 1 } else { 0 }
}

impl Default for MaterialTextures {
    fn default() -> (t: Self)
        ensures
            t == no_material_textures(),
    {
        MaterialTextures {
            base_color: None,
            normal: None,
            metallic_roughness: None,
            ambient_occlusion: None,
            emission: None,
        }
    }
}

impl MaterialTextures {
    /// Create new empty material textures.
    pub fn new() -> (t: Self)
        ensures
            t == no_material_textures(),
    {
        Self::default()
    }

    /// Set base color texture.
    pub fn with_base_color(self, texture: TextureHandle) -> (t: Self)
        ensures
            t == (MaterialTextures { base_color: Some(texture), ..self }),
    {
        let mut s = self;
        s.base_color = Some(texture);
        s
    }

    /// Set normal map texture.
    pub fn with_normal(self, texture: TextureHandle) -> (t: Self)
        ensures
            t == (MaterialTextures { normal: Some(texture), ..self }),
    {
        let mut s = self;
        s.normal = Some(texture);
        s
    }

    /// Set metallic-roughness texture.
    pub fn with_metallic_roughness(self, texture: TextureHandle) -> (t: Self)
        ensures
            t == (MaterialTextures { metallic_roughness: Some(texture), ..self }),
    {
        let mut s = self;
        s.metallic_roughness = Some(texture);
        s
    }

    /// Whether any slot holds a texture.
    pub fn has_any_textures(&self) -> (b: bool)
        ensures
            b <==> (self.base_color is Some || self.normal is Some || self.metallic_roughness is Some
                || self.ambient_occlusion is Some || self.emission is Some),
    {
        self.base_color.is_some() || self.normal.is_some() || self.metallic_roughness.is_some()
            || self.ambient_occlusion.is_some() || self.emission.is_some()
    }

    /// Texture usage flags for the material uniform buffer: one per slot for base color,
    /// normal, metallic-roughness and ambient occlusion (emission has none).
    pub fn get_texture_flags(&self) -> (f: [u32; 4])
        ensures
            f@ == seq![
                slot_flag(self.base_color),
                slot_flag(self.normal),
                slot_flag(self.metallic_roughness),
                slot_flag(self.ambient_occlusion),
            ],
    {
        let f = [
            if self.base_color.is_some() { 1u32 } else { 0u32 },
            if self.normal.is_some() { 1u32 } else { 0u32 },
            if self.metallic_roughness.is_some() { 1u32 } else { 0u32 },
            if self.ambient_occlusion.is_some() { 1u32 } else { 0u32 },
        ];
        assert(f@ =~= seq![
            slot_flag(self.base_color),
            slot_flag(self.normal),
            slot_flag(self.metallic_roughness),
            slot_flag(self.ambient_occlusion),
        ]);
        f
    }
}

} // verus!
