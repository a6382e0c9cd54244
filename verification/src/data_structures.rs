//! Small value types describing dynamic objects: material instance identifiers,
//! override flags, resource handle sets and render flags.

use vstd::prelude::*;

use crate::handles::{BufferHandle, DescriptorSetHandle, MaterialInstanceHandle, INVALID_INDEX};

verus! {

/// Identifier of a material instance: an index into the material array plus the
/// generation of that entry.
#[derive(Debug, Clone, Copy, PartialEq, Eq, Hash, Structural)]
pub struct MaterialId {
    /// Index into the material manager's material array
    pub index: u32,
    /// Generation counter for validation
    pub generation: u32,
}

impl MaterialId {
    /// Create a material identifier.
    pub fn new(index: u32, generation: u32) -> (id: Self)
        ensures
            id.index == index,
            id.generation == generation,
    {
        MaterialId { index, generation }
    }

    /// The identifier that refers to no material.
    pub fn invalid() -> (id: Self)
        ensures
            id.index == INVALID_INDEX,
            id.generation == 0,
    {
        MaterialId { index: INVALID_INDEX, generation: 0 }
    }

    /// An identifier is valid when its index is not the reserved value.
    pub fn is_valid(&self) -> (b: bool)
        ensures
            b == (self.index != INVALID_INDEX),
    {
        self.index != INVALID_INDEX
    }
}

/// Which material properties an instance overrides.
#[derive(Debug, Clone, Copy, PartialEq, Eq, Structural)]
pub struct MaterialOverrideFlags {
    /// Override base color
    pub base_color: bool,
    /// Override metallic factor
    pub metallic: bool,
    /// Override roughness factor
    pub roughness: bool,
    /// Override emission color
    pub emission: bool,
    /// Override alpha/transparency
    pub alpha: bool,
}

impl MaterialOverrideFlags {
    /// No property overridden.
    pub fn none() -> (f: Self)
        ensures
            f == (MaterialOverrideFlags { base_color: false, metallic: false, roughness: false, emission: false, alpha: false }),
    {
        MaterialOverrideFlags { base_color: false, metallic: false, roughness: false, emission: false, alpha: false }
    }

    /// Every property overridden.
    pub fn all() -> (f: Self)
        ensures
            f == (MaterialOverrideFlags { base_color: true, metallic: true, roughness: true, emission: true, alpha: true }),
    {
        MaterialOverrideFlags { base_color: true, metallic: true, roughness: true, emission: true, alpha: true }
    }

    /// Whether at least one property is overridden.
    pub fn has_overrides(&self) -> (b: bool)
        ensures
            b == (self.base_color || self.metallic || self.roughness || self.emission || self.alpha),
    {
        self.base_color || self.metallic || self.roughness || self.emission || self.alpha
    }
}

impl Default for MaterialOverrideFlags {
    /// No property overridden.
    fn default() -> (f: Self)
        ensures
            f == (MaterialOverrideFlags { base_color: false, metallic: false, roughness: false, emission: false, alpha: false }),
    {
        Self::none()
    }
}

/// Handles of the GPU resources assigned to a dynamic object.
#[derive(Debug, Clone, Copy, PartialEq, Eq, Structural)]
pub struct ResourceHandleSet {
    /// Handle to a uniform buffer in the pool
    pub buffer_handle: Option<BufferHandle>,
    /// Handle to a descriptor set in the pool
    pub descriptor_set_handle: Option<DescriptorSetHandle>,
    /// Handle to a material instance in the pool
    pub material_handle: Option<MaterialInstanceHandle>,
}

impl ResourceHandleSet {
    /// A set with no handle assigned.
    pub fn new() -> (s: Self)
        ensures
            s.buffer_handle is None,
            s.descriptor_set_handle is None,
            s.material_handle is None,
    {
        ResourceHandleSet { buffer_handle: None, descriptor_set_handle: None, material_handle: None }
    }

    /// Whether all three handles are assigned.
    pub fn is_complete(&self) -> (b: bool)
        ensures
            b == (self.buffer_handle is Some && self.descriptor_set_handle is Some && self.material_handle is Some),
    {
        self.buffer_handle.is_some() && self.descriptor_set_handle.is_some() && self.material_handle.is_some()
    }

    /// Drop all three handles.
    pub fn clear(&mut self)
        ensures
            final(self).buffer_handle is None,
            final(self).descriptor_set_handle is None,
            final(self).material_handle is None,
    {
        self.buffer_handle = None;
        self.descriptor_set_handle = None;
        self.material_handle = None;
    }
}

/// Render flags of a dynamic object.
#[derive(Debug, Clone, Copy, PartialEq, Eq, Structural)]
pub struct ObjectRenderFlags {
    /// Whether the object is rendered
    pub visible: bool,
    /// Whether the object casts shadows
    pub cast_shadows: bool,
    /// Whether the object receives shadows
    pub receive_shadows: bool,
    /// Whether level of detail is used for the object
    pub use_lod: bool,
}

impl Default for ObjectRenderFlags {
    /// Everything enabled.
    fn default() -> (f: Self)
        ensures
            f == (ObjectRenderFlags { visible: true, cast_shadows: true, receive_shadows: true, use_lod: true }),
    {
        ObjectRenderFlags { visible: true, cast_shadows: true, receive_shadows: true, use_lod: true }
    }
}

impl ObjectRenderFlags {
    /// The flags as the shader reads them: `[visible, cast_shadows, receive_shadows,
    /// use_lod]`, each 1 or 0.
    pub fn render_flag_words(&self) -> (w: [u32; 4])
        ensures
            w@ == seq![
                if self.visible { 1u32 } else { 0u32 },
                if self.cast_shadows { 1u32 } else { 0u32 },
                if self.receive_shadows { 1u32 } else { 0u32 },
                if self.use_lod { 1u32 } else { 0u32 },
            ],
    {
        let w = [
            if self.visible { 1u32 } else { 0u32 },
            if self.cast_shadows { 1u32 } else { 0u32 },
            if self.receive_shadows { 1u32 } else { 0u32 },
            if self.use_lod { 1u32 } else { 0u32 },
        ];
        assert(w@ =~= seq![w[0], w[1], w[2], w[3]]);
        w
    }
}

} // verus!
