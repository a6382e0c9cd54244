//! Descriptor set layouts and descriptor pool sizes.
//!
//! A layout is described binding by binding; the renderer turns the description into
//! a Vulkan layout.  Shader stage flags are the raw bits of `ash::vk::ShaderStageFlags`.

use vstd::prelude::*;

verus! {

/// Kind of resource a descriptor binding refers to.
#[derive(Debug, Clone, Copy, PartialEq, Eq, Structural)]
pub enum DescriptorKind {
    /// A uniform buffer
    UniformBuffer,
    /// A combined image sampler (texture)
    CombinedImageSampler,
    /// A storage buffer
    StorageBuffer,
}

/// One binding of a descriptor set layout.
#[derive(Debug, Clone, Copy, PartialEq, Eq, Structural)]
pub struct LayoutBinding {
    /// Binding number in the shader
    pub binding: u32,
    /// Kind of resource
    pub kind: DescriptorKind,
    /// Number of descriptors in the binding
    pub descriptor_count: u32,
    /// Shader stages that access the binding (raw `vk::ShaderStageFlags` bits)
    pub stage_flags: u32,
}

/// Builder of descriptor set layouts: bindings are kept in the order they are added.
pub struct DescriptorSetLayoutBuilder {
    bindings: Vec<LayoutBinding>,
}

impl DescriptorSetLayoutBuilder {
    /// The bindings added so far.
    pub closed spec fn binding_seq(&self) -> Seq<LayoutBinding> {
        self.bindings@
    }

    /// A builder without bindings.
    pub fn new() -> (b: Self)
        ensures
            b.binding_seq() == Seq::<LayoutBinding>::empty(),
    {
        DescriptorSetLayoutBuilder { bindings: Vec::new() }
    }

    /// Add a single descriptor of the given kind at `binding`.
    fn add(self, binding: u32, kind: DescriptorKind, stage_flags: u32) -> (b: Self)
        ensures
            b.binding_seq() == self.binding_seq().push(
                LayoutBinding { binding, kind, descriptor_count: 1, stage_flags },
            ),
    {
        let mut s = self;
        s.bindings.push(LayoutBinding { binding, kind, descriptor_count: 1, stage_flags });
        s
    }

    /// Add a uniform buffer binding.
    pub fn add_uniform_buffer(self, binding: u32, stage_flags: u32) -> (b: Self)
        ensures
            b.binding_seq() == self.binding_seq().push(
                LayoutBinding { binding, kind: DescriptorKind::UniformBuffer, descriptor_count: 1, stage_flags },
            ),
    {
        self.add(binding, DescriptorKind::UniformBuffer, stage_flags)
    }

    /// Add a combined image sampler binding.
    pub fn add_combined_image_sampler(self, binding: u32, stage_flags: u32) -> (b: Self)
        ensures
            b.binding_seq() == self.binding_seq().push(
                LayoutBinding {
                    binding,
                    kind: DescriptorKind::CombinedImageSampler,
                    descriptor_count: 1,
                    stage_flags,
                },
            ),
    {
        self.add(binding, DescriptorKind::CombinedImageSampler, stage_flags)
    }

    /// Add a storage buffer binding.
    pub fn add_storage_buffer(self, binding: u32, stage_flags: u32) -> (b: Self)
        ensures
            b.binding_seq() == self.binding_seq().push(
                LayoutBinding { binding, kind: DescriptorKind::StorageBuffer, descriptor_count: 1, stage_flags },
            ),
    {
        self.add(binding, DescriptorKind::StorageBuffer, stage_flags)
    }

    /// The bindings of the layout, in the order they were added.
    pub fn build(self) -> (v: Vec<LayoutBinding>)
        ensures
            v@ == self.binding_seq(),
    {
        self.bindings
    }
}

impl Default for DescriptorSetLayoutBuilder {
    fn default() -> (b: Self)
        ensures
            b.binding_seq() == Seq::<LayoutBinding>::empty(),
    {
        DescriptorSetLayoutBuilder::new()
    }
}

/// How many descriptors of each kind a pool of `max_sets` sets holds: 10 uniform
/// buffers, 10 combined image samplers and 5 storage buffers per set.
pub fn descriptor_pool_sizes(max_sets: u32) -> (v: Vec<(DescriptorKind, u32)>)
    requires
        max_sets * 10 <= u32::MAX,
    ensures
        v@ == seq![
            (DescriptorKind::UniformBuffer, (max_sets * 10) as u32),
            (DescriptorKind::CombinedImageSampler, (max_sets * 10) as u32),
            (DescriptorKind::StorageBuffer, (max_sets * 5) as u32),
        ],
{
    let mut v: Vec<(DescriptorKind, u32)> = Vec::new();
    v.push((DescriptorKind::UniformBuffer, max_sets * 10));
    v.push((DescriptorKind::CombinedImageSampler, max_sets * 10));
    v.push((DescriptorKind::StorageBuffer, max_sets * 5));
    assert(v@ =~= seq![
        (DescriptorKind::UniformBuffer, (max_sets * 10) as u32),
        (DescriptorKind::CombinedImageSampler, (max_sets * 10) as u32),
        (DescriptorKind::StorageBuffer, (max_sets * 5) as u32),
    ]);
    v
}

/// Raw bits of `vk::ShaderStageFlags::VERTEX`.
pub const SHADER_STAGE_VERTEX: u32 = 0x1;

/// Raw bits of `vk::ShaderStageFlags::FRAGMENT`.
pub const SHADER_STAGE_FRAGMENT: u32 = 0x10;

/// A single-descriptor binding.
pub open spec fn one_binding(binding: u32, kind: DescriptorKind, stage_flags: u32) -> LayoutBinding {
    LayoutBinding { binding, kind, descriptor_count: 1, stage_flags }
}

/// The per-frame layout: the camera uniform buffer at binding 0 for the vertex and
/// fragment stages, the lighting uniform buffer at binding 1 for the fragment stage.
pub fn frame_layout_bindings() -> (v: Vec<LayoutBinding>)
    ensures
        v@ == seq![
            one_binding(0, DescriptorKind::UniformBuffer, SHADER_STAGE_VERTEX | SHADER_STAGE_FRAGMENT),
            one_binding(1, DescriptorKind::UniformBuffer, SHADER_STAGE_FRAGMENT),
        ],
{
    let b = DescriptorSetLayoutBuilder::new()
        .add_uniform_buffer(0, SHADER_STAGE_VERTEX | SHADER_STAGE_FRAGMENT)
        .add_uniform_buffer(1, SHADER_STAGE_FRAGMENT);
    let v = b.build();
    assert(v@ =~= seq![
        one_binding(0, DescriptorKind::UniformBuffer, SHADER_STAGE_VERTEX | SHADER_STAGE_FRAGMENT),
        one_binding(1, DescriptorKind::UniformBuffer, SHADER_STAGE_FRAGMENT),
    ]);
    v
}

/// The per-material layout: the material uniform buffer at binding 0 and the six
/// textures (base color, normal, metallic-roughness, ambient occlusion, emission,
/// opacity) at bindings 1 to 6, all for the fragment stage.
pub fn material_layout_bindings() -> (v: Vec<LayoutBinding>)
    ensures
        v@ == seq![
            one_binding(0, DescriptorKind::UniformBuffer, SHADER_STAGE_FRAGMENT),
            one_binding(1, DescriptorKind::CombinedImageSampler, SHADER_STAGE_FRAGMENT),
            one_binding(2, DescriptorKind::CombinedImageSampler, SHADER_STAGE_FRAGMENT),
            one_binding(3, DescriptorKind::CombinedImageSampler, SHADER_STAGE_FRAGMENT),
            one_binding(4, DescriptorKind::CombinedImageSampler, SHADER_STAGE_FRAGMENT),
            one_binding(5, DescriptorKind::CombinedImageSampler, SHADER_STAGE_FRAGMENT),
            one_binding(6, DescriptorKind::CombinedImageSampler, SHADER_STAGE_FRAGMENT),
        ],
{
    let b = DescriptorSetLayoutBuilder::new()
        .add_uniform_buffer(0, SHADER_STAGE_FRAGMENT)
        .add_combined_image_sampler(1, SHADER_STAGE_FRAGMENT)
        .add_combined_image_sampler(2, SHADER_STAGE_FRAGMENT)
        .add_combined_image_sampler(3, SHADER_STAGE_FRAGMENT)
        .add_combined_image_sampler(4, SHADER_STAGE_FRAGMENT)
        .add_combined_image_sampler(5, SHADER_STAGE_FRAGMENT)
        .add_combined_image_sampler(6, SHADER_STAGE_FRAGMENT);
    let v = b.build();
    assert(v@ =~= seq![
        one_binding(0, DescriptorKind::UniformBuffer, SHADER_STAGE_FRAGMENT),
        one_binding(1, DescriptorKind::CombinedImageSampler, SHADER_STAGE_FRAGMENT),
        one_binding(2, DescriptorKind::CombinedImageSampler, SHADER_STAGE_FRAGMENT),
        one_binding(3, DescriptorKind::CombinedImageSampler, SHADER_STAGE_FRAGMENT),
        one_binding(4, DescriptorKind::CombinedImageSampler, SHADER_STAGE_FRAGMENT),
        one_binding(5, DescriptorKind::CombinedImageSampler, SHADER_STAGE_FRAGMENT),
        one_binding(6, DescriptorKind::CombinedImageSampler, SHADER_STAGE_FRAGMENT),
    ]);
    v
}

} // verus!
