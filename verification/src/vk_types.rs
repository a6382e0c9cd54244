//! Vulkan handle types from `ash`, carried through the library unopened.

use ash::vk;
use vstd::prelude::*;

verus! {

/// `ash::vk::Buffer`, a non-dispatchable buffer handle.
#[verifier::external_type_specification]
#[verifier::external_body]
pub struct ExBuffer(vk::Buffer);

/// `ash::vk::DescriptorSet`, a non-dispatchable descriptor set handle.
#[verifier::external_type_specification]
#[verifier::external_body]
pub struct ExDescriptorSet(vk::DescriptorSet);

/// Calls `ash::vk::DescriptorSet::null()`, the handle that refers to no descriptor set.
/// Nothing is claimed about the value returned.
#[verifier::external_body]
pub(crate) fn null_descriptor_set() -> vk::DescriptorSet {
    vk::DescriptorSet::null()
}

} // verus!
