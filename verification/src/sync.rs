//! Memory barriers for the common synchronization patterns of the renderer.
//!
//! A barrier is given by its source and destination access masks, as the raw bits of
//! `ash::vk::AccessFlags`.

use vstd::prelude::*;

verus! {

/// `VK_ACCESS_INDEX_READ_BIT`
pub const ACCESS_INDEX_READ: u32 = 0x2;
/// `VK_ACCESS_VERTEX_ATTRIBUTE_READ_BIT`
pub const ACCESS_VERTEX_ATTRIBUTE_READ: u32 = 0x4;
/// `VK_ACCESS_SHADER_READ_BIT`
pub const ACCESS_SHADER_READ: u32 = 0x20;
/// `VK_ACCESS_SHADER_WRITE_BIT`
pub const ACCESS_SHADER_WRITE: u32 = 0x40;
/// `VK_ACCESS_COLOR_ATTACHMENT_WRITE_BIT`
pub const ACCESS_COLOR_ATTACHMENT_WRITE: u32 = 0x100;
/// `VK_ACCESS_TRANSFER_READ_BIT`
pub const ACCESS_TRANSFER_READ: u32 = 0x800;
/// `VK_ACCESS_TRANSFER_WRITE_BIT`
pub const ACCESS_TRANSFER_WRITE: u32 = 0x1000;
/// `VK_ACCESS_HOST_WRITE_BIT`
pub const ACCESS_HOST_WRITE: u32 = 0x4000;

/// A global memory barrier: the accesses that must complete before it, and those that
/// must wait for it.
#[derive(Debug, Clone, Copy, PartialEq, Eq, Structural)]
pub struct AccessBarrier {
    /// Source access mask (raw `vk::AccessFlags` bits)
    pub src_access_mask: u32,
    /// Destination access mask (raw `vk::AccessFlags` bits)
    pub dst_access_mask: u32,
}

/// Pre-configured memory barriers.
pub struct MemoryBarrierBuilder;

impl MemoryBarrierBuilder {
    /// Host write, then shader read (uniform buffer updates).
    pub fn buffer_host_write_to_shader_read() -> (b: AccessBarrier)
        ensures
            b == (AccessBarrier { src_access_mask: ACCESS_HOST_WRITE, dst_access_mask: ACCESS_SHADER_READ }),
    {
        AccessBarrier { src_access_mask: ACCESS_HOST_WRITE, dst_access_mask: ACCESS_SHADER_READ }
    }

    /// Transfer write, then vertex attribute read (vertex buffer updates).
    pub fn buffer_transfer_to_vertex_read() -> (b: AccessBarrier)
        ensures
            b == (AccessBarrier { src_access_mask: ACCESS_TRANSFER_WRITE, dst_access_mask: ACCESS_VERTEX_ATTRIBUTE_READ }),
    {
        AccessBarrier { src_access_mask: ACCESS_TRANSFER_WRITE, dst_access_mask: ACCESS_VERTEX_ATTRIBUTE_READ }
    }

    /// Transfer write, then index read (index buffer updates).
    pub fn buffer_transfer_to_index_read() -> (b: AccessBarrier)
        ensures
            b == (AccessBarrier { src_access_mask: ACCESS_TRANSFER_WRITE, dst_access_mask: ACCESS_INDEX_READ }),
    {
        AccessBarrier { src_access_mask: ACCESS_TRANSFER_WRITE, dst_access_mask: ACCESS_INDEX_READ }
    }

    /// Host write, then transfer read (staging buffers).
    pub fn buffer_host_write_to_transfer_read() -> (b: AccessBarrier)
        ensures
            b == (AccessBarrier { src_access_mask: ACCESS_HOST_WRITE, dst_access_mask: ACCESS_TRANSFER_READ }),
    {
        AccessBarrier { src_access_mask: ACCESS_HOST_WRITE, dst_access_mask: ACCESS_TRANSFER_READ }
    }

    /// Compute shader write, then fragment shader read.
    pub fn buffer_compute_write_to_fragment_read() -> (b: AccessBarrier)
        ensures
            b == (AccessBarrier { src_access_mask: ACCESS_SHADER_WRITE, dst_access_mask: ACCESS_SHADER_READ }),
    {
        AccessBarrier { src_access_mask: ACCESS_SHADER_WRITE, dst_access_mask: ACCESS_SHADER_READ }
    }

    /// Color attachment write, then shader read (render to texture).
    pub fn image_color_write_to_shader_read() -> (b: AccessBarrier)
        ensures
            b == (AccessBarrier { src_access_mask: ACCESS_COLOR_ATTACHMENT_WRITE, dst_access_mask: ACCESS_SHADER_READ }),
    {
        AccessBarrier { src_access_mask: ACCESS_COLOR_ATTACHMENT_WRITE, dst_access_mask: ACCESS_SHADER_READ }
    }
}

} // verus!
