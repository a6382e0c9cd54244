//! Sizing of the vertex buffers of the user interface, and its text draw calls.

use vstd::prelude::*;
use vstd::string::StringExecFns;

use crate::error::VulkanError;

verus! {

/// What to do with the text vertex buffer before a text upload.
#[derive(Debug, Clone, Copy, PartialEq, Eq, Structural)]
pub enum TextBufferPlan {
    /// Nothing to draw: no upload at all
    Skip,
    /// The buffer is large enough: upload `bytes` bytes into it
    Reuse { bytes: u64 },
    /// Replace the buffer by one of `alloc_size` bytes (twice what is needed), then
    /// upload `bytes` bytes
    Grow { bytes: u64, alloc_size: u64 },
}

/// The text buffer plan for `vertex_floats` floats of vertex data drawn in
/// `range_count` ranges, given the size of the current buffer (if there is one).
pub open spec fn spec_text_buffer_plan(current_size: Option<u64>, vertex_floats: nat, range_count: nat) -> TextBufferPlan {
    let bytes = (vertex_floats * 4) as u64;
    if vertex_floats == 0 || range_count == 0 {
        TextBufferPlan::Skip
    } else if current_size is None || current_size->0 < bytes {
        TextBufferPlan::Grow { bytes, alloc_size: (bytes * 2) as u64 }
    } else {
        TextBufferPlan::Reuse { bytes }
    }
}

/// Decide how to upload text vertices: skip when there is nothing to draw, grow the
/// buffer to twice the data size when it is missing or too small, else reuse it.
pub fn text_buffer_plan(current_size: Option<u64>, vertex_floats: usize, range_count: usize) -> (p: TextBufferPlan)
    requires
        vertex_floats * 8 <= u64::MAX,
    ensures
        p == spec_text_buffer_plan(current_size, vertex_floats as nat, range_count as nat),
{
    if vertex_floats == 0 || range_count == 0 {
        return TextBufferPlan::Skip;
    }
    let bytes: u64 = (vertex_floats as u64) * 4;
    match current_size {
        Some(size) => {
            if size < bytes {
                TextBufferPlan::Grow { bytes, alloc_size: bytes * 2 }
            } else {
                TextBufferPlan::Reuse { bytes }
            }
        },
        None => TextBufferPlan::Grow { bytes, alloc_size: bytes * 2 },
    }
}

/// The draw calls for text ranges `(start_vertex, vertex_count)`: one call of
/// `vertex_count` vertices from `start_vertex` each (both narrowed to 32 bits), in order.
pub fn text_draw_calls(draw_ranges: &[(usize, usize)]) -> (v: Vec<(u32, u32)>)
    ensures
        v@.len() == draw_ranges@.len(),
        forall|i: int| 0 <= i < v@.len() ==> #[trigger] v@[i] == (draw_ranges@[i].1 as u32, draw_ranges@[i].0 as u32),
{
    let mut v: Vec<(u32, u32)> = Vec::new();
    let mut i: usize = 0;
    while i < draw_ranges.len()
        invariant
            i <= draw_ranges@.len(),
            v@.len() == i,
            forall|j: int| 0 <= j < i ==> #[trigger] v@[j] == (draw_ranges@[j].1 as u32, draw_ranges@[j].0 as u32),
        decreases draw_ranges@.len() - i,
    {
        let (start, count) = draw_ranges[i];
        v.push((count as u32, start as u32));
        i = i + 1;
    }
    v
}

/// The bytes needed for `vertex_count` panel vertices of `vertex_size` bytes each, which
/// must fit in the panel vertex buffer of `buffer_size` bytes.
pub fn panel_upload_size(vertex_size: u64, vertex_count: u64, buffer_size: u64) -> (r: Result<u64, VulkanError>)
    requires
        vertex_size * vertex_count <= u64::MAX,
    ensures
        vertex_size * vertex_count <= buffer_size ==> (r matches Ok(n) && n == vertex_size * vertex_count),
        vertex_size * vertex_count > buffer_size ==> (r matches Err(VulkanError::InvalidOperation { reason })
            && reason@ == "UI vertex buffer too small"@),
{
    let required = vertex_size * vertex_count;
    if required > buffer_size {
        return Err(VulkanError::InvalidOperation { reason: String::from_str("UI vertex buffer too small") });
    }
    Ok(required)
}

} // verus!
