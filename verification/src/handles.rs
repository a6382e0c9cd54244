//! Plain handle types used to refer to pooled objects and backend resources.

use vstd::prelude::*;
use vstd::string::StringExecFns;

use crate::text::{append_decimal, decimal};

verus! {

/// Number of frames that may be in flight at once (per-frame resources are duplicated this often).
pub const FRAMES_IN_FLIGHT: usize = 2;

/// Index value reserved for handles that refer to nothing.
pub const INVALID_INDEX: u32 = 0xFFFF_FFFFu32;

/// Handle to a mesh resource stored in the backend.
#[derive(Debug, Clone, Copy, PartialEq, Eq, Hash, Structural)]
pub struct MeshHandle(pub u64);

/// Handle to a material resource stored in the backend.
#[derive(Debug, Clone, Copy, PartialEq, Eq, Hash, Structural)]
pub struct MaterialHandle(pub u64);

/// Handle to per-object GPU resources (descriptor sets, uniform buffers, ...).
#[derive(Debug, Clone, Copy, PartialEq, Eq, Hash, Structural)]
pub struct ObjectResourceHandle(pub u64);

/// Handle to a dynamic object: a pool index plus the generation it was handed out with.
#[derive(Debug, Clone, Copy, PartialEq, Eq, Hash, Structural)]
pub struct DynamicObjectHandle {
    /// Index in the object pool
    pub index: u32,
    /// Generation counter that detects use after release
    pub generation: u32,
}

impl DynamicObjectHandle {
    /// Create a handle from an index and a generation.
    pub fn new(index: u32, generation: u32) -> (h: Self)
        ensures
            h.index == index,
            h.generation == generation,
    {
        DynamicObjectHandle { index, generation }
    }

    /// A handle is non-null when its index is not the reserved value.
    pub fn is_valid(&self) -> (b: bool)
        ensures
            b == (self.index != INVALID_INDEX),
    {
        self.index != INVALID_INDEX
    }

    /// The null handle.
    pub fn invalid() -> (h: Self)
        ensures
            h.index == INVALID_INDEX,
            h.generation == 0,
    {
        DynamicObjectHandle { index: INVALID_INDEX, generation: 0 }
    }

    /// The debug rendering of the handle, as `{:?}` prints it.
    pub open spec fn spec_debug_text(self) -> Seq<char> {
        "DynamicObjectHandle { index: "@ + decimal(self.index as nat) + ", generation: "@ + decimal(
            self.generation as nat,
        ) + " }"@
    }

    /// The debug rendering of the handle, as `{:?}` prints it.
    pub fn debug_text(&self) -> (s: String)
        ensures
            s@ == self.spec_debug_text(),
    {
        let mut s = String::from_str("DynamicObjectHandle { index: ");
        append_decimal(&mut s, self.index as u64);
        s.append(", generation: ");
        append_decimal(&mut s, self.generation as u64);
        s.append(" }");
        s
    }
}

/// Handle for a pooled uniform buffer of one frame in flight.
#[derive(Debug, Clone, Copy, PartialEq, Eq, Hash, Structural)]
pub struct BufferHandle {
    /// Index in the buffer pool of that frame
    pub index: u32,
    /// Generation counter of the slot when it was handed out
    pub generation: u32,
    /// Frame in flight the buffer belongs to
    pub frame: usize,
}

impl BufferHandle {
    /// Create a buffer handle.
    pub fn new(index: u32, generation: u32, frame: usize) -> (h: Self)
        ensures
            h.index == index,
            h.generation == generation,
            h.frame == frame,
    {
        BufferHandle { index, generation, frame }
    }

    /// A buffer handle is valid when its frame is one of the frames in flight.
    pub fn is_valid(&self) -> (b: bool)
        ensures
            b == (self.frame < FRAMES_IN_FLIGHT),
    {
        self.frame < FRAMES_IN_FLIGHT
    }
}

/// Handle for a pooled descriptor set.
#[derive(Debug, Clone, Copy, PartialEq, Eq, Hash, Structural)]
pub struct DescriptorSetHandle {
    /// Index in the descriptor set pool
    pub index: u32,
    /// Generation counter of the slot when it was handed out
    pub generation: u32,
    /// Material type the descriptor set is configured for
    pub material_type: u32,
}

impl DescriptorSetHandle {
    /// Create a descriptor set handle.
    pub fn new(index: u32, generation: u32, material_type: u32) -> (h: Self)
        ensures
            h.index == index,
            h.generation == generation,
            h.material_type == material_type,
    {
        DescriptorSetHandle { index, generation, material_type }
    }
}

/// Handle for a pooled material instance.
#[derive(Debug, Clone, Copy, PartialEq, Eq, Hash, Structural)]
pub struct MaterialInstanceHandle {
    /// Index in the material instance pool
    pub index: u32,
    /// Generation counter of the slot when it was handed out
    pub generation: u32,
}

impl MaterialInstanceHandle {
    /// Create a material instance handle.
    pub fn new(index: u32, generation: u32) -> (h: Self)
        ensures
            h.index == index,
            h.generation == generation,
    {
        MaterialInstanceHandle { index, generation }
    }
}

} // verus!
