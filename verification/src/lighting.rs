//! Kinds of light sources, and the fixed light slots of the lighting uniform buffer.

use vstd::prelude::*;

verus! {

/// Light types.
#[derive(Debug, Clone, Copy, PartialEq, Eq, Structural)]
pub enum LightType {
    /// Directional light (like sunlight)
    Directional,
    /// Point light (like a lightbulb)
    Point,
    /// Spot light (like a flashlight)
    Spot,
}

/// Slots for directional lights in the lighting uniform buffer.
pub const MAX_DIRECTIONAL_LIGHTS: usize = 4;
/// Slots for point lights in the lighting uniform buffer.
pub const MAX_POINT_LIGHTS: usize = 8;
/// Slots for spot lights in the lighting uniform buffer.
pub const MAX_SPOT_LIGHTS: usize = 4;

/// The number of slots that receive a light: the declared count, capped at the slots.
pub open spec fn used_slots(count: u32, slots: usize) -> int {
    if (count as int) < (slots as int) {
        count as int
    } else {
        slots as int
    }
}

/// Fill `slots` light slots of the uniform buffer: slot `i` receives `lights[i]` for
/// the first `min(count, slots)` slots, and the rest hold `empty`.
pub fn fill_light_slots<L: Copy>(lights: &[L], count: u32, slots: usize, empty: L) -> (v: Vec<L>)
    requires
        lights@.len() >= used_slots(count, slots),
    ensures
        v@.len() == slots,
        forall|i: int| 0 <= i < slots ==> #[trigger] v@[i] == if i < used_slots(count, slots) {
            lights@[i]
        } else {
            empty
        },
{
    let used: usize = if (count as u64) < (slots as u64) {
        count as usize
    } else {
        slots
    };
    let mut v: Vec<L> = Vec::new();
    let mut i: usize = 0;
    while i < slots
        invariant
            used == used_slots(count, slots),
            lights@.len() >= used,
            i <= slots,
            v@.len() == i,
            forall|j: int| 0 <= j < i ==> #[trigger] v@[j] == if j < used {
                lights@[j]
            } else {
                empty
            },
        decreases slots - i,
    {
        if i < used {
            v.push(lights[i]);
        } else {
            v.push(empty);
        }
        i = i + 1;
    }
    v
}

} // verus!
