//! Coordinate system conventions and the conversion a mesh needs between two of them.

use vstd::prelude::*;

verus! {

/// Coordinate system conventions.
#[derive(Debug, Clone, Copy, PartialEq, Eq, Structural)]
pub enum CoordinateSystem {
    /// Y-up, right-handed (modeling tools, OBJ files)
    YUpRightHanded,
    /// Y-down (legacy conversion workflows)
    YDownLeftHanded,
    /// Z-up, right-handed (some CAD tools)
    ZUpRightHanded,
}

/// What converting a mesh does to its vertices.
#[derive(Debug, Clone, Copy, PartialEq, Eq, Structural)]
pub enum MeshConversion {
    /// Source and target agree: vertices are left alone
    Identity,
    /// Y-up right-handed to Y-down: the Y component of every position and normal is negated
    FlipY,
    /// No conversion exists for this pair: vertices are left alone and a warning is logged
    Unsupported,
}

/// Converter between two coordinate systems.
#[derive(Debug, Clone, Copy, PartialEq, Eq, Structural)]
pub struct CoordinateConverter {
    from: CoordinateSystem,
    to: CoordinateSystem,
}

/// The conversion a mesh needs to go from `from` to `to`.
pub open spec fn spec_conversion(from: CoordinateSystem, to: CoordinateSystem) -> MeshConversion {
    if from == to {
        MeshConversion::Identity
    } else if from == CoordinateSystem::YUpRightHanded && to == CoordinateSystem::YDownLeftHanded {
        MeshConversion::FlipY
    } else {
        MeshConversion::Unsupported
    }
}

impl CoordinateConverter {
    /// The source system.
    pub closed spec fn source(&self) -> CoordinateSystem {
        self.from
    }

    /// The target system.
    pub closed spec fn target(&self) -> CoordinateSystem {
        self.to
    }

    /// Create a converter from `from` to `to`.
    pub fn new(from: CoordinateSystem, to: CoordinateSystem) -> (c: Self)
        ensures
            c.source() == from,
            c.target() == to,
    {
        CoordinateConverter { from, to }
    }

    /// What `convert_mesh` does to a mesh's vertices for this pair of systems.
    pub fn conversion(&self) -> (m: MeshConversion)
        ensures
            m == spec_conversion(self.source(), self.target()),
    {
        if self.from == self.to {
            MeshConversion::Identity
        } else {
            match (self.from, self.to) {
                (CoordinateSystem::YUpRightHanded, CoordinateSystem::YDownLeftHanded) => MeshConversion::FlipY,
                _ => MeshConversion::Unsupported,
            }
        }
    }
}

impl Default for CoordinateConverter {
    /// Y-up right-handed to Y-down (legacy conversion).
    fn default() -> (c: Self)
        ensures
            c.source() == CoordinateSystem::YUpRightHanded,
            c.target() == CoordinateSystem::YDownLeftHanded,
    {
        CoordinateConverter::new(CoordinateSystem::YUpRightHanded, CoordinateSystem::YDownLeftHanded)
    }
}

} // verus!
