//! Mesh types that get a dedicated object pool each.

use vstd::prelude::*;

verus! {

/// Mesh types supported by the single-mesh pool system.
#[derive(Debug, Clone, Copy, PartialEq, Eq, Hash, Structural)]
pub enum MeshType {
    /// Teapot mesh
    Teapot,
    /// Sphere mesh
    Sphere,
    /// Cube mesh
    Cube,
}

impl MeshType {
    /// All mesh types, in declaration order.
    pub fn all() -> (r: &'static [MeshType])
        ensures
            r@ == seq![MeshType::Teapot, MeshType::Sphere, MeshType::Cube],
    {
        let r: &'static [MeshType] = &[MeshType::Teapot, MeshType::Sphere, MeshType::Cube];
        r
    }

    /// Path of the model file loaded for this mesh type.
    pub fn default_model_path(&self) -> (p: &'static str)
        ensures
            p@ == (match self {
                MeshType::Teapot => "models/teapot.obj"@,
                MeshType::Sphere => "models/sphere.obj"@,
                MeshType::Cube => "models/cube.obj"@,
            }),
    {
        match self {
            MeshType::Teapot => "models/teapot.obj",
            MeshType::Sphere => "models/sphere.obj",
            MeshType::Cube => "models/cube.obj",
        }
    }

    /// Human-readable name of this mesh type (also how it is displayed and debug-printed).
    pub open spec fn name_text(self) -> Seq<char> {
        match self {
            MeshType::Teapot => "Teapot"@,
            MeshType::Sphere => "Sphere"@,
            MeshType::Cube => "Cube"@,
        }
    }

    /// Human-readable name of this mesh type.
    pub fn name(&self) -> (n: &'static str)
        ensures
            n@ == self.name_text(),
    {
        match self {
            MeshType::Teapot => "Teapot",
            MeshType::Sphere => "Sphere",
            MeshType::Cube => "Cube",
        }
    }
}

impl Default for MeshType {
    /// The teapot.
    fn default() -> (m: Self)
        ensures
            m == MeshType::Teapot,
    {
        MeshType::Teapot
    }
}

} // verus!
