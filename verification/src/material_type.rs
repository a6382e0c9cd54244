//! Material identifiers and the pipeline each kind of material needs.

use vstd::prelude::*;

verus! {

/// Identifier of a material.
#[derive(Debug, Clone, Copy, PartialEq, Eq, Hash, Structural)]
pub struct MaterialId(pub u32);

/// The shape of a material type, without its parameters: what decides which
/// pipeline draws it.
#[derive(Debug)]
pub enum MaterialKind {
    /// Standard PBR material
    StandardPBR,
    /// Unlit material
    Unlit,
    /// Transparent material over a base material
    Transparent(Box<MaterialKind>),
}

/// Pipeline types required for different materials.
#[derive(Debug, Clone, Copy, PartialEq, Eq, Hash, Structural)]
pub enum PipelineType {
    /// Standard opaque PBR rendering
    StandardPBR,
    /// Simple unlit rendering
    Unlit,
    /// Transparent PBR with alpha blending
    TransparentPBR,
    /// Transparent unlit with alpha blending
    TransparentUnlit,
}

/// The pipeline a material of the given kind is drawn with: a transparent material
/// uses the transparent variant of its base material's pipeline, and a transparent
/// material over another transparent one falls back to transparent PBR.
pub open spec fn spec_required_pipeline(kind: MaterialKind) -> PipelineType {
    match kind {
        MaterialKind::StandardPBR => PipelineType::StandardPBR,
        MaterialKind::Unlit => PipelineType::Unlit,
        MaterialKind::Transparent(base) => match *base {
            MaterialKind::StandardPBR => PipelineType::TransparentPBR,
            MaterialKind::Unlit => PipelineType::TransparentUnlit,
            MaterialKind::Transparent(_) => PipelineType::TransparentPBR,
        },
    }
}

impl MaterialKind {
    /// The pipeline required for this material kind.
    pub fn required_pipeline(&self) -> (p: PipelineType)
        ensures
            p == spec_required_pipeline(*self),
    {
        match self {
            MaterialKind::StandardPBR => PipelineType::StandardPBR,
            MaterialKind::Unlit => PipelineType::Unlit,
            MaterialKind::Transparent(base) => match &**base {
                MaterialKind::StandardPBR => PipelineType::TransparentPBR,
                MaterialKind::Unlit => PipelineType::TransparentUnlit,
                MaterialKind::Transparent(_) => PipelineType::TransparentPBR,
            },
        }
    }
}

impl PipelineType {
    /// Name of the shader variant of this pipeline type.
    pub fn shader_variant(&self) -> (s: &'static str)
        ensures
            s@ == (match self {
                PipelineType::StandardPBR => "standard_pbr"@,
                PipelineType::Unlit => "unlit"@,
                PipelineType::TransparentPBR => "transparent_pbr"@,
                PipelineType::TransparentUnlit => "transparent_unlit"@,
            }),
    {
        match self {
            PipelineType::StandardPBR => "standard_pbr",
            PipelineType::Unlit => "unlit",
            PipelineType::TransparentPBR => "transparent_pbr",
            PipelineType::TransparentUnlit => "transparent_unlit",
        }
    }

    /// Whether this pipeline type blends with alpha.
    pub fn requires_blending(&self) -> (b: bool)
        ensures
            b == (*self == PipelineType::TransparentPBR || *self == PipelineType::TransparentUnlit),
    {
        match self {
            PipelineType::TransparentPBR | PipelineType::TransparentUnlit => true,
            _ => false,
        }
    }
}

/// Whether a pipeline shades with lighting (the PBR ones).
pub open spec fn pipeline_is_lit(p: PipelineType) -> bool {
    p == PipelineType::StandardPBR || p == PipelineType::TransparentPBR
}

/// Whether a pipeline blends with alpha (the transparent ones).
pub open spec fn pipeline_blends(p: PipelineType) -> bool {
    p == PipelineType::TransparentPBR || p == PipelineType::TransparentUnlit
}

/// Making a material transparent changes only blending: an opaque material's pipeline
/// does not blend, and the same material made transparent gets a blending pipeline
/// that is lit exactly when the opaque one is.  A transparent material over another
/// transparent one falls back to the lit transparent pipeline.
pub proof fn law_transparency_keeps_lighting(base: MaterialKind)
    ensures
        !(base is Transparent) ==> {
            let opaque = spec_required_pipeline(base);
            let transparent = spec_required_pipeline(MaterialKind::Transparent(Box::new(base)));
            &&& !pipeline_blends(opaque)
            &&& pipeline_blends(transparent)
            &&& pipeline_is_lit(transparent) == pipeline_is_lit(opaque)
        },
        base is Transparent ==> spec_required_pipeline(MaterialKind::Transparent(Box::new(base)))
            == PipelineType::TransparentPBR,
{
}

} // verus!
