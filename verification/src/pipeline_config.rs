//! Configuration of the graphics pipelines, one per pipeline type.

use vstd::prelude::*;
use vstd::string::StringExecFns;

use crate::material_type::PipelineType;

verus! {

/// Blending modes for rendering effects.
#[derive(Debug, Clone, Copy, PartialEq, Eq, Structural)]
pub enum BlendMode {
    /// Standard alpha blending
    Alpha,
    /// Additive blending
    Additive,
    /// Multiplicative blending
    Multiplicative,
    /// Pre-multiplied alpha
    Premultiplied,
}

/// When objects are drawn relative to others; later variants are drawn later.
#[derive(Debug, Clone, Copy, PartialEq, Eq, PartialOrd, Ord, Structural)]
pub enum RenderPriority {
    /// Skybox, far background (queue 1000)
    Background,
    /// Opaque solid objects (queue 2000)
    Geometry,
    /// Cutout materials (queue 2450)
    AlphaTest,
    /// Transparent objects (queue 3000)
    Transparent,
    /// UI and screen-space effects (queue 4000)
    Overlay,
}

impl RenderPriority {
    /// The render queue number of this priority.
    pub fn queue_value(&self) -> (v: u32)
        ensures
            v == (match self {
                RenderPriority::Background => 1000u32,
                RenderPriority::Geometry => 2000u32,
                RenderPriority::AlphaTest => 2450u32,
                RenderPriority::Transparent => 3000u32,
                RenderPriority::Overlay => 4000u32,
            }),
    {
        match self {
            RenderPriority::Background => 1000,
            RenderPriority::Geometry => 2000,
            RenderPriority::AlphaTest => 2450,
            RenderPriority::Transparent => 3000,
            RenderPriority::Overlay => 4000,
        }
    }
}

/// Polygon rendering mode.
#[derive(Debug, Clone, Copy, PartialEq, Eq, Structural)]
pub enum PolygonMode {
    /// Solid rendering
    Fill,
    /// Wireframe
    Line,
    /// Point cloud
    Point,
}

/// Face culling modes.
#[derive(Debug, Clone, Copy, PartialEq, Eq, Structural)]
pub enum CullMode {
    /// No culling
    NoCulling,
    /// Cull front faces
    Front,
    /// Cull back faces
    Back,
}

/// Configuration of a graphics pipeline.
#[derive(Debug)]
pub struct PipelineConfig {
    /// Type of pipeline
    pub pipeline_type: PipelineType,
    /// Vertex shader path
    pub vertex_shader_path: String,
    /// Fragment shader path
    pub fragment_shader_path: String,
    /// Enable depth testing
    pub depth_test: bool,
    /// Enable depth writing
    pub depth_write: bool,
    /// Enable alpha blending
    pub alpha_blending: bool,
    /// Cull mode for backface culling
    pub cull_mode: CullMode,
}

impl PipelineConfig {
    /// Standard PBR: opaque, depth tested and written, back faces culled.
    pub fn standard_pbr() -> (c: Self)
        ensures
            c.pipeline_type == PipelineType::StandardPBR,
            c.vertex_shader_path@ == "target/shaders/standard_pbr_vert.spv"@,
            c.fragment_shader_path@ == "target/shaders/standard_pbr_frag.spv"@,
            c.depth_test && c.depth_write && !c.alpha_blending,
            c.cull_mode == CullMode::Back,
    {
        PipelineConfig {
            pipeline_type: PipelineType::StandardPBR,
            vertex_shader_path: String::from_str("target/shaders/standard_pbr_vert.spv"),
            fragment_shader_path: String::from_str("target/shaders/standard_pbr_frag.spv"),
            depth_test: true,
            depth_write: true,
            alpha_blending: false,
            cull_mode: CullMode::Back,
        }
    }

    /// Unlit: opaque, depth tested and written, back faces culled.
    pub fn unlit() -> (c: Self)
        ensures
            c.pipeline_type == PipelineType::Unlit,
            c.vertex_shader_path@ == "target/shaders/standard_pbr_vert.spv"@,
            c.fragment_shader_path@ == "target/shaders/unlit_frag.spv"@,
            c.depth_test && c.depth_write && !c.alpha_blending,
            c.cull_mode == CullMode::Back,
    {
        PipelineConfig {
            pipeline_type: PipelineType::Unlit,
            vertex_shader_path: String::from_str("target/shaders/standard_pbr_vert.spv"),
            fragment_shader_path: String::from_str("target/shaders/unlit_frag.spv"),
            depth_test: true,
            depth_write: true,
            alpha_blending: false,
            cull_mode: CullMode::Back,
        }
    }

    /// Transparent PBR: depth tested but not written, alpha blended, nothing culled.
    pub fn transparent_pbr() -> (c: Self)
        ensures
            c.pipeline_type == PipelineType::TransparentPBR,
            c.vertex_shader_path@ == "target/shaders/standard_pbr_vert.spv"@,
            c.fragment_shader_path@ == "target/shaders/standard_pbr_frag.spv"@,
            c.depth_test && !c.depth_write && c.alpha_blending,
            c.cull_mode == CullMode::NoCulling,
    {
        PipelineConfig {
            pipeline_type: PipelineType::TransparentPBR,
            vertex_shader_path: String::from_str("target/shaders/standard_pbr_vert.spv"),
            fragment_shader_path: String::from_str("target/shaders/standard_pbr_frag.spv"),
            depth_test: true,
            depth_write: false,
            alpha_blending: true,
            cull_mode: CullMode::NoCulling,
        }
    }

    /// Transparent unlit: depth tested but not written, alpha blended, nothing culled.
    pub fn transparent_unlit() -> (c: Self)
        ensures
            c.pipeline_type == PipelineType::TransparentUnlit,
            c.vertex_shader_path@ == "target/shaders/standard_pbr_vert.spv"@,
            c.fragment_shader_path@ == "target/shaders/unlit_frag.spv"@,
            c.depth_test && !c.depth_write && c.alpha_blending,
            c.cull_mode == CullMode::NoCulling,
    {
        PipelineConfig {
            pipeline_type: PipelineType::TransparentUnlit,
            vertex_shader_path: String::from_str("target/shaders/standard_pbr_vert.spv"),
            fragment_shader_path: String::from_str("target/shaders/unlit_frag.spv"),
            depth_test: true,
            depth_write: false,
            alpha_blending: true,
            cull_mode: CullMode::NoCulling,
        }
    }
}

} // verus!
