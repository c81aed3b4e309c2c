//! Descriptions the renderer works from, and placeholders for the pools of
//! GPU objects it is to own.

pub mod batch;

use vstd::prelude::*;

verus! {

/// Settings of the graphics system.
pub struct GraphicsConfig {
    /// Title of the windows it opens.
    pub title: &'static str,
}

/// Data laid out to be handed to shaders as a uniform.
pub trait Uniform {}

/// A shader module to be built from WGSL source.
pub struct ShaderModuleDescriptor<'a> {
    pub name: &'static str,
    pub source: &'a str,
}

/// Pool of pipeline layouts.
pub struct PipelineLayoutPool {}

/// Pool of shader modules.
pub struct ShaderPool {}

/// Pool of render pipelines, looked up by their description.
pub struct PipelinePool {}

/// Pool of bind groups.
pub struct BindGroupPool {}

/// Pool of vertex buffers handed out by id and offset.
pub struct VertexBufferPool {}

/// Pool of uniform buffers handed out by id and offset.
pub struct UniformBufferPool {}

/// Pool of samplers, looked up by their description.
pub struct SamplerPool {}

/// Pool of textures and their views, looked up by their description.
pub struct TexturePool {}

/// Pool of render pass descriptions.
pub struct RenderPassPool {}

} // verus!
