//! The fixed-function state that all objects of one group share.

use vstd::prelude::*;

verus! {

/// A compiled shader program, by the handle under which the device knows it.
#[derive(Clone, Copy, Debug, PartialEq, Eq, Structural)]
pub struct ShaderModule(pub u64);

/// A render pass, by the handle under which the device knows it. It stands
/// for the format of the render target.
#[derive(Clone, Copy, Debug, PartialEq, Eq, Structural)]
pub struct RenderPass(pub u64);

/// The rectangle drawn into and the depth range, each number an IEEE-754
/// single-precision bit pattern.
#[derive(Clone, Copy, Debug, PartialEq, Eq)]
pub struct Viewport {
    pub origin: [u32; 2],
    pub dimensions: [u32; 2],
    pub depth_range: [u32; 2],
}

/// Which faces are discarded.
#[derive(Clone, Copy, Debug, PartialEq, Eq, Structural)]
pub enum CullMode {
    Off,
    Front,
    Back,
    FrontAndBack,
}

/// Which winding counts as facing the viewer.
#[derive(Clone, Copy, Debug, PartialEq, Eq, Structural)]
pub enum FrontFace {
    CounterClockwise,
    Clockwise,
}

/// A graphics pipeline, described by everything that goes into making it.
#[derive(Clone, Copy, Debug, PartialEq, Eq)]
pub struct Pipeline {
    pub vertex_shader: ShaderModule,
    pub fragment_shader: ShaderModule,
    pub render_pass: RenderPass,
    pub viewport: Viewport,
    pub cull_mode: CullMode,
    pub front_face: FrontFace,
    pub depth_test: bool,
}

impl Pipeline {
    /// The pipeline of a group: the two shaders on the first subpass of
    /// `render_pass`, a fixed viewport, back faces culled, counter-clockwise
    /// front faces, depth test on.
    pub open spec fn forward(
        vertex_shader: ShaderModule,
        fragment_shader: ShaderModule,
        render_pass: RenderPass,
        viewport: Viewport,
    ) -> Pipeline {
        Pipeline {
            vertex_shader,
            fragment_shader,
            render_pass,
            viewport,
            cull_mode: CullMode::Back,
            front_face: FrontFace::CounterClockwise,
            depth_test: true,
        }
    }
}

} // verus!
