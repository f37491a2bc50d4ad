use vstd::prelude::*;
use wgpu::{DepthStencilState, MultisampleState, PipelineLayout, PrimitiveState};

verus! {

/// `wgpu::PipelineLayout`, carried through as an opaque value.
#[verifier::external_type_specification]
#[verifier::external_body]
pub struct ExPipelineLayout(wgpu::PipelineLayout);

/// `wgpu::PrimitiveState`, carried through as an opaque value.
#[verifier::external_type_specification]
#[verifier::external_body]
pub struct ExPrimitiveState(wgpu::PrimitiveState);

/// `wgpu::DepthStencilState`, carried through as an opaque value.
#[verifier::external_type_specification]
#[verifier::external_body]
pub struct ExDepthStencilState(wgpu::DepthStencilState);

/// `wgpu::MultisampleState`, carried through as an opaque value.
#[verifier::external_type_specification]
#[verifier::external_body]
pub struct ExMultisampleState(wgpu::MultisampleState);

/// The fixed-function state a render pipeline is built with, on top of its layout.
pub struct PipelineBuilderIS {
    pub pipeline_layout: PipelineLayout,
    pub primitive_state: PrimitiveState,
    pub depth_stencil_state: Option<DepthStencilState>,
    pub multisample_state: MultisampleState,
    /// The number of array layers rendered at once, where multiview is on (never 0).
    pub multiview_state: Option<u32>,
}

impl PipelineBuilderIS {
    /// Replaces the primitive state; the rest is kept.
    pub fn set_primitive_state(self, primitive_state: PrimitiveState) -> (r: Self)
        ensures
            r.primitive_state == primitive_state,
            r.pipeline_layout == self.pipeline_layout,
            r.depth_stencil_state == self.depth_stencil_state,
            r.multisample_state == self.multisample_state,
            r.multiview_state == self.multiview_state,
    {
        PipelineBuilderIS { primitive_state, ..self }
    }

    /// Turns on depth and stencil testing with the given state; the rest is kept.
    pub fn set_depthstencil_state(self, depth_stencil_state: DepthStencilState) -> (r: Self)
        ensures
            r.depth_stencil_state == Some(depth_stencil_state),
            r.pipeline_layout == self.pipeline_layout,
            r.primitive_state == self.primitive_state,
            r.multisample_state == self.multisample_state,
            r.multiview_state == self.multiview_state,
    {
        PipelineBuilderIS { depth_stencil_state: Some(depth_stencil_state), ..self }
    }

    /// Replaces the multisample state; the rest is kept.
    pub fn set_multisample_state(self, multisample_state: MultisampleState) -> (r: Self)
        ensures
            r.multisample_state == multisample_state,
            r.pipeline_layout == self.pipeline_layout,
            r.primitive_state == self.primitive_state,
            r.depth_stencil_state == self.depth_stencil_state,
            r.multiview_state == self.multiview_state,
    {
        PipelineBuilderIS { multisample_state, ..self }
    }

    /// Renders to the given (nonzero) number of array layers at once; the rest is kept.
    pub fn set_multiview_state(self, multiview_state: u32) -> (r: Self)
        requires
            multiview_state != 0,
        ensures
            r.multiview_state == Some(multiview_state),
            r.pipeline_layout == self.pipeline_layout,
            r.primitive_state == self.primitive_state,
            r.depth_stencil_state == self.depth_stencil_state,
            r.multisample_state == self.multisample_state,
    {
        PipelineBuilderIS { multiview_state: Some(multiview_state), ..self }
    }
}

} // verus!
