use vstd::prelude::*;

verus! {

/// Which image the compositing pass shows: the lit result, or one of the
/// three G-buffer color targets as it is.
#[derive(Clone, Copy, Debug, PartialEq, Eq, Structural)]
pub enum RenderSource {
    Final,
    Albedo,
    Position,
    Normal,
}

/// The four off-screen targets of the geometry pass.
#[derive(Clone, Copy, Debug, PartialEq, Eq, Structural)]
pub enum GTarget {
    Depth,
    Albedo,
    Position,
    Normal,
}

/// The pipeline of the compositing pass: full lighting, or a pass-through
/// that shows one target.
#[derive(Clone, Copy, Debug, PartialEq, Eq, Structural)]
pub enum CompositePipeline {
    Shading,
    Debug,
}

/// What the compositing pass reads: depth, then three color slots, through
/// one pipeline.
#[derive(Clone, Copy, Debug, PartialEq, Eq)]
pub struct CompositeInputs {
    pub depth: GTarget,
    pub colors: (GTarget, GTarget, GTarget),
    pub pipeline: CompositePipeline,
}

/// A debug view showing `t` in every color slot.
pub open spec fn single_target(t: GTarget) -> CompositeInputs {
    CompositeInputs { depth: GTarget::Depth, colors: (t, t, t), pipeline: CompositePipeline::Debug }
}

pub open spec fn composite_inputs(s: RenderSource) -> CompositeInputs {
    match s {
        RenderSource::Final => CompositeInputs {
            depth: GTarget::Depth,
            colors: (GTarget::Albedo, GTarget::Position, GTarget::Normal),
            pipeline: CompositePipeline::Shading,
        },
        RenderSource::Albedo => single_target(GTarget::Albedo),
        RenderSource::Position => single_target(GTarget::Position),
        RenderSource::Normal => single_target(GTarget::Normal),
    }
}

/// `Final` composites all three color targets with depth through the
/// lighting pipeline; each other source feeds its own target, in every slot,
/// through the pass-through pipeline.
pub fn resolve_source_targets(s: RenderSource) -> (r: CompositeInputs)
    ensures
        r == composite_inputs(s),
{
    match s {
        RenderSource::Final => CompositeInputs {
            depth: GTarget::Depth,
            colors: (GTarget::Albedo, GTarget::Position, GTarget::Normal),
            pipeline: CompositePipeline::Shading,
        },
        RenderSource::Albedo => CompositeInputs {
            depth: GTarget::Depth,
            colors: (GTarget::Albedo, GTarget::Albedo, GTarget::Albedo),
            pipeline: CompositePipeline::Debug,
        },
        RenderSource::Position => CompositeInputs {
            depth: GTarget::Depth,
            colors: (GTarget::Position, GTarget::Position, GTarget::Position),
            pipeline: CompositePipeline::Debug,
        },
        RenderSource::Normal => CompositeInputs {
            depth: GTarget::Depth,
            colors: (GTarget::Normal, GTarget::Normal, GTarget::Normal),
            pipeline: CompositePipeline::Debug,
        },
    }
}

/// Pixel formats of the off-screen targets.
#[derive(Clone, Copy, Debug, PartialEq, Eq, Structural)]
pub enum TargetFormat {
    Depth32Float,
    Rgba8UnormSrgb,
    Rgba16Float,
}

/// One off-screen image: its size in pixels and its format.
#[derive(Clone, Copy, Debug, PartialEq, Eq)]
pub struct TargetSpec {
    pub width: u32,
    pub height: u32,
    pub format: TargetFormat,
}

/// The G-buffer: depth and three color targets, always of one size.
#[derive(Clone, Copy, Debug, PartialEq, Eq)]
pub struct GBufferTargets {
    pub depth: TargetSpec,
    pub albedo: TargetSpec,
    pub position: TargetSpec,
    pub normal: TargetSpec,
}

pub open spec fn target_of(w: u32, h: u32, f: TargetFormat) -> TargetSpec {
    TargetSpec { width: w, height: h, format: f }
}

pub open spec fn gbuffer_of(w: u32, h: u32) -> GBufferTargets {
    GBufferTargets {
        depth: target_of(w, h, TargetFormat::Depth32Float),
        albedo: target_of(w, h, TargetFormat::Rgba8UnormSrgb),
        position: target_of(w, h, TargetFormat::Rgba16Float),
        normal: target_of(w, h, TargetFormat::Rgba16Float),
    }
}

impl GBufferTargets {
    /// Every target is `w` by `h` pixels.
    pub open spec fn sized(self, w: u32, h: u32) -> bool {
        &&& self.depth.width == w && self.depth.height == h
        &&& self.albedo.width == w && self.albedo.height == h
        &&& self.position.width == w && self.position.height == h
        &&& self.normal.width == w && self.normal.height == h
    }

    /// The four targets for a surface of `width` by `height` pixels.
    pub fn create(width: u32, height: u32) -> (r: GBufferTargets)
        ensures
            r == gbuffer_of(width, height),
            r.sized(width, height),
    {
        GBufferTargets {
            depth: TargetSpec { width, height, format: TargetFormat::Depth32Float },
            albedo: TargetSpec { width, height, format: TargetFormat::Rgba8UnormSrgb },
            position: TargetSpec { width, height, format: TargetFormat::Rgba16Float },
            normal: TargetSpec { width, height, format: TargetFormat::Rgba16Float },
        }
    }

    /// Replaces all four targets with new ones of the new size.
    pub fn resize(&mut self, width: u32, height: u32)
        ensures
            *final(self) == gbuffer_of(width, height),
            final(self).sized(width, height),
    {
        *self = GBufferTargets::create(width, height);
    }

    pub fn matches(&self, width: u32, height: u32) -> (r: bool)
        ensures
            r == self.sized(width, height),
    {
        self.depth.width == width && self.depth.height == height && self.albedo.width == width
            && self.albedo.height == height && self.position.width == width
            && self.position.height == height && self.normal.width == width
            && self.normal.height == height
    }
}

/// How a pass treats the depth target at its start.
#[derive(Clone, Copy, Debug, PartialEq, Eq, Structural)]
pub enum DepthLoad {
    Clear,
    Keep,
}

/// One step of a frame on the GPU.
#[derive(Clone, Copy, Debug, PartialEq, Eq)]
pub enum FramePass {
    /// Clears the presented image and the three color targets.
    ClearTargets,
    /// Draws the mesh into the three color targets and depth.
    Geometry { depth: DepthLoad },
    /// Draws a full-screen triangle into the presented image.
    Composite { inputs: CompositeInputs },
    /// Draws debug markers, depth-tested against the geometry's depth.
    Gizmos { depth: DepthLoad },
    /// Draws the 2-D overlay on top, blended.
    Overlay,
    /// Submits the work and shows the image.
    Present,
}

/// The passes of one frame, in order. Depth is cleared by the geometry pass
/// alone; the gizmos reuse it.
pub open spec fn frame_passes_spec(s: RenderSource) -> Seq<FramePass> {
    seq![
        FramePass::ClearTargets,
        FramePass::Geometry { depth: DepthLoad::Clear },
        FramePass::Composite { inputs: composite_inputs(s) },
        FramePass::Gizmos { depth: DepthLoad::Keep },
        FramePass::Overlay,
        FramePass::Present,
    ]
}

pub fn frame_passes(s: RenderSource) -> (r: Vec<FramePass>)
    ensures
        r@ == frame_passes_spec(s),
{
    let mut v: Vec<FramePass> = Vec::new();
    v.push(FramePass::ClearTargets);
    v.push(FramePass::Geometry { depth: DepthLoad::Clear });
    v.push(FramePass::Composite { inputs: resolve_source_targets(s) });
    v.push(FramePass::Gizmos { depth: DepthLoad::Keep });
    v.push(FramePass::Overlay);
    v.push(FramePass::Present);
    proof {
        assert(v@ =~= frame_passes_spec(s));
    }
    v
}

} // verus!
