//! Renderer decisions that do not need the GPU: uniform slot indices,
//! surface configuration, resize limits, pipeline selection and how many
//! render errors are reported.

use crate::shader::PolygonMode;
use crate::texture::TextureFormat;
use vstd::string::StringExecFns;
use vstd::prelude::*;

verus! {

/// Debug drawing switches of the renderer.
pub struct DebugRenderer {
    pub draw_edges: bool,
}

impl Default for DebugRenderer {
    fn default() -> (r: DebugRenderer)
        ensures
            !r.draw_edges,
    {
        DebugRenderer { draw_edges: false }
    }
}

/// The binding slots of a shader uniform, numbered from zero.
pub trait ShaderUniformIndex: Sized {
    /// The number of the slot.
    spec fn index_spec(self) -> u64;

    /// How many slots the uniform has.
    spec fn count_spec() -> u64;

    /// The number of the slot.
    fn index(&self) -> (r: u64)
        ensures
            r == self.index_spec(),
            r < Self::count_spec(),
    ;

    /// The slot with number `idx`, if the uniform has it.
    fn by_index(idx: u64) -> (r: Option<Self>)
        ensures
            match r {
                Some(s) => s.index_spec() == idx,
                None => idx >= Self::count_spec(),
            },
    ;

    /// The name of the uniform.
    spec fn name_spec() -> Seq<char>;

    /// The name of the uniform.
    fn name() -> (r: &'static str)
        ensures
            r@ == Self::name_spec(),
    ;
}

/// The slots of the per-frame render uniform.
#[derive(Clone, Copy, PartialEq, Eq, Structural, Debug)]
pub enum RenderUniformIndex {
    Camera,
    System,
}

impl ShaderUniformIndex for RenderUniformIndex {
    open spec fn index_spec(self) -> u64 {
        match self {
            RenderUniformIndex::Camera => 0,
            RenderUniformIndex::System => 1,
        }
    }

    open spec fn count_spec() -> u64 {
        2
    }

    fn index(&self) -> (r: u64) {
        match self {
            RenderUniformIndex::Camera => 0,
            RenderUniformIndex::System => 1,
        }
    }

    fn by_index(idx: u64) -> (r: Option<Self>) {
        if idx == 0 {
            Some(RenderUniformIndex::Camera)
        } else if idx == 1 {
            Some(RenderUniformIndex::System)
        } else {
            None
        }
    }

    open spec fn name_spec() -> Seq<char> {
        "RenderUniformIndex"@
    }

    fn name() -> (r: &'static str) {
        "RenderUniformIndex"
    }
}

/// The slots of the point light uniform.
#[derive(Clone, Copy, PartialEq, Eq, Structural, Debug)]
pub enum PointLightUniformIndex {
    Count,
    Lights,
}

impl ShaderUniformIndex for PointLightUniformIndex {
    open spec fn index_spec(self) -> u64 {
        match self {
            PointLightUniformIndex::Count => 0,
            PointLightUniformIndex::Lights => 1,
        }
    }

    open spec fn count_spec() -> u64 {
        2
    }

    fn index(&self) -> (r: u64) {
        match self {
            PointLightUniformIndex::Count => 0,
            PointLightUniformIndex::Lights => 1,
        }
    }

    fn by_index(idx: u64) -> (r: Option<Self>) {
        if idx == 0 {
            Some(PointLightUniformIndex::Count)
        } else if idx == 1 {
            Some(PointLightUniformIndex::Lights)
        } else {
            None
        }
    }

    open spec fn name_spec() -> Seq<char> {
        "PointLightUniformIndex"@
    }

    fn name() -> (r: &'static str) {
        "PointLightUniformIndex"
    }
}

/// The slot a uniform builder holding `filled` resources fills next.
pub fn next_uniform_index<I: ShaderUniformIndex>(filled: u64) -> (r: I)
    requires
        filled < I::count_spec(),
    ensures
        r.index_spec() == filled,
{
    I::by_index(filled).unwrap()
}

/// Why a material could not be prepared for rendering.
#[derive(Clone, Copy, PartialEq, Eq, Structural, Debug)]
pub enum MaterialError {
    MaterialNotFound,
    DeviceNotInitialized,
    QueueNotInitialized,
}

/// Why a frame could not be rendered.
#[derive(Clone, Copy, PartialEq, Eq, Structural, Debug)]
pub enum RenderError {
    /// Neither an override nor a current pipeline names a shader.
    NoRenderPipeline,
}

/// The shader a draw uses: the override if given, else the current
/// pipeline's.
pub fn default_shader_id(shader_override: Option<usize>, current_pipeline: Option<usize>) -> (r: Result<usize, RenderError>)
    ensures
        r == match shader_override {
            Some(s) => Ok(s),
            None => match current_pipeline {
                Some(p) => Ok(p),
                None => Err(RenderError::NoRenderPipeline),
            },
        },
{
    match shader_override {
        Some(s) => Ok(s),
        None => match current_pipeline {
            Some(p) => Ok(p),
            None => Err(RenderError::NoRenderPipeline),
        },
    }
}

/// How many render errors in a row are reported before the rest are
/// silenced.
pub const MAX_REPORTED_ERRORS: u32 = 5;

/// Counts the render errors reported since the last good frame.
pub struct ErrorReporter {
    printed_errors: u32,
}

impl ErrorReporter {
    /// The number of errors reported since the last good frame.
    pub closed spec fn printed(self) -> u32 {
        self.printed_errors
    }

    /// No error reported yet.
    pub fn new() -> (r: ErrorReporter)
        ensures
            r.printed() == 0,
    {
        ErrorReporter { printed_errors: 0 }
    }

    /// Records the outcome of a frame; returns whether its error is to be
    /// reported. A good frame resets the count; of consecutive failed
    /// frames only the first five are reported.
    pub fn record(&mut self, failed: bool) -> (report: bool)
        requires
            old(self).printed() <= MAX_REPORTED_ERRORS,
        ensures
            report == (failed && old(self).printed() < MAX_REPORTED_ERRORS),
            final(self).printed() == if !failed {
                0
            } else if report {
                (old(self).printed() + 1) as u32
            } else {
                old(self).printed()
            },
            final(self).printed() <= MAX_REPORTED_ERRORS,
    {
        if failed {
            if self.printed_errors < MAX_REPORTED_ERRORS {
                self.printed_errors += 1;
                return true;
            }
            return false;
        }
        self.printed_errors = 0;
        false
    }
}

/// How frames are presented to the screen.
#[derive(Clone, Copy, PartialEq, Eq, Structural, Debug)]
pub enum PresentMode {
    AutoVsync,
    AutoNoVsync,
    Fifo,
    FifoRelaxed,
    Immediate,
    Mailbox,
}

/// The present mode chosen from those the surface supports: mailbox, else
/// immediate, else the first supported one, else FIFO.
pub open spec fn chosen_present_mode(modes: Seq<PresentMode>) -> PresentMode {
    if modes.contains(PresentMode::Mailbox) {
        PresentMode::Mailbox
    } else if modes.contains(PresentMode::Immediate) {
        PresentMode::Immediate
    } else if modes.len() > 0 {
        modes[0]
    } else {
        PresentMode::Fifo
    }
}

fn contains_mode(modes: &[PresentMode], m: PresentMode) -> (r: bool)
    ensures
        r == modes@.contains(m),
{
    let mut i: usize = 0;
    while i < modes.len()
        invariant
            0 <= i <= modes@.len(),
            forall|j: int| 0 <= j < i ==> modes@[j] != m,
        decreases modes@.len() - i,
    {
        if modes[i] == m {
            assert(modes@[i as int] == m);
            return true;
        }
        i += 1;
    }
    false
}

/// The present mode for a surface supporting `modes`.
pub fn choose_present_mode(modes: &[PresentMode]) -> (r: PresentMode)
    ensures
        r == chosen_present_mode(modes@),
{
    if contains_mode(modes, PresentMode::Mailbox) {
        PresentMode::Mailbox
    } else if contains_mode(modes, PresentMode::Immediate) {
        PresentMode::Immediate
    } else if modes.len() > 0 {
        modes[0]
    } else {
        PresentMode::Fifo
    }
}

/// How the window surface is configured.
#[derive(Clone, Copy, PartialEq, Eq, Structural, Debug)]
pub struct SurfaceConfig {
    pub format: TextureFormat,
    pub width: u32,
    pub height: u32,
    pub desired_maximum_frame_latency: u32,
    pub present_mode: PresentMode,
}

/// Why the surface could not be configured.
#[derive(Clone, Copy, PartialEq, Eq, Structural, Debug)]
pub enum SurfaceError {
    /// The surface does not offer the sRGB BGRA color format.
    ColorFormatNotAvailable,
}

fn contains_format(formats: &[TextureFormat], f: TextureFormat) -> (r: bool)
    ensures
        r == formats@.contains(f),
{
    let mut i: usize = 0;
    while i < formats.len()
        invariant
            0 <= i <= formats@.len(),
            forall|j: int| 0 <= j < i ==> formats@[j] != f,
        decreases formats@.len() - i,
    {
        if formats[i] == f {
            assert(formats@[i as int] == f);
            return true;
        }
        i += 1;
    }
    false
}

/// The surface configuration for a window of `width` by `height` pixels on a
/// surface supporting `modes` and `formats`: sRGB BGRA, which must be
/// supported, two frames of latency, the chosen present mode.
pub fn configure_surface(width: u32, height: u32, modes: &[PresentMode], formats: &[TextureFormat]) -> (r: Result<SurfaceConfig, SurfaceError>)
    ensures
        formats@.contains(TextureFormat::Bgra8UnormSrgb) ==> r == Ok::<SurfaceConfig, SurfaceError>(SurfaceConfig {
            format: TextureFormat::Bgra8UnormSrgb,
            width,
            height,
            desired_maximum_frame_latency: 2,
            present_mode: chosen_present_mode(modes@),
        }),
        !formats@.contains(TextureFormat::Bgra8UnormSrgb) ==> r == Err::<SurfaceConfig, SurfaceError>(SurfaceError::ColorFormatNotAvailable),
{
    let present_mode = choose_present_mode(modes);
    if !contains_format(formats, TextureFormat::Bgra8UnormSrgb) {
        return Err(SurfaceError::ColorFormatNotAvailable);
    }
    Ok(SurfaceConfig {
        format: TextureFormat::Bgra8UnormSrgb,
        width,
        height,
        desired_maximum_frame_latency: 2,
        present_mode,
    })
}

/// The surface size after a resize to `width` by `height`: each side at
/// least one pixel.
pub fn resize_dimensions(width: u32, height: u32) -> (r: (u32, u32))
    ensures
        r.0 == if width >= 1 { width } else { 1 },
        r.1 == if height >= 1 { height } else { 1 },
{
    let w = if width >= 1 { width } else { 1 };
    let h = if height >= 1 { height } else { 1 };
    (w, h)
}

/// How depth is tested and written by a pipeline.
#[derive(Clone, Copy, PartialEq, Eq, Structural, Debug)]
pub struct DepthState {
    pub format: TextureFormat,
    pub depth_write_enabled: bool,
    /// Fragments nearer than the stored depth pass.
    pub compare_less: bool,
}

/// What a render pipeline is created with, apart from its GPU objects.
pub struct PipelineDesc {
    pub label: String,
    pub vertex_entry: String,
    pub fragment_entry: String,
    /// Whether the mesh vertex layout feeds the vertex stage.
    pub mesh_vertex_buffers: bool,
    pub cull_back_faces: bool,
    pub polygon_mode: PolygonMode,
    pub depth_stencil: Option<DepthState>,
    pub color_format: TextureFormat,
}

/// Describes a render pipeline for a shader.
pub struct RenderPipelineBuilder {
    pub label: String,
    pub is_post_process: bool,
    pub polygon_mode: PolygonMode,
}

impl RenderPipelineBuilder {
    /// The pipeline of a post-processing shader named `name`.
    pub fn post_process(name: &str) -> (r: RenderPipelineBuilder)
        ensures
            r.label@ == name@ + " PostProcess Pipeline"@,
            r.is_post_process,
            r.polygon_mode == PolygonMode::Fill,
    {
        let mut label = name.to_owned();
        label.append(" PostProcess Pipeline");
        RenderPipelineBuilder { label, is_post_process: true, polygon_mode: PolygonMode::Fill }
    }

    /// The pipeline of a 3D shader named `name`.
    pub fn dim3(name: &str, polygon_mode: PolygonMode) -> (r: RenderPipelineBuilder)
        ensures
            r.label@ == name@ + " Pipeline"@,
            !r.is_post_process,
            r.polygon_mode == polygon_mode,
    {
        let mut label = name.to_owned();
        label.append(" Pipeline");
        RenderPipelineBuilder { label, is_post_process: false, polygon_mode }
    }

    /// The pipeline description: entry points `vs_main` and `fs_main`, an
    /// sRGB BGRA color target; for non-post-processing pipelines the mesh
    /// vertex layout, back-face culling and a written `Depth32Float` depth
    /// test that keeps nearer fragments.
    pub fn desc(&self) -> (r: PipelineDesc)
        ensures
            r.label@ == self.label@,
            r.vertex_entry@ == "vs_main"@,
            r.fragment_entry@ == "fs_main"@,
            r.mesh_vertex_buffers == !self.is_post_process,
            r.cull_back_faces == !self.is_post_process,
            r.polygon_mode == self.polygon_mode,
            r.depth_stencil == if self.is_post_process {
                None
            } else {
                Some(DepthState { format: TextureFormat::Depth32Float, depth_write_enabled: true, compare_less: true })
            },
            r.color_format == TextureFormat::Bgra8UnormSrgb,
    {
        let depth_stencil = if !self.is_post_process {
            Some(DepthState { format: TextureFormat::Depth32Float, depth_write_enabled: true, compare_less: true })
        } else {
            None
        };
        PipelineDesc {
            label: self.label.as_str().to_owned(),
            vertex_entry: "vs_main".to_owned(),
            fragment_entry: "fs_main".to_owned(),
            mesh_vertex_buffers: !self.is_post_process,
            cull_back_faces: !self.is_post_process,
            polygon_mode: self.polygon_mode,
            depth_stencil,
            color_format: TextureFormat::Bgra8UnormSrgb,
        }
    }
}

/// Why the next frame could not be started.
#[derive(Clone, Copy, PartialEq, Eq, Structural, Debug)]
pub enum FrameError {
    /// The surface was lost and can be configured again.
    SurfaceLost,
    /// The GPU ran out of memory.
    OutOfMemory,
    /// Any other surface failure.
    Other,
}

/// What the renderer does after trying to start a frame.
#[derive(Clone, Copy, PartialEq, Eq, Structural, Debug)]
pub enum FrameAction {
    /// Draw the frame.
    Render,
    /// Configure the surface again, drop this frame, keep running.
    ResizeAndSkip,
    /// Stop rendering.
    Stop,
}

/// The reaction to the outcome of starting a frame: draw it; after a lost
/// surface reconfigure and keep going; after any other error stop.
pub fn frame_action(error: Option<FrameError>) -> (r: FrameAction)
    ensures
        r == match error {
            None => FrameAction::Render,
            Some(FrameError::SurfaceLost) => FrameAction::ResizeAndSkip,
            Some(_) => FrameAction::Stop,
        },
{
    match error {
        None => FrameAction::Render,
        Some(FrameError::SurfaceLost) => FrameAction::ResizeAndSkip,
        Some(_) => FrameAction::Stop,
    }
}

/// How a render pass starts with what is already in its targets.
#[derive(Clone, Copy, PartialEq, Eq, Structural, Debug)]
pub enum LoadAction {
    /// Keep the previous contents.
    Load,
    /// Clear color to black and depth to the far plane.
    Clear,
}

/// The load actions for color and depth: shaders that draw over the scene
/// keep both, others clear both.
pub fn draw_over_load_actions(draw_over: bool) -> (r: (LoadAction, LoadAction))
    ensures
        r == if draw_over { (LoadAction::Load, LoadAction::Load) } else { (LoadAction::Clear, LoadAction::Clear) },
{
    if draw_over {
        (LoadAction::Load, LoadAction::Load)
    } else {
        (LoadAction::Clear, LoadAction::Clear)
    }
}

} // verus!
