//! Lightweight per-frame render graph.
//!
//! Tracks image layouts across declared passes and decides which image
//! barriers have to be recorded between them.  The graph only decides: the
//! caller records the barriers that `begin_pass` / `end_pass` hand back.
use vstd::prelude::*;

verus! {

/// Image layouts the engine moves its images through.
#[derive(Debug, Clone, Copy, PartialEq, Eq, Structural)]
pub enum ImageLayout {
    Undefined,
    General,
    ColorAttachmentOptimal,
    DepthStencilAttachmentOptimal,
    ShaderReadOnlyOptimal,
    TransferSrcOptimal,
    TransferDstOptimal,
    PresentSrc,
}

// Pipeline stage bits (values of `VkPipelineStageFlagBits`).
pub const STAGE_NONE: u32 = 0;
pub const STAGE_TOP_OF_PIPE: u32 = 0x1;
pub const STAGE_FRAGMENT_SHADER: u32 = 0x80;
pub const STAGE_EARLY_FRAGMENT_TESTS: u32 = 0x100;
pub const STAGE_LATE_FRAGMENT_TESTS: u32 = 0x200;
pub const STAGE_COLOR_ATTACHMENT_OUTPUT: u32 = 0x400;
pub const STAGE_TRANSFER: u32 = 0x1000;
pub const STAGE_BOTTOM_OF_PIPE: u32 = 0x2000;

// Memory access bits (values of `VkAccessFlagBits`).
pub const ACCESS_NONE: u32 = 0;
pub const ACCESS_SHADER_READ: u32 = 0x20;
pub const ACCESS_COLOR_ATTACHMENT_WRITE: u32 = 0x100;
pub const ACCESS_DEPTH_STENCIL_ATTACHMENT_READ: u32 = 0x200;
pub const ACCESS_DEPTH_STENCIL_ATTACHMENT_WRITE: u32 = 0x400;
pub const ACCESS_TRANSFER_READ: u32 = 0x800;
pub const ACCESS_TRANSFER_WRITE: u32 = 0x1000;

// Image aspect bits (values of `VkImageAspectFlagBits`).
pub const ASPECT_COLOR: u32 = 0x1;
pub const ASPECT_DEPTH: u32 = 0x2;
pub const ASPECT_STENCIL: u32 = 0x4;

/// Opaque handle for a resource registered with the render graph.
#[derive(Debug, Clone, Copy, PartialEq, Eq, Hash, Structural)]
pub struct ResourceId(usize);

impl ResourceId {
    /// Index of the resource in registration order.
    pub closed spec fn index(self) -> usize {
        self.0
    }
}

/// Describes how a single pass accesses one image resource.
///
/// Two barriers may be generated:
/// - **Enter**: current layout → `required_layout`, decided by `begin_pass`.
/// - **Exit**: `required_layout` → `final_layout`, decided by `end_pass`
///   (only when `final_layout != required_layout`).
#[derive(Debug, Clone, Copy, PartialEq, Eq, Structural)]
pub struct ResourceAccess {
    /// Layout the resource must be in when the pass begins drawing.
    pub required_layout: ImageLayout,
    /// Layout the resource is in when the pass finishes drawing.
    pub final_layout: ImageLayout,
    pub enter_src_stage: u32,
    pub enter_dst_stage: u32,
    pub enter_src_access: u32,
    pub enter_dst_access: u32,
    pub exit_src_stage: u32,
    pub exit_dst_stage: u32,
    pub exit_src_access: u32,
    pub exit_dst_access: u32,
}

/// A color image transitioning from UNDEFINED to COLOR_ATTACHMENT_OPTIMAL.
pub open spec fn spec_color_init() -> ResourceAccess {
    ResourceAccess {
        required_layout: ImageLayout::ColorAttachmentOptimal,
        final_layout: ImageLayout::ColorAttachmentOptimal,
        enter_src_stage: STAGE_TOP_OF_PIPE,
        enter_dst_stage: STAGE_COLOR_ATTACHMENT_OUTPUT,
        enter_src_access: ACCESS_NONE,
        enter_dst_access: ACCESS_COLOR_ATTACHMENT_WRITE,
        exit_src_stage: STAGE_NONE,
        exit_dst_stage: STAGE_NONE,
        exit_src_access: ACCESS_NONE,
        exit_dst_access: ACCESS_NONE,
    }
}

/// A depth image transitioning from UNDEFINED to DEPTH_STENCIL_ATTACHMENT_OPTIMAL.
pub open spec fn spec_depth_init() -> ResourceAccess {
    ResourceAccess {
        required_layout: ImageLayout::DepthStencilAttachmentOptimal,
        final_layout: ImageLayout::DepthStencilAttachmentOptimal,
        enter_src_stage: STAGE_TOP_OF_PIPE,
        enter_dst_stage: STAGE_EARLY_FRAGMENT_TESTS | STAGE_LATE_FRAGMENT_TESTS,
        enter_src_access: ACCESS_NONE,
        enter_dst_access: ACCESS_DEPTH_STENCIL_ATTACHMENT_READ
            | ACCESS_DEPTH_STENCIL_ATTACHMENT_WRITE,
        exit_src_stage: STAGE_NONE,
        exit_dst_stage: STAGE_NONE,
        exit_src_access: ACCESS_NONE,
        exit_dst_access: ACCESS_NONE,
    }
}

/// Shadow map written as depth attachment, then moved to SHADER_READ_ONLY
/// after the pass so the main pass can sample it.
pub open spec fn spec_shadow_write() -> ResourceAccess {
    ResourceAccess {
        required_layout: ImageLayout::DepthStencilAttachmentOptimal,
        final_layout: ImageLayout::ShaderReadOnlyOptimal,
        enter_src_stage: STAGE_FRAGMENT_SHADER,
        enter_dst_stage: STAGE_EARLY_FRAGMENT_TESTS | STAGE_LATE_FRAGMENT_TESTS,
        enter_src_access: ACCESS_SHADER_READ,
        enter_dst_access: ACCESS_DEPTH_STENCIL_ATTACHMENT_READ
            | ACCESS_DEPTH_STENCIL_ATTACHMENT_WRITE,
        exit_src_stage: STAGE_EARLY_FRAGMENT_TESTS | STAGE_LATE_FRAGMENT_TESTS,
        exit_dst_stage: STAGE_FRAGMENT_SHADER,
        exit_src_access: ACCESS_DEPTH_STENCIL_ATTACHMENT_WRITE,
        exit_dst_access: ACCESS_SHADER_READ,
    }
}

/// Resource sampled in the fragment shader, stays in SHADER_READ_ONLY.
pub open spec fn spec_shader_read() -> ResourceAccess {
    ResourceAccess {
        required_layout: ImageLayout::ShaderReadOnlyOptimal,
        final_layout: ImageLayout::ShaderReadOnlyOptimal,
        enter_src_stage: STAGE_LATE_FRAGMENT_TESTS,
        enter_dst_stage: STAGE_FRAGMENT_SHADER,
        enter_src_access: ACCESS_DEPTH_STENCIL_ATTACHMENT_WRITE,
        enter_dst_access: ACCESS_SHADER_READ,
        exit_src_stage: STAGE_NONE,
        exit_dst_stage: STAGE_NONE,
        exit_src_access: ACCESS_NONE,
        exit_dst_access: ACCESS_NONE,
    }
}

/// A color image used as COLOR_ATTACHMENT with LOAD_OP_LOAD (stays COLOR_ATTACHMENT).
pub open spec fn spec_color_attachment() -> ResourceAccess {
    ResourceAccess {
        required_layout: ImageLayout::ColorAttachmentOptimal,
        final_layout: ImageLayout::ColorAttachmentOptimal,
        enter_src_stage: STAGE_COLOR_ATTACHMENT_OUTPUT,
        enter_dst_stage: STAGE_COLOR_ATTACHMENT_OUTPUT,
        enter_src_access: ACCESS_COLOR_ATTACHMENT_WRITE,
        enter_dst_access: ACCESS_COLOR_ATTACHMENT_WRITE,
        exit_src_stage: STAGE_NONE,
        exit_dst_stage: STAGE_NONE,
        exit_src_access: ACCESS_NONE,
        exit_dst_access: ACCESS_NONE,
    }
}

/// Write to a color attachment, then move to SHADER_READ_ONLY after the pass.
pub open spec fn spec_color_attachment_to_read() -> ResourceAccess {
    ResourceAccess {
        required_layout: ImageLayout::ColorAttachmentOptimal,
        final_layout: ImageLayout::ShaderReadOnlyOptimal,
        enter_src_stage: STAGE_TOP_OF_PIPE,
        enter_dst_stage: STAGE_COLOR_ATTACHMENT_OUTPUT,
        enter_src_access: ACCESS_NONE,
        enter_dst_access: ACCESS_COLOR_ATTACHMENT_WRITE,
        exit_src_stage: STAGE_COLOR_ATTACHMENT_OUTPUT,
        exit_dst_stage: STAGE_FRAGMENT_SHADER,
        exit_src_access: ACCESS_COLOR_ATTACHMENT_WRITE,
        exit_dst_access: ACCESS_SHADER_READ,
    }
}

/// Overwrite a bloom level that is currently SHADER_READ_ONLY.
pub open spec fn spec_bloom_overwrite() -> ResourceAccess {
    ResourceAccess {
        required_layout: ImageLayout::ColorAttachmentOptimal,
        final_layout: ImageLayout::ShaderReadOnlyOptimal,
        enter_src_stage: STAGE_FRAGMENT_SHADER,
        enter_dst_stage: STAGE_COLOR_ATTACHMENT_OUTPUT,
        enter_src_access: ACCESS_SHADER_READ,
        enter_dst_access: ACCESS_COLOR_ATTACHMENT_WRITE,
        exit_src_stage: STAGE_COLOR_ATTACHMENT_OUTPUT,
        exit_dst_stage: STAGE_FRAGMENT_SHADER,
        exit_src_access: ACCESS_COLOR_ATTACHMENT_WRITE,
        exit_dst_access: ACCESS_SHADER_READ,
    }
}

/// Sample a color image that is already SHADER_READ_ONLY.
pub open spec fn spec_color_shader_read() -> ResourceAccess {
    ResourceAccess {
        required_layout: ImageLayout::ShaderReadOnlyOptimal,
        final_layout: ImageLayout::ShaderReadOnlyOptimal,
        enter_src_stage: STAGE_COLOR_ATTACHMENT_OUTPUT,
        enter_dst_stage: STAGE_FRAGMENT_SHADER,
        enter_src_access: ACCESS_COLOR_ATTACHMENT_WRITE,
        enter_dst_access: ACCESS_SHADER_READ,
        exit_src_stage: STAGE_NONE,
        exit_dst_stage: STAGE_NONE,
        exit_src_access: ACCESS_NONE,
        exit_dst_access: ACCESS_NONE,
    }
}

/// Swapchain image moving from COLOR_ATTACHMENT to PRESENT_SRC at frame end.
pub open spec fn spec_present() -> ResourceAccess {
    ResourceAccess {
        required_layout: ImageLayout::PresentSrc,
        final_layout: ImageLayout::PresentSrc,
        enter_src_stage: STAGE_COLOR_ATTACHMENT_OUTPUT,
        enter_dst_stage: STAGE_BOTTOM_OF_PIPE,
        enter_src_access: ACCESS_COLOR_ATTACHMENT_WRITE,
        enter_dst_access: ACCESS_NONE,
        exit_src_stage: STAGE_NONE,
        exit_dst_stage: STAGE_NONE,
        exit_src_access: ACCESS_NONE,
        exit_dst_access: ACCESS_NONE,
    }
}

impl ResourceAccess {
    /// A color image transitioning from UNDEFINED to COLOR_ATTACHMENT_OPTIMAL.
    pub fn color_init() -> (r: Self)
        ensures
            r == spec_color_init(),
    {
        ResourceAccess {
            required_layout: ImageLayout::ColorAttachmentOptimal,
            final_layout: ImageLayout::ColorAttachmentOptimal,
            enter_src_stage: STAGE_TOP_OF_PIPE,
            enter_dst_stage: STAGE_COLOR_ATTACHMENT_OUTPUT,
            enter_src_access: ACCESS_NONE,
            enter_dst_access: ACCESS_COLOR_ATTACHMENT_WRITE,
            exit_src_stage: STAGE_NONE,
            exit_dst_stage: STAGE_NONE,
            exit_src_access: ACCESS_NONE,
            exit_dst_access: ACCESS_NONE,
        }
    }

    /// A depth image transitioning from UNDEFINED to DEPTH_STENCIL_ATTACHMENT_OPTIMAL.
    pub fn depth_init() -> (r: Self)
        ensures
            r == spec_depth_init(),
    {
        ResourceAccess {
            required_layout: ImageLayout::DepthStencilAttachmentOptimal,
            final_layout: ImageLayout::DepthStencilAttachmentOptimal,
            enter_src_stage: STAGE_TOP_OF_PIPE,
            enter_dst_stage: STAGE_EARLY_FRAGMENT_TESTS | STAGE_LATE_FRAGMENT_TESTS,
            enter_src_access: ACCESS_NONE,
            enter_dst_access: ACCESS_DEPTH_STENCIL_ATTACHMENT_READ
                | ACCESS_DEPTH_STENCIL_ATTACHMENT_WRITE,
            exit_src_stage: STAGE_NONE,
            exit_dst_stage: STAGE_NONE,
            exit_src_access: ACCESS_NONE,
            exit_dst_access: ACCESS_NONE,
        }
    }

    /// Shadow map written as depth attachment, then moved to SHADER_READ_ONLY
    /// after the pass so the main pass can sample it.
    pub fn shadow_write() -> (r: Self)
        ensures
            r == spec_shadow_write(),
    {
        ResourceAccess {
            required_layout: ImageLayout::DepthStencilAttachmentOptimal,
            final_layout: ImageLayout::ShaderReadOnlyOptimal,
            enter_src_stage: STAGE_FRAGMENT_SHADER,
            enter_dst_stage: STAGE_EARLY_FRAGMENT_TESTS | STAGE_LATE_FRAGMENT_TESTS,
            enter_src_access: ACCESS_SHADER_READ,
            enter_dst_access: ACCESS_DEPTH_STENCIL_ATTACHMENT_READ
                | ACCESS_DEPTH_STENCIL_ATTACHMENT_WRITE,
            exit_src_stage: STAGE_EARLY_FRAGMENT_TESTS | STAGE_LATE_FRAGMENT_TESTS,
            exit_dst_stage: STAGE_FRAGMENT_SHADER,
            exit_src_access: ACCESS_DEPTH_STENCIL_ATTACHMENT_WRITE,
            exit_dst_access: ACCESS_SHADER_READ,
        }
    }

    /// Resource sampled in the fragment shader, stays in SHADER_READ_ONLY.
    pub fn shader_read() -> (r: Self)
        ensures
            r == spec_shader_read(),
    {
        ResourceAccess {
            required_layout: ImageLayout::ShaderReadOnlyOptimal,
            final_layout: ImageLayout::ShaderReadOnlyOptimal,
            enter_src_stage: STAGE_LATE_FRAGMENT_TESTS,
            enter_dst_stage: STAGE_FRAGMENT_SHADER,
            enter_src_access: ACCESS_DEPTH_STENCIL_ATTACHMENT_WRITE,
            enter_dst_access: ACCESS_SHADER_READ,
            exit_src_stage: STAGE_NONE,
            exit_dst_stage: STAGE_NONE,
            exit_src_access: ACCESS_NONE,
            exit_dst_access: ACCESS_NONE,
        }
    }

    /// A color image used as COLOR_ATTACHMENT with LOAD_OP_LOAD (stays COLOR_ATTACHMENT).
    pub fn color_attachment() -> (r: Self)
        ensures
            r == spec_color_attachment(),
    {
        ResourceAccess {
            required_layout: ImageLayout::ColorAttachmentOptimal,
            final_layout: ImageLayout::ColorAttachmentOptimal,
            enter_src_stage: STAGE_COLOR_ATTACHMENT_OUTPUT,
            enter_dst_stage: STAGE_COLOR_ATTACHMENT_OUTPUT,
            enter_src_access: ACCESS_COLOR_ATTACHMENT_WRITE,
            enter_dst_access: ACCESS_COLOR_ATTACHMENT_WRITE,
            exit_src_stage: STAGE_NONE,
            exit_dst_stage: STAGE_NONE,
            exit_src_access: ACCESS_NONE,
            exit_dst_access: ACCESS_NONE,
        }
    }

    /// Write to a color attachment, then move to SHADER_READ_ONLY after the pass.
    pub fn color_attachment_to_read() -> (r: Self)
        ensures
            r == spec_color_attachment_to_read(),
    {
        ResourceAccess {
            required_layout: ImageLayout::ColorAttachmentOptimal,
            final_layout: ImageLayout::ShaderReadOnlyOptimal,
            enter_src_stage: STAGE_TOP_OF_PIPE,
            enter_dst_stage: STAGE_COLOR_ATTACHMENT_OUTPUT,
            enter_src_access: ACCESS_NONE,
            enter_dst_access: ACCESS_COLOR_ATTACHMENT_WRITE,
            exit_src_stage: STAGE_COLOR_ATTACHMENT_OUTPUT,
            exit_dst_stage: STAGE_FRAGMENT_SHADER,
            exit_src_access: ACCESS_COLOR_ATTACHMENT_WRITE,
            exit_dst_access: ACCESS_SHADER_READ,
        }
    }

    /// Overwrite a bloom level that is currently SHADER_READ_ONLY.
    pub fn bloom_overwrite() -> (r: Self)
        ensures
            r == spec_bloom_overwrite(),
    {
        ResourceAccess {
            required_layout: ImageLayout::ColorAttachmentOptimal,
            final_layout: ImageLayout::ShaderReadOnlyOptimal,
            enter_src_stage: STAGE_FRAGMENT_SHADER,
            enter_dst_stage: STAGE_COLOR_ATTACHMENT_OUTPUT,
            enter_src_access: ACCESS_SHADER_READ,
            enter_dst_access: ACCESS_COLOR_ATTACHMENT_WRITE,
            exit_src_stage: STAGE_COLOR_ATTACHMENT_OUTPUT,
            exit_dst_stage: STAGE_FRAGMENT_SHADER,
            exit_src_access: ACCESS_COLOR_ATTACHMENT_WRITE,
            exit_dst_access: ACCESS_SHADER_READ,
        }
    }

    /// Sample a color image that is already SHADER_READ_ONLY.
    pub fn color_shader_read() -> (r: Self)
        ensures
            r == spec_color_shader_read(),
    {
        ResourceAccess {
            required_layout: ImageLayout::ShaderReadOnlyOptimal,
            final_layout: ImageLayout::ShaderReadOnlyOptimal,
            enter_src_stage: STAGE_COLOR_ATTACHMENT_OUTPUT,
            enter_dst_stage: STAGE_FRAGMENT_SHADER,
            enter_src_access: ACCESS_COLOR_ATTACHMENT_WRITE,
            enter_dst_access: ACCESS_SHADER_READ,
            exit_src_stage: STAGE_NONE,
            exit_dst_stage: STAGE_NONE,
            exit_src_access: ACCESS_NONE,
            exit_dst_access: ACCESS_NONE,
        }
    }

    /// Swapchain image moving from COLOR_ATTACHMENT to PRESENT_SRC at frame end.
    pub fn present() -> (r: Self)
        ensures
            r == spec_present(),
            r.required_layout == ImageLayout::PresentSrc,
            r.enter_src_stage == STAGE_COLOR_ATTACHMENT_OUTPUT,
            r.enter_src_access == ACCESS_COLOR_ATTACHMENT_WRITE,
    {
        ResourceAccess {
            required_layout: ImageLayout::PresentSrc,
            final_layout: ImageLayout::PresentSrc,
            enter_src_stage: STAGE_COLOR_ATTACHMENT_OUTPUT,
            enter_dst_stage: STAGE_BOTTOM_OF_PIPE,
            enter_src_access: ACCESS_COLOR_ATTACHMENT_WRITE,
            enter_dst_access: ACCESS_NONE,
            exit_src_stage: STAGE_NONE,
            exit_dst_stage: STAGE_NONE,
            exit_src_access: ACCESS_NONE,
            exit_dst_access: ACCESS_NONE,
        }
    }
}

/// The barrier source waits for colour-attachment writes: it names the
/// colour-attachment-output stage and makes colour-attachment writes
/// available.
pub open spec fn waits_for_color_writes(src_stage: u32, src_access: u32) -> bool {
    src_stage == STAGE_COLOR_ATTACHMENT_OUTPUT && src_access == ACCESS_COLOR_ATTACHMENT_WRITE
}

/// Every transition out of an image the frame wrote as a colour attachment
/// waits for those writes:
/// - presenting moves the swapchain image to PRESENT_SRC only after the
///   frame's colour output (and nothing waits on it afterwards but the end
///   of the pipe);
/// - a colour attachment loaded again, and a colour image sampled after
///   being rendered, wait for the earlier colour writes on entry;
/// - an attachment that is sampled after the pass leaves COLOR_ATTACHMENT
///   only after the pass's colour writes, for the fragment shader's reads.
/// Only first uses (from UNDEFINED) and images last read or written as depth
/// wait for something else.
pub proof fn lemma_color_writes_are_waited_for()
    ensures
        spec_present().required_layout == ImageLayout::PresentSrc,
        spec_present().final_layout == ImageLayout::PresentSrc,
        waits_for_color_writes(spec_present().enter_src_stage, spec_present().enter_src_access),
        spec_present().enter_dst_stage == STAGE_BOTTOM_OF_PIPE,
        spec_present().enter_dst_access == ACCESS_NONE,
        waits_for_color_writes(
            spec_color_attachment().enter_src_stage,
            spec_color_attachment().enter_src_access,
        ),
        waits_for_color_writes(
            spec_color_shader_read().enter_src_stage,
            spec_color_shader_read().enter_src_access,
        ),
        spec_color_attachment_to_read().required_layout == ImageLayout::ColorAttachmentOptimal,
        spec_color_attachment_to_read().final_layout == ImageLayout::ShaderReadOnlyOptimal,
        waits_for_color_writes(
            spec_color_attachment_to_read().exit_src_stage,
            spec_color_attachment_to_read().exit_src_access,
        ),
        spec_color_attachment_to_read().exit_dst_stage == STAGE_FRAGMENT_SHADER,
        spec_color_attachment_to_read().exit_dst_access == ACCESS_SHADER_READ,
        spec_bloom_overwrite().required_layout == ImageLayout::ColorAttachmentOptimal,
        waits_for_color_writes(
            spec_bloom_overwrite().exit_src_stage,
            spec_bloom_overwrite().exit_src_access,
        ),
        spec_bloom_overwrite().exit_dst_stage == STAGE_FRAGMENT_SHADER,
        spec_bloom_overwrite().exit_dst_access == ACCESS_SHADER_READ,
{
}

/// Depth writes are waited for the same way: sampling the shadow map waits
/// for the late depth tests' writes, and the shadow pass hands its depth
/// image to the fragment shader only after its depth writes.  First uses
/// from UNDEFINED wait for nothing (top of pipe, no access) but block the
/// stage that writes them; and every pass that writes an attachment names
/// the stage and access of that write as its barrier's destination.
pub proof fn lemma_depth_writes_and_first_uses()
    ensures
        spec_shader_read().enter_src_stage == STAGE_LATE_FRAGMENT_TESTS,
        spec_shader_read().enter_src_access == ACCESS_DEPTH_STENCIL_ATTACHMENT_WRITE,
        spec_shader_read().enter_dst_stage == STAGE_FRAGMENT_SHADER,
        spec_shader_read().enter_dst_access == ACCESS_SHADER_READ,
        spec_shadow_write().required_layout == ImageLayout::DepthStencilAttachmentOptimal,
        spec_shadow_write().final_layout == ImageLayout::ShaderReadOnlyOptimal,
        spec_shadow_write().exit_src_stage == STAGE_EARLY_FRAGMENT_TESTS | STAGE_LATE_FRAGMENT_TESTS,
        spec_shadow_write().exit_src_access == ACCESS_DEPTH_STENCIL_ATTACHMENT_WRITE,
        spec_shadow_write().exit_dst_stage == STAGE_FRAGMENT_SHADER,
        spec_shadow_write().exit_dst_access == ACCESS_SHADER_READ,
        spec_shadow_write().enter_src_stage == STAGE_FRAGMENT_SHADER,
        spec_shadow_write().enter_src_access == ACCESS_SHADER_READ,
        spec_color_init().enter_src_stage == STAGE_TOP_OF_PIPE,
        spec_color_init().enter_src_access == ACCESS_NONE,
        spec_color_init().enter_dst_stage == STAGE_COLOR_ATTACHMENT_OUTPUT,
        spec_color_init().enter_dst_access == ACCESS_COLOR_ATTACHMENT_WRITE,
        spec_color_attachment_to_read().enter_src_stage == STAGE_TOP_OF_PIPE,
        spec_color_attachment_to_read().enter_dst_access == ACCESS_COLOR_ATTACHMENT_WRITE,
        spec_depth_init().enter_src_stage == STAGE_TOP_OF_PIPE,
        spec_depth_init().enter_src_access == ACCESS_NONE,
        spec_depth_init().enter_dst_stage == STAGE_EARLY_FRAGMENT_TESTS | STAGE_LATE_FRAGMENT_TESTS,
        spec_depth_init().enter_dst_access == ACCESS_DEPTH_STENCIL_ATTACHMENT_READ
            | ACCESS_DEPTH_STENCIL_ATTACHMENT_WRITE,
        spec_bloom_overwrite().enter_src_stage == STAGE_FRAGMENT_SHADER,
        spec_bloom_overwrite().enter_src_access == ACCESS_SHADER_READ,
        spec_bloom_overwrite().enter_dst_access == ACCESS_COLOR_ATTACHMENT_WRITE,
        spec_color_attachment().enter_dst_access == ACCESS_COLOR_ATTACHMENT_WRITE,
{
}

/// An image registered with the graph: its handle, aspect and tracked layout.
#[derive(Debug, Clone, Copy, PartialEq, Eq, Structural)]
pub struct TrackedImage {
    /// Raw image handle (as handed over by the caller).
    pub raw: u64,
    /// Aspect bits used in barrier subresource ranges.
    pub aspect: u32,
    /// Layout the image is currently in.
    pub layout: ImageLayout,
}

/// One image memory barrier the caller must record.
#[derive(Debug, Clone, Copy, PartialEq, Eq, Structural)]
pub struct ImageBarrier {
    pub src_access: u32,
    pub dst_access: u32,
    pub old_layout: ImageLayout,
    pub new_layout: ImageLayout,
    pub image: u64,
    pub aspect: u32,
}

/// A batch of barriers to be recorded with one pipeline-barrier command.
/// An empty `barriers` list means that no command is recorded.
pub struct BarrierBatch {
    pub src_stage: u32,
    pub dst_stage: u32,
    pub barriers: Vec<ImageBarrier>,
}

/// Mathematical model of a barrier batch.
pub struct BatchView {
    pub src_stage: u32,
    pub dst_stage: u32,
    pub barriers: Seq<ImageBarrier>,
}

impl View for BarrierBatch {
    type V = BatchView;

    open spec fn view(&self) -> BatchView {
        BatchView { src_stage: self.src_stage, dst_stage: self.dst_stage, barriers: self.barriers@ }
    }
}

/// Errors found by `RenderGraph::compile`.
#[derive(Debug, Clone, Copy)]
pub enum GraphError {
    /// A pass names a resource that was never registered.
    ResourceOutOfRange { pass: usize, pass_name: &'static str, resource: usize, resource_count: usize },
    /// A pass samples a resource (SHADER_READ_ONLY) that is still UNDEFINED:
    /// no earlier pass produces it.
    UnproducedRead { pass: usize, pass_name: &'static str, resource: usize },
}

struct PassNode {
    name: &'static str,
    /// (resource index, access descriptor)
    accesses: Vec<(usize, ResourceAccess)>,
}

/// Mathematical model of a declared pass.
pub struct PassView {
    pub name: &'static str,
    pub accesses: Seq<(usize, ResourceAccess)>,
}

/// Mathematical model of a render graph.
pub struct GraphView {
    pub images: Seq<TrackedImage>,
    pub passes: Seq<PassView>,
    /// Index of the pass executed by the next `begin_pass`/`end_pass`.
    pub cursor: nat,
}

impl PassNode {
    spec fn view(&self) -> PassView {
        PassView { name: self.name, accesses: self.accesses@ }
    }
}

pub struct RenderGraph {
    images: Vec<TrackedImage>,
    passes: Vec<PassNode>,
    cursor: usize,
}

impl View for RenderGraph {
    type V = GraphView;

    closed spec fn view(&self) -> GraphView {
        GraphView {
            images: self.images@,
            passes: self.passes@.map_values(|p: PassNode| p.view()),
            cursor: self.cursor as nat,
        }
    }
}

// ---------------------------------------------------------------------------
// Specification of layout simulation and barrier decisions
// ---------------------------------------------------------------------------

/// The layouts of a sequence of tracked images.
pub open spec fn layouts_of(images: Seq<TrackedImage>) -> Seq<ImageLayout> {
    images.map_values(|t: TrackedImage| t.layout)
}

/// One simulated access: check it, then advance the resource's layout.
pub open spec fn access_step(
    layouts: Seq<ImageLayout>,
    pass: usize,
    name: &'static str,
    a: (usize, ResourceAccess),
) -> Result<Seq<ImageLayout>, GraphError> {
    if a.0 >= layouts.len() {
        Err(
            GraphError::ResourceOutOfRange {
                pass,
                pass_name: name,
                resource: a.0,
                resource_count: layouts.len() as usize,
            },
        )
    } else if a.1.required_layout == ImageLayout::ShaderReadOnlyOptimal && layouts[a.0 as int]
        == ImageLayout::Undefined {
        Err(GraphError::UnproducedRead { pass, pass_name: name, resource: a.0 })
    } else {
        Ok(layouts.update(a.0 as int, a.1.final_layout))
    }
}

/// Simulate the accesses of one pass, in order, stopping at the first error.
pub open spec fn simulate_accesses(
    layouts: Seq<ImageLayout>,
    pass: usize,
    name: &'static str,
    accs: Seq<(usize, ResourceAccess)>,
) -> Result<Seq<ImageLayout>, GraphError>
    decreases accs.len(),
{
    if accs.len() == 0 {
        Ok(layouts)
    } else {
        match simulate_accesses(layouts, pass, name, accs.drop_last()) {
            Ok(l) => access_step(l, pass, name, accs.last()),
            Err(e) => Err(e),
        }
    }
}

/// Simulate all passes, in declaration order, stopping at the first error.
pub open spec fn simulate(layouts: Seq<ImageLayout>, passes: Seq<PassView>) -> Result<
    Seq<ImageLayout>,
    GraphError,
>
    decreases passes.len(),
{
    if passes.len() == 0 {
        Ok(layouts)
    } else {
        match simulate(layouts, passes.drop_last()) {
            Ok(l) => simulate_accesses(
                l,
                (passes.len() - 1) as usize,
                passes.last().name,
                passes.last().accesses,
            ),
            Err(e) => Err(e),
        }
    }
}

/// Every access of `accs` names a resource below `n`.
pub open spec fn accesses_in_range(accs: Seq<(usize, ResourceAccess)>, n: nat) -> bool {
    forall|j: int| 0 <= j < accs.len() ==> (#[trigger] accs[j]).0 < n
}

/// The enter barriers of a pass, given the tracked images before it begins.
pub open spec fn enter_batch(images: Seq<TrackedImage>, accs: Seq<(usize, ResourceAccess)>) -> BatchView
    decreases accs.len(),
{
    if accs.len() == 0 {
        BatchView { src_stage: 0, dst_stage: 0, barriers: Seq::empty() }
    } else {
        let b = enter_batch(images, accs.drop_last());
        let a = accs.last();
        let img = images[a.0 as int];
        if img.layout == a.1.required_layout {
            b
        } else {
            BatchView {
                src_stage: b.src_stage | a.1.enter_src_stage,
                dst_stage: b.dst_stage | a.1.enter_dst_stage,
                barriers: b.barriers.push(
                    ImageBarrier {
                        src_access: a.1.enter_src_access,
                        dst_access: a.1.enter_dst_access,
                        old_layout: img.layout,
                        new_layout: a.1.required_layout,
                        image: img.raw,
                        aspect: img.aspect,
                    },
                ),
            }
        }
    }
}

/// The exit barriers of a pass: one for each access that changes layout.
pub open spec fn exit_batch(images: Seq<TrackedImage>, accs: Seq<(usize, ResourceAccess)>) -> BatchView
    decreases accs.len(),
{
    if accs.len() == 0 {
        BatchView { src_stage: 0, dst_stage: 0, barriers: Seq::empty() }
    } else {
        let b = exit_batch(images, accs.drop_last());
        let a = accs.last();
        let img = images[a.0 as int];
        if a.1.required_layout != a.1.final_layout {
            BatchView {
                src_stage: b.src_stage | a.1.exit_src_stage,
                dst_stage: b.dst_stage | a.1.exit_dst_stage,
                barriers: b.barriers.push(
                    ImageBarrier {
                        src_access: a.1.exit_src_access,
                        dst_access: a.1.exit_dst_access,
                        old_layout: a.1.required_layout,
                        new_layout: a.1.final_layout,
                        image: img.raw,
                        aspect: img.aspect,
                    },
                ),
            }
        } else {
            b
        }
    }
}

/// Tracked images after a pass: each accessed image takes the access's final
/// layout (a later access to the same image wins).
pub open spec fn apply_finals(images: Seq<TrackedImage>, accs: Seq<(usize, ResourceAccess)>) -> Seq<
    TrackedImage,
>
    decreases accs.len(),
{
    if accs.len() == 0 {
        images
    } else {
        let imgs = apply_finals(images, accs.drop_last());
        let a = accs.last();
        if a.0 < imgs.len() {
            imgs.update(a.0 as int, TrackedImage { layout: a.1.final_layout, ..imgs[a.0 as int] })
        } else {
            imgs
        }
    }
}

/// Tracked images after executing all `passes` with `end_pass`.
pub open spec fn execute_all(images: Seq<TrackedImage>, passes: Seq<PassView>) -> Seq<TrackedImage>
    decreases passes.len(),
{
    if passes.len() == 0 {
        images
    } else {
        apply_finals(execute_all(images, passes.drop_last()), passes.last().accesses)
    }
}

// ---------------------------------------------------------------------------
// Lemmas
// ---------------------------------------------------------------------------

proof fn lemma_accesses_err_sticks(
    layouts: Seq<ImageLayout>,
    pass: usize,
    name: &'static str,
    accs: Seq<(usize, ResourceAccess)>,
    k: int,
    e: GraphError,
)
    requires
        0 <= k <= accs.len(),
        simulate_accesses(layouts, pass, name, accs.take(k)) == Err::<Seq<ImageLayout>, GraphError>(e),
    ensures
        simulate_accesses(layouts, pass, name, accs) == Err::<Seq<ImageLayout>, GraphError>(e),
    decreases accs.len() - k,
{
    if k < accs.len() {
        assert(accs.take(k + 1).drop_last() =~= accs.take(k));
        lemma_accesses_err_sticks(layouts, pass, name, accs, k + 1, e);
    } else {
        assert(accs.take(k) =~= accs);
    }
}

proof fn lemma_simulate_err_sticks(
    layouts: Seq<ImageLayout>,
    passes: Seq<PassView>,
    k: int,
    e: GraphError,
)
    requires
        0 <= k <= passes.len(),
        simulate(layouts, passes.take(k)) == Err::<Seq<ImageLayout>, GraphError>(e),
    ensures
        simulate(layouts, passes) == Err::<Seq<ImageLayout>, GraphError>(e),
    decreases passes.len() - k,
{
    if k < passes.len() {
        assert(passes.take(k + 1).drop_last() =~= passes.take(k));
        lemma_simulate_err_sticks(layouts, passes, k + 1, e);
    } else {
        assert(passes.take(k) =~= passes);
    }
}

proof fn lemma_accesses_ok(
    images: Seq<TrackedImage>,
    pass: usize,
    name: &'static str,
    accs: Seq<(usize, ResourceAccess)>,
)
    requires
        simulate_accesses(layouts_of(images), pass, name, accs) is Ok,
    ensures
        accesses_in_range(accs, images.len()),
        apply_finals(images, accs).len() == images.len(),
        simulate_accesses(layouts_of(images), pass, name, accs) == Ok::<
            Seq<ImageLayout>,
            GraphError,
        >(layouts_of(apply_finals(images, accs))),
    decreases accs.len(),
{
    if accs.len() > 0 {
        let pre = accs.drop_last();
        match simulate_accesses(layouts_of(images), pass, name, pre) {
            Ok(_) => {},
            Err(e) => {},
        }
        lemma_accesses_ok(images, pass, name, pre);
        let imgs = apply_finals(images, pre);
        let a = accs.last();
        assert(layouts_of(imgs.update(a.0 as int, TrackedImage { layout: a.1.final_layout, ..imgs[a.0 as int] }))
            =~= layouts_of(imgs).update(a.0 as int, a.1.final_layout));
        assert forall|j: int| 0 <= j < accs.len() implies (#[trigger] accs[j]).0 < images.len() by {
            if j < accs.len() - 1 {
                assert(accs[j] == pre[j]);
            }
        }
    }
}

/// Compiling and executing agree: if `compile` accepts a graph, then every
/// access of every pass names a registered resource (so `begin_pass` and
/// `end_pass` can run each pass in turn), and running `end_pass` over all
/// passes leaves every image in exactly the layout that `compile` simulated.
pub proof fn lemma_execution_matches_compile(images: Seq<TrackedImage>, passes: Seq<PassView>)
    requires
        simulate(layouts_of(images), passes) is Ok,
    ensures
        forall|p: int|
            0 <= p < passes.len() ==> accesses_in_range(
                (#[trigger] passes[p]).accesses,
                images.len(),
            ),
        execute_all(images, passes).len() == images.len(),
        simulate(layouts_of(images), passes) == Ok::<Seq<ImageLayout>, GraphError>(
            layouts_of(execute_all(images, passes)),
        ),
    decreases passes.len(),
{
    if passes.len() > 0 {
        let pre = passes.drop_last();
        match simulate(layouts_of(images), pre) {
            Ok(_) => {},
            Err(e) => {},
        }
        lemma_execution_matches_compile(images, pre);
        let mid = execute_all(images, pre);
        lemma_accesses_ok(mid, (passes.len() - 1) as usize, passes.last().name, passes.last().accesses);
        assert forall|p: int| 0 <= p < passes.len() implies accesses_in_range(
            (#[trigger] passes[p]).accesses,
            images.len(),
        ) by {
            if p < passes.len() - 1 {
                assert(passes[p] == pre[p]);
            }
        }
    }
}

// ---------------------------------------------------------------------------
// RenderGraph
// ---------------------------------------------------------------------------

impl RenderGraph {
    /// An empty graph.
    pub fn new() -> (g: Self)
        ensures
            g@.images == Seq::<TrackedImage>::empty(),
            g@.passes == Seq::<PassView>::empty(),
            g@.cursor == 0,
    {
        let g = RenderGraph { images: Vec::new(), passes: Vec::new(), cursor: 0 };
        assert(g@.passes =~= Seq::<PassView>::empty());
        g
    }

    /// Register an image.  `initial_layout` is the layout the image is in
    /// before any pass runs.
    pub fn add_resource(&mut self, raw: u64, aspect: u32, initial_layout: ImageLayout) -> (id:
        ResourceId)
        ensures
            id.index() == old(self)@.images.len(),
            final(self)@.images == old(self)@.images.push(
                TrackedImage { raw, aspect, layout: initial_layout },
            ),
            final(self)@.passes == old(self)@.passes,
            final(self)@.cursor == old(self)@.cursor,
    {
        let id = ResourceId(self.images.len());
        self.images.push(TrackedImage { raw, aspect, layout: initial_layout });
        assert(self@.passes =~= old(self)@.passes);
        id
    }

    /// Declare a pass.  Passes execute in declaration order.
    pub fn add_pass(&mut self, name: &'static str, accesses: &[(ResourceId, ResourceAccess)])
        ensures
            final(self)@.images == old(self)@.images,
            final(self)@.cursor == old(self)@.cursor,
            final(self)@.passes == old(self)@.passes.push(
                PassView {
                    name,
                    accesses: accesses@.map_values(
                        |p: (ResourceId, ResourceAccess)| (p.0.index(), p.1),
                    ),
                },
            ),
    {
        let mut resolved: Vec<(usize, ResourceAccess)> = Vec::new();
        let mut i: usize = 0;
        while i < accesses.len()
            invariant
                i <= accesses@.len(),
                resolved@ =~= accesses@.take(i as int).map_values(
                    |p: (ResourceId, ResourceAccess)| (p.0.index(), p.1),
                ),
            decreases accesses@.len() - i,
        {
            let pair = accesses[i];
            resolved.push((pair.0.0, pair.1));
            i = i + 1;
            assert(resolved@ =~= accesses@.take(i as int).map_values(
                |p: (ResourceId, ResourceAccess)| (p.0.index(), p.1),
            ));
        }
        assert(accesses@.take(i as int) =~= accesses@);
        let ghost old_passes = self@.passes;
        self.passes.push(PassNode { name, accesses: resolved });
        assert(self@.passes =~= old_passes.push(
            PassView {
                name,
                accesses: accesses@.map_values(
                    |p: (ResourceId, ResourceAccess)| (p.0.index(), p.1),
                ),
            },
        ));
    }

    /// Validate the graph.  Simulates layout evolution from the images'
    /// current layouts and checks that every resource required in
    /// SHADER_READ_ONLY was either initialised in that layout or written by a
    /// prior pass, and that every access names a registered resource.
    pub fn compile(&self) -> (r: Result<(), GraphError>)
        ensures
            match simulate(layouts_of(self@.images), self@.passes) {
                Ok(_) => r is Ok,
                Err(e) => r == Err::<(), GraphError>(e),
            },
    {
        let mut layouts: Vec<ImageLayout> = Vec::new();
        let mut k: usize = 0;
        while k < self.images.len()
            invariant
                k <= self.images@.len(),
                layouts@ =~= layouts_of(self.images@.take(k as int)),
            decreases self.images@.len() - k,
        {
            layouts.push(self.images[k].layout);
            k = k + 1;
            assert(layouts@ =~= layouts_of(self.images@.take(k as int)));
        }
        assert(self.images@.take(k as int) =~= self.images@);
        let ghost init = layouts_of(self@.images);
        let ghost passes = self@.passes;
        let mut p: usize = 0;
        while p < self.passes.len()
            invariant
                p <= self.passes@.len(),
                passes == self@.passes,
                init == layouts_of(self@.images),
                passes.len() == self.passes@.len(),
                simulate(init, passes.take(p as int)) == Ok::<Seq<ImageLayout>, GraphError>(
                    layouts@,
                ),
            decreases self.passes@.len() - p,
        {
            let pass = &self.passes[p];
            let ghost start = layouts@;
            assert(passes[p as int] == pass.view());
            let mut j: usize = 0;
            while j < pass.accesses.len()
                invariant
                    j <= pass.accesses@.len(),
                    p < passes.len(),
                    passes == self@.passes,
                    init == layouts_of(self@.images),
                    passes[p as int] == pass.view(),
                    simulate(init, passes.take(p as int)) == Ok::<Seq<ImageLayout>, GraphError>(
                        start,
                    ),
                    layouts@.len() == start.len(),
                    simulate_accesses(start, p, pass.name, pass.accesses@.take(j as int)) == Ok::<
                        Seq<ImageLayout>,
                        GraphError,
                    >(layouts@),
                decreases pass.accesses@.len() - j,
            {
                let pair = pass.accesses[j];
                let idx = pair.0;
                let access = pair.1;
                assert(pass.accesses@.take(j + 1).drop_last() =~= pass.accesses@.take(j as int));
                if idx >= layouts.len() {
                    let e = GraphError::ResourceOutOfRange {
                        pass: p,
                        pass_name: pass.name,
                        resource: idx,
                        resource_count: layouts.len(),
                    };
                    proof {
                        lemma_accesses_err_sticks(start, p, pass.name, pass.accesses@, j + 1, e);
                        assert(passes.take(p + 1).drop_last() =~= passes.take(p as int));
                        lemma_simulate_err_sticks(init, passes, p + 1, e);
                    }
                    return Err(e);
                }
                if access.required_layout == ImageLayout::ShaderReadOnlyOptimal && layouts[idx]
                    == ImageLayout::Undefined {
                    let e = GraphError::UnproducedRead { pass: p, pass_name: pass.name, resource: idx };
                    proof {
                        lemma_accesses_err_sticks(start, p, pass.name, pass.accesses@, j + 1, e);
                        assert(passes.take(p + 1).drop_last() =~= passes.take(p as int));
                        lemma_simulate_err_sticks(init, passes, p + 1, e);
                    }
                    return Err(e);
                }
                layouts.set(idx, access.final_layout);
                j = j + 1;
            }
            assert(pass.accesses@.take(j as int) =~= pass.accesses@);
            assert(passes.take(p + 1).drop_last() =~= passes.take(p as int));
            p = p + 1;
        }
        assert(passes.take(p as int) =~= passes);
        Ok(())
    }

    /// Decide the barriers required before the current pass: one for each
    /// access whose image is not yet in the required layout.  The caller
    /// records them immediately before the pass's draw commands.
    pub fn begin_pass(&self) -> (b: BarrierBatch)
        requires
            self@.cursor < self@.passes.len(),
            accesses_in_range(self@.passes[self@.cursor as int].accesses, self@.images.len()),
        ensures
            b@ == enter_batch(self@.images, self@.passes[self@.cursor as int].accesses),
    {
        let pass = &self.passes[self.cursor];
        assert(self@.passes[self@.cursor as int] == pass.view());
        let mut barriers: Vec<ImageBarrier> = Vec::new();
        let mut src_stage: u32 = 0;
        let mut dst_stage: u32 = 0;
        let mut j: usize = 0;
        while j < pass.accesses.len()
            invariant
                j <= pass.accesses@.len(),
                accesses_in_range(pass.accesses@, self.images@.len()),
                ({
                    let e = enter_batch(self.images@, pass.accesses@.take(j as int));
                    &&& e.src_stage == src_stage
                    &&& e.dst_stage == dst_stage
                    &&& e.barriers == barriers@
                }),
            decreases pass.accesses@.len() - j,
        {
            let pair = pass.accesses[j];
            let idx = pair.0;
            let access = pair.1;
            assert(pass.accesses@.take(j + 1).drop_last() =~= pass.accesses@.take(j as int));
            assert(pass.accesses@[j as int].0 < self.images@.len());
            let image = self.images[idx];
            if image.layout != access.required_layout {
                barriers.push(
                    ImageBarrier {
                        src_access: access.enter_src_access,
                        dst_access: access.enter_dst_access,
                        old_layout: image.layout,
                        new_layout: access.required_layout,
                        image: image.raw,
                        aspect: image.aspect,
                    },
                );
                src_stage = src_stage | access.enter_src_stage;
                dst_stage = dst_stage | access.enter_dst_stage;
            }
            j = j + 1;
        }
        assert(pass.accesses@.take(j as int) =~= pass.accesses@);
        BarrierBatch { src_stage, dst_stage, barriers }
    }

    /// Decide the exit barriers of the current pass, move every accessed
    /// image to its final layout, then advance to the next pass.
    pub fn end_pass(&mut self) -> (b: BarrierBatch)
        requires
            old(self)@.cursor < old(self)@.passes.len(),
            accesses_in_range(
                old(self)@.passes[old(self)@.cursor as int].accesses,
                old(self)@.images.len(),
            ),
        ensures
            b@ == exit_batch(old(self)@.images, old(self)@.passes[old(self)@.cursor as int].accesses),
            final(self)@.images == apply_finals(
                old(self)@.images,
                old(self)@.passes[old(self)@.cursor as int].accesses,
            ),
            final(self)@.passes == old(self)@.passes,
            final(self)@.cursor == old(self)@.cursor + 1,
    {
        let c = self.cursor;
        let ghost accs = self.passes@[c as int].accesses@;
        assert(self@.passes[c as int] == self.passes@[c as int].view());
        let ghost imgs0 = self.images@;
        let mut barriers: Vec<ImageBarrier> = Vec::new();
        let mut src_stage: u32 = 0;
        let mut dst_stage: u32 = 0;
        let n = self.passes[c].accesses.len();
        let mut j: usize = 0;
        while j < n
            invariant
                c < self.passes@.len(),
                n == accs.len(),
                accs == self.passes@[c as int].accesses@,
                imgs0 == self.images@,
                j <= n,
                accesses_in_range(accs, imgs0.len()),
                ({
                    let e = exit_batch(imgs0, accs.take(j as int));
                    &&& e.src_stage == src_stage
                    &&& e.dst_stage == dst_stage
                    &&& e.barriers == barriers@
                }),
            decreases n - j,
        {
            let pair = self.passes[c].accesses[j];
            let idx = pair.0;
            let access = pair.1;
            assert(accs.take(j + 1).drop_last() =~= accs.take(j as int));
            assert(accs[j as int].0 < imgs0.len());
            if access.required_layout != access.final_layout {
                let image = self.images[idx];
                barriers.push(
                    ImageBarrier {
                        src_access: access.exit_src_access,
                        dst_access: access.exit_dst_access,
                        old_layout: access.required_layout,
                        new_layout: access.final_layout,
                        image: image.raw,
                        aspect: image.aspect,
                    },
                );
                src_stage = src_stage | access.exit_src_stage;
                dst_stage = dst_stage | access.exit_dst_stage;
            }
            j = j + 1;
        }
        assert(accs.take(j as int) =~= accs);
        let mut j: usize = 0;
        while j < n
            invariant
                c < self.passes@.len(),
                n == accs.len(),
                accs == self.passes@[c as int].accesses@,
                j <= n,
                accesses_in_range(accs, imgs0.len()),
                self.images@ == apply_finals(imgs0, accs.take(j as int)),
                self.images@.len() == imgs0.len(),
                self.cursor == c,
                self.passes@.len() == old(self).passes@.len(),
                forall|q: int| 0 <= q < self.passes@.len() ==> self.passes@[q] == old(self).passes@[q],
            decreases n - j,
        {
            let pair = self.passes[c].accesses[j];
            let idx = pair.0;
            assert(accs.take(j + 1).drop_last() =~= accs.take(j as int));
            assert(accs[j as int].0 < imgs0.len());
            let mut image = self.images[idx];
            image.layout = pair.1.final_layout;
            self.images.set(idx, image);
            j = j + 1;
        }
        assert(accs.take(j as int) =~= accs);
        let pass_count = self.passes.len();
        assert(c < pass_count);
        self.cursor = c + 1;
        assert(self.passes@ =~= old(self).passes@);
        assert(self@.passes =~= old(self)@.passes);
        BarrierBatch { src_stage, dst_stage, barriers }
    }

    /// Name of the pass at the cursor, or `"<done>"` once all passes ran.
    pub fn current_pass_name(&self) -> (r: &'static str)
        ensures
            self@.cursor < self@.passes.len() ==> r == self@.passes[self@.cursor as int].name,
            self@.cursor >= self@.passes.len() ==> r@ == "<done>"@,
    {
        if self.cursor < self.passes.len() {
            assert(self@.passes[self@.cursor as int] == self.passes@[self.cursor as int].view());
            self.passes[self.cursor].name
        } else {
            "<done>"
        }
    }
}

// ---------------------------------------------------------------------------
// The engine's per-frame graph
// ---------------------------------------------------------------------------

/// Number of bloom downsample/upsample levels.
pub const BLOOM_LEVELS: usize = 5;

/// Images the per-frame graph tracks.
pub struct FrameImages {
    pub swapchain: u64,
    pub shadow_map: u64,
    pub hdr_color: u64,
    /// One image per bloom level (`BLOOM_LEVELS` of them).
    pub bloom: Vec<u64>,
    pub msaa_color: Option<u64>,
    /// MSAA depth image and its aspect bits.
    pub msaa_depth: Option<(u64, u32)>,
}

/// Optional passes of a frame.
#[derive(Debug, Clone, Copy)]
pub struct FrameOptions {
    pub bloom_enabled: bool,
    pub wireframe: bool,
    pub gizmo: bool,
    pub egui: bool,
}

/// Result of the layout simulation of a graph model.
pub open spec fn graph_sim(v: GraphView) -> Result<Seq<ImageLayout>, GraphError> {
    simulate(layouts_of(v.images), v.passes)
}

/// The images of the frame graph, in registration order.
pub open spec fn frame_images_spec(f: FrameImages) -> Seq<TrackedImage> {
    let base = seq![
        TrackedImage { raw: f.swapchain, aspect: ASPECT_COLOR, layout: ImageLayout::Undefined },
        TrackedImage {
            raw: f.shadow_map,
            aspect: ASPECT_DEPTH,
            layout: ImageLayout::ShaderReadOnlyOptimal,
        },
        TrackedImage { raw: f.hdr_color, aspect: ASPECT_COLOR, layout: ImageLayout::Undefined },
    ];
    let with_bloom = base + f.bloom@.map_values(
        |h: u64| TrackedImage { raw: h, aspect: ASPECT_COLOR, layout: ImageLayout::Undefined },
    );
    let with_color = match f.msaa_color {
        Some(h) => with_bloom.push(
            TrackedImage { raw: h, aspect: ASPECT_COLOR, layout: ImageLayout::Undefined },
        ),
        None => with_bloom,
    };
    match f.msaa_depth {
        Some((h, a)) => with_color.push(
            TrackedImage { raw: h, aspect: a, layout: ImageLayout::Undefined },
        ),
        None => with_color,
    }
}

/// The names of the frame graph's passes, in execution order.
pub open spec fn frame_pass_names(o: FrameOptions) -> Seq<&'static str> {
    let head = seq!["FrameInit", "Shadow", "Main+Skybox"];
    let bloom = if o.bloom_enabled {
        seq![
            "BloomDown0",
            "BloomDown1",
            "BloomDown2",
            "BloomDown3",
            "BloomDown4",
            "BloomUp3",
            "BloomUp2",
            "BloomUp1",
            "BloomUp0",
        ]
    } else {
        Seq::empty()
    };
    let composite = head + bloom + seq!["Composite"];
    let wire = if o.wireframe { composite.push("Wireframe") } else { composite };
    let gizmo = if o.gizmo { wire.push("Gizmo") } else { wire };
    let egui = if o.egui { gizmo.push("Egui") } else { gizmo };
    egui.push("Present")
}


/// A pass with a single access.
pub open spec fn one_access(name: &'static str, i: usize, a: ResourceAccess) -> PassView {
    PassView { name, accesses: seq![(i, a)] }
}

/// Index of the MSAA depth image: right after the MSAA color image when
/// there is one, else right after the bloom chain.
pub open spec fn msaa_depth_index(f: FrameImages) -> usize {
    if f.msaa_color is Some {
        9
    } else {
        8
    }
}

/// Frame init: the swapchain and HDR images (and the MSAA targets) are
/// started as attachments.
pub open spec fn frame_init_accesses(f: FrameImages) -> Seq<(usize, ResourceAccess)> {
    let base = seq![(0usize, spec_color_init()), (2usize, spec_color_init())];
    let with_color = if f.msaa_color is Some {
        base.push((8usize, spec_color_init()))
    } else {
        base
    };
    if f.msaa_depth is Some {
        with_color.push((msaa_depth_index(f), spec_depth_init()))
    } else {
        with_color
    }
}

/// Main + skybox: draw into the (MSAA) colour target, leave the HDR image
/// readable, and sample the shadow map.
pub open spec fn main_accesses(f: FrameImages) -> Seq<(usize, ResourceAccess)> {
    let head = if f.msaa_color is Some {
        seq![(8usize, spec_color_attachment())]
    } else {
        Seq::empty()
    };
    head + seq![(2usize, spec_color_attachment_to_read()), (1usize, spec_shader_read())]
}

/// The bloom chain: downsample into levels 0..4, then upsample back from
/// level 3 to level 0 (images 3..7).
pub open spec fn bloom_passes() -> Seq<PassView> {
    seq![
        one_access("BloomDown0", 3, spec_color_attachment_to_read()),
        one_access("BloomDown1", 4, spec_color_attachment_to_read()),
        one_access("BloomDown2", 5, spec_color_attachment_to_read()),
        one_access("BloomDown3", 6, spec_color_attachment_to_read()),
        one_access("BloomDown4", 7, spec_color_attachment_to_read()),
        one_access("BloomUp3", 6, spec_bloom_overwrite()),
        one_access("BloomUp2", 5, spec_bloom_overwrite()),
        one_access("BloomUp1", 4, spec_bloom_overwrite()),
        one_access("BloomUp0", 3, spec_bloom_overwrite()),
    ]
}

/// An optional pass drawing onto the swapchain image.
pub open spec fn overlay(passes: Seq<PassView>, name: &'static str, enabled: bool) -> Seq<PassView> {
    if enabled {
        passes.push(one_access(name, 0, spec_color_attachment()))
    } else {
        passes
    }
}

/// The passes of the frame graph, with their accesses, in execution order.
/// Images are indexed as registered: swapchain 0, shadow map 1, HDR 2,
/// bloom 3..7, then the MSAA colour and depth images when present.
pub open spec fn frame_passes(f: FrameImages, o: FrameOptions) -> Seq<PassView> {
    let head = seq![
        PassView { name: "FrameInit", accesses: frame_init_accesses(f) },
        one_access("Shadow", 1, spec_shadow_write()),
        PassView { name: "Main+Skybox", accesses: main_accesses(f) },
    ];
    let bloom = if o.bloom_enabled {
        bloom_passes()
    } else {
        Seq::empty()
    };
    let composite = overlay(head + bloom, "Composite", true);
    let all = overlay(overlay(overlay(composite, "Wireframe", o.wireframe), "Gizmo", o.gizmo), "Egui", o.egui);
    all.push(one_access("Present", 0, spec_present()))
}

/// Invariant kept while the frame graph is being declared: the graph so far
/// compiles, and the shadow map (image 1) is never UNDEFINED.
spec fn frame_ok(v: GraphView) -> bool {
    &&& graph_sim(v) is Ok
    &&& v.images.len() > 1
    &&& (graph_sim(v)->Ok_0).len() == v.images.len()
    &&& (graph_sim(v)->Ok_0)[1] != ImageLayout::Undefined
}

/// A pass whose accesses are in range, never move an image to UNDEFINED, and
/// only sample images that are not UNDEFINED, is accepted; it keeps defined
/// layouts defined.
proof fn lemma_pass_ok(
    l: Seq<ImageLayout>,
    pass: usize,
    name: &'static str,
    accs: Seq<(usize, ResourceAccess)>,
)
    requires
        forall|j: int|
            0 <= j < accs.len() ==> {
                &&& (#[trigger] accs[j]).0 < l.len()
                &&& accs[j].1.final_layout != ImageLayout::Undefined
                &&& accs[j].1.required_layout == ImageLayout::ShaderReadOnlyOptimal ==> l[accs[j].0 as int]
                    != ImageLayout::Undefined
            },
    ensures
        simulate_accesses(l, pass, name, accs) is Ok,
        (simulate_accesses(l, pass, name, accs)->Ok_0).len() == l.len(),
        forall|k: int|
            0 <= k < l.len() && l[k] != ImageLayout::Undefined ==> (simulate_accesses(
                l,
                pass,
                name,
                accs,
            )->Ok_0)[k] != ImageLayout::Undefined,
    decreases accs.len(),
{
    if accs.len() > 0 {
        let pre = accs.drop_last();
        assert forall|j: int| 0 <= j < pre.len() implies {
            &&& (#[trigger] pre[j]).0 < l.len()
            &&& pre[j].1.final_layout != ImageLayout::Undefined
            &&& pre[j].1.required_layout == ImageLayout::ShaderReadOnlyOptimal ==> l[pre[j].0 as int]
                != ImageLayout::Undefined
        } by {
            assert(pre[j] == accs[j]);
        }
        lemma_pass_ok(l, pass, name, pre);
        let last = accs[accs.len() - 1];
        assert(last == accs.last());
    }
}

/// Appending a pass extends the simulation by that pass's accesses.
proof fn lemma_push_pass(init: Seq<ImageLayout>, passes: Seq<PassView>, p: PassView)
    requires
        simulate(init, passes) is Ok,
    ensures
        simulate(init, passes.push(p)) == simulate_accesses(
            simulate(init, passes)->Ok_0,
            passes.len() as usize,
            p.name,
            p.accesses,
        ),
{
    assert(passes.push(p).drop_last() =~= passes);
}

/// Declare one pass of the frame graph, keeping `frame_ok`.
fn declare(g: &mut RenderGraph, name: &'static str, accs: Vec<(ResourceId, ResourceAccess)>)
    requires
        frame_ok(old(g)@),
        forall|j: int|
            0 <= j < accs@.len() ==> {
                &&& (#[trigger] accs@[j]).0.index() < old(g)@.images.len()
                &&& accs@[j].1.final_layout != ImageLayout::Undefined
                &&& accs@[j].1.required_layout == ImageLayout::ShaderReadOnlyOptimal ==> accs@[j].0.index()
                    == 1
            },
    ensures
        frame_ok(final(g)@),
        final(g)@.images == old(g)@.images,
        final(g)@.cursor == old(g)@.cursor,
        final(g)@.passes == old(g)@.passes.push(
            PassView {
                name,
                accesses: accs@.map_values(|p: (ResourceId, ResourceAccess)| (p.0.index(), p.1)),
            },
        ),
{
    let ghost before = g@;
    g.add_pass(name, accs.as_slice());
    proof {
        let l = graph_sim(before)->Ok_0;
        let m = accs@.map_values(|p: (ResourceId, ResourceAccess)| (p.0.index(), p.1));
        assert forall|j: int| 0 <= j < m.len() implies {
            &&& (#[trigger] m[j]).0 < l.len()
            &&& m[j].1.final_layout != ImageLayout::Undefined
            &&& m[j].1.required_layout == ImageLayout::ShaderReadOnlyOptimal ==> l[m[j].0 as int]
                != ImageLayout::Undefined
        } by {
            assert(m[j] == (accs@[j].0.index(), accs@[j].1));
        }
        lemma_pass_ok(l, before.passes.len() as usize, name, m);
        lemma_push_pass(layouts_of(before.images), before.passes, PassView { name, accesses: m });
    }
}

/// Declare a pass with a single access.
fn declare1(g: &mut RenderGraph, name: &'static str, id: ResourceId, acc: ResourceAccess)
    requires
        frame_ok(old(g)@),
        id.index() < old(g)@.images.len(),
        acc.final_layout != ImageLayout::Undefined,
        acc.required_layout == ImageLayout::ShaderReadOnlyOptimal ==> id.index() == 1,
    ensures
        frame_ok(final(g)@),
        final(g)@.images == old(g)@.images,
        final(g)@.cursor == old(g)@.cursor,
        final(g)@.passes == old(g)@.passes.push(
            PassView { name, accesses: seq![(id.index(), acc)] },
        ),
{
    let mut v: Vec<(ResourceId, ResourceAccess)> = Vec::new();
    v.push((id, acc));
    declare(g, name, v);
    assert(v@.map_values(|p: (ResourceId, ResourceAccess)| (p.0.index(), p.1)) =~= seq![
        (id.index(), acc),
    ]);
}

/// Resource ids of the frame's images.
struct FrameIds {
    swapchain: ResourceId,
    shadow: ResourceId,
    hdr: ResourceId,
    bloom: Vec<ResourceId>,
    msaa_color: Option<ResourceId>,
    msaa_depth: Option<ResourceId>,
}

spec fn frame_ids_ok(ids: &FrameIds, f: FrameImages, n: nat) -> bool {
    &&& ids.swapchain.index() == 0
    &&& ids.shadow.index() == 1
    &&& ids.hdr.index() == 2
    &&& ids.bloom@.len() == BLOOM_LEVELS
    &&& forall|k: int| 0 <= k < BLOOM_LEVELS ==> (#[trigger] ids.bloom@[k]).index() == 3 + k
    &&& 3 + BLOOM_LEVELS <= n
    &&& (ids.msaa_color is Some <==> f.msaa_color is Some)
    &&& (ids.msaa_depth is Some <==> f.msaa_depth is Some)
    &&& (ids.msaa_color matches Some(r) ==> r.index() == 8 && r.index() < n)
    &&& (ids.msaa_depth matches Some(r) ==> r.index() == msaa_depth_index(f) && r.index() < n)
}

spec fn pass_names(passes: Seq<PassView>) -> Seq<&'static str> {
    passes.map_values(|p: PassView| p.name)
}

/// Register the frame's images in the graph's fixed order.
fn register_frame_images(images: &FrameImages) -> (r: (RenderGraph, FrameIds))
    requires
        images.bloom@.len() == BLOOM_LEVELS,
    ensures
        r.0@.images == frame_images_spec(*images),
        r.0@.passes.len() == 0,
        r.0@.cursor == 0,
        frame_ok(r.0@),
        frame_ids_ok(&r.1, *images, r.0@.images.len()),
{
    let mut g = RenderGraph::new();
    let r_swapchain = g.add_resource(images.swapchain, ASPECT_COLOR, ImageLayout::Undefined);
    let r_shadow = g.add_resource(
        images.shadow_map,
        ASPECT_DEPTH,
        ImageLayout::ShaderReadOnlyOptimal,
    );
    let r_hdr = g.add_resource(images.hdr_color, ASPECT_COLOR, ImageLayout::Undefined);
    let mut r_bloom: Vec<ResourceId> = Vec::new();
    let mut i: usize = 0;
    while i < images.bloom.len()
        invariant
            i <= images.bloom@.len(),
            images.bloom@.len() == BLOOM_LEVELS,
            r_bloom@.len() == i,
            g@.passes.len() == 0,
            g@.cursor == 0,
            g@.images =~= seq![
                TrackedImage { raw: images.swapchain, aspect: ASPECT_COLOR, layout: ImageLayout::Undefined },
                TrackedImage {
                    raw: images.shadow_map,
                    aspect: ASPECT_DEPTH,
                    layout: ImageLayout::ShaderReadOnlyOptimal,
                },
                TrackedImage { raw: images.hdr_color, aspect: ASPECT_COLOR, layout: ImageLayout::Undefined },
            ] + images.bloom@.take(i as int).map_values(
                |h: u64| TrackedImage { raw: h, aspect: ASPECT_COLOR, layout: ImageLayout::Undefined },
            ),
            forall|k: int| 0 <= k < i ==> (#[trigger] r_bloom@[k]).index() == 3 + k,
        decreases images.bloom@.len() - i,
    {
        let id = g.add_resource(images.bloom[i], ASPECT_COLOR, ImageLayout::Undefined);
        r_bloom.push(id);
        i = i + 1;
        assert(images.bloom@.take(i as int).drop_last() =~= images.bloom@.take(i - 1));
    }
    assert(images.bloom@.take(i as int) =~= images.bloom@);
    let r_msaa_color = match images.msaa_color {
        Some(h) => Some(g.add_resource(h, ASPECT_COLOR, ImageLayout::Undefined)),
        None => None,
    };
    let r_msaa_depth = match images.msaa_depth {
        Some(pair) => Some(g.add_resource(pair.0, pair.1, ImageLayout::Undefined)),
        None => None,
    };
    assert(g@.images =~= frame_images_spec(*images));
    proof {
        let l = layouts_of(g@.images);
        assert(g@.passes =~= Seq::<PassView>::empty());
        assert(l[1] == ImageLayout::ShaderReadOnlyOptimal);
        assert(graph_sim(g@) == Ok::<Seq<ImageLayout>, GraphError>(l));
    }
    let ids = FrameIds {
        swapchain: r_swapchain,
        shadow: r_shadow,
        hdr: r_hdr,
        bloom: r_bloom,
        msaa_color: r_msaa_color,
        msaa_depth: r_msaa_depth,
    };
    (g, ids)
}

/// Declare the frame-init, shadow and main passes.
fn declare_scene_passes(g: &mut RenderGraph, ids: &FrameIds, images: &FrameImages)
    requires
        frame_ok(old(g)@),
        frame_ids_ok(ids, *images, old(g)@.images.len()),
    ensures
        frame_ok(final(g)@),
        final(g)@.images == old(g)@.images,
        final(g)@.cursor == old(g)@.cursor,
        final(g)@.passes == old(g)@.passes + seq![
            PassView { name: "FrameInit", accesses: frame_init_accesses(*images) },
            one_access("Shadow", 1, spec_shadow_write()),
            PassView { name: "Main+Skybox", accesses: main_accesses(*images) },
        ],
        pass_names(final(g)@.passes) == pass_names(old(g)@.passes) + seq![
            "FrameInit",
            "Shadow",
            "Main+Skybox",
        ],
{
    let ghost p0 = g@.passes;
    let mut init: Vec<(ResourceId, ResourceAccess)> = Vec::new();
    init.push((ids.swapchain, ResourceAccess::color_init()));
    init.push((ids.hdr, ResourceAccess::color_init()));
    match ids.msaa_color {
        Some(rc) => init.push((rc, ResourceAccess::color_init())),
        None => {},
    }
    match ids.msaa_depth {
        Some(rd) => init.push((rd, ResourceAccess::depth_init())),
        None => {},
    }
    assert(init@.map_values(|p: (ResourceId, ResourceAccess)| (p.0.index(), p.1))
        =~= frame_init_accesses(*images));
    declare(g, "FrameInit", init);
    let ghost p1 = g@.passes;
    declare1(g, "Shadow", ids.shadow, ResourceAccess::shadow_write());
    let ghost p2 = g@.passes;
    let mut main: Vec<(ResourceId, ResourceAccess)> = Vec::new();
    match ids.msaa_color {
        Some(rc) => main.push((rc, ResourceAccess::color_attachment())),
        None => {},
    }
    main.push((ids.hdr, ResourceAccess::color_attachment_to_read()));
    main.push((ids.shadow, ResourceAccess::shader_read()));
    assert(main@.map_values(|p: (ResourceId, ResourceAccess)| (p.0.index(), p.1))
        =~= main_accesses(*images));
    declare(g, "Main+Skybox", main);
    assert(g@.passes =~= p0 + seq![
        PassView { name: "FrameInit", accesses: frame_init_accesses(*images) },
        one_access("Shadow", 1, spec_shadow_write()),
        PassView { name: "Main+Skybox", accesses: main_accesses(*images) },
    ]);
    assert(pass_names(g@.passes) =~= pass_names(p0) + seq!["FrameInit", "Shadow", "Main+Skybox"]);
}

/// Declare the bloom downsample and upsample chain.
fn declare_bloom_passes(g: &mut RenderGraph, ids: &FrameIds, images: &FrameImages)
    requires
        frame_ok(old(g)@),
        frame_ids_ok(ids, *images, old(g)@.images.len()),
    ensures
        frame_ok(final(g)@),
        final(g)@.images == old(g)@.images,
        final(g)@.cursor == old(g)@.cursor,
        final(g)@.passes == old(g)@.passes + bloom_passes(),
        pass_names(final(g)@.passes) == pass_names(old(g)@.passes) + seq![
            "BloomDown0",
            "BloomDown1",
            "BloomDown2",
            "BloomDown3",
            "BloomDown4",
            "BloomUp3",
            "BloomUp2",
            "BloomUp1",
            "BloomUp0",
        ],
{
    let ghost p0 = g@.passes;
    assert(ids.bloom@[0].index() == 3);
    assert(ids.bloom@[1].index() == 4);
    assert(ids.bloom@[2].index() == 5);
    assert(ids.bloom@[3].index() == 6);
    assert(ids.bloom@[4].index() == 7);
    let down = ResourceAccess::color_attachment_to_read();
    declare1(g, "BloomDown0", ids.bloom[0], down);
    declare1(g, "BloomDown1", ids.bloom[1], down);
    declare1(g, "BloomDown2", ids.bloom[2], down);
    declare1(g, "BloomDown3", ids.bloom[3], down);
    declare1(g, "BloomDown4", ids.bloom[4], down);
    let up = ResourceAccess::bloom_overwrite();
    declare1(g, "BloomUp3", ids.bloom[3], up);
    declare1(g, "BloomUp2", ids.bloom[2], up);
    declare1(g, "BloomUp1", ids.bloom[1], up);
    declare1(g, "BloomUp0", ids.bloom[0], up);
    assert(g@.passes =~= p0 + bloom_passes());
    assert(pass_names(g@.passes) =~= pass_names(p0) + seq![
        "BloomDown0",
        "BloomDown1",
        "BloomDown2",
        "BloomDown3",
        "BloomDown4",
        "BloomUp3",
        "BloomUp2",
        "BloomUp1",
        "BloomUp0",
    ]);
}

/// Declare a pass that draws onto the swapchain image, if `enabled`.
fn declare_overlay(
    g: &mut RenderGraph,
    ids: &FrameIds,
    images: &FrameImages,
    name: &'static str,
    enabled: bool,
)
    requires
        frame_ok(old(g)@),
        frame_ids_ok(ids, *images, old(g)@.images.len()),
    ensures
        frame_ok(final(g)@),
        final(g)@.images == old(g)@.images,
        final(g)@.cursor == old(g)@.cursor,
        final(g)@.passes == overlay(old(g)@.passes, name, enabled),
        pass_names(final(g)@.passes) == if enabled {
            pass_names(old(g)@.passes).push(name)
        } else {
            pass_names(old(g)@.passes)
        },
{
    let ghost p0 = g@.passes;
    if enabled {
        declare1(g, name, ids.swapchain, ResourceAccess::color_attachment());
        assert(pass_names(g@.passes) =~= pass_names(p0).push(name));
    }
}

/// Build the render graph of one frame: frame init, shadow, main+skybox, the
/// optional bloom chain, composite, the optional overlay passes and present.
/// The resulting graph always compiles.
pub fn build_frame_graph(images: &FrameImages, opts: FrameOptions) -> (g: RenderGraph)
    requires
        images.bloom@.len() == BLOOM_LEVELS,
    ensures
        g@.images == frame_images_spec(*images),
        g@.passes == frame_passes(*images, opts),
        g@.passes.map_values(|p: PassView| p.name) == frame_pass_names(opts),
        g@.cursor == 0,
        simulate(layouts_of(g@.images), g@.passes) is Ok,
{
    let (mut g, ids) = register_frame_images(images);
    let ghost names0 = pass_names(g@.passes);
    assert(names0 =~= Seq::<&'static str>::empty());
    declare_scene_passes(&mut g, &ids, images);
    let ghost names1 = pass_names(g@.passes);
    if opts.bloom_enabled {
        declare_bloom_passes(&mut g, &ids, images);
    }
    let ghost names2 = pass_names(g@.passes);
    declare_overlay(&mut g, &ids, images, "Composite", true);
    declare_overlay(&mut g, &ids, images, "Wireframe", opts.wireframe);
    declare_overlay(&mut g, &ids, images, "Gizmo", opts.gizmo);
    declare_overlay(&mut g, &ids, images, "Egui", opts.egui);
    let ghost names3 = pass_names(g@.passes);
    declare1(&mut g, "Present", ids.swapchain, ResourceAccess::present());
    proof {
        let ghost names4 = pass_names(g@.passes);
        assert(names4 =~= names3.push("Present"));
        assert(names1 =~= seq!["FrameInit", "Shadow", "Main+Skybox"]);
    }
    assert(pass_names(g@.passes) =~= frame_pass_names(opts));
    g
}

} // verus!
