//! Per-frame draw orchestration and the fixed GPU configuration.
//!
//! The renderer owns the camera and the descriptor state, and runs one
//! frame as a small state machine: a frame is acquired, one or more
//! batches are drawn into it - the first and only the first with a
//! clearing pass, every later one loading what was drawn before - and
//! the frame is submitted. Misordering the clear is a detected error,
//! never a silent wipe of earlier batches. The device calls themselves
//! are the host's: each accepted draw yields a `DrawPlan` that says
//! exactly which buffers to create, which load actions to use and which
//! uniform block to upload.

use vstd::prelude::*;
use crate::camera::{
    OrbitCamera, Camera, CameraUniform, eye_x, eye_y, eye_z, view_proj_g, ASPECT_MIN, ASPECT_MAX,
};
use crate::fixed::SCALE;
use crate::geometry::GeometryBatch;
use crate::vecmat::mat_to_g;

verus! {

/// Largest supported framebuffer dimension.
pub const MAX_DIM: u32 = 16_384;

/// Bytes of one vertex in the GPU layout: two four-float vectors and one
/// float, padded to 16-byte alignment.
pub const VERTEX_STRIDE: u64 = 48;

/// Byte offset of the position attribute within a vertex.
pub const OFFSET_POSITION: u64 = 0;

/// Byte offset of the color attribute within a vertex.
pub const OFFSET_COLOR: u64 = 16;

/// Byte offset of the size attribute within a vertex.
pub const OFFSET_SIZE: u64 = 32;

/// Texture formats the pipeline renders to.
#[derive(Clone, Copy, PartialEq, Eq, Structural, Debug)]
pub enum TextureFormat {
    Bgra8UnormSrgb,
    Depth32Float,
}

/// Presentation scheduling of the swapchain.
#[derive(Clone, Copy, PartialEq, Eq, Structural, Debug)]
pub enum PresentMode {
    Mailbox,
}

/// What happens to an attachment's prior contents when a pass opens.
#[derive(Clone, Copy, PartialEq, Eq, Structural, Debug)]
pub enum LoadAction {
    Clear,
    Load,
}

/// Depth test of the fixed pipeline.
#[derive(Clone, Copy, PartialEq, Eq, Structural, Debug)]
pub enum CompareFunction {
    Less,
}

/// Draw topology of the fixed pipeline.
#[derive(Clone, Copy, PartialEq, Eq, Structural, Debug)]
pub enum PrimitiveTopology {
    PointList,
}

/// Width of the index values in an index buffer.
#[derive(Clone, Copy, PartialEq, Eq, Structural, Debug)]
pub enum IndexFormat {
    Uint32,
}

/// Per-attribute layout of the vertex stage's input.
#[derive(Clone, Copy, PartialEq, Eq, Structural, Debug)]
pub enum VertexFormat {
    Float4,
    Float,
}

/// One vertex-stage input binding.
#[derive(Clone, Copy, PartialEq, Eq, Structural, Debug)]
pub struct VertexAttribute {
    pub format: VertexFormat,
    pub offset: u64,
    pub shader_location: u32,
}

/// The one render pipeline of the process: point-list topology, no
/// culling, no blending (replace for color and alpha), depth test
/// `Less` with writes enabled.
#[derive(Clone, Copy, PartialEq, Eq, Structural, Debug)]
pub struct PipelineConfig {
    pub topology: PrimitiveTopology,
    pub cull_disabled: bool,
    pub color_format: TextureFormat,
    pub blend_replace: bool,
    pub depth_format: TextureFormat,
    pub depth_write_enabled: bool,
    pub depth_compare: CompareFunction,
    pub index_format: IndexFormat,
    pub vertex_stride: u64,
    pub attr_position: VertexAttribute,
    pub attr_color: VertexAttribute,
    pub attr_size: VertexAttribute,
}

/// The fixed pipeline description.
pub open spec fn pipeline_spec() -> PipelineConfig {
    PipelineConfig {
        topology: PrimitiveTopology::PointList,
        cull_disabled: true,
        color_format: TextureFormat::Bgra8UnormSrgb,
        blend_replace: true,
        depth_format: TextureFormat::Depth32Float,
        depth_write_enabled: true,
        depth_compare: CompareFunction::Less,
        index_format: IndexFormat::Uint32,
        vertex_stride: 48u64,
        attr_position: VertexAttribute {
            format: VertexFormat::Float4,
            offset: 0u64,
            shader_location: 0u32,
        },
        attr_color: VertexAttribute {
            format: VertexFormat::Float4,
            offset: 16u64,
            shader_location: 1u32,
        },
        attr_size: VertexAttribute {
            format: VertexFormat::Float,
            offset: 32u64,
            shader_location: 2u32,
        },
    }
}

/// Build the fixed pipeline description.
pub fn pipeline_config() -> (c: PipelineConfig)
    ensures
        c == pipeline_spec(),
{
    PipelineConfig {
        topology: PrimitiveTopology::PointList,
        cull_disabled: true,
        color_format: TextureFormat::Bgra8UnormSrgb,
        blend_replace: true,
        depth_format: TextureFormat::Depth32Float,
        depth_write_enabled: true,
        depth_compare: CompareFunction::Less,
        index_format: IndexFormat::Uint32,
        vertex_stride: 48,
        attr_position: VertexAttribute {
            format: VertexFormat::Float4,
            offset: 0,
            shader_location: 0,
        },
        attr_color: VertexAttribute {
            format: VertexFormat::Float4,
            offset: 16,
            shader_location: 1,
        },
        attr_size: VertexAttribute { format: VertexFormat::Float, offset: 32, shader_location: 2 },
    }
}

/// Swapchain descriptor: output-attachment usage is implied by the
/// format and present mode held here.
#[derive(Clone, Copy, PartialEq, Eq, Structural, Debug)]
pub struct SurfaceConfig {
    pub width: u32,
    pub height: u32,
    pub format: TextureFormat,
    pub present_mode: PresentMode,
}

/// The swapchain descriptor for a framebuffer size.
pub open spec fn surface_spec(width: u32, height: u32) -> SurfaceConfig {
    SurfaceConfig {
        width,
        height,
        format: TextureFormat::Bgra8UnormSrgb,
        present_mode: PresentMode::Mailbox,
    }
}

/// Depth-buffer descriptor, always sized like the swapchain.
#[derive(Clone, Copy, PartialEq, Eq, Structural, Debug)]
pub struct DepthConfig {
    pub width: u32,
    pub height: u32,
    pub format: TextureFormat,
}

/// The depth-buffer descriptor for a framebuffer size.
pub open spec fn depth_spec(width: u32, height: u32) -> DepthConfig {
    DepthConfig { width, height, format: TextureFormat::Depth32Float }
}

/// Sequencing and validation failures of the frame state machine.
#[derive(Clone, Copy, PartialEq, Eq, Structural, Debug)]
pub enum RenderError {
    /// A draw or submission was attempted with no frame acquired.
    NoFrameAcquired,
    /// A frame was acquired while one was already open.
    FrameAlreadyAcquired,
    /// A clearing first pass was requested after batches were drawn;
    /// honoring it would erase them.
    ClearAfterDraw,
    /// A loading pass was requested as the first draw of the frame.
    MissingClear,
}

/// Everything the host must do on the device for one accepted draw:
/// create the two buffers, open a pass with these load actions, upload
/// this uniform block, and draw the whole index range once.
#[derive(Clone, Copy, PartialEq, Eq, Structural, Debug)]
pub struct DrawPlan {
    pub color_load: LoadAction,
    pub depth_load: LoadAction,
    pub vertex_count: u32,
    pub vertex_buffer_bytes: u64,
    pub index_count: u32,
    pub index_buffer_bytes: u64,
    pub uniform: CameraUniform,
}

/// The load action of a pass: the frame's first pass clears, every
/// later one loads.
pub open spec fn load_of(first_pass: bool) -> LoadAction {
    if first_pass {
        LoadAction::Clear
    } else {
        LoadAction::Load
    }
}

/// The aspect ratio of a framebuffer, in millionths.
pub open spec fn aspect_of(width: int, height: int) -> int {
    width * 1_000_000 / height
}

/// The rendering core: camera, descriptor state, and the per-frame
/// sequencing state.
pub struct Renderer {
    pub camera: OrbitCamera,
    pub surface: SurfaceConfig,
    pub depth: DepthConfig,
    pub pipeline: PipelineConfig,
    pub frame_open: bool,
    pub drawn_in_frame: u64,
}

/// A draw is accepted exactly when a frame is open and the first-pass
/// flag agrees with whether anything was drawn in it yet.
pub open spec fn render_accepts(r: Renderer, first_pass: bool) -> bool {
    r.frame_open && (first_pass <==> r.drawn_in_frame == 0)
}

/// The renderer after one accepted draw: one more batch in the frame.
pub open spec fn render_step(r: Renderer) -> Renderer {
    Renderer { drawn_in_frame: (r.drawn_in_frame + 1) as u64, ..r }
}

impl Renderer {
    /// Internal consistency: a well-formed camera whose aspect matches
    /// the framebuffer, matching descriptors, and draws only inside an
    /// open frame.
    pub open spec fn wf(self) -> bool {
        &&& self.camera.wf()
        &&& 1 <= self.surface.width <= MAX_DIM
        &&& 1 <= self.surface.height <= MAX_DIM
        &&& self.surface.height <= 1_000 * self.surface.width
        &&& self.surface == surface_spec(self.surface.width, self.surface.height)
        &&& self.depth == depth_spec(self.surface.width, self.surface.height)
        &&& self.pipeline == pipeline_spec()
        &&& self.drawn_in_frame > 0 ==> self.frame_open
    }

    /// Create the renderer for an initial framebuffer size: the default
    /// camera at the framebuffer's aspect ratio, the fixed pipeline, and
    /// no frame in flight. The height may exceed the width at most a
    /// thousandfold, so the aspect ratio stays representable.
    pub fn new(width: u32, height: u32) -> (r: Renderer)
        requires
            1 <= width <= MAX_DIM,
            1 <= height <= MAX_DIM,
            height <= 1_000 * width,
        ensures
            r.camera == (OrbitCamera {
                aspect: r.camera.aspect,
                fovy: 45_000_000i64,
                znear: 100_000i64,
                zfar: 100_000_000i64,
                target_x: 0i64,
                target_y: 0i64,
                target_z: 0i64,
                range_base: 10_000_000i64,
                zoom: 0i64,
                azimuth: 45_000_000i64,
                elevation: 45_000_000i64,
            }),
            r.camera.aspect == aspect_of(width as int, height as int),
            r.surface == surface_spec(width, height),
            r.depth == depth_spec(width, height),
            r.pipeline == pipeline_spec(),
            !r.frame_open,
            r.drawn_in_frame == 0,
            r.wf(),
    {
        let aspect = Self::aspect_micro_of(width, height);
        let camera = OrbitCamera::default(aspect);
        Renderer {
            camera,
            surface: SurfaceConfig {
                width,
                height,
                format: TextureFormat::Bgra8UnormSrgb,
                present_mode: PresentMode::Mailbox,
            },
            depth: DepthConfig { width, height, format: TextureFormat::Depth32Float },
            pipeline: pipeline_config(),
            frame_open: false,
            drawn_in_frame: 0,
        }
    }

    /// The aspect ratio of a framebuffer in millionths, within the
    /// camera's representable bounds.
    fn aspect_micro_of(width: u32, height: u32) -> (a: i64)
        requires
            1 <= width <= MAX_DIM,
            1 <= height <= MAX_DIM,
            height <= 1_000 * width,
        ensures
            a == aspect_of(width as int, height as int),
            ASPECT_MIN <= a <= ASPECT_MAX,
    {
        let num: u64 = (width as u64) * 1_000_000;
        let a: u64 = num / (height as u64);
        proof {
            vstd::arithmetic::div_mod::lemma_div_is_ordered(
                1_000 * (height as int),
                num as int,
                height as int,
            );
            vstd::arithmetic::div_mod::lemma_div_multiples_vanish(1_000, height as int);
            assert((height as int) * 1_000 == 1_000 * (height as int));
            vstd::arithmetic::div_mod::lemma_div_is_ordered_by_denominator(
                num as int,
                1,
                height as int,
            );
            assert(num as int / 1 == num as int) by {
                vstd::arithmetic::div_mod::lemma_div_multiples_vanish(num as int, 1);
            }
        }
        a as i64
    }

    /// Recreate the swapchain and depth descriptors at a new size and
    /// update the camera's aspect ratio; target, range, azimuth and
    /// elevation are untouched, as is the pipeline and any open frame.
    pub fn resize(&mut self, width: u32, height: u32)
        requires
            old(self).wf(),
            1 <= width <= MAX_DIM,
            1 <= height <= MAX_DIM,
            height <= 1_000 * width,
        ensures
            *final(self) == (Renderer {
                camera: final(self).camera,
                surface: surface_spec(width, height),
                depth: depth_spec(width, height),
                ..*old(self)
            }),
            final(self).camera == (OrbitCamera {
                aspect: final(self).camera.aspect,
                ..old(self).camera
            }),
            final(self).camera.aspect == aspect_of(width as int, height as int),
            final(self).wf(),
    {
        let aspect = Self::aspect_micro_of(width, height);
        self.camera.set_aspect(aspect);
        self.surface = SurfaceConfig {
            width,
            height,
            format: TextureFormat::Bgra8UnormSrgb,
            present_mode: PresentMode::Mailbox,
        };
        self.depth = DepthConfig { width, height, format: TextureFormat::Depth32Float };
    }

    /// Open a frame. Refused while another frame is open: a frame, once
    /// acquired, must be submitted before the next acquisition.
    pub fn acquire_frame(&mut self) -> (r: Result<(), RenderError>)
        requires
            old(self).wf(),
        ensures
            old(self).frame_open ==> r == Err::<(), RenderError>(RenderError::FrameAlreadyAcquired)
                && *final(self) == *old(self),
            !old(self).frame_open ==> r == Ok::<(), RenderError>(())
                && *final(self) == (Renderer {
                    frame_open: true,
                    drawn_in_frame: 0u64,
                    ..*old(self)
                }),
            final(self).wf(),
    {
        if self.frame_open {
            Err(RenderError::FrameAlreadyAcquired)
        } else {
            self.frame_open = true;
            self.drawn_in_frame = 0;
            Ok(())
        }
    }

    /// Draw one batch into the open frame. The first batch of the frame,
    /// and only it, must be submitted with `first_pass` set: its pass
    /// clears the color and depth attachments, and every later pass
    /// loads them, so batches accumulate into one image. On acceptance
    /// the returned plan carries the buffer sizes, the load actions and
    /// a freshly derived camera uniform; on refusal the renderer is
    /// unchanged and nothing is to be executed.
    pub fn render(&mut self, batch: &GeometryBatch, first_pass: bool) -> (r: Result<
        DrawPlan,
        RenderError,
    >)
        requires
            old(self).wf(),
            batch.wf(),
            batch.vertices@.len() <= 0xFFFF_FFFF,
            batch.indices@.len() <= 0xFFFF_FFFF,
            old(self).drawn_in_frame < 0xFFFF_FFFF_FFFF_FFFF,
        ensures
            !old(self).frame_open ==> r == Err::<DrawPlan, RenderError>(
                RenderError::NoFrameAcquired,
            ),
            old(self).frame_open && first_pass && old(self).drawn_in_frame > 0 ==> r == Err::<
                DrawPlan,
                RenderError,
            >(RenderError::ClearAfterDraw),
            old(self).frame_open && !first_pass && old(self).drawn_in_frame == 0 ==> r == Err::<
                DrawPlan,
                RenderError,
            >(RenderError::MissingClear),
            r is Err ==> *final(self) == *old(self),
            r is Ok <==> render_accepts(*old(self), first_pass),
            r is Ok ==> *final(self) == render_step(*old(self)),
            r is Ok ==> {
                let plan = r->Ok_0;
                &&& plan.color_load == load_of(first_pass)
                &&& plan.depth_load == load_of(first_pass)
                &&& plan.vertex_count == batch.vertices@.len()
                &&& plan.vertex_buffer_bytes == batch.vertices@.len() * VERTEX_STRIDE
                &&& plan.index_count == batch.indices@.len()
                &&& plan.index_buffer_bytes == batch.indices@.len() * 4
                &&& plan.uniform.camera_pos.x == eye_x(old(self).camera)
                &&& plan.uniform.camera_pos.y == eye_y(old(self).camera)
                &&& plan.uniform.camera_pos.z == eye_z(old(self).camera)
                &&& plan.uniform.camera_pos.w == SCALE
                &&& mat_to_g(plan.uniform.view_proj) == view_proj_g(old(self).camera)
            },
            final(self).wf(),
    {
        if !self.frame_open {
            return Err(RenderError::NoFrameAcquired);
        }
        if first_pass && self.drawn_in_frame > 0 {
            return Err(RenderError::ClearAfterDraw);
        }
        if !first_pass && self.drawn_in_frame == 0 {
            return Err(RenderError::MissingClear);
        }
        let uniform = self.camera.generate_uniform();
        let load = if first_pass {
            LoadAction::Clear
        } else {
            LoadAction::Load
        };
        let vertex_count = batch.vertices.len() as u32;
        let index_count = batch.indices.len() as u32;
        let plan = DrawPlan {
            color_load: load,
            depth_load: load,
            vertex_count,
            vertex_buffer_bytes: (vertex_count as u64) * VERTEX_STRIDE,
            index_count,
            index_buffer_bytes: (index_count as u64) * 4,
            uniform,
        };
        self.drawn_in_frame = self.drawn_in_frame + 1;
        Ok(plan)
    }

    /// Close the frame, empty or not. Refused when no frame is open.
    pub fn submit_frame(&mut self) -> (r: Result<(), RenderError>)
        requires
            old(self).wf(),
        ensures
            !old(self).frame_open ==> r == Err::<(), RenderError>(RenderError::NoFrameAcquired)
                && *final(self) == *old(self),
            old(self).frame_open ==> r == Ok::<(), RenderError>(())
                && *final(self) == (Renderer {
                    frame_open: false,
                    drawn_in_frame: 0u64,
                    ..*old(self)
                }),
            final(self).wf(),
    {
        if !self.frame_open {
            Err(RenderError::NoFrameAcquired)
        } else {
            self.frame_open = false;
            self.drawn_in_frame = 0;
            Ok(())
        }
    }
}

/// Composing a frame from two batches: the first draw must clear and is
/// accepted exactly once, and after it only loading draws are accepted,
/// so the second batch is composited over the first instead of erasing
/// it. The clear of a frame happens exactly once, before the first
/// batch, and never again until the next frame.
pub proof fn lemma_compose_two_batches(r0: Renderer)
    requires
        r0.frame_open,
        r0.drawn_in_frame == 0,
    ensures
        render_accepts(r0, true),
        load_of(true) == LoadAction::Clear,
        !render_accepts(r0, false),
        render_accepts(render_step(r0), false),
        load_of(false) == LoadAction::Load,
        !render_accepts(render_step(r0), true),
{
}

} // verus!
