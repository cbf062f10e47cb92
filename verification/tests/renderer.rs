use pointview::camera::Camera;
use pointview::geometry::{axes, render_all_vertices, GeometryBatch};
use pointview::renderer::{
    pipeline_config, CompareFunction, LoadAction, PresentMode, PrimitiveTopology, RenderError,
    Renderer, TextureFormat, VertexFormat,
};

fn axes_batch() -> GeometryBatch {
    let vertices = axes();
    let indices = render_all_vertices(&vertices);
    GeometryBatch { vertices, indices }
}

#[test]
fn fixed_pipeline_description() {
    let p = pipeline_config();
    assert_eq!(p.topology, PrimitiveTopology::PointList);
    assert!(p.cull_disabled);
    assert_eq!(p.color_format, TextureFormat::Bgra8UnormSrgb);
    assert!(p.blend_replace);
    assert_eq!(p.depth_format, TextureFormat::Depth32Float);
    assert!(p.depth_write_enabled);
    assert_eq!(p.depth_compare, CompareFunction::Less);
    assert_eq!(p.vertex_stride, 48);
    assert_eq!(p.attr_position.offset, 0);
    assert_eq!(p.attr_position.shader_location, 0);
    assert_eq!(p.attr_position.format, VertexFormat::Float4);
    assert_eq!(p.attr_color.offset, 16);
    assert_eq!(p.attr_color.shader_location, 1);
    assert_eq!(p.attr_color.format, VertexFormat::Float4);
    assert_eq!(p.attr_size.offset, 32);
    assert_eq!(p.attr_size.shader_location, 2);
    assert_eq!(p.attr_size.format, VertexFormat::Float);
}

#[test]
fn new_renderer_matches_framebuffer() {
    let r = Renderer::new(800, 600);
    assert_eq!(r.camera.aspect_micro(), 1_333_333);
    assert_eq!(r.surface.width, 800);
    assert_eq!(r.surface.height, 600);
    assert_eq!(r.surface.format, TextureFormat::Bgra8UnormSrgb);
    assert_eq!(r.surface.present_mode, PresentMode::Mailbox);
    assert_eq!(r.depth.width, 800);
    assert_eq!(r.depth.height, 600);
    assert_eq!(r.depth.format, TextureFormat::Depth32Float);
}

#[test]
fn resize_updates_aspect_and_keeps_camera() {
    let mut r = Renderer::new(800, 600);
    r.camera.set_target(1_000_000, 2_000_000, 3_000_000);
    assert_eq!(r.camera.set_range(5_000_000), Ok(()));
    r.camera.set_azimuth(30_000_000);
    r.camera.set_elevation(-10_000_000);
    r.resize(1024, 768);
    assert_eq!(r.camera.aspect_micro(), 1_333_333);
    assert_eq!(r.surface.width, 1024);
    assert_eq!(r.surface.height, 768);
    assert_eq!(r.depth.width, 1024);
    assert_eq!(r.depth.height, 768);
    // Target, range, azimuth and elevation are untouched.
    assert_eq!(r.camera.target_micro(), (1_000_000, 2_000_000, 3_000_000));
    assert_eq!(r.camera.range_micro(), 5_000_000);
    assert_eq!(r.camera.azimuth_micro(), 30_000_000);
    assert_eq!(r.camera.elevation_micro(), -10_000_000);
    // A size with a different ratio changes the aspect accordingly.
    r.resize(1920, 1080);
    assert_eq!(r.camera.aspect_micro(), 1_777_777);
}

#[test]
fn first_batch_clears_second_loads() {
    let mut r = Renderer::new(800, 600);
    let a = axes_batch();
    let b = axes_batch();
    assert_eq!(r.acquire_frame(), Ok(()));
    let plan_a = r.render(&a, true).unwrap();
    assert_eq!(plan_a.color_load, LoadAction::Clear);
    assert_eq!(plan_a.depth_load, LoadAction::Clear);
    let plan_b = r.render(&b, false).unwrap();
    // The second pass loads what the first drew: batch A survives.
    assert_eq!(plan_b.color_load, LoadAction::Load);
    assert_eq!(plan_b.depth_load, LoadAction::Load);
    assert_eq!(r.submit_frame(), Ok(()));
}

#[test]
fn clear_after_draw_is_detected() {
    let mut r = Renderer::new(800, 600);
    let a = axes_batch();
    assert_eq!(r.acquire_frame(), Ok(()));
    r.render(&a, true).unwrap();
    // A second clearing pass in the same frame would erase the first
    // batch; the state machine refuses it.
    assert_eq!(r.render(&a, true).unwrap_err(), RenderError::ClearAfterDraw);
    assert_eq!(r.submit_frame(), Ok(()));
}

#[test]
fn first_draw_must_clear() {
    let mut r = Renderer::new(800, 600);
    let a = axes_batch();
    assert_eq!(r.acquire_frame(), Ok(()));
    assert_eq!(r.render(&a, false).unwrap_err(), RenderError::MissingClear);
}

#[test]
fn frame_sequencing_is_enforced() {
    let mut r = Renderer::new(800, 600);
    let a = axes_batch();
    assert_eq!(r.render(&a, true).unwrap_err(), RenderError::NoFrameAcquired);
    assert_eq!(r.submit_frame(), Err(RenderError::NoFrameAcquired));
    assert_eq!(r.acquire_frame(), Ok(()));
    assert_eq!(r.acquire_frame(), Err(RenderError::FrameAlreadyAcquired));
    // A frame may be submitted empty.
    assert_eq!(r.submit_frame(), Ok(()));
    // The next frame starts with a clear again.
    assert_eq!(r.acquire_frame(), Ok(()));
    let plan = r.render(&a, true).unwrap();
    assert_eq!(plan.color_load, LoadAction::Clear);
    assert_eq!(r.submit_frame(), Ok(()));
}

#[test]
fn draw_plan_sizes_buffers() {
    let mut r = Renderer::new(800, 600);
    let a = axes_batch();
    assert_eq!(r.acquire_frame(), Ok(()));
    let plan = r.render(&a, true).unwrap();
    assert_eq!(plan.vertex_count, 28);
    assert_eq!(plan.vertex_buffer_bytes, 28 * 48);
    assert_eq!(plan.index_count, 28);
    assert_eq!(plan.index_buffer_bytes, 28 * 4);
    assert_eq!(plan.uniform, r.camera.generate_uniform());
    assert_eq!(r.submit_frame(), Ok(()));
}
