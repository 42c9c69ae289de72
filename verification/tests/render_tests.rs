//! Tests of the resource set, the per-frame command stream, and the pixel
//! semantics of the passes.

use deferred_renderer::context::{
    next_frame_state, BlendMode, Camera, Context, DrawCall, FrameState, Light, Mesh, ResourceName,
    Scene, SurfaceAcquisitionError, TextureFormat,
};
use deferred_renderer::raster::{accumulate_pixel, rasterize_pixel, Fragment, DEPTH_FAR};

fn small_scene() -> Scene {
    Scene {
        meshes: vec![
            Mesh { vertex_buffer: 10, index_buffer: 11, index_count: 36, bind_group: 12 },
            Mesh { vertex_buffer: 20, index_buffer: 21, index_count: 9, bind_group: 22 },
        ],
        lights: vec![
            Light { bind_group: 31 },
            Light { bind_group: 32 },
            Light { bind_group: 33 },
        ],
        camera: Camera { bind_group: 1 },
    }
}

#[test]
fn construction_sizes_every_texture_to_the_surface() {
    let c = Context::new(800, 600, 7, small_scene());
    for t in [
        c.diffuse_texture,
        c.material_texture,
        c.normal_texture,
        c.screen_texture,
        c.depth_texture,
    ] {
        assert_eq!(t.width, 800);
        assert_eq!(t.height, 600);
    }
    assert_eq!(c.depth_texture.format, TextureFormat::Depth32Float);
    assert_eq!(c.screen_texture.format, TextureFormat::Rgba32Float);
}

#[test]
fn construction_fixes_the_stage_interfaces() {
    let c = Context::new(800, 600, 7, small_scene());
    assert_eq!(c.geometry_pipeline.color_targets.len(), 3);
    assert!(c.geometry_pipeline.depth.is_some());
    assert_eq!(c.light_pipeline.color_targets.len(), 1);
    assert_eq!(
        c.light_pipeline.color_targets[0].blend,
        BlendMode::AdditiveOneOne
    );
    assert!(c.light_pipeline.depth.is_none());
    assert_eq!(
        c.post_pipeline.color_targets[0].format,
        TextureFormat::Surface(7)
    );
    // The texture layout is shared by three slots of the light pipeline,
    // not duplicated.
    let texture_slots = c
        .light_pipeline
        .layouts
        .iter()
        .filter(|l| {
            matches!(**l, deferred_renderer::context::LayoutRef::TextureLayout)
        })
        .count();
    assert_eq!(texture_slots, 3);
}

#[test]
fn failed_acquisition_records_nothing() {
    let c = Context::new(800, 600, 7, small_scene());
    assert!(matches!(c.render(None), Err(SurfaceAcquisitionError)));
}

#[test]
fn render_records_three_passes_in_order() {
    let c = Context::new(800, 600, 7, small_scene());
    let plan = c.render(Some(42)).unwrap();
    assert_eq!(plan.display_image, 42);
    assert_eq!(plan.passes.len(), 3);

    let geometry = &plan.passes[0];
    assert_eq!(geometry.color_attachments.len(), 3);
    assert_eq!(
        geometry.color_attachments[0].target,
        ResourceName::DiffuseBuffer
    );
    assert!(geometry.depth_attachment.is_some());
    assert!(geometry.reads.is_empty());
    assert!(geometry.binds_camera);
    assert_eq!(
        geometry.draws,
        vec![
            DrawCall::Indexed { bind_group: 12, vertex_buffer: 10, index_buffer: 11, index_count: 36 },
            DrawCall::Indexed { bind_group: 22, vertex_buffer: 20, index_buffer: 21, index_count: 9 },
        ]
    );

    let light = &plan.passes[1];
    assert_eq!(light.color_attachments.len(), 1);
    assert_eq!(
        light.color_attachments[0].target,
        ResourceName::AccumulationBuffer
    );
    assert_eq!(light.reads.len(), 4);
    assert_eq!(
        light.draws,
        vec![
            DrawCall::LightFullScreen { bind_group: 31 },
            DrawCall::LightFullScreen { bind_group: 32 },
            DrawCall::LightFullScreen { bind_group: 33 },
        ]
    );

    let composite = &plan.passes[2];
    assert_eq!(
        composite.color_attachments[0].target,
        ResourceName::DisplayImage
    );
    assert_eq!(composite.reads, vec![ResourceName::AccumulationBuffer]);
    assert_eq!(composite.draws, vec![DrawCall::CompositeFullScreen]);
}

#[test]
fn frame_state_machine_cycles() {
    let s0 = FrameState::Idle;
    let s1 = next_frame_state(s0);
    let s2 = next_frame_state(s1);
    let s3 = next_frame_state(s2);
    let s4 = next_frame_state(s3);
    let s5 = next_frame_state(s4);
    assert_eq!(s1, FrameState::GeometryRecorded);
    assert_eq!(s2, FrameState::LightRecorded);
    assert_eq!(s3, FrameState::CompositeRecorded);
    assert_eq!(s4, FrameState::Submitted);
    assert_eq!(s5, FrameState::Idle);
}

#[test]
fn nearer_fragment_wins_regardless_of_order() {
    let near = Fragment { depth: 100, diffuse: 1, material: 2, normal: 3 };
    let far = Fragment { depth: 200, diffuse: 4, material: 5, normal: 6 };
    let a = rasterize_pixel(&vec![near, far]);
    let b = rasterize_pixel(&vec![far, near]);
    assert_eq!(a, b);
    assert_eq!(a.depth, 100);
    assert_eq!(a.diffuse, 1);
    assert_eq!(a.material, 2);
    assert_eq!(a.normal, 3);
}

#[test]
fn empty_pixel_stays_cleared() {
    let p = rasterize_pixel(&vec![]);
    assert_eq!(p.depth, DEPTH_FAR);
    assert_eq!(p.diffuse, 0);
}

#[test]
fn light_accumulation_is_order_independent() {
    let a = accumulate_pixel(&vec![10, -3, 7, 100]);
    let b = accumulate_pixel(&vec![100, 7, -3, 10]);
    assert_eq!(a, 114);
    assert_eq!(a, b);
    assert_eq!(accumulate_pixel(&vec![]), 0);
}
