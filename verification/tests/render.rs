use editor_platform::atlas::{AtlasTextureId, AtlasTextureKind};
use editor_platform::frames::swaps::PlatformDrawResult;
use editor_platform::geometry::{
    point, size, Bounds, DevicePixels, Pixels, ScaledPixels, Size, UNITS_PER_PIXEL,
};
use editor_platform::present::damage::{RedrawPlan, ScissorRect};
use editor_platform::present::draw::FrameStart;
use editor_platform::render::encode::{
    draw_primitives_to_texture, encode_with_growing_buffers, path_sprites, path_vertices,
    DrawCommand, InstanceKind, InstanceSizes, PathRasterizationVertex, PathSprite, PrimitiveBatch,
    PrimitiveRange, Scene, ScenePath, SceneTooLarge,
};
use editor_platform::render::instance_buffer::{
    align_offset, align_to, buffer_storage, AcquiredBuffer, BufferStorage, InstanceBuffer,
    InstanceBufferPool, InstanceBufferTooLarge,
};
use editor_platform::render::renderer::{
    contents_update, drawn_result, plan_passes, submitted_result, ContentsUpdate, DrawnFrame,
    GpuTraits, LayerState, MetalHeadlessRenderer, MetalRenderer, PassPlan, PresentOrder,
    PresenterFrame, RenderTarget,
};
use editor_platform::render::resources::{
    choose_device, image_from_pixels, iosurface_layout, plan_path_textures, swap_red_and_blue,
    unit_vertices, BlendFactor, DeviceTraits, IosurfaceLayout, MultisampleTexture, PathTextures,
    Pipeline, RenderError, TextureStorage,
};
use editor_platform::time::{Duration, Instant};

const SIZES: InstanceSizes = InstanceSizes {
    shadow: 100,
    quad: 200,
    underline: 50,
    monochrome_sprite: 80,
    polychrome_sprite: 90,
    path_vertex: 40,
    path_sprite: 16,
    surface: 32,
};

fn range(start: usize, end: usize) -> PrimitiveRange {
    PrimitiveRange { start, end }
}

fn device_size(width: i32, height: i32) -> Size<DevicePixels> {
    size(DevicePixels(width), DevicePixels(height))
}

fn scaled(x: i64, y: i64, width: i64, height: i64) -> Bounds<ScaledPixels> {
    Bounds {
        origin: point(
            ScaledPixels(x * UNITS_PER_PIXEL),
            ScaledPixels(y * UNITS_PER_PIXEL),
        ),
        size: size(
            ScaledPixels(width * UNITS_PER_PIXEL),
            ScaledPixels(height * UNITS_PER_PIXEL),
        ),
    }
}

fn device(x: i32, y: i32, width: i32, height: i32) -> Bounds<DevicePixels> {
    Bounds {
        origin: point(DevicePixels(x), DevicePixels(y)),
        size: device_size(width, height),
    }
}

fn path(order: u32, vertex_count: usize, bounds: Bounds<ScaledPixels>) -> ScenePath {
    ScenePath {
        order,
        vertex_count,
        bounds,
        content_mask: scaled(0, 0, 100, 100),
    }
}

fn empty_scene() -> Scene {
    Scene {
        shadows: 0,
        quads: 0,
        underlines: 0,
        monochrome_sprites: 0,
        polychrome_sprites: 0,
        surfaces: 0,
        paths: vec![],
        batches: vec![],
    }
}

fn scene_of_quads(count: usize) -> Scene {
    Scene {
        quads: count,
        batches: vec![PrimitiveBatch::Quads(range(0, count))],
        ..empty_scene()
    }
}

fn full_scene() -> Scene {
    Scene {
        shadows: 3,
        quads: 2,
        underlines: 1,
        monochrome_sprites: 4,
        polychrome_sprites: 1,
        surfaces: 2,
        paths: vec![
            path(1, 3, scaled(0, 0, 10, 10)),
            path(1, 6, scaled(20, 20, 10, 10)),
        ],
        batches: vec![
            PrimitiveBatch::Shadows(range(0, 3)),
            PrimitiveBatch::Quads(range(1, 2)),
            PrimitiveBatch::Paths(range(0, 2)),
            PrimitiveBatch::Underlines(range(1, 1)),
            PrimitiveBatch::MonochromeSprites { texture_id: texture(1), range: range(0, 4) },
            PrimitiveBatch::PolychromeSprites { texture_id: texture(2), range: range(0, 1) },
            PrimitiveBatch::Surfaces(range(0, 2)),
        ],
    }
}

fn texture(index: u32) -> AtlasTextureId {
    AtlasTextureId { index, kind: AtlasTextureKind::Monochrome }
}

fn gpu() -> GpuTraits {
    GpuTraits { is_apple_gpu: true, is_unified_memory: true }
}

#[test]
fn alignment_is_least() {
    assert_eq!(align_to(0, 256), 0);
    assert_eq!(align_to(1, 256), 256);
    assert_eq!(align_to(256, 256), 256);
    assert_eq!(align_to(300, 64), 320);
    let mut offset = 257;
    align_offset(&mut offset);
    assert_eq!(offset, 512);
}

#[test]
fn pools_reuse_buffers_of_their_size() {
    assert_eq!(buffer_storage(true), BufferStorage::SharedWriteCombined);
    assert_eq!(buffer_storage(false), BufferStorage::Managed);

    let mut pool: InstanceBufferPool<&str> = InstanceBufferPool::default();
    assert_eq!(pool.buffer_size, 2 * 1024 * 1024);
    assert!(matches!(
        pool.acquire(true),
        AcquiredBuffer::Create { size: 2_097_152, storage: BufferStorage::SharedWriteCombined }
    ));
    pool.release(InstanceBuffer { buffer: "small", size: 2_097_152 });
    pool.release(InstanceBuffer { buffer: "other", size: 4 });
    assert_eq!(pool.buffers, vec!["small"]);
    assert!(matches!(
        pool.acquire(true),
        AcquiredBuffer::Reused(InstanceBuffer { buffer: "small", size: 2_097_152 })
    ));
    assert_eq!(pool.grow(), Ok(()));
    assert_eq!(pool.buffer_size, 4 * 1024 * 1024);
    pool.reset(256 * 1024 * 1024);
    assert_eq!(
        pool.grow(),
        Err(InstanceBufferTooLarge { size: 256 * 1024 * 1024 })
    );
}

#[test]
fn scenes_are_laid_out_batch_by_batch() {
    let encoded = draw_primitives_to_texture(&full_scene(), SIZES, true, 10_000)
        .expect("there is room");
    assert_eq!(
        encoded.commands,
        vec![
            DrawCommand::Instances { kind: InstanceKind::Shadow, first: 0, count: 3, offset: 0 },
            DrawCommand::Instances { kind: InstanceKind::Quad, first: 1, count: 1, offset: 512 },
            DrawCommand::RasterizePaths { range: range(0, 2), offset: 768 },
            DrawCommand::ResumePass,
            DrawCommand::PathSprites { range: range(0, 2), count: 2, offset: 1280 },
            DrawCommand::Instances {
                kind: InstanceKind::MonochromeSprite(texture(1)),
                first: 0,
                count: 4,
                offset: 1536,
            },
            DrawCommand::Instances {
                kind: InstanceKind::PolychromeSprite(texture(2)),
                first: 0,
                count: 1,
                offset: 2048,
            },
            DrawCommand::Surface { index: 0, offset: 2304 },
            DrawCommand::Surface { index: 1, offset: 2560 },
        ]
    );
    assert_eq!(encoded.used, 2592);
}

#[test]
fn larger_buffers_keep_the_layout() {
    let tight = draw_primitives_to_texture(&full_scene(), SIZES, true, 2592).expect("it fits");
    let wide = draw_primitives_to_texture(&full_scene(), SIZES, true, 1 << 20).expect("it fits");
    assert_eq!(tight.commands, wide.commands);
    assert!(draw_primitives_to_texture(&full_scene(), SIZES, true, 2591).is_err());
}

#[test]
fn scenes_without_room_are_counted() {
    let error = draw_primitives_to_texture(&full_scene(), SIZES, false, 10_000)
        .err()
        .expect("there is no texture for the paths");
    assert_eq!(
        error,
        SceneTooLarge {
            paths: 2,
            shadows: 3,
            quads: 2,
            underlines: 1,
            monochrome_sprites: 4,
            polychrome_sprites: 1,
            surfaces: 2,
        }
    );
    assert_eq!(
        error.message(),
        "scene too large: 2 paths, 3 shadows, 2 quads, 1 underlines, 4 mono, 1 poly, 2 surfaces"
    );
}

#[test]
fn empty_path_batches_only_resume_the_pass() {
    let scene = Scene {
        batches: vec![PrimitiveBatch::Paths(range(0, 0))],
        ..empty_scene()
    };
    let encoded = draw_primitives_to_texture(&scene, SIZES, false, 0).expect("nothing is drawn");
    assert_eq!(encoded.commands, vec![DrawCommand::ResumePass]);
    assert_eq!(encoded.used, 0);
}

#[test]
fn buffers_grow_until_a_scene_fits() {
    let mut pool: InstanceBufferPool<u8> = InstanceBufferPool::new();
    pool.release(InstanceBuffer { buffer: 7, size: 2_097_152 });
    let (encoded, acquired) =
        encode_with_growing_buffers(&mut pool, false, &scene_of_quads(20_000), SIZES, true)
            .expect("a larger buffer holds the scene");
    assert_eq!(encoded.used, 4_000_000);
    assert!(matches!(
        acquired,
        AcquiredBuffer::Create { size: 4_194_304, storage: BufferStorage::Managed }
    ));
    assert_eq!(pool.buffer_size, 4_194_304);
    assert!(pool.buffers.is_empty());

    let error = encode_with_growing_buffers(&mut pool, false, &scene_of_quads(2_000_000), SIZES, true)
        .err()
        .expect("no buffer holds the scene");
    assert_eq!(error, InstanceBufferTooLarge { size: 268_435_456 });
}

#[test]
fn paths_of_one_order_are_copied_one_by_one() {
    let paths = vec![
        path(1, 3, scaled(-5, 0, 10, 10)),
        path(1, 3, scaled(95, 95, 10, 10)),
        path(2, 3, scaled(20, 20, 10, 10)),
    ];
    assert_eq!(
        path_sprites(&paths, range(0, 2)),
        vec![
            PathSprite { bounds: scaled(0, 0, 5, 10) },
            PathSprite { bounds: scaled(95, 95, 5, 5) },
        ]
    );
    assert_eq!(
        path_sprites(&paths, range(1, 3)),
        vec![PathSprite { bounds: scaled(20, 20, 80, 80) }]
    );
    assert_eq!(path_sprites(&paths, range(3, 3)), vec![]);
}

#[test]
fn outlines_are_written_path_by_path() {
    let paths = vec![
        path(1, 5, scaled(0, 0, 1, 1)),
        path(1, 2, scaled(-5, 0, 10, 10)),
        path(2, 0, scaled(1, 1, 1, 1)),
        path(2, 1, scaled(95, 95, 10, 10)),
    ];
    let vertex = |path, vertex, bounds| PathRasterizationVertex { path, vertex, bounds };
    assert_eq!(
        path_vertices(&paths, range(1, 4)),
        vec![
            vertex(1, 0, scaled(0, 0, 5, 10)),
            vertex(1, 1, scaled(0, 0, 5, 10)),
            vertex(3, 0, scaled(95, 95, 5, 5)),
        ]
    );
    assert!(path_vertices(&paths, range(2, 2)).is_empty());
}

#[test]
fn built_in_devices_that_save_power_are_preferred() {
    let device = |is_removable, is_low_power| DeviceTraits { is_removable, is_low_power };
    assert_eq!(choose_device(&vec![]), None);
    assert_eq!(
        choose_device(&vec![device(true, true), device(false, false), device(false, true)]),
        Some(2)
    );
    assert_eq!(
        choose_device(&vec![device(true, true), device(false, false), device(false, false)]),
        Some(1)
    );
}

#[test]
fn shared_surfaces_have_padded_rows() {
    assert_eq!(
        iosurface_layout(device_size(100, 50)),
        IosurfaceLayout {
            width: 100,
            height: 50,
            bytes_per_row: 512,
            bytes_per_element: 4,
            pixel_format: i32::from_be_bytes(*b"BGRA"),
        }
    );
    let smallest = iosurface_layout(device_size(0, -4));
    assert_eq!((smallest.width, smallest.height, smallest.bytes_per_row), (1, 1, 256));
}

#[test]
fn path_textures_have_several_samples() {
    assert_eq!(
        plan_path_textures(device_size(10, 20), 4, true),
        PathTextures {
            intermediate: Some(device_size(10, 20)),
            multisample: Some(MultisampleTexture {
                sample_count: 4,
                storage: TextureStorage::Memoryless,
            }),
        }
    );
    assert_eq!(
        plan_path_textures(device_size(10, 20), 2, false).multisample,
        Some(MultisampleTexture { sample_count: 2, storage: TextureStorage::Private })
    );
    assert_eq!(plan_path_textures(device_size(10, 20), 1, true).multisample, None);
    assert_eq!(
        plan_path_textures(device_size(0, 20), 4, true),
        PathTextures { intermediate: None, multisample: None }
    );
}

#[test]
fn pipelines_name_their_functions() {
    assert_eq!(Pipeline::PathRasterization.label(), "paths_rasterization");
    assert_eq!(Pipeline::PathRasterization.sample_count(), 4);
    assert_eq!(Pipeline::Quads.sample_count(), 1);
    assert_eq!(Pipeline::Quads.vertex_function(), "quad_vertex");
    assert_eq!(Pipeline::Surfaces.fragment_function(), "surface_fragment");
    let over = Pipeline::Quads.blending();
    assert_eq!(over.source_rgb, BlendFactor::SourceAlpha);
    assert_eq!(over.destination_alpha, BlendFactor::One);
    let sprites = Pipeline::PathSprites.blending();
    assert_eq!(sprites.source_rgb, BlendFactor::One);
    assert_eq!(sprites.destination_alpha, BlendFactor::One);
    let paths = Pipeline::PathRasterization.blending();
    assert_eq!(paths.destination_alpha, BlendFactor::OneMinusSourceAlpha);
}

#[test]
fn unit_square_has_two_triangles() {
    let corner = |x: f32, y: f32| (y.to_bits() as u64) << 32 | x.to_bits() as u64;
    assert_eq!(
        unit_vertices(),
        [
            corner(0.0, 0.0),
            corner(1.0, 0.0),
            corner(0.0, 1.0),
            corner(0.0, 1.0),
            corner(1.0, 0.0),
            corner(1.0, 1.0),
        ]
    );
}

#[test]
fn swapping_twice_changes_nothing() {
    let mut pixels = vec![1, 2, 3, 4, 5, 6, 7, 8, 9, 10];
    swap_red_and_blue(&mut pixels);
    assert_eq!(pixels, vec![3, 2, 1, 4, 7, 6, 5, 8, 9, 10]);
    swap_red_and_blue(&mut pixels);
    assert_eq!(pixels, vec![1, 2, 3, 4, 5, 6, 7, 8, 9, 10]);
}

#[test]
fn images_are_made_from_all_their_pixels() {
    let image = image_from_pixels(2, 1, vec![1, 2, 3, 4, 5, 6, 7, 8]).expect("all bytes are there");
    assert_eq!((image.width, image.height), (2, 1));
    assert_eq!(image.data, vec![3, 2, 1, 4, 7, 6, 5, 8]);
    assert_eq!(
        image_from_pixels(2, 1, vec![1, 2, 3]).err(),
        Some(RenderError::MissingPixels)
    );
}

#[test]
fn presenters_tell_the_scheduler_more() {
    let mut renderer: MetalRenderer<u8> = MetalRenderer::new_renderer(
        false,
        gpu(),
        true,
        true,
        size(Pixels(UNITS_PER_PIXEL * 9 + 1), Pixels(UNITS_PER_PIXEL * 5)),
    );
    assert!(!renderer.opaque);
    assert!(renderer.supports_swap_completion_feedback());
    assert!(!renderer.supports_delayed_begin_frame_scheduling());
    assert_eq!(renderer.max_pending_swaps(), Some(2));
    match &renderer.target {
        RenderTarget::Presenter(presenter) => {
            assert_eq!(presenter.drawable_size(), device_size(10, 5));
        }
        _ => panic!("buffers are handed to the screen"),
    }
    assert!(!renderer.update_drawable_size(device_size(10, 5)));
    assert!(renderer.update_drawable_size(device_size(20, 5)));
    renderer.update_transparency(false);
    assert!(renderer.opaque);

    let layer: MetalRenderer<u8> = MetalRenderer::new_renderer(
        true,
        gpu(),
        false,
        true,
        size(Pixels(0), Pixels(0)),
    );
    assert!(matches!(layer.target, RenderTarget::Layer));
    assert!(!layer.supports_swap_completion_feedback());
    assert!(layer.supports_delayed_begin_frame_scheduling());
    assert_eq!(layer.max_pending_swaps(), None);
    assert_eq!(layer.flush_ready_display_frames(), 0);
}

#[test]
fn frames_go_to_a_buffer_of_the_presenter() {
    let mut renderer: MetalRenderer<u8> = MetalRenderer::new_chromium_pipeline(
        gpu(),
        false,
        true,
        size(Pixels(UNITS_PER_PIXEL * 100), Pixels(UNITS_PER_PIXEL * 50)),
    );
    renderer.set_deferred_frame_callback(true);
    renderer.set_swap_completion_callback(true);
    renderer.set_presentation_feedback_callback(true);
    let now = Instant::from_nanos(1_000);
    let scene = scene_of_quads(2);
    assert!(matches!(
        renderer.draw_chromium_pipeline(&scene, None, SIZES, now, false),
        PresenterFrame::Finish(PlatformDrawResult::Skipped)
    ));
    for expected in 1..=2 {
        let frame = renderer.draw_chromium_pipeline(
            &scene,
            Some(scaled(1, 1, 2, 2)),
            SIZES,
            now,
            expected == 2,
        );
        match frame {
            PresenterFrame::Submit { drawn, submission, .. } => {
                assert_eq!(drawn.encoded.used, 400);
                assert!(drawn.plan.clears_to_opaque);
                assert_eq!(submission.order, expected);
                assert_eq!(
                    submitted_result(&submission),
                    PlatformDrawResult::Submitted(Some(expected as u64))
                );
            }
            PresenterFrame::Finish(_) => panic!("there is room"),
        }
    }
    assert!(matches!(
        renderer.draw_chromium_pipeline(&scene, Some(scaled(1, 1, 2, 2)), SIZES, now, false),
        PresenterFrame::Finish(PlatformDrawResult::Deferred)
    ));
    match &mut renderer.target {
        RenderTarget::Presenter(presenter) => {
            assert!(!presenter.complete_submission(1, true, now).commit);
        }
        _ => panic!("buffers are handed to the screen"),
    }
    assert_eq!(renderer.flush_ready_display_frames(), 1);
    let taken = renderer
        .set_display_timing(Instant::from_nanos(9_000_000), Some(Duration::from_millis(8)))
        .expect("a frame is ready");
    assert_eq!(taken.frame.swap_id, 1);
    assert!(!taken.frame.delay_until_next_vsync);
}

#[test]
fn frames_go_to_a_drawable_of_the_layer() {
    let mut renderer: MetalRenderer<u8> = MetalRenderer::new(gpu(), false);
    let scene = scene_of_quads(1);
    let now = Instant::from_nanos(0);
    let layer = LayerState { size: device_size(10, 10), has_drawable: true };
    renderer.set_presentation_feedback_callback(true);
    match renderer.draw(&scene, None, layer, SIZES, now, false) {
        DrawnFrame::Layer { drawn, reports_presentation, order } => {
            assert_eq!(drawn.encoded.used, 200);
            assert_eq!(drawn.plan.redraw.damage, device(0, 0, 10, 10));
            assert!(!drawn.plan.redraw.keep_contents);
            assert!(reports_presentation);
            assert_eq!(order, PresentOrder::PresentThenCommit);
        }
        _ => panic!("the layer has a drawable"),
    }
    renderer.set_presents_with_transaction(true);
    assert!(matches!(
        renderer.draw(&scene, None, layer, SIZES, now, false),
        DrawnFrame::Layer { order: PresentOrder::CommitThenPresent, .. }
    ));
    assert!(matches!(
        renderer.draw(&scene, None, LayerState { has_drawable: false, ..layer }, SIZES, now, false),
        DrawnFrame::Finish(PlatformDrawResult::Deferred)
    ));
    assert!(matches!(
        renderer.draw(
            &scene,
            None,
            LayerState { size: device_size(0, 10), has_drawable: true },
            SIZES,
            now,
            false,
        ),
        DrawnFrame::Finish(PlatformDrawResult::Skipped)
    ));
    assert!(matches!(
        renderer.draw(&scene_of_quads(2_000_000), None, layer, SIZES, now, false),
        DrawnFrame::Finish(PlatformDrawResult::Skipped)
    ));
}

#[test]
fn passes_clear_what_is_drawn_anew() {
    assert_eq!(
        plan_passes(None, device_size(10, 20), false, true, 64),
        PassPlan {
            redraw: RedrawPlan { damage: device(0, 0, 10, 20), keep_contents: false },
            scissor: ScissorRect { x: 0, y: 0, width: 10, height: 20 },
            clears_to_opaque: false,
            modified_bytes: None,
        }
    );
    assert_eq!(
        plan_passes(Some(device(8, 2, 4, 3)), device_size(10, 20), true, false, 64),
        PassPlan {
            redraw: RedrawPlan { damage: device(8, 2, 2, 3), keep_contents: true },
            scissor: ScissorRect { x: 8, y: 2, width: 2, height: 3 },
            clears_to_opaque: true,
            modified_bytes: Some(64),
        }
    );
}

#[test]
fn see_through_windows_start_out_see_through() {
    let gpu = GpuTraits { is_apple_gpu: false, is_unified_memory: false };
    let mut renderer: MetalRenderer<u8> = MetalRenderer::new(gpu, true);
    let scene = scene_of_quads(3);
    let layer = LayerState { size: device_size(10, 10), has_drawable: true };
    let drawn = renderer.render_to_image(&scene, layer, SIZES).ok().expect("a layer draws");
    assert!(!drawn.plan.clears_to_opaque);
    assert_eq!(drawn.plan.modified_bytes, Some(drawn.encoded.used));
    renderer.update_transparency(false);
    let drawn = renderer.render_to_image(&scene, layer, SIZES).ok().expect("a layer draws");
    assert!(drawn.plan.clears_to_opaque);
}

#[test]
fn layer_frames_have_no_number() {
    let now = Instant::from_nanos(0);
    let scene = scene_of_quads(1);
    let layer = LayerState { size: device_size(10, 10), has_drawable: true };
    let mut renderer: MetalRenderer<u8> = MetalRenderer::new(gpu(), false);
    let frame = renderer.draw(&scene, None, layer, SIZES, now, false);
    assert_eq!(drawn_result(&frame), PlatformDrawResult::Submitted(None));
    let none = LayerState { has_drawable: false, ..layer };
    let frame = renderer.draw(&scene, None, none, SIZES, now, false);
    assert_eq!(drawn_result(&frame), PlatformDrawResult::Deferred);

    let side = Pixels(UNITS_PER_PIXEL * 100);
    let mut renderer: MetalRenderer<u8> =
        MetalRenderer::new_chromium_pipeline(gpu(), false, true, size(side, side));
    let frame = renderer.draw(&scene, Some(scaled(1, 1, 2, 2)), layer, SIZES, now, false);
    assert_eq!(drawn_result(&frame), PlatformDrawResult::Submitted(Some(1)));
    let frame = renderer.draw(&scene, None, layer, SIZES, now, false);
    assert_eq!(drawn_result(&frame), PlatformDrawResult::Skipped);
}

#[test]
fn full_presenters_hand_over_and_draw() {
    let side = Pixels(UNITS_PER_PIXEL * 100);
    let mut renderer: MetalRenderer<u8> =
        MetalRenderer::new_chromium_pipeline(gpu(), false, true, size(side, side));
    let now = Instant::from_nanos(0);
    let scene = scene_of_quads(1);
    let damage = Some(scaled(1, 1, 2, 2));
    for _ in 0..2 {
        assert!(matches!(
            renderer.start_frame(),
            FrameStart::Proceed { wait_for: None, committing: None }
        ));
        assert!(matches!(
            renderer.draw_chromium_pipeline(&scene, damage, SIZES, now, false),
            PresenterFrame::Submit { .. }
        ));
    }
    match &mut renderer.target {
        RenderTarget::Presenter(presenter) => {
            presenter.complete_submission(1, true, now);
        }
        _ => panic!("buffers are handed to the screen"),
    }
    match renderer.start_frame() {
        FrameStart::Proceed { committing: Some(oldest), .. } => {
            assert_eq!(oldest.frame.swap_id, 1);
        }
        other => panic!("no frame is handed over: {other:?}"),
    }
    match &mut renderer.target {
        RenderTarget::Presenter(presenter) => {
            presenter.complete_iosurface_frame(now).expect("a frame was taken");
        }
        _ => panic!("buffers are handed to the screen"),
    }
    match renderer.draw_chromium_pipeline(&scene, damage, SIZES, now, false) {
        PresenterFrame::Submit { submission, .. } => assert_eq!(submission.order, 3),
        PresenterFrame::Finish(_) => panic!("there is room"),
    }
    let mut layer: MetalRenderer<u8> = MetalRenderer::new(gpu(), false);
    assert_eq!(layer.start_frame(), FrameStart::Skip);
}

#[test]
fn flushing_hands_over_all_that_are_ready() {
    let side = Pixels(UNITS_PER_PIXEL * 100);
    let mut renderer: MetalRenderer<u8> =
        MetalRenderer::new_chromium_pipeline(gpu(), false, true, size(side, side));
    let now = Instant::from_nanos(0);
    let scene = scene_of_quads(1);
    for _ in 0..2 {
        renderer.draw_chromium_pipeline(&scene, Some(scaled(1, 1, 2, 2)), SIZES, now, false);
    }
    let complete = |renderer: &mut MetalRenderer<u8>, order: usize| match &mut renderer.target {
        RenderTarget::Presenter(presenter) => {
            presenter.complete_submission(order, true, now);
        }
        _ => panic!("buffers are handed to the screen"),
    };
    complete(&mut renderer, 2);
    assert_eq!(renderer.flush_ready_display_frames(), 0);
    complete(&mut renderer, 1);
    let rounds = renderer.flush_ready_display_frames();
    assert_eq!(rounds, 2);
    let mut handed_over = Vec::new();
    for _ in 0..rounds {
        match &mut renderer.target {
            RenderTarget::Presenter(presenter) => {
                let taken = presenter.take_ready_frame().expect("the oldest frame is ready");
                handed_over.push(taken.frame.swap_id);
                presenter.complete_iosurface_frame(now).expect("a frame was taken");
                assert!(presenter.pending_swap_count() < 2);
            }
            _ => panic!("buffers are handed to the screen"),
        }
    }
    assert_eq!(handed_over, vec![1, 2]);
    assert_eq!(renderer.flush_ready_display_frames(), 0);
}

#[test]
fn images_need_something_to_draw_to() {
    let mut renderer: MetalRenderer<u8> = MetalRenderer::new(gpu(), false);
    let scene = scene_of_quads(1);
    let layer = LayerState { size: device_size(10, 10), has_drawable: true };
    assert!(renderer.render_to_image(&scene, layer, SIZES).is_ok());
    assert_eq!(
        renderer
            .render_to_image(&scene, LayerState { has_drawable: false, ..layer }, SIZES)
            .err(),
        Some(RenderError::NoDrawable)
    );
    assert_eq!(
        renderer.render_to_image(&scene_of_quads(2_000_000), layer, SIZES).err(),
        Some(RenderError::InstanceBufferTooLarge(268_435_456))
    );

    let mut headless: MetalHeadlessRenderer<u8> = MetalHeadlessRenderer::new(gpu());
    assert_eq!(
        headless.renderer.render_to_image(&scene, layer, SIZES).err(),
        Some(RenderError::NoLayer)
    );
    assert_eq!(
        headless.render_scene_to_image(&scene, device_size(0, 1), SIZES).err(),
        Some(RenderError::InvalidSize(device_size(0, 1)))
    );
    assert!(headless.render_scene_to_image(&scene, device_size(4, 4), SIZES).is_ok());
    let (new_target, result) = headless.render_scene(&scene, device_size(4, 4), SIZES);
    assert!(new_target && result.is_ok());
    let (new_target, result) = headless.render_scene(&scene, device_size(4, 4), SIZES);
    assert!(!new_target && result.is_ok());
    let (new_target, result) = headless.render_scene(&scene, device_size(-1, 4), SIZES);
    assert!(!new_target);
    assert_eq!(result.err(), Some(RenderError::InvalidSize(device_size(-1, 4))));
}

#[test]
fn contents_are_set_again_only_where_that_shows() {
    assert_eq!(contents_update(true, true, true), ContentsUpdate::MarkChanged);
    assert_eq!(contents_update(true, true, false), ContentsUpdate::ClearThenSet);
    assert_eq!(contents_update(true, false, true), ContentsUpdate::Replace);
    assert_eq!(contents_update(false, false, true), ContentsUpdate::Replace);
}
