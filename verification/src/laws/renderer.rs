//! What a renderer makes of a scene, told by the scene and the surface.

use crate::frames::swaps::PlatformDrawResult;
use crate::geometry::{Bounds, DevicePixels, Pixels, ScaledPixels, Size};
use crate::laws;
use crate::present::presenter::PresenterState;
use crate::present::draw;
use crate::render::encode::{EncodedScene, InstanceSizes, Scene, SceneTooLarge};
use crate::render::instance_buffer::{
    AcquiredBuffer, BufferStorage, InstanceBufferPool, InstanceBufferTooLarge,
};
use crate::render::renderer::{
    DrawnScene, GpuTraits, MetalRenderer, PassPlan, PresenterFrame, RenderTarget,
};
use crate::render::resources::RenderError;
use crate::render::{encode, instance_buffer, renderer, resources};
use crate::time::Instant;
use vstd::prelude::*;

verus! {

/// A window takes up the fewest whole pixels that hold it.
pub proof fn law_windows_take_up_whole_pixels(length: Pixels)
    ensures
        length.0 <= renderer::pixels_taken(length) * 1_099_511_627_776 < length.0
            + 1_099_511_627_776,
{
}

/// The passes over a texture are cut off at what is drawn, clear to opaque exactly for
/// opaque windows, and tell the GPU about the bytes that were used exactly where it
/// does not share the memory.
pub proof fn law_passes_are_cut_off(
    plan: PassPlan,
    changed: Option<Bounds<DevicePixels>>,
    size: Size<DevicePixels>,
    opaque: bool,
    unified_memory: bool,
    used: usize,
)
    requires
        renderer::is_pass_plan(plan, changed, size, opaque, unified_memory, used),
        size.width.0 > 0,
        size.height.0 > 0,
        changed matches Some(changed) ==> crate::present::damage::within(changed, size),
    ensures
        plan.scissor.x == plan.redraw.damage.origin.x.0,
        plan.scissor.y == plan.redraw.damage.origin.y.0,
        plan.scissor.width == plan.redraw.damage.size.width.0,
        plan.scissor.height == plan.redraw.damage.size.height.0,
        plan.clears_to_opaque == opaque,
        unified_memory ==> plan.modified_bytes is None,
        !unified_memory ==> plan.modified_bytes == Some(used),
        changed is None ==> plan.scissor.width == size.width.0 && plan.scissor.height
            == size.height.0 && !plan.redraw.keep_contents,
        changed matches Some(changed) ==> !changed.spec_is_empty() ==> plan.redraw.damage
            == changed,
{
}

/// Memory that the GPU shares is written once; else it gets a copy.
pub proof fn law_shared_memory_is_not_copied()
    ensures
        instance_buffer::storage_for(true) == BufferStorage::SharedWriteCombined,
        instance_buffer::storage_for(false) == BufferStorage::Managed,
        resources::BGRA_IOSURFACE_PIXEL_FORMAT == (('B' as int * 256 + 'G' as int) * 256
            + 'R' as int) * 256 + 'A' as int,
{
}

/// A scene is laid out in a buffer of the pool's size, one that was used before where
/// there is one and the size stays, and a new one else. Where it has no room it is not
/// laid out.
pub proof fn law_scenes_are_laid_out_in_the_pool<B>(
    before: InstanceBufferPool<B>,
    after: InstanceBufferPool<B>,
    unified_memory: bool,
    scene: Scene,
    sizes: InstanceSizes,
    has_path_texture: bool,
    result: Result<(EncodedScene, AcquiredBuffer<B>), InstanceBufferTooLarge>,
)
    requires
        before.buffer_size > 0,
        encode::encodes_in_pool(
            before,
            after,
            unified_memory,
            scene,
            sizes,
            has_path_texture,
            result,
        ),
    ensures
        match result {
            Ok((encoded, acquired)) => {
                &&& Some(encoded@) == encode::encoding_of(
                    scene.paths@,
                    scene.batches@,
                    sizes,
                    has_path_texture,
                    after.buffer_size as nat,
                )
                &&& after.buffer_size >= before.buffer_size
                &&& match acquired {
                    AcquiredBuffer::Reused(used) => {
                        &&& after.buffer_size == before.buffer_size
                        &&& before.buffers@.len() > 0
                        &&& used.size == before.buffer_size
                        &&& used.buffer == before.buffers@.last()
                        &&& after.buffers@ == before.buffers@.drop_last()
                    },
                    AcquiredBuffer::Create { size, storage } => {
                        &&& size == after.buffer_size
                        &&& storage == if unified_memory {
                            BufferStorage::SharedWriteCombined
                        } else {
                            BufferStorage::Managed
                        }
                        &&& after.buffers@.len() == 0
                        &&& after.buffer_size == before.buffer_size ==> before.buffers@.len() == 0
                    },
                }
            },
            Err(error) => {
                &&& error.size == after.buffer_size
                &&& after.buffer_size >= before.buffer_size
                &&& encode::encoding_of(
                    scene.paths@,
                    scene.batches@,
                    sizes,
                    has_path_texture,
                    after.buffer_size as nat,
                ) is None
            },
        },
{
    laws::render::law_buffers_are_doubled_as_needed(
        scene.paths@,
        scene.batches@,
        sizes,
        has_path_texture,
        before.buffer_size as nat,
    );
    lemma_largest(before.buffer_size as nat);
}

proof fn lemma_largest(size: nat)
    ensures
        encode::largest_size(size) >= size,
    decreases 2 * instance_buffer::MAX_INSTANCE_BUFFER_SIZE - size,
{
    if size < instance_buffer::MAX_INSTANCE_BUFFER_SIZE && size > 0 {
        lemma_largest(2 * size);
    }
}

/// A renderer starts without listeners, textures and buffers; its buffers are two
/// mebibytes large at first, and its paths have four samples a pixel.
pub proof fn law_renderers_start_empty<B>(made: MetalRenderer<B>, gpu: GpuTraits, opaque: bool)
    requires
        made.is_new(gpu, opaque),
    ensures
        made.gpu == gpu,
        made.opaque == opaque,
        !made.presents_with_transaction,
        !made.reports_swaps,
        !made.reports_presentation,
        made.instance_buffer_pool.buffer_size == 2 * 1024 * 1024,
        made.instance_buffer_pool.buffers@.len() == 0,
        made.path_textures.intermediate is None,
        made.path_textures.multisample is None,
        made.path_sample_count == 4,
        made.headless_render_target is None,
{
}

/// A window that hands buffers to the screen starts with buffers of the pixels that it
/// takes up, and nothing on its way.
pub proof fn law_windows_start_with_buffers_of_their_size<B>(
    made: MetalRenderer<B>,
    hosted: bool,
    bounds: Size<Pixels>,
)
    requires
        made.hands_over_buffers(hosted, bounds),
    ensures
        ({
            let width = renderer::pixels_taken(bounds.width);
            let height = renderer::pixels_taken(bounds.height);
            &&& made.target matches RenderTarget::Presenter(held)
            &&& held@.drawable_size.width.0 == width as i32
            &&& held@.drawable_size.height.0 == height as i32
            &&& held@.uses_ca_context == hosted
            &&& held@.pending == 0
            &&& held@.frames.len() == 0
            &&& held@.current is None
            &&& width as i32 > 0 && height as i32 > 0 ==> held@.buffers.len() == 3
        }),
{
}

/// A frame is skipped where the surface has no pixels or none of them changed, put off
/// where pixels changed and no buffer is free, and submitted to the first free buffer
/// where the scene has room. It draws all that the buffer has to draw, which is at
/// least what changed, and gets the next number and fence.
pub proof fn law_changed_frames_are_submitted<B>(
    before: MetalRenderer<B>,
    after: MetalRenderer<B>,
    scene: Scene,
    scene_damage: Option<Bounds<ScaledPixels>>,
    sizes: InstanceSizes,
    now: Instant,
    is_handling_interaction: bool,
    frame: PresenterFrame<B>,
    held: PresenterState,
)
    requires
        before.target matches RenderTarget::Presenter(target) && target@ == held,
        before.presents(
            &after,
            &scene,
            scene_damage,
            sizes,
            now,
            is_handling_interaction,
            frame,
        ),
        held.submissions < usize::MAX,
        held.fences < u64::MAX,
    ensures
        ({
            let size = held.drawable_size;
            let has_pixels = size.width.0 > 0 && size.height.0 > 0;
            let unchanged = draw::is_scene_damage(None, scene_damage, size);
            &&& after.target matches RenderTarget::Presenter(shown)
            &&& !has_pixels || unchanged ==> frame == PresenterFrame::<B>::Finish(
                PlatformDrawResult::Skipped,
            ) && shown@ == held
            &&& has_pixels && !unchanged && held.next_buffer() is None ==> frame
                == PresenterFrame::<B>::Finish(PlatformDrawResult::Deferred) && shown@.deferred
                && shown@.frames == held.frames && shown@.buffers == held.buffers
            &&& has_pixels && !unchanged && held.next_buffer() is Some ==> {
                let fits = before.fitting_size(&scene, sizes) is Some;
                &&& !fits ==> frame == PresenterFrame::<B>::Finish(PlatformDrawResult::Skipped)
                    && shown@.frames == held.frames
                &&& fits ==> {
                    &&& frame matches PresenterFrame::Submit {
                        buffer_index,
                        damage,
                        drawn,
                        submission,
                    }
                    &&& held.next_buffer() == Some(buffer_index)
                    &&& submission.order == held.submissions + 1
                    &&& submission.fence_value == held.fences + 1
                    &&& submission.recreate_layers == held.resized
                    &&& shown@.frames.len() == held.frames.len() + 1
                    &&& shown@.frames.last().order == submission.order
                    &&& shown@.frames.last().frame.buffer_index == buffer_index
                    &&& shown@.frames.last().frame.submitted_damage == damage
                    &&& shown@.frames.last().frame.ready_time == now
                    &&& shown@.frames.last().frame.delay_until_next_vsync
                        == is_handling_interaction
                    &&& drawn.plan.clears_to_opaque == before.opaque
                    &&& renderer::is_pass_plan(
                        drawn.plan,
                        Some(damage),
                        size,
                        before.opaque,
                        before.gpu.is_unified_memory,
                        drawn.encoded.used,
                    )
                    &&& exists|changed: Bounds<DevicePixels>| #[trigger]
                        draw::is_scene_damage(Some(changed), scene_damage, size) && damage
                            == held.with_damage(changed).buffers[buffer_index as int].damage
                }
            }
        }),
{
}

/// A scene is drawn to an image exactly if that has pixels and the scene has room, over
/// all of the image, and else it is told why not.
pub proof fn law_images_are_drawn_in_full<B>(
    before: MetalRenderer<B>,
    after: MetalRenderer<B>,
    scene: Scene,
    size: Size<DevicePixels>,
    sizes: InstanceSizes,
    result: Result<DrawnScene<B>, RenderError>,
)
    requires
        before.wf(),
        before.renders_image(&after, &scene, size, sizes, result),
    ensures
        ({
            let has_pixels = size.width.0 > 0 && size.height.0 > 0;
            &&& !has_pixels ==> result == Err::<DrawnScene<B>, RenderError>(
                RenderError::InvalidSize(size),
            ) && after == before
            &&& has_pixels ==> {
                &&& after.path_textures.intermediate == Some(size)
                &&& after.target == before.target
                &&& after.opaque == before.opaque
                &&& match result {
                    Ok(drawn) => {
                        &&& Some(drawn.encoded@) == encode::encoding_of(
                            scene.paths@,
                            scene.batches@,
                            sizes,
                            true,
                            after.instance_buffer_pool.buffer_size as nat,
                        )
                        &&& drawn.plan.redraw.damage.origin.x.0 == 0
                        &&& drawn.plan.redraw.damage.origin.y.0 == 0
                        &&& drawn.plan.redraw.damage.size == size
                        &&& !drawn.plan.redraw.keep_contents
                        &&& drawn.plan.clears_to_opaque == before.opaque
                    },
                    Err(error) => error == RenderError::InstanceBufferTooLarge(
                        after.instance_buffer_pool.buffer_size,
                    ),
                }
            }
        }),
{
}

/// A texture that nobody reads is made anew exactly if the last one had another size.
pub proof fn law_unread_textures_are_used_again<B>(
    before: MetalRenderer<B>,
    after: MetalRenderer<B>,
    scene: Scene,
    size: Size<DevicePixels>,
    sizes: InstanceSizes,
    needs_new_target: bool,
    result: Result<DrawnScene<B>, RenderError>,
)
    requires
        before.renders_unread(&after, &scene, size, sizes, needs_new_target, result),
    ensures
        size.width.0 > 0 && size.height.0 > 0 ==> after.headless_render_target == Some(size)
            && needs_new_target == (before.headless_render_target != Some(size)) && !(
        result matches Err(RenderError::InvalidSize(_))),
        !(size.width.0 > 0 && size.height.0 > 0) ==> after == before && !needs_new_target
            && result == Err::<DrawnScene<B>, RenderError>(RenderError::InvalidSize(size)),
{
}

/// A scene that has no room is told by its own counts, each under its name.
pub proof fn law_counts_are_told_by_name(scene: Scene)
    requires
        scene.paths@.len() <= usize::MAX,
    ensures
        ({
            let counts = encode::counts_of(scene);
            &&& counts.paths == scene.paths@.len()
            &&& counts.shadows == scene.shadows
            &&& counts.quads == scene.quads
            &&& counts.underlines == scene.underlines
            &&& counts.monochrome_sprites == scene.monochrome_sprites
            &&& counts.polychrome_sprites == scene.polychrome_sprites
            &&& counts.surfaces == scene.surfaces
        }),
{
}

/// What is said of a scene that has no room names its counts in a fixed order.
pub proof fn law_large_scenes_are_described(counts: SceneTooLarge)
    ensures
        counts.spec_message() == "scene too large: "@ + crate::text::decimal(counts.paths as nat)
            + " paths, "@ + crate::text::decimal(counts.shadows as nat) + " shadows, "@
            + crate::text::decimal(counts.quads as nat) + " quads, "@ + crate::text::decimal(
            counts.underlines as nat,
        ) + " underlines, "@ + crate::text::decimal(counts.monochrome_sprites as nat) + " mono, "@
            + crate::text::decimal(counts.polychrome_sprites as nat) + " poly, "@
            + crate::text::decimal(counts.surfaces as nat) + " surfaces"@,
{
}

/// A corner of the unit square is written with its first coordinate in the lower half of
/// the bits and its second in the upper half.
pub proof fn law_corners_hold_two_numbers(x_bits: u32, y_bits: u32)
    ensures
        resources::float2_bits(x_bits, y_bits) % 0x1_0000_0000 == x_bits,
        resources::float2_bits(x_bits, y_bits) / 0x1_0000_0000 == y_bits,
        resources::ONE_BITS == 127 * 0x80_0000,
{
}

/// A shared surface has at least one pixel each way.
pub proof fn law_surfaces_have_a_pixel(length: i32)
    ensures
        resources::at_least_one(length) >= 1,
        length >= 1 ==> resources::at_least_one(length) == length,
        length < 1 ==> resources::at_least_one(length) == 1,
{
}

/// An encoded scene is read as it is held.
pub proof fn law_encoded_scenes_are_read_as_held(encoded: EncodedScene)
    ensures
        encoded@.commands == encoded.commands@,
        encoded@.used == encoded.used,
{
}

} // verus!
