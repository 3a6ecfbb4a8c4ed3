//! The renderer: what it draws to, what it offers to the scheduler, and how a
//! frame goes through it.

use crate::frames::swaps::PlatformDrawResult;
use crate::geometry::{Bounds, DevicePixels, Pixels, ScaledPixels, Size};
use crate::present::damage;
use crate::present::damage::{plan_redraw, scissor_for_damage, RedrawPlan, ScissorRect};
use crate::present::draw;
use crate::present::draw::{choose_buffer, damage_to_draw, BufferChoice, FrameStart};
use crate::present::feedback::FrameDisplayTiming;
use crate::present::presenter;
use crate::present::queue;
use crate::present::presenter::{
    CommittingFrame, CoreAnimationPresenter, PresentedIosurfaceFrame, PresenterListeners,
    PresenterState, Submission, IOSURFACE_MAX_PENDING_SWAPS,
};
use crate::render::encode::{encode_with_growing_buffers, EncodedScene, InstanceSizes, Scene};
use crate::render::encode;
use crate::render::instance_buffer;
use crate::render::instance_buffer::{AcquiredBuffer, InstanceBufferPool, InstanceBufferTooLarge};
use crate::render::resources;
use crate::render::resources::{plan_path_textures, PathTextures, RenderError, PATH_SAMPLE_COUNT};
use crate::time::{Duration, Instant};
use vstd::prelude::*;

verus! {

/// What is known about the GPU that renders.
#[derive(Clone, Copy, Debug, PartialEq, Eq, Structural)]
pub struct GpuTraits {
    /// The GPU is one of Apple's, which keeps targets of a pass on the chip.
    pub is_apple_gpu: bool,
    /// The program and the GPU share one memory.
    pub is_unified_memory: bool,
}

/// What a renderer draws to.
pub enum RenderTarget {
    /// A layer that hands out drawables.
    Layer,
    /// Buffers that the presenter hands to the screen.
    Presenter(CoreAnimationPresenter),
    /// Textures that nobody sees.
    Offscreen,
}

/// Draws scenes.
pub struct MetalRenderer<B> {
    pub target: RenderTarget,
    pub gpu: GpuTraits,
    pub opaque: bool,
    pub presents_with_transaction: bool,
    /// Somebody listens to the end of swaps.
    pub reports_swaps: bool,
    /// Somebody listens to when frames are displayed.
    pub reports_presentation: bool,
    pub instance_buffer_pool: InstanceBufferPool<B>,
    pub path_textures: PathTextures,
    pub path_sample_count: u32,
    /// The size of the texture that scenes are drawn to offscreen.
    pub headless_render_target: Option<Size<DevicePixels>>,
}

/// The order in which a drawn frame is handed over.
#[derive(Clone, Copy, Debug, PartialEq, Eq, Structural)]
pub enum PresentOrder {
    /// The work is committed and scheduled, and the frame is presented together
    /// with other changes to the window.
    CommitThenPresent,
    /// The frame is presented when the work is done.
    PresentThenCommit,
}

/// The layer that hands out drawables.
#[derive(Clone, Copy, Debug, PartialEq, Eq, Structural)]
pub struct LayerState {
    pub size: Size<DevicePixels>,
    /// A drawable is free.
    pub has_drawable: bool,
}

/// How the passes over a texture go.
#[derive(Clone, Copy, Debug, PartialEq, Eq, Structural)]
pub struct PassPlan {
    /// What is drawn, and whether the first pass keeps what is there or clears it.
    pub redraw: RedrawPlan,
    /// What every pass is cut off at.
    pub scissor: ScissorRect,
    /// What is cleared becomes opaque black, not see-through.
    pub clears_to_opaque: bool,
    /// How many bytes of the instance buffer, from its start, the GPU is told have
    /// changed, where it does not see them by itself.
    pub modified_bytes: Option<usize>,
}

/// The passes over a texture of a size of which some is damaged, by a renderer
/// that put so many bytes into the instance buffer.
pub open spec fn is_pass_plan(
    plan: PassPlan,
    damage: Option<Bounds<DevicePixels>>,
    size: Size<DevicePixels>,
    opaque: bool,
    unified_memory: bool,
    used: usize,
) -> bool {
    &&& damage::redraw_plan(plan.redraw, damage, size)
    &&& plan.scissor == damage::cut_off_at(plan.redraw.damage)
    &&& plan.clears_to_opaque == opaque
    &&& plan.modified_bytes == if unified_memory {
        None
    } else {
        Some(used)
    }
}

/// Plans the passes over a texture.
pub fn plan_passes(
    damage: Option<Bounds<DevicePixels>>,
    size: Size<DevicePixels>,
    opaque: bool,
    unified_memory: bool,
    used: usize,
) -> (plan: PassPlan)
    requires
        damage matches Some(damage) ==> damage.can_intersect(&Bounds::spec_at_origin(size)),
    ensures
        is_pass_plan(plan, damage, size, opaque, unified_memory, used),
{
    let redraw: RedrawPlan = plan_redraw(damage, size);
    PassPlan {
        redraw,
        scissor: scissor_for_damage(redraw.damage),
        clears_to_opaque: opaque,
        modified_bytes: if unified_memory {
            None
        } else {
            Some(used)
        },
    }
}

/// A scene that is drawn to a texture.
pub struct DrawnScene<B> {
    pub encoded: EncodedScene,
    pub instance_buffer: AcquiredBuffer<B>,
    pub plan: PassPlan,
}

/// What became of a frame.
pub enum DrawnFrame<B> {
    /// Nothing is drawn.
    Finish(PlatformDrawResult),
    /// The scene is drawn to a drawable, which is then presented.
    Layer {
        drawn: DrawnScene<B>,
        /// It is told when the frame is displayed.
        reports_presentation: bool,
        order: PresentOrder,
    },
    /// The scene goes to a buffer of the presenter.
    Presenter(PresenterFrame<B>),
}

/// What is done about a frame for which there may be room.
pub enum PresenterFrame<B> {
    /// Nothing is drawn.
    Finish(PlatformDrawResult),
    /// The scene is drawn and put on its way.
    Submit {
        buffer_index: usize,
        /// What of the buffer is drawn.
        damage: Bounds<DevicePixels>,
        drawn: DrawnScene<B>,
        submission: Submission,
    },
}

/// Whole pixels that a length takes up.
pub open spec fn pixels_taken(length: Pixels) -> int {
    damage::ceil_pixels(length.0 as int)
}

fn whole_pixels(length: Pixels) -> (pixels: DevicePixels)
    ensures
        pixels.0 == pixels_taken(length),
{
    let units: i128 = length.0 as i128;
    let whole: i128 = if units >= 0 {
        (units + 1_099_511_627_775) / 1_099_511_627_776
    } else {
        -(-units / 1_099_511_627_776)
    };
    DevicePixels(whole as i32)
}

impl<B> MetalRenderer<B> {
    /// What every renderer keeps.
    pub open spec fn wf(&self) -> bool {
        &&& self.instance_buffer_pool.buffer_size > 0
        &&& self.target matches RenderTarget::Presenter(presenter) ==> presenter@.wf()
            && presenter@.committing is None
    }

    /// Nothing was drawn yet and nobody listens.
    pub open spec fn is_new(&self, gpu: GpuTraits, opaque: bool) -> bool {
        &&& self.gpu == gpu
        &&& self.opaque == opaque
        &&& !self.presents_with_transaction
        &&& !self.reports_swaps
        &&& !self.reports_presentation
        &&& self.instance_buffer_pool.buffer_size == instance_buffer::INITIAL_INSTANCE_BUFFER_SIZE
        &&& self.instance_buffer_pool.buffers@.len() == 0
        &&& self.path_textures == (PathTextures { intermediate: None, multisample: None })
        &&& self.path_sample_count == PATH_SAMPLE_COUNT
        &&& self.headless_render_target is None
    }

    /// Buffers of the size that a window takes up in whole pixels are handed to the
    /// screen.
    pub open spec fn hands_over_buffers(&self, uses_ca_context: bool, bounds: Size<Pixels>) -> bool {
        &&& self.target matches RenderTarget::Presenter(presenter)
        &&& presenter@ == presenter::without_size(uses_ca_context).with_size(
            (Size {
                width: DevicePixels(pixels_taken(bounds.width) as i32),
                height: DevicePixels(pixels_taken(bounds.height) as i32),
            }),
        )
    }

    /// The size of the instance buffers in which a scene has room.
    pub open spec fn fitting_size(&self, scene: &Scene, sizes: InstanceSizes) -> Option<nat> {
        encode::fitting_size(
            scene.paths@,
            scene.batches@,
            sizes,
            self.path_textures.intermediate is Some,
            self.instance_buffer_pool.buffer_size as nat,
        )
    }

    /// The renderer with the textures that paths are drawn to on a surface of a size.
    pub open spec fn with_path_textures(&self, size: Size<DevicePixels>) -> MetalRenderer<B> {
        MetalRenderer {
            path_textures: resources::path_textures(
                size,
                self.path_sample_count,
                self.gpu.is_apple_gpu,
            ),
            ..*self
        }
    }

    /// A scene is drawn to a texture of a size of which some is damaged.
    pub open spec fn draws(
        &self,
        after: &Self,
        scene: &Scene,
        damage: Option<Bounds<DevicePixels>>,
        size: Size<DevicePixels>,
        sizes: InstanceSizes,
        drawn: DrawnScene<B>,
    ) -> bool {
        &&& self.lays_out(after, scene, sizes, Ok((drawn.encoded, drawn.instance_buffer)))
        &&& is_pass_plan(
            drawn.plan,
            damage,
            size,
            self.opaque,
            self.gpu.is_unified_memory,
            drawn.encoded.used,
        )
    }

    /// A scene is drawn to all of a texture of a size, or has no room in the largest
    /// instance buffer.
    pub open spec fn draws_all(
        &self,
        after: &Self,
        scene: &Scene,
        size: Size<DevicePixels>,
        sizes: InstanceSizes,
        result: Result<DrawnScene<B>, RenderError>,
    ) -> bool {
        match result {
            Ok(drawn) => self.draws(after, scene, None, size, sizes, drawn),
            Err(error) => {
                &&& error matches RenderError::InstanceBufferTooLarge(largest)
                &&& self.lays_out(
                    after,
                    scene,
                    sizes,
                    Err(InstanceBufferTooLarge { size: largest }),
                )
            },
        }
    }

    /// A scene is laid out in a buffer out of the pool, or has no room in the largest.
    pub open spec fn lays_out(
        &self,
        after: &Self,
        scene: &Scene,
        sizes: InstanceSizes,
        result: Result<(EncodedScene, AcquiredBuffer<B>), InstanceBufferTooLarge>,
    ) -> bool {
        encode::encodes_in_pool(
            self.instance_buffer_pool,
            after.instance_buffer_pool,
            self.gpu.is_unified_memory,
            *scene,
            sizes,
            self.path_textures.intermediate is Some,
            result,
        )
    }

    /// What is said about a scene that has no room in the largest instance buffer.
    pub open spec fn too_large(&self) -> InstanceBufferTooLarge {
        InstanceBufferTooLarge {
            size: encode::largest_size(self.instance_buffer_pool.buffer_size as nat) as usize,
        }
    }

    /// A scene is drawn to a texture of a size, or was not, for a reason.
    pub open spec fn renders_image(
        &self,
        after: &Self,
        scene: &Scene,
        size: Size<DevicePixels>,
        sizes: InstanceSizes,
        result: Result<DrawnScene<B>, RenderError>,
    ) -> bool {
        if presenter::has_area(size) {
            &&& *after == (MetalRenderer {
                instance_buffer_pool: after.instance_buffer_pool,
                ..self.with_path_textures(size)
            })
            &&& self.with_path_textures(size).draws_all(after, scene, size, sizes, result)
        } else {
            &&& *after == *self
            &&& result == Err::<DrawnScene<B>, RenderError>(
                RenderError::InvalidSize(size),
            )
        }
    }

    /// A scene is drawn to a texture of a size that nobody reads, which has to be made
    /// or not, or was not drawn, for a reason.
    pub open spec fn renders_unread(
        &self,
        after: &Self,
        scene: &Scene,
        size: Size<DevicePixels>,
        sizes: InstanceSizes,
        needs_new_target: bool,
        result: Result<DrawnScene<B>, RenderError>,
    ) -> bool {
        if presenter::has_area(size) {
            &&& *after == (MetalRenderer {
                instance_buffer_pool: after.instance_buffer_pool,
                headless_render_target: Some(size),
                ..self.with_path_textures(size)
            })
            &&& needs_new_target == (self.headless_render_target != Some(size))
            &&& self.with_path_textures(size).draws_all(after, scene, size, sizes, result)
        } else {
            &&& *after == *self
            &&& !needs_new_target
            &&& result == Err::<DrawnScene<B>, RenderError>(
                RenderError::InvalidSize(size),
            )
        }
    }

    fn new_internal(target: RenderTarget, gpu: GpuTraits, opaque: bool) -> (renderer: Self)
        ensures
            renderer.target == target,
            renderer.is_new(gpu, opaque),
    {
        MetalRenderer {
            target,
            gpu,
            opaque,
            presents_with_transaction: false,
            reports_swaps: false,
            reports_presentation: false,
            instance_buffer_pool: InstanceBufferPool::new(),
            path_textures: PathTextures { intermediate: None, multisample: None },
            path_sample_count: PATH_SAMPLE_COUNT,
            headless_render_target: None,
        }
    }

    /// A renderer for a layer that hands out drawables.
    pub fn new(gpu: GpuTraits, transparent: bool) -> (renderer: Self)
        ensures
            renderer.wf(),
            renderer.target is Layer,
            renderer.is_new(gpu, !transparent),
    {
        MetalRenderer::new_internal(RenderTarget::Layer, gpu, !transparent)
    }

    /// A renderer that hands buffers to the screen, of the size that a window takes
    /// up in whole pixels.
    pub fn new_chromium_pipeline(
        gpu: GpuTraits,
        transparent: bool,
        uses_ca_context: bool,
        initial_bounds: Size<Pixels>,
    ) -> (renderer: Self)
        ensures
            renderer.wf(),
            renderer.is_new(gpu, !transparent),
            renderer.hands_over_buffers(uses_ca_context, initial_bounds),
    {
        let initial_size: Size<DevicePixels> = Size {
            width: whole_pixels(initial_bounds.width),
            height: whole_pixels(initial_bounds.height),
        };
        let presenter: CoreAnimationPresenter = CoreAnimationPresenter::new(
            uses_ca_context,
            initial_size,
        );
        MetalRenderer::new_internal(RenderTarget::Presenter(presenter), gpu, !transparent)
    }

    /// A renderer that nobody sees.
    pub fn new_headless(gpu: GpuTraits) -> (renderer: Self)
        ensures
            renderer.wf(),
            renderer.target is Offscreen,
            renderer.is_new(gpu, true),
    {
        MetalRenderer::new_internal(RenderTarget::Offscreen, gpu, true)
    }

    /// The renderer of a window: one that hands buffers to the screen, unless a
    /// layer that hands out drawables was asked for.
    pub fn new_renderer(
        layer_requested: bool,
        gpu: GpuTraits,
        transparent: bool,
        uses_ca_context: bool,
        bounds: Size<Pixels>,
    ) -> (renderer: Self)
        ensures
            renderer.wf(),
            renderer.is_new(gpu, !transparent),
            if layer_requested {
                renderer.target is Layer
            } else {
                renderer.hands_over_buffers(uses_ca_context, bounds)
            },
    {
        if layer_requested {
            MetalRenderer::new(gpu, transparent)
        } else {
            MetalRenderer::new_chromium_pipeline(gpu, transparent, uses_ca_context, bounds)
        }
    }

    /// Whether the scheduler is told when a swap is over.
    pub fn supports_swap_completion_feedback(&self) -> (supported: bool)
        ensures
            supported == self.target is Presenter,
    {
        match self.target {
            RenderTarget::Presenter(_) => true,
            _ => false,
        }
    }

    /// How many frames may be on their way, where the renderer hands buffers to the
    /// screen.
    pub fn max_pending_swaps(&self) -> (swaps: Option<u32>)
        ensures
            swaps == if self.target is Presenter {
                Some(2u32)
            } else {
                None
            },
    {
        match self.target {
            RenderTarget::Presenter(_) => Some(IOSURFACE_MAX_PENDING_SWAPS as u32),
            _ => None,
        }
    }

    /// Whether frames may start later than the display asks for them.
    pub fn supports_delayed_begin_frame_scheduling(&self) -> (supported: bool)
        ensures
            supported == !(self.target is Presenter),
    {
        match self.target {
            RenderTarget::Presenter(_) => false,
            _ => true,
        }
    }

    /// Whether frames are presented together with other changes to the window.
    pub fn set_presents_with_transaction(&mut self, presents_with_transaction: bool)
        ensures
            old(self).wf() ==> final(self).wf(),
            *final(self) == (MetalRenderer { presents_with_transaction, ..*old(self) }),
    {
        self.presents_with_transaction = presents_with_transaction;
    }

    /// Whether what is behind the window shows through.
    pub fn update_transparency(&mut self, transparent: bool)
        ensures
            old(self).wf() ==> final(self).wf(),
            *final(self) == (MetalRenderer { opaque: !transparent, ..*old(self) }),
    {
        self.opaque = !transparent;
    }

    /// The textures that paths are drawn to, for a surface of a size.
    fn update_path_intermediate_textures(&mut self, size: Size<DevicePixels>)
        ensures
            *final(self) == (MetalRenderer {
                path_textures: resources::path_textures(
                    size,
                    old(self).path_sample_count,
                    old(self).gpu.is_apple_gpu,
                ),
                ..*old(self)
            }),
    {
        self.path_textures =
        plan_path_textures(size, self.path_sample_count, self.gpu.is_apple_gpu);
    }

    /// Gives the surface a size, and tells whether the presenter has new buffers.
    pub fn update_drawable_size(&mut self, size: Size<DevicePixels>) -> (new_buffers: bool)
        requires
            old(self).wf(),
            old(self).target matches RenderTarget::Presenter(presenter) ==> presenter@.generation
                < usize::MAX,
        ensures
            final(self).wf(),
            final(self).path_textures == resources::path_textures(
                size,
                old(self).path_sample_count,
                old(self).gpu.is_apple_gpu,
            ),
            match (old(self).target, final(self).target) {
                (RenderTarget::Presenter(before), RenderTarget::Presenter(after)) => {
                    &&& after@ == before@.with_size(size)
                    &&& new_buffers == (before@.drawable_size != size)
                },
                (RenderTarget::Presenter(_), _) => false,
                (before, after) => after == before && !new_buffers,
            },
            *final(self) == (MetalRenderer {
                target: final(self).target,
                path_textures: final(self).path_textures,
                ..*old(self)
            }),
    {
        self.update_path_intermediate_textures(size);
        match &mut self.target {
            RenderTarget::Presenter(presenter) => presenter.update_drawable_size(size),
            _ => false,
        }
    }

    /// The display refreshes at new times. A frame that is ready is taken out to be
    /// handed over.
    pub fn set_display_timing(
        &mut self,
        next_display_time: Instant,
        frame_interval: Option<Duration>,
    ) -> (taken: Option<CommittingFrame>)
        requires
            old(self).wf(),
            (FrameDisplayTiming { next_display_time, frame_interval }).in_range(),
        ensures
            match (old(self).target, final(self).target) {
                (RenderTarget::Presenter(before), RenderTarget::Presenter(after)) => {
                    &&& after@ == (PresenterState {
                        timing: Some(
                            FrameDisplayTiming {
                                next_display_time,
                                frame_interval,
                            },
                        ),
                        ..before@
                    }).with_front_taken()
                    &&& after@.wf()
                    &&& taken == after@.committing
                },
                (RenderTarget::Presenter(_), _) => false,
                (before, after) => after == before && taken is None,
            },
            *final(self) == (MetalRenderer { target: final(self).target, ..*old(self) }),
    {
        match &mut self.target {
            RenderTarget::Presenter(presenter) => presenter.set_display_timing(
                next_display_time,
                frame_interval,
            ),
            _ => None,
        }
    }

    /// Lays a scene out in an instance buffer, a larger one where it needs one.
    pub fn encode_scene(&mut self, scene: &Scene, sizes: InstanceSizes) -> (result: Result<
        (EncodedScene, AcquiredBuffer<B>),
        InstanceBufferTooLarge,
    >)
        requires
            old(self).wf(),
            scene.wf(),
        ensures
            final(self).wf(),
            *final(self) == (MetalRenderer {
                instance_buffer_pool: final(self).instance_buffer_pool,
                ..*old(self)
            }),
            old(self).lays_out(&*final(self), scene, sizes, result),
    {
        let has_path_texture: bool = self.path_textures.intermediate.is_some();
        encode_with_growing_buffers(
            &mut self.instance_buffer_pool,
            self.gpu.is_unified_memory,
            scene,
            sizes,
            has_path_texture,
        )
    }

    /// Draws a scene to all of a texture of a size.
    fn draw_primitives(&mut self, scene: &Scene, size: Size<DevicePixels>, sizes: InstanceSizes) -> (result:
        Result<DrawnScene<B>, RenderError>)
        requires
            old(self).wf(),
            scene.wf(),
        ensures
            final(self).wf(),
            *final(self) == (MetalRenderer {
                instance_buffer_pool: final(self).instance_buffer_pool,
                ..*old(self)
            }),
            old(self).draws_all(&*final(self), scene, size, sizes, result),
    {
        match self.encode_scene(scene, sizes) {
            Ok((encoded, instance_buffer)) => {
                let plan: PassPlan = plan_passes(
                    None,
                    size,
                    self.opaque,
                    self.gpu.is_unified_memory,
                    encoded.used,
                );
                Ok(DrawnScene { encoded, instance_buffer, plan })
            },
            Err(error) => Err(RenderError::InstanceBufferTooLarge(error.size)),
        }
    }

    /// Starts a frame that goes to a buffer of the presenter: what the GPU has to
    /// signal is waited for, and where no more frames may be on their way, the oldest
    /// that is ready is handed over before the frame is drawn.
    pub fn start_frame(&mut self) -> (start: FrameStart)
        requires
            old(self).wf(),
        ensures
            match (old(self).target, final(self).target) {
                (RenderTarget::Presenter(before), RenderTarget::Presenter(after)) => {
                    &&& after@ == before@.started()
                    &&& after@.wf()
                    &&& start == draw::frame_start(before@)
                },
                (RenderTarget::Presenter(_), _) => false,
                (before, after) => after == before && start is Skip,
            },
            *final(self) == (MetalRenderer { target: final(self).target, ..*old(self) }),
    {
        match &mut self.target {
            RenderTarget::Presenter(presenter) => draw::start_frame(presenter),
            _ => FrameStart::Skip,
        }
    }

    /// A frame was drawn to a buffer of the presenter, or was not, for a reason.
    pub open spec fn presents(
        &self,
        after: &Self,
        scene: &Scene,
        scene_damage: Option<Bounds<ScaledPixels>>,
        sizes: InstanceSizes,
        now: Instant,
        is_handling_interaction: bool,
        frame: PresenterFrame<B>,
    ) -> bool {
        match (self.target, after.target) {
            (RenderTarget::Presenter(held), RenderTarget::Presenter(shown)) => {
                let size = held@.drawable_size;
                if !presenter::has_area(size) || draw::is_scene_damage(
                    None,
                    scene_damage,
                    size,
                ) {
                    &&& frame == PresenterFrame::<B>::Finish(PlatformDrawResult::Skipped)
                    &&& shown@ == held@
                    &&& *after == (MetalRenderer {
                        target: after.target,
                        ..*self
                    })
                } else if held@.next_buffer() is None {
                    &&& frame == PresenterFrame::<B>::Finish(PlatformDrawResult::Deferred)
                    &&& shown@ == (PresenterState { deferred: true, ..held@ })
                    &&& *after == (MetalRenderer {
                        target: after.target,
                        ..*self
                    })
                } else {
                    exists|frame_damage: Bounds<DevicePixels>|
                        {
                            let index = held@.next_buffer()->0;
                            let damaged = held@.with_damage(frame_damage);
                            let fitting = self.fitting_size(scene, sizes);
                            &&& #[trigger] draw::is_scene_damage(
                                Some(frame_damage),
                                scene_damage,
                                size,
                            )
                            &&& *after == (MetalRenderer {
                                target: after.target,
                                instance_buffer_pool: after.instance_buffer_pool,
                                ..*self
                            })
                            &&& match fitting {
                                None => {
                                    &&& frame == PresenterFrame::<B>::Finish(
                                        PlatformDrawResult::Skipped,
                                    )
                                    &&& self.lays_out(after, scene, sizes, Err(self.too_large()))
                                    &&& shown@ == damaged
                                },
                                Some(_) => {
                                    &&& frame matches PresenterFrame::Submit {
                                        buffer_index,
                                        damage,
                                        drawn,
                                        submission,
                                    }
                                    &&& buffer_index == index
                                    &&& damage == damaged.buffers[index as int].damage
                                    &&& self.draws(
                                        after,
                                        scene,
                                        Some(damage),
                                        size,
                                        sizes,
                                        drawn,
                                    )
                                    &&& submission.order == held@.submissions + 1
                                    &&& submission.fence_value == held@.fences + 1
                                    &&& submission.recreate_layers == held@.resized
                                    &&& shown@ == damaged.with_submission(
                                        damaged.submitted_frame(
                                            index,
                                            damage,
                                            now,
                                            is_handling_interaction,
                                        ),
                                    )
                                },
                            }
                        }
                }
            },
            (RenderTarget::Presenter(_), _) => false,
            (_, _) => {
                &&& frame == PresenterFrame::<B>::Finish(PlatformDrawResult::Skipped)
                &&& *after == *self
            },
        }
    }

    /// Draws a frame to a buffer of the presenter: not at all where nothing on the
    /// surface changed, later where there is no room, and not at all where the scene
    /// has no room in the largest instance buffer.
    pub fn draw_chromium_pipeline(
        &mut self,
        scene: &Scene,
        scene_damage: Option<Bounds<ScaledPixels>>,
        sizes: InstanceSizes,
        now: Instant,
        is_handling_interaction: bool,
    ) -> (frame: PresenterFrame<B>)
        requires
            old(self).wf(),
            scene.wf(),
            old(self).target matches RenderTarget::Presenter(presenter) ==> presenter@.submissions
                < usize::MAX && presenter@.fences < u64::MAX,
        ensures
            final(self).wf(),
            old(self).presents(
                &*final(self),
                scene,
                scene_damage,
                sizes,
                now,
                is_handling_interaction,
                frame,
            ),
    {
        let has_path_texture: bool = self.path_textures.intermediate.is_some();
        match &mut self.target {
            RenderTarget::Presenter(target) => {
                let size: Size<DevicePixels> = target.drawable_size();
                if size.width.0 <= 0 || size.height.0 <= 0 {
                    return PresenterFrame::Finish(PlatformDrawResult::Skipped);
                }
                match choose_buffer(target, scene_damage) {
                    BufferChoice::Skip => PresenterFrame::Finish(PlatformDrawResult::Skipped),
                    BufferChoice::Defer => PresenterFrame::Finish(PlatformDrawResult::Deferred),
                    BufferChoice::Draw { buffer_index, frame_damage } => {
                        let damage: Bounds<DevicePixels> = damage_to_draw(
                            target,
                            buffer_index,
                            frame_damage,
                        );
                        let encoded: Result<
                            (EncodedScene, AcquiredBuffer<B>),
                            InstanceBufferTooLarge,
                        > = encode_with_growing_buffers(
                            &mut self.instance_buffer_pool,
                            self.gpu.is_unified_memory,
                            scene,
                            sizes,
                            has_path_texture,
                        );
                        match encoded {
                            Err(_) => PresenterFrame::Finish(PlatformDrawResult::Skipped),
                            Ok((encoded, instance_buffer)) => {
                                let submission: Submission = target.submit_frame(
                                    buffer_index,
                                    damage,
                                    now,
                                    is_handling_interaction,
                                );
                                let plan: PassPlan = plan_passes(
                                    Some(damage),
                                    size,
                                    self.opaque,
                                    self.gpu.is_unified_memory,
                                    encoded.used,
                                );
                                PresenterFrame::Submit {
                                    buffer_index,
                                    damage,
                                    drawn: DrawnScene { encoded, instance_buffer, plan },
                                    submission,
                                }
                            },
                        }
                    },
                }
            },
            _ => PresenterFrame::Finish(PlatformDrawResult::Skipped),
        }
    }

    /// Draws a frame. Where buffers are handed to the screen, it goes to one of them.
    /// Where a layer hands out drawables, it goes to one of those: not at all where
    /// the layer has no pixels, later while no drawable is free, and not at all where
    /// the scene has no room in the largest instance buffer. Offscreen nothing is
    /// drawn.
    pub fn draw(
        &mut self,
        scene: &Scene,
        scene_damage: Option<Bounds<ScaledPixels>>,
        layer: LayerState,
        sizes: InstanceSizes,
        now: Instant,
        is_handling_interaction: bool,
    ) -> (frame: DrawnFrame<B>)
        requires
            old(self).wf(),
            scene.wf(),
            old(self).target matches RenderTarget::Presenter(presenter) ==> presenter@.submissions
                < usize::MAX && presenter@.fences < u64::MAX,
        ensures
            final(self).wf(),
            match old(self).target {
                RenderTarget::Presenter(_) => frame matches DrawnFrame::Presenter(drawn) && old(
                    self,
                ).presents(
                    &*final(self),
                    scene,
                    scene_damage,
                    sizes,
                    now,
                    is_handling_interaction,
                    drawn,
                ),
                RenderTarget::Offscreen => {
                    &&& frame == DrawnFrame::<B>::Finish(PlatformDrawResult::Skipped)
                    &&& *final(self) == *old(self)
                },
                RenderTarget::Layer => {
                    if !presenter::has_area(layer.size) {
                        &&& frame == DrawnFrame::<B>::Finish(PlatformDrawResult::Skipped)
                        &&& *final(self) == *old(self)
                    } else if !layer.has_drawable {
                        &&& frame == DrawnFrame::<B>::Finish(PlatformDrawResult::Deferred)
                        &&& *final(self) == *old(self)
                    } else {
                        &&& *final(self) == (MetalRenderer {
                            instance_buffer_pool: final(self).instance_buffer_pool,
                            ..*old(self)
                        })
                        &&& match old(self).fitting_size(scene, sizes) {
                            None => {
                                &&& frame == DrawnFrame::<B>::Finish(PlatformDrawResult::Skipped)
                                &&& old(self).lays_out(
                                    &*final(self),
                                    scene,
                                    sizes,
                                    Err(old(self).too_large()),
                                )
                            },
                            Some(_) => {
                                &&& frame matches DrawnFrame::Layer {
                                    drawn,
                                    reports_presentation,
                                    order,
                                }
                                &&& old(self).draws(
                                    &*final(self),
                                    scene,
                                    None,
                                    layer.size,
                                    sizes,
                                    drawn,
                                )
                                &&& reports_presentation == old(self).reports_presentation
                                &&& order == if old(self).presents_with_transaction {
                                    PresentOrder::CommitThenPresent
                                } else {
                                    PresentOrder::PresentThenCommit
                                }
                            },
                        }
                    }
                },
            },
    {
        if self.supports_swap_completion_feedback() {
            let drawn: PresenterFrame<B> = self.draw_chromium_pipeline(
                scene,
                scene_damage,
                sizes,
                now,
                is_handling_interaction,
            );
            return DrawnFrame::Presenter(drawn);
        }
        match self.target {
            RenderTarget::Layer => {},
            _ => {
                return DrawnFrame::Finish(PlatformDrawResult::Skipped);
            },
        }
        if layer.size.width.0 <= 0 || layer.size.height.0 <= 0 {
            return DrawnFrame::Finish(PlatformDrawResult::Skipped);
        }
        if !layer.has_drawable {
            return DrawnFrame::Finish(PlatformDrawResult::Deferred);
        }
        match self.draw_primitives(scene, layer.size, sizes) {
            Err(_) => DrawnFrame::Finish(PlatformDrawResult::Skipped),
            Ok(drawn) => {
                let order: PresentOrder = if self.presents_with_transaction {
                    PresentOrder::CommitThenPresent
                } else {
                    PresentOrder::PresentThenCommit
                };
                DrawnFrame::Layer {
                    drawn,
                    reports_presentation: self.reports_presentation,
                    order,
                }
            },
        }
    }

    /// Draws a scene to a drawable of the layer, to be read back.
    pub fn render_to_image(&mut self, scene: &Scene, layer: LayerState, sizes: InstanceSizes) -> (result:
        Result<DrawnScene<B>, RenderError>)
        requires
            old(self).wf(),
            scene.wf(),
        ensures
            final(self).wf(),
            *final(self) == (MetalRenderer {
                instance_buffer_pool: final(self).instance_buffer_pool,
                ..*old(self)
            }),
            if !(old(self).target is Layer) {
                result == Err::<DrawnScene<B>, RenderError>(
                    RenderError::NoLayer,
                )
            } else if !layer.has_drawable {
                result == Err::<DrawnScene<B>, RenderError>(
                    RenderError::NoDrawable,
                )
            } else {
                old(self).draws_all(&*final(self), scene, layer.size, sizes, result)
            },
    {
        match self.target {
            RenderTarget::Layer => {},
            _ => {
                return Err(RenderError::NoLayer);
            },
        }
        if !layer.has_drawable {
            return Err(RenderError::NoDrawable);
        }
        self.draw_primitives(scene, layer.size, sizes)
    }

    /// Draws a scene to a texture of a size, to be read back.
    pub fn render_scene_to_image(
        &mut self,
        scene: &Scene,
        size: Size<DevicePixels>,
        sizes: InstanceSizes,
    ) -> (result: Result<DrawnScene<B>, RenderError>)
        requires
            old(self).wf(),
            scene.wf(),
        ensures
            final(self).wf(),
            old(self).renders_image(&*final(self), scene, size, sizes, result),
    {
        if size.width.0 <= 0 || size.height.0 <= 0 {
            return Err(RenderError::InvalidSize(size));
        }
        self.update_path_intermediate_textures(size);
        self.draw_primitives(scene, size, sizes)
    }

    /// Draws a scene to a texture of a size that nobody reads, and tells whether it
    /// has to be made: one of the same size is drawn to again.
    pub fn render_scene(
        &mut self,
        scene: &Scene,
        size: Size<DevicePixels>,
        sizes: InstanceSizes,
    ) -> (result: (bool, Result<DrawnScene<B>, RenderError>))
        requires
            old(self).wf(),
            scene.wf(),
        ensures
            final(self).wf(),
            old(self).renders_unread(&*final(self), scene, size, sizes, result.0, result.1),
    {
        if size.width.0 <= 0 || size.height.0 <= 0 {
            return (false, Err(RenderError::InvalidSize(size)));
        }
        self.update_path_intermediate_textures(size);
        let needs_new_target: bool = match self.headless_render_target {
            Some(target) => target != size,
            None => true,
        };
        self.headless_render_target = Some(size);
        let result: Result<DrawnScene<B>, RenderError> = self.draw_primitives(scene, size, sizes);
        (needs_new_target, result)
    }

    /// Whether somebody draws again once the presenter has room.
    pub fn set_deferred_frame_callback(&mut self, listens: bool)
        requires
            old(self).wf(),
        ensures
            final(self).wf(),
            *final(self) == (MetalRenderer { target: final(self).target, ..*old(self) }),
            match (old(self).target, final(self).target) {
                (RenderTarget::Presenter(before), RenderTarget::Presenter(after)) => after@ == (
                PresenterState {
                    listeners: PresenterListeners {
                        deferred_frame: listens,
                        ..before@.listeners
                    },
                    ..before@
                }),
                (RenderTarget::Presenter(_), _) => false,
                (before, after) => after == before,
            },
    {
        match &mut self.target {
            RenderTarget::Presenter(target) => {
                let mut listeners: PresenterListeners = target.listeners();
                listeners.deferred_frame = listens;
                target.set_listeners(listeners);
            },
            _ => {},
        }
    }

    /// Whether somebody listens to the end of swaps.
    pub fn set_swap_completion_callback(&mut self, listens: bool)
        requires
            old(self).wf(),
        ensures
            final(self).wf(),
            *final(self) == (MetalRenderer {
                target: final(self).target,
                reports_swaps: listens,
                ..*old(self)
            }),
            match (old(self).target, final(self).target) {
                (RenderTarget::Presenter(before), RenderTarget::Presenter(after)) => after@ == (
                PresenterState {
                    listeners: PresenterListeners {
                        swap_completion: listens,
                        ..before@.listeners
                    },
                    ..before@
                }),
                (RenderTarget::Presenter(_), _) => false,
                (before, after) => after == before,
            },
    {
        self.reports_swaps = listens;
        match &mut self.target {
            RenderTarget::Presenter(target) => {
                let mut listeners: PresenterListeners = target.listeners();
                listeners.swap_completion = listens;
                target.set_listeners(listeners);
            },
            _ => {},
        }
    }

    /// Whether somebody listens to when frames are displayed.
    pub fn set_presentation_feedback_callback(&mut self, listens: bool)
        requires
            old(self).wf(),
        ensures
            final(self).wf(),
            *final(self) == (MetalRenderer {
                target: final(self).target,
                reports_presentation: listens,
                ..*old(self)
            }),
            match (old(self).target, final(self).target) {
                (RenderTarget::Presenter(before), RenderTarget::Presenter(after)) => after@ == (
                PresenterState {
                    listeners: PresenterListeners {
                        presentation_feedback: listens,
                        ..before@.listeners
                    },
                    ..before@
                }),
                (RenderTarget::Presenter(_), _) => false,
                (before, after) => after == before,
            },
    {
        self.reports_presentation = listens;
        match &mut self.target {
            RenderTarget::Presenter(target) => {
                let mut listeners: PresenterListeners = target.listeners();
                listeners.presentation_feedback = listens;
                target.set_listeners(listeners);
            },
            _ => {},
        }
    }

    /// How many frames are to be handed over one after the other before the window
    /// moves to another display: all that are ready, without a gap. Once each was
    /// taken out and handed over, none at the front is ready.
    pub fn flush_ready_display_frames(&self) -> (count: usize)
        ensures
            count == match self.target {
                RenderTarget::Presenter(presenter) => queue::ready_run(presenter@.frames),
                _ => 0,
            },
            self.wf() ==> (self.target matches RenderTarget::Presenter(presenter) ==> {
                let flushed = presenter@.after_handovers(count as nat);
                &&& flushed.frames == presenter@.frames.skip(count as int)
                &&& !flushed.front_is_ready()
            }),
    {
        proof {
            if let RenderTarget::Presenter(presenter) = &self.target {
                if self.wf() {
                    presenter::law_flushing_hands_over_all_that_are_ready(presenter@);
                }
            }
        }
        match &self.target {
            RenderTarget::Presenter(target) => target.ready_frame_count(),
            _ => 0,
        }
    }
}

/// A renderer that nobody sees.
pub struct MetalHeadlessRenderer<B> {
    pub renderer: MetalRenderer<B>,
}

impl<B> MetalHeadlessRenderer<B> {
    /// A renderer that nobody sees.
    pub fn new(gpu: GpuTraits) -> (headless: Self)
        ensures
            headless.renderer.wf(),
            headless.renderer.target is Offscreen,
            headless.renderer.is_new(gpu, true),
    {
        MetalHeadlessRenderer { renderer: MetalRenderer::new_headless(gpu) }
    }

    /// Draws a scene to a texture of a size, to be read back.
    pub fn render_scene_to_image(
        &mut self,
        scene: &Scene,
        size: Size<DevicePixels>,
        sizes: InstanceSizes,
    ) -> (result: Result<DrawnScene<B>, RenderError>)
        requires
            old(self).renderer.wf(),
            scene.wf(),
        ensures
            final(self).renderer.wf(),
            old(self).renderer.renders_image(&final(self).renderer, scene, size, sizes, result),
    {
        self.renderer.render_scene_to_image(scene, size, sizes)
    }

    /// Draws a scene to a texture of a size that nobody reads, and tells whether it
    /// has to be made.
    pub fn render_scene(&mut self, scene: &Scene, size: Size<DevicePixels>, sizes: InstanceSizes) -> (result: (
        bool,
        Result<DrawnScene<B>, RenderError>,
    ))
        requires
            old(self).renderer.wf(),
            scene.wf(),
        ensures
            final(self).renderer.wf(),
            old(self).renderer.renders_unread(
                &final(self).renderer,
                scene,
                size,
                sizes,
                result.0,
                result.1,
            ),
    {
        self.renderer.render_scene(scene, size, sizes)
    }
}

/// What a frame that was submitted is told to be.
pub fn submitted_result(submission: &Submission) -> (result: PlatformDrawResult)
    ensures
        result == PlatformDrawResult::Submitted(Some(submission.order as u64)),
{
    PlatformDrawResult::Submitted(Some(submission.order as u64))
}

/// What a frame is told to be: one that a layer presents has no number.
pub fn drawn_result<B>(frame: &DrawnFrame<B>) -> (result: PlatformDrawResult)
    ensures
        result == match *frame {
            DrawnFrame::Finish(result) => result,
            DrawnFrame::Layer { .. } => PlatformDrawResult::Submitted(None),
            DrawnFrame::Presenter(PresenterFrame::Finish(result)) => result,
            DrawnFrame::Presenter(
                PresenterFrame::Submit { submission, .. },
            ) => PlatformDrawResult::Submitted(Some(submission.order as u64)),
        },
{
    match frame {
        DrawnFrame::Finish(result) => *result,
        DrawnFrame::Layer { .. } => PlatformDrawResult::Submitted(None),
        DrawnFrame::Presenter(presented) => match presented {
            PresenterFrame::Finish(result) => *result,
            PresenterFrame::Submit { submission, .. } => submitted_result(submission),
        },
    }
}

/// A frame that starts while as many frames are on their way as are allowed, the
/// oldest of them ready, is drawn and not put off: the fence of the frame that was
/// shown last is waited for, the oldest frame is handed over, and that leaves a
/// buffer to draw to.
pub proof fn law_full_presenters_make_room<B>(
    renderer: MetalRenderer<B>,
    state: PresenterState,
    after: MetalRenderer<B>,
    scene: Scene,
    scene_damage: Option<Bounds<ScaledPixels>>,
    sizes: InstanceSizes,
    now: Instant,
    is_handling_interaction: bool,
    frame: PresenterFrame<B>,
)
    requires
        state.wf(),
        state.committing is None,
        presenter::has_area(state.drawable_size),
        state.pending == IOSURFACE_MAX_PENDING_SWAPS,
        state.front_is_ready(),
        renderer.target matches RenderTarget::Presenter(held) && held@
            == state.started().with_commit_finished(),
        renderer.presents(
            &after,
            &scene,
            scene_damage,
            sizes,
            now,
            is_handling_interaction,
            frame,
        ),
        !draw::is_scene_damage(None, scene_damage, state.drawable_size),
        renderer.fitting_size(&scene, sizes) is Some,
    ensures
        draw::frame_start(state) == (FrameStart::Proceed {
            wait_for: state.committed_fence,
            committing: Some(
                CommittingFrame {
                    frame: PresentedIosurfaceFrame {
                        display_timing: state.timing,
                        ..state.frames[0].frame
                    },
                    presented: state.is_current(state.frames[0].frame),
                },
            ),
        }),
        state.started().with_commit_finished().wf(),
        frame matches PresenterFrame::Submit { buffer_index, .. }
            && state.started().with_commit_finished().is_free(buffer_index as int),
{
    let waited = PresenterState { committed_fence: None, ..state };
    presenter::lemma_taking_keeps_wf(waited);
    presenter::lemma_finishing_keeps_wf(state.started());
    presenter::law_room_means_a_free_buffer(state.started().with_commit_finished());
}

/// How the contents of a layer are replaced.
#[derive(Clone, Copy, Debug, PartialEq, Eq, Structural)]
pub enum ContentsUpdate {
    /// The layer is told that its contents changed.
    MarkChanged,
    /// The layer gets no contents, then the same again.
    ClearThenSet,
    /// The layer gets other contents.
    Replace,
}

/// How the contents of a layer are replaced: where it has them already, to set them
/// again would do nothing.
pub fn contents_update(
    has_contents: bool,
    same_contents: bool,
    supports_contents_changed: bool,
) -> (update: ContentsUpdate)
    ensures
        update == if !has_contents || !same_contents {
            ContentsUpdate::Replace
        } else if supports_contents_changed {
            ContentsUpdate::MarkChanged
        } else {
            ContentsUpdate::ClearThenSet
        },
{
    if !has_contents || !same_contents {
        ContentsUpdate::Replace
    } else if supports_contents_changed {
        ContentsUpdate::MarkChanged
    } else {
        ContentsUpdate::ClearThenSet
    }
}

} // verus!
