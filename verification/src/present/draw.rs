//! Drawing a frame: whether there is anything to draw, where to, and what of it.

use crate::geometry::{Bounds, DevicePixels, ScaledPixels, Size};
use crate::present::damage::scene_damage;
use crate::present::presenter::{
    CommittingFrame, CoreAnimationPresenter, PresenterState, IOSURFACE_MAX_PENDING_SWAPS,
};
use crate::present::{damage, presenter};
use vstd::prelude::*;

verus! {

/// How a frame starts.
#[derive(Clone, Copy, Debug, PartialEq, Eq, Structural)]
pub enum FrameStart {
    /// The surface has no pixels.
    Skip,
    Proceed {
        /// What the GPU has to signal before anything is drawn.
        wait_for: Option<u64>,
        /// A frame that is handed over first, to make room.
        committing: Option<CommittingFrame>,
    },
}

/// Where a frame is drawn to.
#[derive(Clone, Copy, Debug, PartialEq, Eq, Structural)]
pub enum BufferChoice {
    /// Nothing changed.
    Skip,
    /// There is no room.
    Defer,
    Draw {
        buffer_index: usize,
        /// What of the surface changed.
        frame_damage: Bounds<DevicePixels>,
    },
}

impl PresenterState {
    /// The presenter after a frame started: the fence of the frame that was shown
    /// last is waited for, and where no more frames may be on their way, the oldest
    /// that is ready is taken out to be handed over.
    pub open spec fn started(self) -> PresenterState {
        let waited = PresenterState { committed_fence: None, ..self };
        if !presenter::has_area(self.drawable_size) {
            self
        } else if self.pending >= IOSURFACE_MAX_PENDING_SWAPS {
            waited.with_front_taken()
        } else {
            waited
        }
    }
}

/// How a frame of a presenter starts.
pub open spec fn frame_start(state: PresenterState) -> FrameStart {
    if presenter::has_area(state.drawable_size) {
        FrameStart::Proceed {
            wait_for: state.committed_fence,
            committing: state.started().committing,
        }
    } else {
        FrameStart::Skip
    }
}

/// Starts a frame: where no more frames may be on their way, the oldest that is
/// ready is handed over first.
pub fn start_frame(target: &mut CoreAnimationPresenter) -> (start: FrameStart)
    requires
        old(target)@.wf(),
        old(target)@.committing is None,
    ensures
        final(target)@.wf(),
        final(target)@ == old(target)@.started(),
        start == frame_start(old(target)@),
{
    let size: Size<DevicePixels> = target.drawable_size();
    if size.width.0 <= 0 || size.height.0 <= 0 {
        return FrameStart::Skip;
    }
    let wait_for: Option<u64> = target.take_committed_backpressure();
    let committing: Option<CommittingFrame> = if target.pending_swap_count()
        >= IOSURFACE_MAX_PENDING_SWAPS {
        target.take_ready_frame()
    } else {
        None
    };
    FrameStart::Proceed { wait_for, committing }
}

/// The damage of a scene, in the pixels of a surface.
pub open spec fn is_scene_damage(
    frame_damage: Option<Bounds<DevicePixels>>,
    scene: Option<Bounds<ScaledPixels>>,
    size: Size<DevicePixels>,
) -> bool {
    match scene {
        None => frame_damage is None,
        Some(scene) => exists|pixels: Bounds<DevicePixels>, common: Bounds<DevicePixels>|
            {
                &&& #[trigger] damage::encloses(pixels, scene)
                &&& #[trigger] common.is_intersection(&pixels, &Bounds::spec_at_origin(size))
                &&& frame_damage == if common.spec_is_empty() {
                    None
                } else {
                    Some(common)
                }
            },
    }
}

/// Chooses the buffer that a scene is drawn to: none where nothing on the surface
/// changed, and none while there is no room.
pub fn choose_buffer(target: &mut CoreAnimationPresenter, scene: Option<Bounds<ScaledPixels>>) -> (choice:
    BufferChoice)
    requires
        old(target)@.wf(),
        presenter::has_area(old(target)@.drawable_size),
    ensures
        final(target)@.wf(),
        match choice {
            BufferChoice::Skip => {
                &&& is_scene_damage(None, scene, old(target)@.drawable_size)
                &&& final(target)@ == old(target)@
            },
            BufferChoice::Defer => {
                &&& !is_scene_damage(None, scene, old(target)@.drawable_size)
                &&& old(target)@.next_buffer() is None
                &&& final(target)@ == (PresenterState { deferred: true, ..old(target)@ })
            },
            BufferChoice::Draw { buffer_index, frame_damage } => {
                &&& !is_scene_damage(None, scene, old(target)@.drawable_size)
                &&& is_scene_damage(Some(frame_damage), scene, old(target)@.drawable_size)
                &&& old(target)@.next_buffer() == Some(buffer_index)
                &&& final(target)@ == old(target)@
                &&& final(target)@.is_free(buffer_index as int)
                &&& damage::within(frame_damage, final(target)@.drawable_size)
                &&& !frame_damage.spec_is_empty()
            },
        },
        choice is Defer ==> old(target)@.pending >= IOSURFACE_MAX_PENDING_SWAPS,
{
    let size: Size<DevicePixels> = target.drawable_size();
    let damage: Option<Bounds<DevicePixels>> = scene_damage(scene, size);
    match damage {
        None => BufferChoice::Skip,
        Some(frame_damage) => {
            proof {
                if target@.pending < IOSURFACE_MAX_PENDING_SWAPS {
                    presenter::law_room_means_a_free_buffer(target@);
                }
            }
            match target.next_buffer_index() {
                None => BufferChoice::Defer,
                Some(buffer_index) => BufferChoice::Draw { buffer_index, frame_damage },
            }
        },
    }
}

/// Adds the damage of a frame to the buffers and says what has to be drawn to the
/// one that was chosen.
pub fn damage_to_draw(
    target: &mut CoreAnimationPresenter,
    buffer_index: usize,
    frame_damage: Bounds<DevicePixels>,
) -> (damage: Bounds<DevicePixels>)
    requires
        old(target)@.wf(),
        old(target)@.is_free(buffer_index as int),
        damage::within(frame_damage, old(target)@.drawable_size),
    ensures
        final(target)@ == old(target)@.with_damage(frame_damage),
        final(target)@.wf(),
        final(target)@.is_free(buffer_index as int),
        damage == final(target)@.buffers[buffer_index as int].damage,
        damage::within(damage, final(target)@.drawable_size),
{
    target.update_buffer_damage(frame_damage);
    target.buffer_damage(buffer_index)
}

/// Trying again to draw a frame changes nothing: its damage is already in every
/// buffer that it belongs to.
pub proof fn law_damage_is_added_once(state: PresenterState, frame_damage: Bounds<DevicePixels>)
    requires
        state.wf(),
        damage::within(frame_damage, state.drawable_size),
    ensures
        state.with_damage(frame_damage).with_damage(frame_damage) == state.with_damage(frame_damage),
{
    let once = state.with_damage(frame_damage);
    let clamped = damage::clamped_to(frame_damage, state.drawable_size);
    if !clamped.spec_is_empty() {
        assert forall|index: int| 0 <= index < once.buffers.len() implies once.with_damage(
            frame_damage,
        ).buffers[index] == #[trigger] once.buffers[index] by {
            assert(damage::within(state.buffers[index].damage, state.drawable_size));
        }
        assert(once.with_damage(frame_damage).buffers =~= once.buffers);
    }
    assert(once.with_damage(frame_damage) =~= once);
}

} // verus!
