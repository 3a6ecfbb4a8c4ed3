//! What happens to a frame from its damage to the screen, told by the frame.

use crate::frames::swaps::{PresentationFeedback, SwapCompletionResult};
use crate::geometry::{Bounds, DevicePixels, ScaledPixels, Size};
use crate::present::damage::RedrawPlan;
use crate::present::draw::FrameStart;
use crate::present::feedback::FrameDisplayTiming;
use crate::present::presenter::{
    CommittingFrame, FrameCompletion, PresentedIosurfaceFrame, PresenterState,
};
use crate::present::queue::QueuedIosurfaceSubmission;
use crate::present::{damage, draw, feedback, layer_tree, presenter, queue};
use crate::time::Instant;
use vstd::prelude::*;

verus! {

/// A pixel lies in a rectangle from its corner on, as far as its extent reaches.
pub open spec fn lies_in(bounds: Bounds<DevicePixels>, x: int, y: int) -> bool {
    &&& bounds.origin.x.0 <= x < bounds.origin.x.0 + bounds.size.width.0
    &&& bounds.origin.y.0 <= y < bounds.origin.y.0 + bounds.size.height.0
}

/// A pixel lies on a surface.
pub open spec fn lies_on(size: Size<DevicePixels>, x: int, y: int) -> bool {
    0 <= x < size.width.0 && 0 <= y < size.height.0
}

/// A rectangle covers the pixels from its corner on; it is empty exactly if it covers
/// none; a rectangle at the origin covers a surface.
pub proof fn law_rectangles_cover_their_pixels(
    bounds: Bounds<DevicePixels>,
    size: Size<DevicePixels>,
    x: int,
    y: int,
)
    ensures
        bounds.covers(x, y) == lies_in(bounds, x, y),
        bounds.spec_is_empty() ==> !lies_in(bounds, x, y),
        !bounds.spec_is_empty() ==> lies_in(
            bounds,
            bounds.origin.x.0 as int,
            bounds.origin.y.0 as int,
        ),
        lies_in(Bounds::spec_at_origin(size), x, y) == lies_on(size, x, y),
{
}

/// A pixel lies in the common part of two rectangles exactly if it lies in both.
pub proof fn law_common_pixels_lie_in_both(
    left: Bounds<DevicePixels>,
    right: Bounds<DevicePixels>,
    x: int,
    y: int,
)
    requires
        left.can_intersect(&right),
    ensures
        lies_in(left.intersection(&right), x, y) == (lies_in(left, x, y) && lies_in(right, x, y)),
{
}

/// The rectangle round two has the edges that lie furthest out.
pub proof fn law_hulls_reach_the_furthest_edges(
    left: Bounds<DevicePixels>,
    right: Bounds<DevicePixels>,
)
    requires
        left.can_unite(&right),
    ensures
        ({
            let hull = left.hull(&right);
            let right_edge = hull.origin.x.0 + hull.size.width.0;
            let bottom_edge = hull.origin.y.0 + hull.size.height.0;
            let left_right = left.origin.x.0 + left.size.width.0;
            let right_right = right.origin.x.0 + right.size.width.0;
            let left_bottom = left.origin.y.0 + left.size.height.0;
            let right_bottom = right.origin.y.0 + right.size.height.0;
            &&& hull.origin.x.0 <= left.origin.x.0 && hull.origin.x.0 <= right.origin.x.0
            &&& hull.origin.x.0 == left.origin.x.0 || hull.origin.x.0 == right.origin.x.0
            &&& hull.origin.y.0 <= left.origin.y.0 && hull.origin.y.0 <= right.origin.y.0
            &&& hull.origin.y.0 == left.origin.y.0 || hull.origin.y.0 == right.origin.y.0
            &&& right_edge >= left_right && right_edge >= right_right
            &&& right_edge == left_right || right_edge == right_right
            &&& bottom_edge >= left_bottom && bottom_edge >= right_bottom
            &&& bottom_edge == left_bottom || bottom_edge == right_bottom
        }),
{
}

/// Damage in parts of pixels becomes the smallest rectangle of whole pixels round it:
/// its edges lie less than a pixel outside.
pub proof fn law_damage_is_rounded_outwards(
    pixels: Bounds<DevicePixels>,
    fraction: Bounds<ScaledPixels>,
)
    requires
        damage::encloses(pixels, fraction),
        fraction.size.width.0 > 0,
        fraction.size.height.0 > 0,
    ensures
        ({
            let one: int = 1_099_511_627_776;
            let left = fraction.origin.x.0;
            let top = fraction.origin.y.0;
            let right = left + fraction.size.width.0;
            let bottom = top + fraction.size.height.0;
            let right_edge = pixels.origin.x.0 + pixels.size.width.0;
            let bottom_edge = pixels.origin.y.0 + pixels.size.height.0;
            &&& left - one < pixels.origin.x.0 * one <= left
            &&& top - one < pixels.origin.y.0 * one <= top
            &&& right <= right_edge * one < right + one
            &&& bottom <= bottom_edge * one < bottom + one
        }),
{
}

/// The damage of a frame is the part of the scene's damage that lies on the surface; it
/// is nothing exactly where no such pixel is.
pub proof fn law_frame_damage_lies_on_the_surface(
    frame_damage: Option<Bounds<DevicePixels>>,
    scene: Option<Bounds<ScaledPixels>>,
    size: Size<DevicePixels>,
)
    requires
        draw::is_scene_damage(frame_damage, scene, size),
    ensures
        scene is None ==> frame_damage is None,
        scene matches Some(scene) ==> exists|pixels: Bounds<DevicePixels>| #[trigger]
            damage::encloses(pixels, scene) && forall|x: int, y: int|
                #[trigger] lies_in(pixels, x, y) && lies_on(size, x, y) <==> (
                frame_damage is Some && lies_in(frame_damage->0, x, y)),
{
    if let Some(scene) = scene {
        let (pixels, common) = choose|
            pixels: Bounds<DevicePixels>,
            common: Bounds<DevicePixels>,
        |
            {
                &&& #[trigger] damage::encloses(pixels, scene)
                &&& #[trigger] common.is_intersection(&pixels, &Bounds::spec_at_origin(size))
                &&& frame_damage == if common.spec_is_empty() {
                    None
                } else {
                    Some(common)
                }
            };
        assert(damage::encloses(pixels, scene));
        assert forall|x: int, y: int| #[trigger]
            lies_in(pixels, x, y) && lies_on(size, x, y) <==> (frame_damage is Some && lies_in(
                frame_damage->0,
                x,
                y,
            )) by {
            assert(lies_in(common, x, y) <==> lies_in(pixels, x, y) && lies_on(size, x, y));
        }
    }
}

/// What is drawn again is the part of the damage that lies on the surface, with the rest
/// of the surface kept. Where there is no such part, or no damage is given, all of it
/// is drawn and nothing is kept.
pub proof fn law_redrawing_keeps_the_rest(
    plan: RedrawPlan,
    changed: Option<Bounds<DevicePixels>>,
    size: Size<DevicePixels>,
    x: int,
    y: int,
)
    requires
        damage::redraw_plan(plan, changed, size),
    ensures
        changed is None ==> !plan.keep_contents && plan.damage == Bounds::spec_at_origin(size),
        plan.keep_contents == (plan.damage != Bounds::spec_at_origin(size)),
        changed matches Some(changed) ==> {
            &&& lies_in(changed, x, y) && lies_on(size, x, y) ==> lies_in(plan.damage, x, y)
            &&& plan.damage != Bounds::spec_at_origin(size) && lies_in(plan.damage, x, y)
                ==> lies_in(changed, x, y) && lies_on(size, x, y)
        },
        lies_in(plan.damage, x, y) ==> lies_on(size, x, y),
{
    if let Some(changed) = changed {
        let full = Bounds::spec_at_origin(size);
        let common = choose|common: Bounds<DevicePixels>| #[trigger]
            common.is_intersection(&changed, &full) && plan.damage == if common.spec_is_empty() {
                full
            } else {
                common
            };
        assert(common.is_intersection(&changed, &full));
        assert(lies_in(common, x, y) == (lies_in(changed, x, y) && lies_on(size, x, y)));
    }
}

/// Drawing is cut off at the damage, with nothing below zero.
pub proof fn law_drawing_is_cut_off_at_the_damage(changed: Bounds<DevicePixels>)
    ensures
        ({
            let cut = damage::cut_off_at(changed);
            &&& changed.origin.x.0 >= 0 ==> cut.x == changed.origin.x.0
            &&& changed.origin.x.0 < 0 ==> cut.x == 0
            &&& changed.origin.y.0 >= 0 ==> cut.y == changed.origin.y.0
            &&& changed.origin.y.0 < 0 ==> cut.y == 0
            &&& changed.size.width.0 >= 0 ==> cut.width == changed.size.width.0
            &&& changed.size.width.0 < 0 ==> cut.width == 0
            &&& changed.size.height.0 >= 0 ==> cut.height == changed.size.height.0
            &&& changed.size.height.0 < 0 ==> cut.height == 0
        }),
{
}

/// A surface that changes its size gets three new buffers, all of each to be drawn, or
/// none where it has no pixels. Nothing is on the screen then, frames of before count
/// as old, and layers that are hosted are made anew. The rest stays.
pub proof fn law_new_sizes_bring_new_buffers(state: PresenterState, size: Size<DevicePixels>, index: int)
    requires
        size != state.drawable_size,
        state.generation < usize::MAX,
    ensures
        ({
            let next = state.with_size(size);
            let had_pixels = state.drawable_size.width.0 > 0 && state.drawable_size.height.0 > 0;
            &&& next.drawable_size == size
            &&& next.generation == state.generation + 1
            &&& next.current is None
            &&& next.buffers.len() == if size.width.0 > 0 && size.height.0 > 0 {
                3int
            } else {
                0
            }
            &&& 0 <= index < next.buffers.len() ==> {
                &&& !next.buffers[index].pending
                &&& next.buffers[index].damage.origin.x.0 == 0
                &&& next.buffers[index].damage.origin.y.0 == 0
                &&& next.buffers[index].damage.size == size
            }
            &&& next.resized == (state.resized || (had_pixels && state.uses_ca_context))
            &&& next.uses_ca_context == state.uses_ca_context
            &&& next.pending == state.pending
            &&& next.submissions == state.submissions
            &&& next.fences == state.fences
            &&& next.committed_fence == state.committed_fence
            &&& next.frames == state.frames
            &&& next.committing == state.committing
            &&& next.deferred == state.deferred
            &&& next.listeners == state.listeners
            &&& next.timing == state.timing
        }),
{
}

/// A presenter starts without pixels, frames, fences and listeners.
pub proof fn law_presenters_start_empty(hosted: bool)
    ensures
        ({
            let start = presenter::without_size(hosted);
            &&& start.drawable_size.width.0 == 0
            &&& start.drawable_size.height.0 == 0
            &&& start.uses_ca_context == hosted
            &&& start.buffers.len() == 0
            &&& start.pending == 0
            &&& start.current is None
            &&& start.generation == 0
            &&& start.submissions == 0
            &&& start.fences == 0
            &&& start.committed_fence is None
            &&& start.frames.len() == 0
            &&& start.committing is None
            &&& !start.deferred
            &&& !start.resized
            &&& !start.listeners.deferred_frame
            &&& !start.listeners.swap_completion
            &&& !start.listeners.presentation_feedback
            &&& start.timing is None
        }),
{
}

/// Damage changes nothing but what the buffers have to draw, and that only for buffers
/// that are not on the screen; there it reaches no further than the edges of what the
/// buffer had to draw and of the damage.
pub proof fn law_damage_changes_nothing_else(
    state: PresenterState,
    changed: Bounds<DevicePixels>,
    index: int,
)
    requires
        state.wf(),
        damage::within(changed, state.drawable_size),
        !changed.spec_is_empty(),
        0 <= index < state.buffers.len(),
    ensures
        ({
            let next = state.with_damage(changed);
            let before = state.buffers[index].damage;
            let after = next.buffers[index].damage;
            &&& next == (PresenterState { buffers: next.buffers, ..state })
            &&& next.buffers.len() == state.buffers.len()
            &&& next.buffers[index].pending == state.buffers[index].pending
            &&& state.current == Some(index as usize) ==> after == before
            &&& state.current != Some(index as usize) ==> {
                &&& after.origin.x.0 == if before.origin.x.0 < changed.origin.x.0 {
                    before.origin.x.0
                } else {
                    changed.origin.x.0
                }
                &&& after.origin.y.0 == if before.origin.y.0 < changed.origin.y.0 {
                    before.origin.y.0
                } else {
                    changed.origin.y.0
                }
                &&& after.origin.x.0 + after.size.width.0 == if before.origin.x.0
                    + before.size.width.0 > changed.origin.x.0 + changed.size.width.0 {
                    before.origin.x.0 + before.size.width.0
                } else {
                    changed.origin.x.0 + changed.size.width.0
                }
                &&& after.origin.y.0 + after.size.height.0 == if before.origin.y.0
                    + before.size.height.0 > changed.origin.y.0 + changed.size.height.0 {
                    before.origin.y.0 + before.size.height.0
                } else {
                    changed.origin.y.0 + changed.size.height.0
                }
            }
        }),
{
    let next = state.with_damage(changed);
    assert(damage::within(state.buffers[index].damage, state.drawable_size));
    assert(damage::clamped_to(changed, state.drawable_size) == changed);
    assert(next =~= (PresenterState { buffers: next.buffers, ..state }));
}

/// A frame is drawn to the first buffer that is neither on the screen nor on its way
/// there, while fewer than two frames are on their way.
pub proof fn law_the_first_free_buffer_is_drawn_to(state: PresenterState, other: int)
    requires
        state.buffers.len() <= usize::MAX,
    ensures
        match state.next_buffer() {
            Some(index) => {
                &&& state.pending < 2
                &&& index < state.buffers.len()
                &&& state.current != Some(index)
                &&& !state.buffers[index as int].pending
                &&& 0 <= other < index ==> state.current == Some(other as usize)
                    || state.buffers[other].pending
            },
            None => state.pending >= 2 || (0 <= other < state.buffers.len() ==> state.current
                == Some(other as usize) || state.buffers[other].pending),
        },
{
    lemma_first_free(state, 0, other);
}

proof fn lemma_first_free(state: PresenterState, from: int, other: int)
    requires
        0 <= from,
        state.buffers.len() <= usize::MAX,
    ensures
        match state.first_free(from) {
            Some(index) => {
                &&& from <= index < state.buffers.len()
                &&& state.is_free(index as int)
                &&& from <= other < index ==> !state.is_free(other)
            },
            None => from <= other < state.buffers.len() ==> !state.is_free(other),
        },
    decreases state.buffers.len() - from,
{
    if from < state.buffers.len() && !state.is_free(from) {
        lemma_first_free(state, from + 1, other);
    }
}

/// A submitted frame gets the next number and the next fence, remembers its buffer, its
/// damage and who listens, and waits behind all others; its buffer has nothing to draw
/// and is on its way.
pub proof fn law_submissions_are_numbered(
    state: PresenterState,
    buffer_index: usize,
    changed: Bounds<DevicePixels>,
    time: Instant,
    delay: bool,
    other: int,
)
    requires
        buffer_index < state.buffers.len(),
        state.submissions < usize::MAX,
        state.fences < u64::MAX,
    ensures
        ({
            let frame = state.submitted_frame(buffer_index, changed, time, delay);
            let next = state.with_submission(frame);
            &&& frame.generation == state.generation
            &&& frame.buffer_index == buffer_index
            &&& frame.swap_id == state.submissions + 1
            &&& frame.ready_time == time
            &&& frame.submitted_damage == changed
            &&& frame.fence_value == state.fences + 1
            &&& frame.delay_until_next_vsync == delay
            &&& frame.listeners == state.listeners
            &&& frame.display_timing is None
            &&& next.pending == state.pending + 1
            &&& !next.resized
            &&& next.submissions == state.submissions + 1
            &&& next.fences == state.fences + 1
            &&& next.frames.len() == state.frames.len() + 1
            &&& next.frames.drop_last() == state.frames
            &&& next.frames.last().order == state.submissions + 1
            &&& !next.frames.last().ready
            &&& next.frames.last().frame == frame
            &&& next.buffers.len() == state.buffers.len()
            &&& next.buffers[buffer_index as int].pending
            &&& next.buffers[buffer_index as int].damage.size.width.0 == 0
            &&& next.buffers[buffer_index as int].damage.size.height.0 == 0
            &&& 0 <= other < state.buffers.len() && other != buffer_index ==> next.buffers[other]
                == state.buffers[other]
            &&& next.drawable_size == state.drawable_size
            &&& next.current == state.current
            &&& next.generation == state.generation
            &&& next.committed_fence == state.committed_fence
            &&& next.committing == state.committing
            &&& next.deferred == state.deferred
            &&& next.listeners == state.listeners
            &&& next.timing == state.timing
        }),
{
    let frame = state.submitted_frame(buffer_index, changed, time, delay);
    assert(state.with_submission(frame).frames.drop_last() =~= state.frames);
}

/// The oldest frame is handed over once it is ready, with the timing of the display of
/// then, and is shown exactly if it has the size of now. While it is not ready nothing
/// happens.
pub proof fn law_only_ready_frames_are_handed_over(state: PresenterState)
    ensures
        ({
            let next = state.with_front_taken();
            let ready = state.frames.len() > 0 && state.frames[0].ready;
            &&& !ready ==> next == state
            &&& ready ==> {
                let frame = state.frames[0].frame;
                &&& next.frames == state.frames.skip(1)
                &&& next.committing matches Some(committing)
                &&& committing.presented == (frame.generation == state.generation)
                &&& committing.frame == (PresentedIosurfaceFrame {
                    display_timing: state.timing,
                    ..frame
                })
                &&& next == (PresenterState {
                    frames: next.frames,
                    committing: next.committing,
                    ..state
                })
            }
        }),
{
    if state.frames.len() > 0 {
        assert(state.frames.drop_first() =~= state.frames.skip(1));
    }
}

/// A frame that was shown is the one on the screen, its fence is to be waited for, and
/// its buffer is no longer on its way. One that was not shown changes neither. Either
/// way one frame fewer is on its way, and a frame that had no room is no longer put off.
pub proof fn law_handovers_end(state: PresenterState, committing: CommittingFrame, other: int)
    requires
        state.committing == Some(committing),
        state.pending > 0,
        committing.frame.generation == state.generation ==> committing.frame.buffer_index
            < state.buffers.len(),
    ensures
        ({
            let next = state.with_commit_finished();
            let index = committing.frame.buffer_index as int;
            let is_current = committing.frame.generation == state.generation;
            &&& next.committing is None
            &&& next.pending == state.pending - 1
            &&& !next.deferred
            &&& next.current == if committing.presented {
                Some(committing.frame.buffer_index)
            } else {
                state.current
            }
            &&& next.committed_fence == if committing.presented {
                Some(committing.frame.fence_value)
            } else {
                state.committed_fence
            }
            &&& next.buffers.len() == state.buffers.len()
            &&& is_current ==> !next.buffers[index].pending && next.buffers[index].damage
                == state.buffers[index].damage
            &&& 0 <= other < state.buffers.len() && (other != index || !is_current)
                ==> next.buffers[other] == state.buffers[other]
            &&& next == (PresenterState {
                committing: None,
                pending: next.pending,
                deferred: false,
                current: next.current,
                committed_fence: next.committed_fence,
                buffers: next.buffers,
                ..state
            })
        }),
{
}

/// A frame that the GPU finished is ready from then on, and nothing else changes.
pub proof fn law_finished_frames_are_ready(state: PresenterState, place: int, time: Instant, other: int)
    requires
        0 <= place < state.frames.len(),
    ensures
        ({
            let next = state.with_ready(place, time);
            &&& next.frames.len() == state.frames.len()
            &&& next.frames[place].ready
            &&& next.frames[place].order == state.frames[place].order
            &&& next.frames[place].frame == (PresentedIosurfaceFrame {
                ready_time: time,
                ..state.frames[place].frame
            })
            &&& 0 <= other < state.frames.len() && other != place ==> next.frames[other]
                == state.frames[other]
            &&& next == (PresenterState { frames: next.frames, ..state })
        }),
{
}

/// A frame that failed leaves the queue, and one frame fewer is on its way. Its buffer
/// can be drawn to again where it still has the size.
pub proof fn law_failed_frames_leave(state: PresenterState, place: int, other: int)
    requires
        0 <= place < state.frames.len(),
        state.pending > 0,
        state.frames[place].frame.generation == state.generation
            ==> state.frames[place].frame.buffer_index < state.buffers.len(),
    ensures
        ({
            let next = state.with_failure(place);
            let frame = state.frames[place].frame;
            let index = frame.buffer_index as int;
            let is_current = frame.generation == state.generation;
            &&& next.frames.len() == state.frames.len() - 1
            &&& 0 <= other < place ==> next.frames[other] == state.frames[other]
            &&& place <= other < next.frames.len() ==> next.frames[other] == state.frames[other
                + 1]
            &&& next.pending == state.pending - 1
            &&& !next.deferred
            &&& next.buffers.len() == state.buffers.len()
            &&& is_current ==> !next.buffers[index].pending
            &&& is_current && (frame.submitted_damage.size.width.0 <= 0
                || frame.submitted_damage.size.height.0 <= 0) ==> next.buffers[index].damage
                == state.buffers[index].damage
            &&& 0 <= other < state.buffers.len() && (other != index || !is_current)
                ==> next.buffers[other] == state.buffers[other]
            &&& next == (PresenterState {
                frames: next.frames,
                pending: next.pending,
                deferred: false,
                buffers: next.buffers,
                ..state
            })
        }),
{
}

/// A frame is handed over at once where it is alone, ready, and does not wait for the
/// next refresh.
pub proof fn law_lone_frames_are_handed_over_at_once(state: PresenterState)
    ensures
        state.commits_at_once() == (state.frames.len() == 1 && state.frames[0].ready
            && !state.frames[0].frame.delay_until_next_vsync),
{
}

/// A frame starts where the surface has pixels, waits for the fence of the last frame
/// that was shown, and hands over the oldest frame first where two are on their way.
pub proof fn law_frames_start_by_making_room(state: PresenterState)
    requires
        state.committing is None,
    ensures
        ({
            let next = state.started();
            let has_pixels = state.drawable_size.width.0 > 0 && state.drawable_size.height.0 > 0;
            let ready = state.frames.len() > 0 && state.frames[0].ready;
            &&& !has_pixels ==> draw::frame_start(state) is Skip && next == state
            &&& has_pixels ==> {
                &&& draw::frame_start(state) matches FrameStart::Proceed { wait_for, committing }
                &&& wait_for == state.committed_fence
                &&& committing == next.committing
                &&& committing is Some == (state.pending >= 2 && ready)
                &&& next.committed_fence is None
                &&& committing matches Some(committing) ==> {
                    &&& committing.frame.swap_id == state.frames[0].frame.swap_id
                    &&& committing.frame.buffer_index == state.frames[0].frame.buffer_index
                    &&& committing.presented == (state.frames[0].frame.generation
                        == state.generation)
                    &&& next.frames == state.frames.skip(1)
                }
                &&& committing is None ==> next == (PresenterState {
                    committed_fence: None,
                    ..state
                })
            }
        }),
{
    if state.frames.len() > 0 {
        assert(state.frames.drop_first() =~= state.frames.skip(1));
    }
}

/// Who listens to a frame is told how it ended: whether it was shown, skipped or failed,
/// under its own number, when it was ready and when it was handed over.
pub proof fn law_listeners_are_told_how_frames_end(
    completion: FrameCompletion,
    committing: CommittingFrame,
    latch_time: Instant,
    deferred: bool,
)
    requires
        presenter::tells_of_commit(completion, committing, latch_time, deferred),
    ensures
        ({
            let frame = committing.frame;
            let failure = presenter::failure_report(frame, latch_time);
            &&& completion.swap_completion is Some == frame.listeners.swap_completion
            &&& completion.swap_completion matches Some(told) ==> {
                &&& told.swap_id == Some(frame.swap_id)
                &&& told.ready_time == frame.ready_time
                &&& told.latch_time == latch_time
                &&& told.presented == committing.presented
                &&& told.result == if committing.presented {
                    SwapCompletionResult::Ack
                } else {
                    SwapCompletionResult::Skipped
                }
            }
            &&& completion.presentation_feedback is Some == frame.listeners.presentation_feedback
            &&& completion.presentation_feedback matches Some(told) ==> {
                &&& told.swap_id == Some(frame.swap_id)
                &&& told.ready_time == frame.ready_time
                &&& told.latch_time == latch_time
                &&& told.presented == committing.presented
                &&& told.vsync == committing.presented
                &&& told.hardware_completion
                &&& !committing.presented ==> told.display_time == latch_time
                    && told.target_latch_time is None && told.interval is None
            }
            &&& completion.request_frame == (deferred && frame.listeners.deferred_frame)
            &&& failure.swap_completion is Some == frame.listeners.swap_completion
            &&& failure.swap_completion matches Some(told) ==> {
                &&& told.result is Failed
                &&& !told.presented
                &&& told.swap_id == Some(frame.swap_id)
                &&& told.ready_time == frame.ready_time
                &&& told.latch_time == latch_time
            }
            &&& failure.presentation_feedback is Some == frame.listeners.presentation_feedback
            &&& failure.presentation_feedback matches Some(told) ==> !told.presented
                && told.swap_id == Some(frame.swap_id) && told.display_time == latch_time
            &&& failure.request_frame == frame.listeners.deferred_frame
        }),
{
}

/// What is told about a frame that is displayed: when it is, at which intervals the
/// display refreshes, and by when it should have been handed over.
pub proof fn law_displayed_frames_are_timed(
    told: PresentationFeedback,
    swap_id: Option<u64>,
    ready_time: Instant,
    latch_time: Instant,
    timing: Option<FrameDisplayTiming>,
)
    requires
        feedback::is_displayed(told, swap_id, ready_time, latch_time, timing),
    ensures
        told.ready_time == ready_time,
        told.latch_time == latch_time,
        told.swap_id == swap_id,
        told.presented && told.vsync && told.hardware_completion,
        timing is None ==> told.display_time == latch_time && told.interval is None
            && told.target_latch_time is None,
        timing matches Some(timing) ==> {
            &&& told.interval == timing.frame_interval
            &&& told.display_time@ == timing.display_time(latch_time@)
            &&& told.target_latch_time is Some == (timing.next_display_time@ >= 1_500_000)
            &&& told.target_latch_time matches Some(target) ==> target@
                == timing.next_display_time@ - 1_500_000
        },
{
}

/// A frame is displayed at a refresh more than a millisecond and a half after it was
/// handed over, the next one if that leaves so much time, or else at the moment of the
/// handover.
pub proof fn law_frames_need_time_to_be_displayed(timing: FrameDisplayTiming, latch_time: nat)
    ensures
        ({
            let shown = timing.display_time(latch_time);
            let next = timing.next_display_time@;
            &&& next > latch_time + 1_500_000 ==> shown == next
            &&& next <= latch_time + 1_500_000 && (timing.frame_interval is None
                || timing.frame_interval->0@ == 0) ==> shown == latch_time
            &&& next >= 1_500_000 ==> shown == latch_time || shown > latch_time + 1_500_000
        }),
{
    if timing.next_display_time@ >= 1_500_000 {
        if let Some(interval) = timing.frame_interval {
            lemma_refresh(timing.next_display_time@, interval@, latch_time, 240);
        }
    }
}

proof fn lemma_refresh(display_time: nat, interval: nat, latch_time: nat, refreshes: nat)
    requires
        display_time >= 1_500_000,
    ensures
        ({
            let shown = feedback::first_reachable_refresh(
                display_time,
                interval,
                latch_time,
                refreshes,
            );
            shown == latch_time || shown > latch_time + 1_500_000
        }),
    decreases refreshes,
{
    if refreshes > 0 {
        lemma_refresh(display_time + interval, interval, latch_time, (refreshes - 1) as nat);
    }
}

/// Of the ports of replaced contexts the last four are kept and all others are given
/// back.
pub proof fn law_the_last_four_ports_are_kept(ports: Seq<u32>)
    ensures
        ports.len() <= 4 ==> layer_tree::kept_ports(ports) == ports && layer_tree::released_ports(
            ports,
        ).len() == 0,
        ports.len() > 4 ==> layer_tree::kept_ports(ports) == ports.skip(ports.len() - 4)
            && layer_tree::released_ports(ports) == ports.take(ports.len() - 4),
{
}

/// A frame is queued behind all that were submitted before it or with it, and before
/// all others; it is found by its number, the first where several have it; and frames
/// are ready in a row up to the first that is not.
pub proof fn law_queued_frames_have_places<T>(
    frames: Seq<QueuedIosurfaceSubmission<T>>,
    order: usize,
)
    ensures
        ({
            let place = queue::place_for(frames, order);
            &&& 0 <= place <= frames.len()
            &&& forall|index: int| 0 <= index < place ==> (#[trigger] frames[index]).order <= order
            &&& place < frames.len() ==> frames[place].order > order
        }),
        match queue::place_of(frames, order) {
            Some(place) => {
                &&& 0 <= place < frames.len()
                &&& frames[place].order == order
                &&& forall|index: int|
                    0 <= index < place ==> (#[trigger] frames[index]).order != order
            },
            None => forall|index: int|
                0 <= index < frames.len() ==> (#[trigger] frames[index]).order != order,
        },
        ({
            let run = queue::ready_run(frames);
            &&& run <= frames.len()
            &&& forall|index: int| 0 <= index < run ==> (#[trigger] frames[index]).ready
            &&& run < frames.len() ==> !frames[run as int].ready
        }),
    decreases frames.len(),
{
    if frames.len() > 0 {
        let rest = frames.drop_first();
        law_queued_frames_have_places(rest, order);
        assert forall|index: int| 1 <= index < frames.len() implies #[trigger] frames[index]
            == rest[index - 1] by {}
        let place = queue::place_for(frames, order);
        if place > 0 {
            assert forall|index: int| 0 <= index < place implies (#[trigger] frames[index]).order
                <= order by {
                if index > 0 {
                    assert(frames[index] == rest[index - 1]);
                }
            }
            if place < frames.len() {
                assert(frames[place] == rest[place - 1]);
            }
        }
        let run = queue::ready_run(frames);
        assert forall|index: int| 0 <= index < run implies (#[trigger] frames[index]).ready by {
            if index > 0 {
                assert(frames[index] == rest[index - 1]);
            }
        }
        if 0 < run < frames.len() {
            assert(frames[run as int] == rest[run - 1]);
        }
        match queue::place_of(frames, order) {
            Some(found) => {
                if found > 0 {
                    assert(frames[found] == rest[found - 1]);
                }
            },
            None => {
                assert forall|index: int| 0 <= index < frames.len() implies (
                #[trigger] frames[index]).order != order by {
                    if index > 0 {
                        assert(frames[index] == rest[index - 1]);
                    }
                }
            },
        }
    }
}

/// Up to 240 refreshes are tried in turn: one that lies more than a millisecond and a
/// half after the handover is the one. A frame that is in time for none of them counts
/// as displayed when it was handed over.
pub proof fn law_refreshes_are_tried_in_turn(
    timing: FrameDisplayTiming,
    display_time: nat,
    interval: nat,
    latch_time: nat,
    refreshes: nat,
)
    requires
        display_time >= 1_500_000,
    ensures
        feedback::first_reachable_refresh(display_time, interval, latch_time, 0) == latch_time,
        feedback::first_reachable_refresh(display_time, interval, latch_time, refreshes + 1)
            == if display_time > latch_time + 1_500_000 {
            display_time
        } else {
            feedback::first_reachable_refresh(
                display_time + interval,
                interval,
                latch_time,
                refreshes,
            )
        },
        timing.next_display_time@ <= latch_time + 1_500_000 && timing.frame_interval is Some
            && timing.frame_interval->0@ > 0 ==> timing.display_time(latch_time)
            == feedback::first_reachable_refresh(
            timing.next_display_time@,
            timing.frame_interval->0@,
            latch_time,
            240,
        ),
        forall|early: nat|
            early < 1_500_000 ==> #[trigger] feedback::latch_deadline(early) == early,
{
}

/// Only the part of damage that lies on the surface counts: damage that misses it
/// changes nothing, and any other changes what its part on the surface does.
pub proof fn law_damage_beside_the_surface_is_nothing(
    state: PresenterState,
    changed: Bounds<DevicePixels>,
    on_surface: Bounds<DevicePixels>,
)
    requires
        changed.can_intersect(&Bounds::spec_at_origin(state.drawable_size)),
        damage::within(on_surface, state.drawable_size),
        forall|x: int, y: int| #[trigger]
            lies_in(on_surface, x, y) <==> lies_in(changed, x, y) && lies_on(
                state.drawable_size,
                x,
                y,
            ),
    ensures
        on_surface.spec_is_empty() ==> state.with_damage(changed) == state,
        !on_surface.spec_is_empty() ==> state.with_damage(changed) == state.with_damage(on_surface),
{
    let clamped = damage::clamped_to(changed, state.drawable_size);
    assert forall|x: int, y: int| #[trigger] lies_in(on_surface, x, y) <==> lies_in(
        clamped,
        x,
        y,
    ) by {
        law_common_pixels_lie_in_both(
            changed,
            Bounds::spec_at_origin(state.drawable_size),
            x,
            y,
        );
    }
    if !clamped.spec_is_empty() {
        assert(lies_in(on_surface, clamped.origin.x.0 as int, clamped.origin.y.0 as int));
        let right = clamped.origin.x.0 + clamped.size.width.0 - 1;
        let bottom = clamped.origin.y.0 + clamped.size.height.0 - 1;
        assert(lies_in(on_surface, right, bottom));
    }
    if !on_surface.spec_is_empty() {
        assert(lies_in(on_surface, on_surface.origin.x.0 as int, on_surface.origin.y.0 as int));
        let right = on_surface.origin.x.0 + on_surface.size.width.0 - 1;
        let bottom = on_surface.origin.y.0 + on_surface.size.height.0 - 1;
        assert(lies_in(on_surface, right, bottom));
        assert(clamped == on_surface);
        assert(damage::clamped_to(on_surface, state.drawable_size) == on_surface);
    }
}

} // verus!
