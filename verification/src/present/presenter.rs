//! The presenter: three buffers that are drawn to in turn, at most two of them on
//! their way to the screen, shown in the order in which they were submitted.

use crate::frames::swaps::{PresentationFeedback, SwapCompletionFeedback, SwapCompletionResult};
use crate::geometry::{Bounds, DevicePixels, Point, Size};
use crate::present::damage::{clamp_damage, full_texture_bounds, restore_failed_buffer_damage};
use crate::present::feedback::{
    decrement_pending_swap_count, presentation_feedback_for_dropped_frame,
    presentation_feedback_for_iosurface_frame, should_commit_ready_iosurface_frame_immediately,
    swap_completion_result_for_iosurface_frame, FrameDisplayTiming,
};
use crate::present::queue::{IosurfaceSubmissionQueue, QueuedIosurfaceSubmission};
use crate::present::{damage, feedback, queue};
use crate::time::{Duration, Instant};
use vstd::prelude::*;

verus! {

/// How many buffers are drawn to in turn.
pub const IOSURFACE_BUFFER_COUNT: usize = 3;

/// How many frames may be on their way to the screen: one buffer is on it.
pub const IOSURFACE_MAX_PENDING_SWAPS: usize = 2;

/// A buffer that frames are drawn to.
#[derive(Clone, Copy, Debug, PartialEq, Eq, Structural)]
pub struct IosurfaceFrameBuffer {
    /// A frame in the buffer is on its way to the screen.
    pub pending: bool,
    /// What has changed since the buffer was drawn to.
    pub damage: Bounds<DevicePixels>,
}

/// Who listens to what the presenter tells.
#[derive(Clone, Copy, Debug, PartialEq, Eq, Structural)]
pub struct PresenterListeners {
    /// Somebody draws again once there is room.
    pub deferred_frame: bool,
    pub swap_completion: bool,
    pub presentation_feedback: bool,
}

/// A frame on its way to the screen.
#[derive(Clone, Copy, Debug, PartialEq, Eq, Structural)]
pub struct PresentedIosurfaceFrame {
    /// The buffers that it was drawn to: those of one size of the surface.
    pub generation: usize,
    pub buffer_index: usize,
    pub swap_id: u64,
    /// When it was submitted and, once the GPU is done with it, when that was.
    pub ready_time: Instant,
    pub submitted_damage: Bounds<DevicePixels>,
    /// What the GPU signals once it is done with the frame.
    pub fence_value: u64,
    /// It answers an interaction and waits for the next refresh.
    pub delay_until_next_vsync: bool,
    /// Who listened when it was submitted.
    pub listeners: PresenterListeners,
    /// The timing of the display when the frame was handed over.
    pub display_timing: Option<FrameDisplayTiming>,
}

/// A frame that is being handed over.
#[derive(Clone, Copy, Debug, PartialEq, Eq, Structural)]
pub struct CommittingFrame {
    pub frame: PresentedIosurfaceFrame,
    /// It is shown: the surface still has the size it was drawn for.
    pub presented: bool,
}

/// What is told once a frame has left the presenter, in this order.
#[derive(Clone, Copy, Debug, PartialEq, Eq, Structural)]
pub struct FrameCompletion {
    pub swap_completion: Option<SwapCompletionFeedback>,
    pub presentation_feedback: Option<PresentationFeedback>,
    /// A frame that had no room is to be drawn now.
    pub request_frame: bool,
}

/// What a finished piece of work of the GPU leads to.
#[derive(Clone, Copy, Debug, PartialEq, Eq, Structural)]
pub struct GpuCompletion {
    /// The submission was on its way.
    pub found: bool,
    /// What is told about a frame that failed.
    pub failure: Option<FrameCompletion>,
    /// The oldest frame is to be handed over now.
    pub commit: bool,
}

/// What a submitted frame is known by.
#[derive(Clone, Copy, Debug, PartialEq, Eq, Structural)]
pub struct Submission {
    pub order: usize,
    pub fence_value: u64,
    /// The layers are to be made anew before the frame is handed over.
    pub recreate_layers: bool,
}

/// A surface that pixels can be drawn to.
pub open spec fn has_area(size: Size<DevicePixels>) -> bool {
    size.width.0 > 0 && size.height.0 > 0
}

/// The rectangle without extent at the origin.
pub open spec fn no_damage() -> Bounds<DevicePixels> {
    Bounds::spec_at_origin(Size { width: DevicePixels(0), height: DevicePixels(0) })
}

/// Buffers of a new size: all of each has to be drawn.
pub open spec fn fresh_buffers(size: Size<DevicePixels>) -> Seq<IosurfaceFrameBuffer> {
    if has_area(size) {
        Seq::new(
            IOSURFACE_BUFFER_COUNT as nat,
            |index: int|
                IosurfaceFrameBuffer { pending: false, damage: Bounds::spec_at_origin(size) },
        )
    } else {
        Seq::empty()
    }
}

/// What a buffer has to draw after more was damaged.
pub open spec fn accumulated(
    before: Bounds<DevicePixels>,
    damage: Bounds<DevicePixels>,
    size: Size<DevicePixels>,
) -> Bounds<DevicePixels> {
    damage::clamped_to(before.hull(&damage), size)
}

/// The state of a presenter.
#[verifier::ext_equal]
pub struct PresenterState {
    pub drawable_size: Size<DevicePixels>,
    pub uses_ca_context: bool,
    pub buffers: Seq<IosurfaceFrameBuffer>,
    pub pending: nat,
    /// The buffer that is on the screen.
    pub current: Option<usize>,
    pub generation: usize,
    /// How many frames were submitted.
    pub submissions: usize,
    pub fences: u64,
    /// The fence of the frame that was shown last, until it is waited for.
    pub committed_fence: Option<u64>,
    pub frames: Seq<QueuedIosurfaceSubmission<PresentedIosurfaceFrame>>,
    pub committing: Option<CommittingFrame>,
    /// A frame had no room.
    pub deferred: bool,
    /// The size changed and no frame was submitted since.
    pub resized: bool,
    pub listeners: PresenterListeners,
    pub timing: Option<FrameDisplayTiming>,
}

impl PresenterState {
    /// The frames that have not been shown, oldest first.
    pub open spec fn outstanding(self) -> Seq<PresentedIosurfaceFrame> {
        let waiting = Seq::new(self.frames.len(), |index: int| self.frames[index].frame);
        match self.committing {
            Some(committing) => seq![committing.frame] + waiting,
            None => waiting,
        }
    }

    /// A frame was drawn to a buffer that the presenter still has.
    pub open spec fn is_current(self, frame: PresentedIosurfaceFrame) -> bool {
        frame.generation == self.generation
    }

    /// A frame on its way keeps its buffer from being drawn to.
    pub open spec fn holds_its_buffer(self, frame: PresentedIosurfaceFrame) -> bool {
        &&& frame.buffer_index < self.buffers.len()
        &&& self.buffers[frame.buffer_index as int].pending
        &&& self.current != Some(frame.buffer_index)
        &&& damage::within(frame.submitted_damage, self.drawable_size)
    }

    /// What every presenter keeps.
    pub open spec fn wf(self) -> bool {
        &&& self.buffers.len() == if has_area(self.drawable_size) {
            IOSURFACE_BUFFER_COUNT as nat
        } else {
            0
        }
        &&& forall|index: int|
            0 <= index < self.buffers.len() ==> damage::within(
                (#[trigger] self.buffers[index]).damage,
                self.drawable_size,
            )
        &&& self.current matches Some(current) ==> current < self.buffers.len()
            && !self.buffers[current as int].pending
        &&& self.pending == self.outstanding().len()
        &&& self.pending <= IOSURFACE_MAX_PENDING_SWAPS
        &&& self.timing matches Some(timing) ==> timing.in_range()
        &&& self.committing matches Some(committing) ==> {
            &&& committing.presented == self.is_current(committing.frame)
            &&& committing.frame.display_timing matches Some(timing) ==> timing.in_range()
        }
        &&& self.queue_is_sorted()
        &&& self.frames_hold_their_buffers()
    }

    /// Frames wait in the order of their submission, under the number of it.
    pub open spec fn queue_is_sorted(self) -> bool {
        &&& forall|first: int, second: int|
            0 <= first < second < self.frames.len() ==> (#[trigger] self.frames[first]).order < (
            #[trigger] self.frames[second]).order
        &&& forall|index: int|
            0 <= index < self.frames.len() ==> 1 <= (#[trigger] self.frames[index]).order
                <= self.submissions
    }

    /// Every frame of the current size holds a buffer of its own, and no other
    /// buffer is held.
    pub open spec fn frames_hold_their_buffers(self) -> bool {
        let outstanding = self.outstanding();
        &&& forall|index: int|
            0 <= index < outstanding.len() ==> {
                &&& (#[trigger] outstanding[index]).generation <= self.generation
                &&& self.is_current(outstanding[index]) ==> self.holds_its_buffer(
                    outstanding[index],
                )
            }
        &&& forall|first: int, second: int|
            0 <= first < second < outstanding.len() && self.is_current(#[trigger] outstanding[first])
                && self.is_current(#[trigger] outstanding[second]) ==> outstanding[first].buffer_index
                != outstanding[second].buffer_index
        &&& forall|buffer: int|
            0 <= buffer < self.buffers.len() && (#[trigger] self.buffers[buffer]).pending ==> exists|
                index: int,
            |
                0 <= index < outstanding.len() && self.is_current(#[trigger] outstanding[index])
                    && outstanding[index].buffer_index == buffer
    }

    /// The presenter after its surface got a size.
    pub open spec fn with_size(self, size: Size<DevicePixels>) -> PresenterState {
        if size == self.drawable_size {
            self
        } else {
            PresenterState {
                drawable_size: size,
                resized: self.resized || (has_area(self.drawable_size) && self.uses_ca_context),
                generation: (self.generation + 1) as usize,
                current: None,
                buffers: fresh_buffers(size),
                ..self
            }
        }
    }

    /// The presenter after part of the surface changed: every buffer but the one
    /// on the screen has to draw it.
    pub open spec fn with_damage(self, damage: Bounds<DevicePixels>) -> PresenterState {
        let clamped = damage::clamped_to(damage, self.drawable_size);
        if clamped.spec_is_empty() {
            self
        } else {
            PresenterState {
                buffers: Seq::new(
                    self.buffers.len(),
                    |index: int|
                        if self.current == Some(index as usize) {
                            self.buffers[index]
                        } else {
                            IosurfaceFrameBuffer {
                                damage: accumulated(
                                    self.buffers[index].damage,
                                    clamped,
                                    self.drawable_size,
                                ),
                                ..self.buffers[index]
                            }
                        },
                ),
                ..self
            }
        }
    }

    /// A buffer that is neither on the screen nor on its way there.
    pub open spec fn is_free(self, index: int) -> bool {
        &&& 0 <= index < self.buffers.len()
        &&& self.current != Some(index as usize)
        &&& !self.buffers[index].pending
    }

    /// The first free buffer from an index on.
    pub open spec fn first_free(self, from: int) -> Option<usize>
        decreases self.buffers.len() - from,
    {
        if from >= self.buffers.len() {
            None
        } else if self.is_free(from) {
            Some(from as usize)
        } else {
            self.first_free(from + 1)
        }
    }

    /// The buffer that the next frame is drawn to, if there is room for it.
    pub open spec fn next_buffer(self) -> Option<usize> {
        if self.pending >= IOSURFACE_MAX_PENDING_SWAPS {
            None
        } else {
            self.first_free(0)
        }
    }

    /// The frame that a submission puts on its way.
    pub open spec fn submitted_frame(
        self,
        buffer_index: usize,
        submitted_damage: Bounds<DevicePixels>,
        ready_time: Instant,
        delay_until_next_vsync: bool,
    ) -> PresentedIosurfaceFrame {
        PresentedIosurfaceFrame {
            generation: self.generation,
            buffer_index,
            swap_id: (self.submissions + 1) as u64,
            ready_time,
            submitted_damage,
            fence_value: (self.fences + 1) as u64,
            delay_until_next_vsync,
            listeners: self.listeners,
            display_timing: None,
        }
    }

    /// The presenter after a frame was put on its way.
    pub open spec fn with_submission(self, frame: PresentedIosurfaceFrame) -> PresenterState {
        PresenterState {
            buffers: self.buffers.update(
                frame.buffer_index as int,
                IosurfaceFrameBuffer { pending: true, damage: no_damage() },
            ),
            pending: self.pending + 1,
            resized: false,
            submissions: (self.submissions + 1) as usize,
            fences: (self.fences + 1) as u64,
            frames: self.frames.push(
                QueuedIosurfaceSubmission {
                    order: (self.submissions + 1) as usize,
                    ready: false,
                    frame,
                },
            ),
            ..self
        }
    }

    /// The oldest frame can be handed over.
    pub open spec fn front_is_ready(self) -> bool {
        self.frames.len() > 0 && self.frames[0].ready
    }

    /// The presenter while it hands over the oldest frame, with the timing of the
    /// display frozen on it.
    pub open spec fn with_front_taken(self) -> PresenterState {
        if self.front_is_ready() {
            let frame = self.frames[0].frame;
            PresenterState {
                frames: self.frames.drop_first(),
                committing: Some(
                    CommittingFrame {
                        frame: PresentedIosurfaceFrame { display_timing: self.timing, ..frame },
                        presented: self.is_current(frame),
                    },
                ),
                ..self
            }
        } else {
            self
        }
    }

    /// The buffers once a frame no longer holds its own.
    pub open spec fn buffers_without(self, frame: PresentedIosurfaceFrame) -> Seq<
        IosurfaceFrameBuffer,
    > {
        if self.is_current(frame) {
            let index = frame.buffer_index as int;
            self.buffers.update(
                index,
                IosurfaceFrameBuffer { pending: false, ..self.buffers[index] },
            )
        } else {
            self.buffers
        }
    }

    /// The presenter after the handover of a frame ended.
    pub open spec fn with_commit_finished(self) -> PresenterState {
        match self.committing {
            Some(committing) => PresenterState {
                current: if committing.presented {
                    Some(committing.frame.buffer_index)
                } else {
                    self.current
                },
                committed_fence: if committing.presented {
                    Some(committing.frame.fence_value)
                } else {
                    self.committed_fence
                },
                buffers: self.buffers_without(committing.frame),
                pending: (self.pending - 1) as nat,
                deferred: false,
                committing: None,
                ..self
            },
            None => self,
        }
    }

    /// The presenter after a number of rounds in which the oldest frame, if it is
    /// ready, is taken out and handed over.
    pub open spec fn after_handovers(self, rounds: nat) -> PresenterState
        decreases rounds,
    {
        if rounds == 0 {
            self
        } else {
            self.after_handovers((rounds - 1) as nat).with_front_taken().with_commit_finished()
        }
    }

    /// The presenter after the GPU finished a frame.
    pub open spec fn with_ready(self, place: int, ready_time: Instant) -> PresenterState {
        let queued = self.frames[place];
        PresenterState {
            frames: self.frames.update(
                place,
                QueuedIosurfaceSubmission {
                    order: queued.order,
                    ready: true,
                    frame: PresentedIosurfaceFrame { ready_time, ..queued.frame },
                },
            ),
            ..self
        }
    }

    /// The presenter after the GPU failed a frame: its buffer has to draw again
    /// what the frame would have drawn.
    pub open spec fn with_failure(self, place: int) -> PresenterState {
        let frame = self.frames[place].frame;
        let index = frame.buffer_index as int;
        PresenterState {
            frames: self.frames.remove(place),
            buffers: if self.is_current(frame) {
                self.buffers.update(
                    index,
                    IosurfaceFrameBuffer {
                        pending: false,
                        damage: if frame.submitted_damage.spec_is_empty() {
                            self.buffers[index].damage
                        } else {
                            self.buffers[index].damage.hull(&frame.submitted_damage)
                        },
                    },
                )
            } else {
                self.buffers
            },
            pending: (self.pending - 1) as nat,
            deferred: false,
            ..self
        }
    }

    /// The oldest frame is to be handed over without waiting for a refresh.
    pub open spec fn commits_at_once(self) -> bool {
        &&& self.front_is_ready()
        &&& self.frames.len() <= 1
        &&& !self.frames[0].frame.delay_until_next_vsync
    }
}

proof fn lemma_size_keeps_wf(state: PresenterState, size: Size<DevicePixels>)
    requires
        state.wf(),
        state.committing is None,
        state.generation < usize::MAX,
    ensures
        state.with_size(size).wf(),
{
    if size != state.drawable_size {
        let next = state.with_size(size);
        assert(next.outstanding() =~= state.outstanding());
        assert forall|index: int| 0 <= index < next.outstanding().len() implies (
        #[trigger] next.outstanding()[index]).generation <= next.generation && !next.is_current(
            next.outstanding()[index],
        ) by {
            assert(next.outstanding()[index] == state.outstanding()[index]);
        }
    }
}

/// What does not touch frames, buffers or sizes keeps what a presenter keeps.
proof fn lemma_same_frames_keep_wf(state: PresenterState, next: PresenterState)
    requires
        state.wf(),
        next.drawable_size == state.drawable_size,
        next.buffers == state.buffers,
        next.pending == state.pending,
        next.current == state.current,
        next.generation == state.generation,
        next.submissions == state.submissions,
        next.frames == state.frames,
        next.committing == state.committing,
        next.timing matches Some(timing) ==> timing.in_range(),
    ensures
        next.wf(),
{
    assert(next.outstanding() =~= state.outstanding());
    assert forall|index: int| 0 <= index < next.outstanding().len() implies next.is_current(
        #[trigger] next.outstanding()[index],
    ) == state.is_current(state.outstanding()[index]) by {}
}

proof fn lemma_damage_keeps_wf(state: PresenterState, damage: Bounds<DevicePixels>)
    requires
        state.wf(),
        damage.can_intersect(&Bounds::spec_at_origin(state.drawable_size)),
    ensures
        state.with_damage(damage).wf(),
{
    let next = state.with_damage(damage);
    let clamped = damage::clamped_to(damage, state.drawable_size);
    if !clamped.spec_is_empty() {
        assert(next.outstanding() =~= state.outstanding());
        assert forall|index: int| 0 <= index < next.buffers.len() implies next.buffers[index].pending
            == state.buffers[index].pending && damage::within(
            (#[trigger] next.buffers[index]).damage,
            next.drawable_size,
        ) by {
            assert(damage::within(state.buffers[index].damage, state.drawable_size));
        }
        assert forall|buffer: int|
            0 <= buffer < next.buffers.len() && (
            #[trigger] next.buffers[buffer]).pending implies exists|index: int|
            0 <= index < next.outstanding().len() && next.is_current(
                #[trigger] next.outstanding()[index],
            ) && next.outstanding()[index].buffer_index == buffer by {
            assert(state.buffers[buffer].pending);
            let index = choose|index: int|
                0 <= index < state.outstanding().len() && state.is_current(
                    #[trigger] state.outstanding()[index],
                ) && state.outstanding()[index].buffer_index == buffer;
            assert(next.is_current(next.outstanding()[index]));
        }
    }
}

proof fn lemma_submission_keeps_wf(state: PresenterState, frame: PresentedIosurfaceFrame)
    requires
        state.wf(),
        state.committing is None,
        state.pending < IOSURFACE_MAX_PENDING_SWAPS,
        state.is_free(frame.buffer_index as int),
        state.submissions < usize::MAX,
        frame.generation == state.generation,
        damage::within(frame.submitted_damage, state.drawable_size),
    ensures
        state.with_submission(frame).wf(),
        queue::place_for(state.frames, (state.submissions + 1) as usize) == state.frames.len(),
{
    let next = state.with_submission(frame);
    queue::lemma_place_for_splits(state.frames, (state.submissions + 1) as usize);
    let held = frame.buffer_index as int;
    assert(next.outstanding() =~= state.outstanding().push(frame));
    let old_count = state.outstanding().len() as int;
    assert forall|index: int| 0 <= index < next.outstanding().len() implies {
        &&& (#[trigger] next.outstanding()[index]).generation <= next.generation
        &&& next.is_current(next.outstanding()[index]) ==> next.holds_its_buffer(
            next.outstanding()[index],
        )
    } by {
        if index < old_count {
            assert(next.outstanding()[index] == state.outstanding()[index]);
        }
    }
    assert forall|first: int, second: int|
        0 <= first < second < next.outstanding().len() && next.is_current(
            #[trigger] next.outstanding()[first],
        ) && next.is_current(
            #[trigger] next.outstanding()[second],
        ) implies next.outstanding()[first].buffer_index
        != next.outstanding()[second].buffer_index by {
        assert(next.outstanding()[first] == state.outstanding()[first]);
        if second < old_count {
            assert(next.outstanding()[second] == state.outstanding()[second]);
        }
    }
    assert forall|buffer: int|
        0 <= buffer < next.buffers.len() && (#[trigger] next.buffers[buffer]).pending implies exists|
        index: int,
    |
        0 <= index < next.outstanding().len() && next.is_current(#[trigger] next.outstanding()[index])
            && next.outstanding()[index].buffer_index == buffer by {
        if buffer == held {
            assert(next.is_current(next.outstanding()[old_count]));
        } else {
            assert(state.buffers[buffer].pending);
            let index = choose|index: int|
                0 <= index < state.outstanding().len() && state.is_current(
                    #[trigger] state.outstanding()[index],
                ) && state.outstanding()[index].buffer_index == buffer;
            assert(next.outstanding()[index] == state.outstanding()[index]);
            assert(next.is_current(next.outstanding()[index]));
        }
    }
}

pub(crate) proof fn lemma_taking_keeps_wf(state: PresenterState)
    requires
        state.wf(),
        state.committing is None,
    ensures
        state.with_front_taken().wf(),
{
    if state.front_is_ready() {
        let next = state.with_front_taken();
        assert(next.outstanding().len() == state.outstanding().len());
        assert forall|index: int| 0 <= index < next.outstanding().len() implies {
            &&& (#[trigger] next.outstanding()[index]).generation
                == state.outstanding()[index].generation
            &&& next.outstanding()[index].buffer_index == state.outstanding()[index].buffer_index
            &&& next.outstanding()[index].submitted_damage
                == state.outstanding()[index].submitted_damage
        } by {}
        assert forall|buffer: int|
            0 <= buffer < next.buffers.len() && (
            #[trigger] next.buffers[buffer]).pending implies exists|index: int|
            0 <= index < next.outstanding().len() && next.is_current(
                #[trigger] next.outstanding()[index],
            ) && next.outstanding()[index].buffer_index == buffer by {
            assert(state.buffers[buffer].pending);
            let index = choose|index: int|
                0 <= index < state.outstanding().len() && state.is_current(
                    #[trigger] state.outstanding()[index],
                ) && state.outstanding()[index].buffer_index == buffer;
            assert(next.is_current(next.outstanding()[index]));
        }
        assert forall|first: int, second: int|
            0 <= first < second < next.frames.len() implies (#[trigger] next.frames[first]).order < (
        #[trigger] next.frames[second]).order by {
            assert(next.frames[first] == state.frames[first + 1]);
            assert(next.frames[second] == state.frames[second + 1]);
        }
    }
}

/// Taking a frame out of those that are on their way, and its hold off its
/// buffer, keeps what the others hold.
proof fn lemma_release_keeps_holds(
    state: PresenterState,
    next: PresenterState,
    place: int,
)
    requires
        state.frames_hold_their_buffers(),
        0 <= place < state.outstanding().len(),
        next.outstanding() == state.outstanding().remove(place),
        next.generation == state.generation,
        next.drawable_size == state.drawable_size,
        next.buffers.len() == state.buffers.len(),
        ({
            let frame = state.outstanding()[place];
            if state.is_current(frame) {
                &&& !next.buffers[frame.buffer_index as int].pending
                &&& next.current == state.current || next.current == Some(frame.buffer_index)
                &&& forall|buffer: int|
                    0 <= buffer < next.buffers.len() && buffer != frame.buffer_index
                        ==> #[trigger] next.buffers[buffer] == state.buffers[buffer]
            } else {
                next.buffers == state.buffers && next.current == state.current
            }
        }),
    ensures
        next.frames_hold_their_buffers(),
{
    let frame = state.outstanding()[place];
    let before = state.outstanding();
    let after = next.outstanding();
    assert forall|index: int| 0 <= index < after.len() implies {
        &&& (#[trigger] after[index]).generation <= next.generation
        &&& next.is_current(after[index]) ==> next.holds_its_buffer(after[index])
    } by {
        let old_index = if index < place { index } else { index + 1 };
        assert(after[index] == before[old_index]);
        if next.is_current(after[index]) && state.is_current(frame) {
            if old_index < place {
                assert(before[old_index].buffer_index != before[place].buffer_index);
            } else {
                assert(before[place].buffer_index != before[old_index].buffer_index);
            }
        }
    }
    assert forall|first: int, second: int|
        0 <= first < second < after.len() && next.is_current(#[trigger] after[first])
            && next.is_current(#[trigger] after[second]) implies after[first].buffer_index
        != after[second].buffer_index by {
        let old_first = if first < place { first } else { first + 1 };
        let old_second = if second < place { second } else { second + 1 };
        assert(after[first] == before[old_first]);
        assert(after[second] == before[old_second]);
    }
    assert forall|buffer: int|
        0 <= buffer < next.buffers.len() && (#[trigger] next.buffers[buffer]).pending implies exists|
        index: int,
    |
        0 <= index < after.len() && next.is_current(#[trigger] after[index])
            && after[index].buffer_index == buffer by {
        assert(state.buffers[buffer].pending);
        let index = choose|index: int|
            0 <= index < before.len() && state.is_current(#[trigger] before[index])
                && before[index].buffer_index == buffer;
        let new_index = if index < place { index } else { index - 1 };
        assert(index != place);
        assert(after[new_index] == before[index]);
        assert(next.is_current(after[new_index]));
    }
}

pub(crate) proof fn lemma_finishing_keeps_wf(state: PresenterState)
    requires
        state.wf(),
    ensures
        state.with_commit_finished().wf(),
{
    if let Some(committing) = state.committing {
        let next = state.with_commit_finished();
        assert(state.outstanding()[0] == committing.frame);
        assert(next.outstanding() =~= state.outstanding().remove(0));
        lemma_release_keeps_holds(state, next, 0);
    }
}

proof fn lemma_ready_keeps_wf(state: PresenterState, place: int, ready_time: Instant)
    requires
        state.wf(),
        state.committing is None,
        0 <= place < state.frames.len(),
    ensures
        state.with_ready(place, ready_time).wf(),
{
    let next = state.with_ready(place, ready_time);
    assert forall|index: int| 0 <= index < next.outstanding().len() implies {
        &&& (#[trigger] next.outstanding()[index]).generation
            == state.outstanding()[index].generation
        &&& next.outstanding()[index].buffer_index == state.outstanding()[index].buffer_index
        &&& next.outstanding()[index].submitted_damage
            == state.outstanding()[index].submitted_damage
    } by {}
    assert forall|buffer: int|
        0 <= buffer < next.buffers.len() && (#[trigger] next.buffers[buffer]).pending implies exists|
        index: int,
    |
        0 <= index < next.outstanding().len() && next.is_current(#[trigger] next.outstanding()[index])
            && next.outstanding()[index].buffer_index == buffer by {
        assert(state.buffers[buffer].pending);
        let index = choose|index: int|
            0 <= index < state.outstanding().len() && state.is_current(
                #[trigger] state.outstanding()[index],
            ) && state.outstanding()[index].buffer_index == buffer;
        assert(next.is_current(next.outstanding()[index]));
    }
    assert forall|first: int, second: int|
        0 <= first < second < next.frames.len() implies (#[trigger] next.frames[first]).order < (
    #[trigger] next.frames[second]).order by {
        assert(next.frames[first].order == state.frames[first].order);
        assert(next.frames[second].order == state.frames[second].order);
    }
    assert forall|index: int| 0 <= index < next.frames.len() implies 1 <= (
    #[trigger] next.frames[index]).order <= next.submissions by {
        assert(next.frames[index].order == state.frames[index].order);
    }
}

proof fn lemma_failure_keeps_wf(state: PresenterState, place: int)
    requires
        state.wf(),
        state.committing is None,
        0 <= place < state.frames.len(),
    ensures
        state.with_failure(place).wf(),
{
    let next = state.with_failure(place);
    assert(state.outstanding()[place] == state.frames[place].frame);
    assert(next.outstanding() =~= state.outstanding().remove(place));
    lemma_release_keeps_holds(state, next, place);
    assert forall|first: int, second: int|
        0 <= first < second < next.frames.len() implies (#[trigger] next.frames[first]).order < (
    #[trigger] next.frames[second]).order by {
        assert(next.frames[first] == state.frames[if first < place { first } else { first + 1 }]);
        assert(next.frames[second] == state.frames[if second < place { second } else { second + 1 }]);
    }
    assert forall|index: int| 0 <= index < next.frames.len() implies 1 <= (
    #[trigger] next.frames[index]).order <= next.submissions by {
        assert(next.frames[index] == state.frames[if index < place { index } else { index + 1 }]);
    }
    let frame = state.frames[place].frame;
    if state.is_current(frame) {
        let index = frame.buffer_index as int;
        assert(damage::within(state.buffers[index].damage, state.drawable_size));
        assert(damage::within(next.buffers[index].damage, next.drawable_size));
    }
}

/// What is told about the end of a swap, where somebody listens.
pub open spec fn swap_report(
    frame: PresentedIosurfaceFrame,
    latch_time: Instant,
    result: SwapCompletionResult,
    presented: bool,
) -> Option<SwapCompletionFeedback> {
    if frame.listeners.swap_completion {
        Some(
            SwapCompletionFeedback {
                ready_time: frame.ready_time,
                latch_time,
                result,
                presented,
                swap_id: Some(frame.swap_id),
            },
        )
    } else {
        None
    }
}

/// What is told about a frame whose handover ended.
pub open spec fn tells_of_commit(
    completion: FrameCompletion,
    committing: CommittingFrame,
    latch_time: Instant,
    deferred: bool,
) -> bool {
    let frame = committing.frame;
    &&& completion.swap_completion == swap_report(
        frame,
        latch_time,
        if committing.presented {
            SwapCompletionResult::Ack
        } else {
            SwapCompletionResult::Skipped
        },
        committing.presented,
    )
    &&& if !frame.listeners.presentation_feedback {
        completion.presentation_feedback is None
    } else if committing.presented {
        completion.presentation_feedback matches Some(told) && feedback::is_displayed(
            told,
            Some(frame.swap_id),
            frame.ready_time,
            latch_time,
            frame.display_timing,
        )
    } else {
        completion.presentation_feedback == Some(
            feedback::not_displayed(Some(frame.swap_id), frame.ready_time, latch_time),
        )
    }
    &&& completion.request_frame == (deferred && frame.listeners.deferred_frame)
}

/// What is told about a frame that the GPU failed.
pub open spec fn failure_report(frame: PresentedIosurfaceFrame, latch_time: Instant) -> FrameCompletion {
    FrameCompletion {
        swap_completion: swap_report(frame, latch_time, SwapCompletionResult::Failed, false),
        presentation_feedback: if frame.listeners.presentation_feedback {
            Some(feedback::not_displayed(Some(frame.swap_id), frame.ready_time, latch_time))
        } else {
            None
        },
        request_frame: frame.listeners.deferred_frame,
    }
}

fn report_swap(
    frame: &PresentedIosurfaceFrame,
    latch_time: Instant,
    result: SwapCompletionResult,
    presented: bool,
) -> (report: Option<SwapCompletionFeedback>)
    ensures
        report == swap_report(*frame, latch_time, result, presented),
{
    if frame.listeners.swap_completion {
        Some(
            SwapCompletionFeedback {
                ready_time: frame.ready_time,
                latch_time,
                result,
                presented,
                swap_id: Some(frame.swap_id),
            },
        )
    } else {
        None
    }
}

/// Hands frames from the renderer to the screen.
pub struct CoreAnimationPresenter {
    drawable_size: Size<DevicePixels>,
    uses_ca_context: bool,
    buffers: Vec<IosurfaceFrameBuffer>,
    pending_swap_count: usize,
    current_buffer_index: Option<usize>,
    generation: usize,
    last_submission_order: usize,
    last_backpressure_value: u64,
    committed_backpressure_fence: Option<u64>,
    presented_frames: IosurfaceSubmissionQueue<PresentedIosurfaceFrame>,
    committing: Option<CommittingFrame>,
    deferred_frame_requested: bool,
    has_resized_since_last_swap: bool,
    listeners: PresenterListeners,
    latest_display_timing: Option<FrameDisplayTiming>,
}

impl View for CoreAnimationPresenter {
    type V = PresenterState;

    closed spec fn view(&self) -> PresenterState {
        PresenterState {
            drawable_size: self.drawable_size,
            uses_ca_context: self.uses_ca_context,
            buffers: self.buffers@,
            pending: self.pending_swap_count as nat,
            current: self.current_buffer_index,
            generation: self.generation,
            submissions: self.last_submission_order,
            fences: self.last_backpressure_value,
            committed_fence: self.committed_backpressure_fence,
            frames: self.presented_frames@,
            committing: self.committing,
            deferred: self.deferred_frame_requested,
            resized: self.has_resized_since_last_swap,
            listeners: self.listeners,
            timing: self.latest_display_timing,
        }
    }
}

/// The presenter before its surface has a size.
pub open spec fn without_size(uses_ca_context: bool) -> PresenterState {
    PresenterState {
        drawable_size: Size { width: DevicePixels(0), height: DevicePixels(0) },
        uses_ca_context,
        buffers: Seq::empty(),
        pending: 0,
        current: None,
        generation: 0,
        submissions: 0,
        fences: 0,
        committed_fence: None,
        frames: Seq::empty(),
        committing: None,
        deferred: false,
        resized: false,
        listeners: PresenterListeners {
            deferred_frame: false,
            swap_completion: false,
            presentation_feedback: false,
        },
        timing: None,
    }
}

impl CoreAnimationPresenter {
    /// A presenter for a surface of a size that nobody listens to.
    pub fn new(uses_ca_context: bool, initial_size: Size<DevicePixels>) -> (presenter: Self)
        ensures
            presenter@ == without_size(uses_ca_context).with_size(initial_size),
            presenter@.wf(),
    {
        let mut presenter: CoreAnimationPresenter = CoreAnimationPresenter {
            drawable_size: Size { width: DevicePixels(0), height: DevicePixels(0) },
            uses_ca_context,
            buffers: Vec::new(),
            pending_swap_count: 0,
            current_buffer_index: None,
            generation: 0,
            last_submission_order: 0,
            last_backpressure_value: 0,
            committed_backpressure_fence: None,
            presented_frames: IosurfaceSubmissionQueue::new(),
            committing: None,
            deferred_frame_requested: false,
            has_resized_since_last_swap: false,
            listeners: PresenterListeners {
                deferred_frame: false,
                swap_completion: false,
                presentation_feedback: false,
            },
            latest_display_timing: None,
        };
        assert(presenter@ =~= without_size(uses_ca_context));
        assert(presenter@.outstanding() =~= Seq::empty());
        presenter.update_drawable_size(initial_size);
        presenter
    }

    /// The size of the surface.
    pub fn drawable_size(&self) -> (size: Size<DevicePixels>)
        ensures
            size == self@.drawable_size,
    {
        self.drawable_size
    }

    /// How many frames are on their way to the screen.
    pub fn pending_swap_count(&self) -> (count: usize)
        ensures
            count == self@.pending,
    {
        self.pending_swap_count
    }

    /// Gives the surface a size and tells whether that is a new one: then there
    /// are new buffers, and frames in the old ones are not shown any more.
    pub fn update_drawable_size(&mut self, drawable_size: Size<DevicePixels>) -> (changed: bool)
        requires
            old(self)@.wf(),
            old(self)@.committing is None,
            old(self)@.generation < usize::MAX,
        ensures
            final(self)@ == old(self)@.with_size(drawable_size),
            final(self)@.wf(),
            changed == (old(self)@.drawable_size != drawable_size),
    {
        proof {
            lemma_size_keeps_wf(self@, drawable_size);
        }
        if self.drawable_size == drawable_size {
            return false;
        }
        let had_drawable_size: bool = self.drawable_size.width.0 > 0 && self.drawable_size.height.0
            > 0;
        self.drawable_size = drawable_size;
        if had_drawable_size && self.uses_ca_context {
            self.has_resized_since_last_swap = true;
        }
        self.generation = self.generation + 1;
        self.current_buffer_index = None;
        self.buffers = Vec::new();
        if drawable_size.width.0 > 0 && drawable_size.height.0 > 0 {
            let full: Bounds<DevicePixels> = full_texture_bounds(drawable_size);
            let mut count: usize = 0;
            while count < IOSURFACE_BUFFER_COUNT
                invariant
                    count <= IOSURFACE_BUFFER_COUNT,
                    self.buffers@.len() == count,
                    has_area(drawable_size),
                    full == Bounds::spec_at_origin(drawable_size),
                    forall|index: int|
                        0 <= index < count ==> #[trigger] self.buffers@[index] == (
                        IosurfaceFrameBuffer { pending: false, damage: full }),
                    self@ == (PresenterState {
                        buffers: self.buffers@,
                        ..old(self)@.with_size(drawable_size)
                    }),
                decreases IOSURFACE_BUFFER_COUNT - count,
            {
                self.buffers.push(IosurfaceFrameBuffer { pending: false, damage: full });
                count = count + 1;
            }
        }
        assert(self.buffers@ =~= fresh_buffers(drawable_size));
        true
    }

    /// The layers are to be made anew before the next frame is handed over, once
    /// after the size changed.
    fn prepare_to_present(&mut self) -> (recreate_layers: bool)
        ensures
            recreate_layers == old(self)@.resized,
            final(self)@ == (PresenterState { resized: false, ..old(self)@ }),
    {
        let recreate_layers: bool = self.has_resized_since_last_swap;
        self.has_resized_since_last_swap = false;
        recreate_layers
    }

    /// Part of the surface changed.
    pub fn update_buffer_damage(&mut self, damage: Bounds<DevicePixels>)
        requires
            old(self)@.wf(),
            damage.can_intersect(&Bounds::spec_at_origin(old(self)@.drawable_size)),
        ensures
            final(self)@ == old(self)@.with_damage(damage),
            final(self)@.wf(),
    {
        proof {
            lemma_damage_keeps_wf(self@, damage);
        }
        let clamped: Bounds<DevicePixels> = clamp_damage(damage, self.drawable_size);
        if clamped.is_empty() {
            return;
        }
        let full: Bounds<DevicePixels> = full_texture_bounds(self.drawable_size);
        let ghost before = self@;
        let mut index: usize = 0;
        while index < self.buffers.len()
            invariant
                index <= self.buffers@.len(),
                before == old(self)@,
                before.wf(),
                full == Bounds::spec_at_origin(before.drawable_size),
                damage::within(clamped, before.drawable_size),
                !clamped.spec_is_empty(),
                clamped == damage::clamped_to(damage, before.drawable_size),
                self@ == (PresenterState { buffers: self.buffers@, ..before }),
                self.buffers@.len() == before.buffers.len(),
                forall|done: int|
                    0 <= done < index ==> #[trigger] self.buffers@[done] == before.with_damage(
                        damage,
                    ).buffers[done],
                forall|left: int|
                    index <= left < self.buffers@.len() ==> #[trigger] self.buffers@[left]
                        == before.buffers[left],
            decreases self.buffers@.len() - index,
        {
            let buffer: IosurfaceFrameBuffer = self.buffers[index];
            assert(damage::within(before.buffers[index as int].damage, before.drawable_size));
            let shown: bool = match self.current_buffer_index {
                Some(current) => current == index,
                None => false,
            };
            if !shown {
                let union: Bounds<DevicePixels> = buffer.damage.union(&clamped);
                self.buffers.set(
                    index,
                    IosurfaceFrameBuffer {
                        pending: buffer.pending,
                        damage: union.intersect(&full),
                    },
                );
            }
            index = index + 1;
        }
        assert(self.buffers@ =~= before.with_damage(damage).buffers);
    }

    /// What has to be drawn to a buffer: all of it where there is no such buffer.
    pub fn buffer_damage(&self, buffer_index: usize) -> (damage: Bounds<DevicePixels>)
        requires
            self@.wf(),
        ensures
            damage == if buffer_index < self@.buffers.len() {
                self@.buffers[buffer_index as int].damage
            } else {
                Bounds::spec_at_origin(self@.drawable_size)
            },
    {
        if buffer_index < self.buffers.len() {
            assert(damage::within(self@.buffers[buffer_index as int].damage, self@.drawable_size));
            clamp_damage(self.buffers[buffer_index].damage, self.drawable_size)
        } else {
            full_texture_bounds(self.drawable_size)
        }
    }

    /// The buffer that the next frame is drawn to. Where there is no room, the
    /// frame is drawn once there is.
    pub fn next_buffer_index(&mut self) -> (buffer_index: Option<usize>)
        requires
            old(self)@.wf(),
        ensures
            buffer_index == old(self)@.next_buffer(),
            final(self)@ == (PresenterState {
                deferred: old(self)@.deferred || buffer_index is None,
                ..old(self)@
            }),
            final(self)@.wf(),
            buffer_index matches Some(index) ==> final(self)@.is_free(index as int),
    {
        if self.pending_swap_count >= IOSURFACE_MAX_PENDING_SWAPS {
            self.deferred_frame_requested = true;
            proof {
                lemma_same_frames_keep_wf(old(self)@, self@);
            }
            return None;
        }
        let mut index: usize = 0;
        while index < self.buffers.len()
            invariant
                index <= self.buffers@.len(),
                *self == *old(self),
                self@.wf(),
                self@.pending < IOSURFACE_MAX_PENDING_SWAPS,
                self@.first_free(0) == self@.first_free(index as int),
            decreases self.buffers@.len() - index,
        {
            let shown: bool = match self.current_buffer_index {
                Some(current) => current == index,
                None => false,
            };
            if !shown && !self.buffers[index].pending {
                return Some(index);
            }
            index = index + 1;
        }
        self.deferred_frame_requested = true;
        proof {
            lemma_same_frames_keep_wf(old(self)@, self@);
        }
        None
    }

    /// Puts a frame on its way that was drawn to a free buffer.
    pub fn submit_frame(
        &mut self,
        buffer_index: usize,
        submitted_damage: Bounds<DevicePixels>,
        ready_time: Instant,
        delay_until_next_vsync: bool,
    ) -> (submission: Submission)
        requires
            old(self)@.wf(),
            old(self)@.committing is None,
            old(self)@.pending < IOSURFACE_MAX_PENDING_SWAPS,
            old(self)@.is_free(buffer_index as int),
            damage::within(submitted_damage, old(self)@.drawable_size),
            old(self)@.submissions < usize::MAX,
            old(self)@.fences < u64::MAX,
        ensures
            final(self)@ == old(self)@.with_submission(
                old(self)@.submitted_frame(
                    buffer_index,
                    submitted_damage,
                    ready_time,
                    delay_until_next_vsync,
                ),
            ),
            final(self)@.wf(),
            submission == (Submission {
                order: (old(self)@.submissions + 1) as usize,
                fence_value: (old(self)@.fences + 1) as u64,
                recreate_layers: old(self)@.resized,
            }),
    {
        let ghost before = self@;
        let ghost submitted = before.submitted_frame(
            buffer_index,
            submitted_damage,
            ready_time,
            delay_until_next_vsync,
        );
        proof {
            lemma_submission_keeps_wf(before, submitted);
        }
        let nothing: Bounds<DevicePixels> = Bounds {
            origin: Point { x: DevicePixels(0), y: DevicePixels(0) },
            size: Size { width: DevicePixels(0), height: DevicePixels(0) },
        };
        self.buffers.set(buffer_index, IosurfaceFrameBuffer { pending: true, damage: nothing });
        self.pending_swap_count = self.pending_swap_count + 1;
        let recreate_layers: bool = self.prepare_to_present();
        self.last_submission_order = self.last_submission_order + 1;
        self.last_backpressure_value = self.last_backpressure_value + 1;
        let order: usize = self.last_submission_order;
        let fence_value: u64 = self.last_backpressure_value;
        let frame: PresentedIosurfaceFrame = PresentedIosurfaceFrame {
            generation: self.generation,
            buffer_index,
            swap_id: order as u64,
            ready_time,
            submitted_damage,
            fence_value,
            delay_until_next_vsync,
            listeners: self.listeners,
            display_timing: None,
        };
        self.presented_frames.push(order, frame);
        assert(self.presented_frames@ =~= before.with_submission(submitted).frames);
        assert(self@ =~= before.with_submission(submitted));
        Submission { order, fence_value, recreate_layers }
    }

    /// The fence of the frame that was shown last, which is to be waited for
    /// before anything is drawn, once.
    pub fn take_committed_backpressure(&mut self) -> (fence_value: Option<u64>)
        requires
            old(self)@.wf(),
        ensures
            fence_value == old(self)@.committed_fence,
            final(self)@ == (PresenterState { committed_fence: None, ..old(self)@ }),
            final(self)@.wf(),
    {
        let fence_value: Option<u64> = self.committed_backpressure_fence;
        self.committed_backpressure_fence = None;
        proof {
            lemma_same_frames_keep_wf(old(self)@, self@);
        }
        fence_value
    }

    /// Who listens.
    pub fn listeners(&self) -> (listeners: PresenterListeners)
        ensures
            listeners == self@.listeners,
    {
        self.listeners
    }

    /// Changes who listens, for frames that are submitted from now on.
    pub fn set_listeners(&mut self, listeners: PresenterListeners)
        requires
            old(self)@.wf(),
        ensures
            final(self)@ == (PresenterState { listeners, ..old(self)@ }),
            final(self)@.wf(),
    {
        self.listeners = listeners;
        proof {
            lemma_same_frames_keep_wf(old(self)@, self@);
        }
    }

    /// Takes the oldest frame to hand it over, if the GPU is done with it.
    pub fn take_ready_frame(&mut self) -> (taken: Option<CommittingFrame>)
        requires
            old(self)@.wf(),
            old(self)@.committing is None,
        ensures
            final(self)@ == old(self)@.with_front_taken(),
            final(self)@.wf(),
            taken == final(self)@.committing,
    {
        proof {
            lemma_taking_keeps_wf(self@);
        }
        match self.presented_frames.pop_ready_front() {
            None => None,
            Some(frame) => {
                let mut frozen: PresentedIosurfaceFrame = frame;
                frozen.display_timing = self.latest_display_timing;
                self.committing = Some(
                    CommittingFrame {
                        frame: frozen,
                        presented: frame.generation == self.generation,
                    },
                );
                self.committing
            },
        }
    }

    /// The display refreshes at new times: the oldest frame that is ready is to be
    /// handed over now.
    pub fn set_display_timing(
        &mut self,
        next_display_time: Instant,
        frame_interval: Option<Duration>,
    ) -> (taken: Option<CommittingFrame>)
        requires
            old(self)@.wf(),
            old(self)@.committing is None,
            (FrameDisplayTiming { next_display_time, frame_interval }).in_range(),
        ensures
            final(self)@ == (PresenterState {
                timing: Some(FrameDisplayTiming { next_display_time, frame_interval }),
                ..old(self)@
            }).with_front_taken(),
            final(self)@.wf(),
            taken == final(self)@.committing,
    {
        self.latest_display_timing = Some(FrameDisplayTiming { next_display_time, frame_interval });
        proof {
            lemma_same_frames_keep_wf(old(self)@, self@);
        }
        self.take_ready_frame()
    }

    /// How many frames can be handed over one after the other.
    pub fn ready_frame_count(&self) -> (count: usize)
        ensures
            count == queue::ready_run(self@.frames),
    {
        self.presented_frames.ready_front_count()
    }

    /// Ends the handover of a frame and says what is told about it.
    pub fn complete_iosurface_frame(&mut self, latch_time: Instant) -> (completion: Option<
        FrameCompletion,
    >)
        requires
            old(self)@.wf(),
        ensures
            final(self)@ == old(self)@.with_commit_finished(),
            final(self)@.wf(),
            match old(self)@.committing {
                Some(committing) => completion matches Some(completion) && tells_of_commit(
                    completion,
                    committing,
                    latch_time,
                    old(self)@.deferred,
                ),
                None => completion is None,
            },
    {
        proof {
            lemma_finishing_keeps_wf(self@);
        }
        let ghost before = self@;
        let committing: CommittingFrame = match self.committing {
            Some(committing) => committing,
            None => {
                return None;
            },
        };
        let frame: PresentedIosurfaceFrame = committing.frame;
        let presented: bool = committing.presented;
        assert(before.outstanding()[0] == frame);
        let swap_completion: Option<SwapCompletionFeedback> = report_swap(
            &frame,
            latch_time,
            swap_completion_result_for_iosurface_frame(presented),
            presented,
        );
        let presentation_feedback: Option<PresentationFeedback> = if frame.listeners.presentation_feedback {
            if presented {
                Some(
                    presentation_feedback_for_iosurface_frame(
                        Some(frame.swap_id),
                        frame.ready_time,
                        latch_time,
                        frame.display_timing,
                    ),
                )
            } else {
                Some(
                    presentation_feedback_for_dropped_frame(
                        Some(frame.swap_id),
                        frame.ready_time,
                        latch_time,
                    ),
                )
            }
        } else {
            None
        };
        if presented {
            self.current_buffer_index = Some(frame.buffer_index);
            self.committed_backpressure_fence = Some(frame.fence_value);
            let mut buffer: IosurfaceFrameBuffer = self.buffers[frame.buffer_index];
            buffer.pending = false;
            self.buffers.set(frame.buffer_index, buffer);
        }
        decrement_pending_swap_count(&mut self.pending_swap_count);
        let request_frame: bool = self.deferred_frame_requested && frame.listeners.deferred_frame;
        self.deferred_frame_requested = false;
        self.committing = None;
        assert(self@ =~= before.with_commit_finished());
        Some(FrameCompletion { swap_completion, presentation_feedback, request_frame })
    }

    /// Ends a frame that the GPU failed.
    fn fail_iosurface_frame(&mut self, frame: PresentedIosurfaceFrame, latch_time: Instant) -> (completion:
        FrameCompletion)
        requires
            old(self)@.pending > 0,
            old(self)@.is_current(frame) ==> {
                &&& frame.buffer_index < old(self)@.buffers.len()
                &&& damage::within(frame.submitted_damage, old(self)@.drawable_size)
                &&& damage::within(
                    old(self)@.buffers[frame.buffer_index as int].damage,
                    old(self)@.drawable_size,
                )
            },
        ensures
            completion == failure_report(frame, latch_time),
            final(self)@ == (PresenterState {
                buffers: if old(self)@.is_current(frame) {
                    old(self)@.buffers.update(
                        frame.buffer_index as int,
                        (IosurfaceFrameBuffer {
                            pending: false,
                            damage: if frame.submitted_damage.spec_is_empty() {
                                old(self)@.buffers[frame.buffer_index as int].damage
                            } else {
                                old(self)@.buffers[frame.buffer_index as int].damage.hull(
                                    &frame.submitted_damage,
                                )
                            },
                        }),
                    )
                } else {
                    old(self)@.buffers
                },
                pending: (old(self)@.pending - 1) as nat,
                deferred: false,
                ..old(self)@
            }),
    {
        if frame.generation == self.generation {
            let mut buffer: IosurfaceFrameBuffer = self.buffers[frame.buffer_index];
            restore_failed_buffer_damage(&mut buffer.damage, frame.submitted_damage);
            buffer.pending = false;
            self.buffers.set(frame.buffer_index, buffer);
        }
        decrement_pending_swap_count(&mut self.pending_swap_count);
        self.deferred_frame_requested = false;
        FrameCompletion {
            swap_completion: report_swap(&frame, latch_time, SwapCompletionResult::Failed, false),
            presentation_feedback: if frame.listeners.presentation_feedback {
                Some(
                    presentation_feedback_for_dropped_frame(
                        Some(frame.swap_id),
                        frame.ready_time,
                        latch_time,
                    ),
                )
            } else {
                None
            },
            request_frame: frame.listeners.deferred_frame,
        }
    }

    /// The GPU is done with a submission, successfully or not, at a moment.
    pub fn complete_submission(&mut self, order: usize, succeeded: bool, now: Instant) -> (completion:
        GpuCompletion)
        requires
            old(self)@.wf(),
            old(self)@.committing is None,
        ensures
            final(self)@.wf(),
            match queue::place_of(old(self)@.frames, order) {
                None => {
                    &&& final(self)@ == old(self)@
                    &&& !completion.found
                    &&& completion.failure is None
                },
                Some(place) => {
                    &&& completion.found
                    &&& if succeeded {
                        &&& final(self)@ == old(self)@.with_ready(place, now)
                        &&& completion.failure is None
                    } else {
                        &&& final(self)@ == old(self)@.with_failure(place)
                        &&& completion.failure == Some(
                            failure_report(old(self)@.frames[place].frame, now),
                        )
                    }
                },
            },
            completion.commit == final(self)@.commits_at_once(),
    {
        let ghost before = self@;
        let ghost place = queue::place_of(before.frames, order);
        proof {
            queue::lemma_place_of_finds(before.frames, order);
            if let Some(place) = place {
                lemma_ready_keeps_wf(before, place, now);
                lemma_failure_keeps_wf(before, place);
            }
        }
        let mut failure: Option<FrameCompletion> = None;
        let found: bool = if succeeded {
            let set_ready_time = |frame: &mut PresentedIosurfaceFrame|
                ensures
                    *final(frame) == (PresentedIosurfaceFrame { ready_time: now, ..*old(frame) }),
                {
                    frame.ready_time = now;
                };
            self.presented_frames.mark_ready_with(order, set_ready_time)
        } else {
            match self.presented_frames.remove(order) {
                Some(frame) => {
                    proof {
                        let held = place->0;
                        assert(before.outstanding()[held] == frame);
                        if before.is_current(frame) {
                            assert(damage::within(
                                before.buffers[frame.buffer_index as int].damage,
                                before.drawable_size,
                            ));
                        }
                    }
                    failure = Some(self.fail_iosurface_frame(frame, now));
                    true
                },
                None => false,
            }
        };
        let commit: bool = match self.presented_frames.ready_front() {
            Some(frame) => should_commit_ready_iosurface_frame_immediately(
                self.presented_frames.len(),
                frame.delay_until_next_vsync,
            ),
            None => false,
        };
        GpuCompletion { found, failure, commit }
    }
}

/// While fewer frames are on their way than are allowed, a buffer is free: it is
/// neither on the screen nor on its way there.
pub proof fn law_room_means_a_free_buffer(state: PresenterState)
    requires
        state.wf(),
        has_area(state.drawable_size),
        state.pending < IOSURFACE_MAX_PENDING_SWAPS,
    ensures
        state.next_buffer() matches Some(index) && state.is_free(index as int),
{
    let outstanding = state.outstanding();
    if outstanding.len() == 1 {
        assert forall|buffer: int| 0 <= buffer < 3 && state.buffers[buffer].pending implies buffer
            == outstanding[0].buffer_index by {
            let index = choose|index: int|
                0 <= index < outstanding.len() && state.is_current(#[trigger] outstanding[index])
                    && outstanding[index].buffer_index == buffer;
        }
    } else {
        assert forall|buffer: int| 0 <= buffer < 3 implies !state.buffers[buffer].pending by {
            if state.buffers[buffer].pending {
                let index = choose|index: int|
                    0 <= index < outstanding.len() && state.is_current(#[trigger] outstanding[index])
                        && outstanding[index].buffer_index == buffer;
            }
        }
    }
    assert(state.is_free(0) || state.is_free(1) || state.is_free(2));
    reveal_with_fuel(PresenterState::first_free, 4);
}

/// A buffer that is drawn to is neither on the screen nor on its way there.
pub proof fn law_visible_buffers_are_not_drawn_to(state: PresenterState, from: int)
    requires
        state.wf(),
        0 <= from,
    ensures
        state.first_free(from) matches Some(index) ==> state.is_free(index as int) && state.current
            != Some(index) && forall|place: int|
            0 <= place < state.outstanding().len() && state.is_current(
                #[trigger] state.outstanding()[place],
            ) ==> state.outstanding()[place].buffer_index != index,
    decreases state.buffers.len() - from,
{
    if from < state.buffers.len() && !state.is_free(from) {
        law_visible_buffers_are_not_drawn_to(state, from + 1);
    }
}

/// A frame that is submitted is newer than every frame on its way.
pub proof fn law_swap_ids_grow(state: PresenterState, frame: PresentedIosurfaceFrame)
    requires
        state.wf(),
        state.submissions < usize::MAX,
    ensures
        forall|index: int|
            0 <= index < state.frames.len() ==> (#[trigger] state.frames[index]).order
                < state.with_submission(frame).frames.last().order,
{
}

/// Frames are shown in the order of their submission: the frame that is handed
/// over is older than every frame that waits.
pub proof fn law_frames_are_shown_in_order(state: PresenterState)
    requires
        state.wf(),
        state.front_is_ready(),
    ensures
        forall|index: int|
            0 <= index < state.with_front_taken().frames.len() ==> state.frames[0].order < (
            #[trigger] state.with_front_taken().frames[index]).order,
{
    assert forall|index: int| 0 <= index < state.with_front_taken().frames.len() implies state.frames[0].order
        < (#[trigger] state.with_front_taken().frames[index]).order by {
        assert(state.with_front_taken().frames[index] == state.frames[index + 1]);
    }
}

proof fn lemma_handovers(state: PresenterState, rounds: nat)
    requires
        state.wf(),
        state.committing is None,
        rounds <= queue::ready_run(state.frames),
    ensures
        ({
            let next = state.after_handovers(rounds);
            &&& next.wf()
            &&& next.committing is None
            &&& next.frames == state.frames.skip(rounds as int)
            &&& next.timing == state.timing
            &&& next.generation == state.generation
            &&& next.pending + rounds == state.pending
        }),
    decreases rounds,
{
    queue::lemma_run_is_ready(state.frames);
    if rounds > 0 {
        let before = state.after_handovers((rounds - 1) as nat);
        lemma_handovers(state, (rounds - 1) as nat);
        assert(before.frames[0] == state.frames[rounds - 1]);
        lemma_taking_keeps_wf(before);
        lemma_finishing_keeps_wf(before.with_front_taken());
        assert(before.frames.drop_first() =~= state.frames.skip(rounds as int));
    } else {
        assert(state.frames.skip(0) =~= state.frames);
    }
}

/// As many rounds as frames at the front are ready in a row hand over exactly those
/// frames, in the order of the queue and each with the timing of the display that
/// was known before, and leave the frames behind them. The oldest of those, if there
/// is one, is not ready.
pub proof fn law_flushing_hands_over_all_that_are_ready(state: PresenterState)
    requires
        state.wf(),
        state.committing is None,
    ensures
        ({
            let count = queue::ready_run(state.frames);
            let flushed = state.after_handovers(count);
            &&& count <= state.frames.len()
            &&& forall|round: nat|
                round < count ==> (#[trigger] state.after_handovers(
                    round,
                )).with_front_taken().committing == Some(
                    CommittingFrame {
                        frame: PresentedIosurfaceFrame {
                            display_timing: state.timing,
                            ..state.frames[round as int].frame
                        },
                        presented: state.is_current(state.frames[round as int].frame),
                    },
                )
            &&& flushed.frames == state.frames.skip(count as int)
            &&& !flushed.front_is_ready()
            &&& flushed.committing is None
            &&& flushed.pending == state.pending - count
            &&& flushed.wf()
        }),
{
    let count = queue::ready_run(state.frames);
    queue::lemma_run_is_ready(state.frames);
    lemma_handovers(state, count);
    assert forall|round: nat| round < count implies (#[trigger] state.after_handovers(
        round,
    )).with_front_taken().committing == Some(
        CommittingFrame {
            frame: PresentedIosurfaceFrame {
                display_timing: state.timing,
                ..state.frames[round as int].frame
            },
            presented: state.is_current(state.frames[round as int].frame),
        },
    ) by {
        lemma_handovers(state, round);
        assert(state.after_handovers(round).frames[0] == state.frames[round as int]);
        assert(state.frames[round as int].ready);
    }
}

/// After the size of the surface changed, no frame that was on its way is shown:
/// its handover makes room, and nothing else changes on the screen.
pub proof fn law_frames_of_an_old_size_are_not_shown(state: PresenterState, size: Size<DevicePixels>)
    requires
        state.wf(),
        state.committing is None,
        state.generation < usize::MAX,
        size != state.drawable_size,
        state.front_is_ready(),
    ensures
        ({
            let resized = state.with_size(size);
            let taken = resized.with_front_taken();
            let finished = taken.with_commit_finished();
            &&& taken.committing matches Some(committing) && !committing.presented
            &&& finished.current == resized.current
            &&& finished.buffers == resized.buffers
            &&& finished.committed_fence == resized.committed_fence
            &&& finished.pending == resized.pending - 1
        }),
{
    assert(state.outstanding()[0] == state.frames[0].frame);
}

/// A size that the surface has already changes nothing.
pub proof fn law_same_size_changes_nothing(state: PresenterState)
    ensures
        state.with_size(state.drawable_size) == state,
{
}

/// A pixel that changed is drawn again to every buffer but the one on the screen,
/// and what a buffer had to draw it still has to.
pub proof fn law_damage_reaches_every_other_buffer(
    state: PresenterState,
    damage: Bounds<DevicePixels>,
    buffer: int,
    x: int,
    y: int,
)
    requires
        state.wf(),
        damage.can_intersect(&Bounds::spec_at_origin(state.drawable_size)),
        0 <= buffer < state.buffers.len(),
        state.current != Some(buffer as usize),
        (damage.covers(x, y) && Bounds::spec_at_origin(state.drawable_size).covers(x, y))
            || state.buffers[buffer].damage.covers(x, y),
    ensures
        state.with_damage(damage).buffers[buffer].damage.covers(x, y),
{
    let clamped = damage::clamped_to(damage, state.drawable_size);
    assert(damage::within(state.buffers[buffer].damage, state.drawable_size));
    if clamped.spec_is_empty() {
    } else {
        assert(damage::within(clamped, state.drawable_size));
        let union = state.buffers[buffer].damage.hull(&clamped);
        assert(union.covers(x, y));
    }
}

/// What a failed frame would have drawn is drawn again: every pixel of it, and
/// every pixel that its buffer had to draw anyway.
pub proof fn law_failed_damage_is_restored(state: PresenterState, place: int, x: int, y: int)
    requires
        state.wf(),
        state.committing is None,
        0 <= place < state.frames.len(),
        state.is_current(state.frames[place].frame),
        state.frames[place].frame.submitted_damage.covers(x, y)
            || state.buffers[state.frames[place].frame.buffer_index as int].damage.covers(x, y),
    ensures
        state.with_failure(place).buffers[state.frames[place].frame.buffer_index as int].damage.covers(
            x,
            y,
        ),
        !state.with_failure(place).buffers[state.frames[place].frame.buffer_index as int].pending,
{
    let frame = state.frames[place].frame;
    assert(state.outstanding()[place] == frame);
    assert(damage::within(state.buffers[frame.buffer_index as int].damage, state.drawable_size));
}

/// A frame that fails does not hold up the others: the next one becomes the
/// oldest.
pub proof fn law_failure_unblocks_the_queue(state: PresenterState)
    requires
        state.wf(),
        state.committing is None,
        state.frames.len() == 2,
        state.frames[1].ready,
    ensures
        state.with_failure(0).front_is_ready(),
        state.with_failure(0).frames[0] == state.frames[1],
{
}

/// A frame that is submitted alone, finished by the GPU and handed over is the
/// one on the screen, its fence is the one to be waited for, and the presenter is
/// as empty as before.
pub proof fn law_frame_reaches_the_screen(
    state: PresenterState,
    buffer_index: usize,
    submitted_damage: Bounds<DevicePixels>,
    submitted_at: Instant,
    delay_until_next_vsync: bool,
    ready_at: Instant,
)
    requires
        state.wf(),
        state.pending == 0,
        state.is_free(buffer_index as int),
        state.submissions < usize::MAX,
        state.fences < u64::MAX,
        damage::within(submitted_damage, state.drawable_size),
    ensures
        ({
            let frame = state.submitted_frame(
                buffer_index,
                submitted_damage,
                submitted_at,
                delay_until_next_vsync,
            );
            let shown = state.with_submission(frame).with_ready(
                0,
                ready_at,
            ).with_front_taken().with_commit_finished();
            &&& shown.current == Some(buffer_index)
            &&& shown.committed_fence == Some((state.fences + 1) as u64)
            &&& shown.pending == 0
            &&& shown.frames.len() == 0
            &&& shown.buffers[buffer_index as int].damage == no_damage()
        }),
{
    assert(state.outstanding().len() == 0);
}

} // verus!
