//! The begin-frame protocol: a source announces frames to observers, which see
//! them strictly in order.

use crate::frames::deadlines::PossibleDeadlines;
use crate::time::{Duration, Instant};
use vstd::prelude::*;

verus! {

/// A frame by its source and its number there.
#[derive(Clone, Copy, Debug, PartialEq, Eq, Hash, Structural)]
pub struct BeginFrameId {
    pub source_id: u64,
    pub sequence_number: u64,
}

/// The announcement of a frame.
#[derive(Clone, Debug, PartialEq, Eq)]
pub struct BeginFrameArgs {
    pub id: BeginFrameId,
    pub frame_time: Instant,
    pub deadline: Instant,
    pub interval: Duration,
    /// The frame is announced after its time.
    pub missed: bool,
    pub possible_deadlines: Option<PossibleDeadlines>,
}

/// Tells the source that a frame is over.
#[derive(Clone, Copy, Debug, PartialEq, Eq, Structural)]
pub struct BeginFrameAck {
    pub frame_id: BeginFrameId,
    pub frame_time: Instant,
    /// Whether the frame led to something new on screen.
    pub has_damage: bool,
}

/// A request to produce a frame.
#[derive(Clone, Debug, PartialEq, Eq)]
pub struct RequestFrameOptions {
    /// The announcement that the request answers, where there is one.
    pub begin_frame: Option<BeginFrameArgs>,
    /// Whether the request comes straight from the begin-frame source.
    pub source_begin_frame: bool,
    /// Whether a presentation is required.
    pub require_presentation: bool,
    /// Whether all rendering state is to be refreshed.
    pub force_render: bool,
    /// When the frame will be shown, where that is known.
    pub predicted_display_time: Option<Instant>,
    /// The time between frames, where that is known.
    pub frame_interval: Option<Duration>,
    /// When the frame has to be ready, where that is known.
    pub frame_deadline: Option<Instant>,
}

impl Default for RequestFrameOptions {
    fn default() -> (options: Self)
        ensures
            options == (RequestFrameOptions {
                begin_frame: None,
                source_begin_frame: false,
                require_presentation: false,
                force_render: false,
                predicted_display_time: None,
                frame_interval: None,
                frame_deadline: None,
            }),
    {
        RequestFrameOptions {
            begin_frame: None,
            source_begin_frame: false,
            require_presentation: false,
            force_render: false,
            predicted_display_time: None,
            frame_interval: None,
            frame_deadline: None,
        }
    }
}

/// Who observes a begin-frame source. The input observer hears of a frame
/// before the scheduler does.
#[derive(Clone, Copy, Debug, PartialEq, Eq, Structural)]
pub enum BeginFrameObserverKind {
    Scheduler,
    Input,
}

/// What observers of a begin-frame source are asked for.
pub trait BeginFrameObserver {
    /// Receives a frame and tells whether it was used.
    fn on_begin_frame(&mut self, args: BeginFrameArgs) -> bool;

    /// The last frame that was used.
    fn last_used_begin_frame(&self) -> Option<BeginFrameArgs>;

    /// The source pauses or goes on, which most observers do not mind.
    fn on_begin_frame_source_paused_changed(&mut self, _paused: bool) {
    }

    /// Whether only animations ask for frames, which is rare.
    fn wants_animate_only_begin_frames(&self) -> (wanted: bool)
        default_ensures
            !wanted,
    {
        false
    }
}

/// What a begin-frame source offers to its observers.
pub trait BeginFrameSource {
    type ObserverId;

    fn add_observer(&mut self, observer_id: Self::ObserverId);

    fn remove_observer(&mut self, observer_id: Self::ObserverId);

    fn did_finish_frame(&mut self, observer_id: Self::ObserverId, ack: Option<BeginFrameAck>);
}

/// A frame lies after another one: it is later, and within one source also
/// numbered higher.
pub open spec fn is_newer(
    id: BeginFrameId,
    frame_time: Instant,
    other_id: BeginFrameId,
    other_time: Instant,
) -> bool {
    frame_time@ > other_time@ && (id.source_id == other_id.source_id ==> id.sequence_number
        > other_id.sequence_number)
}

/// The frame may follow the last one that was used: it is newer, or it is a
/// permitted second announcement of that frame.
pub open spec fn follows_last_used(
    begin_frame: BeginFrameArgs,
    last_used: Option<BeginFrameArgs>,
    allow_missed_retry: bool,
) -> bool {
    match last_used {
        None => true,
        Some(last) => (allow_missed_retry && begin_frame.missed && begin_frame.id == last.id)
            || is_newer(begin_frame.id, begin_frame.frame_time, last.id, last.frame_time),
    }
}

fn newer(
    id: BeginFrameId,
    frame_time: Instant,
    other_id: BeginFrameId,
    other_time: Instant,
) -> (result: bool)
    ensures
        result == is_newer(id, frame_time, other_id, other_time),
{
    frame_time.is_after(&other_time) && (id.source_id != other_id.source_id || id.sequence_number
        > other_id.sequence_number)
}

/// Whether a frame may follow the last one that an observer used.
pub fn begin_frame_follows_last_used(
    begin_frame: &BeginFrameArgs,
    last_used_begin_frame: Option<&BeginFrameArgs>,
    allow_missed_retry_for_current_frame: bool,
) -> (follows: bool)
    ensures
        follows == follows_last_used(
            *begin_frame,
            match last_used_begin_frame {
                Some(last) => Some(*last),
                None => None,
            },
            allow_missed_retry_for_current_frame,
        ),
{
    match last_used_begin_frame {
        None => true,
        Some(last) => {
            if allow_missed_retry_for_current_frame && begin_frame.missed && begin_frame.id
                == last.id {
                return true;
            }
            newer(begin_frame.id, begin_frame.frame_time, last.id, last.frame_time)
        },
    }
}

/// The frame may follow the last one that was finished.
pub open spec fn follows_ack(begin_frame: BeginFrameArgs, last_ack: Option<BeginFrameAck>) -> bool {
    match last_ack {
        None => true,
        Some(ack) => is_newer(begin_frame.id, begin_frame.frame_time, ack.frame_id, ack.frame_time),
    }
}

/// Whether a frame may follow the last one that an observer finished.
pub fn begin_frame_follows_ack(begin_frame: &BeginFrameArgs, last_ack: Option<BeginFrameAck>) -> (follows:
    bool)
    ensures
        follows == follows_ack(*begin_frame, last_ack),
{
    match last_ack {
        None => true,
        Some(ack) => newer(begin_frame.id, begin_frame.frame_time, ack.frame_id, ack.frame_time),
    }
}

/// What an observer has used and dropped.
#[derive(Clone, Debug, PartialEq, Eq)]
pub struct BeginFrameObserverState {
    last_used_begin_frame: Option<BeginFrameArgs>,
    dropped_begin_frame_args: u64,
}

impl BeginFrameObserverState {
    /// The last frame that was used.
    pub closed spec fn last_used(&self) -> Option<BeginFrameArgs> {
        self.last_used_begin_frame
    }

    /// How many frames were dropped, as far as that can be counted.
    pub closed spec fn dropped(&self) -> u64 {
        self.dropped_begin_frame_args
    }

    /// An observer that has seen no frame.
    pub fn new() -> (state: Self)
        ensures
            state.last_used() is None,
            state.dropped() == 0,
    {
        BeginFrameObserverState { last_used_begin_frame: None, dropped_begin_frame_args: 0 }
    }

    /// Whether a frame may be handed to the observer.
    pub fn should_issue_begin_frame(
        &self,
        begin_frame: &BeginFrameArgs,
        allow_missed_retry_for_current_frame: bool,
    ) -> (issue: bool)
        ensures
            issue == follows_last_used(
                *begin_frame,
                self.last_used(),
                allow_missed_retry_for_current_frame,
            ),
    {
        begin_frame_follows_last_used(
            begin_frame,
            self.last_used_begin_frame.as_ref(),
            allow_missed_retry_for_current_frame,
        )
    }

    /// Records whether the observer used a frame or dropped it.
    pub fn record_begin_frame_result(&mut self, begin_frame: BeginFrameArgs, used: bool)
        ensures
            used ==> final(self).last_used() == Some(begin_frame) && final(self).dropped() == old(
                self,
            ).dropped(),
            !used ==> final(self).last_used() == old(self).last_used() && final(self).dropped() == if old(
                self,
            ).dropped() < u64::MAX {
                old(self).dropped() + 1
            } else {
                u64::MAX as int
            },
    {
        if used {
            self.last_used_begin_frame = Some(begin_frame);
        } else {
            self.dropped_begin_frame_args = self.dropped_begin_frame_args.saturating_add(1);
        }
    }

    /// The last frame that was used.
    pub fn last_used_begin_frame(&self) -> (last: Option<&BeginFrameArgs>)
        ensures
            match last {
                Some(last) => self.last_used() == Some(*last),
                None => self.last_used() is None,
            },
    {
        self.last_used_begin_frame.as_ref()
    }

    /// How many frames were dropped.
    pub fn dropped_begin_frame_args(&self) -> (dropped: u64)
        ensures
            dropped == self.dropped(),
    {
        self.dropped_begin_frame_args
    }
}

impl Default for BeginFrameObserverState {
    fn default() -> (state: Self)
        ensures
            state.last_used() is None,
            state.dropped() == 0,
    {
        BeginFrameObserverState::new()
    }
}

/// Frames that follow one another move forward in time: no frame follows
/// itself, no two frames follow each other, and a frame that follows a later one
/// follows the earlier one too where all three have one source.
pub proof fn law_begin_frames_move_forward(
    first: BeginFrameArgs,
    second: BeginFrameArgs,
    third: BeginFrameArgs,
)
    ensures
        !follows_last_used(first, Some(first), false),
        !(follows_last_used(second, Some(first), false) && follows_last_used(
            first,
            Some(second),
            false,
        )),
        follows_last_used(second, Some(first), false) && follows_last_used(third, Some(second), false)
            && first.id.source_id == second.id.source_id && second.id.source_id
            == third.id.source_id ==> follows_last_used(third, Some(first), false),
        follows_last_used(second, Some(first), false) ==> second.frame_time@ > first.frame_time@,
{
}

/// A frame that an observer has used is not handed to it again, except as a
/// permitted second announcement, and then only while it is the last one used.
pub proof fn law_used_frame_is_not_reissued(
    state: BeginFrameObserverState,
    begin_frame: BeginFrameArgs,
    allow_missed_retry: bool,
)
    requires
        state.last_used() == Some(begin_frame),
    ensures
        follows_last_used(begin_frame, state.last_used(), allow_missed_retry) == (allow_missed_retry
            && begin_frame.missed),
{
}

/// A finished frame never follows its own acknowledgement.
pub proof fn law_finished_frame_is_not_reissued(begin_frame: BeginFrameArgs, has_damage: bool)
    ensures
        !follows_ack(
            begin_frame,
            Some(
                BeginFrameAck {
                    frame_id: begin_frame.id,
                    frame_time: begin_frame.frame_time,
                    has_damage,
                },
            ),
        ),
{
}

} // verus!
