//! What is told about a frame that left the queue.

use crate::frames::swaps::{PresentationFeedback, SwapCompletionResult};
use crate::time::{Duration, Instant};
use vstd::prelude::*;

verus! {

/// How long before it is displayed a frame has to be handed over, in nanoseconds.
pub const LATCH_BUFFER_NANOS: u128 = 1_500_000;

/// How many refreshes a frame may miss before its display time is given up.
pub const MAX_MISSED_REFRESHES: u32 = 240;

/// When the display refreshes.
#[derive(Clone, Copy, Debug, PartialEq, Eq, Structural)]
pub struct FrameDisplayTiming {
    pub next_display_time: Instant,
    pub frame_interval: Option<Duration>,
}

/// The last moment at which a frame is handed over in time for a refresh.
pub open spec fn latch_deadline(display_time: nat) -> nat {
    if display_time >= LATCH_BUFFER_NANOS {
        (display_time - LATCH_BUFFER_NANOS) as nat
    } else {
        display_time
    }
}

/// The first of some refreshes for which a frame is in time; the moment of the
/// handover where it is in time for none.
pub open spec fn first_reachable_refresh(
    display_time: nat,
    interval: nat,
    latch_time: nat,
    refreshes: nat,
) -> nat
    decreases refreshes,
{
    if refreshes == 0 {
        latch_time
    } else if latch_time < latch_deadline(display_time) {
        display_time
    } else {
        first_reachable_refresh(
            display_time + interval,
            interval,
            latch_time,
            (refreshes - 1) as nat,
        )
    }
}

impl FrameDisplayTiming {
    /// Every refresh that is looked at has a moment.
    pub open spec fn in_range(&self) -> bool {
        match self.frame_interval {
            Some(interval) => self.next_display_time@ + MAX_MISSED_REFRESHES * interval@ <= u128::MAX,
            None => true,
        }
    }

    /// The next refresh leaves time for a handover.
    pub open spec fn reaches_next(&self, latch_time: nat) -> bool {
        &&& self.next_display_time@ >= LATCH_BUFFER_NANOS
        &&& latch_time < latch_deadline(self.next_display_time@)
    }

    /// When a frame is displayed that was handed over at a moment.
    pub open spec fn display_time(&self, latch_time: nat) -> nat {
        if self.reaches_next(latch_time) {
            self.next_display_time@
        } else {
            match self.frame_interval {
                Some(interval) => if interval@ > 0 {
                    first_reachable_refresh(
                        self.next_display_time@,
                        interval@,
                        latch_time,
                        MAX_MISSED_REFRESHES as nat,
                    )
                } else {
                    latch_time
                },
                None => latch_time,
            }
        }
    }

    /// The handover that the next refresh was meant for.
    pub open spec fn target_latch(&self) -> Option<nat> {
        if self.next_display_time@ >= LATCH_BUFFER_NANOS {
            Some((self.next_display_time@ - LATCH_BUFFER_NANOS) as nat)
        } else {
            None
        }
    }

    fn target_latch_time(&self) -> (time: Option<Instant>)
        ensures
            match self.target_latch() {
                Some(target) => time matches Some(time) && time@ == target,
                None => time is None,
            },
    {
        self.next_display_time.checked_sub(Duration::from_micros(1500))
    }
}

/// When a frame is displayed that was handed over at a moment: at the first
/// refresh that leaves a millisecond and a half for it.
pub fn estimated_display_time_for_latch(display_timing: FrameDisplayTiming, latch_time: Instant) -> (time:
    Instant)
    requires
        display_timing.in_range(),
    ensures
        time@ == display_timing.display_time(latch_time@),
{
    if let Some(deadline) = display_timing.target_latch_time() {
        if deadline.is_after(&latch_time) {
            return display_timing.next_display_time;
        }
    }
    let interval: Duration = match display_timing.frame_interval {
        Some(interval) => interval,
        None => {
            return latch_time;
        },
    };
    if interval.is_zero() {
        return latch_time;
    }
    let buffer: Duration = Duration::from_micros(1500);
    let mut display_time: Instant = display_timing.next_display_time;
    let mut left: u32 = MAX_MISSED_REFRESHES;
    while left > 0
        invariant
            left <= MAX_MISSED_REFRESHES,
            buffer@ == LATCH_BUFFER_NANOS,
            interval@ > 0,
            display_timing.frame_interval == Some(interval),
            !display_timing.reaches_next(latch_time@),
            display_time@ + left * interval@ <= u128::MAX,
            first_reachable_refresh(display_time@, interval@, latch_time@, left as nat)
                == first_reachable_refresh(
                display_timing.next_display_time@,
                interval@,
                latch_time@,
                MAX_MISSED_REFRESHES as nat,
            ),
        decreases left,
    {
        let deadline: Instant = match display_time.checked_sub(buffer) {
            Some(deadline) => deadline,
            None => display_time,
        };
        if deadline.is_after(&latch_time) {
            return display_time;
        }
        proof {
            let refreshes = left as int;
            let length = interval@ as int;
            assert(refreshes * length == (refreshes - 1) * length + length) by (nonlinear_arith);
            assert((refreshes - 1) * length >= 0) by (nonlinear_arith)
                requires
                    refreshes >= 1,
                    length >= 0,
            ;
        }
        display_time = display_time.after(interval);
        left = left - 1;
    }
    latch_time
}

/// How the swap of a frame ended that was handed over or passed over.
pub fn swap_completion_result_for_iosurface_frame(presented: bool) -> (result: SwapCompletionResult)
    ensures
        result == if presented {
            SwapCompletionResult::Ack
        } else {
            SwapCompletionResult::Skipped
        },
{
    if presented {
        SwapCompletionResult::Ack
    } else {
        SwapCompletionResult::Skipped
    }
}

/// The feedback is that of a frame that is displayed.
pub open spec fn is_displayed(
    feedback: PresentationFeedback,
    swap_id: Option<u64>,
    ready_time: Instant,
    latch_time: Instant,
    display_timing: Option<FrameDisplayTiming>,
) -> bool {
    &&& feedback.ready_time == ready_time
    &&& feedback.latch_time == latch_time
    &&& feedback.presented
    &&& feedback.vsync
    &&& feedback.hardware_completion
    &&& feedback.swap_id == swap_id
    &&& match display_timing {
        Some(timing) => {
            &&& feedback.display_time@ == timing.display_time(latch_time@)
            &&& feedback.interval == timing.frame_interval
            &&& match timing.target_latch() {
                Some(target) => feedback.target_latch_time matches Some(time) && time@ == target,
                None => feedback.target_latch_time is None,
            }
        },
        None => {
            &&& feedback.display_time == latch_time
            &&& feedback.interval is None
            &&& feedback.target_latch_time is None
        },
    }
}

/// What is told about a frame that is displayed, from the timing under which it
/// was handed over.
pub fn presentation_feedback_for_iosurface_frame(
    swap_id: Option<u64>,
    ready_time: Instant,
    latch_time: Instant,
    display_timing: Option<FrameDisplayTiming>,
) -> (feedback: PresentationFeedback)
    requires
        display_timing matches Some(timing) ==> timing.in_range(),
    ensures
        is_displayed(feedback, swap_id, ready_time, latch_time, display_timing),
{
    match display_timing {
        Some(timing) => PresentationFeedback {
            ready_time,
            latch_time,
            display_time: estimated_display_time_for_latch(timing, latch_time),
            target_latch_time: timing.target_latch_time(),
            interval: timing.frame_interval,
            presented: true,
            vsync: true,
            hardware_completion: true,
            swap_id,
        },
        None => PresentationFeedback {
            ready_time,
            latch_time,
            display_time: latch_time,
            target_latch_time: None,
            interval: None,
            presented: true,
            vsync: true,
            hardware_completion: true,
            swap_id,
        },
    }
}

/// The feedback about a frame that is not displayed.
pub open spec fn not_displayed(
    swap_id: Option<u64>,
    ready_time: Instant,
    latch_time: Instant,
) -> PresentationFeedback {
    PresentationFeedback {
        ready_time,
        latch_time,
        display_time: latch_time,
        target_latch_time: None,
        interval: None,
        presented: false,
        vsync: false,
        hardware_completion: true,
        swap_id,
    }
}

/// What is told about a frame that is not displayed.
pub fn presentation_feedback_for_dropped_frame(
    swap_id: Option<u64>,
    ready_time: Instant,
    latch_time: Instant,
) -> (feedback: PresentationFeedback)
    ensures
        feedback == not_displayed(swap_id, ready_time, latch_time),
{
    PresentationFeedback {
        ready_time,
        latch_time,
        display_time: latch_time,
        target_latch_time: None,
        interval: None,
        presented: false,
        vsync: false,
        hardware_completion: true,
        swap_id,
    }
}

/// What is told about a frame of which only the moment is known at which it was
/// displayed.
pub fn presentation_feedback_from_display_time(display_time: Instant) -> (feedback:
    PresentationFeedback)
    ensures
        feedback == (PresentationFeedback {
            ready_time: display_time,
            latch_time: display_time,
            display_time,
            target_latch_time: None,
            interval: None,
            presented: true,
            vsync: true,
            hardware_completion: true,
            swap_id: None,
        }),
{
    PresentationFeedback {
        ready_time: display_time,
        latch_time: display_time,
        display_time,
        target_latch_time: None,
        interval: None,
        presented: true,
        vsync: true,
        hardware_completion: true,
        swap_id: None,
    }
}

/// The moment of a media time from how far it lies ahead of now or behind it. Where
/// the distance is unknown, or reaches back beyond the start of the clock, it is now.
pub fn media_time_to_instant(now: Instant, ahead: bool, distance: Option<Duration>) -> (moment:
    Instant)
    requires
        ahead && distance is Some ==> now@ + distance->0@ <= u128::MAX,
    ensures
        moment@ == match distance {
            Some(distance) if ahead => (now@ + distance@) as nat,
            Some(distance) if distance@ <= now@ => (now@ - distance@) as nat,
            _ => now@,
        },
{
    match distance {
        Some(distance) => {
            if ahead {
                now.after(distance)
            } else {
                match now.checked_sub(distance) {
                    Some(moment) => moment,
                    None => now,
                }
            }
        },
        None => now,
    }
}

/// A value that the GPU has signalled releases every fence up to it.
pub fn iosurface_backpressure_fence_is_signaled(signaled_value: u64, fence_value: u64) -> (signaled:
    bool)
    ensures
        signaled == (signaled_value >= fence_value),
{
    signaled_value >= fence_value
}

/// Whether a frame that is ready is handed over at once: not where others wait
/// behind it, nor where it waits for the next refresh.
pub fn should_commit_ready_iosurface_frame_immediately(
    queued_frame_count: usize,
    delay_until_next_vsync: bool,
) -> (commit: bool)
    ensures
        commit == (queued_frame_count <= 1 && !delay_until_next_vsync),
{
    queued_frame_count <= 1 && !delay_until_next_vsync
}

/// One pending swap fewer, never less than none.
pub fn decrement_pending_swap_count(pending_swap_count: &mut usize)
    ensures
        *final(pending_swap_count) == if *old(pending_swap_count) > 0 {
            *old(pending_swap_count) - 1
        } else {
            0
        },
{
    if *pending_swap_count > 0 {
        *pending_swap_count = *pending_swap_count - 1;
    }
}

proof fn lemma_reachable_refresh(
    display_time: nat,
    interval: nat,
    latch_time: nat,
    refreshes: nat,
    step: nat,
)
    requires
        interval > 0,
        step < refreshes,
        latch_time < latch_deadline(display_time + step * interval),
        forall|earlier: nat|
            earlier < step ==> latch_time >= #[trigger] latch_deadline(
                display_time + earlier * interval,
            ),
    ensures
        first_reachable_refresh(display_time, interval, latch_time, refreshes) == display_time + step
            * interval,
    decreases step,
{
    if step == 0 {
        assert(0 * interval == 0);
    } else {
        assert(latch_time >= latch_deadline(display_time + 0 * interval));
        assert(display_time + 0 * interval == display_time);
        let next = display_time + interval;
        let before = (step - 1) as nat;
        assert(next + before * interval == display_time + step * interval) by (nonlinear_arith)
            requires
                next == display_time + interval,
                before == step - 1,
        ;
        assert forall|earlier: nat| earlier < before implies latch_time >= #[trigger] latch_deadline(
            next + earlier * interval,
        ) by {
            let later = (earlier + 1) as nat;
            assert(next + earlier * interval == display_time + later * interval) by (nonlinear_arith)
                requires
                    next == display_time + interval,
                    later == earlier + 1,
            ;
            assert(latch_time >= latch_deadline(display_time + later * interval));
        }
        lemma_reachable_refresh(next, interval, latch_time, (refreshes - 1) as nat, before);
    }
}

/// A frame is displayed at the first refresh that it is in time for, of those
/// that are looked at, where refreshes come at intervals and the next leaves room
/// for a handover.
pub proof fn law_frames_show_at_the_first_reachable_refresh(
    timing: FrameDisplayTiming,
    latch_time: nat,
    step: nat,
)
    requires
        timing.next_display_time@ >= LATCH_BUFFER_NANOS,
        timing.frame_interval matches Some(interval) && interval@ > 0,
        step < MAX_MISSED_REFRESHES,
        latch_time < latch_deadline(timing.next_display_time@ + step * timing.frame_interval->0@),
        forall|earlier: nat|
            earlier < step ==> latch_time >= #[trigger] latch_deadline(
                timing.next_display_time@ + earlier * timing.frame_interval->0@,
            ),
    ensures
        timing.display_time(latch_time) == timing.next_display_time@ + step
            * timing.frame_interval->0@,
{
    let interval = timing.frame_interval->0@;
    if step > 0 {
        assert(latch_time >= latch_deadline(timing.next_display_time@ + 0 * interval));
        assert(timing.next_display_time@ + 0 * interval == timing.next_display_time@);
    } else {
        assert(0 * interval == 0);
    }
    lemma_reachable_refresh(
        timing.next_display_time@,
        interval,
        latch_time,
        MAX_MISSED_REFRESHES as nat,
        step,
    );
}

} // verus!
