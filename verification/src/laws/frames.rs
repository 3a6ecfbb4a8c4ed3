//! When frames are announced, which deadline they get and how many are on their way,
//! told by the times alone.

use crate::frames::begin_frame;
use crate::frames::begin_frame::BeginFrameArgs;
use crate::frames::deadlines;
use crate::frames::deadlines::{
    DeadlineRequest, DeciderState, PossibleDeadline, PossibleDeadlines,
};
use crate::frames::display_link::{DisplayLink, HostClock, TimeStamp, Timebase};
use crate::frames::{display_link, swaps};
use crate::frames::swaps::RefreshRateSwapCaps;
use crate::rounding;
use crate::time;
use crate::time::Instant;
use vstd::prelude::*;

verus! {

/// A saturating difference fills the one number up to the larger of both, the distance
/// of two numbers leads from the smaller to the larger whichever comes first, and the
/// smaller of two numbers is one of them.
pub proof fn law_differences_and_limits(left: nat, right: nat)
    ensures
        time::saturating_difference(left, right) + right == if left > right {
            left
        } else {
            right
        },
        time::distance(left, right) == time::distance(right, left),
        left <= right ==> left + time::distance(left, right) == right,
        time::at_most(left, right) <= left,
        time::at_most(left, right) <= right,
        time::at_most(left, right) == left || time::at_most(left, right) == right,
{
}

/// A new sequence aims for no later presentation than the buffers allow, whatever the
/// input, and input never makes it later. With input, the presentation, the age of the
/// input, a frame and a quarter add up to no more than a tenth of a second, unless it
/// is at once. It is as late as these allow.
pub proof fn law_targets_keep_the_budget(
    interval: nat,
    buffers: nat,
    frame_time: nat,
    input: Option<Instant>,
)
    ensures
        ({
            let free = deadlines::target_present_delta(interval, buffers, frame_time, None);
            let target = deadlines::target_present_delta(interval, buffers, frame_time, input);
            let age = match input {
                Some(input) if input@ < frame_time => frame_time - input@,
                _ => 0,
            };
            let used = target + age + interval + interval / 4;
            &&& free <= interval * buffers
            &&& interval * buffers <= time::MAX_DURATION_NANOS ==> free == interval * buffers
            &&& target <= free
            &&& input is None ==> target == free
            &&& input is Some && target > 0 ==> used <= 100_000_000
            &&& input is Some && 0 < target < free ==> used == 100_000_000
            &&& input is Some && target == 0 && free > 0 ==> used >= 100_000_000
        }),
{
    assert(interval * buffers >= 0) by (nonlinear_arith)
        requires
            interval >= 0,
            buffers >= 0,
    ;
}

/// Fewer buffers or older input never lead to a later target.
pub proof fn law_targets_shrink(
    interval: nat,
    buffers: nat,
    fewer: nat,
    frame_time: nat,
    input: Instant,
    older: Instant,
)
    requires
        fewer <= buffers,
        older@ <= input@,
    ensures
        deadlines::target_present_delta(interval, fewer, frame_time, Some(older))
            <= deadlines::target_present_delta(interval, buffers, frame_time, Some(input)),
        deadlines::target_present_delta(interval, fewer, frame_time, None)
            <= deadlines::target_present_delta(interval, buffers, frame_time, None),
{
    assert(interval * fewer <= interval * buffers) by (nonlinear_arith)
        requires
            interval >= 0,
            fewer <= buffers,
    ;
}

/// A decider that starts a sequence chooses the last deadline that is presented by its
/// target, unless the platform prefers one that is presented later. Where no deadline
/// is presented by the target, it follows the platform.
pub proof fn law_sequences_start_as_late_as_allowed(
    state: DeciderState,
    request: DeadlineRequest,
    place: int,
)
    requires
        !state.use_platform_preferred_deadlines,
        !state.in_frame_sequence,
        request.possible.is_ordered(),
        0 <= place < request.possible.deadlines@.len() <= usize::MAX,
        place + 1 < request.possible.deadlines@.len() ==> request.possible.deadlines@[place
            + 1].present_delta@ > deadlines::target_present_delta(
            request.vsync_interval,
            request.max_allowed_buffers,
            request.frame_time,
            request.earliest_input_time,
        ),
    ensures
        ({
            let offered = request.possible.deadlines@;
            let preferred = request.possible.os_preferred_index;
            let target = deadlines::target_present_delta(
                request.vsync_interval,
                request.max_allowed_buffers,
                request.frame_time,
                request.earliest_input_time,
            );
            let index = state.answer(request);
            &&& offered[place].present_delta@ <= target ==> index == if preferred < offered.len()
                && offered[place].present_delta@ < offered[preferred as int].present_delta@ {
                preferred as int
            } else {
                place
            }
            &&& offered[0].present_delta@ > target ==> index == preferred
            &&& index != preferred ==> offered[index as int].present_delta@
                <= request.vsync_interval * request.max_allowed_buffers
        }),
{
    let offered = request.possible.deadlines@;
    let target = deadlines::target_present_delta(
        request.vsync_interval,
        request.max_allowed_buffers,
        request.frame_time,
        request.earliest_input_time,
    );
    deadlines::lemma_presented_by_splits(offered, target);
    law_targets_keep_the_budget(
        request.vsync_interval,
        request.max_allowed_buffers,
        request.frame_time,
        request.earliest_input_time,
    );
    let count = deadlines::presented_by(offered, target);
    if offered[place].present_delta@ <= target {
        assert(count == place + 1) by {
            if count <= place {
                assert(target < offered[place].present_delta@);
            }
            if count > place + 1 {
                assert(offered[place + 1].present_delta@ <= target);
            }
        }
    }
    if offered[0].present_delta@ > target {
        assert(count == 0) by {
            if count > 0 {
                assert(offered[0].present_delta@ <= target);
            }
        }
    }
}

/// A decider that follows the platform answers what the platform prefers, whatever the
/// times.
pub proof fn law_the_platform_can_be_followed(state: DeciderState, request: DeadlineRequest)
    requires
        state.use_platform_preferred_deadlines,
    ensures
        state.answer(request) == request.possible.os_preferred_index,
        state.after(request).use_platform_preferred_deadlines,
        !state.in_frame_sequence ==> !state.after(request).in_frame_sequence,
{
}

/// Within a sequence the deadline of the same place is kept while its presentation has
/// moved by no more than a millisecond. Otherwise the first of those is chosen whose
/// presentation moved least.
pub proof fn law_sequences_follow_their_presentation(
    state: DeciderState,
    request: DeadlineRequest,
    other: int,
)
    requires
        !state.use_platform_preferred_deadlines,
        state.in_frame_sequence,
        0 <= other < request.possible.deadlines@.len() <= usize::MAX,
    ensures
        ({
            let offered = request.possible.deadlines@;
            let index = state.answer(request) as int;
            let moved = offered[index].present_delta@ - state.present_delta;
            let moved_other = offered[other].present_delta@ - state.present_delta;
            let kept = state.deadline_index < offered.len() && -1_000_000
                <= offered[state.deadline_index as int].present_delta@ - state.present_delta
                <= 1_000_000;
            &&& 0 <= index < offered.len()
            &&& kept ==> index == state.deadline_index
            &&& !kept ==> (moved <= moved_other || moved <= -moved_other) && (-moved <= moved_other
                || -moved <= -moved_other)
            &&& !kept && other < index ==> !((moved_other <= moved && -moved_other <= moved) || (
            moved_other <= -moved && -moved_other <= -moved))
            &&& state.after(request).in_frame_sequence
            &&& state.after(request).deadline_index == index
            &&& state.after(request).present_delta == offered[index].present_delta@
        }),
{
    let offered = request.possible.deadlines@;
    deadlines::law_closest_deadline_is_first_minimum(
        offered,
        state.present_delta,
        offered.len() as int,
    );
    assert(deadlines::drift(offered, state.present_delta, other) >= 0);
}

/// Within one source a frame follows only with a later time and a higher number, and
/// then it does. Frames of different sources follow by their time alone. A frame that
/// was used may be handed out again only where that is allowed and it was missed.
pub proof fn law_frames_follow_by_time_and_number(
    frame: BeginFrameArgs,
    last: BeginFrameArgs,
    has_damage: bool,
)
    ensures
        ({
            let forward = frame.frame_time@ > last.frame_time@;
            let same_source = frame.id.source_id == last.id.source_id;
            let counted_up = frame.id.sequence_number > last.id.sequence_number;
            let ack = begin_frame::BeginFrameAck {
                frame_id: last.id,
                frame_time: last.frame_time,
                has_damage,
            };
            &&& begin_frame::follows_last_used(frame, Some(last), false) ==> forward && (counted_up
                || !same_source)
            &&& forward && counted_up ==> begin_frame::follows_last_used(frame, Some(last), false)
            &&& forward && !same_source ==> begin_frame::follows_last_used(frame, Some(last), false)
            &&& begin_frame::follows_last_used(frame, Some(last), true)
                && !begin_frame::follows_last_used(frame, Some(last), false) ==> frame.missed
                && frame.id == last.id
            &&& frame.missed && frame.id == last.id ==> begin_frame::follows_last_used(
                frame,
                Some(last),
                true,
            )
            &&& begin_frame::follows_last_used(frame, None, false)
            &&& begin_frame::follows_ack(frame, None)
            &&& begin_frame::follows_ack(frame, Some(ack)) == begin_frame::follows_last_used(
                frame,
                Some(last),
                false,
            )
        }),
{
}

/// A refresh takes as many whole nanoseconds as its period fits into its time scale,
/// where a time stamp holds both and says so, and an unknown time otherwise.
pub proof fn law_intervals_divide_the_period(stamp: TimeStamp)
    ensures
        ({
            let interval = display_link::interval_of(Some(stamp)) as int;
            let told = stamp.flags & 8 != 0 && stamp.video_time_scale > 0
                && stamp.video_refresh_period > 0;
            let whole = stamp.video_refresh_period * 1_000_000_000;
            &&& !told ==> interval == 0
            &&& told ==> interval * stamp.video_time_scale <= whole
            &&& told && interval < u64::MAX ==> whole < (interval + 1) * stamp.video_time_scale
            &&& display_link::interval_of(None) == 0
            &&& display_link::host_time_of(None) == 0
            &&& stamp.flags & 2 != 0 ==> display_link::host_time_of(Some(stamp)) == stamp.host_time
            &&& stamp.flags & 2 == 0 ==> display_link::host_time_of(Some(stamp)) == 0
        }),
{
    if stamp.video_time_scale > 0 && stamp.video_refresh_period > 0 {
        let whole = stamp.video_refresh_period * 1_000_000_000;
        let scale = stamp.video_time_scale as int;
        let quotient = whole / scale;
        assert(quotient * scale <= whole < (quotient + 1) * scale && quotient >= 0)
            by (nonlinear_arith)
            requires
                quotient == whole / scale,
                scale > 0,
                whole >= 0,
        ;
        let interval = display_link::interval_of(Some(stamp)) as int;
        assert(interval * scale <= quotient * scale) by (nonlinear_arith)
            requires
                interval <= quotient,
                scale > 0,
        ;
    }
}

/// Ticks take as many whole nanoseconds as the timebase makes of them, and more ticks
/// take no less. A timebase without a denominator counts as one with the denominator
/// one.
pub proof fn law_ticks_are_scaled(timebase: Timebase, ticks: nat, more: nat)
    requires
        ticks <= more,
    ensures
        ({
            let nanos = timebase.nanos(ticks);
            let denominator = if timebase.denominator == 0 {
                1
            } else {
                timebase.denominator as int
            };
            let scaled = ticks * timebase.numerator;
            &&& nanos * denominator <= scaled
            &&& nanos < u64::MAX ==> scaled < (nanos + 1) * denominator
            &&& nanos <= u64::MAX
            &&& timebase.nanos(ticks) <= timebase.nanos(more)
        }),
{
    let divisor = timebase.divisor();
    let scaled = ticks * (timebase.numerator as nat);
    let larger = more * (timebase.numerator as nat);
    let quotient = scaled / divisor;
    assert(quotient * divisor <= scaled < (quotient + 1) * divisor) by (nonlinear_arith)
        requires
            quotient == scaled / divisor,
            divisor > 0,
            scaled >= 0,
    ;
    let nanos = timebase.nanos(ticks);
    assert(nanos * divisor <= quotient * divisor) by (nonlinear_arith)
        requires
            nanos <= quotient,
            divisor > 0,
    ;
    assert(scaled <= larger) by (nonlinear_arith)
        requires
            ticks <= more,
            scaled == ticks * (timebase.numerator as nat),
            larger == more * (timebase.numerator as nat),
    ;
    vstd::arithmetic::div_mod::lemma_div_is_ordered(scaled as int, larger as int, divisor as int);
}

/// Moments lie as far from the clock's as the ticks between them take, ahead for later
/// times of the host and behind for earlier ones.
pub proof fn law_moments_lie_ticks_apart(clock: HostClock, host_time: u64)
    ensures
        ({
            let apart = clock.timebase.nanos(
                time::distance(host_time as nat, clock.now_host_time as nat),
            );
            let moment = clock.moment(host_time);
            &&& host_time >= clock.now_host_time ==> moment == clock.now@ + apart
            &&& host_time < clock.now_host_time && apart <= clock.now@ ==> moment + apart
                == clock.now@
            &&& host_time < clock.now_host_time && apart > clock.now@ ==> moment == clock.now@
        }),
{
}

/// A frame starts when the display told, if that was before the moment of display, and
/// else a refresh before that moment, and is displayed no earlier than it starts.
/// Where the display does not tell how long a refresh takes, it is a sixtieth of a
/// second.
pub proof fn law_frames_start_before_they_are_displayed(
    link: DisplayLink,
    display_clock: HostClock,
    callback_clock: HostClock,
)
    ensures
        ({
            let params = link.latest_params;
            let displayed = display_clock.moment(params.display_host_time);
            let start = link.frame_time(display_clock, callback_clock);
            let delta = link.first_present_delta(display_clock, callback_clock);
            let told = 0 < params.callback_host_time < params.display_host_time;
            &&& link.interval_nanos() == if params.interval_ns == 0 {
                16_667_000
            } else {
                params.interval_ns as int
            }
            &&& told ==> start == callback_clock.moment(params.callback_host_time)
            &&& told && start <= displayed ==> start + delta == displayed
            &&& told && start > displayed ==> delta == 0
            &&& !told ==> delta == link.interval_nanos()
            &&& !told && displayed >= link.interval_nanos() ==> start + delta == displayed
            &&& !told && displayed < link.interval_nanos() ==> start == displayed
        }),
{
}

/// The refreshes offered for a frame are numbered from that of the frame on, as far as
/// numbers go, and the first is the one that the platform prefers.
pub proof fn law_offered_refreshes_are_numbered(
    offered: PossibleDeadlines,
    sequence_number: u64,
    interval: nat,
    first_present_delta: nat,
    candidate: int,
)
    requires
        display_link::are_next_refreshes(offered, sequence_number, interval, first_present_delta),
        0 <= candidate < 3,
    ensures
        offered.deadlines@.len() == 3,
        offered.os_preferred_index == 0,
        sequence_number + candidate <= i64::MAX ==> offered.deadlines@[candidate].vsync_id
            == sequence_number + candidate,
        sequence_number + candidate > i64::MAX ==> offered.deadlines@[candidate].vsync_id
            == i64::MAX,
        interval * candidate <= time::MAX_DURATION_NANOS
            ==> offered.deadlines@[candidate].present_delta@ == first_present_delta + interval
            * candidate,
        offered.deadlines@[candidate].latch_delta@ == offered.deadlines@[candidate].present_delta@,
{
    assert(interval * candidate >= 0) by (nonlinear_arith)
        requires
            candidate >= 0,
    ;
}

/// A faster display gets the cap of its own tier where one is set, and the common cap
/// otherwise; what is set for other tiers makes no difference.
pub proof fn law_caps_go_by_the_tier(caps: RefreshRateSwapCaps, interval: nat)
    ensures
        ({
            let own = if interval >= 14_000_000 {
                None
            } else if interval >= 11_500_000 {
                caps.max_pending_swaps_72hz
            } else if interval >= 8_500_000 {
                caps.max_pending_swaps_90hz
            } else {
                caps.max_pending_swaps_120hz
            };
            &&& own is Some ==> caps.cap(interval) == own->0
            &&& own is None ==> caps.cap(interval) == caps.max_pending_swaps
        }),
{
}

/// A frame that is begun by an eighth or less does not count, and one that is begun by
/// a quarter or more counts whole, in a span that leaves four bits of a
/// double-precision number free.
pub proof fn law_begun_frames_count(interval: nat, frames: nat, begun: nat)
    requires
        interval > 0,
        begun < interval,
        16 * (frames + 2) * interval < swaps::DOUBLE_LIMIT,
    ensures
        8 * begun <= interval ==> swaps::frames_ahead(frames * interval + begun, interval)
            == frames,
        4 * begun >= interval ==> swaps::frames_ahead(frames * interval + begun, interval)
            == frames + 1,
{
    let limit = swaps::DOUBLE_LIMIT as nat;
    let whole = frames * interval;
    let total = whole + begun;
    let fraction = vstd::arithmetic::power2::pow2(49);
    vstd::arithmetic::power2::lemma2_to64();
    vstd::arithmetic::power2::lemma2_to64_rest();
    assert(16 * (frames + 2) * interval == 16 * whole + 32 * interval) by (nonlinear_arith)
        requires
            whole == frames * interval,
    ;
    assert(frames <= whole) by (nonlinear_arith)
        requires
            whole == frames * interval,
            interval >= 1,
    ;
    let share = swaps::nearest_double(swaps::FOUR_FIFTHS as nat * interval);
    let sum = swaps::nearest_double(total * limit + share);
    let quotient = rounding::nearest_quotient(sum, interval, limit);
    rounding::lemma_small_numbers_are_kept(total, limit);
    rounding::lemma_small_numbers_are_kept(interval, limit);
    rounding::lemma_small_numbers_are_kept(12 * interval, limit);
    rounding::lemma_small_numbers_are_kept(13 * interval, limit);
    rounding::lemma_scaling(12 * interval, 1, 49, limit);
    rounding::lemma_scaling(13 * interval, 1, 49, limit);
    rounding::lemma_rounding_is_ordered(
        (12 * interval) * fraction,
        swaps::FOUR_FIFTHS as nat * interval,
        1,
        limit,
    );
    rounding::lemma_rounding_is_ordered(
        swaps::FOUR_FIFTHS as nat * interval,
        (13 * interval) * fraction,
        1,
        limit,
    );
    assert((12 * interval) * fraction <= share <= (13 * interval) * fraction);
    if 8 * begun <= interval {
        let above = 16 * whole + 15 * interval;
        lemma_quotient_bounds(interval, frames, 0, limit);
        lemma_quotient_bounds(interval, frames, 15, limit);
        rounding::lemma_rounding_is_ordered((16 * whole) * fraction, total * limit + share, 1, limit);
        rounding::lemma_rounding_is_ordered(total * limit + share, above * fraction, 1, limit);
        rounding::lemma_rounding_is_ordered((16 * whole) * fraction, sum, interval, limit);
        rounding::lemma_rounding_is_ordered(sum, above * fraction, interval, limit);
    }
    if 4 * begun >= interval {
        let above = 16 * whole + 31 * interval;
        lemma_quotient_bounds(interval, frames, 16, limit);
        lemma_quotient_bounds(interval, frames, 31, limit);
        let below = 16 * whole + 16 * interval;
        rounding::lemma_rounding_is_ordered(below * fraction, total * limit + share, 1, limit);
        rounding::lemma_rounding_is_ordered(total * limit + share, above * fraction, 1, limit);
        rounding::lemma_rounding_is_ordered(below * fraction, sum, interval, limit);
        rounding::lemma_rounding_is_ordered(sum, above * fraction, interval, limit);
    }
}

proof fn lemma_quotient_bounds(interval: nat, frames: nat, sixteenths: nat, limit: nat)
    requires
        interval > 0,
        limit == swaps::DOUBLE_LIMIT,
        16 * (frames + 2) * interval < limit,
        sixteenths < 32,
    ensures
        ({
            let fraction = vstd::arithmetic::power2::pow2(49);
            let size = 16 * (frames * interval) + sixteenths * interval;
            &&& rounding::nearest(size * fraction, limit) == size * fraction
            &&& rounding::nearest_quotient(size * fraction, interval, limit) == (16 * frames
                + sixteenths) * fraction
        }),
{
    let fraction = vstd::arithmetic::power2::pow2(49);
    let size = 16 * (frames * interval) + sixteenths * interval;
    let count = 16 * frames + sixteenths;
    assert(16 * (frames + 2) * interval == 16 * (frames * interval) + 32 * interval && size == count
        * interval) by (nonlinear_arith)
        requires
            size == 16 * (frames * interval) + sixteenths * interval,
            count == 16 * frames + sixteenths,
    ;
    assert(sixteenths * interval <= 32 * interval) by (nonlinear_arith)
        requires
            sixteenths < 32,
    ;
    assert(count <= size) by (nonlinear_arith)
        requires
            size == count * interval,
            interval >= 1,
    ;
    rounding::lemma_small_numbers_are_kept(size, limit);
    rounding::lemma_small_numbers_are_kept(count, limit);
    rounding::lemma_scaling(size, 1, 49, limit);
    rounding::lemma_scaling(count, 1, 49, limit);
    assert(size * fraction == (count * fraction) * interval) by (nonlinear_arith)
        requires
            size == count * interval,
    ;
    assert(1 * interval == interval);
    rounding::lemma_common_factor(count * fraction, 1, interval, limit);
}

/// A decider notes what it answered, where that is offered, and runs a sequence from
/// then on unless it follows the platform. When it is idle it is as new.
pub proof fn law_deciders_note_their_answer(state: DeciderState, request: DeadlineRequest)
    ensures
        ({
            let index = state.answer(request);
            let next = state.after(request);
            let offered = request.possible.deadlines@;
            &&& next.deadline_index == index
            &&& next.use_platform_preferred_deadlines == state.use_platform_preferred_deadlines
            &&& next.in_frame_sequence == (state.in_frame_sequence
                || !state.use_platform_preferred_deadlines)
            &&& index < offered.len() ==> next.present_delta
                == offered[index as int].present_delta@
            &&& index >= offered.len() ==> next.present_delta == state.present_delta
            &&& !state.idle().in_frame_sequence
            &&& state.idle().present_delta == 0
            &&& state.idle().deadline_index == 0
            &&& state.idle() == DeciderState::fresh(state.use_platform_preferred_deadlines)
        }),
{
}

/// Where deadlines come in no order, a search by halves ends behind one that is
/// presented by the target, or at the first, and before one that is not, or at the end.
pub proof fn law_searches_end_between(
    offered: Seq<PossibleDeadline>,
    target: nat,
    low: int,
    high: int,
)
    requires
        0 <= low <= high <= offered.len(),
        low > 0 ==> offered[low - 1].present_delta@ <= target,
        high < offered.len() ==> offered[high].present_delta@ > target,
    ensures
        ({
            let found = deadlines::halved(offered, target, low, high);
            &&& low <= found <= high
            &&& found > 0 ==> offered[found - 1].present_delta@ <= target
            &&& found < offered.len() ==> offered[found].present_delta@ > target
        }),
    decreases high - low,
{
    if low < high {
        let middle = low + (high - low) / 2;
        if offered[middle].present_delta@ <= target {
            law_searches_end_between(offered, target, middle + 1, high);
        } else {
            law_searches_end_between(offered, target, low, middle);
        }
    }
}

/// The platform prefers the deadline at the place it names, if one is offered there.
pub proof fn law_preferences_name_a_place(possible: PossibleDeadlines)
    ensures
        possible.os_preferred_index < possible.deadlines@.len()
            ==> possible.spec_os_preferred() == Some(
            possible.deadlines@[possible.os_preferred_index as int],
        ),
        possible.os_preferred_index >= possible.deadlines@.len()
            ==> possible.spec_os_preferred() is None,
{
}

/// A frame counts from a fifth on: the share that is added is the double-precision
/// number nearest to four fifths.
pub proof fn law_a_fifth_is_the_border()
    ensures
        -5 <= 2 * (5 * swaps::FOUR_FIFTHS - 4 * swaps::DOUBLE_LIMIT) <= 5,
        swaps::DOUBLE_LIMIT == 0x20_0000_0000_0000,
{
}

} // verus!
