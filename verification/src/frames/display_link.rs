//! The display link: what the display tells at each refresh, and the frames that
//! are announced from it.

use crate::frames::begin_frame::{BeginFrameArgs, BeginFrameId};
use crate::frames::deadlines::{PossibleDeadline, PossibleDeadlines};
use crate::time;
use crate::time::{Duration, Instant, MAX_DURATION_NANOS};
use vstd::prelude::*;

verus! {

/// The time of the host in a time stamp is valid.
pub const HOST_TIME_VALID: u64 = 2;

/// The refresh period in a time stamp is valid.
pub const VIDEO_REFRESH_PERIOD_VALID: u64 = 8;

/// How long a refresh takes where the display does not tell, in microseconds.
pub const DEFAULT_INTERVAL_MICROS: u64 = 16_667;

/// How many refreshes are offered for a frame.
pub const FORWARD_VSYNC_CANDIDATES: u32 = 3;

/// A moment as the display tells it.
#[derive(Clone, Copy, Debug, PartialEq, Eq, Structural)]
pub struct TimeStamp {
    pub video_time_scale: i32,
    pub video_refresh_period: i64,
    pub host_time: u64,
    /// Which of the others are valid.
    pub flags: u64,
}

/// What the display told at its last refresh, in one piece.
#[derive(Clone, Copy, Debug, PartialEq, Eq, Structural)]
pub struct VSyncParams {
    /// How many refreshes there were.
    pub sequence_number: u64,
    /// When the display told, in ticks of the host; nothing where it is zero.
    pub callback_host_time: u64,
    /// When the frame is displayed, in ticks of the host; nothing where it is zero.
    pub display_host_time: u64,
    /// How long a refresh takes, in nanoseconds; nothing where it is zero.
    pub interval_ns: u64,
}

/// The time of the host that a time stamp holds, zero where it holds none.
pub open spec fn host_time_of(stamp: Option<TimeStamp>) -> u64 {
    match stamp {
        Some(stamp) => if stamp.flags & HOST_TIME_VALID != 0 {
            stamp.host_time
        } else {
            0
        },
        None => 0,
    }
}

/// How long a refresh takes by a time stamp, in nanoseconds, zero where it does
/// not tell.
pub open spec fn interval_of(stamp: Option<TimeStamp>) -> u64 {
    match stamp {
        Some(stamp) => if stamp.flags & VIDEO_REFRESH_PERIOD_VALID != 0 && stamp.video_time_scale > 0
            && stamp.video_refresh_period > 0 {
            time::at_most(
                (stamp.video_refresh_period * 1_000_000_000 / (stamp.video_time_scale as int)) as nat,
                u64::MAX as nat,
            ) as u64
        } else {
            0
        },
        None => 0,
    }
}

fn host_time(stamp: &Option<TimeStamp>) -> (ticks: u64)
    ensures
        ticks == host_time_of(*stamp),
{
    match stamp {
        Some(stamp) => {
            if stamp.flags & HOST_TIME_VALID != 0 {
                stamp.host_time
            } else {
                0
            }
        },
        None => 0,
    }
}

fn refresh_interval(stamp: &Option<TimeStamp>) -> (nanos: u64)
    ensures
        nanos == interval_of(*stamp),
{
    match stamp {
        Some(stamp) => {
            if stamp.flags & VIDEO_REFRESH_PERIOD_VALID != 0 && stamp.video_time_scale > 0
                && stamp.video_refresh_period > 0 {
                let scaled: u128 = stamp.video_refresh_period as u128 * 1_000_000_000;
                proof {
                    let whole = stamp.video_refresh_period * 1_000_000_000;
                    let scale = stamp.video_time_scale as int;
                    assert(whole / scale >= 0) by (nonlinear_arith)
                        requires
                            whole >= 0,
                            scale > 0,
                    ;
                }
                let nanos: u128 = scaled / stamp.video_time_scale as u128;
                if nanos > u64::MAX as u128 {
                    u64::MAX
                } else {
                    nanos as u64
                }
            } else {
                0
            }
        },
        None => 0,
    }
}

impl VSyncParams {
    /// Nothing has been told yet.
    pub fn new(initial_sequence_number: u64) -> (params: Self)
        ensures
            params == (VSyncParams {
                sequence_number: initial_sequence_number,
                callback_host_time: 0,
                display_host_time: 0,
                interval_ns: 0,
            }),
    {
        VSyncParams {
            sequence_number: initial_sequence_number,
            callback_host_time: 0,
            display_host_time: 0,
            interval_ns: 0,
        }
    }

    /// Takes in what the display tells at a refresh: the moment now and the moment
    /// at which the frame is displayed.
    pub fn record_refresh(
        &mut self,
        current_time: Option<TimeStamp>,
        output_time: Option<TimeStamp>,
    )
        ensures
            *final(self) == (VSyncParams {
                sequence_number: if old(self).sequence_number == u64::MAX {
                    0
                } else {
                    (old(self).sequence_number + 1) as u64
                },
                callback_host_time: host_time_of(current_time),
                display_host_time: host_time_of(output_time),
                interval_ns: interval_of(output_time),
            }),
    {
        self.sequence_number = self.sequence_number.wrapping_add(1);
        self.callback_host_time = host_time(&current_time);
        self.display_host_time = host_time(&output_time);
        self.interval_ns = refresh_interval(&output_time);
    }

    /// Whether it is known when the frame is displayed.
    pub fn is_valid(&self) -> (valid: bool)
        ensures
            valid == (self.display_host_time != 0),
    {
        self.display_host_time != 0
    }

    /// How long a refresh takes, where the display tells.
    pub fn interval(&self) -> (interval: Option<Duration>)
        ensures
            match interval {
                Some(interval) => self.interval_ns != 0 && interval@ == self.interval_ns,
                None => self.interval_ns == 0,
            },
    {
        if self.interval_ns == 0 {
            None
        } else {
            Some(Duration::from_nanos(self.interval_ns as u128))
        }
    }
}

/// How the ticks of the host are counted in nanoseconds.
#[derive(Clone, Copy, Debug, PartialEq, Eq, Structural)]
pub struct Timebase {
    pub numerator: u32,
    pub denominator: u32,
}

impl Timebase {
    /// The denominator, one where none is given.
    pub open spec fn divisor(self) -> nat {
        if self.denominator == 0 {
            1
        } else {
            self.denominator as nat
        }
    }

    /// How many nanoseconds some ticks take.
    pub open spec fn nanos(self, ticks: nat) -> nat {
        time::at_most(ticks * (self.numerator as nat) / self.divisor(), u64::MAX as nat)
    }
}

/// How long some ticks of the host take.
pub fn mach_duration(ticks: u64, timebase: Timebase) -> (duration: Duration)
    ensures
        duration@ == timebase.nanos(ticks as nat),
        duration@ <= u64::MAX,
{
    let denominator: u32 = if timebase.denominator == 0 {
        1
    } else {
        timebase.denominator
    };
    proof {
        let ticks = ticks as int;
        let numerator = timebase.numerator as int;
        assert(0 <= ticks * numerator <= 0xffff_ffff_ffff_ffff * 0xffff_ffff) by (nonlinear_arith)
            requires
                0 <= ticks <= 0xffff_ffff_ffff_ffff,
                0 <= numerator <= 0xffff_ffff,
        ;
    }
    let nanos: u128 = ticks as u128 * timebase.numerator as u128 / denominator as u128;
    if nanos > u64::MAX as u128 {
        Duration::from_nanos(u64::MAX as u128)
    } else {
        Duration::from_nanos(nanos)
    }
}

/// A moment by both clocks.
#[derive(Clone, Copy, Debug, PartialEq, Eq, Structural)]
pub struct HostClock {
    pub now: Instant,
    pub now_host_time: u64,
    pub timebase: Timebase,
}

impl HostClock {
    /// Moments ahead can be told.
    pub open spec fn in_range(self) -> bool {
        self.now@ + u64::MAX <= u128::MAX
    }

    /// The moment that a time of the host stands for, where it stands for one.
    pub open spec fn moment(self, host_time: u64) -> nat {
        if host_time >= self.now_host_time {
            self.now@ + self.timebase.nanos((host_time - self.now_host_time) as nat)
        } else {
            let passed = self.timebase.nanos((self.now_host_time - host_time) as nat);
            if self.now@ >= passed {
                (self.now@ - passed) as nat
            } else {
                self.now@
            }
        }
    }
}

/// The moment that a time of the host stands for, none for zero.
pub fn host_time_to_instant(host_time: u64, clock: HostClock) -> (instant: Option<Instant>)
    requires
        clock.in_range(),
    ensures
        match instant {
            Some(instant) => host_time != 0 && instant@ == clock.moment(host_time),
            None => host_time == 0,
        },
{
    if host_time == 0 {
        return None;
    }
    if host_time >= clock.now_host_time {
        let ahead: Duration = mach_duration(host_time - clock.now_host_time, clock.timebase);
        Some(clock.now.after(ahead))
    } else {
        let passed: Duration = mach_duration(clock.now_host_time - host_time, clock.timebase);
        match clock.now.checked_sub(passed) {
            Some(instant) => Some(instant),
            None => Some(clock.now),
        }
    }
}

/// The number of a refresh, as far as it can be counted.
pub open spec fn vsync_number(sequence_number: u64, candidate: nat) -> i64 {
    time::at_most(sequence_number as nat + candidate, i64::MAX as nat) as i64
}

/// The deadlines are those of the next refreshes.
pub open spec fn are_next_refreshes(
    deadlines: PossibleDeadlines,
    sequence_number: u64,
    interval: nat,
    first_present_delta: nat,
) -> bool {
    &&& deadlines.os_preferred_index == 0
    &&& deadlines.deadlines@.len() == FORWARD_VSYNC_CANDIDATES
    &&& forall|candidate: int|
        0 <= candidate < FORWARD_VSYNC_CANDIDATES ==> {
            let deadline = #[trigger] deadlines.deadlines@[candidate];
            &&& deadline.vsync_id == vsync_number(sequence_number, candidate as nat)
            &&& deadline.present_delta@ == first_present_delta + time::at_most(
                interval * (candidate as nat),
                MAX_DURATION_NANOS as nat,
            )
            &&& deadline.latch_delta == deadline.present_delta
        }
}

/// The deadlines that are offered for a frame: the next refresh, which the platform
/// prefers, and those after it.
pub fn possible_deadlines_for_frame(
    sequence_number: u64,
    interval: Duration,
    first_present_delta: Duration,
) -> (deadlines: PossibleDeadlines)
    requires
        first_present_delta@ + 2 * interval@ <= MAX_DURATION_NANOS,
    ensures
        are_next_refreshes(deadlines, sequence_number, interval@, first_present_delta@),
{
    let mut deadlines: Vec<PossibleDeadline> = Vec::new();
    let mut candidate: u32 = 0;
    while candidate < FORWARD_VSYNC_CANDIDATES
        invariant
            candidate <= FORWARD_VSYNC_CANDIDATES,
            deadlines@.len() == candidate,
            first_present_delta@ + 2 * interval@ <= MAX_DURATION_NANOS,
            forall|done: int|
                0 <= done < candidate ==> {
                    let deadline = #[trigger] deadlines@[done];
                    &&& deadline.vsync_id == vsync_number(sequence_number, done as nat)
                    &&& deadline.present_delta@ == first_present_delta@ + time::at_most(
                        interval@ * (done as nat),
                        MAX_DURATION_NANOS as nat,
                    )
                    &&& deadline.latch_delta == deadline.present_delta
                },
        decreases FORWARD_VSYNC_CANDIDATES - candidate,
    {
        proof {
            let length = interval@ as int;
            let count = candidate as int;
            assert(0 <= length * count <= 2 * length) by (nonlinear_arith)
                requires
                    0 <= length,
                    0 <= count <= 2,
            ;
        }
        let present_delta: Duration = first_present_delta.saturating_add(
            interval.saturating_mul(candidate),
        );
        let number: u64 = if sequence_number > 9_223_372_036_854_775_807 - candidate as u64 {
            9_223_372_036_854_775_807
        } else {
            sequence_number + candidate as u64
        };
        deadlines.push(
            PossibleDeadline {
                vsync_id: number as i64,
                latch_delta: present_delta,
                present_delta,
            },
        );
        candidate = candidate + 1;
    }
    PossibleDeadlines { os_preferred_index: 0, deadlines }
}

/// What the display link tells about the next frame.
#[derive(Clone, Debug, PartialEq, Eq)]
pub struct DisplayLinkTiming {
    pub begin_frame: BeginFrameArgs,
    pub predicted_display_time: Instant,
    pub frame_interval: Option<Duration>,
    pub frame_deadline: Instant,
}

/// A display that tells about its refreshes.
#[derive(Clone, Copy, Debug, PartialEq, Eq, Structural)]
pub struct DisplayLink {
    pub source_id: u64,
    pub latest_params: VSyncParams,
}

impl DisplayLink {
    /// How long a refresh is taken to be, in nanoseconds.
    pub open spec fn interval_nanos(&self) -> nat {
        if self.latest_params.interval_ns == 0 {
            (DEFAULT_INTERVAL_MICROS * 1000) as nat
        } else {
            self.latest_params.interval_ns as nat
        }
    }

    /// The display told when it told, before the moment of display.
    pub open spec fn has_callback_time(&self) -> bool {
        &&& self.latest_params.callback_host_time != 0
        &&& self.latest_params.callback_host_time < self.latest_params.display_host_time
    }

    /// When the frame starts: when the display told, else one refresh before it is
    /// displayed.
    pub open spec fn frame_time(&self, display_clock: HostClock, callback_clock: HostClock) -> nat {
        let displayed = display_clock.moment(self.latest_params.display_host_time);
        if self.has_callback_time() {
            callback_clock.moment(self.latest_params.callback_host_time)
        } else if displayed >= self.interval_nanos() {
            (displayed - self.interval_nanos()) as nat
        } else {
            displayed
        }
    }

    /// How long after its start the frame is displayed at the earliest.
    pub open spec fn first_present_delta(
        &self,
        display_clock: HostClock,
        callback_clock: HostClock,
    ) -> nat {
        if self.has_callback_time() {
            time::saturating_difference(
                display_clock.moment(self.latest_params.display_host_time),
                callback_clock.moment(self.latest_params.callback_host_time),
            )
        } else {
            self.interval_nanos()
        }
    }

    /// A display link that nothing was told by yet.
    pub fn new(display_id: u32, initial_sequence_number: u64) -> (link: Self)
        ensures
            link.source_id == display_id,
            link.latest_params == (VSyncParams {
                sequence_number: initial_sequence_number,
                callback_host_time: 0,
                display_host_time: 0,
                interval_ns: 0,
            }),
    {
        DisplayLink {
            source_id: display_id as u64,
            latest_params: VSyncParams::new(initial_sequence_number),
        }
    }

    /// The source of the frames that are announced.
    pub fn source_id(&self) -> (source_id: u64)
        ensures
            source_id == self.source_id,
    {
        self.source_id
    }

    /// When the next frame is displayed, as soon as the display told.
    pub fn latest_output_time(&self, clock: HostClock) -> (time: Option<Instant>)
        requires
            clock.in_range(),
        ensures
            match time {
                Some(time) => self.latest_params.display_host_time != 0 && time@ == clock.moment(
                    self.latest_params.display_host_time,
                ),
                None => self.latest_params.display_host_time == 0,
            },
    {
        if !self.latest_params.is_valid() {
            return None;
        }
        host_time_to_instant(self.latest_params.display_host_time, clock)
    }

    /// What is known about the next frame, as soon as the display told: the clocks
    /// are read once for the moment of display and once for the moment at which the
    /// display told.
    pub fn latest_timing(&self, display_clock: HostClock, callback_clock: HostClock) -> (timing:
        Option<DisplayLinkTiming>)
        requires
            display_clock.in_range(),
            callback_clock.in_range(),
            self.first_present_delta(display_clock, callback_clock) + 2 * self.interval_nanos()
                <= MAX_DURATION_NANOS,
        ensures
            match timing {
                None => self.latest_params.display_host_time == 0,
                Some(timing) => {
                    let displayed = display_clock.moment(self.latest_params.display_host_time);
                    let args = timing.begin_frame;
                    &&& self.latest_params.display_host_time != 0
                    &&& timing.predicted_display_time@ == displayed
                    &&& timing.frame_deadline == timing.predicted_display_time
                    &&& match timing.frame_interval {
                        Some(interval) => self.latest_params.interval_ns != 0 && interval@
                            == self.latest_params.interval_ns,
                        None => self.latest_params.interval_ns == 0,
                    }
                    &&& args.id == (BeginFrameId {
                        source_id: self.source_id,
                        sequence_number: self.latest_params.sequence_number,
                    })
                    &&& args.frame_time@ == self.frame_time(display_clock, callback_clock)
                    &&& args.deadline == timing.predicted_display_time
                    &&& args.interval@ == self.interval_nanos()
                    &&& !args.missed
                    &&& args.possible_deadlines matches Some(deadlines) && are_next_refreshes(
                        deadlines,
                        self.latest_params.sequence_number,
                        self.interval_nanos(),
                        self.first_present_delta(display_clock, callback_clock),
                    )
                },
            },
    {
        let params: VSyncParams = self.latest_params;
        if !params.is_valid() {
            return None;
        }
        let frame_interval: Option<Duration> = params.interval();
        let interval: Duration = match frame_interval {
            Some(interval) => interval,
            None => Duration::from_micros(DEFAULT_INTERVAL_MICROS),
        };
        let predicted_display_time: Instant = match host_time_to_instant(
            params.display_host_time,
            display_clock,
        ) {
            Some(instant) => instant,
            None => {
                return None;
            },
        };
        let frame_time: Instant;
        let first_present_delta: Duration;
        if params.callback_host_time != 0 && params.callback_host_time < params.display_host_time {
            frame_time =
            match host_time_to_instant(params.callback_host_time, callback_clock) {
                Some(instant) => instant,
                None => predicted_display_time,
            };
            first_present_delta = predicted_display_time.saturating_duration_since(frame_time);
        } else {
            frame_time =
            match predicted_display_time.checked_sub(interval) {
                Some(instant) => instant,
                None => predicted_display_time,
            };
            first_present_delta = interval;
        }
        let possible_deadlines: PossibleDeadlines = possible_deadlines_for_frame(
            params.sequence_number,
            interval,
            first_present_delta,
        );
        Some(
            DisplayLinkTiming {
                begin_frame: BeginFrameArgs {
                    id: BeginFrameId {
                        source_id: self.source_id,
                        sequence_number: params.sequence_number,
                    },
                    frame_time,
                    deadline: predicted_display_time,
                    interval,
                    missed: false,
                    possible_deadlines: Some(possible_deadlines),
                },
                predicted_display_time,
                frame_interval,
                frame_deadline: predicted_display_time,
            },
        )
    }
}

/// The refreshes that are offered come one interval after the other, and their
/// numbers do not fall.
pub proof fn law_deadlines_follow_one_another(
    deadlines: PossibleDeadlines,
    sequence_number: u64,
    interval: nat,
    first_present_delta: nat,
)
    requires
        are_next_refreshes(deadlines, sequence_number, interval, first_present_delta),
        2 * interval <= MAX_DURATION_NANOS,
    ensures
        deadlines.is_ordered(),
        deadlines.deadlines@[0].present_delta@ == first_present_delta,
        deadlines.deadlines@[1].present_delta@ == first_present_delta + interval,
        deadlines.deadlines@[2].present_delta@ == first_present_delta + 2 * interval,
        deadlines.deadlines@[0].vsync_id <= deadlines.deadlines@[1].vsync_id
            <= deadlines.deadlines@[2].vsync_id,
{
    assert(interval * 0 == 0);
    assert(interval * 1 == interval);
    assert(interval * 2 == 2 * interval);
}

/// A time of the host ahead of the clock stands for a moment ahead of it, and one
/// behind for a moment that is not ahead.
pub proof fn law_host_times_keep_their_side(clock: HostClock, host_time: u64)
    ensures
        host_time >= clock.now_host_time ==> clock.moment(host_time) >= clock.now@,
        host_time <= clock.now_host_time ==> clock.moment(host_time) <= clock.now@,
{
    if host_time == clock.now_host_time {
        assert(0 * (clock.timebase.numerator as nat) == 0);
        assert(0nat / clock.timebase.divisor() == 0) by (nonlinear_arith)
            requires
                clock.timebase.divisor() > 0,
        ;
    }
}

} // verus!
