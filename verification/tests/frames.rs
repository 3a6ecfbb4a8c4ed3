use editor_platform::frames::begin_frame::{
    begin_frame_follows_ack, begin_frame_follows_last_used, BeginFrameAck, BeginFrameArgs,
    BeginFrameId, BeginFrameObserver, BeginFrameObserverState, RequestFrameOptions,
};
use editor_platform::frames::deadlines::{
    FrameDeadlineDecider, PossibleDeadline, PossibleDeadlines,
};
use editor_platform::frames::display_link::{
    host_time_to_instant, mach_duration, possible_deadlines_for_frame, DisplayLink, HostClock,
    TimeStamp, Timebase, VSyncParams, HOST_TIME_VALID, VIDEO_REFRESH_PERIOD_VALID,
};
use editor_platform::frames::swaps::{
    max_pending_swaps_for_deadline, max_pending_swaps_for_refresh_rate, RefreshRateSwapCaps,
};
use editor_platform::time::{Duration, Instant};

fn instant(millis: u128) -> Instant {
    Instant::from_nanos(millis * 1_000_000)
}

fn nanos(nanos: u128) -> Duration {
    Duration::from_nanos(nanos)
}

fn deadline(vsync_id: i64, delta_ms: u64) -> PossibleDeadline {
    PossibleDeadline {
        vsync_id,
        latch_delta: Duration::from_millis(delta_ms),
        present_delta: Duration::from_millis(delta_ms),
    }
}

fn deadlines(os_pref: usize, deltas_ms: &[u64]) -> PossibleDeadlines {
    PossibleDeadlines {
        os_preferred_index: os_pref,
        deadlines: deltas_ms
            .iter()
            .enumerate()
            .map(|(i, &ms)| deadline(i as i64, ms))
            .collect(),
    }
}

#[test]
fn possible_deadlines_returns_os_preferred_candidate() {
    let possible_deadlines = PossibleDeadlines {
        os_preferred_index: 1,
        deadlines: vec![
            PossibleDeadline {
                vsync_id: 10,
                latch_delta: Duration::from_millis(8),
                present_delta: Duration::from_millis(16),
            },
            PossibleDeadline {
                vsync_id: 11,
                latch_delta: Duration::from_millis(24),
                present_delta: Duration::from_millis(32),
            },
        ],
    };

    assert_eq!(
        possible_deadlines.os_preferred_deadline(),
        Some(&PossibleDeadline {
            vsync_id: 11,
            latch_delta: Duration::from_millis(24),
            present_delta: Duration::from_millis(32),
        })
    );
}

#[test]
fn possible_deadlines_returns_none_for_invalid_os_preferred_index() {
    let possible_deadlines = PossibleDeadlines {
        os_preferred_index: 1,
        deadlines: vec![PossibleDeadline {
            vsync_id: 10,
            latch_delta: Duration::from_millis(8),
            present_delta: Duration::from_millis(16),
        }],
    };

    assert_eq!(possible_deadlines.os_preferred_deadline(), None);
}

#[test]
fn decider_platform_preferred_short_circuits() {
    let mut decider = FrameDeadlineDecider::new(true);
    let pd = deadlines(2, &[16, 32, 48]);
    let index = decider.select_deadline(&pd, Duration::from_millis(16), 3, instant(1000), None);
    assert_eq!(index, 2);
}

#[test]
fn decider_new_sequence_selects_within_buffer_budget() {
    let mut decider = FrameDeadlineDecider::new(false);
    let pd = deadlines(0, &[16, 32, 48, 64]);
    let now = instant(1000);
    let index = decider.select_deadline(&pd, Duration::from_millis(16), 3, now, None);
    assert_eq!(index, 2);
}

#[test]
fn decider_in_sequence_sticks_to_closest_present_delta() {
    let mut decider = FrameDeadlineDecider::new(false);
    let pd = deadlines(0, &[16, 32, 48, 64]);
    let now = instant(1000);

    let first = decider.select_deadline(&pd, Duration::from_millis(16), 3, now, None);
    assert_eq!(first, 2);

    let second = decider.select_deadline(&pd, Duration::from_millis(16), 1, now, None);
    assert_eq!(second, 2);
}

#[test]
fn decider_on_go_idle_resets_sequence() {
    let mut decider = FrameDeadlineDecider::new(false);
    let pd = deadlines(0, &[16, 32, 48, 64]);
    let now = instant(1000);

    decider.select_deadline(&pd, Duration::from_millis(16), 3, now, None);
    decider.on_go_idle();

    let index = decider.select_deadline(&pd, Duration::from_millis(16), 1, now, None);
    assert_eq!(index, 0);
}

#[test]
fn idle_deciders_answer_like_new_ones() {
    let now = instant(1000);
    let interval = Duration::from_millis(16);
    let mut idle = FrameDeadlineDecider::new(false);
    idle.select_deadline(&deadlines(0, &[16, 32, 48, 64]), interval, 3, now, None);
    idle.on_go_idle();
    let mut new = FrameDeadlineDecider::new(false);
    for deltas in [vec![48, 16, 64, 32], vec![64, 48, 32, 16], vec![16, 32], vec![80]] {
        for buffers in 1..=3 {
            let offered = deadlines(1, &deltas);
            assert_eq!(
                idle.select_deadline(&offered, interval, buffers, now, None),
                new.select_deadline(&offered, interval, buffers, now, None)
            );
        }
    }
}

#[test]
fn decider_input_aware_cap_clamps_target_down() {
    let mut decider = FrameDeadlineDecider::new(false);
    let pd = deadlines(0, &[16, 32, 48]);
    let frame_time = instant(1000);
    let earliest_input = instant(1000 - 80);

    let index = decider.select_deadline(
        &pd,
        Duration::from_millis(16),
        3,
        frame_time,
        Some(earliest_input),
    );
    assert_eq!(index, 0);
}

#[test]
fn decider_input_aware_cap_partial_clamp() {
    let mut decider = FrameDeadlineDecider::new(false);
    let pd = deadlines(0, &[10, 25, 40, 55]);
    let frame_time = instant(1000);
    let earliest_input = instant(1000 - 50);

    let index = decider.select_deadline(
        &pd,
        Duration::from_millis(16),
        3,
        frame_time,
        Some(earliest_input),
    );
    assert_eq!(index, 1);
}

#[test]
fn decider_falls_back_to_os_preferred_when_chrome_exceeds_target() {
    let mut decider = FrameDeadlineDecider::new(false);
    let pd = deadlines(1, &[32, 48, 64]);
    let now = instant(1000);

    let index = decider.select_deadline(&pd, Duration::from_millis(16), 1, now, None);
    assert_eq!(index, 1);
}

#[test]
fn max_pending_swaps_for_deadline_matches_chromium_formula() {
    assert_eq!(
        max_pending_swaps_for_deadline(Duration::from_millis(48), Duration::from_millis(16)),
        3
    );
    assert_eq!(
        max_pending_swaps_for_deadline(Duration::from_millis(32), Duration::from_millis(16)),
        2
    );
    assert_eq!(
        max_pending_swaps_for_deadline(Duration::from_millis(16), Duration::from_millis(16)),
        1
    );
}

#[test]
fn swaps_are_counted_in_double_precision() {
    let counted = |delta: u128, interval: u128| {
        (((delta as f64) + 0.8 * (interval as f64)) / (interval as f64)) as u32
    };
    let longest = 18_446_744_073_709_551_615_999_999_999u128;
    let mut spans = vec![1, 2, 3, 5, 7, 1_000, 16_666_667, longest, longest - 1, longest / 3];
    let mut seed = 88_172_645_463_325_252u64;
    for bits in 1..94 {
        for _ in 0..4 {
            seed ^= seed << 13;
            seed ^= seed >> 7;
            seed ^= seed << 17;
            let random = ((seed as u128) << 64 | (seed.rotate_left(29) as u128)) >> (128 - bits);
            spans.push(random.clamp(1, longest));
        }
    }
    for &interval in &spans {
        for &delta in &spans {
            assert_eq!(
                max_pending_swaps_for_deadline(nanos(delta), nanos(interval)),
                counted(delta, interval),
                "{delta} over {interval}"
            );
        }
        for frames in [0, 1, 2, 3, 100, 4_294_967_294, 4_294_967_295, 4_294_967_296] {
            for off in [0, 1, interval / 5, interval / 5 + 1, interval - 1] {
                let delta = (interval.saturating_mul(frames)).saturating_add(off).min(longest);
                assert_eq!(
                    max_pending_swaps_for_deadline(nanos(delta), nanos(interval)),
                    counted(delta, interval),
                    "{delta} over {interval}"
                );
            }
        }
    }
}

#[test]
fn max_pending_swaps_for_deadline_returns_one_for_zero_interval() {
    assert_eq!(
        max_pending_swaps_for_deadline(Duration::from_millis(16), Duration::zero()),
        1
    );
}

#[test]
fn refresh_rate_swap_caps_uses_120hz_tier_at_8_5ms_interval() {
    let caps = RefreshRateSwapCaps {
        max_pending_swaps: 2,
        max_pending_swaps_120hz: Some(3),
        max_pending_swaps_90hz: None,
        max_pending_swaps_72hz: None,
    };
    assert_eq!(
        max_pending_swaps_for_refresh_rate(Duration::from_micros(8500), &caps),
        2,
    );
    assert_eq!(
        max_pending_swaps_for_refresh_rate(Duration::from_micros(8499), &caps),
        3,
    );
}

#[test]
fn refresh_rate_swap_caps_uses_default_below_all_tiers() {
    let caps = RefreshRateSwapCaps {
        max_pending_swaps: 2,
        max_pending_swaps_120hz: Some(3),
        max_pending_swaps_90hz: Some(3),
        max_pending_swaps_72hz: Some(3),
    };
    assert_eq!(
        max_pending_swaps_for_refresh_rate(Duration::from_micros(16667), &caps),
        2
    );
}

#[test]
fn refresh_rate_swap_caps_falls_back_when_tier_is_none() {
    let caps = RefreshRateSwapCaps {
        max_pending_swaps: 2,
        max_pending_swaps_120hz: None,
        max_pending_swaps_90hz: None,
        max_pending_swaps_72hz: None,
    };
    assert_eq!(
        max_pending_swaps_for_refresh_rate(Duration::from_micros(8000), &caps),
        2
    );
}

#[test]
fn refresh_rates_between_the_tiers_use_their_caps() {
    let caps = RefreshRateSwapCaps {
        max_pending_swaps: 2,
        max_pending_swaps_120hz: Some(5),
        max_pending_swaps_90hz: Some(4),
        max_pending_swaps_72hz: Some(3),
    };
    let cap = |micros| max_pending_swaps_for_refresh_rate(Duration::from_micros(micros), &caps);
    assert_eq!(cap(8499), 5);
    assert_eq!(cap(8500), 4);
    assert_eq!(cap(11499), 4);
    assert_eq!(cap(11500), 3);
    assert_eq!(cap(13999), 3);
    assert_eq!(cap(14000), 2);
}

#[test]
fn possible_deadlines_include_os_preferred_and_forward_vsync_candidates() {
    let interval = Duration::from_millis(8);
    let deadlines = possible_deadlines_for_frame(42, interval, Duration::from_millis(10));

    assert_eq!(deadlines.os_preferred_index, 0);
    assert_eq!(
        deadlines.deadlines,
        vec![
            PossibleDeadline {
                vsync_id: 42,
                latch_delta: Duration::from_millis(10),
                present_delta: Duration::from_millis(10),
            },
            PossibleDeadline {
                vsync_id: 43,
                latch_delta: Duration::from_millis(18),
                present_delta: Duration::from_millis(18),
            },
            PossibleDeadline {
                vsync_id: 44,
                latch_delta: Duration::from_millis(26),
                present_delta: Duration::from_millis(26),
            },
        ]
    );
    assert_eq!(
        deadlines.os_preferred_deadline(),
        Some(&PossibleDeadline {
            vsync_id: 42,
            latch_delta: Duration::from_millis(10),
            present_delta: Duration::from_millis(10),
        })
    );
}

#[test]
fn possible_deadlines_clamp_vsync_id_on_overflow() {
    let deadlines = possible_deadlines_for_frame(
        u64::MAX,
        Duration::from_millis(8),
        Duration::from_millis(8),
    );

    assert_eq!(deadlines.deadlines[0].vsync_id, i64::MAX);
    assert_eq!(deadlines.deadlines[1].vsync_id, i64::MAX);
}

fn clock(millis: u128, ticks: u64) -> HostClock {
    HostClock {
        now: instant(millis),
        now_host_time: ticks,
        timebase: Timebase {
            numerator: 125,
            denominator: 3,
        },
    }
}

#[test]
fn ticks_are_counted_in_nanoseconds() {
    let timebase = Timebase {
        numerator: 125,
        denominator: 3,
    };
    assert_eq!(mach_duration(24_000, timebase), Duration::from_millis(1));
    assert_eq!(mach_duration(1, timebase).as_nanos(), 41);
    let broken = Timebase {
        numerator: 7,
        denominator: 0,
    };
    assert_eq!(mach_duration(3, broken).as_nanos(), 21);
    assert_eq!(
        mach_duration(u64::MAX, timebase).as_nanos(),
        u64::MAX as u128
    );
}

#[test]
fn host_times_stand_for_moments_on_their_side_of_now() {
    let clock = clock(1000, 48_000);
    assert_eq!(host_time_to_instant(0, clock), None);
    assert_eq!(host_time_to_instant(72_000, clock), Some(instant(1001)));
    assert_eq!(host_time_to_instant(24_000, clock), Some(instant(999)));
    assert_eq!(host_time_to_instant(48_000, clock), Some(instant(1000)));
    let early = HostClock {
        now: Instant::from_nanos(5),
        ..clock
    };
    assert_eq!(
        host_time_to_instant(24_000, early),
        Some(Instant::from_nanos(5))
    );
}

fn stamp(host_time: u64, flags: u64) -> TimeStamp {
    TimeStamp {
        video_time_scale: 600,
        video_refresh_period: 10,
        host_time,
        flags,
    }
}

#[test]
fn refreshes_are_recorded_in_one_piece() {
    let mut params = VSyncParams::new(7);
    assert!(!params.is_valid());
    assert_eq!(params.interval(), None);

    let valid = HOST_TIME_VALID | VIDEO_REFRESH_PERIOD_VALID;
    params.record_refresh(Some(stamp(100, valid)), Some(stamp(200, valid)));
    assert_eq!(
        params,
        VSyncParams {
            sequence_number: 8,
            callback_host_time: 100,
            display_host_time: 200,
            interval_ns: 16_666_666,
        }
    );
    assert!(params.is_valid());
    assert_eq!(params.interval(), Some(Duration::from_nanos(16_666_666)));

    params.record_refresh(Some(stamp(300, 0)), None);
    assert_eq!(
        params,
        VSyncParams {
            sequence_number: 9,
            callback_host_time: 0,
            display_host_time: 0,
            interval_ns: 0,
        }
    );

    let mut last = VSyncParams::new(u64::MAX);
    last.record_refresh(None, None);
    assert_eq!(last.sequence_number, 0);
}

#[test]
fn display_link_announces_frames_from_the_callback_time() {
    let mut link = DisplayLink::new(3, 41);
    assert_eq!(link.source_id(), 3);
    assert_eq!(link.latest_timing(clock(1000, 48_000), clock(1000, 48_000)), None);
    assert_eq!(link.latest_output_time(clock(1000, 48_000)), None);

    let valid = HOST_TIME_VALID | VIDEO_REFRESH_PERIOD_VALID;
    link.latest_params
        .record_refresh(Some(stamp(48_000, valid)), Some(stamp(288_000, valid)));
    let timing = link
        .latest_timing(clock(1000, 48_000), clock(1000, 48_000))
        .unwrap();
    assert_eq!(
        link.latest_output_time(clock(1000, 48_000)),
        Some(instant(1010))
    );
    assert_eq!(timing.predicted_display_time, instant(1010));
    assert_eq!(timing.frame_deadline, instant(1010));
    assert_eq!(timing.frame_interval, Some(Duration::from_nanos(16_666_666)));
    let args: BeginFrameArgs = timing.begin_frame;
    assert_eq!(
        args.id,
        BeginFrameId {
            source_id: 3,
            sequence_number: 42,
        }
    );
    assert_eq!(args.frame_time, instant(1000));
    assert_eq!(args.deadline, instant(1010));
    assert!(!args.missed);
    let possible = args.possible_deadlines.unwrap();
    assert_eq!(possible.deadlines[0].present_delta, Duration::from_millis(10));
    assert_eq!(
        possible.deadlines[1].present_delta,
        Duration::from_nanos(26_666_666)
    );
    assert_eq!(possible.deadlines[2].vsync_id, 44);
}

#[test]
fn display_link_falls_back_to_one_interval_before_the_display() {
    let mut link = DisplayLink::new(3, 0);
    link.latest_params
        .record_refresh(None, Some(stamp(288_000, HOST_TIME_VALID)));
    let timing = link
        .latest_timing(clock(1000, 48_000), clock(1000, 48_000))
        .unwrap();
    assert_eq!(timing.frame_interval, None);
    assert_eq!(timing.begin_frame.interval, Duration::from_micros(16_667));
    assert_eq!(
        timing.begin_frame.frame_time.as_nanos(),
        1_010_000_000 - 16_667_000
    );
}

fn announced(source_id: u64, sequence_number: u64, millis: u128, missed: bool) -> BeginFrameArgs {
    BeginFrameArgs {
        id: BeginFrameId { source_id, sequence_number },
        frame_time: instant(millis),
        deadline: instant(millis + 8),
        interval: Duration::from_millis(16),
        missed,
        possible_deadlines: None,
    }
}

#[test]
fn frames_move_forward_within_a_source() {
    let last = announced(1, 5, 100, false);
    let follows = |frame: &BeginFrameArgs| begin_frame_follows_last_used(frame, Some(&last), false);
    assert!(follows(&announced(1, 6, 101, false)));
    assert!(!follows(&announced(1, 5, 101, false)));
    assert!(!follows(&announced(1, 6, 100, false)));
    assert!(follows(&announced(2, 1, 101, false)));
    assert!(!follows(&announced(2, 9, 99, false)));
    assert!(begin_frame_follows_last_used(&announced(1, 1, 1, false), None, false));
}

#[test]
fn missed_frames_may_be_announced_again() {
    let last = announced(1, 5, 100, false);
    let missed = announced(1, 5, 100, true);
    assert!(begin_frame_follows_last_used(&missed, Some(&last), true));
    assert!(!begin_frame_follows_last_used(&missed, Some(&last), false));
    assert!(!begin_frame_follows_last_used(&last, Some(&last), true));
    assert!(!begin_frame_follows_last_used(&announced(1, 4, 90, true), Some(&last), true));
}

#[test]
fn finished_frames_are_not_announced_again() {
    let frame = announced(1, 5, 100, false);
    let ack = BeginFrameAck { frame_id: frame.id, frame_time: frame.frame_time, has_damage: true };
    assert!(!begin_frame_follows_ack(&frame, Some(ack)));
    assert!(begin_frame_follows_ack(&announced(1, 6, 116, false), Some(ack)));
    assert!(begin_frame_follows_ack(&frame, None));
}

#[test]
fn observers_remember_what_they_used_and_dropped() {
    let mut state = BeginFrameObserverState::default();
    assert_eq!(state.last_used_begin_frame(), None);
    let first = announced(1, 5, 100, false);
    assert!(state.should_issue_begin_frame(&first, false));
    state.record_begin_frame_result(first.clone(), true);
    assert_eq!(state.last_used_begin_frame(), Some(&first));
    assert!(!state.should_issue_begin_frame(&first, false));
    let second = announced(1, 6, 116, false);
    state.record_begin_frame_result(second.clone(), false);
    assert_eq!(state.dropped_begin_frame_args(), 1);
    assert_eq!(state.last_used_begin_frame(), Some(&first));
    assert!(state.should_issue_begin_frame(&second, false));
}

struct Greedy {
    seen: u64,
}

impl BeginFrameObserver for Greedy {
    fn on_begin_frame(&mut self, _args: BeginFrameArgs) -> bool {
        self.seen += 1;
        true
    }

    fn last_used_begin_frame(&self) -> Option<BeginFrameArgs> {
        None
    }
}

#[test]
fn observers_want_more_than_animations() {
    let mut observer = Greedy { seen: 0 };
    assert!(!observer.wants_animate_only_begin_frames());
    observer.on_begin_frame_source_paused_changed(true);
    assert!(observer.on_begin_frame(announced(1, 1, 1, false)));
    assert_eq!(observer.seen, 1);
    let options = RequestFrameOptions::default();
    assert!(options.begin_frame.is_none() && !options.require_presentation);
}
