use editor_platform::frames::swaps::{SwapCompletionFeedback, SwapCompletionResult};
use editor_platform::geometry::{
    point, size, Bounds, DevicePixels, ScaledPixels, Size, UNITS_PER_PIXEL,
};
use editor_platform::present::damage::{
    clamp_damage, full_texture_bounds, plan_redraw, restore_failed_buffer_damage, scene_damage,
    scaled_damage_to_device_bounds, scissor_for_damage, RedrawPlan, ScissorRect,
};
use editor_platform::present::draw::{
    choose_buffer, damage_to_draw, start_frame, BufferChoice, FrameStart,
};
use editor_platform::present::feedback::{
    decrement_pending_swap_count, estimated_display_time_for_latch,
    iosurface_backpressure_fence_is_signaled, media_time_to_instant,
    presentation_feedback_for_dropped_frame, presentation_feedback_for_iosurface_frame,
    presentation_feedback_from_display_time, should_commit_ready_iosurface_frame_immediately,
    swap_completion_result_for_iosurface_frame, FrameDisplayTiming,
};
use editor_platform::present::layer_tree::{
    choose_topology, deallocates_port, recreates_ca_context, remote_layer_api_supported,
    FencePorts, FenceSupport, LayerTopology, RemoteLayerSupport, NULL_PORT,
};
use editor_platform::present::presenter::{
    CoreAnimationPresenter, PresenterListeners, Submission,
};
use editor_platform::present::queue::IosurfaceSubmissionQueue;
use editor_platform::time::{Duration, Instant};

fn device(x: i32, y: i32, width: i32, height: i32) -> Bounds<DevicePixels> {
    Bounds {
        origin: point(DevicePixels(x), DevicePixels(y)),
        size: size(DevicePixels(width), DevicePixels(height)),
    }
}

fn surface(width: i32, height: i32) -> Size<DevicePixels> {
    size(DevicePixels(width), DevicePixels(height))
}

fn scaled(pixels: f64) -> ScaledPixels {
    ScaledPixels((pixels * UNITS_PER_PIXEL as f64) as i64)
}

fn scaled_bounds(x: f64, y: f64, width: f64, height: f64) -> Bounds<ScaledPixels> {
    Bounds {
        origin: point(scaled(x), scaled(y)),
        size: size(scaled(width), scaled(height)),
    }
}

fn instant(micros: u128) -> Instant {
    Instant::from_nanos(micros * 1_000)
}

fn everyone() -> PresenterListeners {
    PresenterListeners {
        deferred_frame: true,
        swap_completion: true,
        presentation_feedback: true,
    }
}

#[test]
fn scaled_damage_to_device_bounds_encloses_fractional_damage() {
    let damage = Bounds {
        origin: point(scaled(1.25), scaled(2.75)),
        size: size(scaled(3.5), scaled(4.125)),
    };

    assert_eq!(
        scaled_damage_to_device_bounds(damage),
        Bounds {
            origin: point(DevicePixels(1), DevicePixels(2)),
            size: size(DevicePixels(4), DevicePixels(5)),
        }
    );
}

#[test]
fn scene_damage_preserves_empty_damage() {
    assert_eq!(
        scene_damage(None, size(DevicePixels(100), DevicePixels(50))),
        None
    );
}

#[test]
fn scene_damage_keeps_what_lies_on_the_surface() {
    assert_eq!(
        scene_damage(Some(scaled_bounds(90.5, -2.0, 40.0, 4.5)), surface(100, 50)),
        Some(device(90, 0, 10, 3))
    );
    assert_eq!(
        scene_damage(Some(scaled_bounds(120.0, 0.0, 5.0, 5.0)), surface(100, 50)),
        None
    );
}

#[test]
fn negative_damage_is_rounded_outward() {
    assert_eq!(
        scaled_damage_to_device_bounds(scaled_bounds(-1.5, -0.25, 2.0, 0.5)),
        device(-2, -1, 3, 2)
    );
}

#[test]
fn decrement_pending_swap_count_saturates_at_zero() {
    let mut pending_swap_count = 0;
    decrement_pending_swap_count(&mut pending_swap_count);
    assert_eq!(pending_swap_count, 0);

    pending_swap_count = 2;
    decrement_pending_swap_count(&mut pending_swap_count);
    assert_eq!(pending_swap_count, 1);
}

#[test]
fn restore_failed_buffer_damage_unions_submitted_damage() {
    let mut buffer_damage = device(10, 10, 5, 5);
    let submitted_damage = device(20, 12, 4, 6);

    restore_failed_buffer_damage(&mut buffer_damage, submitted_damage);

    assert_eq!(buffer_damage, device(10, 10, 14, 8));
}

#[test]
fn restore_failed_buffer_damage_ignores_empty_submitted_damage() {
    let original_damage = device(10, 10, 5, 5);
    let mut buffer_damage = original_damage;

    restore_failed_buffer_damage(&mut buffer_damage, device(0, 0, 0, 0));

    assert_eq!(buffer_damage, original_damage);
}

#[test]
fn restored_damage_spans_the_corner_of_an_empty_one() {
    let mut buffer_damage = device(7, 7, 0, 3);
    restore_failed_buffer_damage(&mut buffer_damage, device(20, 12, 4, 6));
    assert_eq!(buffer_damage, device(7, 7, 17, 11));
}

#[test]
fn swap_completion_result_tracks_iosurface_commit_result() {
    assert_eq!(
        swap_completion_result_for_iosurface_frame(true),
        SwapCompletionResult::Ack
    );
    assert_eq!(
        swap_completion_result_for_iosurface_frame(false),
        SwapCompletionResult::Skipped
    );
}

#[test]
fn iosurface_commit_cadence_delays_when_queue_has_backlog() {
    assert!(should_commit_ready_iosurface_frame_immediately(0, false));
    assert!(should_commit_ready_iosurface_frame_immediately(1, false));
    assert!(!should_commit_ready_iosurface_frame_immediately(2, false));
}

#[test]
fn iosurface_commit_cadence_delays_interaction_frames_until_vsync() {
    assert!(!should_commit_ready_iosurface_frame_immediately(0, true));
    assert!(!should_commit_ready_iosurface_frame_immediately(1, true));
    assert!(!should_commit_ready_iosurface_frame_immediately(2, true));
}

#[test]
fn iosurface_backpressure_fence_uses_monotonic_signal_values() {
    assert!(!iosurface_backpressure_fence_is_signaled(1, 2));
    assert!(iosurface_backpressure_fence_is_signaled(2, 2));
    assert!(iosurface_backpressure_fence_is_signaled(3, 2));
}

#[test]
fn iosurface_submission_queue_waits_for_ready_front() {
    let mut queue = IosurfaceSubmissionQueue::default();
    queue.push(1, "first");
    queue.push(2, "second");

    assert!(queue.mark_ready_with(2, |_| {}));
    assert_eq!(queue.pop_ready_front(), None);

    assert!(queue.mark_ready_with(1, |_| {}));
    assert_eq!(queue.pop_ready_front(), Some("first"));
    assert_eq!(queue.pop_ready_front(), Some("second"));
}

#[test]
fn iosurface_submission_queue_removing_failed_front_unblocks_ready_frame() {
    let mut queue = IosurfaceSubmissionQueue::default();
    queue.push(1, "first");
    queue.push(2, "second");

    assert!(queue.mark_ready_with(2, |_| {}));
    assert_eq!(queue.remove(1), Some("first"));
    assert_eq!(queue.pop_ready_front(), Some("second"));
}

#[test]
fn iosurface_submission_queue_counts_contiguous_ready_front() {
    let mut queue = IosurfaceSubmissionQueue::default();
    queue.push(1, "first");
    queue.push(2, "second");
    queue.push(3, "third");

    assert!(queue.mark_ready_with(1, |_| {}));
    assert!(queue.mark_ready_with(3, |_| {}));
    assert_eq!(queue.ready_front_count(), 1);

    assert!(queue.mark_ready_with(2, |_| {}));
    assert_eq!(queue.ready_front_count(), 3);
}

#[test]
fn queue_updates_the_frame_that_becomes_ready() {
    let mut queue = IosurfaceSubmissionQueue::new();
    queue.push(4, 40);
    queue.push(5, 50);
    assert!(!queue.mark_ready_with(6, |frame| *frame += 1));
    assert!(queue.mark_ready_with(4, |frame| *frame += 1));
    assert_eq!(queue.ready_front(), Some(&41));
    assert_eq!(queue.len(), 2);
    assert_eq!(queue.remove(6), None);
    assert_eq!(queue.pop_ready_front(), Some(41));
    assert_eq!(queue.ready_front(), None);
    assert_eq!(queue.len(), 1);
}

#[test]
fn damage_on_the_surface_is_kept() {
    assert_eq!(full_texture_bounds(surface(100, 50)), device(0, 0, 100, 50));
    assert_eq!(
        clamp_damage(device(5, 6, 7, 8), surface(100, 50)),
        device(5, 6, 7, 8)
    );
    assert_eq!(
        clamp_damage(device(-5, 40, 10, 20), surface(100, 50)),
        device(0, 40, 5, 10)
    );
}

#[test]
fn scissor_has_no_negative_sides() {
    assert_eq!(
        scissor_for_damage(device(5, 6, 7, 8)),
        ScissorRect { x: 5, y: 6, width: 7, height: 8 }
    );
    assert_eq!(
        scissor_for_damage(device(-5, -6, -7, 8)),
        ScissorRect { x: 0, y: 0, width: 0, height: 8 }
    );
}

#[test]
fn redraw_of_everything_drops_the_contents() {
    assert_eq!(
        plan_redraw(None, surface(100, 50)),
        RedrawPlan { damage: device(0, 0, 100, 50), keep_contents: false }
    );
    assert_eq!(
        plan_redraw(Some(device(1, 2, 3, 4)), surface(100, 50)),
        RedrawPlan { damage: device(1, 2, 3, 4), keep_contents: true }
    );
}

#[test]
fn frames_show_at_the_first_reachable_refresh() {
    let timing = FrameDisplayTiming {
        next_display_time: instant(10_000),
        frame_interval: Some(Duration::from_micros(8_000)),
    };
    assert_eq!(
        estimated_display_time_for_latch(timing, instant(8_000)),
        instant(10_000)
    );
    assert_eq!(
        estimated_display_time_for_latch(timing, instant(8_500)),
        instant(18_000)
    );
    assert_eq!(
        estimated_display_time_for_latch(timing, instant(25_000)),
        instant(34_000)
    );
    let far = instant(10_000 + 8_000 * 1_000);
    assert_eq!(estimated_display_time_for_latch(timing, far), far);
    let unknown = FrameDisplayTiming { next_display_time: instant(10_000), frame_interval: None };
    assert_eq!(
        estimated_display_time_for_latch(unknown, instant(9_000)),
        instant(9_000)
    );
}

#[test]
fn feedback_tells_how_a_frame_was_shown() {
    let timing = FrameDisplayTiming {
        next_display_time: instant(10_000),
        frame_interval: Some(Duration::from_micros(8_000)),
    };
    let shown = presentation_feedback_for_iosurface_frame(
        Some(7),
        instant(1_000),
        instant(2_000),
        Some(timing),
    );
    assert_eq!(shown.display_time, instant(10_000));
    assert_eq!(shown.target_latch_time, Some(instant(8_500)));
    assert_eq!(shown.interval, Some(Duration::from_micros(8_000)));
    assert_eq!(shown.swap_id, Some(7));
    assert!(shown.presented && shown.vsync && shown.hardware_completion);

    let dropped = presentation_feedback_for_dropped_frame(None, instant(1), instant(2));
    assert_eq!(dropped.display_time, instant(2));
    assert!(!dropped.presented && !dropped.vsync && dropped.hardware_completion);

    let seen = presentation_feedback_from_display_time(instant(5));
    assert_eq!(seen.ready_time, instant(5));
    assert_eq!(seen.latch_time, instant(5));
    assert!(seen.presented);
}

#[test]
fn moments_are_moved_where_they_can_be() {
    assert_eq!(
        media_time_to_instant(instant(10), true, Some(Duration::from_micros(4))),
        instant(14)
    );
    assert_eq!(
        media_time_to_instant(instant(10), false, Some(Duration::from_micros(4))),
        instant(6)
    );
    assert_eq!(
        media_time_to_instant(instant(10), false, Some(Duration::from_micros(40))),
        instant(10)
    );
    assert_eq!(media_time_to_instant(instant(10), true, None), instant(10));
}

fn submit(target: &mut CoreAnimationPresenter, damage: Bounds<DevicePixels>) -> (usize, Submission) {
    let buffer = target.next_buffer_index().expect("a buffer is free");
    let drawn = damage_to_draw(target, buffer, damage);
    (buffer, target.submit_frame(buffer, drawn, instant(0), false))
}

#[test]
fn frames_reach_the_screen_in_order() {
    let mut target = CoreAnimationPresenter::new(true, surface(100, 50));
    target.set_listeners(everyone());
    let full = device(0, 0, 100, 50);
    let (first_buffer, first) = submit(&mut target, full);
    let (second_buffer, second) = submit(&mut target, device(1, 1, 2, 2));
    assert_ne!(first_buffer, second_buffer);
    assert_eq!(first.order, 1);
    assert_eq!(second.order, 2);
    assert_eq!(second.fence_value, first.fence_value + 1);
    assert_eq!(target.pending_swap_count(), 2);
    assert_eq!(target.next_buffer_index(), None);

    let done = target.complete_submission(2, true, instant(30));
    assert!(done.found && !done.commit && done.failure.is_none());
    assert_eq!(target.take_ready_frame(), None);

    let done = target.complete_submission(1, true, instant(31));
    assert!(done.found && !done.commit);
    assert_eq!(target.ready_frame_count(), 2);

    let taken = target
        .set_display_timing(instant(10_000), Some(Duration::from_micros(8_000)))
        .expect("the oldest frame is ready");
    assert!(taken.presented);
    assert_eq!(taken.frame.swap_id, 1);
    assert_eq!(taken.frame.ready_time, instant(31));

    let told = target
        .complete_iosurface_frame(instant(100))
        .expect("a frame was handed over");
    assert_eq!(
        told.swap_completion,
        Some(SwapCompletionFeedback {
            ready_time: instant(31),
            latch_time: instant(100),
            result: SwapCompletionResult::Ack,
            presented: true,
            swap_id: Some(1),
        })
    );
    let feedback = told.presentation_feedback.expect("someone listens");
    assert_eq!(feedback.display_time, instant(10_000));
    assert!(told.request_frame);
    assert_eq!(target.pending_swap_count(), 1);
    assert_eq!(target.take_committed_backpressure(), Some(first.fence_value));
    assert_eq!(target.take_committed_backpressure(), None);

    let third = target.next_buffer_index().expect("a buffer is free");
    assert_ne!(third, first_buffer);
    assert_ne!(third, second_buffer);
}

#[test]
fn frames_of_an_old_size_are_not_shown() {
    let mut target = CoreAnimationPresenter::new(false, surface(100, 50));
    target.set_listeners(everyone());
    let (_, submission) = submit(&mut target, device(0, 0, 100, 50));
    assert!(!target.update_drawable_size(surface(100, 50)));
    assert!(target.update_drawable_size(surface(80, 40)));
    assert_eq!(target.drawable_size(), surface(80, 40));
    assert!(target.complete_submission(submission.order, true, instant(5)).found);
    let taken = target.take_ready_frame().expect("the frame is ready");
    assert!(!taken.presented);
    let told = target.complete_iosurface_frame(instant(9)).expect("a frame was taken");
    assert_eq!(
        told.swap_completion.expect("someone listens").result,
        SwapCompletionResult::Skipped
    );
    let feedback = told.presentation_feedback.expect("someone listens");
    assert!(!feedback.presented);
    let (_, next) = submit(&mut target, device(0, 0, 80, 40));
    assert!(!next.recreate_layers);
}

#[test]
fn resized_hosts_recreate_their_layers_once() {
    let mut target = CoreAnimationPresenter::new(true, surface(100, 50));
    assert!(target.update_drawable_size(surface(80, 40)));
    let (_, first) = submit(&mut target, device(0, 0, 80, 40));
    let (_, second) = submit(&mut target, device(0, 0, 80, 40));
    assert!(first.recreate_layers);
    assert!(!second.recreate_layers);
}

#[test]
fn failed_damage_is_restored() {
    let mut target = CoreAnimationPresenter::new(true, surface(100, 50));
    target.set_listeners(everyone());
    let (buffer, submission) = submit(&mut target, device(0, 0, 100, 50));
    let failed = target.complete_submission(submission.order, false, instant(7));
    assert!(failed.found && !failed.commit);
    let told = failed.failure.expect("the frame failed");
    assert_eq!(
        told.swap_completion.expect("someone listens").result,
        SwapCompletionResult::Failed
    );
    assert!(!told.presentation_feedback.expect("someone listens").presented);
    assert_eq!(target.pending_swap_count(), 0);
    assert_eq!(target.buffer_damage(buffer), device(0, 0, 100, 50));
    assert!(!target.complete_submission(submission.order, false, instant(8)).found);
}

#[test]
fn nobody_is_told_who_does_not_listen() {
    let mut target = CoreAnimationPresenter::new(true, surface(100, 50));
    let (_, submission) = submit(&mut target, device(0, 0, 100, 50));
    assert!(target.complete_submission(submission.order, true, instant(7)).commit);
    assert!(target.take_ready_frame().is_some());
    let told = target.complete_iosurface_frame(instant(9)).expect("a frame was taken");
    assert_eq!(told.swap_completion, None);
    assert_eq!(told.presentation_feedback, None);
    assert!(!told.request_frame);
    assert_eq!(target.complete_iosurface_frame(instant(9)), None);
}

#[test]
fn damage_reaches_every_other_buffer_once() {
    let mut target = CoreAnimationPresenter::new(true, surface(100, 50));
    let (first, _) = submit(&mut target, device(0, 0, 100, 50));
    assert_eq!(target.buffer_damage(first), device(0, 0, 0, 0));
    target.update_buffer_damage(device(3, 4, 5, 6));
    assert_eq!(target.buffer_damage(first), device(0, 0, 8, 10));
    target.update_buffer_damage(device(3, 4, 5, 6));
    assert_eq!(target.buffer_damage(first), device(0, 0, 8, 10));
}

#[test]
fn drawing_starts_only_where_there_are_pixels() {
    let mut target = CoreAnimationPresenter::new(true, surface(0, 50));
    assert_eq!(start_frame(&mut target), FrameStart::Skip);
    target.update_drawable_size(surface(100, 50));
    assert_eq!(
        start_frame(&mut target),
        FrameStart::Proceed { wait_for: None, committing: None }
    );
    assert_eq!(choose_buffer(&mut target, None), BufferChoice::Skip);
    match choose_buffer(&mut target, Some(scaled_bounds(0.5, 0.5, 1.0, 1.0))) {
        BufferChoice::Draw { frame_damage, .. } => {
            assert_eq!(frame_damage, device(0, 0, 2, 2));
        }
        other => panic!("nothing is drawn: {other:?}"),
    }
}

#[test]
fn full_queues_hand_over_before_they_defer() {
    let mut target = CoreAnimationPresenter::new(true, surface(100, 50));
    target.set_listeners(everyone());
    let (_, first) = submit(&mut target, device(0, 0, 100, 50));
    submit(&mut target, device(0, 0, 100, 50));
    assert_eq!(
        start_frame(&mut target),
        FrameStart::Proceed { wait_for: None, committing: None }
    );
    assert_eq!(
        choose_buffer(&mut target, Some(scaled_bounds(0.0, 0.0, 1.0, 1.0))),
        BufferChoice::Defer
    );
    target.complete_submission(first.order, true, instant(1));
    match start_frame(&mut target) {
        FrameStart::Proceed { committing: Some(committing), .. } => {
            assert_eq!(committing.frame.swap_id, 1);
        }
        other => panic!("no frame is handed over: {other:?}"),
    }
    let told = target.complete_iosurface_frame(instant(2)).expect("a frame was taken");
    assert!(told.request_frame);
}

#[test]
fn layers_are_hosted_where_everything_is_supported() {
    let everything = RemoteLayerSupport {
        has_context_class: true,
        creates_contexts: true,
        context_has_id: true,
        context_has_layer: true,
        has_host_class: true,
        host_reads_context_id: true,
        host_sets_context_id: true,
    };
    assert!(remote_layer_api_supported(everything));
    assert!(!remote_layer_api_supported(RemoteLayerSupport {
        host_sets_context_id: false,
        ..everything
    }));
    assert_eq!(choose_topology(true, true), LayerTopology::Hosted);
    assert_eq!(choose_topology(true, false), LayerTopology::Direct);
    assert_eq!(choose_topology(false, true), LayerTopology::Direct);
    assert!(recreates_ca_context(LayerTopology::Hosted, true));
    assert!(!recreates_ca_context(LayerTopology::Hosted, false));
    assert!(!recreates_ca_context(LayerTopology::Direct, true));
    assert!(!deallocates_port(NULL_PORT));
    assert!(deallocates_port(3));
}

#[test]
fn fence_ports_are_released_oldest_first() {
    let support = FenceSupport {
        has_context: true,
        creates_fence_ports: true,
        sets_fence_port: true,
    };
    let mut ports = FencePorts::new();
    for port in 1..=4 {
        let (set, released) = ports.create_and_set_fence_port(support, port);
        assert!(set);
        assert!(released.is_empty());
    }
    let (set, released) = ports.create_and_set_fence_port(support, 5);
    assert!(set);
    assert_eq!(released, vec![1]);
    let (set, released) = ports.create_and_set_fence_port(support, NULL_PORT);
    assert!(!set);
    assert!(released.is_empty());
    let unsupported = FenceSupport { sets_fence_port: false, ..support };
    assert!(!ports.create_and_set_fence_port(unsupported, 6).0);
    assert_eq!(ports.drain(), vec![2, 3, 4, 5]);
    assert_eq!(ports.drain(), Vec::<u32>::new());
}
