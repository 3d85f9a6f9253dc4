use framepipe::pipeline::{
    Action, CapturePipeline, Event, FrameInfo, Phase, RunState, Stage, StopReason,
};
use framepipe::sink::{Delivery, IoFault};

fn frame(sequence: u64) -> FrameInfo {
    FrameInfo { length: 1024, sequence, timestamp_sec: 7, timestamp_usec: 33_000 * sequence as i64 }
}

/// Drives a pipeline the way a capture loop does. The device hands over
/// frames numbered from zero; `flag(cycle)` is the shutdown flag as read at
/// the top of each cycle and `deliver(sequence)` how the sink takes a frame.
/// Returns the sequence numbers handed to the sink and the reason for the
/// stop.
fn drive(
    pipeline: &mut CapturePipeline,
    flag: &dyn Fn(u64) -> bool,
    deliver: &dyn Fn(u64) -> Delivery,
    max_cycles: u64,
) -> (Vec<u64>, Option<StopReason>) {
    let mut handed = Vec::new();
    let mut cycle = 0u64;
    let mut next_sequence = 0u64;
    let mut action = pipeline.pending();
    loop {
        action = match action {
            Action::Poll => {
                if cycle == max_cycles {
                    return (handed, None);
                }
                cycle += 1;
                pipeline.step(Event::Poll { keep_running: flag(cycle - 1) })
            }
            Action::Acquire => {
                let acquired = frame(next_sequence);
                next_sequence += 1;
                pipeline.step(Event::Acquired(acquired))
            }
            Action::Deliver(info) => {
                handed.push(info.sequence);
                pipeline.step(Event::Delivery(deliver(info.sequence)))
            }
            Action::Release(_) => pipeline.step(Event::Released),
            Action::Exit(reason) => return (handed, Some(reason)),
        };
    }
}

#[test]
fn new_pipeline_is_idle_and_running() {
    let pipeline = CapturePipeline::new(3);
    assert_eq!(pipeline.stage(), Stage::Idle);
    assert_eq!(pipeline.phase(), Phase::Running);
    assert_eq!(pipeline.pending(), Action::Poll);
    assert_eq!(
        pipeline.run_state(),
        RunState { frames_emitted: 0, limit: Some(3), keep_running: true }
    );
}

#[test]
fn zero_limit_means_unbounded() {
    let mut pipeline = CapturePipeline::new(0);
    assert_eq!(pipeline.run_state().limit, None);
    let (handed, reason) = drive(&mut pipeline, &|_| true, &|_| Delivery::Complete, 250);
    assert_eq!(reason, None);
    assert_eq!(handed.len(), 250);
    assert_eq!(pipeline.run_state().frames_emitted, 250);
    assert_eq!(pipeline.phase(), Phase::Running);
}

#[test]
fn limit_of_one_delivers_one_frame() {
    let mut pipeline = CapturePipeline::new(1);
    let (handed, reason) = drive(&mut pipeline, &|_| true, &|_| Delivery::Complete, 100);
    assert_eq!(handed, vec![0]);
    assert_eq!(reason, Some(StopReason::FrameLimitReached));
    assert!(StopReason::FrameLimitReached.clean());
    assert_eq!(pipeline.run_state().frames_emitted, 1);
    assert_eq!(pipeline.phase(), Phase::Stopped);
}

#[test]
fn limit_of_ring_size_delivers_four_frames() {
    let mut pipeline = CapturePipeline::new(4);
    let (handed, reason) = drive(&mut pipeline, &|_| true, &|_| Delivery::Complete, 100);
    assert_eq!(handed, vec![0, 1, 2, 3]);
    assert_eq!(reason, Some(StopReason::FrameLimitReached));
    assert_eq!(pipeline.run_state().frames_emitted, 4);
}

#[test]
fn limit_above_ring_size_delivers_exactly_that_many() {
    let mut pipeline = CapturePipeline::new(11);
    let (handed, reason) = drive(&mut pipeline, &|_| true, &|_| Delivery::Complete, 100);
    assert_eq!(handed, (0..11).collect::<Vec<u64>>());
    assert_eq!(reason, Some(StopReason::FrameLimitReached));
    assert_eq!(pipeline.run_state().frames_emitted, 11);
}

#[test]
fn limit_stop_happens_on_the_last_delivery() {
    let mut pipeline = CapturePipeline::new(2);
    assert_eq!(pipeline.step(Event::Poll { keep_running: true }), Action::Acquire);
    assert_eq!(pipeline.step(Event::Acquired(frame(0))), Action::Deliver(frame(0)));
    assert_eq!(pipeline.step(Event::Delivery(Delivery::Complete)), Action::Poll);
    assert_eq!(pipeline.step(Event::Poll { keep_running: true }), Action::Acquire);
    assert_eq!(pipeline.step(Event::Acquired(frame(1))), Action::Deliver(frame(1)));
    assert_eq!(
        pipeline.step(Event::Delivery(Delivery::Complete)),
        Action::Release(StopReason::FrameLimitReached)
    );
    assert_eq!(pipeline.stage(), Stage::Stopping(StopReason::FrameLimitReached));
    assert_eq!(pipeline.phase(), Phase::Stopping);
    assert_eq!(pipeline.step(Event::Released), Action::Exit(StopReason::FrameLimitReached));
    assert_eq!(pipeline.stage(), Stage::Stopped(StopReason::FrameLimitReached));
}

#[test]
fn cleared_flag_before_first_cycle_delivers_nothing() {
    let mut pipeline = CapturePipeline::new(0);
    let (handed, reason) = drive(&mut pipeline, &|_| false, &|_| Delivery::Complete, 100);
    assert!(handed.is_empty());
    assert_eq!(reason, Some(StopReason::ShutdownRequested));
    assert!(StopReason::ShutdownRequested.clean());
    assert!(!pipeline.run_state().keep_running);
    assert_eq!(pipeline.run_state().frames_emitted, 0);
}

#[test]
fn cleared_flag_stops_at_the_next_cycle() {
    for stop_at in 0..6u64 {
        let mut pipeline = CapturePipeline::new(0);
        let (handed, reason) =
            drive(&mut pipeline, &|cycle| cycle < stop_at, &|_| Delivery::Complete, 100);
        assert_eq!(handed, (0..stop_at).collect::<Vec<u64>>());
        assert_eq!(reason, Some(StopReason::ShutdownRequested));
        assert_eq!(pipeline.run_state().frames_emitted as u64, stop_at);
    }
}

#[test]
fn frame_in_flight_is_finished_before_the_flag_is_read() {
    let mut pipeline = CapturePipeline::new(0);
    pipeline.step(Event::Poll { keep_running: true });
    pipeline.step(Event::Acquired(frame(0)));
    // A flag reading in the middle of a delivery is not waited for.
    assert_eq!(pipeline.step(Event::Poll { keep_running: false }), Action::Deliver(frame(0)));
    assert!(pipeline.run_state().keep_running);
    assert_eq!(pipeline.step(Event::Delivery(Delivery::Complete)), Action::Poll);
    assert_eq!(
        pipeline.step(Event::Poll { keep_running: false }),
        Action::Release(StopReason::ShutdownRequested)
    );
    assert_eq!(pipeline.run_state().frames_emitted, 1);
}

#[test]
fn flag_cannot_be_set_again() {
    let mut pipeline = CapturePipeline::new(0);
    pipeline.step(Event::Poll { keep_running: false });
    assert_eq!(
        pipeline.step(Event::Poll { keep_running: true }),
        Action::Release(StopReason::ShutdownRequested)
    );
    assert!(!pipeline.run_state().keep_running);
    pipeline.step(Event::Released);
    assert_eq!(
        pipeline.step(Event::Poll { keep_running: true }),
        Action::Exit(StopReason::ShutdownRequested)
    );
    assert_eq!(pipeline.phase(), Phase::Stopped);
}

#[test]
fn reader_gone_after_k_frames_is_a_clean_stop() {
    for k in 0..5u64 {
        let mut pipeline = CapturePipeline::new(0);
        let (handed, reason) = drive(
            &mut pipeline,
            &|_| true,
            &|sequence| if sequence < k { Delivery::Complete } else { Delivery::ReaderGone },
            100,
        );
        assert_eq!(reason, Some(StopReason::ReaderGone));
        assert!(StopReason::ReaderGone.clean());
        assert_eq!(handed.len() as u64, k + 1);
        assert_eq!(pipeline.run_state().frames_emitted as u64, k);
    }
}

#[test]
fn failed_delivery_stops_with_a_failure() {
    let mut pipeline = CapturePipeline::new(0);
    let (handed, reason) = drive(
        &mut pipeline,
        &|_| true,
        &|sequence| if sequence < 2 { Delivery::Complete } else { Delivery::Failed },
        100,
    );
    assert_eq!(handed, vec![0, 1, 2]);
    assert_eq!(reason, Some(StopReason::DeliverFailed));
    assert!(!StopReason::DeliverFailed.clean());
    assert_eq!(pipeline.run_state().frames_emitted, 2);
}

#[test]
fn interrupted_acquire_is_tried_again() {
    let mut pipeline = CapturePipeline::new(1);
    assert_eq!(pipeline.step(Event::Poll { keep_running: true }), Action::Acquire);
    assert_eq!(pipeline.step(Event::AcquireFailed(IoFault::Interrupted)), Action::Poll);
    assert_eq!(pipeline.phase(), Phase::Running);
    assert_eq!(pipeline.step(Event::Poll { keep_running: true }), Action::Acquire);
    assert_eq!(pipeline.step(Event::Acquired(frame(5))), Action::Deliver(frame(5)));
    assert_eq!(pipeline.run_state().frames_emitted, 0);
}

#[test]
fn interrupted_acquire_sees_a_cleared_flag() {
    let mut pipeline = CapturePipeline::new(0);
    pipeline.step(Event::Poll { keep_running: true });
    pipeline.step(Event::AcquireFailed(IoFault::Interrupted));
    assert_eq!(
        pipeline.step(Event::Poll { keep_running: false }),
        Action::Release(StopReason::ShutdownRequested)
    );
}

#[test]
fn failed_acquire_stops_with_a_failure() {
    for fault in [IoFault::Other, IoFault::BrokenPipe] {
        let mut pipeline = CapturePipeline::new(0);
        pipeline.step(Event::Poll { keep_running: true });
        assert_eq!(
            pipeline.step(Event::AcquireFailed(fault)),
            Action::Release(StopReason::AcquireFailed)
        );
        assert!(!StopReason::AcquireFailed.clean());
        assert_eq!(pipeline.phase(), Phase::Stopping);
    }
}

#[test]
fn events_out_of_turn_change_nothing() {
    let mut pipeline = CapturePipeline::new(2);
    assert_eq!(pipeline.step(Event::Acquired(frame(0))), Action::Poll);
    assert_eq!(pipeline.step(Event::Delivery(Delivery::Complete)), Action::Poll);
    assert_eq!(pipeline.step(Event::Released), Action::Poll);
    assert_eq!(pipeline.step(Event::AcquireFailed(IoFault::Other)), Action::Poll);
    assert_eq!(
        pipeline.run_state(),
        RunState { frames_emitted: 0, limit: Some(2), keep_running: true }
    );
    pipeline.step(Event::Poll { keep_running: true });
    assert_eq!(pipeline.step(Event::Delivery(Delivery::Complete)), Action::Acquire);
    assert_eq!(pipeline.step(Event::Released), Action::Acquire);
    assert_eq!(pipeline.run_state().frames_emitted, 0);
}

#[test]
fn nothing_is_delivered_after_a_stop() {
    let mut pipeline = CapturePipeline::new(1);
    drive(&mut pipeline, &|_| true, &|_| Delivery::Complete, 100);
    for event in [
        Event::Poll { keep_running: true },
        Event::Acquired(frame(9)),
        Event::Delivery(Delivery::Complete),
        Event::AcquireFailed(IoFault::Interrupted),
        Event::Released,
    ] {
        assert_eq!(pipeline.step(event), Action::Exit(StopReason::FrameLimitReached));
    }
    assert_eq!(pipeline.run_state().frames_emitted, 1);
}

#[test]
fn sink_sees_the_device_frames_in_order() {
    let mut pipeline = CapturePipeline::new(0);
    let sequences = [3u64, 4, 5, 5, 6, 9];
    let mut seen = Vec::new();
    for sequence in sequences {
        assert_eq!(pipeline.step(Event::Poll { keep_running: true }), Action::Acquire);
        match pipeline.step(Event::Acquired(frame(sequence))) {
            Action::Deliver(info) => {
                assert_eq!(info, frame(sequence));
                seen.push(info.sequence);
            }
            other => panic!("expected a delivery, got {:?}", other),
        }
        assert_eq!(pipeline.step(Event::Delivery(Delivery::Complete)), Action::Poll);
    }
    assert_eq!(seen, sequences.to_vec());
    assert!(seen.windows(2).all(|pair| pair[0] <= pair[1]));
}

#[test]
fn stop_reasons_are_clean_or_not() {
    assert!(StopReason::ShutdownRequested.clean());
    assert!(StopReason::FrameLimitReached.clean());
    assert!(StopReason::ReaderGone.clean());
    assert!(!StopReason::AcquireFailed.clean());
    assert!(!StopReason::DeliverFailed.clean());
}
