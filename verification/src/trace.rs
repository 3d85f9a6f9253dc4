//! Whole runs of the pipeline: what holds of every sequence of events.

use vstd::prelude::*;
use crate::pipeline::{
    initial_state, next_state, Event, FrameInfo, Phase, PipelineState, Stage, StopReason,
};
use crate::sink::{write_next, Delivery, IoFault, WriteState};

verus! {

/// The state after the events have been taken in one after the other.
pub open spec fn run_from(s: PipelineState, events: Seq<Event>) -> PipelineState
    decreases events.len(),
{
    if events.len() == 0 {
        s
    } else {
        run_from(next_state(s, events[0]), events.skip(1))
    }
}

/// The frames that the device hands over during the run, oldest first.
pub open spec fn acquired_frames(s: PipelineState, events: Seq<Event>) -> Seq<FrameInfo>
    decreases events.len(),
{
    if events.len() == 0 {
        Seq::empty()
    } else {
        let rest = acquired_frames(next_state(s, events[0]), events.skip(1));
        match (s.stage, events[0]) {
            (Stage::Acquiring, Event::Acquired(frame)) => seq![frame] + rest,
            _ => rest,
        }
    }
}

/// The frames that the sink takes in full during the run, oldest first.
pub open spec fn emitted_frames(s: PipelineState, events: Seq<Event>) -> Seq<FrameInfo>
    decreases events.len(),
{
    if events.len() == 0 {
        Seq::empty()
    } else {
        let rest = emitted_frames(next_state(s, events[0]), events.skip(1));
        match (s.stage, events[0]) {
            (Stage::Delivering(frame), Event::Delivery(Delivery::Complete)) => seq![frame] + rest,
            _ => rest,
        }
    }
}

/// The frame that the sink is working on, if any.
pub open spec fn in_flight(s: PipelineState) -> Seq<FrameInfo> {
    match s.stage {
        Stage::Delivering(frame) => seq![frame],
        _ => Seq::empty(),
    }
}

/// Whether the sequence numbers never go down.
pub open spec fn non_decreasing(frames: Seq<FrameInfo>) -> bool {
    forall|i: int, j: int| 0 <= i <= j < frames.len() ==> frames[i].sequence <= frames[j].sequence
}

/// Whether each sequence number is the one before it plus one.
pub open spec fn gap_free(frames: Seq<FrameInfo>) -> bool {
    forall|i: int| 0 <= i < frames.len() - 1 ==> #[trigger] frames[i + 1].sequence == frames[i].sequence + 1
}

/// Whether every reading of the shutdown flag among the events finds it cleared.
pub open spec fn flag_stays_cleared(events: Seq<Event>) -> bool {
    forall|i: int| 0 <= i < events.len() ==> (#[trigger] events[i] matches Event::Poll { keep_running }
        ==> !keep_running)
}

/// What a run keeps true of its frame counter: a limit is never zero, is not
/// yet reached while the run goes on, and is met exactly when it ends the run.
pub open spec fn within_limit(s: PipelineState) -> bool {
    &&& s.limit matches Some(n) ==> 0 < n && s.frames_emitted <= n
    &&& s.limit matches Some(n) ==> (s.stage.phase() == Phase::Running ==> s.frames_emitted < n)
    &&& (s.stage == Stage::Stopping(StopReason::FrameLimitReached) || s.stage == Stage::Stopped(
        StopReason::FrameLimitReached,
    )) ==> s.limit == Some(s.frames_emitted)
}

/// One full cycle in which everything goes well.
pub open spec fn good_cycle(frame: FrameInfo) -> Seq<Event> {
    seq![
        Event::Poll { keep_running: true },
        Event::Acquired(frame),
        Event::Delivery(Delivery::Complete),
    ]
}

/// `frames.len()` good cycles, one for each frame.
pub open spec fn good_cycles(frames: Seq<FrameInfo>) -> Seq<Event>
    decreases frames.len(),
{
    if frames.len() == 0 {
        Seq::empty()
    } else {
        good_cycle(frames[0]) + good_cycles(frames.skip(1))
    }
}

/// A run that has left the running state stays where it is: nothing more is
/// acquired or delivered, and only the release moves it on.
pub proof fn lemma_stop_is_final(s: PipelineState, events: Seq<Event>)
    requires
        s.stage.phase() != Phase::Running,
    ensures
        run_from(s, events).stage.phase() != Phase::Running,
        run_from(s, events).frames_emitted == s.frames_emitted,
        run_from(s, events).limit == s.limit,
        acquired_frames(s, events) == Seq::<FrameInfo>::empty(),
        emitted_frames(s, events) == Seq::<FrameInfo>::empty(),
        s.stage matches Stage::Stopping(reason) ==> run_from(s, events).stage == Stage::Stopping(
            reason,
        ) || run_from(s, events).stage == Stage::Stopped(reason),
        s.stage matches Stage::Stopped(reason) ==> run_from(s, events).stage == Stage::Stopped(
            reason,
        ),
    decreases events.len(),
{
    if events.len() > 0 {
        lemma_stop_is_final(next_state(s, events[0]), events.skip(1));
    }
}

/// The sink sees the frames that the device handed over, in the same order,
/// none twice and none left out, but for the one frame that may be in flight
/// or whose delivery ended the run. So the sequence numbers that the sink
/// sees never go down, and have no gaps, where the device's have none.
pub proof fn lemma_frames_in_order(s: PipelineState, events: Seq<Event>)
    ensures
        emitted_frames(s, events).is_prefix_of(in_flight(s) + acquired_frames(s, events)),
        (in_flight(s) + acquired_frames(s, events)).len() <= emitted_frames(s, events).len() + 1,
        non_decreasing(in_flight(s) + acquired_frames(s, events)) ==> non_decreasing(
            emitted_frames(s, events),
        ),
        gap_free(in_flight(s) + acquired_frames(s, events)) ==> gap_free(
            emitted_frames(s, events),
        ),
    decreases events.len(),
{
    let emitted = emitted_frames(s, events);
    let offered = in_flight(s) + acquired_frames(s, events);
    if events.len() > 0 {
        let next = next_state(s, events[0]);
        let rest = events.skip(1);
        lemma_frames_in_order(next, rest);
        if next.stage.phase() != Phase::Running {
            lemma_stop_is_final(next, rest);
        }
        let later = in_flight(next) + acquired_frames(next, rest);
        match (s.stage, events[0]) {
            (Stage::Acquiring, Event::Acquired(frame)) => {
                assert(offered =~= later);
            },
            (Stage::Delivering(frame), Event::Delivery(Delivery::Complete)) => {
                assert(offered =~= seq![frame] + later);
                assert(emitted =~= seq![frame] + emitted_frames(next, rest));
            },
            (Stage::Delivering(frame), Event::Delivery(_)) => {
                assert(offered =~= seq![frame]);
                assert(emitted =~= Seq::<FrameInfo>::empty());
            },
            _ => {
                assert(offered =~= later);
            },
        }
    }
    assert(emitted.is_prefix_of(offered));
    assert forall|i: int| 0 <= i < emitted.len() implies emitted[i] == offered[i] by {}
    if gap_free(offered) {
        assert forall|i: int| 0 <= i < emitted.len() - 1 implies #[trigger] emitted[i
            + 1].sequence == emitted[i].sequence + 1 by {
            assert(offered[i + 1].sequence == offered[i].sequence + 1);
        }
    }
}

/// Once the shutdown flag is cleared, the run delivers at most the one frame
/// that is in the making and then stops: from a state between two cycles, or
/// after a stop, no frame at all. No new acquisition is begun.
pub proof fn lemma_shutdown_within_one_cycle(s: PipelineState, events: Seq<Event>)
    requires
        flag_stays_cleared(events),
    ensures
        run_from(s, events).frames_emitted <= s.frames_emitted + 1,
        emitted_frames(s, events).len() <= 1,
        s.stage == Stage::Idle || s.stage.phase() != Phase::Running ==> run_from(
            s,
            events,
        ).frames_emitted == s.frames_emitted && emitted_frames(s, events).len() == 0,
        s.stage != Stage::Acquiring ==> run_from(s, events).stage != Stage::Acquiring,
    decreases events.len(),
{
    if events.len() > 0 {
        let next = next_state(s, events[0]);
        let rest = events.skip(1);
        assert forall|i: int| 0 <= i < rest.len() implies (#[trigger] rest[i] matches Event::Poll {
            keep_running,
        } ==> !keep_running) by {
            assert(rest[i] == events[i + 1]);
        }
        lemma_shutdown_within_one_cycle(next, rest);
        if next.stage.phase() != Phase::Running {
            lemma_stop_is_final(next, rest);
        }
        assert(events[0] matches Event::Poll { keep_running } ==> !keep_running);
    }
}

/// A cleared shutdown flag, read between two cycles, ends the run cleanly
/// with no further frame.
pub proof fn lemma_cleared_flag_stops(s: PipelineState)
    requires
        s.stage == Stage::Idle,
    ensures
        next_state(s, Event::Poll { keep_running: false }).stage == Stage::Stopping(
            StopReason::ShutdownRequested,
        ),
        !next_state(s, Event::Poll { keep_running: false }).keep_running,
        next_state(s, Event::Poll { keep_running: false }).frames_emitted == s.frames_emitted,
        StopReason::ShutdownRequested.is_clean(),
{
}

/// The shutdown flag is only ever cleared: no event sets it again.
pub proof fn lemma_flag_only_cleared(s: PipelineState, events: Seq<Event>)
    requires
        !s.keep_running,
    ensures
        !run_from(s, events).keep_running,
    decreases events.len(),
{
    if events.len() > 0 {
        lemma_flag_only_cleared(next_state(s, events[0]), events.skip(1));
    }
}

/// No event changes the limit of a run.
pub proof fn lemma_limit_unchanged(s: PipelineState, events: Seq<Event>)
    ensures
        run_from(s, events).limit == s.limit,
    decreases events.len(),
{
    if events.len() > 0 {
        lemma_limit_unchanged(next_state(s, events[0]), events.skip(1));
    }
}

/// Every run keeps its frame counter within the limit.
pub proof fn lemma_limit_kept(s: PipelineState, events: Seq<Event>)
    requires
        within_limit(s),
    ensures
        within_limit(run_from(s, events)),
    decreases events.len(),
{
    if events.len() > 0 {
        lemma_limit_kept(next_state(s, events[0]), events.skip(1));
    }
}

/// With a limit of `max_frames` frames, no run delivers more than that, and
/// one that stops for the limit has delivered exactly that many.
pub proof fn lemma_never_past_limit(max_frames: nat, events: Seq<Event>)
    requires
        max_frames > 0,
    ensures
        run_from(initial_state(max_frames), events).frames_emitted <= max_frames,
        run_from(initial_state(max_frames), events).stage == Stage::Stopping(
            StopReason::FrameLimitReached,
        ) || run_from(initial_state(max_frames), events).stage == Stage::Stopped(
            StopReason::FrameLimitReached,
        ) ==> run_from(initial_state(max_frames), events).frames_emitted == max_frames,
{
    assert(within_limit(initial_state(max_frames)));
    lemma_limit_kept(initial_state(max_frames), events);
    assert(within_limit(run_from(initial_state(max_frames), events)));
    lemma_limit_unchanged(initial_state(max_frames), events);
}

/// Good cycles, as long as the limit allows them, each deliver their frame:
/// the run goes on below the limit and stops cleanly when the limit is met.
pub proof fn lemma_good_cycles(s: PipelineState, frames: Seq<FrameInfo>)
    requires
        s.stage == Stage::Idle,
        s.keep_running,
        s.limit matches Some(n) ==> s.frames_emitted + frames.len() <= n,
    ensures
        run_from(s, good_cycles(frames)).frames_emitted == s.frames_emitted + frames.len(),
        emitted_frames(s, good_cycles(frames)) == frames,
        run_from(s, good_cycles(frames)).limit == s.limit,
        run_from(s, good_cycles(frames)).keep_running,
        run_from(s, good_cycles(frames)).stage == if frames.len() > 0 && s.limit == Some(
            s.frames_emitted + frames.len(),
        ) {
            Stage::Stopping(StopReason::FrameLimitReached)
        } else {
            Stage::Idle
        },
    decreases frames.len(),
{
    let events = good_cycles(frames);
    if frames.len() == 0 {
        assert(emitted_frames(s, events) =~= frames);
    } else {
        let frame = frames[0];
        let later = good_cycles(frames.skip(1));
        let s1 = next_state(s, Event::Poll { keep_running: true });
        let s2 = next_state(s1, Event::Acquired(frame));
        let s3 = next_state(s2, Event::Delivery(Delivery::Complete));
        assert(events == good_cycle(frame) + later);
        assert(events[0] == Event::Poll { keep_running: true });
        assert(events.skip(1)[0] == Event::Acquired(frame));
        assert(events.skip(1).skip(1)[0] == Event::Delivery(Delivery::Complete));
        let after_poll = events.skip(1);
        let after_acquire = after_poll.skip(1);
        assert(after_acquire.skip(1) =~= later);
        assert(run_from(s2, after_acquire) == run_from(s3, later));
        assert(run_from(s1, after_poll) == run_from(s2, after_acquire));
        assert(run_from(s, events) == run_from(s1, after_poll));
        assert(emitted_frames(s2, after_acquire) == seq![frame] + emitted_frames(s3, later));
        assert(emitted_frames(s1, after_poll) == emitted_frames(s2, after_acquire));
        assert(emitted_frames(s, events) == emitted_frames(s1, after_poll));
        if s3.stage == Stage::Idle {
            lemma_good_cycles(s3, frames.skip(1));
        } else {
            assert(frames.skip(1).len() == 0);
            assert(later =~= Seq::<Event>::empty());
        }
        assert(seq![frame] + frames.skip(1) =~= frames);
    }
}

/// With a limit of `max_frames` frames and nothing going wrong, exactly that
/// many frames are delivered, the first `max_frames` that the device hands
/// over, and the run then stops cleanly.
pub proof fn lemma_exactly_limit_frames(max_frames: nat, frames: Seq<FrameInfo>)
    requires
        max_frames > 0,
        frames.len() == max_frames,
    ensures
        run_from(initial_state(max_frames), good_cycles(frames)).stage == Stage::Stopping(
            StopReason::FrameLimitReached,
        ),
        run_from(initial_state(max_frames), good_cycles(frames)).frames_emitted == max_frames,
        emitted_frames(initial_state(max_frames), good_cycles(frames)) == frames,
        StopReason::FrameLimitReached.is_clean(),
        forall|more: Seq<Event>|
            run_from(
                run_from(initial_state(max_frames), good_cycles(frames)),
                more,
            ).frames_emitted == max_frames,
{
    lemma_good_cycles(initial_state(max_frames), frames);
    let end = run_from(initial_state(max_frames), good_cycles(frames));
    assert forall|more: Seq<Event>| run_from(end, more).frames_emitted == max_frames by {
        lemma_stop_is_final(end, more);
    }
}

/// When the reader goes away during the delivery that follows `k` delivered
/// frames, the run stops cleanly with those `k` frames delivered, and
/// delivers nothing more. A write that finds the pipe broken reports the
/// reader as gone.
pub proof fn lemma_reader_gone_stops_cleanly(s: PipelineState, events: Seq<Event>)
    requires
        s.stage matches Stage::Delivering(_),
    ensures
        forall|offered: Seq<u8>| #[trigger]
            write_next(offered, Err(IoFault::BrokenPipe)) == WriteState::Done(
                Delivery::ReaderGone,
            ),
        next_state(s, Event::Delivery(Delivery::ReaderGone)).stage == Stage::Stopping(
            StopReason::ReaderGone,
        ),
        StopReason::ReaderGone.is_clean(),
        run_from(next_state(s, Event::Delivery(Delivery::ReaderGone)), events).frames_emitted
            == s.frames_emitted,
        emitted_frames(next_state(s, Event::Delivery(Delivery::ReaderGone)), events).len() == 0,
{
    lemma_stop_is_final(next_state(s, Event::Delivery(Delivery::ReaderGone)), events);
}

} // verus!
