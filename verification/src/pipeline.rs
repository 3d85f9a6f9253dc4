//! The capture loop as a state machine: which step comes next, given how the
//! last one ended.

use vstd::prelude::*;
use crate::sink::{Delivery, IoFault};

verus! {

/// What is known of a captured frame besides its bytes.
#[derive(Clone, Copy, Debug, PartialEq, Eq, Structural)]
pub struct FrameInfo {
    /// Number of payload bytes.
    pub length: usize,
    /// The device's running frame number.
    pub sequence: u64,
    /// Device clock at capture, whole seconds.
    pub timestamp_sec: i64,
    /// Device clock at capture, microseconds within the second.
    pub timestamp_usec: i64,
}

/// Why a run ended.
#[derive(Clone, Copy, Debug, PartialEq, Eq, Structural)]
pub enum StopReason {
    /// The shutdown flag was found cleared.
    ShutdownRequested,
    /// The configured number of frames has been delivered.
    FrameLimitReached,
    /// The reader of the destination went away.
    ReaderGone,
    /// Acquiring a frame failed.
    AcquireFailed,
    /// Delivering a frame failed.
    DeliverFailed,
}

/// The three states of a run.
#[derive(Clone, Copy, Debug, PartialEq, Eq, Structural)]
pub enum Phase {
    Running,
    Stopping,
    Stopped,
}

/// Where inside a run the pipeline stands.
#[derive(Clone, Copy, Debug, PartialEq, Eq, Structural)]
pub enum Stage {
    /// Between two cycles: the shutdown flag is looked at next.
    Idle,
    /// Waiting for the device to hand over a frame.
    Acquiring,
    /// Waiting for the sink to take the frame in hand.
    Delivering(FrameInfo),
    /// No further frame is acquired or delivered; resources are released next.
    Stopping(StopReason),
    /// The run is over.
    Stopped(StopReason),
}

/// What the driver reports back to the pipeline.
#[derive(Clone, Copy, Debug, PartialEq, Eq, Structural)]
pub enum Event {
    /// The shutdown flag as read at the top of a cycle.
    Poll { keep_running: bool },
    /// The device handed over a frame.
    Acquired(FrameInfo),
    /// The device did not hand over a frame.
    AcquireFailed(IoFault),
    /// The sink is done with the frame in hand.
    Delivery(Delivery),
    /// The buffer stream is released and the sink closed.
    Released,
}

/// What the driver is to do next.
#[derive(Clone, Copy, Debug, PartialEq, Eq, Structural)]
pub enum Action {
    /// Read the shutdown flag and report it.
    Poll,
    /// Take the next frame from the device.
    Acquire,
    /// Hand this frame to the sink.
    Deliver(FrameInfo),
    /// Release the buffer stream and close the sink.
    Release(StopReason),
    /// Nothing is left to do.
    Exit(StopReason),
}

/// The counters and flags of a run.
#[derive(Clone, Copy, Debug, PartialEq, Eq, Structural)]
pub struct RunState {
    /// Frames that the sink has taken in full.
    pub frames_emitted: usize,
    /// The number of frames to stop after, if any.
    pub limit: Option<usize>,
    /// False once the shutdown flag has been found cleared.
    pub keep_running: bool,
}

/// The pipeline as a mathematical value.
pub struct PipelineState {
    pub stage: Stage,
    pub frames_emitted: nat,
    pub limit: Option<nat>,
    pub keep_running: bool,
}

impl StopReason {
    /// A clean stop ends the process successfully; the others are failures.
    pub open spec fn is_clean(self) -> bool {
        self != StopReason::AcquireFailed && self != StopReason::DeliverFailed
    }

    /// Whether the run ended without a failure.
    pub fn clean(&self) -> (clean: bool)
        ensures
            clean == self.is_clean(),
    {
        match self {
            StopReason::AcquireFailed => false,
            StopReason::DeliverFailed => false,
            _ => true,
        }
    }
}

impl Stage {
    /// The state of the run that this stage belongs to.
    pub open spec fn phase(self) -> Phase {
        match self {
            Stage::Stopping(_) => Phase::Stopping,
            Stage::Stopped(_) => Phase::Stopped,
            _ => Phase::Running,
        }
    }
}

/// The state a run starts in. A limit of zero frames means no limit.
pub open spec fn initial_state(max_frames: nat) -> PipelineState {
    PipelineState {
        stage: Stage::Idle,
        frames_emitted: 0,
        limit: if max_frames == 0 { None } else { Some(max_frames) },
        keep_running: true,
    }
}

/// The state after one more frame has been taken by the sink.
pub open spec fn after_delivery(s: PipelineState) -> PipelineState {
    let emitted = s.frames_emitted + 1;
    PipelineState {
        stage: if s.limit == Some(emitted) {
            Stage::Stopping(StopReason::FrameLimitReached)
        } else {
            Stage::Idle
        },
        frames_emitted: emitted,
        ..s
    }
}

/// The transition function. An event that the current stage does not wait
/// for changes nothing.
pub open spec fn next_state(s: PipelineState, event: Event) -> PipelineState {
    match (s.stage, event) {
        (Stage::Idle, Event::Poll { keep_running }) => if keep_running && s.keep_running {
            PipelineState { stage: Stage::Acquiring, ..s }
        } else {
            PipelineState {
                stage: Stage::Stopping(StopReason::ShutdownRequested),
                keep_running: false,
                ..s
            }
        },
        (Stage::Acquiring, Event::Acquired(frame)) => PipelineState {
            stage: Stage::Delivering(frame),
            ..s
        },
        (Stage::Acquiring, Event::AcquireFailed(IoFault::Interrupted)) => PipelineState {
            stage: Stage::Idle,
            ..s
        },
        (Stage::Acquiring, Event::AcquireFailed(_)) => PipelineState {
            stage: Stage::Stopping(StopReason::AcquireFailed),
            ..s
        },
        (Stage::Delivering(_), Event::Delivery(Delivery::Complete)) => after_delivery(s),
        (Stage::Delivering(_), Event::Delivery(Delivery::ReaderGone)) => PipelineState {
            stage: Stage::Stopping(StopReason::ReaderGone),
            ..s
        },
        (Stage::Delivering(_), Event::Delivery(Delivery::Failed)) => PipelineState {
            stage: Stage::Stopping(StopReason::DeliverFailed),
            ..s
        },
        (Stage::Stopping(reason), Event::Released) => PipelineState {
            stage: Stage::Stopped(reason),
            ..s
        },
        _ => s,
    }
}

/// The step that a stage waits for.
pub open spec fn pending_action(stage: Stage) -> Action {
    match stage {
        Stage::Idle => Action::Poll,
        Stage::Acquiring => Action::Acquire,
        Stage::Delivering(frame) => Action::Deliver(frame),
        Stage::Stopping(reason) => Action::Release(reason),
        Stage::Stopped(reason) => Action::Exit(reason),
    }
}

/// The driver's side of the capture loop: it says which step comes next and
/// is told how each step ended.
pub struct CapturePipeline {
    run: RunState,
    stage: Stage,
}

impl View for CapturePipeline {
    type V = PipelineState;

    closed spec fn view(&self) -> PipelineState {
        PipelineState {
            stage: self.stage,
            frames_emitted: self.run.frames_emitted as nat,
            limit: match self.run.limit {
                Some(n) => Some(n as nat),
                None => None,
            },
            keep_running: self.run.keep_running,
        }
    }
}

impl CapturePipeline {
    /// A pipeline about to start its first cycle. `max_frames` is the number
    /// of frames to deliver before stopping; zero means no limit.
    pub fn new(max_frames: usize) -> (pipeline: CapturePipeline)
        ensures
            pipeline@ == initial_state(max_frames as nat),
    {
        CapturePipeline {
            run: RunState {
                frames_emitted: 0,
                limit: if max_frames == 0 { None } else { Some(max_frames) },
                keep_running: true,
            },
            stage: Stage::Idle,
        }
    }

    /// The current stage.
    pub fn stage(&self) -> (stage: Stage)
        ensures
            stage == self@.stage,
    {
        self.stage
    }

    /// The state of the run: running, stopping or stopped.
    pub fn phase(&self) -> (phase: Phase)
        ensures
            phase == self@.stage.phase(),
    {
        match self.stage {
            Stage::Stopping(_) => Phase::Stopping,
            Stage::Stopped(_) => Phase::Stopped,
            _ => Phase::Running,
        }
    }

    /// The counters and flags of the run.
    pub fn run_state(&self) -> (run: RunState)
        ensures
            run.frames_emitted == self@.frames_emitted,
            run.keep_running == self@.keep_running,
            match run.limit {
                Some(n) => self@.limit == Some(n as nat),
                None => self@.limit is None,
            },
    {
        self.run
    }

    /// The step that the pipeline waits for.
    pub fn pending(&self) -> (action: Action)
        ensures
            action == pending_action(self@.stage),
    {
        match self.stage {
            Stage::Idle => Action::Poll,
            Stage::Acquiring => Action::Acquire,
            Stage::Delivering(frame) => Action::Deliver(frame),
            Stage::Stopping(reason) => Action::Release(reason),
            Stage::Stopped(reason) => Action::Exit(reason),
        }
    }

    /// With a limit set, a run that goes on has not reached it.
    #[verifier::type_invariant]
    spec fn below_limit(&self) -> bool {
        self.run.limit matches Some(limit) ==> (self.stage.phase() == Phase::Running
            ==> self.run.frames_emitted < limit)
    }

    /// Takes in how the pending step ended and says which step comes next.
    ///
    /// A run without a limit counts its frames in a machine word: the
    /// delivery of one more frame must leave room for it.
    pub fn step(&mut self, event: Event) -> (action: Action)
        requires
            old(self)@.limit is None && old(self)@.stage is Delivering && event == Event::Delivery(
                Delivery::Complete,
            ) ==> old(self)@.frames_emitted < usize::MAX,
        ensures
            final(self)@ == next_state(old(self)@, event),
            action == pending_action(final(self)@.stage),
    {
        proof {
            use_type_invariant(&*self);
        }
        match (self.stage, event) {
            (Stage::Idle, Event::Poll { keep_running }) => {
                if keep_running && self.run.keep_running {
                    self.stage = Stage::Acquiring;
                } else {
                    self.stage = Stage::Stopping(StopReason::ShutdownRequested);
                    self.run.keep_running = false;
                }
            },
            (Stage::Acquiring, Event::Acquired(frame)) => {
                self.stage = Stage::Delivering(frame);
            },
            (Stage::Acquiring, Event::AcquireFailed(fault)) => {
                match fault {
                    IoFault::Interrupted => {
                        self.stage = Stage::Idle;
                    },
                    _ => {
                        self.stage = Stage::Stopping(StopReason::AcquireFailed);
                    },
                }
            },
            (Stage::Delivering(_), Event::Delivery(delivery)) => {
                match delivery {
                    Delivery::Complete => {
                        let emitted: usize = self.run.frames_emitted + 1;
                        let at_limit = match self.run.limit {
                            Some(limit) => limit == emitted,
                            None => false,
                        };
                        self.stage = Stage::Stopping(StopReason::FrameLimitReached);
                        self.run.frames_emitted = emitted;
                        if !at_limit {
                            self.stage = Stage::Idle;
                        }
                    },
                    Delivery::ReaderGone => {
                        self.stage = Stage::Stopping(StopReason::ReaderGone);
                    },
                    Delivery::Failed => {
                        self.stage = Stage::Stopping(StopReason::DeliverFailed);
                    },
                }
            },
            (Stage::Stopping(reason), Event::Released) => {
                self.stage = Stage::Stopped(reason);
            },
            _ => {},
        }
        self.pending()
    }
}

} // verus!
