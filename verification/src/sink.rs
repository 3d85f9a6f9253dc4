//! Output sinks: which one a destination gets, and how a frame is written to
//! it piece by piece.

use vstd::prelude::*;
use crate::pipe::{is_pipe, mode_is_pipe};

verus! {

/// What an interrupted or failed system call reported, as far as the
/// pipeline distinguishes failures.
#[derive(Clone, Copy, Debug, PartialEq, Eq, Structural)]
pub enum IoFault {
    /// The call was interrupted before it did anything.
    Interrupted,
    /// The reader of the destination has closed its end.
    BrokenPipe,
    /// Any other failure.
    Other,
}

/// How the delivery of one frame ended.
#[derive(Clone, Copy, Debug, PartialEq, Eq, Structural)]
pub enum Delivery {
    /// The sink took the whole frame.
    Complete,
    /// The reader is gone: a clean end of the run.
    ReaderGone,
    /// The sink failed for good.
    Failed,
}

/// The destination, as far as the way of writing to it goes. It is chosen
/// once, when the destination is opened.
#[derive(Clone, Copy, Debug, PartialEq, Eq, Structural)]
pub enum OutputSink {
    /// A plain file: each frame goes out by sequential writes.
    BufferedFile,
    /// A pipe: each frame's pages are handed to the kernel without a copy.
    PipeZeroCopy,
}

impl OutputSink {
    /// The sink for a destination with file mode `st_mode`, or with `None`
    /// where the mode could not be had.
    pub open spec fn for_mode(st_mode: Option<u32>) -> OutputSink {
        if st_mode matches Some(mode) && mode_is_pipe(mode) {
            OutputSink::PipeZeroCopy
        } else {
            OutputSink::BufferedFile
        }
    }

    /// Chooses the sink by the destination's file mode: the zero-copy sink
    /// for a pipe, the buffered one for anything else.
    pub fn select(st_mode: Option<u32>) -> (sink: OutputSink)
        ensures
            sink == OutputSink::for_mode(st_mode),
    {
        if is_pipe(st_mode) {
            OutputSink::PipeZeroCopy
        } else {
            OutputSink::BufferedFile
        }
    }
}

/// What comes next in writing a frame to the destination.
#[derive(Clone, Copy, Debug)]
pub enum WriteStep<'a> {
    /// Offer these bytes to the destination.
    Submit(&'a [u8]),
    /// Nothing more is written of this frame.
    Done(Delivery),
}

/// [`WriteStep`] as a mathematical value.
pub enum WriteState {
    Submit(Seq<u8>),
    Done(Delivery),
}

impl<'a> View for WriteStep<'a> {
    type V = WriteState;

    open spec fn view(&self) -> WriteState {
        match *self {
            WriteStep::Submit(rest) => WriteState::Submit(rest@),
            WriteStep::Done(delivery) => WriteState::Done(delivery),
        }
    }
}

/// The step that follows an attempt to write `offered`.
///
/// Bytes that were accepted are left behind and the rest is offered again;
/// an interrupted attempt is repeated as it was; a lost reader ends the run
/// cleanly and any other failure for good. With nothing left to offer the
/// frame is delivered.
pub open spec fn write_next(offered: Seq<u8>, outcome: Result<usize, IoFault>) -> WriteState {
    match outcome {
        Ok(accepted) => if accepted >= offered.len() {
            WriteState::Done(Delivery::Complete)
        } else {
            WriteState::Submit(offered.skip(accepted as int))
        },
        Err(IoFault::Interrupted) => WriteState::Submit(offered),
        Err(IoFault::BrokenPipe) => WriteState::Done(Delivery::ReaderGone),
        Err(IoFault::Other) => WriteState::Done(Delivery::Failed),
    }
}

/// One decision in writing a frame to the destination, whichever sink it is.
///
/// `buf` is what the last write attempt offered and `outcome` how that
/// attempt ended: the number of bytes that the destination accepted, or the
/// failure. A frame starts with all its bytes and `Ok(0)`, nothing being
/// accepted yet; an empty frame is delivered at once.
pub fn write_step<'a>(buf: &'a [u8], outcome: Result<usize, IoFault>) -> (step: WriteStep<'a>)
    requires
        outcome matches Ok(accepted) ==> accepted <= buf@.len(),
    ensures
        step@ == write_next(buf@, outcome),
{
    match outcome {
        Ok(accepted) => {
            if accepted == buf.len() {
                WriteStep::Done(Delivery::Complete)
            } else {
                WriteStep::Submit(&buf[accepted..buf.len()])
            }
        },
        Err(fault) => {
            match fault {
                IoFault::Interrupted => WriteStep::Submit(buf),
                IoFault::BrokenPipe => WriteStep::Done(Delivery::ReaderGone),
                IoFault::Other => WriteStep::Done(Delivery::Failed),
            }
        },
    }
}

/// The bytes that the destination took in one attempt.
pub open spec fn taken(offered: Seq<u8>, outcome: Result<usize, IoFault>) -> Seq<u8> {
    match outcome {
        Ok(accepted) => offered.take(accepted as int),
        Err(_) => Seq::empty(),
    }
}

/// The state of a frame's writing after the attempts have ended as `outcomes`
/// say, one after the other. Outcomes past the end of the writing count for
/// nothing.
pub open spec fn write_run(state: WriteState, outcomes: Seq<Result<usize, IoFault>>) -> WriteState
    decreases outcomes.len(),
{
    if outcomes.len() == 0 {
        state
    } else {
        match state {
            WriteState::Submit(offered) => write_run(
                write_next(offered, outcomes[0]),
                outcomes.skip(1),
            ),
            _ => state,
        }
    }
}

/// Everything that the destination took during those attempts, in the order
/// in which it took it.
pub open spec fn write_output(state: WriteState, outcomes: Seq<Result<usize, IoFault>>) -> Seq<u8>
    decreases outcomes.len(),
{
    if outcomes.len() == 0 {
        Seq::empty()
    } else {
        match state {
            WriteState::Submit(offered) => taken(offered, outcomes[0]) + write_output(
                write_next(offered, outcomes[0]),
                outcomes.skip(1),
            ),
            _ => Seq::empty(),
        }
    }
}

/// Whether no attempt is said to have accepted more than it was offered.
pub open spec fn outcomes_fit(state: WriteState, outcomes: Seq<Result<usize, IoFault>>) -> bool
    decreases outcomes.len(),
{
    if outcomes.len() == 0 {
        true
    } else {
        match state {
            WriteState::Submit(offered) => {
                &&& outcomes[0] matches Ok(accepted) ==> accepted <= offered.len()
                &&& outcomes_fit(write_next(offered, outcomes[0]), outcomes.skip(1))
            },
            _ => true,
        }
    }
}

/// What is still to be written.
pub open spec fn remainder(state: WriteState) -> Seq<u8> {
    match state {
        WriteState::Submit(rest) => rest,
        _ => Seq::empty(),
    }
}

/// Whatever the sizes in which the destination accepts a frame, and however
/// often an attempt is interrupted, the destination receives the frame's
/// bytes in order, none twice and none left out: what it took so far and
/// what is still to be written make up the frame, and a frame that is
/// delivered has arrived byte for byte. Where the writing ended early, a
/// prefix has arrived.
pub proof fn lemma_write_exact(frame: Seq<u8>, outcomes: Seq<Result<usize, IoFault>>)
    requires
        outcomes_fit(WriteState::Submit(frame), outcomes),
    ensures
        write_output(WriteState::Submit(frame), outcomes).is_prefix_of(frame),
        write_run(WriteState::Submit(frame), outcomes) is Submit ==> write_output(
            WriteState::Submit(frame),
            outcomes,
        ) + remainder(write_run(WriteState::Submit(frame), outcomes)) == frame,
        write_run(WriteState::Submit(frame), outcomes) == WriteState::Done(Delivery::Complete)
            ==> write_output(WriteState::Submit(frame), outcomes) == frame,
    decreases outcomes.len(),
{
    let start = WriteState::Submit(frame);
    let output = write_output(start, outcomes);
    if outcomes.len() == 0 {
        assert(output + frame =~= frame);
    } else {
        let next = write_next(frame, outcomes[0]);
        let rest = outcomes.skip(1);
        let first = taken(frame, outcomes[0]);
        match next {
            WriteState::Submit(left) => {
                lemma_write_exact(left, rest);
                let later = write_output(next, rest);
                assert(first + left =~= frame);
                assert(output =~= first + later);
                if write_run(next, rest) is Submit {
                    assert((first + later) + remainder(write_run(next, rest)) =~= first + (later
                        + remainder(write_run(next, rest))));
                }
            },
            WriteState::Done(delivery) => {
                assert(write_output(next, rest) =~= Seq::<u8>::empty());
                assert(output =~= first);
                if delivery == Delivery::Complete {
                    assert(first =~= frame);
                }
            },
        }
    }
}

} // verus!
