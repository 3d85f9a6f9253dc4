//! Pipes as a destination: how one is recognised, how its capacity is tuned
//! and how a frame is moved into it piece by piece.

use vstd::prelude::*;
use crate::sink::{write_next, write_step, IoFault, WriteStep};
use crate::text::{bounded_value, parse_trimmed_usize, trim_end};

verus! {

/// The mask for the file-type bits of a file mode: the constant
/// `libc::S_IFMT`. Taken on trust: that its value is octal 170000, as the
/// `libc` crate defines it.
#[verifier::external_body]
fn file_type_mask() -> (mask: u32)
    ensures
        mask == 0o170000u32,
{
    libc::S_IFMT as u32
}

/// The file-type bits of a FIFO: the constant `libc::S_IFIFO`. Taken on
/// trust: that its value is octal 010000, as the `libc` crate defines it.
#[verifier::external_body]
fn fifo_file_type() -> (bits: u32)
    ensures
        bits == 0o010000u32,
{
    libc::S_IFIFO as u32
}

/// Whether a file mode is that of a pipe.
pub open spec fn mode_is_pipe(st_mode: u32) -> bool {
    st_mode & 0o170000u32 == 0o010000u32
}

/// Whether the destination is a pipe, given the mode that its status query
/// returned, or `None` where the query failed.
pub fn is_pipe(st_mode: Option<u32>) -> (pipe: bool)
    ensures
        pipe == (st_mode matches Some(mode) && mode_is_pipe(mode)),
{
    match st_mode {
        Some(mode) => mode & file_type_mask() == fifo_file_type(),
        None => false,
    }
}

/// Why a pipe's capacity could not be worked out.
#[derive(Clone, Copy, Debug, PartialEq, Eq, Structural)]
pub enum PipeSizeError {
    /// The system's ceiling is not a number.
    Malformed,
    /// The system's ceiling is more than a capacity request can hold.
    TooLarge,
}

/// The ceiling on pipe capacities that a text names: the number that the
/// text stands for once the white space at its end is gone.
pub open spec fn pipe_max_size_of(contents: Seq<char>) -> Result<usize, PipeSizeError> {
    match bounded_value(trim_end(contents), usize::MAX as nat) {
        Some(size) => Ok(size as usize),
        None => Err(PipeSizeError::Malformed),
    }
}

/// Reads the system's ceiling on pipe capacities from the content of the
/// file in which the system publishes it.
pub fn get_pipe_max_size(contents: &str) -> (max_size: Result<usize, PipeSizeError>)
    ensures
        max_size == pipe_max_size_of(contents@),
{
    match parse_trimmed_usize(contents) {
        Some(size) => Ok(size),
        None => Err(PipeSizeError::Malformed),
    }
}

/// The capacity of a pipe and the ceiling that the system allows.
#[derive(Clone, Copy, Debug, PartialEq, Eq, Structural)]
pub struct PipeCapacity {
    /// Bytes that the pipe holds now.
    pub current: i32,
    /// The most that the system lets a pipe hold.
    pub maximum: i32,
}

impl PipeCapacity {
    /// Puts the pipe's capacity beside the system's ceiling. The ceiling has
    /// to fit the integer that a capacity request carries.
    pub fn new(current: i32, max_size: usize) -> (capacity: Result<PipeCapacity, PipeSizeError>)
        ensures
            max_size <= i32::MAX ==> capacity == Ok::<PipeCapacity, PipeSizeError>(
                PipeCapacity { current, maximum: max_size as i32 },
            ),
            max_size > i32::MAX ==> capacity == Err::<PipeCapacity, PipeSizeError>(
                PipeSizeError::TooLarge,
            ),
    {
        if max_size <= i32::MAX as usize {
            Ok(PipeCapacity { current, maximum: max_size as i32 })
        } else {
            Err(PipeSizeError::TooLarge)
        }
    }

    /// The capacity to ask for: the ceiling where the pipe is below it,
    /// nothing otherwise.
    pub open spec fn request(self) -> Option<i32> {
        if self.current < self.maximum {
            Some(self.maximum)
        } else {
            None
        }
    }
}

/// Decides whether the pipe's capacity is to be raised, and to what: to the
/// system's ceiling if the pipe is below it. A pipe at or above the ceiling
/// is left alone.
pub fn set_pipe_max_size(capacity: &PipeCapacity) -> (request: Option<i32>)
    ensures
        request == capacity.request(),
{
    if capacity.current < capacity.maximum {
        Some(capacity.maximum)
    } else {
        None
    }
}

/// A capacity request is always for more than the pipe holds, and for the
/// ceiling exactly: the capacity is never lowered. Once the pipe holds what
/// was asked for, or more, nothing further is asked: tuning again changes
/// nothing.
pub proof fn lemma_capacity_raised_once(capacity: PipeCapacity, granted: i32)
    ensures
        capacity.request() matches Some(size) ==> size > capacity.current && size
            == capacity.maximum,
        capacity.request() is None ==> capacity.current >= capacity.maximum,
        granted >= capacity.maximum ==> (PipeCapacity {
            current: granted,
            maximum: capacity.maximum,
        }).request() is None,
{
}

/// One decision in moving a buffer into a pipe by page transfer: the
/// decision of any sink, each attempt being one transfer.
///
/// `buf` is what the last transfer offered and `outcome` how it ended. A
/// buffer starts whole, with `Ok(0)`; an empty one is delivered at once.
pub fn vmsplice_single_buffer<'a>(buf: &'a [u8], outcome: Result<usize, IoFault>) -> (step:
    WriteStep<'a>)
    requires
        outcome matches Ok(accepted) ==> accepted <= buf@.len(),
    ensures
        step@ == write_next(buf@, outcome),
{
    write_step(buf, outcome)
}

} // verus!
