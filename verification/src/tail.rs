//! The decisions of the tailer that reads the last lines of a file: how far
//! from the end to read, and whether what was read is enough. The reading
//! itself is done by the caller.

use vstd::prelude::*;

verus! {

/// The bytes that a line is expected to take.
pub const ESTIMATED_LINE_LENGTH: usize = 512;

/// What to do after a read from the end of the file.
#[derive(Clone, Copy, PartialEq, Eq, Debug, Structural)]
pub enum ReadPlan {
    /// Enough was read: drop this many lines from the front of what was
    /// read and keep the rest.
    Keep(usize),
    /// Too little was read: read this many bytes from the end of the file.
    Read(usize),
}

/// `factor` times `value`, or the greatest number where that is beyond it.
pub open spec fn saturated(value: int, factor: int) -> int {
    if value * factor <= usize::MAX {
        value * factor
    } else {
        usize::MAX as int
    }
}

/// The bytes to read from the end of the file in the first attempt to get
/// `lines` lines.
pub fn estimated_required_bytes(lines: usize) -> (bytes: usize)
    ensures
        bytes == saturated(lines as int, ESTIMATED_LINE_LENGTH as int),
{
    match lines.checked_mul(ESTIMATED_LINE_LENGTH) {
        Some(bytes) => bytes,
        None => usize::MAX,
    }
}

/// How far from the end of a file of `file_size` bytes a read of `bytes`
/// bytes starts, and whether the read asks for more than the file holds, so
/// that it reaches the start of the file.
pub fn seekable_bytes(bytes: usize, file_size: usize) -> (r: (usize, bool))
    ensures
        r.0 == if bytes > file_size {
            file_size
        } else {
            bytes
        },
        r.1 == (bytes > file_size),
{
    if bytes > file_size {
        (file_size, true)
    } else {
        (bytes, false)
    }
}

/// The number of lines to drop from the front of `count` lines read so that
/// `target_lines` are left, if the read is to be kept: it is kept when it
/// holds enough lines, or when it reached the start of the file.
pub fn excess_lines_at_beginning_of_buffer(
    count: usize,
    target_lines: usize,
    start_of_file_reached: bool,
) -> (excess: Option<usize>)
    ensures
        excess == if count >= target_lines {
            Some((count - target_lines) as usize)
        } else if start_of_file_reached {
            Some(0usize)
        } else {
            None
        },
{
    if count >= target_lines {
        Some(count - target_lines)
    } else if start_of_file_reached {
        Some(0)
    } else {
        None
    }
}

/// What to do after a read of `bytes` bytes gave `count` lines: keep it, or
/// read twice as far.
pub fn read_lines_conditionally(
    bytes: usize,
    count: usize,
    target_lines: usize,
    start_of_file_reached: bool,
) -> (plan: ReadPlan)
    ensures
        plan == if count >= target_lines {
            ReadPlan::Keep((count - target_lines) as usize)
        } else if start_of_file_reached {
            ReadPlan::Keep(0)
        } else {
            ReadPlan::Read(saturated(bytes as int, 2) as usize)
        },
{
    match excess_lines_at_beginning_of_buffer(count, target_lines, start_of_file_reached) {
        Some(excess) => ReadPlan::Keep(excess),
        None => match bytes.checked_mul(2) {
            Some(doubled) => ReadPlan::Read(doubled),
            None => ReadPlan::Read(usize::MAX),
        },
    }
}

} // verus!
