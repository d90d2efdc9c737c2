//! What the command line asks for.

use vstd::prelude::*;

verus! {

/// `log::Level`, which is a plain enum of five levels: `Error`, `Warn`,
/// `Info`, `Debug` and `Trace`, from the least verbose to the most.
#[verifier::external_type_specification]
pub struct ExLevel(log::Level);

/// The size in bytes of the buffer that files are read through when the
/// command line names none.
pub const DEFAULT_BUFFER_SIZE: usize = 8192;

/// The arguments of a run.
#[derive(Debug)]
pub struct Command {
    /// FASTQ inputs.
    pub fastq: Vec<String>,
    /// BAM inputs.
    pub bam: Option<Vec<String>>,
    /// Where the result is written; the standard output if absent.
    pub output: Option<String>,
    /// Size of the reading buffer in bytes.
    pub buffer_size: Option<usize>,
    /// Number of threads; all cores if absent or zero.
    pub threads: Option<usize>,
    /// How many times the verbosity flag was given.
    pub verbosity: i8,
}

impl Command {
    /// The size of the reading buffer: the one that was asked for, or
    /// [`DEFAULT_BUFFER_SIZE`].
    pub fn reading_buffer_size(&self) -> (r: usize)
        ensures
            r == match self.buffer_size {
                Some(size) => size,
                None => DEFAULT_BUFFER_SIZE,
            },
    {
        match self.buffer_size {
            Some(size) => size,
            None => DEFAULT_BUFFER_SIZE,
        }
    }
}

/// The log level for a number of verbosity flags: none up to zero, then one
/// level more for each flag, up to the most verbose.
pub open spec fn level_of(flags: int) -> Option<log::Level> {
    if flags <= 0 {
        None
    } else if flags == 1 {
        Some(log::Level::Error)
    } else if flags == 2 {
        Some(log::Level::Warn)
    } else if flags == 3 {
        Some(log::Level::Info)
    } else if flags == 4 {
        Some(log::Level::Debug)
    } else {
        Some(log::Level::Trace)
    }
}

/// Converts a verbosity, the number of times the flag was given, into a log
/// level.
pub fn i82level(level: i8) -> (r: Option<log::Level>)
    ensures
        r == level_of(level as int),
{
    if level <= 0 {
        None
    } else if level == 1 {
        Some(log::Level::Error)
    } else if level == 2 {
        Some(log::Level::Warn)
    } else if level == 3 {
        Some(log::Level::Info)
    } else if level == 4 {
        Some(log::Level::Debug)
    } else {
        Some(log::Level::Trace)
    }
}

} // verus!
