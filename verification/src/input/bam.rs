//! Reads in BAM files.

use vstd::prelude::*;
use crate::composition::{contribution, count, tally_of};
use crate::error::{Error, ErrorView};
use crate::input::source::{Action, Event, Format, Source, SourceView};

verus! {

/// A stream of the reads of several BAM files, one file after the other.
///
/// The stream is driven from outside: see [`crate::input::source`].
#[derive(Debug)]
pub struct Bam {
    source: Source,
}

impl View for Bam {
    type V = SourceView;

    closed spec fn view(&self) -> SourceView {
        self.source@
    }
}

impl Bam {
    /// A stream over the files at `inputs`, which are read from the last to
    /// the first, each through a buffer of `buffer_size` bytes. No file is
    /// touched yet: the stream starts out asking for the last path to be
    /// opened, and is ready once the driver reports that file open.
    ///
    /// Fails if and only if `inputs` is empty.
    pub fn new(inputs: Vec<String>, buffer_size: usize) -> (r: Result<Bam, Error>)
        ensures
            match r {
                Ok(stream) => inputs@.len() > 0 && stream@ == SourceView::start(
                    Format::Bam,
                    inputs.deep_view(),
                    buffer_size,
                ),
                Err(error) => inputs@.len() == 0 && error@ == ErrorView::InputsEmpty,
            },
    {
        match Source::new(Format::Bam, inputs, buffer_size) {
            Ok(source) => Ok(Bam { source }),
            Err(error) => Err(error),
        }
    }

    /// The size of the buffer that each file is to be read through.
    pub fn buffer_size(&self) -> (r: usize)
        ensures
            r == self@.buffer_size,
    {
        self.source.buffer_size()
    }

    /// Takes in what the driver reports and answers with what is to be done
    /// next: open a file, read a record, hand an item to the consumer, or
    /// stop.
    pub fn next(&mut self, event: Event) -> (action: Action)
        ensures
            (final(self)@, action@) == old(self)@.step(event@),
    {
        self.source.next(event)
    }
}

/// Turns one item of the stream into counters: a read into its counts and one
/// record, a failure of whatever kind into nothing.
///
/// The residues of a read are its bases, each as the letter that stands for
/// it. The ambiguity codes and `=` count as other.
pub fn worker<E>(wrapper: Result<Vec<u8>, E>) -> (r: (u64, u64, u64, u64))
    ensures
        tally_of(r) == contribution(wrapper),
        wrapper matches Ok(residues) ==> r.0 + r.1 + r.2 == residues@.len() && r.3 == 1,
        wrapper is Err ==> r == (0u64, 0u64, 0u64, 0u64),
{
    match wrapper {
        Ok(seq) => count(&seq),
        Err(_) => (0, 0, 0, 0),
    }
}

} // verus!
