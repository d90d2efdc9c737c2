//! What can go wrong with a source of reads.

use vstd::prelude::*;

verus! {

/// A failure of a source. Only the first two kinds of it end a run: the
/// others take the place of one item of the stream, and the run goes on.
#[derive(Debug, PartialEq, Eq)]
pub enum Error {
    /// No input path was given.
    InputsEmpty,
    /// A FASTQ file could not be opened.
    FastqOpenError { path: String },
    /// A record of a FASTQ file could not be decoded.
    FastqParsingError { path: String },
    /// A BAM file could not be opened.
    BamOpenError { path: String },
    /// A record of a BAM file could not be decoded.
    BamParsingError { path: String },
}

/// The mathematical value of an [`Error`].
pub enum ErrorView {
    InputsEmpty,
    FastqOpenError { path: Seq<char> },
    FastqParsingError { path: Seq<char> },
    BamOpenError { path: Seq<char> },
    BamParsingError { path: Seq<char> },
}

impl View for Error {
    type V = ErrorView;

    open spec fn view(&self) -> ErrorView {
        match self {
            Error::InputsEmpty => ErrorView::InputsEmpty,
            Error::FastqOpenError { path } => ErrorView::FastqOpenError { path: path@ },
            Error::FastqParsingError { path } => ErrorView::FastqParsingError { path: path@ },
            Error::BamOpenError { path } => ErrorView::BamOpenError { path: path@ },
            Error::BamParsingError { path } => ErrorView::BamParsingError { path: path@ },
        }
    }
}

} // verus!
