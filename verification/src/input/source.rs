//! A source of reads that spans several files as if they were one stream.
//!
//! The source itself touches no file. It decides, and whoever drives it does
//! the work: the driver tells the source what happened (an [`Event`]), and the
//! source answers with what is to be done next (an [`Action`]). At most one
//! file is open at any time, and the files are opened from the last path
//! given to the first.
//!
//! A driver starts with [`Event::Pull`] and then serves the source in a
//! loop: it opens the file of an [`Action::Open`], reads a record for an
//! [`Action::Read`], and reports how that went. The loop ends when the source
//! has something for the consumer: [`Action::Ready`] once the first file is
//! open, an item with [`Action::Yield`], [`Action::End`] or [`Action::Fail`].
//! For the next item the driver pulls again. What comes of this is stated in
//! [`crate::input::stream`].

use vstd::prelude::*;
use crate::error::{Error, ErrorView};

verus! {

/// The format of the files of a source.
#[derive(Clone, Copy, Debug, PartialEq, Eq, Structural)]
pub enum Format {
    Fastq,
    Bam,
}

/// What the driver reports to the source.
#[derive(Debug, PartialEq, Eq)]
pub enum Event {
    /// The consumer asks for the next item, or the driver asks what to do.
    Pull,
    /// The file that was to be opened is open.
    Opened,
    /// The file that was to be opened could not be opened.
    OpenFailed,
    /// The open file gave one more record, with these residues.
    Record(Vec<u8>),
    /// The open file has no record left.
    EndOfFile,
    /// The open file could not be decoded any further.
    ReadFailed,
}

/// The mathematical value of an [`Event`].
pub enum EventView {
    Pull,
    Opened,
    OpenFailed,
    Record(Seq<u8>),
    EndOfFile,
    ReadFailed,
}

impl View for Event {
    type V = EventView;

    open spec fn view(&self) -> EventView {
        match self {
            Event::Pull => EventView::Pull,
            Event::Opened => EventView::Opened,
            Event::OpenFailed => EventView::OpenFailed,
            Event::Record(residues) => EventView::Record(residues@),
            Event::EndOfFile => EventView::EndOfFile,
            Event::ReadFailed => EventView::ReadFailed,
        }
    }
}

/// What the source asks of the driver.
#[derive(Debug, PartialEq, Eq)]
pub enum Action {
    /// Open this file, and report [`Event::Opened`] or [`Event::OpenFailed`].
    Open { path: String, buffer_size: usize },
    /// Read one record of the open file, and report [`Event::Record`],
    /// [`Event::EndOfFile`] or [`Event::ReadFailed`].
    Read,
    /// The first file is open: the source is ready to be pulled.
    Ready,
    /// Hand this item to the consumer.
    Yield(Result<Vec<u8>, Error>),
    /// The stream is over.
    End,
    /// The first file could not be opened: there is no stream.
    Fail(Error),
}

/// The mathematical value of an [`Action`].
pub enum ActionView {
    Open { path: Seq<char>, buffer_size: usize },
    Read,
    Ready,
    Yield(Result<Seq<u8>, ErrorView>),
    End,
    Fail(ErrorView),
}

impl View for Action {
    type V = ActionView;

    open spec fn view(&self) -> ActionView {
        match self {
            Action::Open { path, buffer_size } => ActionView::Open {
                path: path@,
                buffer_size: *buffer_size,
            },
            Action::Read => ActionView::Read,
            Action::Ready => ActionView::Ready,
            Action::Yield(Ok(residues)) => ActionView::Yield(Ok(residues@)),
            Action::Yield(Err(error)) => ActionView::Yield(Err(error@)),
            Action::End => ActionView::End,
            Action::Fail(error) => ActionView::Fail(error@),
        }
    }
}

/// Where a source stands.
pub enum Stage {
    /// The driver was asked to open `path`. `first` says that no file was
    /// open before.
    Opening { path: Seq<char>, first: bool },
    /// The file at `path` is open and gives records.
    Reading { path: Seq<char> },
    /// The stream is over: no file is open and none will be opened.
    Done,
}

/// The failure to open the file at `path`.
pub open spec fn open_error(format: Format, path: Seq<char>) -> ErrorView {
    match format {
        Format::Fastq => ErrorView::FastqOpenError { path },
        Format::Bam => ErrorView::BamOpenError { path },
    }
}

/// The failure to decode a record of the file at `path`.
pub open spec fn parsing_error(format: Format, path: Seq<char>) -> ErrorView {
    match format {
        Format::Fastq => ErrorView::FastqParsingError { path },
        Format::Bam => ErrorView::BamParsingError { path },
    }
}

/// The mathematical value of a source: of a [`crate::input::Fastq`] or a
/// [`crate::input::Bam`].
pub struct SourceView {
    pub format: Format,
    pub buffer_size: usize,
    /// The paths that were not opened yet. The last one is opened next.
    pub queue: Seq<Seq<char>>,
    pub stage: Stage,
}

impl SourceView {
    /// The source over `inputs` before anything happened: it asks for the
    /// last path to be opened.
    pub open spec fn start(format: Format, inputs: Seq<Seq<char>>, buffer_size: usize) -> SourceView
        recommends
            inputs.len() > 0,
    {
        SourceView {
            format,
            buffer_size,
            queue: inputs.drop_last(),
            stage: Stage::Opening { path: inputs.last(), first: true },
        }
    }

    /// What the source is waiting for the driver to do.
    pub open spec fn request(self) -> ActionView {
        match self.stage {
            Stage::Opening { path, first } => ActionView::Open {
                path,
                buffer_size: self.buffer_size,
            },
            Stage::Reading { path } => ActionView::Read,
            Stage::Done => ActionView::End,
        }
    }

    /// The source once it has left its current file behind: it turns to the
    /// last path of the queue, or is done if the queue is empty.
    pub open spec fn advance(self) -> SourceView {
        if self.queue.len() == 0 {
            SourceView { stage: Stage::Done, ..self }
        } else {
            SourceView {
                queue: self.queue.drop_last(),
                stage: Stage::Opening { path: self.queue.last(), first: false },
                ..self
            }
        }
    }

    /// The source after `event`, and its answer.
    ///
    /// An event that is no answer to what the source is waiting for changes
    /// nothing; the source repeats its request.
    pub open spec fn step(self, event: EventView) -> (SourceView, ActionView) {
        match (self.stage, event) {
            (Stage::Opening { path, first }, EventView::Opened) => {
                let next = SourceView { stage: Stage::Reading { path }, ..self };
                (next, if first { ActionView::Ready } else { ActionView::Read })
            },
            (Stage::Opening { path, first }, EventView::OpenFailed) => {
                if first {
                    (
                        SourceView { stage: Stage::Done, ..self },
                        ActionView::Fail(open_error(self.format, path)),
                    )
                } else {
                    (self.advance(), ActionView::Yield(Err(open_error(self.format, path))))
                }
            },
            (Stage::Reading { path }, EventView::Record(residues)) => {
                (self, ActionView::Yield(Ok(residues)))
            },
            (Stage::Reading { path }, EventView::EndOfFile) => {
                (self.advance(), self.advance().request())
            },
            (Stage::Reading { path }, EventView::ReadFailed) => {
                (self.advance(), ActionView::Yield(Err(parsing_error(self.format, path))))
            },
            _ => (self, self.request()),
        }
    }
}

/// Which of the three stages a source is in.
#[derive(Clone, Copy, Debug, PartialEq, Eq, Structural)]
enum Phase {
    Opening,
    Reading,
    Done,
}

/// The state of a stream of reads over several files: the paths that are
/// still to be opened, and the one that is being opened or read.
#[derive(Debug)]
pub(crate) struct Source {
    format: Format,
    buffer_size: usize,
    /// The paths that were not opened yet; the last one is opened next.
    paths: Vec<String>,
    /// The path that is being opened or read. It means nothing once the
    /// source is done.
    current: String,
    /// Whether no file was open yet.
    first: bool,
    phase: Phase,
}

impl View for Source {
    type V = SourceView;

    closed spec fn view(&self) -> SourceView {
        SourceView {
            format: self.format,
            buffer_size: self.buffer_size,
            queue: self.paths.deep_view(),
            stage: match self.phase {
                Phase::Opening => Stage::Opening { path: self.current@, first: self.first },
                Phase::Reading => Stage::Reading { path: self.current@ },
                Phase::Done => Stage::Done,
            },
        }
    }
}

impl Source {
    /// A source over the files at `inputs`, which are read from the last to
    /// the first, each through a buffer of `buffer_size` bytes. No file is
    /// touched: the source starts out asking for the last path to be opened.
    ///
    /// Fails if and only if `inputs` is empty.
    pub(crate) fn new(format: Format, inputs: Vec<String>, buffer_size: usize) -> (r: Result<
        Source,
        Error,
    >)
        ensures
            match r {
                Ok(source) => inputs@.len() > 0 && source@ == SourceView::start(
                    format,
                    inputs.deep_view(),
                    buffer_size,
                ),
                Err(error) => inputs@.len() == 0 && error@ == ErrorView::InputsEmpty,
            },
    {
        let mut paths = inputs;
        match paths.pop() {
            None => Err(Error::InputsEmpty),
            Some(current) => {
                assert(paths.deep_view() =~= inputs.deep_view().drop_last());
                Ok(Source { format, buffer_size, paths, current, first: true, phase: Phase::Opening })
            },
        }
    }

    /// The size of the buffer that each file is to be read through.
    pub(crate) fn buffer_size(&self) -> (r: usize)
        ensures
            r == self@.buffer_size,
    {
        self.buffer_size
    }

    /// The failure to open the current path.
    fn open_error(&self) -> (r: Error)
        ensures
            r@ == open_error(self.format, self.current@),
    {
        match self.format {
            Format::Fastq => Error::FastqOpenError { path: self.current.clone() },
            Format::Bam => Error::BamOpenError { path: self.current.clone() },
        }
    }

    /// The failure to decode a record of the file at the current path.
    fn parsing_error(&self) -> (r: Error)
        ensures
            r@ == parsing_error(self.format, self.current@),
    {
        match self.format {
            Format::Fastq => Error::FastqParsingError { path: self.current.clone() },
            Format::Bam => Error::BamParsingError { path: self.current.clone() },
        }
    }

    /// What the source is waiting for the driver to do.
    fn request(&self) -> (r: Action)
        ensures
            r@ == self@.request(),
    {
        match self.phase {
            Phase::Opening => Action::Open {
                path: self.current.clone(),
                buffer_size: self.buffer_size,
            },
            Phase::Reading => Action::Read,
            Phase::Done => Action::End,
        }
    }

    /// Leaves the current file behind.
    fn advance(&mut self)
        ensures
            final(self)@ == old(self)@.advance(),
    {
        match self.paths.pop() {
            None => {
                self.phase = Phase::Done;
            },
            Some(path) => {
                assert(self.paths.deep_view() =~= old(self).paths.deep_view().drop_last());
                self.current = path;
                self.first = false;
                self.phase = Phase::Opening;
            },
        }
    }

    /// Takes in what the driver reports and answers with what is to be done
    /// next.
    pub(crate) fn next(&mut self, event: Event) -> (action: Action)
        ensures
            (final(self)@, action@) == old(self)@.step(event@),
    {
        match (self.phase, event) {
            (Phase::Opening, Event::Opened) => {
                self.phase = Phase::Reading;
                if self.first {
                    Action::Ready
                } else {
                    Action::Read
                }
            },
            (Phase::Opening, Event::OpenFailed) => {
                let error = self.open_error();
                if self.first {
                    self.phase = Phase::Done;
                    Action::Fail(error)
                } else {
                    self.advance();
                    Action::Yield(Err(error))
                }
            },
            (Phase::Reading, Event::Record(residues)) => Action::Yield(Ok(residues)),
            (Phase::Reading, Event::EndOfFile) => {
                self.advance();
                self.request()
            },
            (Phase::Reading, Event::ReadFailed) => {
                let error = self.parsing_error();
                self.advance();
                Action::Yield(Err(error))
            },
            _ => self.request(),
        }
    }
}

} // verus!
