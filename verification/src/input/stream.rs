//! What a source yields when it is driven faithfully: the reads of its files
//! as one stream, from the last file listed to the first.

use vstd::prelude::*;
use crate::error::ErrorView;
use crate::input::source::{
    open_error,
    parsing_error,
    ActionView,
    EventView,
    Format,
    SourceView,
    Stage,
};

verus! {

/// What a driver finds at a path when it is asked to open it.
pub enum File {
    /// Nothing that can be opened.
    Missing,
    /// A file that gives `records` one by one, and then either ends or, if
    /// it is `broken`, cannot be decoded any further.
    Readable { records: Seq<Seq<u8>>, broken: bool },
}

/// One item of the stream: the residues of a read, or a failure.
pub type Item = Result<Seq<u8>, ErrorView>;

/// The item that stands for an end of a file that cannot be decoded, if it
/// is `broken`.
pub open spec fn break_items(format: Format, path: Seq<char>, broken: bool) -> Seq<Item> {
    if broken {
        seq![Err(parsing_error(format, path))]
    } else {
        Seq::empty()
    }
}

/// The reads of `records` as items.
pub open spec fn read_items(records: Seq<Seq<u8>>) -> Seq<Item> {
    records.map_values(|residues: Seq<u8>| Ok::<Seq<u8>, ErrorView>(residues))
}

/// What one file adds to the stream: one failure if it cannot be opened,
/// else its reads, and one failure behind them if it breaks off.
pub open spec fn file_items(format: Format, path: Seq<char>, file: File) -> Seq<Item> {
    match file {
        File::Missing => seq![Err(open_error(format, path))],
        File::Readable { records, broken } => read_items(records) + break_items(
            format,
            path,
            broken,
        ),
    }
}

/// The stream over the files at `inputs`, where `files[i]` is found at
/// `inputs[i]`: the items of the last file, then those of the one before it,
/// down to the first.
pub open spec fn stream(format: Format, inputs: Seq<Seq<char>>, files: Seq<File>) -> Seq<Item>
    recommends
        inputs.len() == files.len(),
    decreases inputs.len(),
{
    if inputs.len() == 0 {
        Seq::empty()
    } else {
        file_items(format, inputs.last(), files.last()) + stream(
            format,
            inputs.drop_last(),
            files.drop_last(),
        )
    }
}

/// The items that a consumer gets from `source` during at most `steps`
/// exchanges with a driver that starts by reporting `event` and that does as
/// it is told: asked to open a path, it takes the last of `unopened`; asked
/// to read, it takes the first of `records`, the records that the open file
/// has left, and reports a failure or the end of the file once there is
/// none, depending on `broken`; and after each item it pulls again.
pub open spec fn driven(
    source: SourceView,
    event: EventView,
    unopened: Seq<File>,
    records: Seq<Seq<u8>>,
    broken: bool,
    steps: nat,
) -> Seq<Item>
    decreases steps,
{
    if steps == 0 {
        Seq::empty()
    } else {
        let (next, action) = source.step(event);
        let left = (steps - 1) as nat;
        match action {
            ActionView::Open { path, buffer_size } => {
                if unopened.len() == 0 {
                    Seq::empty()
                } else {
                    match unopened.last() {
                        File::Missing => driven(
                            next,
                            EventView::OpenFailed,
                            unopened.drop_last(),
                            Seq::empty(),
                            false,
                            left,
                        ),
                        File::Readable { records: found, broken: breaks } => driven(
                            next,
                            EventView::Opened,
                            unopened.drop_last(),
                            found,
                            breaks,
                            left,
                        ),
                    }
                }
            },
            ActionView::Read => {
                if records.len() > 0 {
                    driven(
                        next,
                        EventView::Record(records.first()),
                        unopened,
                        records.drop_first(),
                        broken,
                        left,
                    )
                } else if broken {
                    driven(next, EventView::ReadFailed, unopened, records, false, left)
                } else {
                    driven(next, EventView::EndOfFile, unopened, records, false, left)
                }
            },
            ActionView::Ready => driven(next, EventView::Pull, unopened, records, broken, left),
            ActionView::Yield(item) => seq![item] + driven(
                next,
                EventView::Pull,
                unopened,
                records,
                broken,
                left,
            ),
            ActionView::End => Seq::empty(),
            ActionView::Fail(error) => Seq::empty(),
        }
    }
}

/// A number of exchanges that is enough to drive a source over `files` to
/// its end.
pub open spec fn enough_steps(files: Seq<File>) -> nat
    decreases files.len(),
{
    if files.len() == 0 {
        2
    } else {
        let reads = match files.last() {
            File::Missing => 0,
            File::Readable { records, broken } => records.len(),
        };
        enough_steps(files.drop_last()) + 2 * reads + 4
    }
}

/// From a source that is about to read its open file, the driver gets the
/// reads that this file has left, the failure if it breaks off, and then the
/// stream over the files that are not opened yet.
proof fn lemma_driven_reading(
    source: SourceView,
    event: EventView,
    path: Seq<char>,
    unopened: Seq<File>,
    records: Seq<Seq<u8>>,
    broken: bool,
    steps: nat,
)
    requires
        source.step(event).0.stage == (Stage::Reading { path }),
        source.step(event).1 == ActionView::Read,
        source.step(event).0.queue.len() == unopened.len(),
        steps >= enough_steps(unopened) + 2 * records.len() + 2,
    ensures
        driven(source, event, unopened, records, broken, steps) == read_items(records)
            + break_items(source.step(event).0.format, path, broken) + stream(
            source.step(event).0.format,
            source.step(event).0.queue,
            unopened,
        ),
    decreases unopened.len(), 1 + records.len(),
{
    let reading = source.step(event).0;
    if records.len() > 0 {
        let first = records.first();
        let later = records.drop_first();
        lemma_driven_reading(
            reading,
            EventView::Pull,
            path,
            unopened,
            later,
            broken,
            (steps - 2) as nat,
        );
        assert(driven(source, event, unopened, records, broken, steps) == seq![
            Ok::<Seq<u8>, ErrorView>(first),
        ] + driven(reading, EventView::Pull, unopened, later, broken, (steps - 2) as nat)) by {
            assert(driven(source, event, unopened, records, broken, steps) == driven(
                reading,
                EventView::Record(first),
                unopened,
                later,
                broken,
                (steps - 1) as nat,
            ));
        }
    } else {
        let turned = reading.advance();
        assert(pending(turned) =~= reading.queue);
        if broken {
            let failure = Err::<Seq<u8>, ErrorView>(parsing_error(reading.format, path));
            lemma_driven_opening(turned, unopened, (steps - 2) as nat);
            assert(driven(source, event, unopened, records, broken, steps) == seq![failure]
                + driven(
                turned,
                EventView::Pull,
                unopened,
                records,
                false,
                (steps - 2) as nat,
            )) by {
                assert(driven(source, event, unopened, records, broken, steps) == driven(
                    reading,
                    EventView::ReadFailed,
                    unopened,
                    records,
                    false,
                    (steps - 1) as nat,
                ));
            }
        } else {
            lemma_driven_opening(turned, unopened, (steps - 1) as nat);
            assert(driven(source, event, unopened, records, broken, steps) == driven(
                turned,
                EventView::Pull,
                unopened,
                records,
                false,
                (steps - 1) as nat,
            )) by {
                assert(driven(source, event, unopened, records, broken, steps) == driven(
                    reading,
                    EventView::EndOfFile,
                    unopened,
                    records,
                    false,
                    (steps - 1) as nat,
                ));
            }
        }
    }
}

/// The paths that a source has still to open, the next one last.
pub open spec fn pending(source: SourceView) -> Seq<Seq<char>> {
    match source.stage {
        Stage::Opening { path, first } => source.queue.push(path),
        _ => source.queue,
    }
}

/// From a source that has no file open, the driver gets the stream over the
/// files that are not opened yet.
proof fn lemma_driven_opening(source: SourceView, unopened: Seq<File>, steps: nat)
    requires
        source.stage matches Stage::Opening { path, first } ==> !first,
        source.stage is Done ==> source.queue.len() == 0,
        !(source.stage is Reading),
        pending(source).len() == unopened.len(),
        steps >= enough_steps(unopened),
    ensures
        driven(source, EventView::Pull, unopened, Seq::empty(), false, steps) == stream(
            source.format,
            pending(source),
            unopened,
        ),
    decreases unopened.len(), 0nat,
{
    match source.stage {
        Stage::Opening { path, first } => {
            assert(pending(source).drop_last() =~= source.queue);
            let others = unopened.drop_last();
            match unopened.last() {
                File::Missing => {
                    let turned = source.advance();
                    let failure = Err::<Seq<u8>, ErrorView>(open_error(source.format, path));
                    assert(pending(turned) =~= source.queue);
                    lemma_driven_opening(turned, others, (steps - 2) as nat);
                    assert(driven(source, EventView::Pull, unopened, Seq::empty(), false, steps)
                        == seq![failure] + driven(
                        turned,
                        EventView::Pull,
                        others,
                        Seq::empty(),
                        false,
                        (steps - 2) as nat,
                    )) by {
                        assert(driven(
                            source,
                            EventView::Pull,
                            unopened,
                            Seq::empty(),
                            false,
                            steps,
                        ) == driven(
                            source,
                            EventView::OpenFailed,
                            others,
                            Seq::empty(),
                            false,
                            (steps - 1) as nat,
                        ));
                    }
                },
                File::Readable { records, broken } => {
                    lemma_driven_reading(
                        source,
                        EventView::Opened,
                        path,
                        others,
                        records,
                        broken,
                        (steps - 1) as nat,
                    );
                },
            }
        },
        _ => {},
    }
}

/// A source over `inputs` whose first file opens, driven faithfully and to
/// the end, yields the files as one stream and in the reverse of the order
/// in which they are listed: the reads of each file that opens, one failure
/// in place of each file that does not, and one failure behind the reads of
/// each file that breaks off.
pub proof fn lemma_driven_source_yields_stream(
    format: Format,
    inputs: Seq<Seq<char>>,
    files: Seq<File>,
    buffer_size: usize,
    steps: nat,
)
    requires
        inputs.len() > 0,
        files.len() == inputs.len(),
        files.last() is Readable,
        steps >= enough_steps(files),
    ensures
        driven(
            SourceView::start(format, inputs, buffer_size),
            EventView::Pull,
            files,
            Seq::empty(),
            false,
            steps,
        ) == stream(format, inputs, files),
{
    let source = SourceView::start(format, inputs, buffer_size);
    let path = inputs.last();
    let reading = SourceView { stage: Stage::Reading { path }, ..source };
    let records = files.last()->records;
    let broken = files.last()->broken;
    lemma_driven_reading(
        reading,
        EventView::Pull,
        path,
        files.drop_last(),
        records,
        broken,
        (steps - 2) as nat,
    );
    assert(driven(source, EventView::Pull, files, Seq::empty(), false, steps) == driven(
        reading,
        EventView::Pull,
        files.drop_last(),
        records,
        broken,
        (steps - 2) as nat,
    )) by {
        assert(driven(source, EventView::Pull, files, Seq::empty(), false, steps) == driven(
            source,
            EventView::Opened,
            files.drop_last(),
            records,
            broken,
            (steps - 1) as nat,
        ));
    }
}

/// A source over `inputs` whose last listed file does not open fails on the
/// spot, with the failure to open that file, and yields nothing.
pub proof fn lemma_first_file_is_needed(
    format: Format,
    inputs: Seq<Seq<char>>,
    files: Seq<File>,
    buffer_size: usize,
    steps: nat,
)
    requires
        inputs.len() > 0,
        files.len() == inputs.len(),
        files.last() is Missing,
    ensures
        ({
            let source = SourceView::start(format, inputs, buffer_size);
            let asked = source.step(EventView::Pull);
            &&& asked.1 == ActionView::Open { path: inputs.last(), buffer_size }
            &&& asked.0.step(EventView::OpenFailed).1 == ActionView::Fail(
                open_error(format, inputs.last()),
            )
        }),
        driven(
            SourceView::start(format, inputs, buffer_size),
            EventView::Pull,
            files,
            Seq::empty(),
            false,
            steps,
        ) == Seq::<Item>::empty(),
{
    let source = SourceView::start(format, inputs, buffer_size);
    if steps >= 2 {
        assert(driven(source, EventView::Pull, files, Seq::empty(), false, steps) == driven(
            source,
            EventView::OpenFailed,
            files.drop_last(),
            Seq::empty(),
            false,
            (steps - 1) as nat,
        ));
    } else if steps == 1 {
        assert(driven(source, EventView::Pull, files, Seq::empty(), false, steps) == driven(
            source,
            EventView::OpenFailed,
            files.drop_last(),
            Seq::empty(),
            false,
            0,
        ));
    }
}

} // verus!
