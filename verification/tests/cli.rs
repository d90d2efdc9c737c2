use crazyqc::cli::{i82level, Command, DEFAULT_BUFFER_SIZE};

fn command(buffer_size: Option<usize>, verbosity: i8) -> Command {
    Command {
        fastq: vec![String::from("reads.fastq")],
        bam: None,
        output: None,
        buffer_size,
        threads: None,
        verbosity,
    }
}

#[test]
fn loglevel() {
    assert_eq!(i82level(i8::MIN), None);
    assert_eq!(i82level(-3), None);
    assert_eq!(i82level(1), Some(log::Level::Error));
    assert_eq!(i82level(2), Some(log::Level::Warn));
    assert_eq!(i82level(3), Some(log::Level::Info));
    assert_eq!(i82level(4), Some(log::Level::Debug));
    assert_eq!(i82level(5), Some(log::Level::Trace));
    assert_eq!(i82level(i8::MAX), Some(log::Level::Trace));
}

#[test]
fn no_flag_is_no_level() {
    assert_eq!(i82level(0), None);
    assert_eq!(i82level(-1), None);
    assert_eq!(i82level(6), Some(log::Level::Trace));
}

#[test]
fn buffer_size_defaults_to_8192() {
    assert_eq!(DEFAULT_BUFFER_SIZE, 8192);
    assert_eq!(command(None, 0).reading_buffer_size(), 8192);
    assert_eq!(command(Some(10), 0).reading_buffer_size(), 10);
    assert_eq!(command(Some(0), 3).reading_buffer_size(), 0);
}
