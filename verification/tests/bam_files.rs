use std::io::{Seek, Write};

use crazyqc::composition::{reduce, reduce_identity};
use crazyqc::error::Error;
use crazyqc::input::bam::worker;
use crazyqc::input::source::{Action, Event};
use crazyqc::input::Bam;
use noodles::sam::alignment::io::Write as AlignmentWrite;
use tempfile::NamedTempFile;

/// An open BAM file, whatever it is read from.
trait Decode {
    fn read(&mut self, record: &mut noodles::bam::Record) -> std::io::Result<usize>;
}

impl<R: std::io::Read> Decode for noodles::bam::io::Reader<R> {
    fn read(&mut self, record: &mut noodles::bam::Record) -> std::io::Result<usize> {
        self.read_record(record)
    }
}

type Decoder = Box<dyn Decode>;

fn open(path: &str) -> anyhow::Result<Decoder> {
    let mut reader = noodles::bam::io::reader::Builder::default().build_from_path(path)?;
    reader.read_header()?;

    Ok(Box::new(reader))
}

/// Drives a stream of the library over real files.
struct Reader {
    stream: Bam,
    decoder: Option<Decoder>,
    record: noodles::bam::Record,
}

impl Reader {
    fn new(inputs: Vec<String>, buffer_size: usize) -> Result<Self, Error> {
        let mut reader = Reader {
            stream: Bam::new(inputs, buffer_size)?,
            decoder: None,
            record: noodles::bam::Record::default(),
        };
        match reader.drive() {
            Action::Fail(error) => Err(error),
            _ => Ok(reader),
        }
    }

    /// Serves the stream until it has something for the consumer.
    fn drive(&mut self) -> Action {
        let mut event = Event::Pull;
        loop {
            event = match self.stream.next(event) {
                Action::Open { path, .. } => match open(&path) {
                    Ok(decoder) => {
                        self.decoder = Some(decoder);
                        Event::Opened
                    }
                    Err(_) => Event::OpenFailed,
                },
                Action::Read => match self.decoder.as_mut().unwrap().read(&mut self.record) {
                    Ok(0) => Event::EndOfFile,
                    Ok(_) => Event::Record(self.record.sequence().iter().collect()),
                    Err(_) => Event::ReadFailed,
                },
                done => return done,
            }
        }
    }
}

impl Iterator for Reader {
    type Item = Result<Vec<u8>, Error>;

    fn next(&mut self) -> Option<Self::Item> {
        match self.drive() {
            Action::Yield(item) => Some(item),
            _ => None,
        }
    }
}

fn create_bam_file() -> (NamedTempFile, String) {
    let tmp_file = tempfile::NamedTempFile::new().unwrap();

    {
        let writer = tmp_file.reopen().unwrap();
        let mut bam_writer = noodles::bam::io::Writer::new(writer);

        let header = noodles::sam::Header::default();
        bam_writer.write_header(&header).unwrap();

        let record = noodles::sam::alignment::RecordBuf::builder()
            .set_name("1")
            .set_flags(noodles::sam::alignment::record::Flags::UNMAPPED)
            .set_sequence(b"ACTG".to_vec().into())
            .build();
        bam_writer.write_alignment_record(&header, &record).unwrap();

        let record = noodles::sam::alignment::RecordBuf::builder()
            .set_name("2")
            .set_flags(noodles::sam::alignment::record::Flags::UNMAPPED)
            .set_sequence(b"ACTGACTG".to_vec().into())
            .build();
        bam_writer.write_alignment_record(&header, &record).unwrap();

        let record = noodles::sam::alignment::RecordBuf::builder()
            .set_name("3")
            .set_flags(noodles::sam::alignment::record::Flags::UNMAPPED)
            .set_sequence(b"AACACGTGAGTCCGCACACCGGACG".to_vec().into())
            .build();
        bam_writer.write_alignment_record(&header, &record).unwrap();
    }

    let path = tmp_file.path().to_str().unwrap().to_string();

    (tmp_file, path)
}

#[test]
fn create_bam_parser() {
    let (tmp_file, path) = create_bam_file();

    assert!(Reader::new(vec![path.clone()], 10).is_ok());

    tmp_file.close().unwrap();

    assert!(Reader::new(vec![path], 10).is_err());
}

#[test]
fn iterate_over_bam() {
    let (_e, path) = create_bam_file();

    let mut reader = Reader::new(vec![path], 10).unwrap();

    assert_eq!(reader.next().unwrap().unwrap(), b"ACTG".to_vec());
    assert_eq!(reader.record.sequence().as_ref()[..], [18, 132]);
    assert_eq!(reader.next().unwrap().unwrap(), b"ACTGACTG".to_vec());
    assert_eq!(reader.record.sequence().as_ref()[..], [18, 132, 18, 132]);
    assert_eq!(
        reader.next().unwrap().unwrap(),
        b"AACACGTGAGTCCGCACACCGGACG".to_vec()
    );
    assert_eq!(
        reader.record.sequence().as_ref()[..],
        [17, 33, 36, 132, 20, 130, 36, 33, 33, 34, 68, 18, 64]
    );
}

#[test]
fn iterate_over_bam_error() {
    let (mut file, path) = create_bam_file();

    file.seek(std::io::SeekFrom::End(0)).unwrap();
    file.write_all(b"Failled record\n").unwrap();

    let mut reader = Reader::new(vec![path], 10).unwrap();

    assert_eq!(reader.next().unwrap().unwrap(), b"ACTG".to_vec());
    assert_eq!(reader.record.sequence().as_ref()[..], [18, 132]);
    assert_eq!(reader.next().unwrap().unwrap(), b"ACTGACTG".to_vec());
    assert_eq!(reader.record.sequence().as_ref()[..], [18, 132, 18, 132]);
    assert_eq!(
        reader.next().unwrap().unwrap(),
        b"AACACGTGAGTCCGCACACCGGACG".to_vec()
    );
    assert_eq!(
        reader.record.sequence().as_ref()[..],
        [17, 33, 36, 132, 20, 130, 36, 33, 33, 34, 68, 18, 64]
    );

    let record = reader.next();

    assert!(record.is_none());
}

#[test]
fn iterate_over_two_bam() {
    let (_file1, path1) = create_bam_file();
    let (_file2, path2) = create_bam_file();

    let mut reader = Reader::new(vec![path2, path1], 10).unwrap();
    for _ in 0..2 {
        assert_eq!(reader.next().unwrap().unwrap(), b"ACTG".to_vec());
        assert_eq!(reader.record.sequence().as_ref()[..], [18, 132]);
        assert_eq!(reader.next().unwrap().unwrap(), b"ACTGACTG".to_vec());
        assert_eq!(reader.record.sequence().as_ref()[..], [18, 132, 18, 132]);
        assert_eq!(
            reader.next().unwrap().unwrap(),
            b"AACACGTGAGTCCGCACACCGGACG".to_vec()
        );
        assert_eq!(
            reader.record.sequence().as_ref()[..],
            [17, 33, 36, 132, 20, 130, 36, 33, 33, 34, 68, 18, 64]
        );
    }
    assert!(reader.next().is_none());
}

#[test]
fn iterate_over_two_bam_notfile() {
    let (_file1, path1) = create_bam_file();
    let (_file2, path2) = create_bam_file();
    let (file3, path3) = create_bam_file();

    file3.close().unwrap();

    let mut reader = Reader::new(vec![path3.clone(), path2, path1], 10).unwrap();
    for _ in 0..2 {
        assert_eq!(reader.next().unwrap().unwrap(), b"ACTG".to_vec());
        assert_eq!(reader.record.sequence().as_ref()[..], [18, 132]);
        assert_eq!(reader.next().unwrap().unwrap(), b"ACTGACTG".to_vec());
        assert_eq!(reader.record.sequence().as_ref()[..], [18, 132, 18, 132]);
        assert_eq!(
            reader.next().unwrap().unwrap(),
            b"AACACGTGAGTCCGCACACCGGACG".to_vec()
        );
        assert_eq!(
            reader.record.sequence().as_ref()[..],
            [17, 33, 36, 132, 20, 130, 36, 33, 33, 34, 68, 18, 64]
        );
    }

    let failled_record = reader.next();
    assert!(failled_record.is_some());
    assert_eq!(
        failled_record.unwrap(),
        Err(Error::BamOpenError { path: path3 })
    );
    assert!(reader.next().is_none());
}

#[test]
fn missing_last_listed_bam_fails_construction() {
    let (_file2, path2) = create_bam_file();
    let (file1, path1) = create_bam_file();
    file1.close().unwrap();

    match Reader::new(vec![path2, path1.clone()], 10) {
        Err(error) => assert_eq!(error, Error::BamOpenError { path: path1 }),
        Ok(_) => panic!("a stream over a missing file"),
    }
}

#[test]
fn bam_file_that_is_no_bam_is_not_opened() {
    let (_good, good) = create_bam_file();
    let bad_file = tempfile::NamedTempFile::new().unwrap();
    bad_file
        .reopen()
        .unwrap()
        .write_all(b"@1\nACTG\n+\n!!!!\n")
        .unwrap();
    let bad = bad_file.path().to_str().unwrap().to_string();

    let items: Vec<Result<Vec<u8>, Error>> =
        Reader::new(vec![bad.clone(), good], 8192).unwrap().collect();
    assert_eq!(items.len(), 4);
    assert_eq!(items[3], Err(Error::BamOpenError { path: bad }));

    let total = items.into_iter().map(worker).fold(reduce_identity(), reduce);
    assert_eq!(total, (15, 22, 0, 3));
}
