//! The two kinds of input, each with its stream of reads and its worker.

pub mod bam;
pub mod fastq;
pub mod source;
pub mod stream;

pub use bam::Bam;
pub use fastq::Fastq;
