//! Nucleotide composition of sequencing reads: how many residues of a run are
//! A or T, how many are G or C, how many are anything else, and over how many
//! reads.
//!
//! The crate holds the decisions of such a run and proves them. Reading files
//! and decoding records is left to the caller, who drives the sources of
//! [`input`] and hands every residue sequence to a worker.

pub mod composition;
pub mod cli;
pub mod error;
pub mod input;
