//! Decoder for the binary run-input ("tpr") files written by the GROMACS
//! molecular-dynamics package.
//!
//! The library reads the file header, the simulation box, the symbol table,
//! the interaction-type registry and the molecular topology, and assembles a
//! flat list of atoms and bonds.  Floating-point payloads are kept as their
//! raw IEEE-754 bit patterns (see [`Real`]); every decision the decoder makes
//! is verified.
//!
//! Each reader is specified by a model: a spec function from the bytes and
//! a position to the value read and the position after it, or the error met
//! first.  `TprFile::parse` returns exactly what `tpr::file_model` gives for
//! its bytes; from that follow the laws stated in `tpr` (determinism,
//! rejection of short or unmarked input), in `topology` (atoms numbered
//! `1..=n`, residues counted from 1, bonds within the atoms) and in `prefix`
//! (a file cut short fails to decode).

pub mod coordinates;
pub mod elements;
pub mod errors;
pub mod ffparams;
pub mod header;
pub mod interactions;
pub mod molblocks;
pub mod moltypes;
pub mod prefix;
pub mod simbox;
pub mod structures;
pub mod symtab;
pub mod topology;
pub mod tpr;
pub mod xdr;

pub use errors::{ParseTprError, ReadError};
pub use structures::{Atom, Bond, Precision, Real, SimBox, TprFile, TprHeader, TprTopology};
