//! Errors that can occur while decoding a tpr file.

use vstd::prelude::*;

verus! {

/// Low-level failure of the byte stream.
#[derive(Debug, Clone, Copy, PartialEq, Eq)]
pub enum ReadError {
    /// The stream ended before the requested number of bytes.
    UnexpectedEnd,
    /// A skip by a negative number of bytes was requested.
    NegativeSkip,
    /// A string was not valid UTF-8.
    InvalidText,
}

/// Errors that can occur when parsing a tpr file.
#[derive(Debug, Clone, PartialEq, Eq)]
pub enum ParseTprError {
    /// The tpr file could not be opened (holds the path).
    CouldNotOpen(String),
    /// Expected data could not be read from the tpr file.
    CouldNotRead(ReadError),
    /// The file is not a tpr file.
    NotTpr,
    /// The precision of the tpr file is not supported.
    UnsupportedPrecision(i32),
    /// The version of the tpr file is not supported (older than version 103).
    UnsupportedVersion(i32),
    /// A symbol was requested from the symbol table that does not exist.
    IndexNotInSymTable(i32),
    /// The number of stored integers of an interaction kind is not divisible
    /// by the number of interacting atoms + 1 (holds the kind's code).
    InteractionDiscrepancy(i32),
    /// An interaction refers to an interaction-type index that does not exist.
    InvalidInteractionType(i32),
    /// An interaction-type code (after renumbering) names no known kind.
    UnknownInteractionKind(i32),
    /// The topology could not be constructed from the decoded records.
    CouldNotConstructTopology,
    /// The number of atoms is inconsistent (expected, got).
    InconsistentNumberOfAtoms(i32, i32),
    /// An interaction classified as a bond involves a number of atoms other than 2.
    InvalidNumberOfBondedAtoms(usize),
    /// A rigid water (SETTLE) interaction involves a number of atoms other than 3.
    InvalidNumberOfSettleAtoms(usize),
    /// The size of the intermolecular exclusion group is negative.
    InvalidIntermolecularExclusionGroupSize(i64),
}

/// The error for a stream that ended too early.
pub open spec fn eof() -> ParseTprError {
    ParseTprError::CouldNotRead(ReadError::UnexpectedEnd)
}

} // verus!
