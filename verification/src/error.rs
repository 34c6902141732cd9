//! The failure taxonomy of the planning engine.

use vstd::prelude::*;

verus! {

/// Everything that can go wrong while building or validating a plan.
///
/// `Io` is declared for executors that apply plans and report filesystem
/// failures; the planning core itself never constructs it. `DigitsInSuffix`
/// and `NoSequence` are likewise reserved for collaborators that validate
/// suffixes or discover sequences, and `NegativeFrame` for bulk renumbering
/// offsets; the core declares the taxonomy but raises only `EmptySequence`,
/// `InconsistentProperty` and `Conflict`.
#[derive(Debug, Clone)]
pub enum SequenceError {
    /// A filesystem error, carried as its rendered message.
    Io(String),
    /// One or more planned destinations already exist.
    Conflict(Vec<String>),
    /// A suffix containing decimal digits was supplied.
    DigitsInSuffix(String),
    /// No items matched an expected pattern.
    NoSequence(String),
    /// A renumbering offset would push a frame number below zero.
    NegativeFrame(isize),
    /// A sequence was constructed from zero items.
    EmptySequence,
    /// Items of one sequence disagree on the named property.
    InconsistentProperty(&'static str),
}

} // verus!
