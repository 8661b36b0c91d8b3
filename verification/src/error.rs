//! Failures of witness calculation and constraint synthesis.

use vstd::prelude::*;

verus! {

/// Everything that can go wrong between a circuit artifact and the caller.
/// Every failure aborts the current operation; nothing is retried and no
/// error is downgraded to a default value.
#[derive(Clone, Debug, PartialEq, Eq)]
pub enum WitnessError {
    /// The artifact's declared field modulus differs from the target field's.
    FieldMismatchError,
    /// The artifact exposes neither the extended nor the minimal export set.
    UnsupportedArtifactError,
    /// An element did not fit the shared scratch region, or its encoding did
    /// not have the detected width.
    MemoryError,
    /// The sandbox trapped during calculation; carries its diagnostic text.
    WitnessCalculationError(String),
    /// The exclusive-access guard around a calculator is no longer usable;
    /// the calculator should be reconstructed.
    MutexError,
    /// Launching the external witness-generation script failed.
    FailedExecutionError(String),
    /// A file could not be read or written around a calculation.
    FileSystemError(String),
    /// A produced witness file could not be loaded back.
    LoadWitnessError(String),
}

} // verus!
