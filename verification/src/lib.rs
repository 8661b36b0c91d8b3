//! Middleware between compiled circuit artifacts and an arithmetic
//! constraint system.
//!
//! A compiled circuit comes as an opaque sandboxed executable plus a rank-1
//! constraint system (R1CS).  This crate drives a witness calculation against
//! such an artifact — signal-name hashing, input flattening, and the exact
//! order of calls the host must make — and translates the R1CS together with
//! a witness into allocated variables and enforced constraints.

pub mod element;
pub mod error;
pub mod memory;
pub mod r1cs;
pub mod synthesis;
pub mod witness;

pub use element::Element;
pub use error::WitnessError;
pub use memory::SafeMemory;
pub use r1cs::{CircomConfig, Constraint, LinearTerms, R1CS};
pub use synthesis::{synthesize, SynthesisRecord, VarRef};
pub use witness::{
    calculate_witness, calculation_script, fnv, resolve_abi, witness_read_script, AbiVariant,
    CircomInput, HostCall, SandboxOutcome,
};
