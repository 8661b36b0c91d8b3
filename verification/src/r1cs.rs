//! The in-memory rank-1 constraint system and the per-artifact configuration.

use vstd::prelude::*;

use crate::element::Element;
use crate::error::WitnessError;

verus! {

/// One sparse linear combination: pairs of a variable index and its
/// coefficient.  Index 0 denotes the constant-one term, indices
/// `1..num_inputs` the public signals, and later indices the private and
/// auxiliary signals.
pub type LinearTerms = Vec<(usize, Element)>;

/// One rank-1 constraint `A·z ∘ B·z = C·z` over the full variable vector `z`.
pub type Constraint = (LinearTerms, LinearTerms, LinearTerms);

/// A parsed constraint system: variable counts and the ordered constraints.
/// Built once from a parsed binary artifact and immutable thereafter.
#[derive(Clone, Debug)]
pub struct R1CS {
    /// Count of public signals, including the reserved constant slot 0.
    pub num_inputs: usize,
    /// Count of private and internal signals.
    pub num_aux: usize,
    /// How many of the public signals are declared circuit outputs.
    pub num_pub_out: usize,
    /// How many of the public signals are declared circuit inputs.
    pub num_pub_in: usize,
    /// How many signals are declared private inputs.
    pub num_priv_in: usize,
    /// The ordered constraint triples.
    pub constraints: Vec<Constraint>,
}

/// Every index a sparse linear combination mentions stays below the number
/// of variables of the system.
pub open spec fn terms_in_bounds(terms: Seq<(usize, Seq<u32>)>, num_vars: int) -> bool {
    forall|k: int| 0 <= k < terms.len() ==> #[trigger] terms[k].0 < num_vars
}

impl R1CS {
    /// Total length of the variable vector `z`: the constant slot, the
    /// public signals, and the private/auxiliary signals.
    pub open spec fn num_vars(&self) -> int {
        self.num_inputs + self.num_aux
    }

    /// The model's invariant: the public-signal space is the constant slot
    /// plus the declared outputs and inputs, counts fit the machine, and
    /// every constraint term addresses an existing variable.
    pub open spec fn wf(&self) -> bool {
        &&& self.num_inputs >= 1
        &&& self.num_inputs == 1 + self.num_pub_out + self.num_pub_in
        &&& self.num_inputs + self.num_aux <= usize::MAX
        &&& forall|i: int| 0 <= i < self.constraints@.len() ==> {
            &&& terms_in_bounds(#[trigger] self.constraints@[i].0.deep_view(), self.num_vars())
            &&& terms_in_bounds(self.constraints@[i].1.deep_view(), self.num_vars())
            &&& terms_in_bounds(self.constraints@[i].2.deep_view(), self.num_vars())
        }
    }
}

/// Everything the host keeps per circuit artifact: the parsed constraint
/// system and the field parameters read from the artifact once at
/// construction.
#[derive(Debug)]
pub struct CircomConfig {
    /// The parsed constraint system.
    pub r1cs: R1CS,
    /// Limbs per field element, as the artifact declares it.
    pub width: u32,
    /// The field modulus the artifact declares.
    pub prime: Element,
}

impl CircomConfig {
    /// The configuration's invariant: the modulus is stored at the declared
    /// element width.
    pub open spec fn wf(&self) -> bool {
        &&& self.width >= 1
        &&& self.prime@.len() == self.width as nat
        &&& self.r1cs.wf()
    }

    /// Accepts an artifact only when the field modulus it declares equals
    /// the modulus of the field the caller wants to prove over; a mismatch
    /// fails with `FieldMismatchError` and never truncates or wraps values.
    pub fn new(r1cs: R1CS, width: u32, artifact_prime: Element, target_prime: Element) -> (r:
        Result<CircomConfig, WitnessError>)
        requires
            r1cs.wf(),
            width >= 1,
            artifact_prime@.len() == width as nat,
        ensures
            artifact_prime@ == target_prime@ <==> r is Ok,
            r matches Ok(cfg) ==> {
                &&& cfg.wf()
                &&& cfg.r1cs == r1cs
                &&& cfg.width == width
                &&& cfg.prime@ == artifact_prime@
            },
            r matches Err(e) ==> e is FieldMismatchError,
    {
        if artifact_prime.equals(&target_prime) {
            Ok(CircomConfig { r1cs, width, prime: artifact_prime })
        } else {
            Err(WitnessError::FieldMismatchError)
        }
    }
}

} // verus!
