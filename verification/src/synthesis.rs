//! Translation of an R1CS into an arithmetic constraint system: variable
//! allocation, the mapping from constraint-term indices to allocated
//! variables, the public-output slice, and one enforced multiplicative
//! constraint per triple.

use vstd::prelude::*;

use crate::element::{limbs_value, one_limbs, Element};
use crate::error::WitnessError;
use crate::r1cs::{terms_in_bounds, R1CS};

verus! {

/// A constraint-system variable as an enforced constraint refers to it.
#[derive(Clone, Copy, Debug, PartialEq, Eq, Structural)]
pub enum VarRef {
    /// The system's distinguished constant-one input.
    One,
    /// The variable at this index, in allocation order.
    Var(usize),
}

impl DeepView for VarRef {
    type V = VarRef;

    open spec fn deep_view(&self) -> VarRef {
        *self
    }
}

/// One enforced sparse linear combination over allocated variables.
pub type RecordedTerms = Vec<(VarRef, Element)>;

/// One enforced constraint `A·B = C` over allocated variables.
pub type RecordedConstraint = (RecordedTerms, RecordedTerms, RecordedTerms);

/// The constraint system the synthesizer fills: the values allocated, in
/// allocation order, and the constraints enforced, in constraint order.
pub struct SynthesisRecord {
    /// Limbs per element, fixed at construction.
    pub width: u32,
    /// Allocated variable values: public signals first, then private/aux.
    pub vars: Vec<Element>,
    /// The enforced constraint triples.
    pub constraints: Vec<RecordedConstraint>,
}

impl SynthesisRecord {
    pub open spec fn wf(&self) -> bool {
        self.width >= 1
    }

    /// A fresh, empty system over elements of the given width.
    pub fn new(width: u32) -> (r: SynthesisRecord)
        requires
            width >= 1,
        ensures
            r.wf(),
            r.width == width,
            r.vars@.len() == 0,
            r.constraints@.len() == 0,
    {
        SynthesisRecord { width, vars: Vec::new(), constraints: Vec::new() }
    }
}

/// A view of one constraint-term sequence.
pub type TermsView = Seq<(usize, Seq<u32>)>;

/// A view of one constraint triple.
pub type ConstraintView = (TermsView, TermsView, TermsView);

/// A view of one enforced term sequence.
pub type RecordedTermsView = Seq<(VarRef, Seq<u32>)>;

/// A view of one enforced constraint triple.
pub type RecordedConstraintView = (RecordedTermsView, RecordedTermsView, RecordedTermsView);

/// The values synthesis allocates, in order: one variable per public signal
/// `1..num_inputs`, then one per private/aux signal.  With a witness, the
/// value is the witness entry of the same variable index; without one, every
/// variable defaults to the field's multiplicative identity (shape-only
/// setup).
pub open spec fn alloc_value_views(
    num_inputs: int,
    num_aux: int,
    witness: Option<Seq<Seq<u32>>>,
    width: nat,
) -> Seq<Seq<u32>> {
    match witness {
        Option::None => Seq::new((num_inputs - 1 + num_aux) as nat, |i: int| one_limbs(width)),
        Option::Some(w) => Seq::new((num_inputs - 1 + num_aux) as nat, |i: int| w[i + 1]),
    }
}

/// How a constraint-term index turns into a variable reference: index 0 is
/// the constant-one term; index `k > 0` is the allocated variable `k - 1`.
/// This mapping is what makes the enforced system mean the same as the
/// R1CS.
pub open spec fn mapped_term(t: (usize, Seq<u32>)) -> (VarRef, Seq<u32>) {
    if t.0 == 0 {
        (VarRef::One, t.1)
    } else {
        (VarRef::Var((t.0 - 1) as usize), t.1)
    }
}

pub open spec fn mapped_terms(terms: TermsView) -> RecordedTermsView {
    terms.map_values(|t: (usize, Seq<u32>)| mapped_term(t))
}

pub open spec fn mapped_constraint(c: ConstraintView) -> RecordedConstraintView {
    (mapped_terms(c.0), mapped_terms(c.1), mapped_terms(c.2))
}

pub open spec fn mapped_constraints(cs: Seq<ConstraintView>) -> Seq<RecordedConstraintView> {
    cs.map_values(|c: ConstraintView| mapped_constraint(c))
}

/// The public outputs synthesis returns, as indices into the allocated
/// variables: none when no output is declared; exactly the first variable
/// when one is; otherwise the first `num_pub_out - 1` variables.  The
/// asymmetry is inherited, load-bearing behavior of the upstream circuit
/// layout and must not be "fixed" here.
pub open spec fn output_indices(num_pub_out: int) -> Seq<usize> {
    if num_pub_out == 0 {
        Seq::empty()
    } else if num_pub_out == 1 {
        seq![0usize]
    } else {
        Seq::new((num_pub_out - 1) as nat, |i: int| i as usize)
    }
}

/// Value of one R1CS term under the full variable vector `z`.
pub open spec fn term_value(t: (usize, Seq<u32>), z: Seq<nat>) -> nat {
    limbs_value(t.1) * z[t.0 as int]
}

/// Value of one R1CS sparse linear combination under `z`.
pub open spec fn lc_value(terms: TermsView, z: Seq<nat>) -> nat
    decreases terms.len(),
{
    if terms.len() == 0 {
        0
    } else {
        lc_value(terms.drop_last(), z) + term_value(terms.last(), z)
    }
}

/// One R1CS triple holds under `z` modulo `p`.
pub open spec fn constraint_satisfied(c: ConstraintView, z: Seq<nat>, p: nat) -> bool {
    (lc_value(c.0, z) * lc_value(c.1, z)) % p == lc_value(c.2, z) % p
}

/// The whole R1CS holds under `z` modulo `p`.
pub open spec fn r1cs_satisfied(constraints: Seq<ConstraintView>, z: Seq<nat>, p: nat) -> bool {
    forall|i: int| 0 <= i < constraints.len() ==> constraint_satisfied(
        #[trigger] constraints[i],
        z,
        p,
    )
}

/// Value a variable reference takes under an assignment to the allocated
/// variables.
pub open spec fn ref_value(v: VarRef, assignment: Seq<nat>) -> nat {
    match v {
        VarRef::One => 1,
        VarRef::Var(j) => assignment[j as int],
    }
}

/// Value of one enforced sparse linear combination under an assignment.
pub open spec fn recorded_lc_value(terms: RecordedTermsView, assignment: Seq<nat>) -> nat
    decreases terms.len(),
{
    if terms.len() == 0 {
        0
    } else {
        recorded_lc_value(terms.drop_last(), assignment) + limbs_value(terms.last().1) * ref_value(
            terms.last().0,
            assignment,
        )
    }
}

/// One enforced triple holds under an assignment modulo `p`.
pub open spec fn recorded_constraint_satisfied(
    c: RecordedConstraintView,
    assignment: Seq<nat>,
    p: nat,
) -> bool {
    (recorded_lc_value(c.0, assignment) * recorded_lc_value(c.1, assignment)) % p
        == recorded_lc_value(c.2, assignment) % p
}

/// Every enforced triple holds under an assignment modulo `p`.
pub open spec fn record_satisfied(
    constraints: Seq<RecordedConstraintView>,
    assignment: Seq<nat>,
    p: nat,
) -> bool {
    forall|i: int| 0 <= i < constraints.len() ==> recorded_constraint_satisfied(
        #[trigger] constraints[i],
        assignment,
        p,
    )
}

/// Law: synthesis without a witness (setup mode) allocates exactly as many
/// variables, in the same order, as synthesis with one, and enforces the
/// very same constraints — the mapped constraints never mention the
/// witness.  Only the assigned values differ: in setup mode every variable
/// carries the field's identity.
pub proof fn lemma_setup_matches_witness_shape(
    num_inputs: int,
    num_aux: int,
    w: Seq<Seq<u32>>,
    width: nat,
)
    requires
        width >= 1,
    ensures
        alloc_value_views(num_inputs, num_aux, Option::None, width).len() == alloc_value_views(
            num_inputs,
            num_aux,
            Option::Some(w),
            width,
        ).len(),
        forall|i: int|
            0 <= i < alloc_value_views(num_inputs, num_aux, Option::None, width).len()
                ==> limbs_value(
                #[trigger] alloc_value_views(num_inputs, num_aux, Option::None, width)[i],
            ) == 1,
{
    assert forall|i: int|
        0 <= i < alloc_value_views(num_inputs, num_aux, Option::None, width).len() implies
        limbs_value(alloc_value_views(num_inputs, num_aux, Option::None, width)[i]) == 1 by {
        crate::element::lemma_one_limbs_value(width);
    }
}

/// The index mapping preserves the value of a sparse linear combination:
/// under an assignment that gives variable `j` the witness value of
/// R1CS variable `j + 1`, and with the witness's constant slot equal to
/// one, an enforced combination evaluates exactly as the R1CS combination.
proof fn lemma_mapped_lc_value(terms: TermsView, z: Seq<nat>, assignment: Seq<nat>)
    requires
        z.len() >= 1,
        z[0] == 1,
        assignment.len() == z.len() - 1,
        forall|j: int| 0 <= j < assignment.len() ==> #[trigger] assignment[j] == z[j + 1],
        terms_in_bounds(terms, z.len() as int),
    ensures
        recorded_lc_value(mapped_terms(terms), assignment) == lc_value(terms, z),
    decreases terms.len(),
{
    if terms.len() > 0 {
        assert(terms_in_bounds(terms.drop_last(), z.len() as int)) by {
            assert(forall|k: int| 0 <= k < terms.len() - 1 ==> terms.drop_last()[k] == #[trigger]
                terms[k]);
        }
        lemma_mapped_lc_value(terms.drop_last(), z, assignment);
        assert(mapped_terms(terms).drop_last() =~= mapped_terms(terms.drop_last()));
        assert(mapped_terms(terms).last() == mapped_term(terms.last()));
        let t = terms.last();
        assert(t.0 < z.len());
        if t.0 == 0 {
            assert(ref_value(mapped_term(t).0, assignment) == z[0]);
        } else {
            assert(ref_value(mapped_term(t).0, assignment) == assignment[t.0 - 1]);
        }
    }
}

/// Law: synthesis with a correctly computed witness yields a satisfied
/// constraint system.  If the witness satisfies every R1CS triple
/// `A·z ∘ B·z = C·z` modulo the field's modulus, and its constant slot
/// holds one, then every constraint the synthesizer enforces holds under
/// the values it allocates.
pub proof fn lemma_witness_synthesis_satisfied(
    constraints: Seq<ConstraintView>,
    w: Seq<Seq<u32>>,
    num_inputs: int,
    num_aux: int,
    width: nat,
    p: nat,
)
    requires
        num_inputs >= 1,
        num_aux >= 0,
        w.len() == num_inputs + num_aux,
        limbs_value(w[0]) == 1,
        forall|i: int| 0 <= i < constraints.len() ==> {
            &&& terms_in_bounds((#[trigger] constraints[i]).0, num_inputs + num_aux)
            &&& terms_in_bounds(constraints[i].1, num_inputs + num_aux)
            &&& terms_in_bounds(constraints[i].2, num_inputs + num_aux)
        },
        r1cs_satisfied(constraints, w.map_values(|l: Seq<u32>| limbs_value(l)), p),
    ensures
        record_satisfied(
            mapped_constraints(constraints),
            alloc_value_views(num_inputs, num_aux, Option::Some(w), width).map_values(
                |l: Seq<u32>| limbs_value(l),
            ),
            p,
        ),
{
    let z = w.map_values(|l: Seq<u32>| limbs_value(l));
    let assignment = alloc_value_views(num_inputs, num_aux, Option::Some(w), width).map_values(
        |l: Seq<u32>| limbs_value(l),
    );
    assert(z.len() == w.len());
    assert(z[0] == 1);
    assert(assignment.len() == z.len() - 1);
    assert(forall|j: int| 0 <= j < assignment.len() ==> #[trigger] assignment[j] == z[j + 1]);
    assert forall|i: int| 0 <= i < mapped_constraints(constraints).len() implies
        recorded_constraint_satisfied(mapped_constraints(constraints)[i], assignment, p) by {
        assert(mapped_constraints(constraints)[i] == mapped_constraint(constraints[i]));
        assert(constraint_satisfied(constraints[i], z, p));
        lemma_mapped_lc_value(constraints[i].0, z, assignment);
        lemma_mapped_lc_value(constraints[i].1, z, assignment);
        lemma_mapped_lc_value(constraints[i].2, z, assignment);
    }
}

/// Maps one sparse linear combination from R1CS term indices to variable
/// references.
fn map_terms(terms: &Vec<(usize, Element)>) -> (r: RecordedTerms)
    ensures
        r.deep_view() == mapped_terms(terms.deep_view()),
{
    let mut out: RecordedTerms = Vec::new();
    let mut k: usize = 0;
    while k < terms.len()
        invariant
            k <= terms@.len(),
            out.deep_view() =~= mapped_terms(terms.deep_view().take(k as int)),
        decreases terms@.len() - k,
    {
        let index = terms[k].0;
        let coeff = terms[k].1.duplicate();
        if index == 0 {
            out.push((VarRef::One, coeff));
        } else {
            out.push((VarRef::Var(index - 1), coeff));
        }
        proof {
            let tv = terms.deep_view();
            assert(tv.take(k + 1).drop_last() =~= tv.take(k as int));
            assert(out.deep_view() =~= mapped_terms(tv.take(k as int)) + seq![
                mapped_term(tv[k as int]),
            ]);
            assert(out.deep_view() =~= mapped_terms(tv.take(k + 1)));
        }
        k = k + 1;
    }
    proof {
        assert(terms.deep_view().take(terms@.len() as int) =~= terms.deep_view());
    }
    out
}

/// Consumes the R1CS and fills the constraint system: allocates one
/// variable per public signal `1..num_inputs` and one per private/aux
/// signal, valued from the witness when one is given and defaulted to the
/// field's identity otherwise; enforces every constraint triple with its
/// term indices mapped onto the allocated variables; and returns the
/// declared public outputs as indices into the allocation order.
pub fn synthesize(cs: &mut SynthesisRecord, r1cs: R1CS, witness: Option<Vec<Element>>) -> (r:
    Result<Vec<usize>, WitnessError>)
    requires
        old(cs).wf(),
        old(cs).vars@.len() == 0,
        old(cs).constraints@.len() == 0,
        r1cs.wf(),
        witness matches Some(w) ==> w@.len() == r1cs.num_inputs + r1cs.num_aux,
    ensures
        final(cs).wf(),
        final(cs).width == old(cs).width,
        final(cs).vars.deep_view() == alloc_value_views(
            r1cs.num_inputs as int,
            r1cs.num_aux as int,
            witness.deep_view(),
            old(cs).width as nat,
        ),
        final(cs).constraints.deep_view() == mapped_constraints(r1cs.constraints.deep_view()),
        r matches Ok(out) && out@ == output_indices(r1cs.num_pub_out as int),
{
    let width = cs.width;
    let ghost expected = alloc_value_views(
        r1cs.num_inputs as int,
        r1cs.num_aux as int,
        witness.deep_view(),
        width as nat,
    );

    // One variable per public signal (index 0 is the constant, never
    // allocated).
    let mut i: usize = 1;
    while i < r1cs.num_inputs
        invariant
            1 <= i <= r1cs.num_inputs,
            r1cs.wf(),
            cs.width == width,
            cs.constraints@.len() == 0,
            witness matches Some(w) ==> w@.len() == r1cs.num_inputs + r1cs.num_aux,
            expected == alloc_value_views(
                r1cs.num_inputs as int,
                r1cs.num_aux as int,
                witness.deep_view(),
                width as nat,
            ),
            cs.vars.deep_view() =~= expected.take(i - 1),
        decreases r1cs.num_inputs - i,
    {
        let value = match &witness {
            Option::None => Element::one(width),
            Option::Some(w) => w[i].duplicate(),
        };
        cs.vars.push(value);
        proof {
            assert(expected.take(i as int).drop_last() =~= expected.take(i - 1));
            assert(cs.vars.deep_view() =~= expected.take(i as int));
        }
        i = i + 1;
    }

    // One variable per private/aux signal.
    let mut j: usize = 0;
    while j < r1cs.num_aux
        invariant
            0 <= j <= r1cs.num_aux,
            r1cs.wf(),
            cs.width == width,
            cs.constraints@.len() == 0,
            witness matches Some(w) ==> w@.len() == r1cs.num_inputs + r1cs.num_aux,
            expected == alloc_value_views(
                r1cs.num_inputs as int,
                r1cs.num_aux as int,
                witness.deep_view(),
                width as nat,
            ),
            cs.vars.deep_view() =~= expected.take(r1cs.num_inputs - 1 + j),
        decreases r1cs.num_aux - j,
    {
        let value = match &witness {
            Option::None => Element::one(width),
            Option::Some(w) => w[r1cs.num_inputs + j].duplicate(),
        };
        cs.vars.push(value);
        proof {
            assert(expected.take(r1cs.num_inputs - 1 + j + 1).drop_last() =~= expected.take(
                r1cs.num_inputs - 1 + j,
            ));
            assert(cs.vars.deep_view() =~= expected.take(r1cs.num_inputs - 1 + j + 1));
        }
        j = j + 1;
    }
    proof {
        assert(expected.take(r1cs.num_inputs - 1 + r1cs.num_aux as int) =~= expected);
    }

    // The declared public outputs, as indices into the allocation order.
    let mut output: Vec<usize> = Vec::new();
    if r1cs.num_pub_out == 0 {
        // No declared outputs: nothing to return.
    } else if r1cs.num_pub_out == 1 {
        output.push(0);
    } else {
        let mut k: usize = 0;
        while k < r1cs.num_pub_out - 1
            invariant
                k <= r1cs.num_pub_out - 1,
                r1cs.num_pub_out >= 2,
                output@ =~= Seq::new(k as nat, |i: int| i as usize),
            decreases r1cs.num_pub_out - 1 - k,
        {
            output.push(k);
            proof {
                assert(output@ =~= Seq::new((k + 1) as nat, |i: int| i as usize));
            }
            k = k + 1;
        }
    }
    proof {
        assert(output@ =~= output_indices(r1cs.num_pub_out as int));
    }

    // Enforce every constraint triple over the allocated variables.
    let ghost vars_done = cs.vars.deep_view();
    let ghost cviews = r1cs.constraints.deep_view();
    let mut c: usize = 0;
    while c < r1cs.constraints.len()
        invariant
            c <= r1cs.constraints@.len(),
            cviews == r1cs.constraints.deep_view(),
            cs.width == width,
            cs.vars.deep_view() == vars_done,
            cs.constraints.deep_view() =~= mapped_constraints(cviews.take(c as int)),
        decreases r1cs.constraints@.len() - c,
    {
        let triple = &r1cs.constraints[c];
        let a = map_terms(&triple.0);
        let b = map_terms(&triple.1);
        let o = map_terms(&triple.2);
        cs.constraints.push((a, b, o));
        proof {
            assert(cviews.take(c + 1).drop_last() =~= cviews.take(c as int));
            assert(cs.constraints.deep_view() =~= mapped_constraints(cviews.take(c as int)) + seq![
                mapped_constraint(cviews[c as int]),
            ]);
            assert(cs.constraints.deep_view() =~= mapped_constraints(cviews.take(c + 1)));
        }
        c = c + 1;
    }
    proof {
        assert(cviews.take(r1cs.constraints@.len() as int) =~= cviews);
    }
    Ok(output)
}

} // verus!
