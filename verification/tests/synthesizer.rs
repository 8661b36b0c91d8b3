use circom_scotia::synthesis::{synthesize, SynthesisRecord, VarRef};
use circom_scotia::{Element, R1CS};

fn element(limbs: Vec<u32>) -> Element {
    Element { limbs }
}

fn one() -> Element {
    element(vec![1])
}

fn r1cs(
    num_pub_out: usize,
    num_pub_in: usize,
    num_aux: usize,
    constraints: Vec<(Vec<(usize, Element)>, Vec<(usize, Element)>, Vec<(usize, Element)>)>,
) -> R1CS {
    R1CS {
        num_inputs: 1 + num_pub_out + num_pub_in,
        num_aux,
        num_pub_out,
        num_pub_in,
        num_priv_in: num_aux,
        constraints,
    }
}

/// Evaluates one recorded linear combination over the allocated single-limb
/// values, with the constant-one input worth 1.
fn eval(terms: &[(VarRef, Element)], vars: &[Element]) -> u64 {
    terms
        .iter()
        .map(|(var, coeff)| {
            let v = match var {
                VarRef::One => 1,
                VarRef::Var(j) => vars[*j].limbs[0] as u64,
            };
            coeff.limbs[0] as u64 * v
        })
        .sum()
}

/// The square circuit: one aux signal `x`, one public output `y`, one
/// constraint `x * x = y` over `z = [1, y, x]`.  Input `x = 3` gives the
/// witness values {1, 3, 9}; the returned output variable is valued `9`
/// (the output, not the input).
#[test]
fn square_circuit_output_is_nine() {
    let constraint = (
        vec![(2usize, one())],
        vec![(2usize, one())],
        vec![(1usize, one())],
    );
    let shape = r1cs(1, 0, 1, vec![constraint]);
    let witness = vec![element(vec![1]), element(vec![9]), element(vec![3])];

    let mut cs = SynthesisRecord::new(1);
    let output = synthesize(&mut cs, shape, Some(witness)).unwrap();

    assert_eq!(output, vec![0]);
    let output_value = &cs.vars[output[0]];
    assert_eq!(output_value, &element(vec![9]));

    // The witness assignment satisfies the one enforced constraint:
    // A.z * B.z == C.z exactly (3 * 3 == 9).
    let (a, b, c) = &cs.constraints[0];
    assert_eq!(eval(a, &cs.vars) * eval(b, &cs.vars), eval(c, &cs.vars));
    assert_eq!(eval(a, &cs.vars), 3);
    assert_eq!(eval(c, &cs.vars), 9);
}

/// No declared output gives an empty slice; one gives exactly the first
/// public variable; three give exactly the first two (the inherited
/// off-by-one slicing policy, preserved on purpose).
#[test]
fn output_slicing_boundaries() {
    let mut cs = SynthesisRecord::new(1);
    let output = synthesize(&mut cs, r1cs(0, 1, 0, vec![]), None).unwrap();
    assert_eq!(output, Vec::<usize>::new());

    let mut cs = SynthesisRecord::new(1);
    let output = synthesize(&mut cs, r1cs(1, 0, 0, vec![]), None).unwrap();
    assert_eq!(output, vec![0]);

    let mut cs = SynthesisRecord::new(1);
    let output = synthesize(&mut cs, r1cs(3, 0, 0, vec![]), None).unwrap();
    assert_eq!(output, vec![0, 1]);
}

/// Setup mode (no witness) allocates the same number and order of
/// variables and enforces the same constraints as witness mode; only the
/// assigned values differ, and they are all ones.
#[test]
fn setup_mode_matches_witness_shape() {
    let constraint = (
        vec![(0usize, element(vec![5])), (2usize, one())],
        vec![(3usize, one())],
        vec![(1usize, one())],
    );
    let witness = vec![
        element(vec![1]),
        element(vec![20]),
        element(vec![4]),
        element(vec![5]),
    ];

    let mut with_witness = SynthesisRecord::new(1);
    let out_with = synthesize(
        &mut with_witness,
        r1cs(1, 1, 1, vec![constraint.clone()]),
        Some(witness),
    )
    .unwrap();

    let mut setup = SynthesisRecord::new(1);
    let out_setup = synthesize(&mut setup, r1cs(1, 1, 1, vec![constraint]), None).unwrap();

    assert_eq!(with_witness.vars.len(), setup.vars.len());
    assert_eq!(with_witness.constraints, setup.constraints);
    assert_eq!(out_with, out_setup);
    for var in &setup.vars {
        assert_eq!(var, &one());
    }
    // Witness mode takes its values from the witness, in variable order.
    assert_eq!(
        with_witness.vars,
        vec![element(vec![20]), element(vec![4]), element(vec![5])]
    );
}

/// Term index 0 becomes the constant-one input; index `k > 0` becomes the
/// allocated variable `k - 1`.
#[test]
fn term_index_mapping() {
    let constraint = (
        vec![(0usize, element(vec![7])), (1usize, element(vec![11]))],
        vec![(2usize, element(vec![13]))],
        vec![(1usize, element(vec![17]))],
    );
    let mut cs = SynthesisRecord::new(1);
    synthesize(&mut cs, r1cs(1, 0, 1, vec![constraint]), None).unwrap();

    let (a, b, c) = &cs.constraints[0];
    assert_eq!(a[0], (VarRef::One, element(vec![7])));
    assert_eq!(a[1], (VarRef::Var(0), element(vec![11])));
    assert_eq!(b[0], (VarRef::Var(1), element(vec![13])));
    assert_eq!(c[0], (VarRef::Var(0), element(vec![17])));
}

/// A wider field keeps multi-limb witness values limb for limb.
#[test]
fn multi_limb_values_kept() {
    let witness = vec![
        element(vec![1, 0]),
        element(vec![0xdead_beef, 0x1234_5678]),
    ];
    let mut cs = SynthesisRecord::new(2);
    let output = synthesize(&mut cs, r1cs(1, 0, 0, vec![]), Some(witness)).unwrap();
    assert_eq!(output, vec![0]);
    assert_eq!(cs.vars, vec![element(vec![0xdead_beef, 0x1234_5678])]);
}
