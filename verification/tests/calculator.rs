use circom_scotia::witness::{
    calculate_witness, calculation_script, fnv, resolve_abi, witness_read_script, AbiVariant,
    CircomInput, HostCall, SandboxOutcome,
};
use circom_scotia::{CircomConfig, Element, WitnessError, R1CS};

fn element(limbs: Vec<u32>) -> Element {
    Element { limbs }
}

fn empty_r1cs() -> R1CS {
    R1CS {
        num_inputs: 1,
        num_aux: 0,
        num_pub_out: 0,
        num_pub_in: 0,
        num_priv_in: 0,
        constraints: vec![],
    }
}

fn config(width: u32, prime: Vec<u32>) -> CircomConfig {
    CircomConfig::new(empty_r1cs(), width, element(prime.clone()), element(prime)).unwrap()
}

/// The host call sequence: init first, then for each value of each input a
/// write followed by an assignment under the name's hashed identifier at
/// the value's position, then the size query.
#[test]
fn calculation_script_order() {
    let input = vec![CircomInput::new(
        String::from("x"),
        vec![element(vec![7]), element(vec![8])],
    )];
    let (high, low) = fnv("x");
    let script = calculation_script(&input, true);
    assert_eq!(
        script,
        vec![
            HostCall::Init { sanity_check: true },
            HostCall::WriteElement { value: element(vec![7]) },
            HostCall::AssignSignal { id_high: high, id_low: low, position: 0 },
            HostCall::WriteElement { value: element(vec![8]) },
            HostCall::AssignSignal { id_high: high, id_low: low, position: 1 },
            HostCall::GetWitnessSize,
        ]
    );
}

/// Inputs are flattened in their given order, one signal after the other.
#[test]
fn calculation_script_input_order() {
    let input = vec![
        CircomInput::new(String::from("a"), vec![element(vec![1])]),
        CircomInput::new(String::from("b"), vec![element(vec![2])]),
    ];
    let (a_high, a_low) = fnv("a");
    let (b_high, b_low) = fnv("b");
    let script = calculation_script(&input, false);
    assert_eq!(
        script,
        vec![
            HostCall::Init { sanity_check: false },
            HostCall::WriteElement { value: element(vec![1]) },
            HostCall::AssignSignal { id_high: a_high, id_low: a_low, position: 0 },
            HostCall::WriteElement { value: element(vec![2]) },
            HostCall::AssignSignal { id_high: b_high, id_low: b_low, position: 0 },
            HostCall::GetWitnessSize,
        ]
    );
}

/// Reading the witness back asks for each index in order, each followed by
/// one read out of the scratch region.
#[test]
fn witness_read_script_pairs() {
    let script = witness_read_script(3);
    assert_eq!(
        script,
        vec![
            HostCall::GetWitness { index: 0 },
            HostCall::ReadElement,
            HostCall::GetWitness { index: 1 },
            HostCall::ReadElement,
            HostCall::GetWitness { index: 2 },
            HostCall::ReadElement,
        ]
    );
    assert_eq!(witness_read_script(0), vec![]);
}

/// A completed run of the declared size hands the elements through
/// unchanged, in canonical variable order.
#[test]
fn calculate_witness_completed() {
    let cfg = config(1, vec![97]);
    let input = vec![CircomInput::new(String::from("x"), vec![element(vec![3])])];
    let outcome = SandboxOutcome::Completed {
        size: 3,
        elements: vec![element(vec![1]), element(vec![3]), element(vec![9])],
    };
    let witness = calculate_witness(&cfg, &input, true, outcome).unwrap();
    assert_eq!(witness, vec![element(vec![1]), element(vec![3]), element(vec![9])]);
}

/// A sandbox trap is fatal and surfaces the sandbox's diagnostic text.
#[test]
fn calculate_witness_trap() {
    let cfg = config(1, vec![97]);
    let input = vec![CircomInput::new(String::from("x"), vec![element(vec![3])])];
    let outcome = SandboxOutcome::Trapped { message: String::from("assert failed in circuit") };
    let result = calculate_witness(&cfg, &input, true, outcome);
    assert_eq!(
        result,
        Err(WitnessError::WitnessCalculationError(String::from("assert failed in circuit")))
    );
}

/// Handing back a different number of elements than declared is rejected.
#[test]
fn calculate_witness_size_mismatch() {
    let cfg = config(1, vec![97]);
    let input = vec![CircomInput::new(String::from("x"), vec![element(vec![3])])];
    let outcome = SandboxOutcome::Completed { size: 2, elements: vec![element(vec![1])] };
    let result = calculate_witness(&cfg, &input, true, outcome);
    assert!(matches!(result, Err(WitnessError::WitnessCalculationError(_))));
}

/// An element of the wrong width is a memory error, never truncated.
#[test]
fn calculate_witness_width_mismatch() {
    let cfg = config(2, vec![97, 0]);
    let input = vec![CircomInput::new(String::from("x"), vec![element(vec![3, 0])])];
    let outcome = SandboxOutcome::Completed {
        size: 2,
        elements: vec![element(vec![1, 0]), element(vec![3])],
    };
    let result = calculate_witness(&cfg, &input, true, outcome);
    assert_eq!(result, Err(WitnessError::MemoryError));
}

/// Identical inputs, flag and sandbox outcome give identical scripts and
/// identical witness vectors across repeated calls.
#[test]
fn calculation_deterministic() {
    let cfg = config(1, vec![97]);
    let input = vec![
        CircomInput::new(String::from("a"), vec![element(vec![5]), element(vec![6])]),
        CircomInput::new(String::from("b"), vec![element(vec![7])]),
    ];
    let script_once = calculation_script(&input, true);
    let script_again = calculation_script(&input, true);
    assert_eq!(script_once, script_again);

    let outcome = || SandboxOutcome::Completed {
        size: 2,
        elements: vec![element(vec![1]), element(vec![42])],
    };
    let first = calculate_witness(&cfg, &input, true, outcome()).unwrap();
    let second = calculate_witness(&cfg, &input, true, outcome()).unwrap();
    assert_eq!(first, second);
}

/// The extended export set wins when present; the minimal set is the
/// fallback; an artifact with neither is unsupported.
#[test]
fn abi_resolution_policy() {
    assert_eq!(resolve_abi(true, true), Ok(AbiVariant::Extended));
    assert_eq!(resolve_abi(true, false), Ok(AbiVariant::Extended));
    assert_eq!(resolve_abi(false, true), Ok(AbiVariant::Minimal));
    assert_eq!(resolve_abi(false, false), Err(WitnessError::UnsupportedArtifactError));
}

/// A mismatched field modulus fails construction with the dedicated error;
/// a matching one succeeds.
#[test]
fn field_modulus_checked_at_construction() {
    let matching = CircomConfig::new(empty_r1cs(), 2, element(vec![97, 1]), element(vec![97, 1]));
    assert!(matching.is_ok());

    let mismatched = CircomConfig::new(empty_r1cs(), 2, element(vec![97, 1]), element(vec![97, 2]));
    assert_eq!(mismatched.unwrap_err(), WitnessError::FieldMismatchError);
}
