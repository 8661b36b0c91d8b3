//! The host side of one witness calculation: signal-identifier hashing,
//! input flattening, the exact order of calls the host makes against the
//! sandboxed executable, and the handling of the calculation's outcome.

use vstd::prelude::*;
use vstd::string::StringSliceAdditionalSpecFns;

use crate::element::Element;
use crate::error::WitnessError;
use crate::r1cs::CircomConfig;

verus! {

/// Offset basis of the 64-bit FNV-1a hash.
pub const FNV_OFFSET: u64 = 0xcbf2_9ce4_8422_2325;

/// Multiplier of the 64-bit FNV-1a hash.
pub const FNV_PRIME: u64 = 0x0000_0100_0000_01b3;

/// The 64-bit FNV-1a hash of a byte sequence: starting from the offset
/// basis, each byte is folded in by xor followed by a wrapping multiply
/// with the FNV prime.
pub open spec fn fnv1a_64(bytes: Seq<u8>) -> u64
    decreases bytes.len(),
{
    if bytes.len() == 0 {
        FNV_OFFSET
    } else {
        (((fnv1a_64(bytes.drop_last()) ^ (bytes.last() as u64)) as nat * FNV_PRIME as nat)
            % 0x1_0000_0000_0000_0000) as u64
    }
}

/// High 32 bits of the signal identifier a name hashes to.
pub open spec fn fnv_high(name: Seq<char>) -> u32 {
    (fnv1a_64(vstd::utf8::encode_utf8(name)) >> 32) as u32
}

/// Low 32 bits of the signal identifier a name hashes to.
pub open spec fn fnv_low(name: Seq<char>) -> u32 {
    fnv1a_64(vstd::utf8::encode_utf8(name)) as u32
}

/// Hashes a signal name to the 64-bit identifier the artifact's own code
/// uses to address that signal, split into its high and low 32-bit halves.
/// The algorithm (64-bit FNV-1a over the name's UTF-8 bytes) and the split
/// are fixed: any deviation would silently address the wrong signal.
pub fn fnv(inp: &str) -> (r: (u32, u32))
    ensures
        r.0 == fnv_high(inp@),
        r.1 == fnv_low(inp@),
{
    let bytes = inp.as_bytes();
    let mut h: u64 = FNV_OFFSET;
    let mut i: usize = 0;
    while i < bytes.len()
        invariant
            i <= bytes@.len(),
            bytes@ == inp.spec_bytes(),
            h == fnv1a_64(bytes@.take(i as int)),
        decreases bytes@.len() - i,
    {
        h = (h ^ (bytes[i] as u64)).wrapping_mul(FNV_PRIME);
        proof {
            assert(bytes@.take(i + 1).drop_last() =~= bytes@.take(i as int));
            assert(bytes@.take(i + 1).last() == bytes@[i as int]);
        }
        i = i + 1;
    }
    proof {
        assert(bytes@.take(bytes@.len() as int) =~= bytes@);
    }
    ((h >> 32) as u32, h as u32)
}

/// Law: signal-identifier hashing is stable.  The high/low pair is a
/// function of the signal name alone, so the same name yields the same
/// identifier in every calculation and every process.
pub proof fn lemma_fnv_stable(name1: Seq<char>, name2: Seq<char>)
    requires
        name1 == name2,
    ensures
        fnv_high(name1) == fnv_high(name2),
        fnv_low(name1) == fnv_low(name2),
{
}

/// The high/low halves lose nothing: together they are exactly the 64-bit
/// hash the artifact's own code computes for the name.
pub proof fn lemma_fnv_split(name: Seq<char>)
    ensures
        ((fnv_high(name) as u64) << 32) | (fnv_low(name) as u64) == fnv1a_64(
            vstd::utf8::encode_utf8(name),
        ),
{
    let h = fnv1a_64(vstd::utf8::encode_utf8(name));
    assert(((((h >> 32) as u32) as u64) << 32) | ((h as u32) as u64) == h) by (bit_vector);
}

/// One named input: a signal name and the ordered values assigned to it
/// (several for an array-valued signal, one for a scalar).
pub struct CircomInput {
    pub name: String,
    pub value: Vec<Element>,
}

/// The mathematical content of a named input.
pub struct CircomInputView {
    pub name: Seq<char>,
    pub value: Seq<Seq<u32>>,
}

impl DeepView for CircomInput {
    type V = CircomInputView;

    open spec fn deep_view(&self) -> CircomInputView {
        CircomInputView { name: self.name@, value: self.value.deep_view() }
    }
}

impl CircomInput {
    pub fn new(name: String, value: Vec<Element>) -> (r: CircomInput)
        ensures
            r.name@ == name@,
            r.value.deep_view() == value.deep_view(),
    {
        CircomInput { name, value }
    }
}

/// One call the host makes against the sandboxed executable's exports.
#[derive(Clone, Debug, PartialEq, Eq)]
pub enum HostCall {
    /// Reset the executable's internal state for a fresh calculation.
    Init { sanity_check: bool },
    /// Place one element in the shared scratch region.
    WriteElement { value: Element },
    /// Assign the element just written to the signal with this hashed
    /// identifier, at this position within an array-valued signal.
    AssignSignal { id_high: u32, id_low: u32, position: u32 },
    /// Ask how many variables the produced assignment has.
    GetWitnessSize,
    /// Ask the executable to place witness variable `index` in the shared
    /// scratch region.
    GetWitness { index: u32 },
    /// Read one element out of the shared scratch region.
    ReadElement,
}

/// The mathematical content of a host call.
pub enum HostCallView {
    Init { sanity_check: bool },
    WriteElement { value: Seq<u32> },
    AssignSignal { id_high: u32, id_low: u32, position: u32 },
    GetWitnessSize,
    GetWitness { index: u32 },
    ReadElement,
}

impl DeepView for HostCall {
    type V = HostCallView;

    open spec fn deep_view(&self) -> HostCallView {
        match self {
            HostCall::Init { sanity_check } => HostCallView::Init { sanity_check: *sanity_check },
            HostCall::WriteElement { value } => HostCallView::WriteElement { value: value@ },
            HostCall::AssignSignal { id_high, id_low, position } => HostCallView::AssignSignal {
                id_high: *id_high,
                id_low: *id_low,
                position: *position,
            },
            HostCall::GetWitnessSize => HostCallView::GetWitnessSize,
            HostCall::GetWitness { index } => HostCallView::GetWitness { index: *index },
            HostCall::ReadElement => HostCallView::ReadElement,
        }
    }
}

/// The calls that hand one signal's ordered values to the executable: for
/// each position, write the element, then assign it under the signal's
/// hashed identifier at that position.
pub open spec fn value_calls(id_high: u32, id_low: u32, values: Seq<Seq<u32>>) -> Seq<HostCallView>
    decreases values.len(),
{
    if values.len() == 0 {
        Seq::empty()
    } else {
        value_calls(id_high, id_low, values.drop_last()) + seq![
            HostCallView::WriteElement { value: values.last() },
            HostCallView::AssignSignal {
                id_high,
                id_low,
                position: (values.len() - 1) as u32,
            },
        ]
    }
}

/// The calls that hand one named input to the executable.
pub open spec fn input_calls(inp: CircomInputView) -> Seq<HostCallView> {
    value_calls(fnv_high(inp.name), fnv_low(inp.name), inp.value)
}

/// The calls that hand a whole ordered sequence of named inputs to the
/// executable, in order.
pub open spec fn inputs_calls(inputs: Seq<CircomInputView>) -> Seq<HostCallView>
    decreases inputs.len(),
{
    if inputs.len() == 0 {
        Seq::empty()
    } else {
        inputs_calls(inputs.drop_last()) + input_calls(inputs.last())
    }
}

/// The full call sequence of one calculation up to the point where the
/// executable reports the witness size: initialization, every input in
/// order, then the size query.
pub open spec fn calculation_calls(inputs: Seq<CircomInputView>, sanity_check: bool) -> Seq<
    HostCallView,
> {
    seq![HostCallView::Init { sanity_check }] + inputs_calls(inputs) + seq![
        HostCallView::GetWitnessSize,
    ]
}

/// The calls that read the produced assignment back: for each index in
/// order, ask for the variable, then read it out of the scratch region.
pub open spec fn read_calls(size: u32) -> Seq<HostCallView>
    decreases size,
{
    if size == 0 {
        Seq::empty()
    } else {
        read_calls((size - 1) as u32) + seq![
            HostCallView::GetWitness { index: (size - 1) as u32 },
            HostCallView::ReadElement,
        ]
    }
}

/// Builds the call sequence that drives one calculation up to the witness
/// size query.  The order — initialization first, then every value of every
/// input in their given order, each write followed by its assignment — must
/// match the compiler's own signal-flattening order bit for bit.
pub fn calculation_script(input: &Vec<CircomInput>, sanity_check: bool) -> (r: Vec<HostCall>)
    requires
        forall|i: int| 0 <= i < input@.len() ==> (#[trigger] input@[i]).value@.len() <= u32::MAX,
    ensures
        r.deep_view() == calculation_calls(input.deep_view(), sanity_check),
{
    let mut calls: Vec<HostCall> = Vec::new();
    calls.push(HostCall::Init { sanity_check });
    proof {
        assert(calls.deep_view() =~= seq![HostCallView::Init { sanity_check }]);
    }
    let mut i: usize = 0;
    while i < input.len()
        invariant
            i <= input@.len(),
            forall|k: int| 0 <= k < input@.len() ==> (#[trigger] input@[k]).value@.len()
                <= u32::MAX,
            calls.deep_view() =~= seq![HostCallView::Init { sanity_check }] + inputs_calls(
                input.deep_view().take(i as int),
            ),
        decreases input@.len() - i,
    {
        let ghost prefix = calls.deep_view();
        let inp = &input[i];
        let (id_high, id_low) = fnv(inp.name.as_str());
        let ghost values = inp.deep_view().value;
        let mut j: usize = 0;
        while j < inp.value.len()
            invariant
                j <= inp.value@.len(),
                inp.value@.len() <= u32::MAX,
                values == inp.deep_view().value,
                id_high == fnv_high(inp.name@),
                id_low == fnv_low(inp.name@),
                calls.deep_view() =~= prefix + value_calls(id_high, id_low, values.take(j as int)),
            decreases inp.value@.len() - j,
        {
            let ghost before = calls.deep_view();
            let element = inp.value[j].duplicate();
            proof {
                assert(element@ == values[j as int]);
            }
            calls.push(HostCall::WriteElement { value: element });
            proof {
                assert(calls.deep_view() =~= before + seq![
                    HostCallView::WriteElement { value: values[j as int] },
                ]);
            }
            calls.push(
                HostCall::AssignSignal { id_high, id_low, position: j as u32 },
            );
            proof {
                assert(calls.deep_view() =~= before + seq![
                    HostCallView::WriteElement { value: values[j as int] },
                    HostCallView::AssignSignal { id_high, id_low, position: j as u32 },
                ]);
                let taken = values.take(j + 1);
                assert(taken.drop_last() =~= values.take(j as int));
                assert(taken.last() == values[j as int]);
                assert((taken.len() - 1) as u32 == j as u32);
                assert(calls.deep_view() =~= prefix + value_calls(id_high, id_low, taken));
            }
            j = j + 1;
        }
        proof {
            assert(values.take(inp.value@.len() as int) =~= values);
            assert(calls.deep_view() =~= prefix + input_calls(inp.deep_view()));
            let taken = input.deep_view().take(i + 1);
            assert(taken.drop_last() =~= input.deep_view().take(i as int));
            assert(taken.last() == input.deep_view()[i as int]);
            assert(calls.deep_view() =~= seq![HostCallView::Init { sanity_check }] + inputs_calls(
                taken,
            ));
        }
        i = i + 1;
    }
    calls.push(HostCall::GetWitnessSize);
    proof {
        assert(input.deep_view().take(input@.len() as int) =~= input.deep_view());
        assert(calls.deep_view() =~= calculation_calls(input.deep_view(), sanity_check));
    }
    calls
}

/// Builds the call sequence that reads a produced assignment of the
/// declared size back out of the executable, in canonical variable order.
pub fn witness_read_script(size: u32) -> (r: Vec<HostCall>)
    ensures
        r.deep_view() == read_calls(size),
{
    let mut calls: Vec<HostCall> = Vec::new();
    let mut i: u32 = 0;
    while i < size
        invariant
            i <= size,
            calls.deep_view() =~= read_calls(i),
        decreases size - i,
    {
        calls.push(HostCall::GetWitness { index: i });
        calls.push(HostCall::ReadElement);
        proof {
            assert(calls.deep_view() =~= read_calls((i + 1) as u32));
        }
        i = i + 1;
    }
    calls
}

/// How one calculation against the sandboxed executable ended: either the
/// whole call sequence ran and the declared number of elements was read
/// back, or the sandbox trapped at some step and the run was abandoned.
pub enum SandboxOutcome {
    Completed { size: u32, elements: Vec<Element> },
    Trapped { message: String },
}

/// The mathematical content of an outcome.
pub enum SandboxOutcomeView {
    Completed { size: u32, elements: Seq<Seq<u32>> },
    Trapped { message: Seq<char> },
}

impl DeepView for SandboxOutcome {
    type V = SandboxOutcomeView;

    open spec fn deep_view(&self) -> SandboxOutcomeView {
        match self {
            SandboxOutcome::Completed { size, elements } => SandboxOutcomeView::Completed {
                size: *size,
                elements: elements.deep_view(),
            },
            SandboxOutcome::Trapped { message } => SandboxOutcomeView::Trapped {
                message: message@,
            },
        }
    }
}

/// Every position of every array-valued input must be addressable by the
/// assignment entry point's 32-bit position argument.
pub open spec fn inputs_addressable(inputs: Seq<CircomInputView>) -> bool {
    forall|i: int| 0 <= i < inputs.len() ==> (#[trigger] inputs[i]).value.len() <= u32::MAX
}

/// A completed run is acceptable as a witness when the sandbox handed back
/// exactly as many elements as it declared, each at the artifact's element
/// width.
pub open spec fn witness_outcome_ok(width: u32, outcome: SandboxOutcomeView) -> bool {
    outcome matches SandboxOutcomeView::Completed { size, elements } && elements.len()
        == size as nat && forall|i: int|
        0 <= i < elements.len() ==> (#[trigger] elements[i]).len() == width as nat
}

/// Turns the outcome of one sandbox run into the caller's witness vector
/// for the calculation these inputs and this flag describe.  An input the
/// artifact could not have addressed is rejected up front; a trap is fatal
/// to the call and surfaces the sandbox's diagnostic text; a size mismatch
/// or an element of the wrong width is rejected, never silently truncated.
/// On success the witness is exactly the element sequence the sandbox
/// produced, in canonical variable order.
pub fn calculate_witness(
    cfg: &CircomConfig,
    input: &Vec<CircomInput>,
    sanity_check: bool,
    outcome: SandboxOutcome,
) -> (r: Result<Vec<Element>, WitnessError>)
    requires
        cfg.wf(),
    ensures
        r is Ok <==> inputs_addressable(input.deep_view()) && witness_outcome_ok(
            cfg.width,
            outcome.deep_view(),
        ),
        r matches Ok(w) ==> (outcome.deep_view() matches SandboxOutcomeView::Completed {
            size,
            elements,
        } && w.deep_view() == elements),
        !inputs_addressable(input.deep_view()) ==> (r matches Err(e)
            && e is WitnessCalculationError),
        inputs_addressable(input.deep_view()) ==> (outcome.deep_view()
            matches SandboxOutcomeView::Trapped { message } ==> (r matches Err(e)
            && e matches WitnessError::WitnessCalculationError(m) && m@ == message)),
        inputs_addressable(input.deep_view()) ==> ((outcome.deep_view()
            matches SandboxOutcomeView::Completed { size, elements } && elements.len()
            != size as nat) ==> (r matches Err(e) && e is WitnessCalculationError)),
        inputs_addressable(input.deep_view()) ==> ((outcome.deep_view()
            matches SandboxOutcomeView::Completed { size, elements } && elements.len()
            == size as nat && !witness_outcome_ok(cfg.width, outcome.deep_view())) ==> (r
            matches Err(e) && e is MemoryError)),
{
    let mut n: usize = 0;
    while n < input.len()
        invariant
            n <= input@.len(),
            forall|k: int| 0 <= k < n ==> (#[trigger] input.deep_view()[k]).value.len()
                <= u32::MAX,
        decreases input@.len() - n,
    {
        if input[n].value.len() > u32::MAX as usize {
            proof {
                assert(input.deep_view()[n as int].value.len() == input@[n as int].value@.len());
                assert(!inputs_addressable(input.deep_view()));
            }
            return Err(
                WitnessError::WitnessCalculationError(
                    "input signal has more positions than the artifact can address".to_owned(),
                ),
            );
        }
        proof {
            assert(input.deep_view()[n as int].value.len() == input@[n as int].value@.len());
        }
        n = n + 1;
    }
    proof {
        assert(inputs_addressable(input.deep_view()));
    }
    let ghost outcome_view = outcome.deep_view();
    match outcome {
        SandboxOutcome::Trapped { message } => Err(
            WitnessError::WitnessCalculationError(message),
        ),
        SandboxOutcome::Completed { size, elements } => {
            proof {
                assert(outcome_view == SandboxOutcomeView::Completed {
                    size,
                    elements: elements.deep_view(),
                });
            }
            if elements.len() != size as usize {
                return Err(
                    WitnessError::WitnessCalculationError(
                        "sandbox returned a different number of elements than it declared".to_owned(),
                    ),
                );
            }
            let mut i: usize = 0;
            while i < elements.len()
                invariant
                    i <= elements@.len(),
                    elements@.len() == size as nat,
                    inputs_addressable(input.deep_view()),
                    outcome.deep_view() == (SandboxOutcomeView::Completed {
                        size,
                        elements: elements.deep_view(),
                    }),
                    forall|k: int| 0 <= k < i ==> (#[trigger] elements@[k])@.len()
                        == cfg.width as nat,
                decreases elements@.len() - i,
            {
                if elements[i].limbs.len() != cfg.width as usize {
                    proof {
                        assert(elements.deep_view()[i as int] == elements@[i as int]@);
                        assert(!witness_outcome_ok(cfg.width, outcome.deep_view()));
                    }
                    return Err(WitnessError::MemoryError);
                }
                i = i + 1;
            }
            Ok(elements)
        },
    }
}

/// Law: witness calculation is deterministic.  The call sequence handed to
/// the sandbox and the acceptance of its outcome are functions of the named
/// inputs, the sanity-check flag and the outcome alone, so identical inputs
/// give identical witness vectors across repeated calls.
pub proof fn lemma_calculation_deterministic(
    inputs1: Seq<CircomInputView>,
    inputs2: Seq<CircomInputView>,
    sanity1: bool,
    sanity2: bool,
    width: u32,
    outcome1: SandboxOutcomeView,
    outcome2: SandboxOutcomeView,
)
    requires
        inputs1 == inputs2,
        sanity1 == sanity2,
        outcome1 == outcome2,
    ensures
        calculation_calls(inputs1, sanity1) == calculation_calls(inputs2, sanity2),
        witness_outcome_ok(width, outcome1) == witness_outcome_ok(width, outcome2),
{
}

/// The two export sets a compiled artifact may expose: the extended set
/// with separate signal-addressing entry points, or the minimal one.
#[derive(Clone, Copy, Debug, PartialEq, Eq, Structural)]
pub enum AbiVariant {
    Extended,
    Minimal,
}

/// Resolution policy over the artifact's exports, probed once at
/// construction: the extended set wins when present, the minimal set is the
/// fallback, and an artifact with neither is unsupported.
pub fn resolve_abi(has_extended: bool, has_minimal: bool) -> (r: Result<AbiVariant, WitnessError>)
    ensures
        has_extended ==> (r matches Ok(v) && v is Extended),
        !has_extended && has_minimal ==> (r matches Ok(v) && v is Minimal),
        !has_extended && !has_minimal ==> (r matches Err(e) && e is UnsupportedArtifactError),
{
    if has_extended {
        Ok(AbiVariant::Extended)
    } else if has_minimal {
        Ok(AbiVariant::Minimal)
    } else {
        Err(WitnessError::UnsupportedArtifactError)
    }
}

} // verus!
