//! The Miden VM as the library sees it: a job program together with the
//! assembly text it was built from, and the few calls the library makes into
//! the VM's assembler, prover and verifier. The assembler, the prover and the
//! verifier are deterministic, so their results are named as functions of the
//! program's text and of plain values.

use vstd::prelude::*;

use miden_processor::math::Felt;
use miden_processor::{AdviceInputs, DefaultHost, MemAdviceProvider, ProgramInfo, StackInputs};
use miden_processor::{Program, StackOutputs};
use miden_prover::{ExecutionProof, ProvingOptions};

verus! {

/// A compiled Miden program; opaque to the library.
#[verifier::external_type_specification]
#[verifier::external_body]
pub struct ExProgram(miden_processor::Program);

/// A program of the service, with the Miden assembly text it was assembled
/// from by `Assembler::default()`. Its fields are private: `compile_program`
/// and `compile_programs` are the only ways to make one, so the program is
/// always the one that its text assembles to.
pub struct JobProgram {
    source: String,
    program: Program,
}

impl JobProgram {
    /// The assembly text the program was built from.
    pub closed spec fn source(&self) -> Seq<char> {
        self.source@
    }
}

/// The modulus of Miden's base field, 2^64 - 2^32 + 1.
pub open spec fn field_modulus() -> int {
    0xFFFF_FFFF_0000_0001
}

/// The number of stack slots that are always present, `STACK_TOP_SIZE`.
pub open spec fn stack_top_size() -> int {
    16
}

/// When `StackOutputs::new(stack, overflow_addrs)` succeeds: every stack value
/// and every address is a field element, and there is one overflow address
/// more than stack values beyond the top 16, or none when the stack has at
/// most 16 values.
pub open spec fn stack_outputs_accepted(stack: Seq<u64>, overflow_addrs: Seq<u64>) -> bool {
    &&& forall|i: int| 0 <= i < stack.len() ==> (#[trigger] stack[i]) < field_modulus()
    &&& forall|i: int| 0 <= i < overflow_addrs.len() ==> (#[trigger] overflow_addrs[i]) < field_modulus()
    &&& overflow_addrs.len() == if stack.len() > stack_top_size() {
        stack.len() + 1 - stack_top_size()
    } else {
        0
    }
}

/// Whether the text declares a constant: it holds `const.` somewhere.
pub open spec fn declares_constants(source: Seq<char>) -> bool {
    exists|i: int| 0 <= i && i + 6 <= source.len() && #[trigger] source.subrange(i, i + 6) == seq!['c', 'o', 'n', 's', 't', '.']
}

/// Whether the assembler may be handed the text: it is ASCII and declares no
/// constant. The assembler cuts its text at byte offsets (its tokenizer
/// counts each separator as one byte, and hexadecimal values and digests are
/// read two bytes at a time), which panics inside a multibyte character; and
/// its parser of constant declarations panics on some malformed declarations
/// (an unbalanced `)`, a lone operator).
pub open spec fn assembler_safe(source: Seq<char>) -> bool {
    vstd::utf8::is_ascii_chars(source) && !declares_constants(source)
}

/// The bytes that open every proof the service's prover writes: the hash
/// function (Blake3-192), the trace layout of the Miden VM (main width 70,
/// one auxiliary segment of width 7 with 16 random elements), the trace
/// length as a power of two, empty trace metadata, the 8-byte field modulus,
/// and the default 96-bit proof options (27 queries, blowup 8, grinding 16,
/// quadratic extension, FRI folding 8, remainder degree 255).
pub open spec fn proof_header_ok(bytes: Seq<u8>) -> bool {
    &&& bytes.len() >= 22
    &&& bytes[0] == 0 && bytes[1] == 70 && bytes[2] == 7 && bytes[3] == 16
    &&& 6 <= bytes[4] <= 29
    &&& bytes[5] == 0 && bytes[6] == 0
    &&& bytes[7] == 8 && bytes[8] == 1 && bytes[9] == 0 && bytes[10] == 0 && bytes[11] == 0
    &&& bytes[12] == 255 && bytes[13] == 255 && bytes[14] == 255 && bytes[15] == 255
    &&& bytes[16] == 27 && bytes[17] == 8 && bytes[18] == 16 && bytes[19] == 2
    &&& bytes[20] == 8 && bytes[21] == 255
}

/// The little-endian `u16` at `at`.
pub open spec fn le_u16(b: Seq<u8>, at: int) -> int {
    b[at] + 256 * b[at + 1]
}

/// The little-endian `u32` at `at`.
pub open spec fn le_u32(b: Seq<u8>, at: int) -> int {
    le_u16(b, at) + 65536 * le_u16(b, at + 2)
}

/// Where the field after a byte vector with a 16-bit length at `at` begins;
/// `None` when the vector runs past the end.
pub open spec fn skip_u16_vec(b: Seq<u8>, at: Option<int>) -> Option<int> {
    match at {
        Some(i) => if 0 <= i && i + 2 <= b.len() && i + 2 + le_u16(b, i) <= b.len() {
            Some(i + 2 + le_u16(b, i))
        } else {
            None
        },
        None => None,
    }
}

/// Where the field after a byte vector with a 32-bit length at `at` begins;
/// `None` when the vector runs past the end.
pub open spec fn skip_u32_vec(b: Seq<u8>, at: Option<int>) -> Option<int> {
    match at {
        Some(i) => if 0 <= i && i + 4 <= b.len() && i + 4 + le_u32(b, i) <= b.len() {
            Some(i + 4 + le_u32(b, i))
        } else {
            None
        },
        None => None,
    }
}

/// Where the out-of-domain frame of a proof in the service's format begins:
/// after the 22 header bytes come the commitments (a vector with a 16-bit
/// length) and the queries of the two trace segments and of the constraint
/// evaluations (each two vectors with 32-bit lengths).
pub open spec fn ood_frame_at(b: Seq<u8>) -> Option<int> {
    let trace_queries = skip_u16_vec(b, Some(22));
    let aux_queries = skip_u32_vec(b, skip_u32_vec(b, trace_queries));
    let constraint_queries = skip_u32_vec(b, skip_u32_vec(b, aux_queries));
    skip_u32_vec(b, skip_u32_vec(b, constraint_queries))
}

/// Where the FRI proof begins: after the out-of-domain frame's two vectors
/// with 16-bit lengths.
pub open spec fn fri_proof_at(b: Seq<u8>) -> Option<int> {
    skip_u16_vec(b, skip_u16_vec(b, ood_frame_at(b)))
}

/// How many FRI layers a proof under the default options has for an
/// extended domain of `2^lde_log` points: the domain is folded by 8 while it
/// holds more than 2^11 points (remainder degree 255 times blowup 8).
pub open spec fn fri_layer_count(lde_log: int) -> int
    decreases lde_log,
{
    if lde_log > 11 {
        1 + fri_layer_count(lde_log - 3)
    } else {
        0
    }
}

/// The parts past the header that the verifier uses before checking them:
/// the out-of-domain frame holds two rows, the FRI proof has as many layers
/// as the verifier folds the extended domain (`fri_layer_count` of the trace
/// length times 8), and its partition count (stored as a power of two, the
/// byte before the 8-byte nonce at the end) is 1. The prover writes proofs
/// this way; a frame of another size, a layer too many or too few, or a
/// large partition exponent makes the verifier index out of bounds, take a
/// logarithm of 0 or overflow.
pub open spec fn proof_body_ok(b: Seq<u8>) -> bool {
    &&& b.len() >= 22
    &&& ood_frame_at(b) matches Some(o) && o + 3 <= b.len() && le_u16(b, o) >= 1 && b[o + 2] == 2
    &&& fri_proof_at(b) matches Some(f) && f < b.len() && b[f] == fri_layer_count(b[4] + 3)
    &&& b[b.len() - 9] == 0
}

/// Whether `Assembler::default().compile(source)` succeeds on the text `source`.
pub uninterp spec fn masm_assembles(source: Seq<char>) -> bool;

/// Whether `ExecutionProof::from_bytes(bytes)` succeeds.
pub uninterp spec fn execution_proof_decodes(bytes: Seq<u8>) -> bool;

/// What `miden_verifier::verify` returns (the security level, or `None` for
/// an error) for the program assembled from `source`, with `job_id` as the
/// only stack input, the outputs `StackOutputs::new(stack, overflow_addrs)`
/// and the proof `ExecutionProof::from_bytes(proof)`.
pub uninterp spec fn miden_verification(
    source: Seq<char>,
    job_id: u8,
    stack: Seq<u64>,
    overflow_addrs: Seq<u64>,
    proof: Seq<u8>,
) -> Option<u32>;

/// What `miden_prover::prove` gives for the program assembled from `source`,
/// with `input` as the only stack input, `advice` as the only advice-stack
/// value and the default proving options: the final stack, the overflow
/// addresses and the serialized proof, or `None` when execution or proving
/// fails.
pub uninterp spec fn miden_execution(source: Seq<char>, input: u8, advice: u8) -> Option<
    (Seq<u64>, Seq<u64>, Seq<u8>),
>;

/// What holds of every result of the prover: the VM builds its outputs with
/// `StackOutputs::from_elements(..).expect(..)`, so they are accepted outputs;
/// the serialized proof reads back as a proof; and the verifier accepts the
/// proof for the same program, input and outputs. The proof is written in
/// the service's format (`proof_header_ok`): the default proving options
/// and hash function, and a trace of at least 2^6 and at most 2^29 rows
/// (the VM's minimum, and the largest whose extended domain the field holds);
/// and its body is as the prover writes it (`proof_body_ok`): a two-row
/// out-of-domain frame, the FRI layers of the default options and a single
/// FRI partition.
pub open spec fn execution_facts(
    source: Seq<char>,
    input: u8,
    stack: Seq<u64>,
    overflow_addrs: Seq<u64>,
    proof: Seq<u8>,
) -> bool {
    &&& stack_outputs_accepted(stack, overflow_addrs)
    &&& proof_header_ok(proof)
    &&& proof_body_ok(proof)
    &&& execution_proof_decodes(proof)
    &&& miden_verification(source, input, stack, overflow_addrs, proof) is Some
}

/// Calls `miden_assembly::Assembler::default().compile(source)` and keeps the
/// text with the program. Trusted to succeed exactly when `masm_assembles`
/// holds of the text, and not to panic on a text that `assembler_safe` admits.
#[verifier::external_body]
pub(crate) fn assemble(source: &str) -> (r: Option<JobProgram>)
    requires
        assembler_safe(source@),
    ensures
        r is Some <==> masm_assembles(source@),
        r matches Some(p) ==> p.source() == source@,
{
    match miden_assembly::Assembler::default().compile(source) {
        Ok(program) => Some(JobProgram { source: source.to_string(), program }),
        Err(_) => None,
    }
}

/// Calls `StackOutputs::new(stack, overflow_addrs)` and tells whether it
/// succeeds. Trusted to succeed exactly on the inputs `stack_outputs_accepted`
/// describes, which is what the checks in miden-core 0.7's constructor test.
#[verifier::external_body]
pub(crate) fn stack_outputs_valid(stack: &Vec<u64>, overflow_addrs: &Vec<u64>) -> (r: bool)
    ensures
        r <==> stack_outputs_accepted(stack@, overflow_addrs@),
{
    StackOutputs::new(stack.clone(), overflow_addrs.clone()).is_ok()
}

/// Calls `ExecutionProof::from_bytes(bytes)` and tells whether it succeeds.
/// Trusted to agree with `execution_proof_decodes`. Reading the proof
/// options asserts their bounds (`ProofOptions::new`) and the trace length
/// is a power of two of the stored exponent, so the call is made only on
/// bytes in the service's proof format.
#[verifier::external_body]
pub(crate) fn proof_decodes(bytes: &[u8]) -> (r: bool)
    requires
        proof_header_ok(bytes@),
    ensures
        r <==> execution_proof_decodes(bytes@),
{
    ExecutionProof::from_bytes(bytes).is_ok()
}

/// Calls `miden_verifier::verify` with the program's hash and kernel, the job
/// identifier as the only stack input, the outputs built from `stack` and
/// `overflow_addrs`, and the proof read from `proof`. Returns the proof's
/// security level when it verifies. Trusted to return `miden_verification`
/// of its arguments; the outputs and the proof are built by the constructors
/// whose success `requires` states. The verifier builds the VM's AIR from the
/// proof's header, which asserts a multi-segment trace, a blowup factor the
/// constraints need and an extended domain the field holds; the header of
/// the service's format meets these. It then reads the out-of-domain frame
/// two values at a time, takes one layer proof per FRI layer it folds, and
/// raises 2 to the stored partition exponent, which a body as
/// `proof_body_ok` describes meets.
#[verifier::external_body]
pub(crate) fn verify_execution(
    program: &JobProgram,
    job_id: u8,
    stack: Vec<u64>,
    overflow_addrs: Vec<u64>,
    proof: &[u8],
) -> (r: Option<u32>)
    requires
        stack_outputs_accepted(stack@, overflow_addrs@),
        proof_header_ok(proof@),
        execution_proof_decodes(proof@),
        proof_body_ok(proof@),
    ensures
        r == miden_verification(program.source(), job_id, stack@, overflow_addrs@, proof@),
{
    let info = ProgramInfo::new(program.program.hash(), program.program.kernel().clone());
    let inputs = StackInputs::new(vec![Felt::from(job_id)]);
    let outputs = StackOutputs::new(stack, overflow_addrs).expect("accepted outputs");
    let proof = ExecutionProof::from_bytes(proof).expect("decodable proof");
    miden_verifier::verify(info, inputs, outputs, proof).ok()
}

/// Calls `miden_prover::prove` on the program with `input` as the only stack
/// input and `advice` as the only advice-stack value, under the default
/// proving options, and returns the final stack, the overflow addresses and
/// the serialized proof. Trusted to return `miden_execution` of its
/// arguments, and, when it succeeds, outputs and a proof of which
/// `execution_facts` hold: the VM builds its outputs through
/// `StackOutputs::from_elements(..).expect(..)`, `to_bytes` and `from_bytes`
/// are each other's inverse, and the verifier accepts what the prover proved
/// (the guarantee the VM documents for `prove` and `verify`).
#[verifier::external_body]
pub(crate) fn prove_execution(program: &JobProgram, input: u8, advice: u8) -> (r: Option<
    (Vec<u64>, Vec<u64>, Vec<u8>),
>)
    ensures
        match r {
            Some((s, a, p)) => miden_execution(program.source(), input, advice) == Some(
                (s@, a@, p@),
            ),
            None => miden_execution(program.source(), input, advice) is None,
        },
        r matches Some((s, a, p)) ==> execution_facts(program.source(), input, s@, a@, p@),
{
    let inputs = StackInputs::new(vec![Felt::from(input)]);
    let advice_inputs = AdviceInputs::default().with_stack([Felt::from(advice)]);
    let host = DefaultHost::new(MemAdviceProvider::from(advice_inputs));
    match miden_prover::prove(&program.program, inputs, host, ProvingOptions::default()) {
        Ok((outputs, proof)) => Some((outputs.stack().to_vec(), outputs.overflow_addrs().to_vec(), proof.to_bytes())),
        Err(_) => None,
    }
}

/// Calls `getrandom::getrandom` for one byte, leaving it 0 if the source of
/// randomness fails. Nothing is stated of the byte.
#[verifier::external_body]
pub(crate) fn rand_u8() -> u8 {
    let mut buf = [0u8; 1];
    getrandom::getrandom(&mut buf).ok();
    buf[0]
}

} // verus!
