//! Checking a worker's submission against the job's program.

use vstd::prelude::*;

use crate::decimal::{lemma_parse_decimal, parse_u64, parsed_u64};
use crate::prover::{prepared_submission, truncated_stack, ProveResult};
use crate::encoding::{base64_decode, base64_decoding};
use crate::miden::{assemble, execution_facts, execution_proof_decodes, masm_assembles};
use crate::miden::{miden_verification, proof_decodes, stack_outputs_accepted, stack_outputs_valid};
use crate::miden::{assembler_safe, declares_constants, proof_header_ok, verify_execution, JobProgram};
use crate::miden::{fri_layer_count, fri_proof_at, le_u16, le_u32, ood_frame_at, proof_body_ok};
use crate::miden::{skip_u16_vec, skip_u32_vec};
use crate::types::Submission;

verus! {

/// Why a submission was refused.
#[derive(Debug, Clone, Copy, PartialEq, Eq)]
pub enum SubmitError {
    InvalidOverflow,
    InvalidOutputs,
    InvalidBase64,
    ProofDeserializeFailure,
    VerifyFailure,
}

/// The name of an error variant, as `{:?}` prints it.
pub open spec fn error_name(e: SubmitError) -> Seq<char> {
    match e {
        SubmitError::InvalidOverflow => "InvalidOverflow"@,
        SubmitError::InvalidOutputs => "InvalidOutputs"@,
        SubmitError::InvalidBase64 => "InvalidBase64"@,
        SubmitError::ProofDeserializeFailure => "ProofDeserializeFailure"@,
        SubmitError::VerifyFailure => "VerifyFailure"@,
    }
}

impl SubmitError {
    /// The variant's name, the text that `{:?}` prints for it.
    pub fn name(&self) -> (r: &'static str)
        ensures
            r@ == error_name(*self),
    {
        match self {
            SubmitError::InvalidOverflow => "InvalidOverflow",
            SubmitError::InvalidOutputs => "InvalidOutputs",
            SubmitError::InvalidBase64 => "InvalidBase64",
            SubmitError::ProofDeserializeFailure => "ProofDeserializeFailure",
            SubmitError::VerifyFailure => "VerifyFailure",
        }
    }
}

/// Whether every overflow address of a submission is a decimal `u64`.
pub open spec fn overflow_addrs_parse(addrs: Seq<String>) -> bool {
    forall|i: int| 0 <= i < addrs.len() ==> (#[trigger] parsed_u64(addrs[i]@)) is Some
}

/// The overflow addresses of a submission, read as numbers.
pub open spec fn parsed_overflow_addrs(addrs: Seq<String>) -> Seq<u64> {
    addrs.map_values(|s: String| parsed_u64(s@).unwrap())
}

/// The submitted stack, as the 64-bit values the VM works with.
pub open spec fn widened_stack(stack: Seq<u32>) -> Seq<u64> {
    stack.map_values(|x: u32| x as u64)
}

/// The first of the checks that a submission fails before its proof is
/// verified, in the order they are made; `None` when it passes them all.
pub open spec fn submission_precheck(sub: Submission) -> Option<SubmitError> {
    if !overflow_addrs_parse(sub.overflow_addrs@) {
        Some(SubmitError::InvalidOverflow)
    } else if !stack_outputs_accepted(
        widened_stack(sub.output_stack@),
        parsed_overflow_addrs(sub.overflow_addrs@),
    ) {
        Some(SubmitError::InvalidOutputs)
    } else if base64_decoding(sub.proof@) is None {
        Some(SubmitError::InvalidBase64)
    } else if !execution_proof_decodes(base64_decoding(sub.proof@).unwrap()) {
        Some(SubmitError::ProofDeserializeFailure)
    } else {
        None
    }
}

/// The verdict of validation: the error of the first failed check; or, when
/// all checks pass, what the Miden verifier says of the proof for the program,
/// the job identifier and the submitted outputs (its security level, or
/// `VerifyFailure`).
pub open spec fn submission_verdict(source: Seq<char>, sub: Submission) -> Result<u32, SubmitError> {
    match submission_precheck(sub) {
        Some(e) => Err(e),
        None => match miden_verification(
            source,
            sub.job_id,
            widened_stack(sub.output_stack@),
            parsed_overflow_addrs(sub.overflow_addrs@),
            base64_decoding(sub.proof@).unwrap(),
        ) {
            Some(level) => Ok(level),
            None => Err(SubmitError::VerifyFailure),
        },
    }
}

/// Whether the text declares a constant (holds `const.`).
pub fn has_constant_declaration(source: &str) -> (r: bool)
    ensures
        r == declares_constants(source@),
{
    let ghost s = source@;
    let n = source.unicode_len();
    if n < 6 {
        return false;
    }
    let mut i: usize = 0;
    while i <= n - 6
        invariant
            s == source@,
            n == s.len(),
            n >= 6,
            i <= n - 5,
            forall|j: int| 0 <= j < i ==> #[trigger] s.subrange(j, j + 6) != seq!['c', 'o', 'n', 's', 't', '.'],
        decreases n - i,
    {
        if source.get_char(i) == 'c' && source.get_char(i + 1) == 'o' && source.get_char(i + 2) == 'n'
            && source.get_char(i + 3) == 's' && source.get_char(i + 4) == 't' && source.get_char(i + 5) == '.' {
            assert(s.subrange(i as int, i + 6) =~= seq!['c', 'o', 'n', 's', 't', '.']);
            return true;
        }
        assert(s.subrange(i as int, i + 6) != seq!['c', 'o', 'n', 's', 't', '.']) by {
            let w = seq!['c', 'o', 'n', 's', 't', '.'];
            if s.subrange(i as int, i + 6) == w {
                assert(w[0] == 'c' && w[1] == 'o' && w[2] == 'n' && w[3] == 's' && w[4] == 't' && w[5] == '.');
                assert(s.subrange(i as int, i + 6)[0] == s[i as int]);
                assert(s.subrange(i as int, i + 6)[1] == s[i + 1]);
                assert(s.subrange(i as int, i + 6)[2] == s[i + 2]);
                assert(s.subrange(i as int, i + 6)[3] == s[i + 3]);
                assert(s.subrange(i as int, i + 6)[4] == s[i + 4]);
                assert(s.subrange(i as int, i + 6)[5] == s[i + 5]);
            }
        }
        i = i + 1;
    }
    false
}

/// Whether the text may be handed to the assembler (`assembler_safe`): it is
/// ASCII and declares no constant.
pub fn is_assembler_safe(source: &str) -> (r: bool)
    ensures
        r == assembler_safe(source@),
{
    source.is_ascii() && !has_constant_declaration(source)
}

/// Assembles the job program from its Miden assembly text, which must
/// assemble (the server cannot run without its program).
pub fn compile_program(source: &str) -> (r: JobProgram)
    requires
        assembler_safe(source@),
        masm_assembles(source@),
    ensures
        r.source() == source@,
{
    let p = assemble(source);
    p.unwrap()
}

/// Assembles the job program when its text assembles; `None` otherwise.
pub fn try_compile_program(source: &str) -> (r: Option<JobProgram>)
    requires
        assembler_safe(source@),
    ensures
        r is Some <==> masm_assembles(source@),
        r matches Some(p) ==> p.source() == source@,
{
    if assemble(source).is_some() {
        Some(compile_program(source))
    } else {
        None
    }
}

/// Whether the proof bytes are in the service's proof format.
pub fn proof_header_valid(bytes: &[u8]) -> (r: bool)
    ensures
        r == proof_header_ok(bytes@),
{
    if bytes.len() < 22 {
        return false;
    }
    bytes[0] == 0 && bytes[1] == 70 && bytes[2] == 7 && bytes[3] == 16 && 6 <= bytes[4] && bytes[4]
        <= 29 && bytes[5] == 0 && bytes[6] == 0 && bytes[7] == 8 && bytes[8] == 1 && bytes[9] == 0
        && bytes[10] == 0 && bytes[11] == 0 && bytes[12] == 255 && bytes[13] == 255 && bytes[14]
        == 255 && bytes[15] == 255 && bytes[16] == 27 && bytes[17] == 8 && bytes[18] == 16
        && bytes[19] == 2 && bytes[20] == 8 && bytes[21] == 255
}

/// An offset as a mathematical integer.
pub open spec fn offset_view(at: Option<usize>) -> Option<int> {
    match at {
        Some(i) => Some(i as int),
        None => None,
    }
}

/// The offset after the byte vector with a 16-bit length at `at`.
fn skip_u16_vec_at(b: &[u8], at: Option<usize>) -> (r: Option<usize>)
    ensures
        offset_view(r) == skip_u16_vec(b@, offset_view(at)),
{
    match at {
        Some(i) => {
            if i > b.len() || b.len() - i < 2 {
                return None;
            }
            let n: usize = b[i] as usize + 256 * (b[i + 1] as usize);
            if n > b.len() - i - 2 {
                None
            } else {
                Some(i + 2 + n)
            }
        },
        None => None,
    }
}

/// The offset after the byte vector with a 32-bit length at `at`.
fn skip_u32_vec_at(b: &[u8], at: Option<usize>) -> (r: Option<usize>)
    ensures
        offset_view(r) == skip_u32_vec(b@, offset_view(at)),
{
    match at {
        Some(i) => {
            if i > b.len() || b.len() - i < 4 {
                return None;
            }
            let n: u64 = b[i] as u64 + 256 * (b[i + 1] as u64) + 65536 * (b[i + 2] as u64 + 256 * (
            b[i + 3] as u64));
            assert(n == le_u32(b@, i as int));
            if n > (b.len() - i - 4) as u64 {
                None
            } else {
                Some(i + 4 + n as usize)
            }
        },
        None => None,
    }
}

/// The number of FRI layers for a trace of `2^trace_log` rows
/// (`fri_layer_count` of `trace_log + 3`).
fn expected_fri_layers(trace_log: u8) -> (r: u8)
    ensures
        r == fri_layer_count(trace_log + 3),
{
    let mut e: u16 = trace_log as u16 + 3;
    let mut k: u8 = 0;
    while e > 11
        invariant
            3 * k + e == trace_log + 3,
            fri_layer_count(trace_log + 3) == k + fri_layer_count(e as int),
        decreases e,
    {
        e = e - 3;
        k = k + 1;
    }
    k
}

/// Whether the parts of the proof past its header are as the verifier
/// needs them (`proof_body_ok`).
pub fn proof_body_valid(bytes: &[u8]) -> (r: bool)
    ensures
        r == proof_body_ok(bytes@),
{
    if bytes.len() < 22 {
        return false;
    }
    let trace_queries = skip_u16_vec_at(bytes, Some(22));
    let aux_queries = skip_u32_vec_at(bytes, skip_u32_vec_at(bytes, trace_queries));
    let constraint_queries = skip_u32_vec_at(bytes, skip_u32_vec_at(bytes, aux_queries));
    let ood = skip_u32_vec_at(bytes, skip_u32_vec_at(bytes, constraint_queries));
    let fri = skip_u16_vec_at(bytes, skip_u16_vec_at(bytes, ood));
    assert(offset_view(ood) == ood_frame_at(bytes@));
    assert(offset_view(fri) == fri_proof_at(bytes@));
    let frame_ok = match ood {
        Some(o) => o <= bytes.len() - 3 && (bytes[o] != 0 || bytes[o + 1] != 0) && bytes[o + 2] == 2,
        None => false,
    };
    let layers_ok = match fri {
        Some(f) => f < bytes.len() && bytes[f] == expected_fri_layers(bytes[4]),
        None => false,
    };
    frame_ok && layers_ok && bytes[bytes.len() - 9] == 0
}

/// Whether the Miden VM can be asked about the submission's proof without
/// panicking: when the checks before it pass, the proof has the service's
/// header, and, when it deserializes, the body the verifier needs
/// (`proof_body_ok`). Deserializing or verifying a proof with other options
/// or another trace layout panics for some values (a query count of 0, a
/// blowup factor below what the VM's constraints need, a single-segment
/// trace), and so does verifying one with a malformed body.
pub open spec fn proof_safe(sub: Submission) -> bool {
    overflow_addrs_parse(sub.overflow_addrs@) && stack_outputs_accepted(
        widened_stack(sub.output_stack@),
        parsed_overflow_addrs(sub.overflow_addrs@),
    ) && base64_decoding(sub.proof@) is Some ==> {
        let bytes = base64_decoding(sub.proof@).unwrap();
        proof_header_ok(bytes) && (execution_proof_decodes(bytes) ==> proof_body_ok(bytes))
    }
}

/// Reads the overflow addresses as numbers; `None` if one is not a decimal `u64`.
fn parse_overflow_addrs(addrs: &Vec<String>) -> (r: Option<Vec<u64>>)
    ensures
        r is Some <==> overflow_addrs_parse(addrs@),
        r matches Some(v) ==> v@ == parsed_overflow_addrs(addrs@),
{
    let mut out: Vec<u64> = Vec::new();
    let mut i: usize = 0;
    while i < addrs.len()
        invariant
            i <= addrs.len(),
            out@.len() == i,
            forall|j: int| 0 <= j < i ==> (#[trigger] parsed_u64(addrs@[j]@)) == Some(out@[j]),
        decreases addrs.len() - i,
    {
        match parse_u64(addrs[i].as_str()) {
            Some(a) => out.push(a),
            None => return None,
        }
        i = i + 1;
    }
    assert(out@ =~= parsed_overflow_addrs(addrs@));
    Some(out)
}

/// The submitted stack as 64-bit values.
fn widen(stack: &Vec<u32>) -> (r: Vec<u64>)
    ensures
        r@ == widened_stack(stack@),
{
    let mut out: Vec<u64> = Vec::new();
    let mut i: usize = 0;
    while i < stack.len()
        invariant
            i <= stack.len(),
            out@ =~= widened_stack(stack@.subrange(0, i as int)),
        decreases stack.len() - i,
    {
        out.push(stack[i] as u64);
        i = i + 1;
        assert(out@ =~= widened_stack(stack@.subrange(0, i as int)));
    }
    assert(stack@.subrange(0, i as int) =~= stack@);
    out
}

/// Checks a submission against the job program: its overflow addresses must
/// be numbers, its outputs well formed, its proof valid base64 of a
/// serialized proof, and that proof must verify for the program run on the
/// job identifier with the submitted outputs. Returns the proof's security
/// level, or the first check that failed.
pub fn validate_submission(program: &JobProgram, submission: &Submission) -> (r: Result<u32, SubmitError>)
    requires
        proof_safe(*submission),
    ensures
        r == submission_verdict(program.source(), *submission),
{
    let overflow_addrs = match parse_overflow_addrs(&submission.overflow_addrs) {
        Some(a) => a,
        None => return Err(SubmitError::InvalidOverflow),
    };
    let stack = widen(&submission.output_stack);
    if !stack_outputs_valid(&stack, &overflow_addrs) {
        return Err(SubmitError::InvalidOutputs);
    }
    let proof_bytes = match base64_decode(submission.proof.as_str()) {
        Some(b) => b,
        None => return Err(SubmitError::InvalidBase64),
    };
    if !proof_decodes(proof_bytes.as_slice()) {
        return Err(SubmitError::ProofDeserializeFailure);
    }
    match verify_execution(program, submission.job_id, stack, overflow_addrs, proof_bytes.as_slice()) {
        Some(level) => Ok(level),
        None => Err(SubmitError::VerifyFailure),
    }
}

/// The verdict depends on what was submitted, not on who submitted it.
pub proof fn lemma_verdict_ignores_worker(source: Seq<char>, a: Submission, b: Submission)
    requires
        a.job_id == b.job_id,
        a.output_stack@ == b.output_stack@,
        a.overflow_addrs@ == b.overflow_addrs@,
        a.proof@ == b.proof@,
    ensures
        submission_verdict(source, a) == submission_verdict(source, b),
{
}

/// A worker's honest submission is read back as it was written: its
/// overflow addresses parse to the prover's addresses and its proof decodes
/// to the prover's bytes. So it is never refused as `InvalidOverflow` or
/// `InvalidBase64`; it is refused before verification only when the VM's own
/// outputs are malformed or the proof bytes do not deserialize.
pub proof fn lemma_prepared_submission_passes_format_checks(
    p: ProveResult,
    worker_id: Seq<char>,
    job_id: u8,
    sub: Submission,
)
    requires
        prepared_submission(p, worker_id, job_id, sub),
    ensures
        overflow_addrs_parse(sub.overflow_addrs@),
        parsed_overflow_addrs(sub.overflow_addrs@) == p.overflow_addrs@,
        base64_decoding(sub.proof@) == Some(p.proof@),
        submission_precheck(sub) != Some(SubmitError::InvalidOverflow),
        submission_precheck(sub) != Some(SubmitError::InvalidBase64),
        submission_precheck(sub) == Some(SubmitError::InvalidOutputs) <==> !stack_outputs_accepted(
            widened_stack(p.output_stack@),
            p.overflow_addrs@,
        ),
        submission_precheck(sub) == Some(SubmitError::ProofDeserializeFailure) <==> (
        stack_outputs_accepted(widened_stack(p.output_stack@), p.overflow_addrs@)
            && !execution_proof_decodes(p.proof@)),
{
    assert forall|i: int| 0 <= i < sub.overflow_addrs@.len() implies (#[trigger] parsed_u64(
        sub.overflow_addrs@[i]@,
    )) == Some(p.overflow_addrs@[i]) by {
        lemma_parse_decimal(p.overflow_addrs@[i]);
    }
    assert(parsed_overflow_addrs(sub.overflow_addrs@) =~= p.overflow_addrs@);
}

/// Honest work is accepted: a worker that ran the server's program on the
/// job's input, whose final stack holds only 32-bit values, and that submits
/// the result as `into_submission` packages it, gets `Ok` with the security
/// level the verifier reports.
pub proof fn lemma_honest_work_accepted(
    source: Seq<char>,
    job_id: u8,
    stack: Seq<u64>,
    p: ProveResult,
    worker_id: Seq<char>,
    sub: Submission,
)
    requires
        execution_facts(source, job_id, stack, p.overflow_addrs@, p.proof@),
        p.output_stack@ == truncated_stack(stack),
        forall|i: int| 0 <= i < stack.len() ==> (#[trigger] stack[i]) <= u32::MAX,
        prepared_submission(p, worker_id, job_id, sub),
    ensures
        proof_safe(sub),
        submission_verdict(source, sub) == Ok::<u32, SubmitError>(
            miden_verification(source, job_id, stack, p.overflow_addrs@, p.proof@).unwrap(),
        ),
{
    lemma_prepared_submission_passes_format_checks(p, worker_id, job_id, sub);
    assert(widened_stack(sub.output_stack@) =~= stack);
}

/// Whether the submission's proof may be handed to the VM (`proof_safe`).
pub fn submission_proof_safe(submission: &Submission) -> (r: bool)
    ensures
        r == proof_safe(*submission),
{
    let overflow_addrs = match parse_overflow_addrs(&submission.overflow_addrs) {
        Some(a) => a,
        None => return true,
    };
    let stack = widen(&submission.output_stack);
    if !stack_outputs_valid(&stack, &overflow_addrs) {
        return true;
    }
    match base64_decode(submission.proof.as_str()) {
        Some(b) => {
            if !proof_header_valid(b.as_slice()) {
                false
            } else if !proof_decodes(b.as_slice()) {
                true
            } else {
                proof_body_valid(b.as_slice())
            }
        },
        None => true,
    }
}

} // verus!
