//! The worker's side: assembling the candidate programs, running one with a
//! proof, and packaging the proof as a submission.

use vstd::prelude::*;

use crate::decimal::{decimal, decimal_string, push_decimal};
use crate::encoding::{base64_decoding, base64_encode, base64_encoding};
use crate::miden::{assemble, execution_facts, masm_assembles, miden_execution, prove_execution};
use crate::miden::{assembler_safe, rand_u8, stack_outputs_accepted, JobProgram};
use crate::validation::widened_stack;
use crate::types::Submission;

verus! {

/// The programs a worker may choose to run, by name; the sources given to
/// `compile_programs` follow this order.
pub const PROGRAM_NAMES: [&'static str; 5] = ["square", "cube", "double", "42", "random"];

/// What a proved execution produced.
pub struct ProveResult {
    /// The final stack, top first, each value cut to its low 32 bits.
    pub output_stack: Vec<u32>,
    /// The overflow-table addresses of the final stack.
    pub overflow_addrs: Vec<u64>,
    /// The serialized proof.
    pub proof: Vec<u8>,
}

/// The low 32 bits of each stack value.
pub open spec fn truncated_stack(stack: Seq<u64>) -> Seq<u32> {
    stack.map_values(|x: u64| x as u32)
}

/// The note the worker sees after submitting.
pub open spec fn submitted_note(job_id: u8, result: u32) -> Seq<char> {
    "Proof submitted for job ID "@ + decimal(job_id as nat) + " with result "@ + decimal(
        result as nat,
    )
}

/// `sub` is the submission of the proved execution `p` for the job, by the
/// worker: the outputs as they are, each overflow address in decimal, and
/// the proof in base64 (which reads back as the proof's bytes).
pub open spec fn prepared_submission(
    p: ProveResult,
    worker_id: Seq<char>,
    job_id: u8,
    sub: Submission,
) -> bool {
    &&& sub.worker_id@ == worker_id
    &&& sub.job_id == job_id
    &&& sub.output_stack@ == p.output_stack@
    &&& sub.overflow_addrs@.len() == p.overflow_addrs@.len()
    &&& forall|i: int|
        0 <= i < p.overflow_addrs@.len() ==> (#[trigger] sub.overflow_addrs@[i])@ == decimal(
            p.overflow_addrs@[i] as nat,
        )
    &&& sub.proof@ == base64_encoding(p.proof@)
    &&& base64_decoding(sub.proof@) == Some(p.proof@)
}

impl ProveResult {
    /// Packages the final stack, the overflow addresses and the serialized
    /// proof of an execution.
    pub fn from_execution(stack: &Vec<u64>, overflow_addrs: Vec<u64>, proof: Vec<u8>) -> (r: Self)
        ensures
            r.output_stack@ == truncated_stack(stack@),
            r.overflow_addrs@ == overflow_addrs@,
            r.proof@ == proof@,
    {
        let mut output_stack: Vec<u32> = Vec::new();
        let mut i: usize = 0;
        while i < stack.len()
            invariant
                i <= stack.len(),
                output_stack@ =~= truncated_stack(stack@.subrange(0, i as int)),
            decreases stack.len() - i,
        {
            #[verifier::truncate]
            let low = stack[i] as u32;
            output_stack.push(low);
            i = i + 1;
            assert(output_stack@ =~= truncated_stack(stack@.subrange(0, i as int)));
        }
        assert(stack@.subrange(0, i as int) =~= stack@);
        ProveResult { output_stack, overflow_addrs, proof }
    }

    /// The proof in base64.
    pub fn encoded(&self) -> (r: String)
        ensures
            r@ == base64_encoding(self.proof@),
            base64_decoding(r@) == Some(self.proof@),
    {
        base64_encode(self.proof.as_slice())
    }

    /// The submission of this proof for the job, by the worker, and the note
    /// that tells the worker what was submitted.
    pub fn into_submission(self, worker_id: String, job_id: u8) -> (r: (Submission, String))
        requires
            self.output_stack.len() > 0,
        ensures
            prepared_submission(self, worker_id@, job_id, r.0),
            r.1@ == submitted_note(job_id, self.output_stack@[0]),
    {
        let result = self.output_stack[0];
        let proof = self.encoded();
        let mut overflow_addrs: Vec<String> = Vec::new();
        let mut i: usize = 0;
        while i < self.overflow_addrs.len()
            invariant
                i <= self.overflow_addrs.len(),
                overflow_addrs@.len() == i,
                forall|j: int|
                    0 <= j < i ==> (#[trigger] overflow_addrs@[j])@ == decimal(
                        self.overflow_addrs@[j] as nat,
                    ),
            decreases self.overflow_addrs.len() - i,
        {
            overflow_addrs.push(decimal_string(self.overflow_addrs[i]));
            i = i + 1;
        }
        let mut note = String::from_str("Proof submitted for job ID ");
        push_decimal(&mut note, job_id as u64);
        note.append(" with result ");
        push_decimal(&mut note, result as u64);
        assert(note@ =~= submitted_note(job_id, result));
        let submission = Submission {
            worker_id,
            job_id,
            output_stack: self.output_stack,
            overflow_addrs,
            proof,
        };
        (submission, note)
    }
}

/// How many programs `compile_programs` builds: one per name, as far as
/// sources are given.
pub open spec fn programs_built(sources: Seq<String>) -> int {
    if sources.len() < 5 { sources.len() as int } else { 5 }
}

/// Assembles the candidate programs, pairing each name of `PROGRAM_NAMES`
/// with the program assembled from the source in the same position. Every
/// one of those sources must assemble.
pub fn compile_programs(sources: &Vec<String>) -> (r: Vec<(&'static str, JobProgram)>)
    requires
        forall|i: int|
            0 <= i < programs_built(sources@) ==> assembler_safe(#[trigger] sources@[i]@)
                && masm_assembles(sources@[i]@),
    ensures
        r@.len() == programs_built(sources@),
        forall|i: int|
            0 <= i < r@.len() ==> (#[trigger] r@[i]).0@ == PROGRAM_NAMES@[i]@ && r@[i].1.source()
                == sources@[i]@,
{
    let mut programs: Vec<(&'static str, JobProgram)> = Vec::new();
    let n: usize = if sources.len() < 5 { sources.len() } else { 5 };
    let mut i: usize = 0;
    while i < n
        invariant
            n == programs_built(sources@),
            n <= 5,
            n <= sources@.len(),
            i <= n,
            programs@.len() == i,
            forall|j: int|
                0 <= j < n ==> assembler_safe(#[trigger] sources@[j]@) && masm_assembles(
                    sources@[j]@,
                ),
            forall|j: int|
                0 <= j < i ==> (#[trigger] programs@[j]).0@ == PROGRAM_NAMES@[j]@
                    && programs@[j].1.source() == sources@[j]@,
        decreases n - i,
    {
        let p = assemble(sources[i].as_str());
        programs.push((PROGRAM_NAMES[i], p.unwrap()));
        i = i + 1;
    }
    programs
}

/// Assembles the candidate programs when all their sources assemble;
/// `None` otherwise.
pub fn try_compile_programs(sources: &Vec<String>) -> (r: Option<Vec<(&'static str, JobProgram)>>)
    requires
        forall|i: int| 0 <= i < programs_built(sources@) ==> assembler_safe(#[trigger] sources@[i]@),
    ensures
        r is Some <==> forall|i: int|
            0 <= i < programs_built(sources@) ==> masm_assembles(#[trigger] sources@[i]@),
        r matches Some(v) ==> {
            &&& v@.len() == programs_built(sources@)
            &&& forall|i: int|
                0 <= i < v@.len() ==> (#[trigger] v@[i]).0@ == PROGRAM_NAMES@[i]@ && v@[i].1.source()
                    == sources@[i]@
        },
{
    let n: usize = if sources.len() < 5 { sources.len() } else { 5 };
    let mut i: usize = 0;
    while i < n
        invariant
            n == programs_built(sources@),
            n <= sources@.len(),
            i <= n,
            forall|j: int| 0 <= j < n ==> assembler_safe(#[trigger] sources@[j]@),
            forall|j: int| 0 <= j < i ==> masm_assembles(#[trigger] sources@[j]@),
        decreases n - i,
    {
        if assemble(sources[i].as_str()).is_none() {
            return None;
        }
        i = i + 1;
    }
    Some(compile_programs(sources))
}

/// The program paired with `name`: the first entry of that name.
pub fn get_program<'a>(programs: &'a Vec<(&'static str, JobProgram)>, name: &str) -> (r: Option<
    &'a JobProgram,
>)
    ensures
        match r {
            Some(p) => exists|i: int|
                0 <= i < programs@.len() && (#[trigger] programs@[i]).0@ == name@ && *p
                    == programs@[i].1 && forall|j: int|
                    0 <= j < i ==> (#[trigger] programs@[j]).0@ != name@,
            None => forall|i: int| 0 <= i < programs@.len() ==> (#[trigger] programs@[i]).0@ != name@,
        },
{
    let wanted = String::from_str(name);
    let mut i: usize = 0;
    while i < programs.len()
        invariant
            i <= programs@.len(),
            wanted@ == name@,
            forall|j: int| 0 <= j < i ==> (#[trigger] programs@[j]).0@ != name@,
        decreases programs@.len() - i,
    {
        let candidate = String::from_str(programs[i].0);
        if candidate == wanted {
            return Some(&programs[i].1);
        }
        i = i + 1;
    }
    None
}

/// `r` is the packaging of what the prover gives for the program's text, the
/// input and the advice byte: the VM's final stack cut to 32 bits, its
/// overflow addresses and its proof, of which `execution_facts` hold.
pub open spec fn proved_as(source: Seq<char>, input: u8, advice: u8, r: ProveResult) -> bool {
    match miden_execution(source, input, advice) {
        Some((stack, overflow_addrs, proof)) => {
            &&& r.output_stack@ == truncated_stack(stack)
            &&& r.overflow_addrs@ == overflow_addrs
            &&& r.proof@ == proof
            &&& execution_facts(source, input, stack, overflow_addrs, proof)
        },
        None => false,
    }
}

/// Whether the prover succeeds on the program's text and `input` whatever
/// advice byte it is given.
pub open spec fn proves_on_every_advice(source: Seq<char>, input: u8) -> bool {
    forall|advice: u8| (#[trigger] miden_execution(source, input, advice)) is Some
}

/// Runs the program on `input` with `advice` as the only advice-stack value
/// and proves the execution; proving must succeed for that byte. The result
/// is exactly the prover's for the program's text, the input and the byte.
pub fn prove_with_advice(program: &JobProgram, input: u8, advice: u8) -> (r: ProveResult)
    requires
        miden_execution(program.source(), input, advice) is Some,
    ensures
        proved_as(program.source(), input, advice, r),
        stack_outputs_accepted(widened_stack(r.output_stack@), r.overflow_addrs@),
{
    let (stack, overflow_addrs, proof) = prove_execution(program, input, advice).unwrap();
    let r = ProveResult::from_execution(&stack, overflow_addrs, proof);
    proof {
        assert(proved_as(program.source(), input, advice, r));
        let w = widened_stack(r.output_stack@);
        assert forall|i: int| 0 <= i < w.len() implies (#[trigger] w[i]) < 0xFFFF_FFFF_0000_0001int by {
            assert(w[i] == r.output_stack@[i] as u64);
        }
    }
    r
}

/// Proving is a function of the program's text, the input and the advice
/// byte: two results proved for the same three are the same stack,
/// addresses and proof.
pub proof fn lemma_proving_is_deterministic(
    source: Seq<char>,
    input: u8,
    advice: u8,
    a: ProveResult,
    b: ProveResult,
)
    requires
        proved_as(source, input, advice, a),
        proved_as(source, input, advice, b),
    ensures
        a.output_stack@ == b.output_stack@,
        a.overflow_addrs@ == b.overflow_addrs@,
        a.proof@ == b.proof@,
{
}

/// Runs the program on `input`, with a byte drawn from the system's random
/// source as advice (0 when the source fails), and proves the execution.
/// Proving must succeed whatever byte is drawn. The result is the prover's
/// for the byte that was drawn, and its outputs are well formed; nothing is
/// known of the byte itself.
pub fn prove(program: &JobProgram, input: u8) -> (r: ProveResult)
    requires
        proves_on_every_advice(program.source(), input),
    ensures
        exists|advice: u8| proved_as(program.source(), input, advice, r),
        stack_outputs_accepted(widened_stack(r.output_stack@), r.overflow_addrs@),
{
    let advice = rand_u8();
    let r = prove_with_advice(program, input, advice);
    proof {
        assert(proved_as(program.source(), input, advice, r));
    }
    r
}

/// Proves the execution as `prove` does when the prover succeeds on `input`
/// for every advice byte, which it checks by proving once with each byte;
/// `None` when some byte makes the prover fail.
pub fn try_prove(program: &JobProgram, input: u8) -> (r: Option<ProveResult>)
    ensures
        r is Some <==> proves_on_every_advice(program.source(), input),
        r matches Some(p) ==> exists|a: u8| proved_as(program.source(), input, a, p),
{
    let mut advice: u16 = 0;
    while advice < 256
        invariant
            advice <= 256,
            forall|a: u8|
                (a as int) < advice ==> (#[trigger] miden_execution(program.source(), input, a)) is Some,
        decreases 256 - advice,
    {
        let byte = advice as u8;
        if prove_execution(program, input, byte).is_none() {
            return None;
        }
        advice = advice + 1;
    }
    let result = prove(program, input);
    proof {
        let a = choose|a: u8| proved_as(program.source(), input, a, result);
        assert(proved_as(program.source(), input, a, Some(result)->0));
    }
    Some(result)
}

} // verus!
