//! What the server does with a submission: validate it, then decide the
//! bookkeeping event and the answer for the worker.

use vstd::prelude::*;

use crate::decimal::{decimal, push_decimal};
use crate::state::Msg;
use crate::types::{Response, Submission};
use crate::encoding::base64_decoding;
use crate::miden::{miden_verification, JobProgram};
use crate::validation::{error_name, submission_precheck, submission_verdict, validate_submission};
use crate::validation::{parsed_overflow_addrs, proof_safe, submission_proof_safe, widened_stack};
use crate::validation::SubmitError;

verus! {

/// The log line for a refused submission.
pub open spec fn rejection_log(job_id: u8, worker_id: Seq<char>, e: SubmitError) -> Seq<char> {
    "Incorrect submission for job ID "@ + decimal(job_id as nat) + " from "@ + worker_id + ": "@
        + error_name(e)
}

/// The answer to an accepted submission.
pub open spec fn acceptance_reply() -> Seq<char> {
    "Thank you for your honest work."@
}

/// The answer to a refused submission.
pub open spec fn rejection_reply(e: SubmitError) -> Seq<char> {
    "Your submission was incorrect. Error = "@ + error_name(e)
}

/// What the server does with a submission once it is judged: when accepted,
/// the bookkeeping gets the top of its output stack as the job's result;
/// when refused, it gets a log line that names the error.
pub open spec fn outcome_matches(
    sub: Submission,
    verdict: Result<u32, SubmitError>,
    msg: Msg,
    response: Response,
) -> bool {
    match verdict {
        Ok(_) => {
            &&& msg matches Msg::CompletedJob { worker_id, job_id, result } && worker_id@
                == sub.worker_id@ && job_id == sub.job_id && result == sub.output_stack@[0]
            &&& response.result@ == acceptance_reply()
        },
        Err(e) => {
            &&& msg matches Msg::Log { message } && message@ == rejection_log(
                sub.job_id,
                sub.worker_id@,
                e,
            )
            &&& response.result@ == rejection_reply(e)
        },
    }
}

/// The bookkeeping event and the answer for a submission, given the verdict
/// of its validation.
pub fn submission_outcome(submission: &Submission, verdict: &Result<u32, SubmitError>) -> (r: (
    Msg,
    Response,
))
    requires
        submission.output_stack.len() > 0,
    ensures
        outcome_matches(*submission, *verdict, r.0, r.1),
        verdict is Ok <==> r.0 is CompletedJob,
        r.0 is CompletedJob ==> r.0->CompletedJob_worker_id@ == submission.worker_id@
            && r.0->CompletedJob_job_id == submission.job_id && r.0->CompletedJob_result
            == submission.output_stack@[0],
{
    let result = submission.output_stack[0];
    match verdict {
        Ok(_) => {
            let msg = Msg::CompletedJob {
                worker_id: submission.worker_id.clone(),
                job_id: submission.job_id,
                result,
            };
            (msg, Response::new(String::from_str("Thank you for your honest work.")))
        },
        Err(e) => {
            let mut message = String::from_str("Incorrect submission for job ID ");
            push_decimal(&mut message, submission.job_id as u64);
            message.append(" from ");
            message.append(submission.worker_id.as_str());
            message.append(": ");
            message.append(e.name());
            let mut reply = String::from_str("Your submission was incorrect. Error = ");
            reply.append(e.name());
            proof {
                assert(message@ =~= rejection_log(submission.job_id, submission.worker_id@, *e));
                assert(reply@ =~= rejection_reply(*e));
            }
            (Msg::Log { message }, Response::new(reply))
        },
    }
}

/// Validates a submission against the job program and decides the event for
/// the bookkeeping and the answer for the worker.
pub fn handle_submit(program: &JobProgram, submission: Submission) -> (r: (Msg, Response))
    requires
        submission.output_stack.len() > 0,
        proof_safe(submission),
    ensures
        outcome_matches(submission, submission_verdict(program.source(), submission), r.0, r.1),
        r.0 is CompletedJob ==> submission_verdict(program.source(), submission) is Ok
            && r.0->CompletedJob_worker_id@ == submission.worker_id@ && r.0->CompletedJob_job_id
            == submission.job_id && r.0->CompletedJob_result == submission.output_stack@[0],
{
    let verdict = validate_submission(program, &submission);
    submission_outcome(&submission, &verdict)
}

/// Handles a submission whose proof may be handed to the VM; `None` for one
/// whose proof is not in the service's proof format (the VM panics on some
/// such proofs, so it is not asked).
pub fn try_handle_submit(program: &JobProgram, submission: Submission) -> (r: Option<(Msg, Response)>)
    requires
        submission.output_stack.len() > 0,
    ensures
        r is Some <==> proof_safe(submission),
        r matches Some(x) ==> outcome_matches(
            submission,
            submission_verdict(program.source(), submission),
            x.0,
            x.1,
        ),
        r matches Some(x) ==> (x.0 is CompletedJob ==> submission_verdict(program.source(), submission)
            is Ok && x.0->CompletedJob_worker_id@ == submission.worker_id@
            && x.0->CompletedJob_job_id == submission.job_id && x.0->CompletedJob_result
            == submission.output_stack@[0]),
{
    if submission_proof_safe(&submission) {
        Some(handle_submit(program, submission))
    } else {
        None
    }
}

/// Only verified work is counted: whenever handling a submission yields a
/// result for the bookkeeping, the submission passed every check and the
/// Miden verifier accepted its proof for the program, the job and the
/// submitted outputs; the job is credited to the worker who submitted it,
/// under its whole identifier, and the result is the top of its output stack.
pub proof fn lemma_only_verified_work_completes(
    source: Seq<char>,
    sub: Submission,
    msg: Msg,
    response: Response,
)
    requires
        outcome_matches(sub, submission_verdict(source, sub), msg, response),
        msg is CompletedJob,
    ensures
        submission_precheck(sub) is None,
        miden_verification(
            source,
            sub.job_id,
            widened_stack(sub.output_stack@),
            parsed_overflow_addrs(sub.overflow_addrs@),
            base64_decoding(sub.proof@).unwrap(),
        ) is Some,
        msg->CompletedJob_worker_id@ == sub.worker_id@,
        msg->CompletedJob_job_id == sub.job_id,
        msg->CompletedJob_result == sub.output_stack@[0],
{
}

} // verus!
