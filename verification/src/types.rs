//! The messages that workers and the server exchange.

use vstd::prelude::*;

verus! {

/// A worker's claim: the outputs of the program it ran on a job, with the
/// proof of that execution.
#[derive(Debug, Clone, PartialEq, Eq)]
pub struct Submission {
    /// Who did the work.
    pub worker_id: String,
    /// Which job was done; the job's input.
    pub job_id: u8,
    /// The stack at the end of the execution, top first.
    pub output_stack: Vec<u32>,
    /// The overflow-table addresses of the final stack, in decimal.
    pub overflow_addrs: Vec<String>,
    /// The execution proof, in base64.
    pub proof: String,
}

/// The server's answer to a submission.
#[derive(Debug, Clone, PartialEq, Eq)]
pub struct Response {
    /// A sentence for the worker.
    pub result: String,
}

impl Response {
    /// Wraps an answer text.
    pub fn new(result: String) -> (r: Self)
        ensures
            r.result == result,
    {
        Self { result }
    }
}

} // verus!
