use zkmr::prover::{get_program, prove, try_compile_programs, try_prove, ProveResult, PROGRAM_NAMES};
use zkmr::state::Msg;
use zkmr::submit::{handle_submit, submission_outcome, try_handle_submit};
use zkmr::types::{Response, Submission};
use zkmr::validation::{compile_program, has_constant_declaration, is_assembler_safe, proof_body_valid, proof_header_valid, submission_proof_safe, try_compile_program, validate_submission, SubmitError};

const SQUARE: &str = "begin dup mul end";

fn submission(output_stack: Vec<u32>, overflow_addrs: Vec<&str>, proof: &str) -> Submission {
    Submission {
        worker_id: "w1".to_string(),
        job_id: 3,
        output_stack,
        overflow_addrs: overflow_addrs.into_iter().map(String::from).collect(),
        proof: proof.to_string(),
    }
}

fn sixteen(top: u32) -> Vec<u32> {
    let mut v = vec![0u32; 16];
    v[0] = top;
    v
}

#[test]
fn response_new_keeps_text() {
    assert_eq!(Response::new("ok".to_string()).result, "ok");
}

#[test]
fn error_names_match_debug() {
    for e in [
        SubmitError::InvalidOverflow,
        SubmitError::InvalidOutputs,
        SubmitError::InvalidBase64,
        SubmitError::ProofDeserializeFailure,
        SubmitError::VerifyFailure,
    ] {
        assert_eq!(e.name(), format!("{e:?}"));
    }
}

#[test]
fn bad_program_text_does_not_compile() {
    assert!(try_compile_program("begin not_an_instruction end").is_none());
    assert!(try_compile_program(SQUARE).is_some());
}

#[test]
fn unparsable_overflow_address_is_refused() {
    let program = compile_program(SQUARE);
    let sub = submission(sixteen(9), vec!["12x"], "AQID");
    assert_eq!(validate_submission(&program, &sub), Err(SubmitError::InvalidOverflow));
}

#[test]
fn malformed_outputs_are_refused() {
    let program = compile_program(SQUARE);
    // seventeen stack values need two overflow addresses
    let sub = submission(vec![1; 17], vec![], "AQID");
    assert_eq!(validate_submission(&program, &sub), Err(SubmitError::InvalidOutputs));
    // sixteen values need none
    let sub = submission(sixteen(9), vec!["5"], "AQID");
    assert_eq!(validate_submission(&program, &sub), Err(SubmitError::InvalidOutputs));
    // an address outside the field
    let sub = submission(vec![1; 17], vec!["0", "18446744073709551615"], "AQID");
    assert_eq!(validate_submission(&program, &sub), Err(SubmitError::InvalidOutputs));
}

#[test]
fn invalid_base64_is_refused() {
    let program = compile_program(SQUARE);
    let sub = submission(sixteen(9), vec![], "not base64!");
    assert_eq!(validate_submission(&program, &sub), Err(SubmitError::InvalidBase64));
}

const HEADER: [u8; 22] = [0, 70, 7, 16, 6, 0, 0, 8, 1, 0, 0, 0, 255, 255, 255, 255, 27, 8, 16, 2, 8, 255];

#[test]
fn garbage_proof_bytes_are_refused() {
    let program = compile_program(SQUARE);
    let mut bytes = HEADER.to_vec();
    bytes.extend_from_slice(&[1, 2, 3]);
    let sub = submission(sixteen(9), vec![], &base64::encode(&bytes));
    assert!(submission_proof_safe(&sub));
    assert_eq!(validate_submission(&program, &sub), Err(SubmitError::ProofDeserializeFailure));
}

#[test]
fn proofs_outside_the_service_format_are_not_handed_to_the_vm() {
    let program = compile_program(SQUARE);
    // zero queries: reading such options panics inside the VM's proof reader
    let mut bytes = HEADER.to_vec();
    bytes[16] = 0;
    let sub = submission(sixteen(9), vec![], &base64::encode(&bytes));
    assert!(!submission_proof_safe(&sub));
    assert!(try_handle_submit(&program, sub).is_none());
    let sub = submission(sixteen(9), vec![], "AQID");
    assert!(!submission_proof_safe(&sub));
    // a submission refused before its proof is read is safe
    let sub = submission(sixteen(9), vec!["x"], "AQID");
    assert!(submission_proof_safe(&sub));
    let (msg, _) = try_handle_submit(&program, sub).unwrap();
    assert!(matches!(msg, Msg::Log { .. }));
}

#[test]
fn proof_header_check() {
    assert!(proof_header_valid(&HEADER));
    let mut long = HEADER.to_vec();
    long[4] = 29;
    assert!(proof_header_valid(&long));
    long[4] = 30;
    assert!(!proof_header_valid(&long));
    assert!(!proof_header_valid(&HEADER[..21]));
    let mut other = HEADER.to_vec();
    other[17] = 2;
    assert!(!proof_header_valid(&other));
}

#[test]
fn constant_declarations_are_spotted() {
    assert!(has_constant_declaration("const.A=1 begin push.A end"));
    assert!(has_constant_declaration("begin end const."));
    assert!(!has_constant_declaration("begin dup mul end"));
    assert!(!has_constant_declaration("const"));
    assert!(!has_constant_declaration(""));
}

#[test]
fn assembler_is_handed_only_ascii_texts_without_constants() {
    assert!(is_assembler_safe("begin dup mul end"));
    assert!(is_assembler_safe(""));
    assert!(!is_assembler_safe("begin\u{a0}\u{a0}end"));
    assert!(!is_assembler_safe("begin dup mul end # é"));
    assert!(!is_assembler_safe("const.A=1) begin end"));
}

#[test]
fn try_prove_refuses_a_program_that_fails_for_some_advice() {
    // the advice byte 0 fails the assertion, so proving does not succeed for every byte
    let program = compile_program("begin adv_push.1 assert end");
    assert!(try_prove(&program, 3).is_none());
}

#[test]
fn accepted_outcome() {
    let sub = submission(sixteen(9), vec![], "AQID");
    let (msg, response) = submission_outcome(&sub, &Ok(96));
    match msg {
        Msg::CompletedJob { worker_id, job_id, result } => {
            assert_eq!(worker_id, "w1");
            assert_eq!(job_id, 3);
            assert_eq!(result, 9);
        }
        Msg::Log { .. } => panic!("expected a completed job"),
    }
    assert_eq!(response.result, "Thank you for your honest work.");
}

#[test]
fn refused_outcome() {
    let sub = submission(sixteen(9), vec![], "AQID");
    let (msg, response) = submission_outcome(&sub, &Err(SubmitError::VerifyFailure));
    match msg {
        Msg::Log { message } => {
            assert_eq!(message, "Incorrect submission for job ID 3 from w1: VerifyFailure")
        }
        Msg::CompletedJob { .. } => panic!("expected a log line"),
    }
    assert_eq!(response.result, "Your submission was incorrect. Error = VerifyFailure");
}

#[test]
fn handle_submit_refuses_bad_base64() {
    let program = compile_program(SQUARE);
    let sub = submission(sixteen(9), vec![], "%%%");
    let (msg, response) = handle_submit(&program, sub);
    match msg {
        Msg::Log { message } => {
            assert_eq!(message, "Incorrect submission for job ID 3 from w1: InvalidBase64")
        }
        Msg::CompletedJob { .. } => panic!("expected a log line"),
    }
    assert_eq!(response.result, "Your submission was incorrect. Error = InvalidBase64");
}

#[test]
fn programs_pair_with_their_sources() {
    let sources: Vec<String> = vec![
        SQUARE.to_string(),
        "begin dup dup mul mul end".to_string(),
        "begin dup add end".to_string(),
        "begin drop push.42 end".to_string(),
        "begin drop adv_push.1 end".to_string(),
    ];
    let programs = try_compile_programs(&sources).expect("all assemble");
    assert_eq!(programs.len(), 5);
    for (i, (name, _)) in programs.iter().enumerate() {
        assert_eq!(*name, PROGRAM_NAMES[i]);
    }
    let square = get_program(&programs, "square").unwrap();
    let cube = get_program(&programs, "cube").unwrap();
    assert!(get_program(&programs, "Square").is_none());
    // the square program proves 3 -> 9, the cube program 3 -> 27
    assert_eq!(prove(square, 3).output_stack[0], 9);
    assert_eq!(prove(cube, 3).output_stack[0], 27);
}

#[test]
fn compile_programs_all_or_nothing() {
    let good: Vec<String> = vec![SQUARE.to_string(), "begin dup dup mul mul end".to_string()];
    assert_eq!(try_compile_programs(&good).map(|v| v.len()), Some(2));
    let bad: Vec<String> = vec![SQUARE.to_string(), "begin oops end".to_string()];
    assert!(try_compile_programs(&bad).is_none());
    let many: Vec<String> = vec![SQUARE.to_string(); 7];
    assert_eq!(try_compile_programs(&many).map(|v| v.len()), Some(5));
}

#[test]
fn from_execution_truncates_to_low_bits() {
    let p = ProveResult::from_execution(&vec![5, (1u64 << 32) + 7, u64::MAX], vec![1, 2], vec![9]);
    assert_eq!(p.output_stack, vec![5, 7, u32::MAX]);
    assert_eq!(p.overflow_addrs, vec![1, 2]);
    assert_eq!(p.proof, vec![9]);
}

#[test]
fn encoded_is_standard_base64() {
    let p = ProveResult { output_stack: vec![1], overflow_addrs: vec![], proof: vec![1, 2, 3, 255] };
    assert_eq!(p.encoded(), "AQID/w==");
}

#[test]
fn into_submission_writes_addresses_in_decimal() {
    let p = ProveResult { output_stack: vec![16, 0], overflow_addrs: vec![0, 18446744069414584320], proof: vec![1, 2, 3] };
    let (sub, note) = p.into_submission("carol".to_string(), 4);
    assert_eq!(sub.worker_id, "carol");
    assert_eq!(sub.job_id, 4);
    assert_eq!(sub.output_stack, vec![16, 0]);
    assert_eq!(sub.overflow_addrs, vec!["0".to_string(), "18446744069414584320".to_string()]);
    assert_eq!(sub.proof, "AQID");
    assert_eq!(note, "Proof submitted for job ID 4 with result 16");
}

#[test]
fn honest_square_proof_is_accepted() {
    let program = compile_program(SQUARE);
    let proof = prove(&program, 3);
    assert_eq!(proof.output_stack[0], 9);
    let (sub, _) = proof.into_submission("w".to_string(), 3);
    assert!(submission_proof_safe(&sub));
    assert!(validate_submission(&program, &sub).is_ok());
    let mut wrong_job = sub.clone();
    wrong_job.job_id = 4;
    assert_eq!(validate_submission(&program, &wrong_job), Err(SubmitError::VerifyFailure));
    let other = compile_program("begin dup dup mul mul end");
    assert_eq!(validate_submission(&other, &sub), Err(SubmitError::VerifyFailure));
    let mut other_worker = sub.clone();
    other_worker.worker_id = "someone else".to_string();
    assert_eq!(validate_submission(&program, &other_worker), validate_submission(&program, &sub));
}

#[test]
fn proof_bodies_are_checked_before_verification() {
    let program = compile_program(SQUARE);
    let honest = prove(&program, 2);
    assert_eq!(honest.output_stack[0], 4);
    assert!(proof_header_valid(&honest.proof));
    assert!(proof_body_valid(&honest.proof));
    // a partition exponent of 70 overflows in the verifier
    let mut bytes = honest.proof.clone();
    let at = bytes.len() - 9;
    bytes[at] = 70;
    assert!(proof_header_valid(&bytes));
    assert!(!proof_body_valid(&bytes));
    let tampered = ProveResult { output_stack: honest.output_stack.clone(), overflow_addrs: honest.overflow_addrs.clone(), proof: bytes };
    let (sub, _) = tampered.into_submission("mallory".to_string(), 2);
    assert!(!submission_proof_safe(&sub));
    assert!(try_handle_submit(&program, sub).is_none());
    assert!(!proof_body_valid(&honest.proof[..30]));
}

#[test]
fn cheating_with_another_program_is_refused() {
    let square = compile_program(SQUARE);
    // same output for input 1, but a different program
    let identity = compile_program("begin dup drop end");
    let proof = prove(&identity, 1);
    assert_eq!(proof.output_stack[0], 1);
    let (sub, _) = proof.into_submission("mallory".to_string(), 1);
    assert_eq!(validate_submission(&square, &sub), Err(SubmitError::VerifyFailure));
    assert!(submission_proof_safe(&sub));
    let (msg, response) = handle_submit(&square, sub);
    assert!(matches!(msg, Msg::Log { .. }));
    assert_eq!(response.result, "Your submission was incorrect. Error = VerifyFailure");
}
