use zkmr::state::{Msg, State};

fn done(worker: &str, job_id: u8, result: u32) -> Msg {
    Msg::CompletedJob { worker_id: worker.to_string(), job_id, result }
}

#[test]
fn ten_squares_sum_to_385() {
    let mut state = State::create();
    let mut all_logs = Vec::new();
    for id in 1..=10u8 {
        let msg = done("alice", id, (id as u32) * (id as u32));
        assert!(state.fits(&msg));
        all_logs.extend(state.handle_message(msg));
    }
    assert_eq!(all_logs.len(), 11);
    assert_eq!(all_logs[0], "Job ID 1 completed by alice. Result = 1");
    assert_eq!(all_logs[9], "Job ID 10 completed by alice. Result = 100");
    assert_eq!(all_logs[10], "All jobs complete. Final result = 385");
}

#[test]
fn duplicate_result_is_ignored() {
    let mut state = State::create();
    assert_eq!(state.handle_message(done("bob", 4, 16)), vec!["Job ID 4 completed by bob. Result = 16".to_string()]);
    assert!(state.handle_message(done("eve", 4, 17)).is_empty());
    let mut logs = Vec::new();
    for id in [1u8, 2, 3, 5, 6, 7, 8, 9, 10] {
        logs.extend(state.handle_message(done("bob", id, 1)));
    }
    assert_eq!(logs.last().unwrap(), "All jobs complete. Final result = 25");
}

#[test]
fn unknown_job_ids_are_ignored() {
    let mut state = State::create();
    assert!(state.handle_message(done("x", 0, 5)).is_empty());
    assert!(state.handle_message(done("x", 11, 5)).is_empty());
    assert!(state.handle_message(done("x", 255, 5)).is_empty());
}

#[test]
fn log_message_passes_through() {
    let mut state = State::create();
    let logs = state.handle_message(Msg::Log { message: "hello".to_string() });
    assert_eq!(logs, vec!["hello".to_string()]);
}

#[test]
fn nothing_after_completion() {
    let mut state = State::create();
    for id in 1..=10u8 {
        state.handle_message(done("w", id, 2));
    }
    assert!(state.handle_message(done("w", 3, 2)).is_empty());
    assert_eq!(state.handle_message(Msg::Log { message: "m".to_string() }), vec!["m".to_string()]);
}

#[test]
fn overflowing_total_does_not_fit() {
    let mut state = State::create();
    for id in 1..=9u8 {
        let msg = done("w", id, u32::MAX / 10);
        assert!(state.fits(&msg));
        state.handle_message(msg);
    }
    assert!(!state.fits(&done("w", 10, u32::MAX)));
    assert!(state.fits(&done("w", 10, 1)));
    assert!(state.fits(&done("w", 3, u32::MAX)));
    assert!(state.fits(&Msg::Log { message: String::new() }));
}
