use phylax::codec::{run_codec, stream_closed_outcome, AuthOutcome, CodecState, StepAction};
use phylax::text::{str_has_prefix, trim_str};

fn lines(v: &[&str]) -> Vec<String> {
    v.iter().map(|s| s.to_string()).collect()
}

#[test]
fn trim_removes_surrounding_whitespace() {
    assert_eq!(trim_str("  Password:  "), "Password:");
    assert_eq!(trim_str("\t bad creds \r\n"), "bad creds");
    assert_eq!(trim_str("nothing"), "nothing");
    assert_eq!(trim_str("   "), "");
    assert_eq!(trim_str(""), "");
}

#[test]
fn prefix_matching_is_exact() {
    assert!(str_has_prefix("PAM_TEXT_INFO hello", "PAM_TEXT_INFO"));
    assert!(str_has_prefix("FAILURE", "FAILURE"));
    assert!(!str_has_prefix("PAM_TEXT", "PAM_TEXT_INFO"));
    assert!(!str_has_prefix("xFAILURE", "FAILURE"));
}

#[test]
fn last_info_line_wins() {
    let stream = lines(&[
        "PAM_TEXT_INFO first notice",
        "PAM_TEXT_INFO second notice",
        "PAM_TEXT_INFO  final notice ",
        "FAILURE",
    ]);
    let run = run_codec(&stream);
    match run.outcome {
        AuthOutcome::Retry(msg) => assert_eq!(msg, "final notice"),
        AuthOutcome::Success => panic!("expected a retry"),
    }
}

#[test]
fn failure_without_info_yields_default_message() {
    let run = run_codec(&lines(&["FAILURE"]));
    match run.outcome {
        AuthOutcome::Retry(msg) => {
            assert_eq!(msg, "Authentication failed. Please try again.")
        }
        AuthOutcome::Success => panic!("expected a retry"),
    }
}

#[test]
fn success_short_circuits_the_stream() {
    let stream = lines(&[
        "PAM_PROMPT_ECHO_OFF Password:",
        "SUCCESS",
        "FAILURE",
        "PAM_TEXT_INFO never read",
    ]);
    let run = run_codec(&stream);
    assert!(matches!(run.outcome, AuthOutcome::Success));
    assert_eq!(run.consumed, 2);
}

#[test]
fn stream_end_without_terminal_times_out() {
    let run = run_codec(&lines(&[]));
    match run.outcome {
        AuthOutcome::Retry(msg) => assert_eq!(msg, "Authentication timed out."),
        AuthOutcome::Success => panic!("expected a retry"),
    }
    let run = run_codec(&lines(&["PAM_TEXT_INFO something", "unrelated chatter"]));
    assert_eq!(run.consumed, 2);
    match run.outcome {
        AuthOutcome::Retry(msg) => assert_eq!(msg, "Authentication timed out."),
        AuthOutcome::Success => panic!("expected a retry"),
    }
    match stream_closed_outcome() {
        AuthOutcome::Retry(msg) => assert_eq!(msg, "Authentication timed out."),
        AuthOutcome::Success => panic!("expected a retry"),
    }
}

#[test]
fn exact_password_prompt_is_answered() {
    let mut state = CodecState::new();
    let action = state.feed_line("PAM_PROMPT_ECHO_OFF Password:");
    assert!(matches!(action, StepAction::SendPassword));
}

#[test]
fn other_prompts_are_ignored() {
    let mut state = CodecState::new();
    let action = state.feed_line("PAM_PROMPT_ECHO_OFF PIN:");
    assert!(matches!(action, StepAction::Continue));
    let action = state.feed_line("unrelated line");
    assert!(matches!(action, StepAction::Continue));
}

#[test]
fn retained_info_becomes_the_failure_message() {
    let mut state = CodecState::new();
    assert!(matches!(
        state.feed_line("PAM_TEXT_INFO bad creds"),
        StepAction::Continue
    ));
    match state.feed_line("FAILURE: pam_authenticate failed") {
        StepAction::Finished(AuthOutcome::Retry(msg)) => assert_eq!(msg, "bad creds"),
        _ => panic!("expected a finished retry"),
    }
}

#[test]
fn success_line_finishes_immediately() {
    let mut state = CodecState::new();
    match state.feed_line("SUCCESS") {
        StepAction::Finished(AuthOutcome::Success) => {}
        _ => panic!("expected success"),
    }
}

#[test]
fn later_info_overwrites_earlier_info() {
    let mut state = CodecState::new();
    state.feed_line("PAM_TEXT_INFO first");
    state.feed_line("PAM_TEXT_INFO second");
    match state.feed_line("FAILURE") {
        StepAction::Finished(AuthOutcome::Retry(msg)) => assert_eq!(msg, "second"),
        _ => panic!("expected a finished retry"),
    }
}

#[test]
fn prompt_text_is_trimmed_before_matching() {
    let mut state = CodecState::new();
    let action = state.feed_line("PAM_PROMPT_ECHO_OFF   Password:  ");
    assert!(matches!(action, StepAction::SendPassword));
}
