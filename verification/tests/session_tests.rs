use phylax::agent::{
    attempt_outcome, cancel_event, collect_resolved, displayable_uids, resolve_identity_names,
    run_session, unix_uid, Decision, Identity, SessionEngine,
};
use phylax::codec::{run_codec, AuthOutcome};
use phylax::events::{AgentEvent, PolkitError, UserEvent};
use phylax::transport::TransportError;

fn lines(v: &[&str]) -> Vec<String> {
    v.iter().map(|s| s.to_string()).collect()
}

fn provided(cookie: &str, username: &str, password: &str) -> UserEvent {
    UserEvent::ProvidedPassword {
        cookie: cookie.to_string(),
        username: username.to_string(),
        password: password.to_string(),
    }
}

/// What the helper would say for one attempt in the retry scenario.
fn helper_reply(password: &str) -> Vec<String> {
    if password == "right" {
        lines(&["PAM_PROMPT_ECHO_OFF Password:", "SUCCESS"])
    } else {
        lines(&[
            "PAM_PROMPT_ECHO_OFF Password:",
            "PAM_TEXT_INFO bad creds",
            "FAILURE",
        ])
    }
}

#[test]
fn three_wrong_passwords_then_success() {
    let (mut engine, started) =
        SessionEngine::new("c1".to_string(), "please authenticate".to_string(), vec![
            "alice".to_string(),
        ]);
    match &started {
        AgentEvent::Started { cookie, message, names } => {
            assert_eq!(cookie, "c1");
            assert_eq!(message, "please authenticate");
            assert_eq!(names, &vec!["alice".to_string()]);
        }
        _ => panic!("expected a started event"),
    }

    let inbound = vec![
        provided("c1", "alice", "wrong"),
        provided("c1", "alice", "wrong"),
        provided("c1", "alice", "wrong"),
        provided("c1", "alice", "right"),
    ];

    let mut retries = 0;
    let mut result: Option<Result<(), PolkitError>> = None;
    for ev in &inbound {
        match engine.classify_event(ev) {
            Decision::Attempt { username, password } => {
                assert_eq!(username, "alice");
                let run = run_codec(&helper_reply(&password));
                let emitted = engine.on_attempt_result(run.outcome);
                match emitted {
                    AgentEvent::AuthorizationRetry { cookie, retry_message } => {
                        assert_eq!(cookie, "c1");
                        assert_eq!(retry_message, Some("bad creds".to_string()));
                        retries += 1;
                    }
                    AgentEvent::AuthorizationSucceeded { cookie } => {
                        assert_eq!(cookie, "c1");
                        result = Some(Ok(()));
                        break;
                    }
                    _ => panic!("unexpected event"),
                }
            }
            Decision::Ignore => panic!("matching cookie must not be ignored"),
            Decision::Cancel => panic!("no cancellation was sent"),
        }
    }
    assert_eq!(retries, 3);
    assert!(matches!(result, Some(Ok(()))));
}

#[test]
fn cancellation_while_waiting_returns_cancelled() {
    let (mut engine, _started) =
        SessionEngine::new("c1".to_string(), "msg".to_string(), Vec::new());
    let ev = UserEvent::Canceled { cookie: "c1".to_string() };
    match engine.classify_event(&ev) {
        Decision::Cancel => {}
        _ => panic!("a matching cancellation must end the invocation"),
    }
    match engine.on_cancelled() {
        PolkitError::Cancelled(msg) => assert_eq!(msg, "User cancelled the authentication."),
        PolkitError::Failed(_) => panic!("cancellation must be its own error kind"),
    }
}

#[test]
fn closed_channel_returns_failed() {
    let (mut engine, _started) =
        SessionEngine::new("c1".to_string(), "msg".to_string(), Vec::new());
    match engine.on_channel_closed() {
        PolkitError::Failed(msg) => assert_eq!(msg, "Failed to recieve data. channel closed"),
        PolkitError::Cancelled(_) => panic!("channel closure is not a cancellation"),
    }
}

#[test]
fn traffic_for_another_cookie_is_ignored() {
    let (engine, _started) = SessionEngine::new("c1".to_string(), "msg".to_string(), Vec::new());
    let other_cancel = UserEvent::Canceled { cookie: "c2".to_string() };
    assert!(matches!(engine.classify_event(&other_cancel), Decision::Ignore));
    let other_password = provided("c2", "bob", "pw");
    assert!(matches!(engine.classify_event(&other_password), Decision::Ignore));
}

#[test]
fn transport_errors_become_a_fixed_retry() {
    for err in [TransportError::Connect, TransportError::Spawn, TransportError::Io] {
        match attempt_outcome(Err(err)) {
            AuthOutcome::Retry(msg) => {
                assert_eq!(msg, "Authentication error. Please try again.")
            }
            AuthOutcome::Success => panic!("an error is never a success"),
        }
    }
    assert!(matches!(
        attempt_outcome(Ok(AuthOutcome::Success)),
        AuthOutcome::Success
    ));
    match attempt_outcome(Ok(AuthOutcome::Retry("kept".to_string()))) {
        AuthOutcome::Retry(msg) => assert_eq!(msg, "kept"),
        AuthOutcome::Success => panic!("a retry stays a retry"),
    }
}

#[test]
fn cancel_event_carries_the_cookie() {
    match cancel_event("c9") {
        AgentEvent::Canceled { cookie } => assert_eq!(cookie, "c9"),
        _ => panic!("expected a canceled event"),
    }
}

#[test]
fn unix_uid_reads_only_unix_user_identities() {
    let alice = Identity { kind: "unix-user".to_string(), uid: Some(1000) };
    assert_eq!(unix_uid(&alice), Some(1000));
    let group = Identity { kind: "unix-group".to_string(), uid: Some(1000) };
    assert_eq!(unix_uid(&group), None);
    let missing = Identity { kind: "unix-user".to_string(), uid: None };
    assert_eq!(unix_uid(&missing), None);
}

#[test]
fn unresolvable_identities_are_dropped() {
    let ids = vec![
        Identity { kind: "unix-group".to_string(), uid: Some(0) },
        Identity { kind: "unix-user".to_string(), uid: None },
    ];
    let names = resolve_identity_names(&ids);
    assert!(names.is_empty());
}

#[test]
fn root_resolves_to_its_name() {
    let ids = vec![Identity { kind: "unix-user".to_string(), uid: Some(0) }];
    let names = resolve_identity_names(&ids);
    assert_eq!(names, vec!["root".to_string()]);
}

#[test]
fn scripted_session_retries_then_succeeds() {
    let user_events = vec![
        provided("c1", "alice", "wrong"),
        provided("c2", "bob", "other"),
        provided("c1", "alice", "right"),
    ];
    let outcomes = vec![
        AuthOutcome::Retry("bad creds".to_string()),
        AuthOutcome::Success,
    ];
    let (events, result) = run_session(
        "c1".to_string(),
        "msg".to_string(),
        vec!["alice".to_string()],
        &user_events,
        outcomes,
    );
    assert!(matches!(result, Ok(())));
    assert_eq!(events.len(), 3);
    assert!(matches!(&events[0], AgentEvent::Started { .. }));
    match &events[1] {
        AgentEvent::AuthorizationRetry { cookie, retry_message } => {
            assert_eq!(cookie, "c1");
            assert_eq!(retry_message.as_deref(), Some("bad creds"));
        }
        _ => panic!("expected a retry event"),
    }
    match &events[2] {
        AgentEvent::AuthorizationSucceeded { cookie } => assert_eq!(cookie, "c1"),
        _ => panic!("expected the success event"),
    }
}

#[test]
fn scripted_session_cancellation_ends_the_call() {
    let user_events = vec![UserEvent::Canceled { cookie: "c1".to_string() }];
    let (events, result) = run_session(
        "c1".to_string(),
        "msg".to_string(),
        Vec::new(),
        &user_events,
        Vec::new(),
    );
    assert_eq!(events.len(), 1);
    assert!(matches!(result, Err(PolkitError::Cancelled(_))));
}

#[test]
fn scripted_session_exhausted_events_close_the_channel() {
    let (events, result) = run_session(
        "c1".to_string(),
        "msg".to_string(),
        Vec::new(),
        &Vec::new(),
        Vec::new(),
    );
    assert_eq!(events.len(), 1);
    assert!(matches!(result, Err(PolkitError::Failed(_))));
}

#[test]
fn displayable_uids_skips_other_kinds() {
    let ids = vec![
        Identity { kind: "unix-user".to_string(), uid: Some(4) },
        Identity { kind: "unix-group".to_string(), uid: Some(5) },
        Identity { kind: "unix-user".to_string(), uid: None },
        Identity { kind: "unix-user".to_string(), uid: Some(6) },
    ];
    assert_eq!(displayable_uids(&ids), vec![4, 6]);
}

#[test]
fn collect_resolved_keeps_successful_lookups_in_order() {
    let looked = vec![
        Some("alice".to_string()),
        None,
        Some("bob".to_string()),
        None,
    ];
    assert_eq!(
        collect_resolved(&looked),
        vec!["alice".to_string(), "bob".to_string()]
    );
}
