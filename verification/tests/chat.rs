use clewdr::claude_state::{
    Account, ChatAction, ChatEvent, ChatParams, ClaudeState, ConversationBody, Phase, Sent,
};
use clewdr::config::{CookieStatus, Reason};
use clewdr::error::ClewdrError;
use clewdr::services::cookie_manager::CookieManager;

const ENDPOINT: &str = "https://upstream.example";

fn params() -> ChatParams {
    ChatParams { thinking: false, model: "model-x".to_string() }
}

fn account() -> Account {
    Account { org_uuid: Some("org-1".to_string()), pro: true }
}

fn pool_of(tokens: &[&str]) -> CookieManager {
    CookieManager::start(tokens.iter().map(|t| CookieStatus::new(t, None)).collect(), Vec::new())
}

/// What a whole exchange did, as seen from outside.
struct Trace {
    requests: usize,
    returns: Vec<(String, Option<Reason>)>,
    completions: usize,
    cleaned: Vec<String>,
    end: ChatAction,
}

/// Drives one exchange against `pool`; the `n`-th completion ends as
/// `completion(n)` says.
fn drive(
    state: &mut ClaudeState,
    pool: &mut CookieManager,
    now: i64,
    completion: &dyn Fn(usize) -> Result<(), ClewdrError>,
) -> Trace {
    let p = params();
    let mut trace =
        Trace { requests: 0, returns: Vec::new(), completions: 0, cleaned: Vec::new(), end: ChatAction::Ignore };
    let mut event = ChatEvent::Start;
    for _ in 0..1_000 {
        let action = state.try_chat(&p, event);
        event = match action {
            ChatAction::Lease => {
                trace.requests += 1;
                ChatEvent::Leased(pool.dispatch(now).0)
            }
            ChatAction::Bootstrap => ChatEvent::Bootstrapped(Ok(account())),
            ChatAction::CreateConversation { .. } => ChatEvent::Created(Ok(())),
            ChatAction::Transform => ChatEvent::Transformed(true),
            ChatAction::Upload => ChatEvent::Uploaded,
            ChatAction::Complete { .. } => {
                trace.completions += 1;
                ChatEvent::Completed(completion(trace.completions))
            }
            ChatAction::Clean { url } => {
                trace.cleaned.push(url);
                ChatEvent::Cleaned
            }
            ChatAction::Return { cookie, reason } => {
                trace.returns.push((cookie.cookie.clone(), reason));
                pool.collect(cookie, reason);
                ChatEvent::Returned
            }
            end => {
                trace.end = end;
                return trace;
            }
        };
    }
    panic!("the exchange did not end");
}

#[test]
fn successful_exchange_returns_its_credential_once() {
    let mut pool = pool_of(&["A", "B"]);
    let mut state = ClaudeState::new(ENDPOINT.to_string(), 2);
    let trace = drive(&mut state, &mut pool, 0, &|_| Ok(()));
    assert!(matches!(trace.end, ChatAction::Respond));
    assert_eq!(trace.requests, 1);
    assert_eq!(trace.returns, vec![("A".to_string(), Some(Reason::NormalPro))]);
    assert_eq!(trace.completions, 1);
    assert_eq!(trace.cleaned.len(), 1);
    assert_eq!(state.phase, Phase::Done);
    assert!(state.cookie.is_none());
    assert_eq!(pool.report().valid.len(), 2);
}

#[test]
fn transient_failures_are_retried_up_to_the_bound() {
    let mut pool = pool_of(&["A", "B", "C", "D"]);
    let mut state = ClaudeState::new(ENDPOINT.to_string(), 2);
    let trace = drive(&mut state, &mut pool, 0, &|_| {
        Err(ClewdrError::InvalidCookie(Reason::TooManyRequest(60)))
    });
    assert!(matches!(trace.end, ChatAction::Fail(ClewdrError::TooManyRetries)));
    assert_eq!(trace.completions, 3);
    assert_eq!(trace.requests, 3);
    assert_eq!(
        trace.returns,
        vec![
            ("A".to_string(), Some(Reason::TooManyRequest(60))),
            ("B".to_string(), Some(Reason::TooManyRequest(60))),
            ("C".to_string(), Some(Reason::TooManyRequest(60))),
        ]
    );
    let info = pool.report();
    assert_eq!(info.valid.len(), 1);
    assert_eq!(info.valid[0].cookie, "D");
    assert_eq!(info.exhausted.len(), 3);
    assert_eq!(state.phase, Phase::Done);
    assert_eq!(state.retries, 0);
}

#[test]
fn without_retries_one_transient_failure_ends_the_exchange() {
    let mut pool = pool_of(&["A", "B"]);
    let mut state = ClaudeState::new(ENDPOINT.to_string(), 0);
    let trace =
        drive(&mut state, &mut pool, 0, &|_| Err(ClewdrError::InvalidCookie(Reason::Restricted(9))));
    assert!(matches!(trace.end, ChatAction::Fail(ClewdrError::TooManyRetries)));
    assert_eq!(trace.requests, 1);
    assert_eq!(trace.returns.len(), 1);
}

#[test]
fn retry_succeeds_with_the_next_credential() {
    let mut pool = pool_of(&["A", "B"]);
    let mut state = ClaudeState::new(ENDPOINT.to_string(), 2);
    let trace = drive(&mut state, &mut pool, 0, &|n| {
        if n == 1 {
            Err(ClewdrError::InvalidCookie(Reason::TooManyRequest(60)))
        } else {
            Ok(())
        }
    });
    assert!(matches!(trace.end, ChatAction::Respond));
    assert_eq!(trace.requests, 2);
    assert_eq!(
        trace.returns,
        vec![
            ("A".to_string(), Some(Reason::TooManyRequest(60))),
            ("B".to_string(), Some(Reason::NormalPro)),
        ]
    );
    assert_eq!(trace.cleaned.len(), 2);
    assert_ne!(trace.cleaned[0], trace.cleaned[1]);
    assert_eq!(state.retries, 1);
}

#[test]
fn retries_end_when_the_pool_runs_dry() {
    let mut pool = pool_of(&["A"]);
    let mut state = ClaudeState::new(ENDPOINT.to_string(), 5);
    let trace = drive(&mut state, &mut pool, 0, &|_| {
        Err(ClewdrError::InvalidCookie(Reason::TooManyRequest(60)))
    });
    assert!(matches!(trace.end, ChatAction::Fail(ClewdrError::NoCookieAvailable)));
    assert_eq!(trace.requests, 2);
    assert_eq!(trace.returns.len(), 1);
    assert_eq!(trace.completions, 1);
}

#[test]
fn terminal_rejection_gives_the_credential_up_and_is_not_retried() {
    let mut pool = pool_of(&["A", "B"]);
    let mut state = ClaudeState::new(ENDPOINT.to_string(), 2);
    let trace = drive(&mut state, &mut pool, 0, &|_| Err(ClewdrError::InvalidCookie(Reason::NonPro)));
    assert!(matches!(trace.end, ChatAction::Fail(ClewdrError::InvalidCookie(Reason::NonPro))));
    assert_eq!(trace.requests, 1);
    assert_eq!(trace.returns, vec![("A".to_string(), Some(Reason::NonPro))]);
    let info = pool.report();
    assert_eq!(info.invalid[0].cookie, "A");
    assert_eq!(info.valid.len(), 1);
}

#[test]
fn other_failures_go_to_the_caller_as_they_are() {
    let mut pool = pool_of(&["A", "B"]);
    let mut state = ClaudeState::new(ENDPOINT.to_string(), 2);
    let trace =
        drive(&mut state, &mut pool, 0, &|_| Err(ClewdrError::Upstream("connection reset".to_string())));
    match trace.end {
        ChatAction::Fail(ClewdrError::Upstream(text)) => assert_eq!(text, "connection reset"),
        other => panic!("unexpected end {:?}", other),
    }
    assert_eq!(trace.requests, 1);
    assert_eq!(trace.returns, vec![("A".to_string(), Some(Reason::NormalPro))]);
    assert_eq!(pool.report().valid.len(), 2);
}

#[test]
fn exchange_without_a_credential_fails_at_once() {
    let mut pool = pool_of(&[]);
    let mut state = ClaudeState::new(ENDPOINT.to_string(), 2);
    let trace = drive(&mut state, &mut pool, 0, &|_| Ok(()));
    assert!(matches!(trace.end, ChatAction::Fail(ClewdrError::NoCookieAvailable)));
    assert_eq!(trace.requests, 1);
    assert!(trace.returns.is_empty());
    assert_eq!(trace.completions, 0);
}

#[test]
fn exchange_for_a_cache_slot_stores_its_response() {
    let mut pool = pool_of(&["A"]);
    let mut state = ClaudeState::new(ENDPOINT.to_string(), 2);
    state.key = Some((99, 1));
    let trace = drive(&mut state, &mut pool, 0, &|_| Ok(()));
    assert!(matches!(trace.end, ChatAction::Store { key: 99, id: 1 }));
    assert_eq!(trace.returns.len(), 1);
}

fn lease(state: &mut ClaudeState, token: &str) {
    let p = params();
    assert!(matches!(state.try_chat(&p, ChatEvent::Start), ChatAction::Lease));
    let leased = ChatEvent::Leased(Ok(CookieStatus::new(token, None)));
    assert!(matches!(state.try_chat(&p, leased), ChatAction::Bootstrap));
    assert_eq!(state.phase, Phase::Bootstrapping);
}

#[test]
fn conversation_is_opened_under_a_fresh_identifier() {
    let p = ChatParams { thinking: true, model: "model-x".to_string() };
    let mut state = ClaudeState::new(ENDPOINT.to_string(), 0);
    lease(&mut state, "A");
    let (url, body) = match state.try_chat(&p, ChatEvent::Bootstrapped(Ok(account()))) {
        ChatAction::CreateConversation { url, body } => (url, body),
        other => panic!("unexpected action {:?}", other),
    };
    assert_eq!(url, "https://upstream.example/api/organizations/org-1/chat_conversations");
    assert_eq!(body.uuid.len(), 36);
    for (i, c) in body.uuid.chars().enumerate() {
        if [8, 13, 18, 23].contains(&i) {
            assert_eq!(c, '-');
        } else {
            assert!(c.is_ascii_digit() || ('a'..='f').contains(&c));
        }
    }
    assert_eq!(body.uuid.chars().nth(14), Some('4'));
    assert_eq!(body.name, format!("ClewdR-{}", body.uuid));
    assert_eq!(body.paprika_mode.as_deref(), Some("extended"));
    assert_eq!(body.model.as_deref(), Some("model-x"));
    assert_eq!(state.proposed.as_deref(), Some(body.uuid.as_str()));
    assert_eq!(state.phase, Phase::Creating);

    // A second exchange gets an identifier of its own.
    let mut other = ClaudeState::new(ENDPOINT.to_string(), 0);
    lease(&mut other, "B");
    match other.try_chat(&p, ChatEvent::Bootstrapped(Ok(account()))) {
        ChatAction::CreateConversation { body: second, .. } => assert_ne!(second.uuid, body.uuid),
        other => panic!("unexpected action {:?}", other),
    }
}

#[test]
fn upstream_sequence_runs_in_order_with_the_given_identifier() {
    let p = params();
    let mut state = ClaudeState::new(ENDPOINT.to_string(), 0);
    lease(&mut state, "A");
    let sent = state.send_chat(&p, ChatEvent::Bootstrapped(Ok(account())), "conv-7".to_string());
    match sent {
        Sent::Next(ChatAction::CreateConversation { url, body }) => {
            assert_eq!(url, "https://upstream.example/api/organizations/org-1/chat_conversations");
            assert_eq!(body.uuid, "conv-7");
            assert_eq!(body.name, "ClewdR-conv-7");
            assert_eq!(body.paprika_mode, None);
            assert_eq!(body.model, None);
        }
        other => panic!("unexpected step {:?}", other),
    }
    assert_eq!(state.org_uuid.as_deref(), Some("org-1"));
    assert!(state.pro);
    assert_eq!(state.conv_uuid, None);
    assert!(matches!(
        state.send_chat(&p, ChatEvent::Created(Ok(())), String::new()),
        Sent::Next(ChatAction::Transform)
    ));
    assert_eq!(state.conv_uuid.as_deref(), Some("conv-7"));
    assert_eq!(state.proposed, None);
    assert!(matches!(
        state.send_chat(&p, ChatEvent::Transformed(true), String::new()),
        Sent::Next(ChatAction::Upload)
    ));
    match state.send_chat(&p, ChatEvent::Uploaded, String::new()) {
        Sent::Next(ChatAction::Complete { url }) => assert_eq!(
            url,
            "https://upstream.example/api/organizations/org-1/chat_conversations/conv-7/completion"
        ),
        other => panic!("unexpected step {:?}", other),
    }
    assert!(matches!(
        state.send_chat(&p, ChatEvent::Completed(Ok(())), String::new()),
        Sent::Outcome(Ok(()))
    ));
    assert_eq!(state.phase, Phase::Completing);
}

#[test]
fn conversation_body_thinks_only_for_paid_accounts_that_ask() {
    let thinking = ChatParams { thinking: true, model: "m".to_string() };
    let plain = ChatParams { thinking: false, model: "m".to_string() };
    for (p, pro, extended) in
        [(&thinking, true, true), (&thinking, false, false), (&plain, true, false), (&plain, false, false)]
    {
        let body = ConversationBody::new(p, pro, "id".to_string());
        assert_eq!(body.uuid, "id");
        assert_eq!(body.name, "ClewdR-id");
        assert_eq!(body.paprika_mode.is_some(), extended);
        assert_eq!(body.model.is_some(), extended);
    }
}

#[test]
fn empty_request_is_a_bad_request_and_is_not_retried() {
    let p = params();
    let mut state = ClaudeState::new(ENDPOINT.to_string(), 2);
    lease(&mut state, "A");
    state.try_chat_with(&p, ChatEvent::Bootstrapped(Ok(account())), "conv-7".to_string());
    assert!(matches!(state.try_chat(&p, ChatEvent::Created(Ok(()))), ChatAction::Transform));
    // The conversation exists, so it is deleted before the credential goes back.
    match state.try_chat(&p, ChatEvent::Transformed(false)) {
        ChatAction::Clean { url } => assert_eq!(
            url,
            "https://upstream.example/api/organizations/org-1/chat_conversations/conv-7"
        ),
        other => panic!("unexpected action {:?}", other),
    }
    match state.try_chat(&p, ChatEvent::Cleaned) {
        ChatAction::Return { cookie, reason } => {
            assert_eq!(cookie.cookie, "A");
            assert_eq!(reason, Some(Reason::NormalPro));
        }
        other => panic!("unexpected action {:?}", other),
    }
    match state.try_chat(&p, ChatEvent::Returned) {
        ChatAction::Fail(ClewdrError::BadRequest(text)) => assert_eq!(text, "Empty request"),
        other => panic!("unexpected action {:?}", other),
    }
    assert_eq!(state.phase, Phase::Done);
    assert_eq!(state.retries, 2);
}

#[test]
fn account_without_an_organisation_is_an_unexpected_none() {
    let p = params();
    let mut state = ClaudeState::new(ENDPOINT.to_string(), 2);
    lease(&mut state, "A");
    let nobody = Account { org_uuid: None, pro: false };
    // No conversation was opened: the credential goes back at once.
    assert!(matches!(
        state.try_chat(&p, ChatEvent::Bootstrapped(Ok(nobody))),
        ChatAction::Return { reason: Some(Reason::NormalPro), .. }
    ));
    assert!(matches!(
        state.try_chat(&p, ChatEvent::Returned),
        ChatAction::Fail(ClewdrError::UnexpectedNone)
    ));
}

#[test]
fn failed_bootstrap_classifies_the_credential() {
    let p = params();
    let mut state = ClaudeState::new(ENDPOINT.to_string(), 1);
    lease(&mut state, "A");
    let banned = ChatEvent::Bootstrapped(Err(ClewdrError::InvalidCookie(Reason::Banned)));
    match state.try_chat(&p, banned) {
        ChatAction::Return { cookie, reason } => {
            assert_eq!(cookie.cookie, "A");
            assert_eq!(reason, Some(Reason::Banned));
        }
        other => panic!("unexpected action {:?}", other),
    }
    assert!(matches!(
        state.try_chat(&p, ChatEvent::Returned),
        ChatAction::Fail(ClewdrError::InvalidCookie(Reason::Banned))
    ));
}

#[test]
fn failed_creation_is_released_without_cleaning() {
    let p = params();
    let mut state = ClaudeState::new(ENDPOINT.to_string(), 1);
    lease(&mut state, "A");
    state.try_chat(&p, ChatEvent::Bootstrapped(Ok(account())));
    let limited = ChatEvent::Created(Err(ClewdrError::InvalidCookie(Reason::TooManyRequest(5))));
    assert!(matches!(
        state.try_chat(&p, limited),
        ChatAction::Return { reason: Some(Reason::TooManyRequest(5)), .. }
    ));
    assert!(matches!(state.try_chat(&p, ChatEvent::Returned), ChatAction::Lease));
    assert_eq!(state.phase, Phase::Leasing);
    assert_eq!(state.retries, 0);
    assert_eq!(state.org_uuid, None);
    assert_eq!(state.proposed, None);
}

#[test]
fn cancel_hands_the_credential_back() {
    let p = params();
    let mut state = ClaudeState::new(ENDPOINT.to_string(), 2);
    lease(&mut state, "A");
    state.try_chat(&p, ChatEvent::Bootstrapped(Ok(account())));
    match state.try_chat(&p, ChatEvent::Cancel) {
        ChatAction::Return { cookie, reason } => {
            assert_eq!(cookie.cookie, "A");
            assert_eq!(reason, Some(Reason::NormalPro));
        }
        other => panic!("unexpected action {:?}", other),
    }
    assert_eq!(state.phase, Phase::Done);
    assert!(state.cookie.is_none());
    assert!(matches!(state.try_chat(&p, ChatEvent::Returned), ChatAction::Ignore));
    assert!(matches!(state.try_chat(&p, ChatEvent::Start), ChatAction::Ignore));
}

#[test]
fn cancel_before_a_lease_has_nothing_to_return() {
    let p = params();
    let mut state = ClaudeState::new(ENDPOINT.to_string(), 2);
    assert!(matches!(state.try_chat(&p, ChatEvent::Start), ChatAction::Lease));
    assert!(matches!(state.try_chat(&p, ChatEvent::Cancel), ChatAction::Ignore));
    assert_eq!(state.phase, Phase::Done);
    // The credential that the pool hands out afterwards goes straight back.
    match state.try_chat(&p, ChatEvent::Leased(Ok(CookieStatus::new("A", None)))) {
        ChatAction::Return { cookie, reason } => {
            assert_eq!(cookie.cookie, "A");
            assert_eq!(reason, Some(Reason::NormalPro));
        }
        other => panic!("unexpected action {:?}", other),
    }
    assert!(state.cookie.is_none());
}

#[test]
fn events_out_of_place_change_nothing() {
    let p = params();
    let mut state = ClaudeState::new(ENDPOINT.to_string(), 2);
    for event in [
        ChatEvent::Returned,
        ChatEvent::Cleaned,
        ChatEvent::Uploaded,
        ChatEvent::Transformed(true),
        ChatEvent::Created(Ok(())),
        ChatEvent::Completed(Ok(())),
        ChatEvent::Bootstrapped(Ok(account())),
        ChatEvent::Leased(Err(ClewdrError::NoCookieAvailable)),
    ] {
        assert!(matches!(state.try_chat(&p, event), ChatAction::Ignore));
        assert_eq!(state.phase, Phase::Idle);
    }
    lease(&mut state, "A");
    assert!(matches!(state.try_chat(&p, ChatEvent::Start), ChatAction::Ignore));
    assert_eq!(state.phase, Phase::Bootstrapping);
    assert_eq!(state.cookie.as_ref().map(|c| c.cookie.as_str()), Some("A"));
}
