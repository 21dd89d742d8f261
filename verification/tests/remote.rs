use pong_core::http_transport::authorize_in_request_session;
use pong_core::protocol::{EntityQuery, ProtocolCall, ProtocolRequest};
use pong_core::remote::{
    AuthenticatedPrincipal, RemoteAccessBoundary, RemoteAccessError, RemoteAccessErrorCode,
};

fn principal(agents: &[&str]) -> AuthenticatedPrincipal {
    AuthenticatedPrincipal {
        principal_id: "principal-1".into(),
        agent_ids: agents.iter().map(|a| a.to_string()).collect(),
    }
}

fn request(caller: Option<&str>, call: ProtocolCall) -> ProtocolRequest {
    ProtocolRequest {
        protocol_version: "1.0".into(),
        request_id: "req-1".into(),
        caller_agent_id: caller.map(str::to_owned),
        issued_at: "t".into(),
        operation_id: None,
        call,
    }
}

fn get_agent() -> ProtocolCall {
    ProtocolCall::GetAgent(EntityQuery { id: "agent-1".into() })
}

#[test]
fn a_bound_session_is_visible_until_it_ends() {
    let mut boundary = RemoteAccessBoundary::new();
    let session = boundary
        .bind_authenticated(principal(&["agent-1"]), "s-1".into(), 1_000, 500)
        .unwrap();
    assert_eq!(session.expires_at_ms, 1_500);
    assert_eq!(boundary.session("s-1"), Some(&session));
    assert!(boundary.disconnect("s-1"));
    assert!(!boundary.disconnect("s-1"));
    assert_eq!(boundary.session("s-1"), None);
}

#[test]
fn a_session_identity_binds_once() {
    let mut boundary = RemoteAccessBoundary::new();
    boundary
        .bind_authenticated(principal(&["agent-1"]), "s-1".into(), 1_000, 500)
        .unwrap();
    let error = boundary
        .bind_authenticated(principal(&["agent-2"]), "s-1".into(), 1_000, 500)
        .unwrap_err();
    assert_eq!(error.code, RemoteAccessErrorCode::Forbidden);
}

#[test]
fn invalid_principals_and_lifetimes_are_refused() {
    let mut boundary = RemoteAccessBoundary::new();
    for (p, id, ttl) in [
        (principal(&[]), "s", 10),
        (principal(&["agent-1", " "]), "s", 10),
        (principal(&["agent-1"]), " ", 10),
        (principal(&["agent-1"]), "s", 0),
    ] {
        let error = boundary.bind_authenticated(p, id.into(), 0, ttl).unwrap_err();
        assert_eq!(error.code, RemoteAccessErrorCode::InvalidPrincipal);
        assert_eq!(error.message, "authenticated Principal or session binding is invalid");
    }
    let error = boundary
        .bind_authenticated(principal(&["agent-1"]), "s".into(), i64::MAX, 1)
        .unwrap_err();
    assert_eq!(error.message, "session lifetime is invalid");
}

#[test]
fn authorization_needs_a_live_session_and_a_bound_agent() {
    let mut boundary = RemoteAccessBoundary::new();
    boundary
        .bind_authenticated(principal(&["agent-1"]), "s-1".into(), 1_000, 500)
        .unwrap();
    let ok = boundary
        .authorize("s-1", request(Some("agent-1"), get_agent()), 1_200)
        .unwrap();
    assert_eq!(ok.session().session_id, "s-1");
    assert_eq!(ok.request().request_id, "req-1");
    assert_eq!(ok.into_request().caller_agent_id.as_deref(), Some("agent-1"));
    let error = boundary
        .authorize("s-1", request(Some("agent-2"), get_agent()), 1_200)
        .unwrap_err();
    assert_eq!(error.code, RemoteAccessErrorCode::Forbidden);
    let error = boundary
        .authorize("s-1", request(None, get_agent()), 1_200)
        .unwrap_err();
    assert_eq!(error.code, RemoteAccessErrorCode::InvalidAgentBinding);
    // hello needs no Agent identity.
    assert!(boundary
        .authorize("s-1", request(None, ProtocolCall::Hello), 1_200)
        .is_ok());
    let error = boundary
        .authorize("missing", request(None, ProtocolCall::Hello), 1_200)
        .unwrap_err();
    assert_eq!(error.code, RemoteAccessErrorCode::AuthenticationRequired);
}

#[test]
fn an_expired_session_is_dropped() {
    let mut boundary = RemoteAccessBoundary::new();
    boundary
        .bind_authenticated(principal(&["agent-1"]), "s-1".into(), 1_000, 500)
        .unwrap();
    let error = boundary
        .authorize("s-1", request(Some("agent-1"), get_agent()), 1_500)
        .unwrap_err();
    assert_eq!(error.code, RemoteAccessErrorCode::SessionExpired);
    assert!(error.retryable);
    assert_eq!(boundary.session("s-1"), None);
}

#[test]
fn invalidating_all_sessions_forgets_every_binding() {
    let mut boundary = RemoteAccessBoundary::new();
    for id in ["a", "b", "c"] {
        boundary
            .bind_authenticated(principal(&["agent-1"]), id.into(), 0, 10)
            .unwrap();
    }
    boundary.disconnect("b");
    assert!(boundary.session("a").is_some());
    assert!(boundary.session("c").is_some());
    boundary.invalidate_all();
    for id in ["a", "b", "c"] {
        assert!(boundary.session(id).is_none());
    }
}

#[test]
fn capabilities_and_fixed_errors_are_stable() {
    let boundary = RemoteAccessBoundary::new();
    let capabilities = boundary.capabilities();
    assert_eq!(capabilities.contract_version, "1");
    assert!(capabilities.authentication_required);
    assert!(!capabilities.disconnect_cancels_operations);
    assert_eq!(
        RemoteAccessError::authentication_required().message,
        "caller authentication is required"
    );
    assert_eq!(
        RemoteAccessError::authentication_failed().code,
        RemoteAccessErrorCode::AuthenticationFailed
    );
    assert!(RemoteAccessError::core_unavailable().retryable);
}

#[test]
fn a_request_session_does_not_outlive_its_request() {
    let mut boundary = RemoteAccessBoundary::new();
    let authorized = authorize_in_request_session(
        &mut boundary,
        principal(&["agent-1"]),
        "http-1-0".to_string(),
        request(Some("agent-1"), get_agent()),
        1_000,
        30_000,
    )
    .unwrap();
    assert_eq!(authorized.session().principal_id, "principal-1");
    assert_eq!(authorized.session().expires_at_ms, 31_000);
    assert!(boundary.session("http-1-0").is_none());
    let refused = authorize_in_request_session(
        &mut boundary,
        principal(&["agent-1"]),
        "http-1-1".to_string(),
        request(Some("agent-2"), get_agent()),
        1_000,
        30_000,
    )
    .unwrap_err();
    assert_eq!(refused.code, RemoteAccessErrorCode::Forbidden);
    assert!(boundary.session("http-1-1").is_none());
    let invalid = authorize_in_request_session(
        &mut boundary,
        principal(&["agent-1"]),
        "http-1-2".to_string(),
        request(Some("agent-1"), get_agent()),
        1_000,
        0,
    )
    .unwrap_err();
    assert_eq!(invalid.code, RemoteAccessErrorCode::InvalidPrincipal);
}
