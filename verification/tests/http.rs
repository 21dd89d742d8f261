use pong_core::http_transport::{
    admit_body, BodyAdmission, admit_request, bearer_credential, body_too_large, bounded_response, correlation_resources,
    diagnostic_event, eq_ignore_ascii_case, has_json_content_type, index_grants,
    is_loopback_address, protocol_diagnostic_outcome, protocol_http_status, remote_error_status,
    request_id_from_invalid_json, screen_principal, screen_request, session_id_for, validate_config, validate_grant,
    CredentialGrant, CredentialVerifier, HttpDiagnosticOutcome, HttpMetrics,
    HttpRequestCorrelation, HttpServerConfig, IpAddress, ListenAddress, RateLimiter,
    StaticCredentialVerifier, TransportRejection, MIN_HTTP_MAX_RESPONSE_BYTES,
    RESPONSE_TOO_LARGE_BODY,
};
use pong_core::json::JsonValue;
use pong_core::protocol::{
    AcquireLeaseCommand, CreateHandoffCommand, ProtocolCall, ProtocolErrorCode, ProtocolFailure,
    ProtocolRequest, ProtocolResponse, RenewLeaseCommand, LeaseAuthority,
};
use pong_core::remote::{AuthenticatedPrincipal, RemoteAccessBoundary, RemoteAccessError, RemoteAccessErrorCode};
use pong_core::protocol::EntityQuery;

fn grant(credential: &str, principal: &str) -> CredentialGrant {
    CredentialGrant {
        credential: credential.into(),
        principal_id: principal.into(),
        agent_ids: vec!["agent-1".into()],
        expires_at_ms: None,
    }
}

fn headers(pairs: &[(&str, &str)]) -> Vec<(String, String)> {
    pairs
        .iter()
        .map(|(name, value)| (name.to_string(), value.to_string()))
        .collect()
}

#[test]
fn default_config_is_loopback_and_valid() {
    let config = HttpServerConfig::default();
    assert!(is_loopback_address(config.listen_addr));
    assert!(validate_config(&config).is_ok());
    let mut open = config.clone();
    open.listen_addr = ListenAddress {
        ip: IpAddress::V4(0, 0, 0, 0),
        port: 8080,
    };
    assert_eq!(
        validate_config(&open).unwrap_err().message(),
        "non-loopback HTTP binding requires explicit authorization"
    );
    open.allow_non_loopback = true;
    assert!(validate_config(&open).is_ok());
    let mut tight = HttpServerConfig::default();
    tight.max_response_bytes = MIN_HTTP_MAX_RESPONSE_BYTES - 1;
    assert_eq!(
        validate_config(&tight).unwrap_err().message(),
        "HTTP server limits are invalid"
    );
    assert_eq!(RESPONSE_TOO_LARGE_BODY.len(), MIN_HTTP_MAX_RESPONSE_BYTES);
    assert!(is_loopback_address(ListenAddress {
        ip: IpAddress::V6(0, 0, 0, 0, 0, 0, 0, 1),
        port: 1
    }));
}

#[test]
fn credentials_authenticate_their_principal_until_expiry() {
    let mut expiring = grant("token-b", "principal-b");
    expiring.expires_at_ms = Some(100);
    let verifier =
        StaticCredentialVerifier::new(vec![grant("token-a", "principal-a"), expiring]).unwrap();
    let principal = verifier.authenticate("token-a", 0).unwrap();
    assert_eq!(principal.principal_id, "principal-a");
    assert_eq!(principal.agent_ids, vec!["agent-1".to_owned()]);
    assert!(verifier.authenticate("token-b", 99).is_ok());
    assert_eq!(
        verifier.authenticate("token-b", 100).unwrap_err().code,
        RemoteAccessErrorCode::AuthenticationFailed
    );
    assert!(verifier.authenticate("unknown", 0).is_err());
}

#[test]
fn grants_are_validated_and_never_duplicated() {
    assert!(StaticCredentialVerifier::new(vec![]).is_err());
    assert_eq!(
        index_grants(vec![grant("t", "p"), grant("t", "q")])
            .unwrap_err()
            .message(),
        "credential is duplicated"
    );
    assert!(validate_grant(&grant(" ", "p")).is_err());
    let mut verifier = StaticCredentialVerifier::new(vec![grant("t1", "p")]).unwrap();
    assert!(verifier.add_grant(grant("t2", "q")).is_ok());
    assert_eq!(
        verifier.add_grant(grant("t1", "r")).unwrap_err().message(),
        "credential is duplicated"
    );
    assert_eq!(verifier.revoke("t1"), Ok(true));
    assert_eq!(verifier.revoke("t1"), Ok(false));
    assert!(verifier.authenticate("t1", 0).is_err());
    assert!(verifier.authenticate("t2", 0).is_ok());
    assert!(verifier.replace_grants(vec![grant("t3", "s")]).is_ok());
    assert!(verifier.authenticate("t2", 0).is_err());
    assert!(verifier.authenticate("t3", 0).is_ok());
    assert!(verifier.replace_grants(vec![grant(" ", "s")]).is_err());
    assert!(verifier.authenticate("t3", 0).is_ok());
}

#[test]
fn rate_limit_admits_a_fixed_number_per_window() {
    let mut limiter = RateLimiter::new(2, 1_000, 2);
    assert!(limiter.allow("p", 0).allowed);
    assert!(limiter.allow("p", 10).allowed);
    let refused = limiter.allow("p", 20);
    assert!(!refused.allowed && !refused.capacity_rejected);
    assert!(limiter.allow("q", 30).allowed);
    let full = limiter.allow("r", 40);
    assert!(!full.allowed && full.capacity_rejected);
    assert_eq!(full.tracked_principals, 2);
    // The windows close and the Principals are forgotten.
    let later = limiter.allow("r", 2_000);
    assert!(later.allowed);
    assert_eq!(later.tracked_principals, 1);
    assert!(limiter.allow("p", 2_000).allowed);
}

#[test]
fn metrics_keep_a_bounded_history() {
    let mut metrics = HttpMetrics::new(4);
    for i in 0..70u64 {
        metrics.record(HttpRequestCorrelation {
            request_id: format!("r{i}"),
            operation_id: None,
            principal_id: "p".into(),
            agent_id: None,
            execution_id: None,
            workspace_id: None,
            status: 200,
            latency_ms: i,
        });
        metrics.record_diagnostic(diagnostic_event(i, HttpDiagnosticOutcome::RequestCompleted, None));
    }
    let snapshot = metrics.snapshot();
    assert_eq!(snapshot.recent_requests.len(), 64);
    assert_eq!(snapshot.recent_requests[0].request_id, "r6");
    assert_eq!(snapshot.recent_requests[63].request_id, "r69");
    assert_eq!(snapshot.recent_diagnostics.len(), 64);
    assert_eq!(snapshot.worker_threads, 4);
    metrics.request_started();
    metrics.request_started();
    metrics.request_finished();
    metrics.rate_limiter_size(5, true);
    metrics.mark_error();
    let snapshot = metrics.snapshot();
    assert_eq!(snapshot.requests_total, 2);
    assert_eq!(snapshot.active_requests, 1);
    assert_eq!(snapshot.peak_active_requests, 2);
    assert_eq!(snapshot.tracked_rate_limit_principals, 5);
    assert_eq!(snapshot.rate_limit_capacity_rejections, 1);
    assert_eq!(snapshot.error_responses, 1);
}

#[test]
fn statuses_follow_the_error_codes() {
    let invalid = ProtocolResponse::invalid_envelope(None);
    assert_eq!(protocol_http_status(&invalid), 400);
    let conflict = ProtocolResponse::failure(
        "r".into(),
        None,
        ProtocolFailure::new(ProtocolErrorCode::LeaseConflict, "x", true),
    );
    assert_eq!(protocol_http_status(&conflict), 409);
    assert_eq!(
        protocol_diagnostic_outcome(&conflict),
        HttpDiagnosticOutcome::LeaseConflict
    );
    let internal = ProtocolResponse::failure(
        "r".into(),
        None,
        ProtocolFailure::new(ProtocolErrorCode::IntegrityError, "x", false),
    );
    assert_eq!(protocol_http_status(&internal), 500);
    assert_eq!(remote_error_status(&RemoteAccessError::core_unavailable()), 503);
    assert_eq!(
        remote_error_status(&RemoteAccessError::authentication_required()),
        401
    );
}

#[test]
fn bearer_credentials_need_one_well_formed_header() {
    assert_eq!(
        bearer_credential(&headers(&[("authorization", "bEaReR abc")])).unwrap(),
        "abc"
    );
    assert_eq!(
        bearer_credential(&headers(&[])).unwrap_err().code,
        RemoteAccessErrorCode::AuthenticationRequired
    );
    for bad in [
        headers(&[("Authorization", "Bearer a"), ("Authorization", "Bearer b")]),
        headers(&[("Authorization", "Basic abc")]),
        headers(&[("Authorization", "Bearer")]),
        headers(&[("Authorization", "Bearer a b")]),
        headers(&[("Authorization", "Bearer  ")]),
    ] {
        assert_eq!(
            bearer_credential(&bad).unwrap_err().code,
            RemoteAccessErrorCode::AuthenticationFailed
        );
    }
}

#[test]
fn json_content_type_ignores_parameters_and_case() {
    assert!(has_json_content_type(&headers(&[(
        "content-type",
        " Application/JSON ; charset=utf-8"
    )])));
    assert!(!has_json_content_type(&headers(&[("Content-Type", "text/plain")])));
    assert!(eq_ignore_ascii_case("Content-Length", "CONTENT-length"));
    assert!(!eq_ignore_ascii_case("a", "ab"));
}

#[test]
fn admission_checks_path_method_type_and_credential_in_order() {
    let good = headers(&[
        ("Content-Type", "application/json"),
        ("Authorization", "Bearer tok"),
    ]);
    assert_eq!(admit_request("/v1/protocol", true, &good).unwrap(), "tok");
    match admit_request("/other", true, &good).unwrap_err() {
        TransportRejection::Transport { status, code, .. } => {
            assert_eq!((status, code), (404, "NOT_FOUND"))
        }
        other => panic!("unexpected {other:?}"),
    }
    match admit_request("/v1/protocol", false, &good).unwrap_err() {
        TransportRejection::Transport { status, .. } => assert_eq!(status, 405),
        other => panic!("unexpected {other:?}"),
    }
    match admit_request("/v1/protocol", true, &headers(&[("Authorization", "Bearer tok")]))
        .unwrap_err()
    {
        TransportRejection::Transport { status, .. } => assert_eq!(status, 415),
        other => panic!("unexpected {other:?}"),
    }
    match admit_request(
        "/v1/protocol",
        true,
        &headers(&[("Content-Type", "application/json")]),
    )
    .unwrap_err()
    {
        TransportRejection::Access(error) => {
            assert_eq!(error.code, RemoteAccessErrorCode::AuthenticationRequired)
        }
        other => panic!("unexpected {other:?}"),
    }
    assert!(body_too_large(Some(11), 10));
    assert!(!body_too_large(Some(10), 10));
    assert!(!body_too_large(None, 10));
}

#[test]
fn correlation_names_the_execution_and_workspace() {
    let request = |call| ProtocolRequest {
        protocol_version: "1.0".into(),
        request_id: "r".into(),
        caller_agent_id: None,
        issued_at: "t".into(),
        operation_id: None,
        call,
    };
    let acquire = request(ProtocolCall::AcquireWorkspaceLease(AcquireLeaseCommand {
        execution_id: "e".into(),
        workspace_id: "w".into(),
        ttl_ms: 1,
    }));
    assert_eq!(
        correlation_resources(&acquire),
        (Some("e".into()), Some("w".into()))
    );
    let renew = request(ProtocolCall::RenewWorkspaceLease(RenewLeaseCommand {
        lease: LeaseAuthority {
            workspace_id: "w2".into(),
            agent_id: "a".into(),
            epoch: 1,
            expires_at_ms: 2,
        },
        ttl_ms: 1,
    }));
    assert_eq!(correlation_resources(&renew), (None, Some("w2".into())));
    let handoff = request(ProtocolCall::CreateHandoff(CreateHandoffCommand {
        handoff_id: "h".into(),
        task_id: "t".into(),
        from_execution_id: "e1".into(),
        to_execution_id: "e2".into(),
        source_version_id: None,
        checkpoint_id: None,
        reason_code: "r".into(),
    }));
    assert_eq!(correlation_resources(&handoff), (Some("e1".into()), None));
    assert_eq!(correlation_resources(&request(ProtocolCall::Hello)), (None, None));
}

#[test]
fn invalid_bodies_still_name_their_request_id() {
    let body = JsonValue::Object(vec![(
        "request_id".into(),
        JsonValue::String("req-5".into()),
    )]);
    assert_eq!(
        request_id_from_invalid_json(&Some(body)),
        Some("req-5".to_owned())
    );
    let blank = JsonValue::Object(vec![("request_id".into(), JsonValue::String(" ".into()))]);
    assert_eq!(request_id_from_invalid_json(&Some(blank)), None);
    assert_eq!(request_id_from_invalid_json(&None), None);
}

#[test]
fn oversized_responses_are_replaced() {
    let (status, body) = bounded_response(200, vec![b'x'; 100], 90);
    assert_eq!(status, 500);
    assert_eq!(body, RESPONSE_TOO_LARGE_BODY.as_bytes());
    let (status, body) = bounded_response(201, vec![b'x'; 90], 90);
    assert_eq!((status, body.len()), (201, 90));
    assert_eq!(session_id_for(-5, 7), "http--5-7");
    assert_eq!(session_id_for(1700, 42), "http-1700-42");
}

#[test]
fn screening_refuses_in_the_transport_order() {
    let who = || AuthenticatedPrincipal {
        principal_id: "p-1".to_string(),
        agent_ids: vec!["agent-1".to_string()],
    };
    let mut metrics = HttpMetrics::new(2);
    let mut limiter = RateLimiter::new(1, 60_000, 4);
    let refused = screen_principal(
        &mut metrics,
        &mut limiter,
        Err(RemoteAccessError::authentication_failed()),
        None,
        16,
        0,
        3,
    )
    .unwrap_err();
    assert!(matches!(refused, TransportRejection::Access(_)));
    assert_eq!(metrics.auth_rejections, 1);
    assert_eq!(metrics.error_responses, 1);
    assert_eq!(metrics.recent_diagnostics[0].outcome, HttpDiagnosticOutcome::AuthRejected);
    assert_eq!(metrics.recent_diagnostics[0].status, Some(401));

    let too_large = screen_principal(&mut metrics, &mut limiter, Ok(who()), Some(17), 16, 0, 3)
        .unwrap_err();
    assert_eq!(
        too_large,
        TransportRejection::Transport {
            status: 413,
            code: "PAYLOAD_TOO_LARGE",
            message: "HTTP body is too large"
        }
    );
    assert_eq!(metrics.payload_rejections, 1);
    assert_eq!(metrics.recent_diagnostics[1].principal_id.as_deref(), Some("p-1"));

    let admitted = screen_principal(&mut metrics, &mut limiter, Ok(who()), Some(16), 16, 0, 3)
        .unwrap();
    assert_eq!(admitted.principal_id, "p-1");
    assert_eq!(metrics.tracked_rate_limit_principals, 1);
    let limited = screen_principal(&mut metrics, &mut limiter, Ok(who()), None, 16, 10, 3)
        .unwrap_err();
    assert!(matches!(
        limited,
        TransportRejection::Transport { status: 429, .. }
    ));
    assert_eq!(metrics.rate_limit_rejections, 1);
    assert_eq!(metrics.error_responses, 3);
}

#[test]
fn screening_runs_the_transport_checks_in_order() {
    let verifier = StaticCredentialVerifier::new(vec![grant("token-a", "principal-a")]).unwrap();
    let json = headers(&[("Content-Type", "application/json"), ("Authorization", "Bearer token-a")]);
    let mut metrics = HttpMetrics::new(4);
    let mut limiter = RateLimiter::new(1, 1_000, 4);
    match screen_request(&mut metrics, &mut limiter, &verifier, "/other", true, &json, None, 10, 0, 1) {
        Err(TransportRejection::Transport { status, .. }) => assert_eq!(status, 404),
        _ => panic!("an unknown path is not found"),
    }
    match screen_request(&mut metrics, &mut limiter, &verifier, "/v1/protocol", false, &json, None, 10, 0, 1) {
        Err(TransportRejection::Transport { status, .. }) => assert_eq!(status, 405),
        _ => panic!("only POST is allowed"),
    }
    let bad = headers(&[("Content-Type", "application/json"), ("Authorization", "Bearer nope")]);
    match screen_request(&mut metrics, &mut limiter, &verifier, "/v1/protocol", true, &bad, None, 10, 0, 1) {
        Err(TransportRejection::Access(e)) => assert_eq!(e.code, RemoteAccessErrorCode::AuthenticationFailed),
        _ => panic!("an unknown credential is refused"),
    }
    assert_eq!(metrics.auth_rejections, 1);
    match screen_request(&mut metrics, &mut limiter, &verifier, "/v1/protocol", true, &json, Some(11), 10, 0, 1) {
        Err(TransportRejection::Transport { status, .. }) => assert_eq!(status, 413),
        _ => panic!("a declared body over the limit is refused"),
    }
    let principal = screen_request(&mut metrics, &mut limiter, &verifier, "/v1/protocol", true, &json, Some(5), 10, 0, 1)
        .unwrap();
    assert_eq!(principal.principal_id, "principal-a");
    match screen_request(&mut metrics, &mut limiter, &verifier, "/v1/protocol", true, &json, Some(5), 10, 1, 1) {
        Err(TransportRejection::Transport { status, .. }) => assert_eq!(status, 429),
        _ => panic!("a second request in the window is rate limited"),
    }
    assert_eq!(metrics.error_responses, 5);
}

fn body_request(caller: &str) -> ProtocolRequest {
    ProtocolRequest {
        protocol_version: "1.0".into(),
        request_id: "req-9".into(),
        caller_agent_id: Some(caller.into()),
        issued_at: "t".into(),
        operation_id: None,
        call: ProtocolCall::GetAgent(EntityQuery { id: "agent-1".into() }),
    }
}

fn principal_a() -> AuthenticatedPrincipal {
    AuthenticatedPrincipal { principal_id: "principal-a".into(), agent_ids: vec!["agent-1".into()] }
}

#[test]
fn a_screened_body_is_read_decoded_and_authorized_in_order() {
    let mut metrics = HttpMetrics::new(4);
    let mut boundary = RemoteAccessBoundary::new();
    let sid = || "http-0-1".to_string();
    match admit_body(&mut metrics, &mut boundary, principal_a(), None, 10, Ok(body_request("agent-1")), sid(), 0, 1_000, 1) {
        BodyAdmission::Refused(TransportRejection::Transport { status, code, .. }) => {
            assert_eq!(status, 400);
            assert_eq!(code, "INVALID_REQUEST");
        }
        other => panic!("an unreadable body is refused, not {:?}", other),
    }
    match admit_body(&mut metrics, &mut boundary, principal_a(), Some(11), 10, Ok(body_request("agent-1")), sid(), 0, 1_000, 1) {
        BodyAdmission::Refused(TransportRejection::Transport { status, .. }) => assert_eq!(status, 413),
        other => panic!("a body over the limit is refused, not {:?}", other),
    }
    assert_eq!(metrics.payload_rejections, 1);
    let leftover = JsonValue::Object(vec![("request_id".to_string(), JsonValue::String("req-7".into()))]);
    match admit_body(&mut metrics, &mut boundary, principal_a(), Some(5), 10, Err(Some(leftover)), sid(), 0, 1_000, 1) {
        BodyAdmission::InvalidEnvelope(response) => {
            assert_eq!(response.request_id, "req-7");
            assert_eq!(response.error.unwrap().code, ProtocolErrorCode::ValidationError);
        }
        other => panic!("a body that is no request gets the envelope error, not {:?}", other),
    }
    match admit_body(&mut metrics, &mut boundary, principal_a(), Some(5), 10, Ok(body_request("agent-2")), sid(), 0, 1_000, 1) {
        BodyAdmission::Unauthorized(e) => assert_eq!(e.code, RemoteAccessErrorCode::Forbidden),
        other => panic!("another Agent is forbidden, not {:?}", other),
    }
    assert_eq!(metrics.authorization_rejections, 1);
    let last = metrics.recent_diagnostics.last().unwrap();
    assert_eq!(last.status, Some(403));
    assert_eq!(last.request_id.as_deref(), Some("req-9"));
    assert_eq!(last.principal_id.as_deref(), Some("principal-a"));
    match admit_body(&mut metrics, &mut boundary, principal_a(), Some(5), 10, Ok(body_request("agent-1")), sid(), 0, 1_000, 1) {
        BodyAdmission::Authorized(_) => {}
        other => panic!("the Principal's own Agent is authorized, not {:?}", other),
    }
    assert_eq!(metrics.error_responses, 4);
    assert!(!boundary.disconnect("http-0-1"));
}
