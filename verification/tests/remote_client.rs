use pong_core::remote_client::{
    build_json_request, check_client_config, check_protocol_reply, find_header_end,
    parse_endpoint_authority, parse_status, reply_step, response_content_length,
    RemoteHttpClientConfig, ReplyStep, DEFAULT_REMOTE_HTTP_MAX_REQUEST_BYTES,
};

fn config(credential: &str, timeout_ms: u64, max_response_bytes: usize) -> RemoteHttpClientConfig {
    RemoteHttpClientConfig {
        endpoint: "127.0.0.1:8080".to_string(),
        credential: credential.to_string(),
        timeout_ms,
        max_response_bytes,
    }
}

#[test]
fn client_configuration_is_checked_in_order() {
    assert!(check_client_config(&config("token", 1000, 1024)).is_ok());
    assert_eq!(check_client_config(&config("", 0, 0)).unwrap_err().code(), "INVALID_CREDENTIAL");
    assert_eq!(
        check_client_config(&config("two words", 1000, 1024)).unwrap_err().code(),
        "INVALID_CREDENTIAL"
    );
    assert_eq!(check_client_config(&config("t", 0, 0)).unwrap_err().code(), "INVALID_TIMEOUT");
    assert_eq!(
        check_client_config(&config("t", 5, 0)).unwrap_err().code(),
        "INVALID_RESPONSE_LIMIT"
    );
}

#[test]
fn endpoints_accept_plain_http_authorities_only() {
    assert_eq!(parse_endpoint_authority("127.0.0.1:8080").unwrap(), "127.0.0.1:8080");
    assert_eq!(parse_endpoint_authority(" http://localhost:9 ").unwrap(), "localhost:9");
    assert_eq!(
        parse_endpoint_authority("https://example.com:443").unwrap_err().code(),
        "TLS_NOT_SUPPORTED"
    );
    assert_eq!(parse_endpoint_authority("").unwrap_err().code(), "INVALID_ENDPOINT");
    assert_eq!(
        parse_endpoint_authority("http://host:80/path").unwrap_err().code(),
        "INVALID_ENDPOINT"
    );
}

#[test]
fn json_request_has_the_exact_framing() {
    let request = build_json_request("127.0.0.1:8080", "tok", b"{}").unwrap();
    assert_eq!(
        String::from_utf8(request).unwrap(),
        "POST /v1/protocol HTTP/1.1\r\nHost: 127.0.0.1:8080\r\nAuthorization: Bearer tok\r\nContent-Type: application/json\r\nAccept: application/json\r\nConnection: close\r\nContent-Length: 2\r\n\r\n{}"
    );
    let large = vec![b'x'; DEFAULT_REMOTE_HTTP_MAX_REQUEST_BYTES + 1];
    assert_eq!(
        build_json_request("h", "t", &large).unwrap_err().code(),
        "REQUEST_TOO_LARGE"
    );
}

#[test]
fn reply_status_and_length_are_read_from_the_header_block() {
    let reply = b"HTTP/1.1 200 OK\r\nContent-Length: 12\r\n\r\n{\"ok\":true}";
    let end = find_header_end(reply).unwrap();
    assert_eq!(&reply[end..end + 4], b"\r\n\r\n");
    let headers = &reply[..end];
    assert_eq!(parse_status(headers).unwrap(), 200);
    assert_eq!(response_content_length(headers).unwrap(), Some(12));
    assert_eq!(find_header_end(b"HTTP/1.1 200 OK\r\n"), None);
    assert!(parse_status(b"SMTP 200 OK").is_err());
    assert_eq!(response_content_length(b"HTTP/1.1 204 No Content").unwrap(), None);
    assert!(response_content_length(b"HTTP/1.1 200 OK\r\nContent-Length: x").is_err());
}

#[test]
fn a_reply_without_a_protocol_response_is_only_a_transport_error() {
    assert!(check_protocol_reply(502, &None, "req-1").is_ok());
    let error = check_protocol_reply(200, &None, "req-1").unwrap_err();
    assert_eq!(error.code(), "PROTOCOL_RESPONSE_INVALID");
    assert_eq!(error.http_status(), Some(200));
}

#[test]
fn a_reply_is_read_to_its_declared_length_or_to_the_end_of_the_stream() {
    assert!(matches!(reply_step(b"HTTP/1.1 200 OK\r\n", false, 64), ReplyStep::NeedMore));
    match reply_step(b"HTTP/1.1 200 OK\r\n", true, 64) {
        ReplyStep::Failed(e) => assert_eq!(e.message(), "HTTP response ended unexpectedly"),
        other => panic!("unexpected {other:?}"),
    }
    let partial = b"HTTP/1.1 200 OK\r\nContent-Length: 4\r\n\r\n{}";
    assert!(matches!(reply_step(partial, false, 64), ReplyStep::NeedMore));
    let full = b"HTTP/1.1 201 Created\r\nContent-Length: 2\r\n\r\n{}extra";
    match reply_step(full, false, 64) {
        ReplyStep::Complete { http_status, body } => {
            assert_eq!(http_status, 201);
            assert_eq!(body, b"{}".to_vec());
        }
        other => panic!("unexpected {other:?}"),
    }
    let open_ended = b"HTTP/1.0 500 Internal\r\n\r\nabc";
    assert!(matches!(reply_step(open_ended, false, 64), ReplyStep::NeedMore));
    match reply_step(open_ended, true, 64) {
        ReplyStep::Complete { http_status, body } => {
            assert_eq!(http_status, 500);
            assert_eq!(body, b"abc".to_vec());
        }
        other => panic!("unexpected {other:?}"),
    }
    match reply_step(open_ended, true, 2) {
        ReplyStep::Failed(e) => {
            assert_eq!(e.code(), "RESPONSE_TOO_LARGE");
            assert_eq!(e.http_status(), Some(500));
        }
        other => panic!("unexpected {other:?}"),
    }
    match reply_step(b"HTTP/2 200 OK\r\n\r\n", true, 64) {
        ReplyStep::Failed(e) => assert_eq!(e.message(), "HTTP response status is invalid"),
        other => panic!("unexpected {other:?}"),
    }
}
