use biyard_kit::oneshot::{oneshot_authorization, oneshot_headers, oneshot_outcome, oneshot_uri, McpOneshotError};

#[test]
fn uri_percent_encodes_hashes() {
    assert_eq!(oneshot_uri("/api/spaces/SPACE#1/posts"), "http://localhost/api/spaces/SPACE%231/posts");
    assert_eq!(oneshot_uri("/echo"), "http://localhost/echo");
}

#[test]
fn secret_travels_in_the_authorization_header() {
    assert_eq!(oneshot_authorization("hsec_abc"), "McpSecret hsec_abc");
    let h = oneshot_headers("hsec_abc", false);
    assert_eq!(h, vec![("authorization".to_string(), "McpSecret hsec_abc".to_string())]);
    let h = oneshot_headers("x", true);
    assert_eq!(h[1], ("content-type".to_string(), "application/json".to_string()));
}

#[test]
fn success_hands_the_body_on() {
    match oneshot_outcome(200, b"{\"a\":1}".to_vec()) {
        Ok(b) => assert_eq!(b, b"{\"a\":1}".to_vec()),
        Err(_) => panic!("expected success"),
    }
    assert!(oneshot_outcome(299, vec![]).is_ok());
}

#[test]
fn failure_carries_status_and_lossy_text() {
    match oneshot_outcome(404, vec![b'n', b'o', 0xff]) {
        Err(McpOneshotError::Status(s, m)) => {
            assert_eq!(s, 404);
            assert_eq!(m, "no\u{FFFD}");
        },
        _ => panic!("expected a status error"),
    }
    assert!(oneshot_outcome(300, vec![]).is_err());
    assert!(oneshot_outcome(199, vec![]).is_err());
}

#[test]
fn error_messages() {
    assert_eq!(McpOneshotError::RoutingFailed.message(), "mcp oneshot routing failed");
    assert_eq!(McpOneshotError::Status(404, "nope".to_string()).message(), "mcp oneshot status 404: nope");
}
