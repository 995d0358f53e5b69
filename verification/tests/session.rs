use hmac::{Hmac, KeyInit, Mac};
use sha2::Sha256;

use releash::auth::{generate_challenge, verify_hmac, RateLimiter, CHALLENGE_LENGTH};
use releash::protocol::{
    AddComment, AuthChallenge, FileContentRequest, GitFileStatusMsg, GitStatusRequest, PtyInput,
    WsMessage,
};
use releash::strutil::hex_encode;
use releash::ws_server::{
    admit_connection, attach_messages, auth_decision, auth_frame_step, file_content_plan,
    on_text_frame, pty_write_reply, route_message, stage_guard, stage_result_messages,
    validate_relative_path, AdmitDecision, AuthOutcome, AuthStep, CanonOutcome, ConnectionGate,
    FrameStep, RouteAction, RouteCtx, WsServerHandle,
};

fn ip(a: u8, b: u8, c: u8, d: u8) -> u128 {
    ((a as u128) << 24) | ((b as u128) << 16) | ((c as u128) << 8) | (d as u128)
}

fn client_hmac(token: &str, challenge: &str) -> String {
    let mut mac = <Hmac<Sha256> as KeyInit>::new_from_slice(token.as_bytes()).unwrap();
    mac.update(challenge.as_bytes());
    hex_encode(mac.finalize().into_bytes().as_slice())
}

#[test]
fn test_generate_challenge_length() {
    let c = generate_challenge();
    assert_eq!(c.len(), CHALLENGE_LENGTH * 2);
    assert!(c.chars().all(|ch| ch.is_ascii_hexdigit()));
}

#[test]
fn test_generate_challenge_uniqueness() {
    let c1 = generate_challenge();
    let c2 = generate_challenge();
    assert_ne!(c1, c2);
}

#[test]
fn test_verify_hmac_valid() {
    let challenge = "test_challenge";
    let token = "secret_token";
    let expected = client_hmac(token, challenge);
    assert!(verify_hmac(challenge, token, &expected));
}

#[test]
fn test_verify_hmac_invalid() {
    assert!(!verify_hmac("challenge", "token", "wrong_hmac"));
}

#[test]
fn test_rate_limit_not_blocked_initially() {
    let limits = RateLimiter::new();
    assert!(!limits.is_ip_blocked(ip(127, 0, 0, 1), 0));
}

#[test]
fn test_rate_limit_blocked_after_max_failures() {
    let mut limits = RateLimiter::new();
    let addr = ip(192, 168, 1, 1);
    for _ in 0..3 {
        limits.record_auth_failure(addr, 1000);
    }
    assert!(limits.is_ip_blocked(addr, 1000));
}

#[test]
fn test_rate_limit_not_blocked_before_max() {
    let mut limits = RateLimiter::new();
    let addr = ip(192, 168, 1, 1);
    for _ in 0..2 {
        limits.record_auth_failure(addr, 1000);
    }
    assert!(!limits.is_ip_blocked(addr, 1000));
}

#[test]
fn test_clear_auth_failures() {
    let mut limits = RateLimiter::new();
    let addr = ip(10, 0, 0, 1);
    for _ in 0..3 {
        limits.record_auth_failure(addr, 1000);
    }
    assert!(limits.is_ip_blocked(addr, 1000));
    limits.clear_auth_failures(addr);
    assert!(!limits.is_ip_blocked(addr, 1000));
}

#[test]
fn block_expires_after_window() {
    let mut limits = RateLimiter::new();
    let addr = ip(10, 0, 0, 2);
    for _ in 0..3 {
        limits.record_auth_failure(addr, 1000);
    }
    assert!(limits.is_ip_blocked(addr, 30_999));
    assert!(!limits.is_ip_blocked(addr, 31_000));
}

#[test]
fn test_route_unknown_message_returns_error() {
    let ctx = RouteCtx {
        has_pty_manager: false,
        has_repo: false,
    };
    let msg = WsMessage::AuthChallenge(AuthChallenge {
        challenge: "x".to_string(),
    });
    match route_message(msg, &ctx) {
        RouteAction::Reply(WsMessage::Error(e)) => assert_eq!(e.code, "INVALID_MESSAGE"),
        _ => panic!("expected error"),
    }
}

#[test]
fn test_route_add_comment_returns_none() {
    let ctx = RouteCtx {
        has_pty_manager: false,
        has_repo: false,
    };
    let msg = WsMessage::AddComment(AddComment {
        file_path: "src/main.rs".to_string(),
        line_number: 10,
        end_line: None,
        content: "fix this".to_string(),
    });
    // an add_comment never produces a wire reply: it becomes a UI event
    match route_message(msg, &ctx) {
        RouteAction::EmitComment(c) => assert_eq!(c.content, "fix this"),
        _ => panic!("expected a comment event"),
    }
}

#[test]
fn test_route_pty_input_without_manager_returns_none() {
    let ctx = RouteCtx {
        has_pty_manager: false,
        has_repo: false,
    };
    let msg = WsMessage::PtyInput(PtyInput {
        pty_id: 1,
        data: "ls".to_string(),
    });
    assert!(matches!(route_message(msg, &ctx), RouteAction::NoAction));
}

#[test]
fn test_route_git_status_request_without_repo() {
    let ctx = RouteCtx {
        has_pty_manager: false,
        has_repo: false,
    };
    let msg = WsMessage::GitStatusRequest(GitStatusRequest {});
    match route_message(msg, &ctx) {
        RouteAction::Reply(WsMessage::Error(e)) => assert_eq!(e.code, "NO_REPO"),
        _ => panic!("expected no repo error"),
    }
}

#[test]
fn test_route_file_content_request_without_repo() {
    let ctx = RouteCtx {
        has_pty_manager: false,
        has_repo: false,
    };
    let msg = WsMessage::FileContentRequest(FileContentRequest {
        path: "test.rs".to_string(),
    });
    match route_message(msg, &ctx) {
        RouteAction::Reply(WsMessage::Error(e)) => assert_eq!(e.code, "NO_REPO"),
        _ => panic!("expected no repo error"),
    }
}

#[test]
fn test_validate_relative_path_rejects_absolute() {
    let canon = CanonOutcome::Resolved {
        root: "/tmp".to_string(),
        target: "/tmp/etc/passwd".to_string(),
    };
    let result = validate_relative_path("/etc/passwd", &canon);
    assert!(result.is_err());
}

#[test]
fn test_validate_relative_path_rejects_traversal() {
    let canon = CanonOutcome::Resolved {
        root: "/tmp/repo".to_string(),
        target: "/etc/passwd".to_string(),
    };
    let result = validate_relative_path("../../etc/passwd", &canon);
    assert!(result.is_err());
}

#[test]
fn path_prefix_must_end_at_component() {
    let canon = CanonOutcome::Resolved {
        root: "/tmp/repo".to_string(),
        target: "/tmp/repo2/file".to_string(),
    };
    assert!(validate_relative_path("x", &canon).is_err());
    let ok = CanonOutcome::Resolved {
        root: "/tmp/repo".to_string(),
        target: "/tmp/repo/file".to_string(),
    };
    assert!(validate_relative_path("file", &ok).is_ok());
}

#[test]
fn unresolvable_path_is_rejected() {
    assert!(validate_relative_path("missing.txt", &CanonOutcome::Failed).is_err());
}

#[test]
fn traversal_request_yields_invalid_path_error() {
    let canon = CanonOutcome::Resolved {
        root: "/tmp/repo".to_string(),
        target: "/etc/passwd".to_string(),
    };
    match file_content_plan("../etc/passwd", &canon) {
        Err(WsMessage::Error(e)) => assert_eq!(e.code, "INVALID_PATH"),
        _ => panic!("expected rejection before any read"),
    }
}

#[test]
fn busy_refusal_is_a_fixed_error_frame() {
    match releash::ws_server::busy_refusal() {
        WsMessage::Error(e) => {
            assert_eq!(e.code, "CONNECTION_BUSY");
            assert_eq!(e.message, "another client is already connected");
        }
        _ => panic!("expected an error frame"),
    }
}

#[test]
fn second_connection_is_refused_while_first_is_active() {
    let mut gate = ConnectionGate::new();
    let limits = RateLimiter::new();
    let first = admit_connection(&mut gate, &limits, ip(10, 0, 0, 7), 0);
    assert!(matches!(first, AdmitDecision::Admitted));
    let second = admit_connection(&mut gate, &limits, ip(10, 0, 0, 8), 10);
    assert!(matches!(second, AdmitDecision::Busy));
    gate.release();
    let third = admit_connection(&mut gate, &limits, ip(10, 0, 0, 8), 20);
    assert!(matches!(third, AdmitDecision::Admitted));
}

#[test]
fn lockout_blocks_fourth_attempt_before_challenge() {
    let mut gate = ConnectionGate::new();
    let mut limits = RateLimiter::new();
    let addr = ip(10, 0, 0, 5);
    for t in [1000u64, 2000, 3000] {
        limits.record_auth_failure(addr, t);
    }
    let decision = admit_connection(&mut gate, &limits, addr, 4000);
    assert!(matches!(decision, AdmitDecision::Blocked));
}

#[test]
fn auth_timeout_counts_as_failure() {
    assert!(!auth_decision("c", "token", &AuthOutcome::TimedOut));
    assert!(!auth_decision("c", "token", &AuthOutcome::ConnectionClosed));
    assert!(!auth_decision("c", "token", &AuthOutcome::Malformed));
}

#[test]
fn happy_attach_sequence() {
    let token = "abc";
    let challenge = generate_challenge();
    let answer = client_hmac(token, &challenge);
    assert!(auth_decision(
        &challenge,
        token,
        &AuthOutcome::Response { hmac: answer }
    ));

    let msgs = attach_messages(true, Some((1, Some((80, 24)))), String::new(), Some(vec![]));
    assert_eq!(msgs.len(), 2);
    match &msgs[0] {
        WsMessage::PtyReady(p) => {
            assert_eq!(p.pty_id, 1);
            assert_eq!(p.cols, 80);
            assert_eq!(p.rows, 24);
        }
        _ => panic!("expected pty_ready first"),
    }
    match &msgs[1] {
        WsMessage::GitStatusSync(s) => assert!(s.files.is_empty()),
        _ => panic!("expected git_status_sync second"),
    }
}

#[test]
fn attach_without_pty_reports_no_pty() {
    let msgs = attach_messages(true, None, "ignored".to_string(), None);
    assert_eq!(msgs.len(), 1);
    match &msgs[0] {
        WsMessage::Error(e) => assert_eq!(e.code, "NO_PTY"),
        _ => panic!("expected NO_PTY error"),
    }
}

#[test]
fn auth_frame_step_classifies_frames() {
    let resp = releash::protocol::serialize_message(&WsMessage::AuthResponse(
        releash::protocol::AuthResponse {
            hmac: "deadbeef".to_string(),
        },
    ))
    .unwrap();
    match auth_frame_step(&resp) {
        AuthStep::GotResponse { hmac } => assert_eq!(hmac, "deadbeef"),
        _ => panic!("expected the response"),
    }
    let other = releash::protocol::serialize_message(&WsMessage::GitStatusRequest(
        GitStatusRequest {},
    ))
    .unwrap();
    assert!(matches!(auth_frame_step(&other), AuthStep::KeepWaiting));
    assert!(matches!(auth_frame_step("not json"), AuthStep::Rejected));
}

#[test]
fn bad_frame_yields_parse_error_and_continues() {
    let ctx = RouteCtx {
        has_pty_manager: true,
        has_repo: true,
    };
    match on_text_frame("{\"type\":\"unknown_type\",\"payload\":{}}", &ctx) {
        FrameStep::ParseError(WsMessage::Error(e)) => assert_eq!(e.code, "PARSE_ERROR"),
        _ => panic!("expected a parse error reply"),
    }
}

#[test]
fn pty_write_failure_is_reported() {
    match pty_write_reply(Err("broken".to_string())) {
        Some(WsMessage::Error(e)) => {
            assert_eq!(e.code, "PTY_WRITE_ERROR");
            assert_eq!(e.message, "broken");
        }
        _ => panic!("expected an error reply"),
    }
    assert!(pty_write_reply(Ok(())).is_none());
}

#[test]
fn stage_roundtrip_reply_and_broadcast_match() {
    let status = vec![GitFileStatusMsg {
        path: "a.txt".to_string(),
        index_status: "new".to_string(),
        worktree_status: "none".to_string(),
    }];
    let (reply, broadcast) = stage_result_messages(Ok(()), Ok(status));
    match reply {
        WsMessage::GitStageResult(r) => {
            assert!(r.success);
            assert!(r.error.is_none());
            assert_eq!(r.files.len(), 1);
            assert_eq!(r.files[0].path, "a.txt");
            assert_eq!(r.files[0].index_status, "new");
            assert_eq!(r.files[0].worktree_status, "none");
        }
        _ => panic!("expected a stage result"),
    }
    match broadcast {
        Some(WsMessage::GitStatusSync(s)) => {
            assert_eq!(s.files.len(), 1);
            assert_eq!(s.files[0].path, "a.txt");
        }
        _ => panic!("expected a matching broadcast"),
    }
}

#[test]
fn stage_guard_rejects_first_bad_path() {
    let paths = vec!["ok.txt".to_string(), "../evil".to_string()];
    let canons = vec![
        CanonOutcome::Resolved {
            root: "/r".to_string(),
            target: "/r/ok.txt".to_string(),
        },
        CanonOutcome::Resolved {
            root: "/r".to_string(),
            target: "/evil".to_string(),
        },
    ];
    match stage_guard(&paths, &canons) {
        Err(WsMessage::GitStageResult(r)) => {
            assert!(!r.success);
            assert!(r.error.is_some());
            assert!(r.files.is_empty());
        }
        _ => panic!("expected a failed stage result"),
    }
}

#[test]
fn server_handle_lifecycle() {
    let mut handle = WsServerHandle::new();
    assert!(!handle.get_server_status());
    assert!(handle.mark_stopped().is_err());
    assert!(handle.mark_started("100.100.1.42".to_string(), true).is_ok());
    assert!(handle.get_server_status());
    assert!(handle.is_tls_enabled());
    assert_eq!(handle.active_bind().unwrap(), "100.100.1.42");
    assert!(handle.mark_started("other".to_string(), false).is_err());
    assert!(handle.mark_stopped().is_ok());
    assert!(!handle.get_server_status());
    assert!(handle.active_bind().is_none());
}
