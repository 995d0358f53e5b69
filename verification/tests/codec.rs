use releash::protocol::{
    deserialize_message, serialize_message, AddComment, AuthChallenge, AuthResponse, AuthResult,
    CommentItem, CommentSync, ErrorMsg, FileChange, FileContentRequest, FileContentResponse,
    GitFileStatusMsg, GitStage, GitStageResult, GitStatusRequest, GitStatusSync, GitUnstage,
    PtyExitMsg, PtyInput, PtyOutputMsg, PtyReady, PtyResize, WsMessage,
};

#[test]
fn serialize_auth_challenge() {
    let msg = WsMessage::AuthChallenge(AuthChallenge {
        challenge: "abc123".to_string(),
    });
    let json = serialize_message(&msg).unwrap();
    assert!(json.contains("\"type\":\"auth_challenge\""));
    assert!(json.contains("\"challenge\":\"abc123\""));
}

#[test]
fn roundtrip_auth_result_with_message() {
    let msg = WsMessage::AuthResult(AuthResult {
        success: false,
        message: Some("invalid token".to_string()),
    });
    let json = serialize_message(&msg).unwrap();
    let deserialized = deserialize_message(&json).unwrap();
    match deserialized {
        WsMessage::AuthResult(r) => {
            assert!(!r.success);
            assert_eq!(r.message.unwrap(), "invalid token");
        }
        _ => panic!("unexpected variant"),
    }
}

#[test]
fn auth_result_omits_none_message() {
    let msg = WsMessage::AuthResult(AuthResult {
        success: true,
        message: None,
    });
    let json = serialize_message(&msg).unwrap();
    assert!(!json.contains("\"message\""));
}

#[test]
fn roundtrip_pty_output() {
    let msg = WsMessage::PtyOutput(PtyOutputMsg {
        pty_id: 42,
        data: "hello\x1b[31mworld".to_string(),
    });
    let json = serialize_message(&msg).unwrap();
    let deserialized = deserialize_message(&json).unwrap();
    match deserialized {
        WsMessage::PtyOutput(p) => {
            assert_eq!(p.pty_id, 42);
            assert!(p.data.contains("hello"));
        }
        _ => panic!("unexpected variant"),
    }
}

#[test]
fn roundtrip_pty_exit_with_null_exit_code() {
    let msg = WsMessage::PtyExit(PtyExitMsg {
        pty_id: 1,
        exit_code: None,
    });
    let json = serialize_message(&msg).unwrap();
    let deserialized = deserialize_message(&json).unwrap();
    match deserialized {
        WsMessage::PtyExit(p) => {
            assert_eq!(p.pty_id, 1);
            assert!(p.exit_code.is_none());
        }
        _ => panic!("unexpected variant"),
    }
}

#[test]
fn roundtrip_git_status_sync() {
    let msg = WsMessage::GitStatusSync(GitStatusSync {
        files: vec![
            GitFileStatusMsg {
                path: "src/main.rs".to_string(),
                index_status: "modified".to_string(),
                worktree_status: "none".to_string(),
            },
            GitFileStatusMsg {
                path: "README.md".to_string(),
                index_status: "none".to_string(),
                worktree_status: "new".to_string(),
            },
        ],
    });
    let json = serialize_message(&msg).unwrap();
    let deserialized = deserialize_message(&json).unwrap();
    match deserialized {
        WsMessage::GitStatusSync(s) => assert_eq!(s.files.len(), 2),
        _ => panic!("unexpected variant"),
    }
}

#[test]
fn roundtrip_file_content_response() {
    let msg = WsMessage::FileContentResponse(FileContentResponse {
        path: "lib.rs".to_string(),
        original: "fn old() {}".to_string(),
        modified: "fn new() {}".to_string(),
    });
    let json = serialize_message(&msg).unwrap();
    let deserialized = deserialize_message(&json).unwrap();
    match deserialized {
        WsMessage::FileContentResponse(f) => {
            assert_eq!(f.path, "lib.rs");
            assert_eq!(f.original, "fn old() {}");
            assert_eq!(f.modified, "fn new() {}");
        }
        _ => panic!("unexpected variant"),
    }
}

#[test]
fn roundtrip_git_stage_result() {
    let msg = WsMessage::GitStageResult(GitStageResult {
        success: true,
        error: None,
        files: vec![GitFileStatusMsg {
            path: "a.txt".to_string(),
            index_status: "new".to_string(),
            worktree_status: "none".to_string(),
        }],
    });
    let json = serialize_message(&msg).unwrap();
    let deserialized = deserialize_message(&json).unwrap();
    match deserialized {
        WsMessage::GitStageResult(r) => {
            assert!(r.success);
            assert!(r.error.is_none());
            assert_eq!(r.files.len(), 1);
        }
        _ => panic!("unexpected variant"),
    }
}

#[test]
fn roundtrip_error() {
    let msg = WsMessage::Error(ErrorMsg {
        code: "UNAUTHORIZED".to_string(),
        message: "Authentication failed".to_string(),
    });
    let json = serialize_message(&msg).unwrap();
    let deserialized = deserialize_message(&json).unwrap();
    match deserialized {
        WsMessage::Error(e) => {
            assert_eq!(e.code, "UNAUTHORIZED");
            assert_eq!(e.message, "Authentication failed");
        }
        _ => panic!("unexpected variant"),
    }
}

#[test]
fn deserialize_unknown_type_fails() {
    let json = r#"{"type":"unknown_type","payload":{}}"#;
    assert!(deserialize_message(json).is_err());
}

#[test]
fn all_variants_roundtrip() {
    let messages = vec![
        WsMessage::AuthChallenge(AuthChallenge {
            challenge: "x".to_string(),
        }),
        WsMessage::AuthResponse(AuthResponse {
            hmac: "y".to_string(),
        }),
        WsMessage::AuthResult(AuthResult {
            success: true,
            message: None,
        }),
        WsMessage::PtyOutput(PtyOutputMsg {
            pty_id: 1,
            data: "d".to_string(),
        }),
        WsMessage::PtyExit(PtyExitMsg {
            pty_id: 1,
            exit_code: Some(0),
        }),
        WsMessage::PtyInput(PtyInput {
            pty_id: 1,
            data: "i".to_string(),
        }),
        WsMessage::PtyResize(PtyResize {
            pty_id: 1,
            rows: 24,
            cols: 80,
        }),
        WsMessage::PtyReady(PtyReady {
            pty_id: 1,
            cols: 80,
            rows: 24,
        }),
        WsMessage::GitStatusSync(GitStatusSync { files: vec![] }),
        WsMessage::FileContentRequest(FileContentRequest {
            path: "f".to_string(),
        }),
        WsMessage::FileContentResponse(FileContentResponse {
            path: "f".to_string(),
            original: "".to_string(),
            modified: "".to_string(),
        }),
        WsMessage::FileChange(FileChange {
            path: "f".to_string(),
            kind: "modify".to_string(),
        }),
        WsMessage::GitStatusRequest(GitStatusRequest {}),
        WsMessage::GitStage(GitStage {
            paths: vec!["a".to_string()],
        }),
        WsMessage::GitUnstage(GitUnstage {
            paths: vec!["b".to_string()],
        }),
        WsMessage::GitStageResult(GitStageResult {
            success: true,
            error: None,
            files: vec![],
        }),
        WsMessage::AddComment(AddComment {
            file_path: "src/main.rs".to_string(),
            line_number: 10,
            end_line: None,
            content: "fix this".to_string(),
        }),
        WsMessage::CommentsSync(CommentSync {
            comments: vec![CommentItem {
                id: "c1".to_string(),
                file_path: "src/main.rs".to_string(),
                line_number: 10,
                end_line: None,
                content: "fix this".to_string(),
                status: "unsent".to_string(),
                created_at: 1234567890,
            }],
        }),
        WsMessage::Error(ErrorMsg {
            code: "E".to_string(),
            message: "M".to_string(),
        }),
    ];

    for msg in &messages {
        let json = serialize_message(msg).unwrap();
        let back = deserialize_message(&json).unwrap();
        let json2 = serialize_message(&back).unwrap();
        assert_eq!(json, json2, "roundtrip failed for: {json}");
    }
}

#[test]
fn encoding_is_canonical_json() {
    let msg = WsMessage::PtyOutput(PtyOutputMsg {
        pty_id: 7,
        data: "a\"b\\c\ne".to_string(),
    });
    let json = serialize_message(&msg).unwrap();
    assert_eq!(
        json,
        "{\"type\":\"pty_output\",\"payload\":{\"pty_id\":7,\"data\":\"a\\\"b\\\\c\\u000ae\"}}"
    );
    let back = deserialize_message(&json).unwrap();
    match back {
        WsMessage::PtyOutput(p) => assert_eq!(p.data, "a\"b\\c\ne"),
        _ => panic!("unexpected variant"),
    }
}

#[test]
fn decoding_rejects_trailing_garbage() {
    let msg = WsMessage::GitStatusRequest(GitStatusRequest {});
    let mut json = serialize_message(&msg).unwrap();
    assert!(deserialize_message(&json).is_ok());
    // trailing whitespace is insignificant, anything else is not
    json.push(' ');
    assert!(deserialize_message(&json).is_ok());
    json.push('x');
    assert!(deserialize_message(&json).is_err());
}

#[test]
fn negative_exit_code_roundtrips() {
    let msg = WsMessage::PtyExit(PtyExitMsg {
        pty_id: 3,
        exit_code: Some(-9),
    });
    let json = serialize_message(&msg).unwrap();
    assert!(json.contains("\"exit_code\":-9"));
    match deserialize_message(&json).unwrap() {
        WsMessage::PtyExit(p) => assert_eq!(p.exit_code, Some(-9)),
        _ => panic!("unexpected variant"),
    }
}


#[test]
fn absent_exit_code_is_omitted_not_null() {
    let msg = WsMessage::PtyExit(PtyExitMsg {
        pty_id: 1,
        exit_code: None,
    });
    let json = serialize_message(&msg).unwrap();
    assert!(!json.contains("exit_code"));
    assert!(!json.contains("null"));
}

#[test]
fn decoder_accepts_standard_short_escapes() {
    // a standard client serializes the Enter key as backslash-r — the frame
    // must decode and route, not draw a parse error
    let json = r#"{"type":"pty_input","payload":{"pty_id":1,"data":"ls\r"}}"#;
    match deserialize_message(json).unwrap() {
        WsMessage::PtyInput(p) => assert_eq!(p.data, "ls\r"),
        _ => panic!("unexpected variant"),
    }
    let json2 = r#"{"type":"pty_input","payload":{"pty_id":1,"data":"a\t\n\b\f\/b"}}"#;
    match deserialize_message(json2).unwrap() {
        WsMessage::PtyInput(p) => assert_eq!(p.data, "a\t\n\u{8}\u{c}/b"),
        _ => panic!("unexpected variant"),
    }
}

#[test]
fn decoder_accepts_general_unicode_escapes() {
    // uppercase hex, a BMP escape, and a surrogate pair
    let json = r#"{"type":"pty_input","payload":{"pty_id":1,"data":"\u000D\u00e9\uD83D\uDE00"}}"#;
    match deserialize_message(json).unwrap() {
        WsMessage::PtyInput(p) => assert_eq!(p.data, "\r\u{e9}\u{1F600}"),
        _ => panic!("unexpected variant"),
    }
    // a lone surrogate is rejected
    let bad = r#"{"type":"pty_input","payload":{"pty_id":1,"data":"\uD83D"}}"#;
    assert!(deserialize_message(bad).is_err());
}

#[test]
fn decoder_accepts_pretty_printed_frames() {
    let json = "{\n  \"type\": \"auth_response\",\n  \"payload\": {\n    \"hmac\": \"deadbeef\"\n  }\n}\n";
    match deserialize_message(json).unwrap() {
        WsMessage::AuthResponse(p) => assert_eq!(p.hmac, "deadbeef"),
        _ => panic!("unexpected variant"),
    }
    let nested = r#"{ "type": "git_status_sync", "payload": { "files": [ { "path": "a", "index_status": "new", "worktree_status": "none" } ] } }"#;
    match deserialize_message(nested).unwrap() {
        WsMessage::GitStatusSync(sync) => {
            assert_eq!(sync.files.len(), 1);
            assert_eq!(sync.files[0].path, "a");
        }
        _ => panic!("unexpected variant"),
    }
}
