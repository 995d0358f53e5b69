use vstd::prelude::*;

use crate::auth::{spec_is_blocked, spec_record_failure, RateLimiter};
use crate::protocol::{
    dec_msg, AddComment, ErrorMsg, FileContentResponse, GitFileStatusMsg, GitFileStatusV,
    GitStatusSync, PtyOutputMsg, PtyReady, WsMessage, WsMessageV,
};
use crate::strutil::{chars_to_string, chars_vec};

verus! {

broadcast use vstd::seq::group_seq_axioms;

// ---------------------------------------------------------------------------
// Path guard
//
// Every client-supplied file path is validated before anything touches the
// filesystem: absolute paths are refused outright, and the canonical form of
// the joined path must stay under the canonical repository root.  The
// canonicalisation itself is filesystem work done by the caller; its outcome
// is handed in as plain strings.
// ---------------------------------------------------------------------------

/// What canonicalising the repository root and the joined path produced:
/// either both canonical paths, or a failure (a missing file, say), which is
/// a rejection.
pub enum CanonOutcome {
    Failed,
    Resolved { root: String, target: String },
}

pub open spec fn spec_is_absolute(p: Seq<char>) -> bool {
    p.len() > 0 && p[0] == '/'
}

/// Whether `target` equals `root` or lies strictly beneath it, comparing
/// whole path components.
pub open spec fn spec_is_under(root: Seq<char>, target: Seq<char>) -> bool {
    if root == seq!['/'] {
        spec_is_absolute(target)
    } else {
        target == root || (target.len() > root.len() && target.subrange(0, root.len() as int)
            == root && target[root.len() as int] == '/')
    }
}

/// Whether a client-supplied path is acceptable: not absolute, resolvable,
/// and contained in the root.
pub open spec fn spec_path_ok(path: Seq<char>, canon: CanonOutcome) -> bool {
    !spec_is_absolute(path) && match canon {
        CanonOutcome::Resolved { root, target } => spec_is_under(root@, target@),
        CanonOutcome::Failed => false,
    }
}

/// The rejection text for a bad path.
pub open spec fn spec_path_err(path: Seq<char>, canon: CanonOutcome) -> Seq<char> {
    if spec_is_absolute(path) {
        "absolute paths are rejected"@
    } else if canon is Failed {
        "path could not be resolved"@
    } else {
        "paths outside the project root are rejected"@
    }
}

fn is_absolute(path: &str) -> (r: bool)
    ensures
        r == spec_is_absolute(path@),
{
    let v = chars_vec(path);
    v.len() > 0 && v[0] == '/'
}

fn is_under(root: &str, target: &str) -> (r: bool)
    ensures
        r == spec_is_under(root@, target@),
{
    let rv = chars_vec(root);
    let tv = chars_vec(target);
    if rv.len() == 1 && rv[0] == '/' {
        proof {
            assert(root@ =~= seq!['/']);
        }
        return tv.len() > 0 && tv[0] == '/';
    }
    proof {
        if root@ == seq!['/'] {
            assert(root@.len() == 1 && root@[0] == '/');
        }
    }
    if rv.len() > tv.len() {
        return false;
    }
    let mut i: usize = 0;
    while i < rv.len()
        invariant
            i <= rv@.len() <= tv@.len(),
            rv@ == root@,
            tv@ == target@,
            forall|k: int| 0 <= k < i ==> rv@[k] == tv@[k],
        decreases rv@.len() - i,
    {
        if rv[i] != tv[i] {
            proof {
                if target@ == root@ {
                    assert(false);
                }
                if target@.len() > root@.len() && target@.subrange(0, root@.len() as int) == root@ {
                    assert(target@.subrange(0, root@.len() as int)[i as int] == target@[i as int]);
                }
            }
            return false;
        }
        i = i + 1;
    }
    if rv.len() == tv.len() {
        proof {
            assert(target@ =~= root@);
        }
        true
    } else {
        proof {
            assert(target@.subrange(0, root@.len() as int) =~= root@);
        }
        tv[rv.len()] == '/'
    }
}

/// Validates a client-supplied relative path against the repository root,
/// given the canonicalisation outcome.  Absolute paths, unresolvable paths
/// and paths escaping the root are rejected, and nothing may be read or
/// written for them.
pub fn validate_relative_path(path: &str, canon: &CanonOutcome) -> (r: Result<(), String>)
    ensures
        r is Ok <==> spec_path_ok(path@, *canon),
        r matches Err(e) ==> e@ == spec_path_err(path@, *canon),
{
    if is_absolute(path) {
        return Result::Err("absolute paths are rejected".to_owned());
    }
    match canon {
        CanonOutcome::Failed => Result::Err("path could not be resolved".to_owned()),
        CanonOutcome::Resolved { root, target } => {
            if is_under(root.as_str(), target.as_str()) {
                Result::Ok(())
            } else {
                Result::Err("paths outside the project root are rejected".to_owned())
            }
        },
    }
}

// ---------------------------------------------------------------------------
// Single-connection admission
// ---------------------------------------------------------------------------

/// The one-at-a-time admission flag: at most one session holds it.
pub struct ConnectionGate {
    active: bool,
}

impl ConnectionGate {
    pub closed spec fn active(&self) -> bool {
        self.active
    }

    pub fn new() -> (r: ConnectionGate)
        ensures
            !r.active(),
    {
        ConnectionGate { active: false }
    }

    /// Releases the slot when a session ends.
    pub fn release(&mut self)
        ensures
            !final(self).active(),
    {
        self.active = false;
    }
}

/// What the front door decides for a newly accepted connection.
#[derive(Debug, Clone, Copy, PartialEq, Eq, Structural)]
pub enum AdmitDecision {
    /// The address is rate-limited: close before any challenge is sent.
    Blocked,
    /// Another session is active: the newcomer is refused and the active
    /// session is untouched.
    Busy,
    /// The connection proceeds to the handshake.
    Admitted,
}

/// The error frame a refused second connection receives before its socket
/// closes, as the session-exclusion rule demands.  (The protocol's error
/// list names no code for this refusal; this fixed code extends it.)
pub fn busy_refusal() -> (r: WsMessage)
    ensures
        r@ == (WsMessageV::Error {
            code: "CONNECTION_BUSY"@,
            message: "another client is already connected"@,
        }),
{
    WsMessage::Error(
        ErrorMsg {
            code: "CONNECTION_BUSY".to_owned(),
            message: "another client is already connected".to_owned(),
        },
    )
}

/// Admission: a blocked address is turned away before anything is sent; a
/// second connection while one is active is refused — it is sent
/// `busy_refusal()` and closed — without disturbing the first; otherwise
/// the connection takes the slot.
pub fn admit_connection(
    gate: &mut ConnectionGate,
    limiter: &RateLimiter,
    ip: u128,
    now_ms: u64,
) -> (r: AdmitDecision)
    requires
        limiter.wf(),
    ensures
        (r == AdmitDecision::Blocked) <==> spec_is_blocked(limiter@, ip, now_ms),
        (r == AdmitDecision::Busy) <==> (!spec_is_blocked(limiter@, ip, now_ms) && old(
            gate,
        ).active()),
        (r == AdmitDecision::Admitted) <==> (!spec_is_blocked(limiter@, ip, now_ms) && !old(
            gate,
        ).active()),
        final(gate).active() == (old(gate).active() || r == AdmitDecision::Admitted),
{
    if limiter.is_ip_blocked(ip, now_ms) {
        AdmitDecision::Blocked
    } else if self_active(gate) {
        AdmitDecision::Busy
    } else {
        gate.active = true;
        AdmitDecision::Admitted
    }
}

fn self_active(gate: &ConnectionGate) -> (r: bool)
    ensures
        r == gate.active(),
{
    gate.active
}

// ---------------------------------------------------------------------------
// Handshake phase
// ---------------------------------------------------------------------------

/// How the wait for the client's answer ended.
pub enum AuthOutcome {
    /// An `auth_response` frame arrived in time; this is its hmac field.
    Response { hmac: String },
    /// The five-second timer fired first.
    TimedOut,
    /// The socket closed or failed during the handshake.
    ConnectionClosed,
    /// A frame arrived that could not be decoded.
    Malformed,
}

/// What one text frame contributes to the handshake.
pub enum AuthStep {
    /// A decodable frame of another kind: keep waiting.
    KeepWaiting,
    /// The client's `auth_response`.
    GotResponse { hmac: String },
    /// An undecodable frame ends the handshake as a failure.
    Rejected,
}

/// Classifies one inbound text frame during the handshake.
pub fn auth_frame_step(text: &str) -> (r: AuthStep)
    ensures
        match dec_msg(text@) {
            Option::Some(m) => match m {
                WsMessageV::AuthResponse { hmac } => r matches AuthStep::GotResponse { hmac: h }
                    && h@ == hmac,
                _ => r is KeepWaiting,
            },
            Option::None => r is Rejected,
        },
{
    match crate::protocol::deserialize_message(text) {
        Result::Ok(m) => match m {
            WsMessage::AuthResponse(p) => AuthStep::GotResponse { hmac: p.hmac },
            _ => AuthStep::KeepWaiting,
        },
        Result::Err(_) => AuthStep::Rejected,
    }
}

/// Whether the handshake succeeded: only an answer that arrived in time and
/// carries the right digest counts.  A timeout, a closed socket, a
/// malformed frame or a wrong digest all fail.
pub open spec fn spec_auth_accepted(challenge: Seq<char>, token: Seq<char>, o: AuthOutcome) -> bool {
    match o {
        AuthOutcome::Response { hmac } => hmac@ == crate::strutil::spec_hex_of(
            crate::auth::hmac_sha256_of(
                vstd::utf8::encode_utf8(token),
                vstd::utf8::encode_utf8(challenge),
            ),
        ),
        _ => false,
    }
}

/// Decides the handshake from its outcome.
pub fn auth_decision(challenge: &str, token: &str, outcome: &AuthOutcome) -> (r: bool)
    ensures
        r == spec_auth_accepted(challenge@, token@, *outcome),
{
    match outcome {
        AuthOutcome::Response { hmac } => crate::auth::verify_hmac(
            challenge,
            token,
            hmac.as_str(),
        ),
        _ => false,
    }
}

/// Books the handshake result with the rate limiter: success clears the
/// address's record; any failure adds to it.
pub fn apply_auth_result(limiter: &mut RateLimiter, ip: u128, now_ms: u64, accepted: bool)
    requires
        old(limiter).wf(),
        now_ms + crate::auth::RATE_LIMIT_BLOCK_MS <= u64::MAX,
    ensures
        final(limiter).wf(),
        accepted ==> final(limiter)@ == old(limiter)@.remove(ip),
        !accepted ==> final(limiter)@ == spec_record_failure(old(limiter)@, ip, now_ms),
{
    if accepted {
        limiter.clear_auth_failures(ip);
    } else {
        limiter.record_auth_failure(ip, now_ms);
    }
}

// ---------------------------------------------------------------------------
// Request routing
// ---------------------------------------------------------------------------

/// What the session knows when routing an inbound message.
pub struct RouteCtx {
    pub has_pty_manager: bool,
    pub has_repo: bool,
}

/// The reaction to one inbound message: either a direct reply, or a piece of
/// outside work the runtime must perform, whose result comes back through
/// the reply builders below.
pub enum RouteAction {
    NoAction,
    Reply(WsMessage),
    WritePty { pty_id: u64, data: String },
    QueryGitStatus,
    ReadFile { path: String },
    Stage { paths: Vec<String> },
    Unstage { paths: Vec<String> },
    EmitComment(AddComment),
}

pub enum RouteActionV {
    NoAction,
    Reply(WsMessageV),
    WritePty { pty_id: u64, data: Seq<char> },
    QueryGitStatus,
    ReadFile { path: Seq<char> },
    Stage { paths: Seq<Seq<char>> },
    Unstage { paths: Seq<Seq<char>> },
    EmitComment { file_path: Seq<char>, line_number: u32, end_line: Option<u32>, content: Seq<char> },
}

impl View for RouteAction {
    type V = RouteActionV;

    open spec fn view(&self) -> RouteActionV {
        match self {
            RouteAction::NoAction => RouteActionV::NoAction,
            RouteAction::Reply(m) => RouteActionV::Reply(m@),
            RouteAction::WritePty { pty_id, data } => RouteActionV::WritePty {
                pty_id: *pty_id,
                data: data@,
            },
            RouteAction::QueryGitStatus => RouteActionV::QueryGitStatus,
            RouteAction::ReadFile { path } => RouteActionV::ReadFile { path: path@ },
            RouteAction::Stage { paths } => RouteActionV::Stage {
                paths: crate::protocol::strings_view(paths@),
            },
            RouteAction::Unstage { paths } => RouteActionV::Unstage {
                paths: crate::protocol::strings_view(paths@),
            },
            RouteAction::EmitComment(c) => RouteActionV::EmitComment {
                file_path: c.file_path@,
                line_number: c.line_number,
                end_line: c.end_line,
                content: c.content@,
            },
        }
    }
}

pub open spec fn spec_no_repo_error() -> WsMessageV {
    WsMessageV::Error { code: "NO_REPO"@, message: "repository path is not configured"@ }
}

pub open spec fn spec_invalid_message_error() -> WsMessageV {
    WsMessageV::Error { code: "INVALID_MESSAGE"@, message: "Unexpected message from client"@ }
}

/// The routing table: what each inbound message asks of the session.
pub open spec fn spec_route(m: WsMessageV, has_pty_manager: bool, has_repo: bool) -> RouteActionV {
    match m {
        WsMessageV::PtyInput { pty_id, data } => if has_pty_manager {
            RouteActionV::WritePty { pty_id, data }
        } else {
            RouteActionV::NoAction
        },
        WsMessageV::PtyResize { .. } => RouteActionV::NoAction,
        WsMessageV::GitStatusRequest => if has_repo {
            RouteActionV::QueryGitStatus
        } else {
            RouteActionV::Reply(spec_no_repo_error())
        },
        WsMessageV::FileContentRequest { path } => if has_repo {
            RouteActionV::ReadFile { path }
        } else {
            RouteActionV::Reply(spec_no_repo_error())
        },
        WsMessageV::GitStage { paths } => if has_repo {
            RouteActionV::Stage { paths }
        } else {
            RouteActionV::Reply(spec_no_repo_error())
        },
        WsMessageV::GitUnstage { paths } => if has_repo {
            RouteActionV::Unstage { paths }
        } else {
            RouteActionV::Reply(spec_no_repo_error())
        },
        WsMessageV::AddComment { file_path, line_number, end_line, content } => {
            RouteActionV::EmitComment { file_path, line_number, end_line, content }
        },
        _ => RouteActionV::Reply(spec_invalid_message_error()),
    }
}

/// Routes one decoded inbound message.  `pty_resize` is dropped on purpose:
/// a client resize must not distort the desktop terminal.
pub fn route_message(msg: WsMessage, ctx: &RouteCtx) -> (r: RouteAction)
    ensures
        r@ == spec_route(msg@, ctx.has_pty_manager, ctx.has_repo),
{
    match msg {
        WsMessage::PtyInput(p) => {
            if ctx.has_pty_manager {
                RouteAction::WritePty { pty_id: p.pty_id, data: p.data }
            } else {
                RouteAction::NoAction
            }
        },
        WsMessage::PtyResize(_) => RouteAction::NoAction,
        WsMessage::GitStatusRequest(_) => {
            if ctx.has_repo {
                RouteAction::QueryGitStatus
            } else {
                RouteAction::Reply(no_repo_error())
            }
        },
        WsMessage::FileContentRequest(p) => {
            if ctx.has_repo {
                RouteAction::ReadFile { path: p.path }
            } else {
                RouteAction::Reply(no_repo_error())
            }
        },
        WsMessage::GitStage(p) => {
            if ctx.has_repo {
                RouteAction::Stage { paths: p.paths }
            } else {
                RouteAction::Reply(no_repo_error())
            }
        },
        WsMessage::GitUnstage(p) => {
            if ctx.has_repo {
                RouteAction::Unstage { paths: p.paths }
            } else {
                RouteAction::Reply(no_repo_error())
            }
        },
        WsMessage::AddComment(c) => RouteAction::EmitComment(c),
        _ => RouteAction::Reply(invalid_message_error()),
    }
}

fn no_repo_error() -> (r: WsMessage)
    ensures
        r@ == spec_no_repo_error(),
{
    WsMessage::Error(
        ErrorMsg {
            code: "NO_REPO".to_owned(),
            message: "repository path is not configured".to_owned(),
        },
    )
}

fn invalid_message_error() -> (r: WsMessage)
    ensures
        r@ == spec_invalid_message_error(),
{
    WsMessage::Error(
        ErrorMsg {
            code: "INVALID_MESSAGE".to_owned(),
            message: "Unexpected message from client".to_owned(),
        },
    )
}

/// What the session does with one inbound text frame.
pub enum FrameStep {
    /// The frame could not be decoded: this error goes back to the client
    /// and the session continues.
    ParseError(WsMessage),
    /// The frame decoded; here is the reaction.
    Act(RouteAction),
}

/// Handles one inbound text frame: an undecodable frame — an unknown tag
/// included — yields a `PARSE_ERROR` reply and nothing else; a decoded
/// frame is routed.
pub fn on_text_frame(text: &str, ctx: &RouteCtx) -> (r: FrameStep)
    ensures
        match dec_msg(text@) {
            Option::None => r matches FrameStep::ParseError(e) && e@ == (WsMessageV::Error {
                code: "PARSE_ERROR"@,
                message: "Invalid message format"@,
            }),
            Option::Some(m) => r matches FrameStep::Act(a) && a@ == spec_route(
                m,
                ctx.has_pty_manager,
                ctx.has_repo,
            ),
        },
{
    match crate::protocol::deserialize_message(text) {
        Result::Ok(m) => FrameStep::Act(route_message(m, ctx)),
        Result::Err(_) => FrameStep::ParseError(
            WsMessage::Error(
                ErrorMsg {
                    code: "PARSE_ERROR".to_owned(),
                    message: "Invalid message format".to_owned(),
                },
            ),
        ),
    }
}

// ---------------------------------------------------------------------------
// Reply builders for outside work
// ---------------------------------------------------------------------------

/// The reply after forwarding input to the PTY: errors are reported, success
/// is silent.
pub fn pty_write_reply(result: Result<(), String>) -> (r: Option<WsMessage>)
    ensures
        match result {
            Result::Ok(_) => r is None,
            Result::Err(e) => r matches Some(m) && m@ == (WsMessageV::Error {
                code: "PTY_WRITE_ERROR"@,
                message: e@,
            }),
        },
{
    match result {
        Result::Ok(_) => Option::None,
        Result::Err(e) => Option::Some(
            WsMessage::Error(ErrorMsg { code: "PTY_WRITE_ERROR".to_owned(), message: e }),
        ),
    }
}

/// The git-status reply: a failed status query is reported as an empty list.
pub fn git_status_reply(status: Result<Vec<GitFileStatusMsg>, String>) -> (r: WsMessage)
    ensures
        match status {
            Result::Ok(files) => r@ == (WsMessageV::GitStatusSync {
                files: crate::protocol::files_view(files@),
            }),
            Result::Err(_) => r@ == (WsMessageV::GitStatusSync { files: Seq::empty() }),
        },
{
    match status {
        Result::Ok(files) => WsMessage::GitStatusSync(GitStatusSync { files }),
        Result::Err(_) => {
            let r = WsMessage::GitStatusSync(GitStatusSync { files: Vec::new() });
            assert(crate::protocol::files_view(Seq::<GitFileStatusMsg>::empty())
                =~= Seq::<GitFileStatusV>::empty());
            r
        },
    }
}

/// Decides whether a `file_content_request` may touch the filesystem.  A
/// rejected path yields the `INVALID_PATH` error and nothing is read.
pub fn file_content_plan(path: &str, canon: &CanonOutcome) -> (r: Result<(), WsMessage>)
    ensures
        r is Ok <==> spec_path_ok(path@, *canon),
        r matches Err(m) ==> m@ == (WsMessageV::Error {
            code: "INVALID_PATH"@,
            message: spec_path_err(path@, *canon),
        }),
{
    match validate_relative_path(path, canon) {
        Result::Ok(_) => Result::Ok(()),
        Result::Err(e) => Result::Err(
            WsMessage::Error(ErrorMsg { code: "INVALID_PATH".to_owned(), message: e }),
        ),
    }
}

/// Builds the `file_content_response` once both file versions were read;
/// a missing side becomes the empty string.
pub fn file_content_reply(path: String, original: Option<String>, modified: Option<String>) -> (r:
    WsMessage)
    ensures
        r@ == (WsMessageV::FileContentResponse {
            path: path@,
            original: match original {
                Option::Some(t) => t@,
                Option::None => Seq::empty(),
            },
            modified: match modified {
                Option::Some(t) => t@,
                Option::None => Seq::empty(),
            },
        }),
{
    let orig = match original {
        Option::Some(t) => t,
        Option::None => String::new(),
    };
    let modi = match modified {
        Option::Some(t) => t,
        Option::None => String::new(),
    };
    WsMessage::FileContentResponse(
        FileContentResponse { path, original: orig, modified: modi },
    )
}

/// The first path in the batch that the guard refuses, if any.
pub open spec fn spec_first_invalid(paths: Seq<String>, canons: Seq<CanonOutcome>) -> Option<int>
    decreases paths.len(),
{
    if paths.len() == 0 {
        Option::None
    } else if !spec_path_ok(paths[0]@, canons[0]) {
        Option::Some(0)
    } else {
        match spec_first_invalid(paths.skip(1), canons.skip(1)) {
            Option::Some(i) => Option::Some(i + 1),
            Option::None => Option::None,
        }
    }
}

/// Validates every path of a `git_stage` / `git_unstage` batch.  The first
/// rejected path aborts the whole request with a failed stage result; no
/// provider call may be made in that case.
pub fn stage_guard(paths: &Vec<String>, canons: &Vec<CanonOutcome>) -> (r: Result<(), WsMessage>)
    requires
        paths@.len() == canons@.len(),
    ensures
        r is Ok <==> spec_first_invalid(paths@, canons@) is None,
        r matches Err(m) ==> spec_first_invalid(paths@, canons@) matches Some(i) && m@ == (
        WsMessageV::GitStageResult {
            success: false,
            error: Option::Some(spec_path_err(paths@[i]@, canons@[i])),
            files: Seq::empty(),
        }),
{
    proof {
        assert(paths@.skip(0) =~= paths@);
        assert(canons@.skip(0) =~= canons@);
    }
    let mut i: usize = 0;
    while i < paths.len()
        invariant
            i <= paths@.len() == canons@.len(),
            forall|k: int| 0 <= k < i ==> spec_path_ok((#[trigger] paths@[k])@, canons@[k]),
            spec_first_invalid(paths@.skip(i as int), canons@.skip(i as int)) matches Option::Some(
                j,
            ) ==> spec_first_invalid(paths@, canons@) == Option::Some(j + i),
            spec_first_invalid(paths@.skip(i as int), canons@.skip(i as int)) is None
                ==> spec_first_invalid(paths@, canons@) is None,
        decreases paths@.len() - i,
    {
        proof {
            assert(paths@.skip(i as int)[0] == paths@[i as int]);
            assert(canons@.skip(i as int)[0] == canons@[i as int]);
            assert(paths@.skip(i as int).skip(1) =~= paths@.skip(i as int + 1));
            assert(canons@.skip(i as int).skip(1) =~= canons@.skip(i as int + 1));
        }
        match validate_relative_path(paths[i].as_str(), &canons[i]) {
            Result::Ok(_) => {},
            Result::Err(e) => {
                let files: Vec<GitFileStatusMsg> = Vec::new();
                assert(crate::protocol::files_view(Seq::<GitFileStatusMsg>::empty())
                    =~= Seq::<GitFileStatusV>::empty());
                return Result::Err(
                    WsMessage::GitStageResult(
                        crate::protocol::GitStageResult {
                            success: false,
                            error: Option::Some(e),
                            files,
                        },
                    ),
                );
            },
        }
        i = i + 1;
    }
    proof {
        assert(paths@.skip(paths@.len() as int).len() == 0);
    }
    Result::Ok(())
}

/// Builds the reply and the broadcast after the provider staged or unstaged.
/// On success the freshly re-read status goes both into the direct reply and
/// into a `git_status_sync` broadcast — the same file list in both.
pub fn stage_result_messages(
    result: Result<(), String>,
    status: Result<Vec<GitFileStatusMsg>, String>,
) -> (r: (WsMessage, Option<WsMessage>))
    ensures
        match result {
            Result::Err(e) => r.0@ == (WsMessageV::GitStageResult {
                success: false,
                error: Option::Some(e@),
                files: Seq::empty(),
            }) && r.1 is None,
            Result::Ok(_) => {
                let files = match status {
                    Result::Ok(fs) => crate::protocol::files_view(fs@),
                    Result::Err(_) => Seq::empty(),
                };
                &&& r.0@ == (WsMessageV::GitStageResult {
                    success: true,
                    error: Option::None,
                    files: files,
                })
                &&& r.1 matches Some(b) && b@ == (WsMessageV::GitStatusSync { files: files })
            },
        },
{
    match result {
        Result::Err(e) => {
            let files: Vec<GitFileStatusMsg> = Vec::new();
            assert(crate::protocol::files_view(Seq::<GitFileStatusMsg>::empty())
                =~= Seq::<GitFileStatusV>::empty());
            (
                WsMessage::GitStageResult(
                    crate::protocol::GitStageResult {
                        success: false,
                        error: Option::Some(e),
                        files,
                    },
                ),
                Option::None,
            )
        },
        Result::Ok(_) => {
            let files: Vec<GitFileStatusMsg> = match status {
                Result::Ok(fs) => fs,
                Result::Err(_) => Vec::new(),
            };
            let files2 = clone_files(&files);
            assert(crate::protocol::files_view(Seq::<GitFileStatusMsg>::empty())
                =~= Seq::<GitFileStatusV>::empty());
            (
                WsMessage::GitStageResult(
                    crate::protocol::GitStageResult {
                        success: true,
                        error: Option::None,
                        files,
                    },
                ),
                Option::Some(WsMessage::GitStatusSync(GitStatusSync { files: files2 })),
            )
        },
    }
}

fn clone_files(files: &Vec<GitFileStatusMsg>) -> (r: Vec<GitFileStatusMsg>)
    ensures
        crate::protocol::files_view(r@) == crate::protocol::files_view(files@),
{
    let mut out: Vec<GitFileStatusMsg> = Vec::new();
    let mut i: usize = 0;
    while i < files.len()
        invariant
            i <= files@.len(),
            out@.len() == i,
            forall|k: int| 0 <= k < i ==> (#[trigger] out@[k])@ == files@[k]@,
        decreases files@.len() - i,
    {
        let f = &files[i];
        let g = GitFileStatusMsg {
            path: clone_string(&f.path),
            index_status: clone_string(&f.index_status),
            worktree_status: clone_string(&f.worktree_status),
        };
        assert(g@ == files@[i as int]@);
        out.push(g);
        i = i + 1;
    }
    proof {
        let lhs = crate::protocol::files_view(out@);
        let rhs = crate::protocol::files_view(files@);
        assert forall|k: int| 0 <= k < lhs.len() implies lhs[k] == rhs[k] by {
            assert(lhs[k] == out@[k]@);
            assert(rhs[k] == files@[k]@);
        }
        assert(lhs =~= rhs);
    }
    out
}

fn clone_string(s: &String) -> (r: String)
    ensures
        r@ == s@,
{
    crate::strutil::chars_to_string(&chars_vec(s.as_str()))
}

// ---------------------------------------------------------------------------
// Attach sequence
// ---------------------------------------------------------------------------

/// The messages sent right after a successful handshake, in order:
/// `pty_ready` with the active terminal's size (80×24 when unknown), then
/// one `pty_output` replaying the ring if it holds anything — or a single
/// `NO_PTY` error if a manager is present but no terminal runs; then the
/// initial `git_status_sync` when a repository is configured.
pub open spec fn spec_attach_messages(
    manager_present: bool,
    pty: Option<(u64, Option<(u16, u16)>)>,
    replay: Seq<char>,
    git: Option<Seq<GitFileStatusV>>,
) -> Seq<WsMessageV> {
    let pty_part: Seq<WsMessageV> = if manager_present {
        match pty {
            Option::Some((pty_id, size)) => {
                let cols = match size {
                    Option::Some((c, r)) => c,
                    Option::None => 80u16,
                };
                let rows = match size {
                    Option::Some((c, r)) => r,
                    Option::None => 24u16,
                };
                let ready = seq![WsMessageV::PtyReady { pty_id, cols, rows }];
                if replay.len() > 0 {
                    ready + seq![WsMessageV::PtyOutput { pty_id, data: replay }]
                } else {
                    ready
                }
            },
            Option::None => seq![
                WsMessageV::Error {
                    code: "NO_PTY"@,
                    message: "the desktop terminal is not running yet"@,
                },
            ],
        }
    } else {
        Seq::empty()
    };
    let git_part: Seq<WsMessageV> = match git {
        Option::Some(files) => seq![WsMessageV::GitStatusSync { files }],
        Option::None => Seq::empty(),
    };
    pty_part + git_part
}

/// Builds the attach sequence.  `pty` is the active terminal and its size
/// query result; `replay` is the ring's contents; `git` is the fresh status
/// snapshot when a repository is configured.
pub fn attach_messages(
    manager_present: bool,
    pty: Option<(u64, Option<(u16, u16)>)>,
    replay: String,
    git: Option<Vec<GitFileStatusMsg>>,
) -> (r: Vec<WsMessage>)
    ensures
        r@.map_values(|m: WsMessage| m@) == spec_attach_messages(
            manager_present,
            pty,
            replay@,
            match git {
                Option::Some(fs) => Option::Some(crate::protocol::files_view(fs@)),
                Option::None => Option::None,
            },
        ),
{
    let mut out: Vec<WsMessage> = Vec::new();
    if manager_present {
        match pty {
            Option::Some((pty_id, size)) => {
                let (cols, rows): (u16, u16) = match size {
                    Option::Some((c, r)) => (c, r),
                    Option::None => (80, 24),
                };
                out.push(WsMessage::PtyReady(PtyReady { pty_id, cols, rows }));
                let rv = chars_vec(replay.as_str());
                if rv.len() > 0 {
                    out.push(WsMessage::PtyOutput(PtyOutputMsg { pty_id, data: replay }));
                }
            },
            Option::None => {
                out.push(
                    WsMessage::Error(
                        ErrorMsg {
                            code: "NO_PTY".to_owned(),
                            message: "the desktop terminal is not running yet".to_owned(),
                        },
                    ),
                );
            },
        }
    }
    match git {
        Option::Some(files) => {
            out.push(WsMessage::GitStatusSync(GitStatusSync { files }));
        },
        Option::None => {},
    }
    assert(out@.map_values(|m: WsMessage| m@) =~= spec_attach_messages(
        manager_present,
        pty,
        replay@,
        match git {
            Option::Some(fs) => Option::Some(crate::protocol::files_view(fs@)),
            Option::None => Option::None,
        },
    ));
    out
}

// ---------------------------------------------------------------------------
// Front door
// ---------------------------------------------------------------------------

/// The content type served for a static asset, by file extension.
pub open spec fn spec_content_type(path: Seq<char>) -> Seq<char> {
    if crate::strutil::spec_ends_with(path, ".html"@) {
        "text/html; charset=utf-8"@
    } else if crate::strutil::spec_ends_with(path, ".js"@) {
        "application/javascript; charset=utf-8"@
    } else if crate::strutil::spec_ends_with(path, ".css"@) {
        "text/css; charset=utf-8"@
    } else if crate::strutil::spec_ends_with(path, ".json"@) {
        "application/json"@
    } else if crate::strutil::spec_ends_with(path, ".svg"@) {
        "image/svg+xml"@
    } else if crate::strutil::spec_ends_with(path, ".png"@) {
        "image/png"@
    } else if crate::strutil::spec_ends_with(path, ".ico"@) {
        "image/x-icon"@
    } else if crate::strutil::spec_ends_with(path, ".woff2"@) {
        "font/woff2"@
    } else {
        "application/octet-stream"@
    }
}

pub fn content_type_for(path: &str) -> (r: &'static str)
    ensures
        r@ == spec_content_type(path@),
{
    let pv = chars_vec(path);
    if crate::strutil::ends_with_str(&pv, ".html") {
        "text/html; charset=utf-8"
    } else if crate::strutil::ends_with_str(&pv, ".js") {
        "application/javascript; charset=utf-8"
    } else if crate::strutil::ends_with_str(&pv, ".css") {
        "text/css; charset=utf-8"
    } else if crate::strutil::ends_with_str(&pv, ".json") {
        "application/json"
    } else if crate::strutil::ends_with_str(&pv, ".svg") {
        "image/svg+xml"
    } else if crate::strutil::ends_with_str(&pv, ".png") {
        "image/png"
    } else if crate::strutil::ends_with_str(&pv, ".ico") {
        "image/x-icon"
    } else if crate::strutil::ends_with_str(&pv, ".woff2") {
        "font/woff2"
    } else {
        "application/octet-stream"
    }
}

/// The request path with every leading slash removed.
pub open spec fn spec_skip_slashes(p: Seq<char>) -> Seq<char>
    decreases p.len(),
{
    if p.len() > 0 && p[0] == '/' {
        spec_skip_slashes(p.skip(1))
    } else {
        p
    }
}

/// Which file of the asset directory an HTTP path asks for: the root maps
/// to the app shell, anything else is taken relative to the directory.
pub open spec fn spec_pwa_file(p: Seq<char>) -> Seq<char> {
    if p == "/"@ || p.len() == 0 {
        "pwa.html"@
    } else {
        spec_skip_slashes(p)
    }
}

pub fn resolve_pwa_request(path: &str) -> (r: String)
    ensures
        r@ == spec_pwa_file(path@),
{
    let pv = chars_vec(path);
    if pv.len() == 0 {
        return "pwa.html".to_owned();
    }
    if pv.len() == 1 && pv[0] == '/' {
        proof {
            assert(path@ =~= "/"@) by {
                reveal_strlit("/");
            }
        }
        return "pwa.html".to_owned();
    }
    proof {
        reveal_strlit("/");
        if path@ == "/"@ {
            assert(path@.len() == 1 && path@[0] == '/');
        }
    }
    let mut a: usize = 0;
    assert(path@.skip(0) =~= path@);
    while a < pv.len() && pv[a] == '/'
        invariant
            a <= pv@.len(),
            pv@ == path@,
            spec_skip_slashes(path@) == spec_skip_slashes(path@.skip(a as int)),
        decreases pv@.len() - a,
    {
        assert(path@.skip(a as int)[0] == path@[a as int]);
        assert(path@.skip(a as int).skip(1) =~= path@.skip(a as int + 1));
        a = a + 1;
    }
    let mut out: Vec<char> = Vec::new();
    let mut k: usize = a;
    while k < pv.len()
        invariant
            a <= k <= pv@.len(),
            pv@ == path@,
            out@ == path@.subrange(a as int, k as int),
        decreases pv@.len() - k,
    {
        out.push(pv[k]);
        assert(out@ =~= path@.subrange(a as int, k + 1 as int));
        k = k + 1;
    }
    proof {
        if a < path@.len() {
            assert(path@.skip(a as int)[0] == path@[a as int]);
        }
        assert(spec_skip_slashes(path@.skip(a as int)) == path@.skip(a as int));
        assert(out@ =~= path@.skip(a as int));
    }
    chars_to_string(&out)
}

/// Whether the server may start with this bind and TLS setting: listening
/// on every interface without TLS is refused.
pub fn start_permitted(bind: &str, tls_enabled: bool) -> (r: bool)
    ensures
        r == !((bind@ == "0.0.0.0"@ || bind@ == "any"@) && !tls_enabled),
{
    let bv = chars_vec(bind);
    !((crate::strutil::chars_eq_str(&bv, "0.0.0.0") || crate::strutil::chars_eq_str(&bv, "any"))
        && !tls_enabled)
}

/// The address actually bound for a configured value: the wildcard name
/// becomes the wildcard address.
pub fn effective_bind(bind: &str) -> (r: String)
    ensures
        bind@ == "any"@ ==> r@ == "0.0.0.0"@,
        bind@ != "any"@ ==> r@ == bind@,
{
    let bv = chars_vec(bind);
    if crate::strutil::chars_eq_str(&bv, "any") {
        "0.0.0.0".to_owned()
    } else {
        chars_to_string(&bv)
    }
}

/// The supervisor's handle on the running server.
pub struct WsServerHandle {
    running: bool,
    active_bind: Option<String>,
    tls_enabled: bool,
}

impl WsServerHandle {
    pub closed spec fn running(&self) -> bool {
        self.running
    }

    pub closed spec fn bind_view(&self) -> Option<Seq<char>> {
        match self.active_bind {
            Option::Some(b) => Option::Some(b@),
            Option::None => Option::None,
        }
    }

    pub closed spec fn tls(&self) -> bool {
        self.tls_enabled
    }

    pub fn new() -> (r: WsServerHandle)
        ensures
            !r.running(),
            r.bind_view() is None,
            !r.tls(),
    {
        WsServerHandle { running: false, active_bind: Option::None, tls_enabled: false }
    }

    /// The address the running server is bound to, if any.
    pub fn active_bind(&self) -> (r: Option<String>)
        ensures
            match r {
                Option::Some(b) => self.bind_view() matches Some(v) && b@ == v,
                Option::None => self.bind_view() is None,
            },
    {
        match &self.active_bind {
            Option::Some(b) => Option::Some(crate::strutil::copy_string(b)),
            Option::None => Option::None,
        }
    }

    pub fn is_tls_enabled(&self) -> (r: bool)
        ensures
            r == self.tls(),
    {
        self.tls_enabled
    }

    pub fn get_server_status(&self) -> (r: bool)
        ensures
            r == self.running(),
    {
        self.running
    }

    /// Books a successful start.  A second start while running is refused
    /// and changes nothing.
    pub fn mark_started(&mut self, bind: String, tls_enabled: bool) -> (r: Result<(), String>)
        ensures
            old(self).running() ==> (r is Err && *final(self) == *old(self)),
            !old(self).running() ==> (r is Ok && final(self).running() && (final(self).bind_view()
                matches Some(b) && b == bind@) && final(self).tls() == tls_enabled),
    {
        if self.running {
            return Result::Err("the server is already running".to_owned());
        }
        self.running = true;
        self.active_bind = Option::Some(bind);
        self.tls_enabled = tls_enabled;
        Result::Ok(())
    }

    /// Books a stop: succeeds exactly when the server was running, and
    /// clears the handle.
    pub fn mark_stopped(&mut self) -> (r: Result<(), String>)
        ensures
            old(self).running() ==> (r is Ok && !final(self).running() && (final(self).bind_view()
                is None) && !final(self).tls()),
            !old(self).running() ==> (r is Err && *final(self) == *old(self)),
    {
        if !self.running {
            return Result::Err("the server is not running".to_owned());
        }
        self.running = false;
        self.active_bind = Option::None;
        self.tls_enabled = false;
        Result::Ok(())
    }
}

} // verus!
