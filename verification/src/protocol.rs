use vstd::prelude::*;

use crate::strutil::{
    chars_to_string, chars_vec, push_str_chars, push_u64, spec_dec_int, spec_dec_nat,
    spec_digit_char, spec_hex_digit, spec_hex_val, spec_is_digit, spec_is_hex_digit,
};

verus! {

broadcast use vstd::seq::group_seq_axioms;

// ---------------------------------------------------------------------------
// Wire message types
//
// Every frame on the control channel is one JSON object with an outer tag
// `type` and an inner `payload`.  The codec below writes and reads the
// canonical form of that object: fields in declaration order, no extra
// whitespace, strings escaped minimally (`\"`, `\\`, and `\u00XX` for
// control characters).
// ---------------------------------------------------------------------------

#[derive(Debug, Clone)]
pub struct AuthChallenge {
    pub challenge: String,
}

#[derive(Debug, Clone)]
pub struct AuthResponse {
    pub hmac: String,
}

#[derive(Debug, Clone)]
pub struct AuthResult {
    pub success: bool,
    pub message: Option<String>,
}

#[derive(Debug, Clone)]
pub struct PtyOutputMsg {
    pub pty_id: u64,
    pub data: String,
}

#[derive(Debug, Clone)]
pub struct PtyExitMsg {
    pub pty_id: u64,
    pub exit_code: Option<i32>,
}

#[derive(Debug, Clone)]
pub struct PtyInput {
    pub pty_id: u64,
    pub data: String,
}

#[derive(Debug, Clone)]
pub struct PtyResize {
    pub pty_id: u64,
    pub rows: u16,
    pub cols: u16,
}

#[derive(Debug, Clone)]
pub struct PtyReady {
    pub pty_id: u64,
    pub cols: u16,
    pub rows: u16,
}

#[derive(Debug, Clone)]
pub struct GitFileStatusMsg {
    pub path: String,
    pub index_status: String,
    pub worktree_status: String,
}

#[derive(Debug, Clone)]
pub struct GitStatusSync {
    pub files: Vec<GitFileStatusMsg>,
}

#[derive(Debug, Clone)]
pub struct FileContentRequest {
    pub path: String,
}

#[derive(Debug, Clone)]
pub struct FileContentResponse {
    pub path: String,
    pub original: String,
    pub modified: String,
}

#[derive(Debug, Clone)]
pub struct FileChange {
    pub path: String,
    pub kind: String,
}

#[derive(Debug, Clone)]
pub struct GitStatusRequest {}

#[derive(Debug, Clone)]
pub struct GitStage {
    pub paths: Vec<String>,
}

#[derive(Debug, Clone)]
pub struct GitUnstage {
    pub paths: Vec<String>,
}

#[derive(Debug, Clone)]
pub struct GitStageResult {
    pub success: bool,
    pub error: Option<String>,
    pub files: Vec<GitFileStatusMsg>,
}

#[derive(Debug, Clone)]
pub struct AddComment {
    pub file_path: String,
    pub line_number: u32,
    pub end_line: Option<u32>,
    pub content: String,
}

/// A comment on a file; `created_at` counts whole seconds since the Unix epoch.
#[derive(Debug, Clone)]
pub struct CommentItem {
    pub id: String,
    pub file_path: String,
    pub line_number: u32,
    pub end_line: Option<u32>,
    pub content: String,
    pub status: String,
    pub created_at: u64,
}

#[derive(Debug, Clone)]
pub struct CommentSync {
    pub comments: Vec<CommentItem>,
}

#[derive(Debug, Clone)]
pub struct ErrorMsg {
    pub code: String,
    pub message: String,
}

#[derive(Debug, Clone)]
pub enum WsMessage {
    AuthChallenge(AuthChallenge),
    AuthResponse(AuthResponse),
    AuthResult(AuthResult),
    PtyOutput(PtyOutputMsg),
    PtyExit(PtyExitMsg),
    PtyInput(PtyInput),
    PtyResize(PtyResize),
    PtyReady(PtyReady),
    GitStatusSync(GitStatusSync),
    FileContentRequest(FileContentRequest),
    FileContentResponse(FileContentResponse),
    FileChange(FileChange),
    GitStatusRequest(GitStatusRequest),
    GitStage(GitStage),
    GitUnstage(GitUnstage),
    GitStageResult(GitStageResult),
    AddComment(AddComment),
    CommentsSync(CommentSync),
    Error(ErrorMsg),
}

// ---------------------------------------------------------------------------
// Mathematical views of the messages
// ---------------------------------------------------------------------------

pub struct GitFileStatusV {
    pub path: Seq<char>,
    pub index_status: Seq<char>,
    pub worktree_status: Seq<char>,
}

pub struct CommentItemV {
    pub id: Seq<char>,
    pub file_path: Seq<char>,
    pub line_number: u32,
    pub end_line: Option<u32>,
    pub content: Seq<char>,
    pub status: Seq<char>,
    pub created_at: u64,
}

pub enum WsMessageV {
    AuthChallenge { challenge: Seq<char> },
    AuthResponse { hmac: Seq<char> },
    AuthResult { success: bool, message: Option<Seq<char>> },
    PtyOutput { pty_id: u64, data: Seq<char> },
    PtyExit { pty_id: u64, exit_code: Option<i32> },
    PtyInput { pty_id: u64, data: Seq<char> },
    PtyResize { pty_id: u64, rows: u16, cols: u16 },
    PtyReady { pty_id: u64, cols: u16, rows: u16 },
    GitStatusSync { files: Seq<GitFileStatusV> },
    FileContentRequest { path: Seq<char> },
    FileContentResponse { path: Seq<char>, original: Seq<char>, modified: Seq<char> },
    FileChange { path: Seq<char>, kind: Seq<char> },
    GitStatusRequest,
    GitStage { paths: Seq<Seq<char>> },
    GitUnstage { paths: Seq<Seq<char>> },
    GitStageResult { success: bool, error: Option<Seq<char>>, files: Seq<GitFileStatusV> },
    AddComment { file_path: Seq<char>, line_number: u32, end_line: Option<u32>, content: Seq<char> },
    CommentsSync { comments: Seq<CommentItemV> },
    Error { code: Seq<char>, message: Seq<char> },
}

impl View for GitFileStatusMsg {
    type V = GitFileStatusV;

    open spec fn view(&self) -> GitFileStatusV {
        GitFileStatusV {
            path: self.path@,
            index_status: self.index_status@,
            worktree_status: self.worktree_status@,
        }
    }
}

impl View for CommentItem {
    type V = CommentItemV;

    open spec fn view(&self) -> CommentItemV {
        CommentItemV {
            id: self.id@,
            file_path: self.file_path@,
            line_number: self.line_number,
            end_line: self.end_line,
            content: self.content@,
            status: self.status@,
            created_at: self.created_at,
        }
    }
}

pub open spec fn opt_string_view(o: Option<String>) -> Option<Seq<char>> {
    match o {
        Option::Some(s) => Option::Some(s@),
        Option::None => Option::None,
    }
}

pub open spec fn files_view(v: Seq<GitFileStatusMsg>) -> Seq<GitFileStatusV> {
    v.map_values(|f: GitFileStatusMsg| f@)
}

pub open spec fn strings_view(v: Seq<String>) -> Seq<Seq<char>> {
    v.map_values(|s: String| s@)
}

pub open spec fn comments_view(v: Seq<CommentItem>) -> Seq<CommentItemV> {
    v.map_values(|c: CommentItem| c@)
}

impl View for WsMessage {
    type V = WsMessageV;

    open spec fn view(&self) -> WsMessageV {
        match self {
            WsMessage::AuthChallenge(p) => WsMessageV::AuthChallenge { challenge: p.challenge@ },
            WsMessage::AuthResponse(p) => WsMessageV::AuthResponse { hmac: p.hmac@ },
            WsMessage::AuthResult(p) => WsMessageV::AuthResult {
                success: p.success,
                message: opt_string_view(p.message),
            },
            WsMessage::PtyOutput(p) => WsMessageV::PtyOutput { pty_id: p.pty_id, data: p.data@ },
            WsMessage::PtyExit(p) => WsMessageV::PtyExit {
                pty_id: p.pty_id,
                exit_code: p.exit_code,
            },
            WsMessage::PtyInput(p) => WsMessageV::PtyInput { pty_id: p.pty_id, data: p.data@ },
            WsMessage::PtyResize(p) => WsMessageV::PtyResize {
                pty_id: p.pty_id,
                rows: p.rows,
                cols: p.cols,
            },
            WsMessage::PtyReady(p) => WsMessageV::PtyReady {
                pty_id: p.pty_id,
                cols: p.cols,
                rows: p.rows,
            },
            WsMessage::GitStatusSync(p) => WsMessageV::GitStatusSync { files: files_view(p.files@) },
            WsMessage::FileContentRequest(p) => WsMessageV::FileContentRequest { path: p.path@ },
            WsMessage::FileContentResponse(p) => WsMessageV::FileContentResponse {
                path: p.path@,
                original: p.original@,
                modified: p.modified@,
            },
            WsMessage::FileChange(p) => WsMessageV::FileChange { path: p.path@, kind: p.kind@ },
            WsMessage::GitStatusRequest(_) => WsMessageV::GitStatusRequest,
            WsMessage::GitStage(p) => WsMessageV::GitStage { paths: strings_view(p.paths@) },
            WsMessage::GitUnstage(p) => WsMessageV::GitUnstage { paths: strings_view(p.paths@) },
            WsMessage::GitStageResult(p) => WsMessageV::GitStageResult {
                success: p.success,
                error: opt_string_view(p.error),
                files: files_view(p.files@),
            },
            WsMessage::AddComment(p) => WsMessageV::AddComment {
                file_path: p.file_path@,
                line_number: p.line_number,
                end_line: p.end_line,
                content: p.content@,
            },
            WsMessage::CommentsSync(p) => WsMessageV::CommentsSync {
                comments: comments_view(p.comments@),
            },
            WsMessage::Error(p) => WsMessageV::Error { code: p.code@, message: p.message@ },
        }
    }
}

// ---------------------------------------------------------------------------
// Canonical encoding, as a mathematical function
// ---------------------------------------------------------------------------

/// The escape sequence that a single character is written as inside a JSON
/// string: `"` and `\` get a backslash, control characters become `\u00XX`
/// with lowercase hex digits, and everything else stands for itself.
pub open spec fn esc_char(c: char) -> Seq<char> {
    if c == '"' {
        seq!['\\', '"']
    } else if c == '\\' {
        seq!['\\', '\\']
    } else if (c as int) < 32 {
        seq!['\\', 'u', '0', '0', spec_hex_digit(c as int / 16), spec_hex_digit(c as int % 16)]
    } else {
        seq![c]
    }
}

pub open spec fn esc_str(t: Seq<char>) -> Seq<char>
    decreases t.len(),
{
    if t.len() == 0 {
        Seq::empty()
    } else {
        esc_char(t[0]) + esc_str(t.skip(1))
    }
}

/// A JSON string: quote, escaped contents, quote.
pub open spec fn enc_str(t: Seq<char>) -> Seq<char> {
    seq!['"'] + esc_str(t) + seq!['"']
}

pub open spec fn enc_u64(n: u64) -> Seq<char> {
    spec_dec_nat(n as nat)
}

pub open spec fn enc_i32(n: i32) -> Seq<char> {
    spec_dec_int(n as int)
}

pub open spec fn enc_bool(b: bool) -> Seq<char> {
    if b {
        "true"@
    } else {
        "false"@
    }
}

pub open spec fn enc_str_items(ts: Seq<Seq<char>>) -> Seq<char>
    decreases ts.len(),
{
    if ts.len() == 0 {
        Seq::empty()
    } else if ts.len() == 1 {
        enc_str(ts[0])
    } else {
        enc_str(ts[0]) + seq![','] + enc_str_items(ts.skip(1))
    }
}

pub open spec fn enc_str_list(ts: Seq<Seq<char>>) -> Seq<char> {
    seq!['['] + enc_str_items(ts) + seq![']']
}

pub open spec fn enc_file(f: GitFileStatusV) -> Seq<char> {
    "{\"path\":"@ + enc_str(f.path) + ",\"index_status\":"@ + enc_str(f.index_status)
        + ",\"worktree_status\":"@ + enc_str(f.worktree_status) + "}"@
}

pub open spec fn enc_file_items(fs: Seq<GitFileStatusV>) -> Seq<char>
    decreases fs.len(),
{
    if fs.len() == 0 {
        Seq::empty()
    } else if fs.len() == 1 {
        enc_file(fs[0])
    } else {
        enc_file(fs[0]) + seq![','] + enc_file_items(fs.skip(1))
    }
}

pub open spec fn enc_file_list(fs: Seq<GitFileStatusV>) -> Seq<char> {
    seq!['['] + enc_file_items(fs) + seq![']']
}

pub open spec fn enc_comment(c: CommentItemV) -> Seq<char> {
    "{\"id\":"@ + enc_str(c.id) + ",\"file_path\":"@ + enc_str(c.file_path) + ",\"line_number\":"@
        + enc_u64(c.line_number as u64) + (match c.end_line {
        Option::Some(e) => ",\"end_line\":"@ + enc_u64(e as u64),
        Option::None => Seq::empty(),
    }) + ",\"content\":"@ + enc_str(c.content) + ",\"status\":"@ + enc_str(c.status)
        + ",\"created_at\":"@ + enc_u64(c.created_at) + "}"@
}

pub open spec fn enc_comment_items(cs: Seq<CommentItemV>) -> Seq<char>
    decreases cs.len(),
{
    if cs.len() == 0 {
        Seq::empty()
    } else if cs.len() == 1 {
        enc_comment(cs[0])
    } else {
        enc_comment(cs[0]) + seq![','] + enc_comment_items(cs.skip(1))
    }
}

pub open spec fn enc_comment_list(cs: Seq<CommentItemV>) -> Seq<char> {
    seq!['['] + enc_comment_items(cs) + seq![']']
}

pub open spec fn enc_payload(m: WsMessageV) -> Seq<char> {
    match m {
        WsMessageV::AuthChallenge { challenge } => "{\"challenge\":"@ + enc_str(challenge) + "}"@,
        WsMessageV::AuthResponse { hmac } => "{\"hmac\":"@ + enc_str(hmac) + "}"@,
        WsMessageV::AuthResult { success, message } => "{\"success\":"@ + enc_bool(success)
            + (match message {
            Option::Some(t) => ",\"message\":"@ + enc_str(t),
            Option::None => Seq::empty(),
        }) + "}"@,
        WsMessageV::PtyOutput { pty_id, data } => "{\"pty_id\":"@ + enc_u64(pty_id) + ",\"data\":"@
            + enc_str(data) + "}"@,
        WsMessageV::PtyExit { pty_id, exit_code } => "{\"pty_id\":"@ + enc_u64(pty_id)
            + (match exit_code {
            Option::Some(e) => ",\"exit_code\":"@ + enc_i32(e),
            Option::None => Seq::empty(),
        }) + "}"@,
        WsMessageV::PtyInput { pty_id, data } => "{\"pty_id\":"@ + enc_u64(pty_id) + ",\"data\":"@
            + enc_str(data) + "}"@,
        WsMessageV::PtyResize { pty_id, rows, cols } => "{\"pty_id\":"@ + enc_u64(pty_id)
            + ",\"rows\":"@ + enc_u64(rows as u64) + ",\"cols\":"@ + enc_u64(cols as u64) + "}"@,
        WsMessageV::PtyReady { pty_id, cols, rows } => "{\"pty_id\":"@ + enc_u64(pty_id)
            + ",\"cols\":"@ + enc_u64(cols as u64) + ",\"rows\":"@ + enc_u64(rows as u64) + "}"@,
        WsMessageV::GitStatusSync { files } => "{\"files\":"@ + enc_file_list(files) + "}"@,
        WsMessageV::FileContentRequest { path } => "{\"path\":"@ + enc_str(path) + "}"@,
        WsMessageV::FileContentResponse { path, original, modified } => "{\"path\":"@ + enc_str(
            path,
        ) + ",\"original\":"@ + enc_str(original) + ",\"modified\":"@ + enc_str(modified) + "}"@,
        WsMessageV::FileChange { path, kind } => "{\"path\":"@ + enc_str(path) + ",\"kind\":"@
            + enc_str(kind) + "}"@,
        WsMessageV::GitStatusRequest => "{}"@,
        WsMessageV::GitStage { paths } => "{\"paths\":"@ + enc_str_list(paths) + "}"@,
        WsMessageV::GitUnstage { paths } => "{\"paths\":"@ + enc_str_list(paths) + "}"@,
        WsMessageV::GitStageResult { success, error, files } => "{\"success\":"@ + enc_bool(success)
            + (match error {
            Option::Some(t) => ",\"error\":"@ + enc_str(t),
            Option::None => Seq::empty(),
        }) + ",\"files\":"@ + enc_file_list(files) + "}"@,
        WsMessageV::AddComment { file_path, line_number, end_line, content } => "{\"file_path\":"@
            + enc_str(file_path) + ",\"line_number\":"@ + enc_u64(line_number as u64) + (match end_line {
            Option::Some(e) => ",\"end_line\":"@ + enc_u64(e as u64),
            Option::None => Seq::empty(),
        }) + ",\"content\":"@ + enc_str(content) + "}"@,
        WsMessageV::CommentsSync { comments } => "{\"comments\":"@ + enc_comment_list(comments)
            + "}"@,
        WsMessageV::Error { code, message } => "{\"code\":"@ + enc_str(code) + ",\"message\":"@
            + enc_str(message) + "}"@,
    }
}

pub open spec fn tag_of(m: WsMessageV) -> Seq<char> {
    match m {
        WsMessageV::AuthChallenge { .. } => "auth_challenge"@,
        WsMessageV::AuthResponse { .. } => "auth_response"@,
        WsMessageV::AuthResult { .. } => "auth_result"@,
        WsMessageV::PtyOutput { .. } => "pty_output"@,
        WsMessageV::PtyExit { .. } => "pty_exit"@,
        WsMessageV::PtyInput { .. } => "pty_input"@,
        WsMessageV::PtyResize { .. } => "pty_resize"@,
        WsMessageV::PtyReady { .. } => "pty_ready"@,
        WsMessageV::GitStatusSync { .. } => "git_status_sync"@,
        WsMessageV::FileContentRequest { .. } => "file_content_request"@,
        WsMessageV::FileContentResponse { .. } => "file_content_response"@,
        WsMessageV::FileChange { .. } => "file_change"@,
        WsMessageV::GitStatusRequest => "git_status_request"@,
        WsMessageV::GitStage { .. } => "git_stage"@,
        WsMessageV::GitUnstage { .. } => "git_unstage"@,
        WsMessageV::GitStageResult { .. } => "git_stage_result"@,
        WsMessageV::AddComment { .. } => "add_comment"@,
        WsMessageV::CommentsSync { .. } => "comments_sync"@,
        WsMessageV::Error { .. } => "error"@,
    }
}

/// The canonical text of a whole frame.
pub open spec fn enc_msg(m: WsMessageV) -> Seq<char> {
    "{\"type\":\""@ + tag_of(m) + "\""@ + ",\"payload\":"@ + enc_payload(m) + "}"@
}

// ---------------------------------------------------------------------------
// The serializer
// ---------------------------------------------------------------------------

proof fn lemma_esc_str_snoc(t: Seq<char>, i: int)
    requires
        0 <= i < t.len(),
    ensures
        esc_str(t.subrange(0, i + 1)) == esc_str(t.subrange(0, i)) + esc_char(t[i]),
    decreases i,
{
    let pre = t.subrange(0, i + 1);
    if i == 0 {
        assert(pre.skip(1) =~= Seq::<char>::empty());
        assert(t.subrange(0, 0) =~= Seq::<char>::empty());
        assert(esc_str(pre) =~= esc_char(t[0]));
    } else {
        lemma_esc_str_snoc(t.skip(1), i - 1);
        assert(pre.skip(1) =~= t.skip(1).subrange(0, i));
        assert(t.subrange(0, i).skip(1) =~= t.skip(1).subrange(0, i - 1));
        assert(pre[0] == t[0]);
        assert(t.subrange(0, i)[0] == t[0]);
        assert(t.skip(1)[i - 1] == t[i]);
        assert(esc_str(pre) =~= esc_str(t.subrange(0, i)) + esc_char(t[i]));
    }
}

/// Appends the canonical JSON string form of `s`, quotes and escapes included.
fn push_json_str(out: &mut Vec<char>, s: &str)
    ensures
        final(out)@ == old(out)@ + enc_str(s@),
{
    let cs = chars_vec(s);
    out.push('"');
    let mut i: usize = 0;
    while i < cs.len()
        invariant
            i <= cs@.len(),
            cs@ == s@,
            out@ == old(out)@ + seq!['"'] + esc_str(s@.subrange(0, i as int)),
        decreases cs@.len() - i,
    {
        let c = cs[i];
        if c == '"' {
            out.push('\\');
            out.push('"');
        } else if c == '\\' {
            out.push('\\');
            out.push('\\');
        } else if c <= '\u{1f}' {
            let v = crate::strutil::char_code_lt32(c);
            out.push('\\');
            out.push('u');
            out.push('0');
            out.push('0');
            if v / 16 < 10 {
                out.push((48u8 + v / 16) as char);
            } else {
                out.push((87u8 + v / 16) as char);
            }
            if v % 16 < 10 {
                out.push((48u8 + v % 16) as char);
            } else {
                out.push((87u8 + v % 16) as char);
            }
        } else {
            out.push(c);
        }
        proof {
            lemma_esc_str_snoc(s@, i as int);
        }
        i = i + 1;
    }
    assert(s@.subrange(0, s@.len() as int) == s@);
    out.push('"');
    assert(final(out)@ =~= old(out)@ + enc_str(s@));
}

fn push_bool(out: &mut Vec<char>, b: bool)
    ensures
        final(out)@ == old(out)@ + enc_bool(b),
{
    if b {
        push_str_chars(out, "true");
    } else {
        push_str_chars(out, "false");
    }
}

fn push_i32(out: &mut Vec<char>, n: i32)
    ensures
        final(out)@ == old(out)@ + enc_i32(n),
{
    crate::strutil::push_i64(out, n as i64);
}

fn push_file(out: &mut Vec<char>, f: &GitFileStatusMsg)
    ensures
        final(out)@ == old(out)@ + enc_file(f@),
{
    push_str_chars(out, "{\"path\":");
    push_json_str(out, f.path.as_str());
    push_str_chars(out, ",\"index_status\":");
    push_json_str(out, f.index_status.as_str());
    push_str_chars(out, ",\"worktree_status\":");
    push_json_str(out, f.worktree_status.as_str());
    push_str_chars(out, "}");
    assert(final(out)@ =~= old(out)@ + enc_file(f@));
}

proof fn lemma_enc_file_items_snoc(fs: Seq<GitFileStatusV>, k: int)
    requires
        1 <= k < fs.len(),
    ensures
        enc_file_items(fs.subrange(0, k + 1)) == enc_file_items(fs.subrange(0, k)) + seq![',']
            + enc_file(fs[k]),
    decreases k,
{
    let pre = fs.subrange(0, k + 1);
    if k == 1 {
        assert(pre.skip(1) =~= seq![fs[1]]);
        assert(fs.subrange(0, 1) =~= seq![fs[0]]);
        assert(enc_file_items(seq![fs[1]]) == enc_file(fs[1]));
        assert(enc_file_items(seq![fs[0]]) == enc_file(fs[0]));
        assert(pre[0] == fs[0]);
        assert(enc_file_items(pre) =~= enc_file_items(fs.subrange(0, 1)) + seq![','] + enc_file(
            fs[1],
        ));
    } else {
        lemma_enc_file_items_snoc(fs.skip(1), k - 1);
        assert(pre.skip(1) =~= fs.skip(1).subrange(0, k));
        assert(fs.subrange(0, k).skip(1) =~= fs.skip(1).subrange(0, k - 1));
        assert(pre[0] == fs[0]);
        assert(fs.subrange(0, k)[0] == fs[0]);
        assert(fs.skip(1)[k - 1] == fs[k]);
        assert(enc_file_items(pre) =~= enc_file_items(fs.subrange(0, k)) + seq![','] + enc_file(
            fs[k],
        ));
    }
}

fn push_file_list(out: &mut Vec<char>, fs: &Vec<GitFileStatusMsg>)
    ensures
        final(out)@ == old(out)@ + enc_file_list(files_view(fs@)),
{
    let ghost fv = files_view(fs@);
    out.push('[');
    if fs.len() > 0 {
        push_file(out, &fs[0]);
        assert(fv.subrange(0, 1) =~= seq![fv[0]]);
        assert(enc_file_items(fv.subrange(0, 1)) == enc_file(fv[0]));
        let mut k: usize = 1;
        while k < fs.len()
            invariant
                1 <= k <= fs@.len(),
                fv == files_view(fs@),
                out@ == old(out)@ + seq!['['] + enc_file_items(fv.subrange(0, k as int)),
            decreases fs@.len() - k,
        {
            out.push(',');
            push_file(out, &fs[k]);
            proof {
                lemma_enc_file_items_snoc(fv, k as int);
            }
            assert(out@ =~= old(out)@ + seq!['['] + enc_file_items(fv.subrange(0, k + 1 as int)));
            k = k + 1;
        }
        assert(fv.subrange(0, fv.len() as int) == fv);
    } else {
        assert(fv =~= Seq::<GitFileStatusV>::empty());
    }
    out.push(']');
    assert(final(out)@ =~= old(out)@ + enc_file_list(fv));
}

proof fn lemma_enc_str_items_snoc(ts: Seq<Seq<char>>, k: int)
    requires
        1 <= k < ts.len(),
    ensures
        enc_str_items(ts.subrange(0, k + 1)) == enc_str_items(ts.subrange(0, k)) + seq![',']
            + enc_str(ts[k]),
    decreases k,
{
    let pre = ts.subrange(0, k + 1);
    if k == 1 {
        assert(pre.skip(1) =~= seq![ts[1]]);
        assert(ts.subrange(0, 1) =~= seq![ts[0]]);
        assert(enc_str_items(seq![ts[1]]) == enc_str(ts[1]));
        assert(enc_str_items(seq![ts[0]]) == enc_str(ts[0]));
        assert(pre[0] == ts[0]);
        assert(enc_str_items(pre) =~= enc_str_items(ts.subrange(0, 1)) + seq![','] + enc_str(
            ts[1],
        ));
    } else {
        lemma_enc_str_items_snoc(ts.skip(1), k - 1);
        assert(pre.skip(1) =~= ts.skip(1).subrange(0, k));
        assert(ts.subrange(0, k).skip(1) =~= ts.skip(1).subrange(0, k - 1));
        assert(pre[0] == ts[0]);
        assert(ts.subrange(0, k)[0] == ts[0]);
        assert(ts.skip(1)[k - 1] == ts[k]);
        assert(enc_str_items(pre) =~= enc_str_items(ts.subrange(0, k)) + seq![','] + enc_str(
            ts[k],
        ));
    }
}

fn push_str_list(out: &mut Vec<char>, ss: &Vec<String>)
    ensures
        final(out)@ == old(out)@ + enc_str_list(strings_view(ss@)),
{
    let ghost sv = strings_view(ss@);
    out.push('[');
    if ss.len() > 0 {
        push_json_str(out, ss[0].as_str());
        assert(sv.subrange(0, 1) =~= seq![sv[0]]);
        assert(enc_str_items(sv.subrange(0, 1)) == enc_str(sv[0]));
        let mut k: usize = 1;
        while k < ss.len()
            invariant
                1 <= k <= ss@.len(),
                sv == strings_view(ss@),
                out@ == old(out)@ + seq!['['] + enc_str_items(sv.subrange(0, k as int)),
            decreases ss@.len() - k,
        {
            out.push(',');
            push_json_str(out, ss[k].as_str());
            proof {
                lemma_enc_str_items_snoc(sv, k as int);
            }
            assert(out@ =~= old(out)@ + seq!['['] + enc_str_items(sv.subrange(0, k + 1 as int)));
            k = k + 1;
        }
        assert(sv.subrange(0, sv.len() as int) == sv);
    } else {
        assert(sv =~= Seq::<Seq<char>>::empty());
    }
    out.push(']');
    assert(final(out)@ =~= old(out)@ + enc_str_list(sv));
}

#[verifier::rlimit(100)]
#[verifier::spinoff_prover]
fn push_comment(out: &mut Vec<char>, c: &CommentItem)
    ensures
        final(out)@ == old(out)@ + enc_comment(c@),
{
    push_str_chars(out, "{\"id\":");
    push_json_str(out, c.id.as_str());
    push_str_chars(out, ",\"file_path\":");
    push_json_str(out, c.file_path.as_str());
    push_str_chars(out, ",\"line_number\":");
    push_u64(out, c.line_number as u64);
    match &c.end_line {
        Option::Some(e) => {
            push_str_chars(out, ",\"end_line\":");
            push_u64(out, *e as u64);
        },
        Option::None => {},
    }
    push_str_chars(out, ",\"content\":");
    push_json_str(out, c.content.as_str());
    push_str_chars(out, ",\"status\":");
    push_json_str(out, c.status.as_str());
    push_str_chars(out, ",\"created_at\":");
    push_u64(out, c.created_at);
    push_str_chars(out, "}");
    assert(final(out)@ =~= old(out)@ + enc_comment(c@));
}

proof fn lemma_enc_comment_items_snoc(cs: Seq<CommentItemV>, k: int)
    requires
        1 <= k < cs.len(),
    ensures
        enc_comment_items(cs.subrange(0, k + 1)) == enc_comment_items(cs.subrange(0, k)) + seq![',']
            + enc_comment(cs[k]),
    decreases k,
{
    let pre = cs.subrange(0, k + 1);
    if k == 1 {
        assert(pre.skip(1) =~= seq![cs[1]]);
        assert(cs.subrange(0, 1) =~= seq![cs[0]]);
        assert(enc_comment_items(seq![cs[1]]) == enc_comment(cs[1]));
        assert(enc_comment_items(seq![cs[0]]) == enc_comment(cs[0]));
        assert(pre[0] == cs[0]);
        assert(enc_comment_items(pre) =~= enc_comment_items(cs.subrange(0, 1)) + seq![',']
            + enc_comment(cs[1]));
    } else {
        lemma_enc_comment_items_snoc(cs.skip(1), k - 1);
        assert(pre.skip(1) =~= cs.skip(1).subrange(0, k));
        assert(cs.subrange(0, k).skip(1) =~= cs.skip(1).subrange(0, k - 1));
        assert(pre[0] == cs[0]);
        assert(cs.subrange(0, k)[0] == cs[0]);
        assert(cs.skip(1)[k - 1] == cs[k]);
        assert(enc_comment_items(pre) =~= enc_comment_items(cs.subrange(0, k)) + seq![',']
            + enc_comment(cs[k]));
    }
}

fn push_comment_list(out: &mut Vec<char>, cs: &Vec<CommentItem>)
    ensures
        final(out)@ == old(out)@ + enc_comment_list(comments_view(cs@)),
{
    let ghost cv = comments_view(cs@);
    out.push('[');
    if cs.len() > 0 {
        push_comment(out, &cs[0]);
        assert(cv.subrange(0, 1) =~= seq![cv[0]]);
        assert(enc_comment_items(cv.subrange(0, 1)) == enc_comment(cv[0]));
        let mut k: usize = 1;
        while k < cs.len()
            invariant
                1 <= k <= cs@.len(),
                cv == comments_view(cs@),
                out@ == old(out)@ + seq!['['] + enc_comment_items(cv.subrange(0, k as int)),
            decreases cs@.len() - k,
        {
            out.push(',');
            push_comment(out, &cs[k]);
            proof {
                lemma_enc_comment_items_snoc(cv, k as int);
            }
            assert(out@ =~= old(out)@ + seq!['['] + enc_comment_items(
                cv.subrange(0, k + 1 as int),
            ));
            k = k + 1;
        }
        assert(cv.subrange(0, cv.len() as int) == cv);
    } else {
        assert(cv =~= Seq::<CommentItemV>::empty());
    }
    out.push(']');
    assert(final(out)@ =~= old(out)@ + enc_comment_list(cv));
}

fn pp_auth_challenge(out: &mut Vec<char>, p: &AuthChallenge, Ghost(mv): Ghost<WsMessageV>)
    requires
        mv == WsMessage::AuthChallenge(*p)@,
    ensures
        final(out)@ == old(out)@ + enc_payload(mv),
{
    push_str_chars(out, "{\"challenge\":");
    push_json_str(out, p.challenge.as_str());
    push_str_chars(out, "}");
    assert(final(out)@ =~= old(out)@ + enc_payload(mv));
}

fn pp_auth_response(out: &mut Vec<char>, p: &AuthResponse, Ghost(mv): Ghost<WsMessageV>)
    requires
        mv == WsMessage::AuthResponse(*p)@,
    ensures
        final(out)@ == old(out)@ + enc_payload(mv),
{
    push_str_chars(out, "{\"hmac\":");
    push_json_str(out, p.hmac.as_str());
    push_str_chars(out, "}");
    assert(final(out)@ =~= old(out)@ + enc_payload(mv));
}

fn pp_auth_result(out: &mut Vec<char>, p: &AuthResult, Ghost(mv): Ghost<WsMessageV>)
    requires
        mv == WsMessage::AuthResult(*p)@,
    ensures
        final(out)@ == old(out)@ + enc_payload(mv),
{
    push_str_chars(out, "{\"success\":");
    push_bool(out, p.success);
    match &p.message {
        Option::Some(t) => {
            push_str_chars(out, ",\"message\":");
            push_json_str(out, t.as_str());
        },
        Option::None => {},
    }
    push_str_chars(out, "}");
    assert(final(out)@ =~= old(out)@ + enc_payload(mv));
}

fn pp_pty_output(out: &mut Vec<char>, p: &PtyOutputMsg, Ghost(mv): Ghost<WsMessageV>)
    requires
        mv == WsMessage::PtyOutput(*p)@,
    ensures
        final(out)@ == old(out)@ + enc_payload(mv),
{
    push_str_chars(out, "{\"pty_id\":");
    push_u64(out, p.pty_id);
    push_str_chars(out, ",\"data\":");
    push_json_str(out, p.data.as_str());
    push_str_chars(out, "}");
    assert(final(out)@ =~= old(out)@ + enc_payload(mv));
}

fn pp_pty_exit(out: &mut Vec<char>, p: &PtyExitMsg, Ghost(mv): Ghost<WsMessageV>)
    requires
        mv == WsMessage::PtyExit(*p)@,
    ensures
        final(out)@ == old(out)@ + enc_payload(mv),
{
    push_str_chars(out, "{\"pty_id\":");
    push_u64(out, p.pty_id);
    match &p.exit_code {
        Option::Some(e) => {
            push_str_chars(out, ",\"exit_code\":");
            push_i32(out, *e);
        },
        Option::None => {},
    }
    push_str_chars(out, "}");
    assert(final(out)@ =~= old(out)@ + enc_payload(mv));
}

fn pp_pty_input(out: &mut Vec<char>, p: &PtyInput, Ghost(mv): Ghost<WsMessageV>)
    requires
        mv == WsMessage::PtyInput(*p)@,
    ensures
        final(out)@ == old(out)@ + enc_payload(mv),
{
    push_str_chars(out, "{\"pty_id\":");
    push_u64(out, p.pty_id);
    push_str_chars(out, ",\"data\":");
    push_json_str(out, p.data.as_str());
    push_str_chars(out, "}");
    assert(final(out)@ =~= old(out)@ + enc_payload(mv));
}

fn pp_pty_resize(out: &mut Vec<char>, p: &PtyResize, Ghost(mv): Ghost<WsMessageV>)
    requires
        mv == WsMessage::PtyResize(*p)@,
    ensures
        final(out)@ == old(out)@ + enc_payload(mv),
{
    push_str_chars(out, "{\"pty_id\":");
    push_u64(out, p.pty_id);
    push_str_chars(out, ",\"rows\":");
    push_u64(out, p.rows as u64);
    push_str_chars(out, ",\"cols\":");
    push_u64(out, p.cols as u64);
    push_str_chars(out, "}");
    assert(final(out)@ =~= old(out)@ + enc_payload(mv));
}

fn pp_pty_ready(out: &mut Vec<char>, p: &PtyReady, Ghost(mv): Ghost<WsMessageV>)
    requires
        mv == WsMessage::PtyReady(*p)@,
    ensures
        final(out)@ == old(out)@ + enc_payload(mv),
{
    push_str_chars(out, "{\"pty_id\":");
    push_u64(out, p.pty_id);
    push_str_chars(out, ",\"cols\":");
    push_u64(out, p.cols as u64);
    push_str_chars(out, ",\"rows\":");
    push_u64(out, p.rows as u64);
    push_str_chars(out, "}");
    assert(final(out)@ =~= old(out)@ + enc_payload(mv));
}

fn pp_git_status_sync(out: &mut Vec<char>, p: &GitStatusSync, Ghost(mv): Ghost<WsMessageV>)
    requires
        mv == WsMessage::GitStatusSync(*p)@,
    ensures
        final(out)@ == old(out)@ + enc_payload(mv),
{
    push_str_chars(out, "{\"files\":");
    push_file_list(out, &p.files);
    push_str_chars(out, "}");
    assert(final(out)@ =~= old(out)@ + enc_payload(mv));
}

fn pp_file_content_request(out: &mut Vec<char>, p: &FileContentRequest, Ghost(mv): Ghost<WsMessageV>)
    requires
        mv == WsMessage::FileContentRequest(*p)@,
    ensures
        final(out)@ == old(out)@ + enc_payload(mv),
{
    push_str_chars(out, "{\"path\":");
    push_json_str(out, p.path.as_str());
    push_str_chars(out, "}");
    assert(final(out)@ =~= old(out)@ + enc_payload(mv));
}

fn pp_file_content_response(out: &mut Vec<char>, p: &FileContentResponse, Ghost(mv): Ghost<WsMessageV>)
    requires
        mv == WsMessage::FileContentResponse(*p)@,
    ensures
        final(out)@ == old(out)@ + enc_payload(mv),
{
    push_str_chars(out, "{\"path\":");
    push_json_str(out, p.path.as_str());
    push_str_chars(out, ",\"original\":");
    push_json_str(out, p.original.as_str());
    push_str_chars(out, ",\"modified\":");
    push_json_str(out, p.modified.as_str());
    push_str_chars(out, "}");
    assert(final(out)@ =~= old(out)@ + enc_payload(mv));
}

fn pp_file_change(out: &mut Vec<char>, p: &FileChange, Ghost(mv): Ghost<WsMessageV>)
    requires
        mv == WsMessage::FileChange(*p)@,
    ensures
        final(out)@ == old(out)@ + enc_payload(mv),
{
    push_str_chars(out, "{\"path\":");
    push_json_str(out, p.path.as_str());
    push_str_chars(out, ",\"kind\":");
    push_json_str(out, p.kind.as_str());
    push_str_chars(out, "}");
    assert(final(out)@ =~= old(out)@ + enc_payload(mv));
}

fn pp_git_status_request(out: &mut Vec<char>)
    ensures
        final(out)@ == old(out)@ + enc_payload(WsMessageV::GitStatusRequest),
{
    push_str_chars(out, "{}");
}

fn pp_git_stage(out: &mut Vec<char>, p: &GitStage, Ghost(mv): Ghost<WsMessageV>)
    requires
        mv == WsMessage::GitStage(*p)@,
    ensures
        final(out)@ == old(out)@ + enc_payload(mv),
{
    push_str_chars(out, "{\"paths\":");
    push_str_list(out, &p.paths);
    push_str_chars(out, "}");
    assert(final(out)@ =~= old(out)@ + enc_payload(mv));
}

fn pp_git_unstage(out: &mut Vec<char>, p: &GitUnstage, Ghost(mv): Ghost<WsMessageV>)
    requires
        mv == WsMessage::GitUnstage(*p)@,
    ensures
        final(out)@ == old(out)@ + enc_payload(mv),
{
    push_str_chars(out, "{\"paths\":");
    push_str_list(out, &p.paths);
    push_str_chars(out, "}");
    assert(final(out)@ =~= old(out)@ + enc_payload(mv));
}

fn pp_git_stage_result(out: &mut Vec<char>, p: &GitStageResult, Ghost(mv): Ghost<WsMessageV>)
    requires
        mv == WsMessage::GitStageResult(*p)@,
    ensures
        final(out)@ == old(out)@ + enc_payload(mv),
{
    push_str_chars(out, "{\"success\":");
    push_bool(out, p.success);
    match &p.error {
        Option::Some(t) => {
            push_str_chars(out, ",\"error\":");
            push_json_str(out, t.as_str());
        },
        Option::None => {},
    }
    push_str_chars(out, ",\"files\":");
    push_file_list(out, &p.files);
    push_str_chars(out, "}");
    assert(final(out)@ =~= old(out)@ + enc_payload(mv));
}

fn pp_add_comment(out: &mut Vec<char>, p: &AddComment, Ghost(mv): Ghost<WsMessageV>)
    requires
        mv == WsMessage::AddComment(*p)@,
    ensures
        final(out)@ == old(out)@ + enc_payload(mv),
{
    push_str_chars(out, "{\"file_path\":");
    push_json_str(out, p.file_path.as_str());
    push_str_chars(out, ",\"line_number\":");
    push_u64(out, p.line_number as u64);
    match &p.end_line {
        Option::Some(e) => {
            push_str_chars(out, ",\"end_line\":");
            push_u64(out, *e as u64);
        },
        Option::None => {},
    }
    push_str_chars(out, ",\"content\":");
    push_json_str(out, p.content.as_str());
    push_str_chars(out, "}");
    assert(final(out)@ =~= old(out)@ + enc_payload(mv));
}

fn pp_comments_sync(out: &mut Vec<char>, p: &CommentSync, Ghost(mv): Ghost<WsMessageV>)
    requires
        mv == WsMessage::CommentsSync(*p)@,
    ensures
        final(out)@ == old(out)@ + enc_payload(mv),
{
    push_str_chars(out, "{\"comments\":");
    push_comment_list(out, &p.comments);
    push_str_chars(out, "}");
    assert(final(out)@ =~= old(out)@ + enc_payload(mv));
}

fn pp_error(out: &mut Vec<char>, p: &ErrorMsg, Ghost(mv): Ghost<WsMessageV>)
    requires
        mv == WsMessage::Error(*p)@,
    ensures
        final(out)@ == old(out)@ + enc_payload(mv),
{
    push_str_chars(out, "{\"code\":");
    push_json_str(out, p.code.as_str());
    push_str_chars(out, ",\"message\":");
    push_json_str(out, p.message.as_str());
    push_str_chars(out, "}");
    assert(final(out)@ =~= old(out)@ + enc_payload(mv));
}

fn push_payload(out: &mut Vec<char>, msg: &WsMessage)
    ensures
        final(out)@ == old(out)@ + enc_payload(msg@),
{
    match msg {
        WsMessage::AuthChallenge(p) => pp_auth_challenge(out, p, Ghost(msg@)),
        WsMessage::AuthResponse(p) => pp_auth_response(out, p, Ghost(msg@)),
        WsMessage::AuthResult(p) => pp_auth_result(out, p, Ghost(msg@)),
        WsMessage::PtyOutput(p) => pp_pty_output(out, p, Ghost(msg@)),
        WsMessage::PtyExit(p) => pp_pty_exit(out, p, Ghost(msg@)),
        WsMessage::PtyInput(p) => pp_pty_input(out, p, Ghost(msg@)),
        WsMessage::PtyResize(p) => pp_pty_resize(out, p, Ghost(msg@)),
        WsMessage::PtyReady(p) => pp_pty_ready(out, p, Ghost(msg@)),
        WsMessage::GitStatusSync(p) => pp_git_status_sync(out, p, Ghost(msg@)),
        WsMessage::FileContentRequest(p) => pp_file_content_request(out, p, Ghost(msg@)),
        WsMessage::FileContentResponse(p) => pp_file_content_response(out, p, Ghost(msg@)),
        WsMessage::FileChange(p) => pp_file_change(out, p, Ghost(msg@)),
        WsMessage::GitStatusRequest(_) => pp_git_status_request(out),
        WsMessage::GitStage(p) => pp_git_stage(out, p, Ghost(msg@)),
        WsMessage::GitUnstage(p) => pp_git_unstage(out, p, Ghost(msg@)),
        WsMessage::GitStageResult(p) => pp_git_stage_result(out, p, Ghost(msg@)),
        WsMessage::AddComment(p) => pp_add_comment(out, p, Ghost(msg@)),
        WsMessage::CommentsSync(p) => pp_comments_sync(out, p, Ghost(msg@)),
        WsMessage::Error(p) => pp_error(out, p, Ghost(msg@)),
    }
}

fn tag_str(msg: &WsMessage) -> (r: &'static str)
    ensures
        r@ == tag_of(msg@),
{
    match msg {
        WsMessage::AuthChallenge(_) => "auth_challenge",
        WsMessage::AuthResponse(_) => "auth_response",
        WsMessage::AuthResult(_) => "auth_result",
        WsMessage::PtyOutput(_) => "pty_output",
        WsMessage::PtyExit(_) => "pty_exit",
        WsMessage::PtyInput(_) => "pty_input",
        WsMessage::PtyResize(_) => "pty_resize",
        WsMessage::PtyReady(_) => "pty_ready",
        WsMessage::GitStatusSync(_) => "git_status_sync",
        WsMessage::FileContentRequest(_) => "file_content_request",
        WsMessage::FileContentResponse(_) => "file_content_response",
        WsMessage::FileChange(_) => "file_change",
        WsMessage::GitStatusRequest(_) => "git_status_request",
        WsMessage::GitStage(_) => "git_stage",
        WsMessage::GitUnstage(_) => "git_unstage",
        WsMessage::GitStageResult(_) => "git_stage_result",
        WsMessage::AddComment(_) => "add_comment",
        WsMessage::CommentsSync(_) => "comments_sync",
        WsMessage::Error(_) => "error",
    }
}

// ---------------------------------------------------------------------------
// The decoding, as a mathematical function
//
// The decoder reads the canonical grammar that `enc_msg` writes — every
// encoded frame decodes back to itself (`lemma_codec_round_trip`) — and, for
// standard clients, additionally understands all JSON string escapes and
// insignificant whitespace before tokens.  A frame with an unknown tag never
// decodes.
// ---------------------------------------------------------------------------

/// Matches a fixed literal at position `i`.
pub open spec fn p_lit(s: Seq<char>, i: int, lit: Seq<char>) -> Option<int> {
    if 0 <= i && i + lit.len() <= s.len() && s.subrange(i, i + lit.len() as int) == lit {
        Option::Some(i + lit.len() as int)
    } else {
        Option::None
    }
}

/// Reads the body of a JSON string up to and including the closing quote,
/// starting just after the opening quote; `acc` holds what was read so far.
/// A hexadecimal digit as JSON escapes use them: either case is accepted.
pub open spec fn spec_is_json_hex(c: char) -> bool {
    spec_is_digit(c) || (97 <= c as int <= 102) || (65 <= c as int <= 70)
}

pub open spec fn spec_json_hex_val(c: char) -> int {
    if spec_is_digit(c) {
        c as int - 48
    } else if 97 <= c as int {
        c as int - 87
    } else {
        c as int - 55
    }
}

/// The value of the four hex digits of a `\u` escape starting at `i`.
pub open spec fn spec_hex4(s: Seq<char>, i: int) -> int {
    ((spec_json_hex_val(s[i]) * 16 + spec_json_hex_val(s[i + 1])) * 16 + spec_json_hex_val(
        s[i + 2],
    )) * 16 + spec_json_hex_val(s[i + 3])
}

pub open spec fn spec_json_hex4_at(s: Seq<char>, i: int) -> bool {
    &&& spec_is_json_hex(s[i])
    &&& spec_is_json_hex(s[i + 1])
    &&& spec_is_json_hex(s[i + 2])
    &&& spec_is_json_hex(s[i + 3])
}

/// Reads the body of a JSON string up to and including the closing quote,
/// starting just after the opening quote; `acc` holds what was read so far.
/// All standard escapes are understood: the short forms, `\/`, and `\uXXXX`
/// in either hex case, with surrogate pairs combined; a lone surrogate or a
/// raw control character is rejected.
pub open spec fn p_qstr(s: Seq<char>, i: int, acc: Seq<char>) -> Option<(Seq<char>, int)>
    decreases s.len() - i,
{
    if i < 0 || i >= s.len() {
        Option::None
    } else {
        let c = s[i];
        if c == '"' {
            Option::Some((acc, i + 1))
        } else if c == '\\' {
            if i + 1 < s.len() {
                let e = s[i + 1];
                if e == '"' {
                    p_qstr(s, i + 2, acc.push('"'))
                } else if e == '\\' {
                    p_qstr(s, i + 2, acc.push('\\'))
                } else if e == '/' {
                    p_qstr(s, i + 2, acc.push('/'))
                } else if e == 'b' {
                    p_qstr(s, i + 2, acc.push('\u{8}'))
                } else if e == 'f' {
                    p_qstr(s, i + 2, acc.push('\u{c}'))
                } else if e == 'n' {
                    p_qstr(s, i + 2, acc.push('\n'))
                } else if e == 'r' {
                    p_qstr(s, i + 2, acc.push('\r'))
                } else if e == 't' {
                    p_qstr(s, i + 2, acc.push('\t'))
                } else if e == 'u' {
                    if i + 6 <= s.len() && spec_json_hex4_at(s, i + 2) {
                        let v = spec_hex4(s, i + 2);
                        if 0xD800 <= v <= 0xDBFF {
                            if i + 12 <= s.len() && s[i + 6] == '\\' && s[i + 7] == 'u'
                                && spec_json_hex4_at(s, i + 8) {
                                let w = spec_hex4(s, i + 8);
                                if 0xDC00 <= w <= 0xDFFF {
                                    p_qstr(
                                        s,
                                        i + 12,
                                        acc.push(
                                            ((0x10000 + (v - 0xD800) * 0x400 + (w
                                                - 0xDC00)) as char),
                                        ),
                                    )
                                } else {
                                    Option::None
                                }
                            } else {
                                Option::None
                            }
                        } else if 0xDC00 <= v <= 0xDFFF {
                            Option::None
                        } else {
                            p_qstr(s, i + 6, acc.push(v as char))
                        }
                    } else {
                        Option::None
                    }
                } else {
                    Option::None
                }
            } else {
                Option::None
            }
        } else if (c as int) < 32 {
            Option::None
        } else {
            p_qstr(s, i + 1, acc.push(c))
        }
    }
}

/// A whole JSON string, opening quote included.
pub open spec fn p_jstr(s: Seq<char>, i: int) -> Option<(Seq<char>, int)> {
    if 0 <= i < s.len() && s[i] == '"' {
        p_qstr(s, i + 1, Seq::empty())
    } else {
        Option::None
    }
}

/// Reads a maximal digit run, folding the digits into `acc`.
pub open spec fn p_digits(s: Seq<char>, i: int, acc: nat) -> (nat, int)
    decreases s.len() - i,
{
    if 0 <= i < s.len() && spec_is_digit(s[i]) {
        p_digits(s, i + 1, acc * 10 + (s[i] as int - 48) as nat)
    } else {
        (acc, i)
    }
}

/// A canonical unsigned decimal: nonempty, no leading zero, fits in u64.
pub open spec fn p_u64(s: Seq<char>, i: int) -> Option<(u64, int)> {
    if 0 <= i < s.len() && spec_is_digit(s[i]) {
        let (v, j) = p_digits(s, i, 0);
        if s[i] == '0' && j != i + 1 {
            Option::None
        } else if v > u64::MAX {
            Option::None
        } else {
            Option::Some((v as u64, j))
        }
    } else {
        Option::None
    }
}

pub open spec fn p_u32(s: Seq<char>, i: int) -> Option<(u32, int)> {
    match p_u64(s, i) {
        Option::Some((v, j)) => if v <= u32::MAX as u64 {
            Option::Some((v as u32, j))
        } else {
            Option::None
        },
        Option::None => Option::None,
    }
}

pub open spec fn p_u16(s: Seq<char>, i: int) -> Option<(u16, int)> {
    match p_u64(s, i) {
        Option::Some((v, j)) => if v <= u16::MAX as u64 {
            Option::Some((v as u16, j))
        } else {
            Option::None
        },
        Option::None => Option::None,
    }
}

/// A canonical signed decimal in i32 range; `-0` is not canonical.
pub open spec fn p_i32(s: Seq<char>, i: int) -> Option<(i32, int)> {
    if 0 <= i < s.len() && s[i] == '-' {
        match p_u64(s, i + 1) {
            Option::Some((v, j)) => if 1 <= v && v <= 2147483648u64 {
                Option::Some(((-(v as int)) as i32, j))
            } else {
                Option::None
            },
            Option::None => Option::None,
        }
    } else {
        match p_u64(s, i) {
            Option::Some((v, j)) => if v <= 2147483647u64 {
                Option::Some((v as i32, j))
            } else {
                Option::None
            },
            Option::None => Option::None,
        }
    }
}

pub open spec fn p_bool(s: Seq<char>, i: int) -> Option<(bool, int)> {
    match p_lit(s, i, "true"@) {
        Option::Some(j) => Option::Some((true, j)),
        Option::None => match p_lit(s, i, "false"@) {
            Option::Some(j) => Option::Some((false, j)),
            Option::None => Option::None,
        },
    }
}

/// JSON insignificant whitespace.
pub open spec fn spec_is_json_ws(c: char) -> bool {
    c == ' ' || c == '\t' || c == '\n' || c == '\r'
}

/// The first position at or after `i` that does not hold whitespace.
pub open spec fn spec_ws_to(s: Seq<char>, i: int) -> int
    decreases s.len() - i,
{
    if 0 <= i < s.len() && spec_is_json_ws(s[i]) {
        spec_ws_to(s, i + 1)
    } else {
        i
    }
}

proof fn lemma_ws_to_bounds(s: Seq<char>, i: int)
    requires
        0 <= i <= s.len(),
    ensures
        i <= spec_ws_to(s, i) <= s.len(),
        spec_ws_to(s, i) < s.len() ==> !spec_is_json_ws(s[spec_ws_to(s, i)]),
    decreases s.len() - i,
{
    if 0 <= i < s.len() && spec_is_json_ws(s[i]) {
        lemma_ws_to_bounds(s, i + 1);
    }
}

/// Matches a fixed token, whitespace before it ignored.
pub open spec fn p_tok(s: Seq<char>, i: int, lit: Seq<char>) -> Option<int> {
    p_lit(s, spec_ws_to(s, i), lit)
}


/// One file-status object of a `files` array.
pub open spec fn p_file(s: Seq<char>, i: int) -> Option<(GitFileStatusV, int)> {
    match p_tok(s, i, "{"@) {
        Option::None => Option::None,
        Option::Some(i1) => {
            match p_tok(s, i1, "\"path\":"@) {
                Option::None => Option::None,
                Option::Some(i2) => {
                    match p_jstr(s, spec_ws_to(s, i2)) {
                        Option::None => Option::None,
                        Option::Some((v_path, i3)) => {
                            match p_tok(s, i3, ","@) {
                                Option::None => Option::None,
                                Option::Some(i4) => {
                                    match p_tok(s, i4, "\"index_status\":"@) {
                                        Option::None => Option::None,
                                        Option::Some(i5) => {
                                            match p_jstr(s, spec_ws_to(s, i5)) {
                                                Option::None => Option::None,
                                                Option::Some((v_index_status, i6)) => {
                                                    match p_tok(s, i6, ","@) {
                                                        Option::None => Option::None,
                                                        Option::Some(i7) => {
                                                            match p_tok(s, i7, "\"worktree_status\":"@) {
                                                                Option::None => Option::None,
                                                                Option::Some(i8) => {
                                                                    match p_jstr(s, spec_ws_to(s, i8)) {
                                                                        Option::None => Option::None,
                                                                        Option::Some((v_worktree_status, i9)) => {
                                                                            match p_tok(s, i9, "}"@) {
                                                                                Option::None => Option::None,
                                                                                Option::Some(i10) => {
                                                                                    Option::Some((GitFileStatusV { path: v_path, index_status: v_index_status, worktree_status: v_worktree_status }, i10))
                                                                                },
                                                                            }
                                                                        },
                                                                    }
                                                                },
                                                            }
                                                        },
                                                    }
                                                },
                                            }
                                        },
                                    }
                                },
                            }
                        },
                    }
                },
            }
        },
    }
}

proof fn lemma_p_qstr_advance(s: Seq<char>, i: int, acc: Seq<char>)
    ensures
        p_qstr(s, i, acc) matches Option::Some((t, j)) ==> i < j <= s.len(),
    decreases s.len() - i,
{
    if 0 <= i < s.len() {
        let c = s[i];
        if c == '\\' && i + 1 < s.len() {
            lemma_p_qstr_advance(s, i + 2, acc.push('"'));
            lemma_p_qstr_advance(s, i + 2, acc.push('\\'));
            lemma_p_qstr_advance(s, i + 2, acc.push('/'));
            lemma_p_qstr_advance(s, i + 2, acc.push('\u{8}'));
            lemma_p_qstr_advance(s, i + 2, acc.push('\u{c}'));
            lemma_p_qstr_advance(s, i + 2, acc.push('\n'));
            lemma_p_qstr_advance(s, i + 2, acc.push('\r'));
            lemma_p_qstr_advance(s, i + 2, acc.push('\t'));
            if i + 6 <= s.len() && spec_json_hex4_at(s, i + 2) {
                let v = spec_hex4(s, i + 2);
                if 0xD800 <= v <= 0xDBFF {
                    if i + 12 <= s.len() && s[i + 6] == '\\' && s[i + 7] == 'u' && spec_json_hex4_at(
                        s,
                        i + 8,
                    ) {
                        let w = spec_hex4(s, i + 8);
                        if 0xDC00 <= w <= 0xDFFF {
                            lemma_p_qstr_advance(
                                s,
                                i + 12,
                                acc.push(((0x10000 + (v - 0xD800) * 0x400 + (w - 0xDC00)) as char)),
                            );
                        }
                    }
                } else if !(0xDC00 <= v <= 0xDFFF) {
                    lemma_p_qstr_advance(s, i + 6, acc.push(v as char));
                }
            }
        } else if c != '"' && (c as int) >= 32 {
            lemma_p_qstr_advance(s, i + 1, acc.push(c));
        }
    }
}

proof fn lemma_p_digits_advance(s: Seq<char>, i: int, acc: nat)
    ensures
        p_digits(s, i, acc).1 >= i,
        p_digits(s, i, acc).1 <= s.len() || p_digits(s, i, acc).1 == i,
    decreases s.len() - i,
{
    if 0 <= i < s.len() && spec_is_digit(s[i]) {
        lemma_p_digits_advance(s, i + 1, acc * 10 + (s[i] as int - 48) as nat);
    }
}

proof fn lemma_p_u64_advance(s: Seq<char>, i: int)
    ensures
        p_u64(s, i) matches Option::Some((v, j)) ==> i < j <= s.len(),
{
    if 0 <= i < s.len() && spec_is_digit(s[i]) {
        lemma_p_digits_advance(s, i + 1, (s[i] as int - 48) as nat);
    }
}

proof fn lemma_p_tok_advance(s: Seq<char>, i: int, lit: Seq<char>)
    requires
        0 <= i <= s.len(),
    ensures
        p_tok(s, i, lit) matches Option::Some(j) ==> i <= j <= s.len(),
{
    lemma_ws_to_bounds(s, i);
}

proof fn lemma_p_file_advance(s: Seq<char>, i: int)
    requires
        0 <= i <= s.len(),
    ensures
        p_file(s, i) matches Option::Some((f, j)) ==> i < j <= s.len(),
{
    if p_file(s, i) is Some {
        lemma_ws_to_bounds(s, i);
        let i1 = p_tok(s, i, "{"@)->Some_0;
        lemma_p_tok_advance(s, i, "{"@);
        let i2 = p_tok(s, i1, "\"path\":"@)->Some_0;
        lemma_p_tok_advance(s, i1, "\"path\":"@);
        lemma_ws_to_bounds(s, i2);
        lemma_p_qstr_advance(s, spec_ws_to(s, i2) + 1, Seq::empty());
        let (path, i3) = p_jstr(s, spec_ws_to(s, i2))->Some_0;
        lemma_p_tok_advance(s, i3, ","@);
        let i4 = p_tok(s, i3, ","@)->Some_0;
        lemma_p_tok_advance(s, i4, "\"index_status\":"@);
        let i5 = p_tok(s, i4, "\"index_status\":"@)->Some_0;
        lemma_ws_to_bounds(s, i5);
        lemma_p_qstr_advance(s, spec_ws_to(s, i5) + 1, Seq::empty());
        let (idx, i6) = p_jstr(s, spec_ws_to(s, i5))->Some_0;
        lemma_p_tok_advance(s, i6, ","@);
        let i7 = p_tok(s, i6, ","@)->Some_0;
        lemma_p_tok_advance(s, i7, "\"worktree_status\":"@);
        let i8 = p_tok(s, i7, "\"worktree_status\":"@)->Some_0;
        lemma_ws_to_bounds(s, i8);
        lemma_p_qstr_advance(s, spec_ws_to(s, i8) + 1, Seq::empty());
        let (wt, i9) = p_jstr(s, spec_ws_to(s, i8))->Some_0;
        lemma_p_tok_advance(s, i9, "}"@);
    }
}

/// A whole JSON string with whitespace allowed before it.
pub open spec fn p_jstr_ws(s: Seq<char>, i: int) -> Option<(Seq<char>, int)> {
    p_jstr(s, spec_ws_to(s, i))
}

proof fn lemma_p_jstr_ws_advance(s: Seq<char>, i: int)
    requires
        0 <= i <= s.len(),
    ensures
        p_jstr_ws(s, i) matches Option::Some((t, j)) ==> i < j <= s.len(),
{
    lemma_ws_to_bounds(s, i);
    let w = spec_ws_to(s, i);
    if p_jstr(s, w) is Some {
        lemma_p_qstr_advance(s, w + 1, Seq::empty());
    }
}

/// Comma-separated elements up to and including the closing bracket;
/// whitespace may precede every element and separator.
pub open spec fn p_file_items(s: Seq<char>, i: int, acc: Seq<GitFileStatusV>) -> Option<
    (Seq<GitFileStatusV>, int),
>
    decreases s.len() - i,
    via p_file_items_dec
{
    match p_file(s, i) {
        Option::None => Option::None,
        Option::Some((f, j)) => {
            let k = spec_ws_to(s, j);
            if 0 <= k < s.len() && s[k] == ',' {
                p_file_items(s, k + 1, acc.push(f))
            } else if 0 <= k < s.len() && s[k] == ']' {
                Option::Some((acc.push(f), k + 1))
            } else {
                Option::None
            }
        },
    }
}

#[via_fn]
proof fn p_file_items_dec(s: Seq<char>, i: int, acc: Seq<GitFileStatusV>) {
    if 0 <= i <= s.len() {
        lemma_p_file_advance(s, i);
        if p_file(s, i) is Some {
            let (f, j) = p_file(s, i)->Some_0;
            lemma_ws_to_bounds(s, j);
        }
    }
}

pub open spec fn p_file_list(s: Seq<char>, i: int) -> Option<(Seq<GitFileStatusV>, int)> {
    match p_tok(s, i, "["@) {
        Option::None => Option::None,
        Option::Some(i1) => {
            let w = spec_ws_to(s, i1);
            if 0 <= w < s.len() && s[w] == ']' {
                Option::Some((Seq::empty(), w + 1))
            } else {
                p_file_items(s, i1, Seq::empty())
            }
        },
    }
}

/// Comma-separated elements up to and including the closing bracket;
/// whitespace may precede every element and separator.
pub open spec fn p_str_items(s: Seq<char>, i: int, acc: Seq<Seq<char>>) -> Option<
    (Seq<Seq<char>>, int),
>
    decreases s.len() - i,
    via p_str_items_dec
{
    match p_jstr_ws(s, i) {
        Option::None => Option::None,
        Option::Some((f, j)) => {
            let k = spec_ws_to(s, j);
            if 0 <= k < s.len() && s[k] == ',' {
                p_str_items(s, k + 1, acc.push(f))
            } else if 0 <= k < s.len() && s[k] == ']' {
                Option::Some((acc.push(f), k + 1))
            } else {
                Option::None
            }
        },
    }
}

#[via_fn]
proof fn p_str_items_dec(s: Seq<char>, i: int, acc: Seq<Seq<char>>) {
    if 0 <= i <= s.len() {
        lemma_p_jstr_ws_advance(s, i);
        if p_jstr_ws(s, i) is Some {
            let (f, j) = p_jstr_ws(s, i)->Some_0;
            lemma_ws_to_bounds(s, j);
        }
    }
}

pub open spec fn p_str_list(s: Seq<char>, i: int) -> Option<(Seq<Seq<char>>, int)> {
    match p_tok(s, i, "["@) {
        Option::None => Option::None,
        Option::Some(i1) => {
            let w = spec_ws_to(s, i1);
            if 0 <= w < s.len() && s[w] == ']' {
                Option::Some((Seq::empty(), w + 1))
            } else {
                p_str_items(s, i1, Seq::empty())
            }
        },
    }
}

/// One comment object, with its optional `end_line` field.
pub open spec fn p_comment(s: Seq<char>, i: int) -> Option<(CommentItemV, int)> {
    match p_tok(s, i, "{"@) {
        Option::None => Option::None,
        Option::Some(i1) => {
            match p_tok(s, i1, "\"id\":"@) {
                Option::None => Option::None,
                Option::Some(i2) => {
                    match p_jstr(s, spec_ws_to(s, i2)) {
                        Option::None => Option::None,
                        Option::Some((v_id, i3)) => {
                            match p_tok(s, i3, ","@) {
                                Option::None => Option::None,
                                Option::Some(i4) => {
                                    match p_tok(s, i4, "\"file_path\":"@) {
                                        Option::None => Option::None,
                                        Option::Some(i5) => {
                                            match p_jstr(s, spec_ws_to(s, i5)) {
                                                Option::None => Option::None,
                                                Option::Some((v_file_path, i6)) => {
                                                    match p_tok(s, i6, ","@) {
                                                        Option::None => Option::None,
                                                        Option::Some(i7) => {
                                                            match p_tok(s, i7, "\"line_number\":"@) {
                                                                Option::None => Option::None,
                                                                Option::Some(i8) => {
                                                                    match p_u32(s, spec_ws_to(s, i8)) {
                                                                        Option::None => Option::None,
                                                                        Option::Some((v_line_number, i9)) => {
                                                                            match p_tok(s, i9, ","@) {
                                                                                Option::None => Option::None,
                                                                                Option::Some(c0) => {
                                                                                    let opt_end_line: Option<(Option<u32>, int)> = match p_tok(s, c0, "\"end_line\":"@) {
                                                                                        Option::None => Option::Some((Option::None, c0)),
                                                                                        Option::Some(c1) => match p_u32(s, spec_ws_to(s, c1)) {
                                                                                            Option::None => Option::None,
                                                                                            Option::Some((t, c2)) => match p_tok(s, c2, ","@) {
                                                                                                Option::None => Option::None,
                                                                                                Option::Some(c3) => Option::Some((Option::Some(t), c3)),
                                                                                            },
                                                                                        },
                                                                                    };
                                                                                    match opt_end_line {
                                                                                        Option::None => Option::None,
                                                                                        Option::Some((v_end_line, i10)) => {
                                                                                            match p_tok(s, i10, "\"content\":"@) {
                                                                                                Option::None => Option::None,
                                                                                                Option::Some(i11) => {
                                                                                                    match p_jstr(s, spec_ws_to(s, i11)) {
                                                                                                        Option::None => Option::None,
                                                                                                        Option::Some((v_content, i12)) => {
                                                                                                            match p_tok(s, i12, ","@) {
                                                                                                                Option::None => Option::None,
                                                                                                                Option::Some(i13) => {
                                                                                                                    match p_tok(s, i13, "\"status\":"@) {
                                                                                                                        Option::None => Option::None,
                                                                                                                        Option::Some(i14) => {
                                                                                                                            match p_jstr(s, spec_ws_to(s, i14)) {
                                                                                                                                Option::None => Option::None,
                                                                                                                                Option::Some((v_status, i15)) => {
                                                                                                                                    match p_tok(s, i15, ","@) {
                                                                                                                                        Option::None => Option::None,
                                                                                                                                        Option::Some(i16) => {
                                                                                                                                            match p_tok(s, i16, "\"created_at\":"@) {
                                                                                                                                                Option::None => Option::None,
                                                                                                                                                Option::Some(i17) => {
                                                                                                                                                    match p_u64(s, spec_ws_to(s, i17)) {
                                                                                                                                                        Option::None => Option::None,
                                                                                                                                                        Option::Some((v_created_at, i18)) => {
                                                                                                                                                            match p_tok(s, i18, "}"@) {
                                                                                                                                                                Option::None => Option::None,
                                                                                                                                                                Option::Some(i19) => {
                                                                                                                                                                    Option::Some((CommentItemV { id: v_id, file_path: v_file_path, line_number: v_line_number, end_line: v_end_line, content: v_content, status: v_status, created_at: v_created_at }, i19))
                                                                                                                                                                },
                                                                                                                                                            }
                                                                                                                                                        },
                                                                                                                                                    }
                                                                                                                                                },
                                                                                                                                            }
                                                                                                                                        },
                                                                                                                                    }
                                                                                                                                },
                                                                                                                            }
                                                                                                                        },
                                                                                                                    }
                                                                                                                },
                                                                                                            }
                                                                                                        },
                                                                                                    }
                                                                                                },
                                                                                            }
                                                                                        },
                                                                                    }
                                                                                },
                                                                            }
                                                                        },
                                                                    }
                                                                },
                                                            }
                                                        },
                                                    }
                                                },
                                            }
                                        },
                                    }
                                },
                            }
                        },
                    }
                },
            }
        },
    }
}

proof fn lemma_p_comment_advance(s: Seq<char>, i: int)
    requires
        0 <= i <= s.len(),
    ensures
        p_comment(s, i) matches Option::Some((c, j)) ==> i < j <= s.len(),
{
    if p_comment(s, i) is Some {
        let i1 = p_tok(s, i, "{"@)->Some_0;
        lemma_p_tok_advance(s, i, "{"@);
        let i2 = p_tok(s, i1, "\"id\":"@)->Some_0;
        lemma_p_tok_advance(s, i1, "\"id\":"@);
        lemma_p_jstr_ws_advance(s, i2);
        let (id, i3) = p_jstr(s, spec_ws_to(s, i2))->Some_0;
        lemma_p_tok_advance(s, i3, ","@);
        let i4 = p_tok(s, i3, ","@)->Some_0;
        lemma_p_tok_advance(s, i4, "\"file_path\":"@);
        let i5 = p_tok(s, i4, "\"file_path\":"@)->Some_0;
        lemma_p_jstr_ws_advance(s, i5);
        let (fp, i6) = p_jstr(s, spec_ws_to(s, i5))->Some_0;
        lemma_p_tok_advance(s, i6, ","@);
        let i7 = p_tok(s, i6, ","@)->Some_0;
        lemma_p_tok_advance(s, i7, "\"line_number\":"@);
        let i8 = p_tok(s, i7, "\"line_number\":"@)->Some_0;
        lemma_ws_to_bounds(s, i8);
        lemma_p_u64_advance(s, spec_ws_to(s, i8));
        let (ln, i9) = p_u32(s, spec_ws_to(s, i8))->Some_0;
        lemma_p_tok_advance(s, i9, ","@);
        let c0 = p_tok(s, i9, ","@)->Some_0;
        let after_opt: int = match p_tok(s, c0, "\"end_line\":"@) {
            Option::Some(c1) => {
                lemma_p_tok_advance(s, c0, "\"end_line\":"@);
                lemma_ws_to_bounds(s, c1);
                lemma_p_u64_advance(s, spec_ws_to(s, c1));
                let (e, c2) = p_u32(s, spec_ws_to(s, c1))->Some_0;
                lemma_p_tok_advance(s, c2, ","@);
                p_tok(s, c2, ","@)->Some_0
            },
            Option::None => c0,
        };
        let i10 = p_tok(s, after_opt, "\"content\":"@)->Some_0;
        lemma_p_tok_advance(s, after_opt, "\"content\":"@);
        lemma_p_jstr_ws_advance(s, i10);
        let (content, i11) = p_jstr(s, spec_ws_to(s, i10))->Some_0;
        lemma_p_tok_advance(s, i11, ","@);
        let i12 = p_tok(s, i11, ","@)->Some_0;
        lemma_p_tok_advance(s, i12, "\"status\":"@);
        let i13 = p_tok(s, i12, "\"status\":"@)->Some_0;
        lemma_p_jstr_ws_advance(s, i13);
        let (status, i14) = p_jstr(s, spec_ws_to(s, i13))->Some_0;
        lemma_p_tok_advance(s, i14, ","@);
        let i15 = p_tok(s, i14, ","@)->Some_0;
        lemma_p_tok_advance(s, i15, "\"created_at\":"@);
        let i16 = p_tok(s, i15, "\"created_at\":"@)->Some_0;
        lemma_ws_to_bounds(s, i16);
        lemma_p_u64_advance(s, spec_ws_to(s, i16));
        let (ca, i17) = p_u64(s, spec_ws_to(s, i16))->Some_0;
        lemma_p_tok_advance(s, i17, "}"@);
    }
}

/// Comma-separated elements up to and including the closing bracket;
/// whitespace may precede every element and separator.
pub open spec fn p_comment_items(s: Seq<char>, i: int, acc: Seq<CommentItemV>) -> Option<
    (Seq<CommentItemV>, int),
>
    decreases s.len() - i,
    via p_comment_items_dec
{
    match p_comment(s, i) {
        Option::None => Option::None,
        Option::Some((f, j)) => {
            let k = spec_ws_to(s, j);
            if 0 <= k < s.len() && s[k] == ',' {
                p_comment_items(s, k + 1, acc.push(f))
            } else if 0 <= k < s.len() && s[k] == ']' {
                Option::Some((acc.push(f), k + 1))
            } else {
                Option::None
            }
        },
    }
}

#[via_fn]
proof fn p_comment_items_dec(s: Seq<char>, i: int, acc: Seq<CommentItemV>) {
    if 0 <= i <= s.len() {
        lemma_p_comment_advance(s, i);
        if p_comment(s, i) is Some {
            let (f, j) = p_comment(s, i)->Some_0;
            lemma_ws_to_bounds(s, j);
        }
    }
}

pub open spec fn p_comment_list(s: Seq<char>, i: int) -> Option<(Seq<CommentItemV>, int)> {
    match p_tok(s, i, "["@) {
        Option::None => Option::None,
        Option::Some(i1) => {
            let w = spec_ws_to(s, i1);
            if 0 <= w < s.len() && s[w] == ']' {
                Option::Some((Seq::empty(), w + 1))
            } else {
                p_comment_items(s, i1, Seq::empty())
            }
        },
    }
}

// Per-variant payload parsers over the token grammar.

pub open spec fn p_pl_auth_challenge(s: Seq<char>, i: int) -> Option<(WsMessageV, int)> {
    match p_tok(s, i, "{"@) {
        Option::None => Option::None,
        Option::Some(i1) => {
            match p_tok(s, i1, "\"challenge\":"@) {
                Option::None => Option::None,
                Option::Some(i2) => {
                    match p_jstr(s, spec_ws_to(s, i2)) {
                        Option::None => Option::None,
                        Option::Some((v_challenge, i3)) => {
                            match p_tok(s, i3, "}"@) {
                                Option::None => Option::None,
                                Option::Some(i4) => {
                                    Option::Some((WsMessageV::AuthChallenge { challenge: v_challenge }, i4))
                                },
                            }
                        },
                    }
                },
            }
        },
    }
}

pub open spec fn p_pl_auth_response(s: Seq<char>, i: int) -> Option<(WsMessageV, int)> {
    match p_tok(s, i, "{"@) {
        Option::None => Option::None,
        Option::Some(i1) => {
            match p_tok(s, i1, "\"hmac\":"@) {
                Option::None => Option::None,
                Option::Some(i2) => {
                    match p_jstr(s, spec_ws_to(s, i2)) {
                        Option::None => Option::None,
                        Option::Some((v_hmac, i3)) => {
                            match p_tok(s, i3, "}"@) {
                                Option::None => Option::None,
                                Option::Some(i4) => {
                                    Option::Some((WsMessageV::AuthResponse { hmac: v_hmac }, i4))
                                },
                            }
                        },
                    }
                },
            }
        },
    }
}

pub open spec fn p_pl_auth_result(s: Seq<char>, i: int) -> Option<(WsMessageV, int)> {
    match p_tok(s, i, "{"@) {
        Option::None => Option::None,
        Option::Some(i1) => {
            match p_tok(s, i1, "\"success\":"@) {
                Option::None => Option::None,
                Option::Some(i2) => {
                    match p_bool(s, spec_ws_to(s, i2)) {
                        Option::None => Option::None,
                        Option::Some((v_success, i3)) => {
                            let opt_message: Option<(Option<Seq<char>>, int)> = match p_tok(s, i3, ","@) {
                                Option::None => Option::Some((Option::None, i3)),
                                Option::Some(c1) => match p_tok(s, c1, "\"message\":"@) {
                                    Option::None => Option::None,
                                    Option::Some(c2) => match p_jstr(s, spec_ws_to(s, c2)) {
                                        Option::None => Option::None,
                                        Option::Some((t, c3)) => Option::Some((Option::Some(t), c3)),
                                    },
                                },
                            };
                            match opt_message {
                                Option::None => Option::None,
                                Option::Some((v_message, i4)) => {
                                    match p_tok(s, i4, "}"@) {
                                        Option::None => Option::None,
                                        Option::Some(i5) => {
                                            Option::Some((WsMessageV::AuthResult { success: v_success, message: v_message }, i5))
                                        },
                                    }
                                },
                            }
                        },
                    }
                },
            }
        },
    }
}

pub open spec fn p_pl_pty_output(s: Seq<char>, i: int) -> Option<(WsMessageV, int)> {
    match p_tok(s, i, "{"@) {
        Option::None => Option::None,
        Option::Some(i1) => {
            match p_tok(s, i1, "\"pty_id\":"@) {
                Option::None => Option::None,
                Option::Some(i2) => {
                    match p_u64(s, spec_ws_to(s, i2)) {
                        Option::None => Option::None,
                        Option::Some((v_pty_id, i3)) => {
                            match p_tok(s, i3, ","@) {
                                Option::None => Option::None,
                                Option::Some(i4) => {
                                    match p_tok(s, i4, "\"data\":"@) {
                                        Option::None => Option::None,
                                        Option::Some(i5) => {
                                            match p_jstr(s, spec_ws_to(s, i5)) {
                                                Option::None => Option::None,
                                                Option::Some((v_data, i6)) => {
                                                    match p_tok(s, i6, "}"@) {
                                                        Option::None => Option::None,
                                                        Option::Some(i7) => {
                                                            Option::Some((WsMessageV::PtyOutput { pty_id: v_pty_id, data: v_data }, i7))
                                                        },
                                                    }
                                                },
                                            }
                                        },
                                    }
                                },
                            }
                        },
                    }
                },
            }
        },
    }
}

pub open spec fn p_pl_pty_exit(s: Seq<char>, i: int) -> Option<(WsMessageV, int)> {
    match p_tok(s, i, "{"@) {
        Option::None => Option::None,
        Option::Some(i1) => {
            match p_tok(s, i1, "\"pty_id\":"@) {
                Option::None => Option::None,
                Option::Some(i2) => {
                    match p_u64(s, spec_ws_to(s, i2)) {
                        Option::None => Option::None,
                        Option::Some((v_pty_id, i3)) => {
                            let opt_exit_code: Option<(Option<i32>, int)> = match p_tok(s, i3, ","@) {
                                Option::None => Option::Some((Option::None, i3)),
                                Option::Some(c1) => match p_tok(s, c1, "\"exit_code\":"@) {
                                    Option::None => Option::None,
                                    Option::Some(c2) => match p_i32(s, spec_ws_to(s, c2)) {
                                        Option::None => Option::None,
                                        Option::Some((t, c3)) => Option::Some((Option::Some(t), c3)),
                                    },
                                },
                            };
                            match opt_exit_code {
                                Option::None => Option::None,
                                Option::Some((v_exit_code, i4)) => {
                                    match p_tok(s, i4, "}"@) {
                                        Option::None => Option::None,
                                        Option::Some(i5) => {
                                            Option::Some((WsMessageV::PtyExit { pty_id: v_pty_id, exit_code: v_exit_code }, i5))
                                        },
                                    }
                                },
                            }
                        },
                    }
                },
            }
        },
    }
}

pub open spec fn p_pl_pty_input(s: Seq<char>, i: int) -> Option<(WsMessageV, int)> {
    match p_tok(s, i, "{"@) {
        Option::None => Option::None,
        Option::Some(i1) => {
            match p_tok(s, i1, "\"pty_id\":"@) {
                Option::None => Option::None,
                Option::Some(i2) => {
                    match p_u64(s, spec_ws_to(s, i2)) {
                        Option::None => Option::None,
                        Option::Some((v_pty_id, i3)) => {
                            match p_tok(s, i3, ","@) {
                                Option::None => Option::None,
                                Option::Some(i4) => {
                                    match p_tok(s, i4, "\"data\":"@) {
                                        Option::None => Option::None,
                                        Option::Some(i5) => {
                                            match p_jstr(s, spec_ws_to(s, i5)) {
                                                Option::None => Option::None,
                                                Option::Some((v_data, i6)) => {
                                                    match p_tok(s, i6, "}"@) {
                                                        Option::None => Option::None,
                                                        Option::Some(i7) => {
                                                            Option::Some((WsMessageV::PtyInput { pty_id: v_pty_id, data: v_data }, i7))
                                                        },
                                                    }
                                                },
                                            }
                                        },
                                    }
                                },
                            }
                        },
                    }
                },
            }
        },
    }
}

pub open spec fn p_pl_pty_resize(s: Seq<char>, i: int) -> Option<(WsMessageV, int)> {
    match p_tok(s, i, "{"@) {
        Option::None => Option::None,
        Option::Some(i1) => {
            match p_tok(s, i1, "\"pty_id\":"@) {
                Option::None => Option::None,
                Option::Some(i2) => {
                    match p_u64(s, spec_ws_to(s, i2)) {
                        Option::None => Option::None,
                        Option::Some((v_pty_id, i3)) => {
                            match p_tok(s, i3, ","@) {
                                Option::None => Option::None,
                                Option::Some(i4) => {
                                    match p_tok(s, i4, "\"rows\":"@) {
                                        Option::None => Option::None,
                                        Option::Some(i5) => {
                                            match p_u16(s, spec_ws_to(s, i5)) {
                                                Option::None => Option::None,
                                                Option::Some((v_rows, i6)) => {
                                                    match p_tok(s, i6, ","@) {
                                                        Option::None => Option::None,
                                                        Option::Some(i7) => {
                                                            match p_tok(s, i7, "\"cols\":"@) {
                                                                Option::None => Option::None,
                                                                Option::Some(i8) => {
                                                                    match p_u16(s, spec_ws_to(s, i8)) {
                                                                        Option::None => Option::None,
                                                                        Option::Some((v_cols, i9)) => {
                                                                            match p_tok(s, i9, "}"@) {
                                                                                Option::None => Option::None,
                                                                                Option::Some(i10) => {
                                                                                    Option::Some((WsMessageV::PtyResize { pty_id: v_pty_id, rows: v_rows, cols: v_cols }, i10))
                                                                                },
                                                                            }
                                                                        },
                                                                    }
                                                                },
                                                            }
                                                        },
                                                    }
                                                },
                                            }
                                        },
                                    }
                                },
                            }
                        },
                    }
                },
            }
        },
    }
}

pub open spec fn p_pl_pty_ready(s: Seq<char>, i: int) -> Option<(WsMessageV, int)> {
    match p_tok(s, i, "{"@) {
        Option::None => Option::None,
        Option::Some(i1) => {
            match p_tok(s, i1, "\"pty_id\":"@) {
                Option::None => Option::None,
                Option::Some(i2) => {
                    match p_u64(s, spec_ws_to(s, i2)) {
                        Option::None => Option::None,
                        Option::Some((v_pty_id, i3)) => {
                            match p_tok(s, i3, ","@) {
                                Option::None => Option::None,
                                Option::Some(i4) => {
                                    match p_tok(s, i4, "\"cols\":"@) {
                                        Option::None => Option::None,
                                        Option::Some(i5) => {
                                            match p_u16(s, spec_ws_to(s, i5)) {
                                                Option::None => Option::None,
                                                Option::Some((v_cols, i6)) => {
                                                    match p_tok(s, i6, ","@) {
                                                        Option::None => Option::None,
                                                        Option::Some(i7) => {
                                                            match p_tok(s, i7, "\"rows\":"@) {
                                                                Option::None => Option::None,
                                                                Option::Some(i8) => {
                                                                    match p_u16(s, spec_ws_to(s, i8)) {
                                                                        Option::None => Option::None,
                                                                        Option::Some((v_rows, i9)) => {
                                                                            match p_tok(s, i9, "}"@) {
                                                                                Option::None => Option::None,
                                                                                Option::Some(i10) => {
                                                                                    Option::Some((WsMessageV::PtyReady { pty_id: v_pty_id, cols: v_cols, rows: v_rows }, i10))
                                                                                },
                                                                            }
                                                                        },
                                                                    }
                                                                },
                                                            }
                                                        },
                                                    }
                                                },
                                            }
                                        },
                                    }
                                },
                            }
                        },
                    }
                },
            }
        },
    }
}

pub open spec fn p_pl_git_status_sync(s: Seq<char>, i: int) -> Option<(WsMessageV, int)> {
    match p_tok(s, i, "{"@) {
        Option::None => Option::None,
        Option::Some(i1) => {
            match p_tok(s, i1, "\"files\":"@) {
                Option::None => Option::None,
                Option::Some(i2) => {
                    match p_file_list(s, i2) {
                        Option::None => Option::None,
                        Option::Some((v_files, i3)) => {
                            match p_tok(s, i3, "}"@) {
                                Option::None => Option::None,
                                Option::Some(i4) => {
                                    Option::Some((WsMessageV::GitStatusSync { files: v_files }, i4))
                                },
                            }
                        },
                    }
                },
            }
        },
    }
}

pub open spec fn p_pl_file_content_request(s: Seq<char>, i: int) -> Option<(WsMessageV, int)> {
    match p_tok(s, i, "{"@) {
        Option::None => Option::None,
        Option::Some(i1) => {
            match p_tok(s, i1, "\"path\":"@) {
                Option::None => Option::None,
                Option::Some(i2) => {
                    match p_jstr(s, spec_ws_to(s, i2)) {
                        Option::None => Option::None,
                        Option::Some((v_path, i3)) => {
                            match p_tok(s, i3, "}"@) {
                                Option::None => Option::None,
                                Option::Some(i4) => {
                                    Option::Some((WsMessageV::FileContentRequest { path: v_path }, i4))
                                },
                            }
                        },
                    }
                },
            }
        },
    }
}

pub open spec fn p_pl_file_content_response(s: Seq<char>, i: int) -> Option<(WsMessageV, int)> {
    match p_tok(s, i, "{"@) {
        Option::None => Option::None,
        Option::Some(i1) => {
            match p_tok(s, i1, "\"path\":"@) {
                Option::None => Option::None,
                Option::Some(i2) => {
                    match p_jstr(s, spec_ws_to(s, i2)) {
                        Option::None => Option::None,
                        Option::Some((v_path, i3)) => {
                            match p_tok(s, i3, ","@) {
                                Option::None => Option::None,
                                Option::Some(i4) => {
                                    match p_tok(s, i4, "\"original\":"@) {
                                        Option::None => Option::None,
                                        Option::Some(i5) => {
                                            match p_jstr(s, spec_ws_to(s, i5)) {
                                                Option::None => Option::None,
                                                Option::Some((v_original, i6)) => {
                                                    match p_tok(s, i6, ","@) {
                                                        Option::None => Option::None,
                                                        Option::Some(i7) => {
                                                            match p_tok(s, i7, "\"modified\":"@) {
                                                                Option::None => Option::None,
                                                                Option::Some(i8) => {
                                                                    match p_jstr(s, spec_ws_to(s, i8)) {
                                                                        Option::None => Option::None,
                                                                        Option::Some((v_modified, i9)) => {
                                                                            match p_tok(s, i9, "}"@) {
                                                                                Option::None => Option::None,
                                                                                Option::Some(i10) => {
                                                                                    Option::Some((WsMessageV::FileContentResponse { path: v_path, original: v_original, modified: v_modified }, i10))
                                                                                },
                                                                            }
                                                                        },
                                                                    }
                                                                },
                                                            }
                                                        },
                                                    }
                                                },
                                            }
                                        },
                                    }
                                },
                            }
                        },
                    }
                },
            }
        },
    }
}

pub open spec fn p_pl_file_change(s: Seq<char>, i: int) -> Option<(WsMessageV, int)> {
    match p_tok(s, i, "{"@) {
        Option::None => Option::None,
        Option::Some(i1) => {
            match p_tok(s, i1, "\"path\":"@) {
                Option::None => Option::None,
                Option::Some(i2) => {
                    match p_jstr(s, spec_ws_to(s, i2)) {
                        Option::None => Option::None,
                        Option::Some((v_path, i3)) => {
                            match p_tok(s, i3, ","@) {
                                Option::None => Option::None,
                                Option::Some(i4) => {
                                    match p_tok(s, i4, "\"kind\":"@) {
                                        Option::None => Option::None,
                                        Option::Some(i5) => {
                                            match p_jstr(s, spec_ws_to(s, i5)) {
                                                Option::None => Option::None,
                                                Option::Some((v_kind, i6)) => {
                                                    match p_tok(s, i6, "}"@) {
                                                        Option::None => Option::None,
                                                        Option::Some(i7) => {
                                                            Option::Some((WsMessageV::FileChange { path: v_path, kind: v_kind }, i7))
                                                        },
                                                    }
                                                },
                                            }
                                        },
                                    }
                                },
                            }
                        },
                    }
                },
            }
        },
    }
}

pub open spec fn p_pl_git_status_request(s: Seq<char>, i: int) -> Option<(WsMessageV, int)> {
    match p_tok(s, i, "{"@) {
        Option::None => Option::None,
        Option::Some(i1) => {
            match p_tok(s, i1, "}"@) {
                Option::None => Option::None,
                Option::Some(i2) => {
                    Option::Some((WsMessageV::GitStatusRequest, i2))
                },
            }
        },
    }
}

pub open spec fn p_pl_paths(s: Seq<char>, i: int, unstage: bool) -> Option<(WsMessageV, int)> {
    match p_tok(s, i, "{"@) {
        Option::None => Option::None,
        Option::Some(i1) => {
            match p_tok(s, i1, "\"paths\":"@) {
                Option::None => Option::None,
                Option::Some(i2) => {
                    match p_str_list(s, i2) {
                        Option::None => Option::None,
                        Option::Some((v_paths, i3)) => {
                            match p_tok(s, i3, "}"@) {
                                Option::None => Option::None,
                                Option::Some(i4) => {
                                    Option::Some(((if unstage { WsMessageV::GitUnstage { paths: v_paths } } else { WsMessageV::GitStage { paths: v_paths } }), i4))
                                },
                            }
                        },
                    }
                },
            }
        },
    }
}

pub open spec fn p_pl_git_stage_result(s: Seq<char>, i: int) -> Option<(WsMessageV, int)> {
    match p_tok(s, i, "{"@) {
        Option::None => Option::None,
        Option::Some(i1) => {
            match p_tok(s, i1, "\"success\":"@) {
                Option::None => Option::None,
                Option::Some(i2) => {
                    match p_bool(s, spec_ws_to(s, i2)) {
                        Option::None => Option::None,
                        Option::Some((v_success, i3)) => {
                            match p_tok(s, i3, ","@) {
                                Option::None => Option::None,
                                Option::Some(c0) => {
                                    let opt_error: Option<(Option<Seq<char>>, int)> = match p_tok(s, c0, "\"error\":"@) {
                                        Option::None => Option::Some((Option::None, c0)),
                                        Option::Some(c1) => match p_jstr(s, spec_ws_to(s, c1)) {
                                            Option::None => Option::None,
                                            Option::Some((t, c2)) => match p_tok(s, c2, ","@) {
                                                Option::None => Option::None,
                                                Option::Some(c3) => Option::Some((Option::Some(t), c3)),
                                            },
                                        },
                                    };
                                    match opt_error {
                                        Option::None => Option::None,
                                        Option::Some((v_error, i4)) => {
                                            match p_tok(s, i4, "\"files\":"@) {
                                                Option::None => Option::None,
                                                Option::Some(i5) => {
                                                    match p_file_list(s, i5) {
                                                        Option::None => Option::None,
                                                        Option::Some((v_files, i6)) => {
                                                            match p_tok(s, i6, "}"@) {
                                                                Option::None => Option::None,
                                                                Option::Some(i7) => {
                                                                    Option::Some((WsMessageV::GitStageResult { success: v_success, error: v_error, files: v_files }, i7))
                                                                },
                                                            }
                                                        },
                                                    }
                                                },
                                            }
                                        },
                                    }
                                },
                            }
                        },
                    }
                },
            }
        },
    }
}

pub open spec fn p_pl_add_comment(s: Seq<char>, i: int) -> Option<(WsMessageV, int)> {
    match p_tok(s, i, "{"@) {
        Option::None => Option::None,
        Option::Some(i1) => {
            match p_tok(s, i1, "\"file_path\":"@) {
                Option::None => Option::None,
                Option::Some(i2) => {
                    match p_jstr(s, spec_ws_to(s, i2)) {
                        Option::None => Option::None,
                        Option::Some((v_file_path, i3)) => {
                            match p_tok(s, i3, ","@) {
                                Option::None => Option::None,
                                Option::Some(i4) => {
                                    match p_tok(s, i4, "\"line_number\":"@) {
                                        Option::None => Option::None,
                                        Option::Some(i5) => {
                                            match p_u32(s, spec_ws_to(s, i5)) {
                                                Option::None => Option::None,
                                                Option::Some((v_line_number, i6)) => {
                                                    match p_tok(s, i6, ","@) {
                                                        Option::None => Option::None,
                                                        Option::Some(c0) => {
                                                            let opt_end_line: Option<(Option<u32>, int)> = match p_tok(s, c0, "\"end_line\":"@) {
                                                                Option::None => Option::Some((Option::None, c0)),
                                                                Option::Some(c1) => match p_u32(s, spec_ws_to(s, c1)) {
                                                                    Option::None => Option::None,
                                                                    Option::Some((t, c2)) => match p_tok(s, c2, ","@) {
                                                                        Option::None => Option::None,
                                                                        Option::Some(c3) => Option::Some((Option::Some(t), c3)),
                                                                    },
                                                                },
                                                            };
                                                            match opt_end_line {
                                                                Option::None => Option::None,
                                                                Option::Some((v_end_line, i7)) => {
                                                                    match p_tok(s, i7, "\"content\":"@) {
                                                                        Option::None => Option::None,
                                                                        Option::Some(i8) => {
                                                                            match p_jstr(s, spec_ws_to(s, i8)) {
                                                                                Option::None => Option::None,
                                                                                Option::Some((v_content, i9)) => {
                                                                                    match p_tok(s, i9, "}"@) {
                                                                                        Option::None => Option::None,
                                                                                        Option::Some(i10) => {
                                                                                            Option::Some((WsMessageV::AddComment { file_path: v_file_path, line_number: v_line_number, end_line: v_end_line, content: v_content }, i10))
                                                                                        },
                                                                                    }
                                                                                },
                                                                            }
                                                                        },
                                                                    }
                                                                },
                                                            }
                                                        },
                                                    }
                                                },
                                            }
                                        },
                                    }
                                },
                            }
                        },
                    }
                },
            }
        },
    }
}

pub open spec fn p_pl_comments_sync(s: Seq<char>, i: int) -> Option<(WsMessageV, int)> {
    match p_tok(s, i, "{"@) {
        Option::None => Option::None,
        Option::Some(i1) => {
            match p_tok(s, i1, "\"comments\":"@) {
                Option::None => Option::None,
                Option::Some(i2) => {
                    match p_comment_list(s, i2) {
                        Option::None => Option::None,
                        Option::Some((v_comments, i3)) => {
                            match p_tok(s, i3, "}"@) {
                                Option::None => Option::None,
                                Option::Some(i4) => {
                                    Option::Some((WsMessageV::CommentsSync { comments: v_comments }, i4))
                                },
                            }
                        },
                    }
                },
            }
        },
    }
}

pub open spec fn p_pl_error(s: Seq<char>, i: int) -> Option<(WsMessageV, int)> {
    match p_tok(s, i, "{"@) {
        Option::None => Option::None,
        Option::Some(i1) => {
            match p_tok(s, i1, "\"code\":"@) {
                Option::None => Option::None,
                Option::Some(i2) => {
                    match p_jstr(s, spec_ws_to(s, i2)) {
                        Option::None => Option::None,
                        Option::Some((v_code, i3)) => {
                            match p_tok(s, i3, ","@) {
                                Option::None => Option::None,
                                Option::Some(i4) => {
                                    match p_tok(s, i4, "\"message\":"@) {
                                        Option::None => Option::None,
                                        Option::Some(i5) => {
                                            match p_jstr(s, spec_ws_to(s, i5)) {
                                                Option::None => Option::None,
                                                Option::Some((v_message, i6)) => {
                                                    match p_tok(s, i6, "}"@) {
                                                        Option::None => Option::None,
                                                        Option::Some(i7) => {
                                                            Option::Some((WsMessageV::Error { code: v_code, message: v_message }, i7))
                                                        },
                                                    }
                                                },
                                            }
                                        },
                                    }
                                },
                            }
                        },
                    }
                },
            }
        },
    }
}

/// Whether `tag` is one of the closed set of frame tags.
pub open spec fn known_tag(tag: Seq<char>) -> bool {
    ||| tag == "auth_challenge"@
    ||| tag == "auth_response"@
    ||| tag == "auth_result"@
    ||| tag == "pty_output"@
    ||| tag == "pty_exit"@
    ||| tag == "pty_input"@
    ||| tag == "pty_resize"@
    ||| tag == "pty_ready"@
    ||| tag == "git_status_sync"@
    ||| tag == "file_content_request"@
    ||| tag == "file_content_response"@
    ||| tag == "file_change"@
    ||| tag == "git_status_request"@
    ||| tag == "git_stage"@
    ||| tag == "git_unstage"@
    ||| tag == "git_stage_result"@
    ||| tag == "add_comment"@
    ||| tag == "comments_sync"@
    ||| tag == "error"@
}

/// Dispatches on the frame tag; an unknown tag parses to nothing.
pub open spec fn dec_payload(tag: Seq<char>, s: Seq<char>, i: int) -> Option<(WsMessageV, int)> {
    if tag == "auth_challenge"@ {
        p_pl_auth_challenge(s, i)
    } else if tag == "auth_response"@ {
        p_pl_auth_response(s, i)
    } else if tag == "auth_result"@ {
        p_pl_auth_result(s, i)
    } else if tag == "pty_output"@ {
        p_pl_pty_output(s, i)
    } else if tag == "pty_exit"@ {
        p_pl_pty_exit(s, i)
    } else if tag == "pty_input"@ {
        p_pl_pty_input(s, i)
    } else if tag == "pty_resize"@ {
        p_pl_pty_resize(s, i)
    } else if tag == "pty_ready"@ {
        p_pl_pty_ready(s, i)
    } else if tag == "git_status_sync"@ {
        p_pl_git_status_sync(s, i)
    } else if tag == "file_content_request"@ {
        p_pl_file_content_request(s, i)
    } else if tag == "file_content_response"@ {
        p_pl_file_content_response(s, i)
    } else if tag == "file_change"@ {
        p_pl_file_change(s, i)
    } else if tag == "git_status_request"@ {
        p_pl_git_status_request(s, i)
    } else if tag == "git_stage"@ {
        p_pl_paths(s, i, false)
    } else if tag == "git_unstage"@ {
        p_pl_paths(s, i, true)
    } else if tag == "git_stage_result"@ {
        p_pl_git_stage_result(s, i)
    } else if tag == "add_comment"@ {
        p_pl_add_comment(s, i)
    } else if tag == "comments_sync"@ {
        p_pl_comments_sync(s, i)
    } else if tag == "error"@ {
        p_pl_error(s, i)
    } else {
        Option::None
    }
}

/// The decoding of a whole frame: the outer object, the tag, the payload
/// by tag, and nothing but whitespace after the closing brace.
pub open spec fn dec_msg(s: Seq<char>) -> Option<WsMessageV> {
    match p_tok(s, 0, "{"@) {
        Option::None => Option::None,
        Option::Some(i1) => match p_tok(s, i1, "\"type\":"@) {
            Option::None => Option::None,
            Option::Some(i2) => match p_jstr(s, spec_ws_to(s, i2)) {
                Option::None => Option::None,
                Option::Some((tag, i3)) => match p_tok(s, i3, ","@) {
                    Option::None => Option::None,
                    Option::Some(i4) => match p_tok(s, i4, "\"payload\":"@) {
                        Option::None => Option::None,
                        Option::Some(i5) => match dec_payload(tag, s, i5) {
                            Option::None => Option::None,
                            Option::Some((m, i6)) => match p_tok(s, i6, "}"@) {
                                Option::None => Option::None,
                                Option::Some(i7) => if spec_ws_to(s, i7) == s.len() {
                                    Option::Some(m)
                                } else {
                                    Option::None
                                },
                            },
                        },
                    },
                },
            },
        },
    }
}
/// Writes a message as one canonical JSON text frame.
pub fn serialize_message(msg: &WsMessage) -> (r: Result<String, String>)
    ensures
        r is Ok,
        r matches Ok(s) ==> s@ == enc_msg(msg@),
{
    let mut out: Vec<char> = Vec::new();
    push_str_chars(&mut out, "{\"type\":\"");
    push_str_chars(&mut out, tag_str(msg));
    push_str_chars(&mut out, "\"");
    push_str_chars(&mut out, ",\"payload\":");
    push_payload(&mut out, msg);
    push_str_chars(&mut out, "}");
    assert(out@ =~= enc_msg(msg@));
    Ok(chars_to_string(&out))
}


// ---------------------------------------------------------------------------
// The deserializer: executable parsers that implement the spec parsers above
// ---------------------------------------------------------------------------

fn x_lit(v: &Vec<char>, i: usize, lit: &str) -> (r: Option<usize>)
    ensures
        match r {
            Option::Some(j) => i <= j <= v@.len() && p_lit(v@, i as int, lit@) == Option::Some(
                j as int,
            ),
            Option::None => p_lit(v@, i as int, lit@) is None,
        },
{
    let l = chars_vec(lit);
    let n = v.len();
    if n < l.len() || i > n - l.len() {
        return Option::None;
    }
    let mut k: usize = 0;
    while k < l.len()
        invariant
            k <= l@.len(),
            l@ == lit@,
            n == v@.len(),
            i + l@.len() <= v@.len(),
            forall|m: int| 0 <= m < k ==> v@[i + m] == l@[m],
        decreases l@.len() - k,
    {
        assert(i + k < n);
        if v[i + k] != l[k] {
            proof {
                let sub = v@.subrange(i as int, i + lit@.len() as int);
                assert(sub[k as int] == v@[i + k]);
                assert(sub != lit@);
            }
            return Option::None;
        }
        k = k + 1;
    }
    proof {
        assert(v@.subrange(i as int, i + lit@.len() as int) =~= lit@);
    }
    Option::Some(i + l.len())
}


fn is_json_hex_x(c: char) -> (r: bool)
    ensures
        r == spec_is_json_hex(c),
{
    (c >= '0' && c <= '9') || (c >= 'a' && c <= 'f') || (c >= 'A' && c <= 'F')
}

fn json_hex_val(c: char) -> (r: u8)
    requires
        spec_is_json_hex(c),
    ensures
        r as int == spec_json_hex_val(c),
        r < 16,
{
    if c == 'A' {
        10u8
    } else if c == 'B' {
        11u8
    } else if c == 'C' {
        12u8
    } else if c == 'D' {
        13u8
    } else if c == 'E' {
        14u8
    } else if c == 'F' {
        15u8
    } else {
        crate::strutil::hex_digit_val(c)
    }
}

fn hex4(v: &Vec<char>, i: usize) -> (r: u32)
    requires
        i + 4 <= v@.len(),
        spec_json_hex4_at(v@, i as int),
    ensures
        r as int == spec_hex4(v@, i as int),
        r < 0x10000,
{
    let n = v.len();
    assert(i + 4 <= n);
    let a = json_hex_val(v[i]) as u32;
    let b = json_hex_val(v[i + 1]) as u32;
    let c = json_hex_val(v[i + 2]) as u32;
    let d = json_hex_val(v[i + 3]) as u32;
    ((a * 16 + b) * 16 + c) * 16 + d
}

/// Relies on char::from_u32: yields the character with the given scalar
/// value; nothing for a surrogate value or one beyond the character range.
#[verifier::external_body]
fn char_from_u32(v: u32) -> (r: Option<char>)
    ensures
        r matches Some(c) ==> c as int == v as int,
        r is Some <==> (v < 0xD800 || (0xE000 <= v && v <= 0x10FFFF)),
{
    char::from_u32(v)
}

fn x_qstr(v: &Vec<char>, i: usize) -> (r: Option<(Vec<char>, usize)>)
    ensures
        match r {
            Option::Some((t, j)) => i <= j <= v@.len() && p_qstr(v@, i as int, Seq::empty())
                == Option::Some((t@, j as int)),
            Option::None => p_qstr(v@, i as int, Seq::empty()) is None,
        },
{
    if i >= v.len() {
        return Option::None;
    }
    let mut acc: Vec<char> = Vec::new();
    let mut j: usize = i;
    loop
        invariant
            i <= j <= v@.len(),
            p_qstr(v@, i as int, Seq::empty()) == p_qstr(v@, j as int, acc@),
        decreases v@.len() - j,
    {
        if j >= v.len() {
            return Option::None;
        }
        let c = v[j];
        if c == '"' {
            return Option::Some((acc, j + 1));
        } else if c == '\\' {
            if j + 1 >= v.len() {
                return Option::None;
            }
            let e = v[j + 1];
            if e == '"' {
                acc.push('"');
                j = j + 2;
            } else if e == '\\' {
                acc.push('\\');
                j = j + 2;
            } else if e == '/' {
                acc.push('/');
                j = j + 2;
            } else if e == 'b' {
                acc.push('\u{8}');
                j = j + 2;
            } else if e == 'f' {
                acc.push('\u{c}');
                j = j + 2;
            } else if e == 'n' {
                acc.push('\n');
                j = j + 2;
            } else if e == 'r' {
                acc.push('\r');
                j = j + 2;
            } else if e == 't' {
                acc.push('\t');
                j = j + 2;
            } else if e == 'u' {
                if v.len() - j < 6 {
                    return Option::None;
                }
                if !(is_json_hex_x(v[j + 2]) && is_json_hex_x(v[j + 3]) && is_json_hex_x(v[j + 4])
                    && is_json_hex_x(v[j + 5])) {
                    return Option::None;
                }
                let val = hex4(v, j + 2);
                if 0xD800 <= val && val <= 0xDBFF {
                    if v.len() - j < 12 {
                        return Option::None;
                    }
                    if !(v[j + 6] == '\\' && v[j + 7] == 'u') {
                        return Option::None;
                    }
                    if !(is_json_hex_x(v[j + 8]) && is_json_hex_x(v[j + 9]) && is_json_hex_x(
                        v[j + 10],
                    ) && is_json_hex_x(v[j + 11])) {
                        return Option::None;
                    }
                    let low = hex4(v, j + 8);
                    if 0xDC00 <= low && low <= 0xDFFF {
                        let scalar: u32 = 0x10000 + (val - 0xD800) * 0x400 + (low - 0xDC00);
                        match char_from_u32(scalar) {
                            Option::Some(ch) => {
                                acc.push(ch);
                                j = j + 12;
                            },
                            Option::None => {
                                proof {
                                    assert(false);
                                }
                                return Option::None;
                            },
                        }
                    } else {
                        return Option::None;
                    }
                } else if 0xDC00 <= val && val <= 0xDFFF {
                    return Option::None;
                } else {
                    match char_from_u32(val) {
                        Option::Some(ch) => {
                            acc.push(ch);
                            j = j + 6;
                        },
                        Option::None => {
                            proof {
                                assert(false);
                            }
                            return Option::None;
                        },
                    }
                }
            } else {
                return Option::None;
            }
        } else if c <= '\u{1f}' {
            return Option::None;
        } else {
            acc.push(c);
            j = j + 1;
        }
    }
}
fn x_jstr(v: &Vec<char>, i: usize) -> (r: Option<(String, usize)>)
    ensures
        match r {
            Option::Some((t, j)) => i < j <= v@.len() && p_jstr(v@, i as int) == Option::Some(
                (t@, j as int),
            ),
            Option::None => p_jstr(v@, i as int) is None,
        },
{
    if i >= v.len() {
        return Option::None;
    }
    if v[i] != '"' {
        return Option::None;
    }
    match x_qstr(v, i + 1) {
        Option::Some((t, j)) => Option::Some((chars_to_string(&t), j)),
        Option::None => Option::None,
    }
}

proof fn lemma_p_digits_monotone(s: Seq<char>, i: int, acc: nat)
    ensures
        p_digits(s, i, acc).0 >= acc,
    decreases s.len() - i,
{
    if 0 <= i < s.len() && spec_is_digit(s[i]) {
        let d = (s[i] as int - 48) as nat;
        assert(acc * 10 + d >= acc) by (nonlinear_arith);
        lemma_p_digits_monotone(s, i + 1, acc * 10 + d);
    }
}

fn x_u64(v: &Vec<char>, i: usize) -> (r: Option<(u64, usize)>)
    ensures
        match r {
            Option::Some((n, j)) => i < j <= v@.len() && p_u64(v@, i as int) == Option::Some(
                (n, j as int),
            ),
            Option::None => p_u64(v@, i as int) is None,
        },
{
    if i >= v.len() {
        return Option::None;
    }
    let c0 = v[i];
    if !(c0 >= '0' && c0 <= '9') {
        return Option::None;
    }
    let d0: u8 = crate::strutil::hex_digit_val(c0);
    let mut acc: u64 = d0 as u64;
    let mut j: usize = i + 1;
    assert(p_digits(v@, i as int, 0) == p_digits(v@, j as int, acc as nat));
    loop
        invariant
            i < j <= v@.len(),
            i < v@.len() && spec_is_digit(v@[i as int]),
            p_digits(v@, i as int, 0) == p_digits(v@, j as int, acc as nat),
        ensures
            i < j <= v@.len(),
            p_digits(v@, i as int, 0) == (acc as nat, j as int),
        decreases v@.len() - j,
    {
        if j >= v.len() {
            break;
        }
        let c = v[j];
        if !(c >= '0' && c <= '9') {
            break;
        }
        let d: u8 = crate::strutil::hex_digit_val(c);
        if acc > 1844674407370955161u64 || (acc == 1844674407370955161u64 && d > 5) {
            proof {
                let next = (acc * 10 + d) as nat;
                assert(next > u64::MAX);
                lemma_p_digits_monotone(v@, j + 1 as int, next);
                assert(p_digits(v@, j as int, acc as nat) == p_digits(v@, j + 1 as int, next));
                assert(p_digits(v@, i as int, 0).0 > u64::MAX);
            }
            return Option::None;
        }
        acc = acc * 10 + (d as u64);
        j = j + 1;
    }
    if j == i + 1 || !(c0 == '0') {
        Option::Some((acc, j))
    } else {
        Option::None
    }
}

fn x_u32(v: &Vec<char>, i: usize) -> (r: Option<(u32, usize)>)
    ensures
        match r {
            Option::Some((n, j)) => i < j <= v@.len() && p_u32(v@, i as int) == Option::Some(
                (n, j as int),
            ),
            Option::None => p_u32(v@, i as int) is None,
        },
{
    match x_u64(v, i) {
        Option::Some((n, j)) => if n <= u32::MAX as u64 {
            Option::Some((n as u32, j))
        } else {
            Option::None
        },
        Option::None => Option::None,
    }
}

fn x_u16(v: &Vec<char>, i: usize) -> (r: Option<(u16, usize)>)
    ensures
        match r {
            Option::Some((n, j)) => i < j <= v@.len() && p_u16(v@, i as int) == Option::Some(
                (n, j as int),
            ),
            Option::None => p_u16(v@, i as int) is None,
        },
{
    match x_u64(v, i) {
        Option::Some((n, j)) => if n <= u16::MAX as u64 {
            Option::Some((n as u16, j))
        } else {
            Option::None
        },
        Option::None => Option::None,
    }
}

fn x_i32(v: &Vec<char>, i: usize) -> (r: Option<(i32, usize)>)
    ensures
        match r {
            Option::Some((n, j)) => i < j <= v@.len() && p_i32(v@, i as int) == Option::Some(
                (n, j as int),
            ),
            Option::None => p_i32(v@, i as int) is None,
        },
{
    if i < v.len() && v[i] == '-' {
        match x_u64(v, i + 1) {
            Option::Some((n, j)) => if 1 <= n && n <= 2147483648u64 {
                let m: i32 = if n == 2147483648u64 {
                    i32::MIN
                } else {
                    -(n as i32)
                };
                Option::Some((m, j))
            } else {
                Option::None
            },
            Option::None => Option::None,
        }
    } else {
        match x_u64(v, i) {
            Option::Some((n, j)) => if n <= 2147483647u64 {
                Option::Some((n as i32, j))
            } else {
                Option::None
            },
            Option::None => Option::None,
        }
    }
}

fn x_bool(v: &Vec<char>, i: usize) -> (r: Option<(bool, usize)>)
    ensures
        match r {
            Option::Some((b, j)) => i <= j <= v@.len() && p_bool(v@, i as int) == Option::Some(
                (b, j as int),
            ),
            Option::None => p_bool(v@, i as int) is None,
        },
{
    match x_lit(v, i, "true") {
        Option::Some(j) => Option::Some((true, j)),
        Option::None => match x_lit(v, i, "false") {
            Option::Some(j) => Option::Some((false, j)),
            Option::None => Option::None,
        },
    }
}


/// Skips insignificant whitespace.
fn ws_skip(v: &Vec<char>, i: usize) -> (r: usize)
    requires
        i <= v@.len(),
    ensures
        i <= r <= v@.len(),
        r as int == spec_ws_to(v@, i as int),
{
    let mut j: usize = i;
    while j < v.len() && is_json_ws_x(v[j])
        invariant
            i <= j <= v@.len(),
            spec_ws_to(v@, i as int) == spec_ws_to(v@, j as int),
        decreases v@.len() - j,
    {
        j = j + 1;
    }
    j
}

fn is_json_ws_x(c: char) -> (r: bool)
    ensures
        r == spec_is_json_ws(c),
{
    c == ' ' || c == '\t' || c == '\n' || c == '\r'
}

/// Matches a token, whitespace before it ignored.
fn x_tok(v: &Vec<char>, i: usize, lit: &str) -> (r: Option<usize>)
    requires
        i <= v@.len(),
    ensures
        match r {
            Option::Some(j) => i <= j <= v@.len() && p_tok(v@, i as int, lit@) == Option::Some(
                j as int,
            ),
            Option::None => p_tok(v@, i as int, lit@) is None,
        },
{
    let w = ws_skip(v, i);
    x_lit(v, w, lit)
}

fn x_jstr_ws(v: &Vec<char>, i: usize) -> (r: Option<(String, usize)>)
    requires
        i <= v@.len(),
    ensures
        match r {
            Option::Some((t, j)) => i < j <= v@.len() && p_jstr(v@, spec_ws_to(v@, i as int))
                == Option::Some((t@, j as int)),
            Option::None => p_jstr(v@, spec_ws_to(v@, i as int)) is None,
        },
{
    let w = ws_skip(v, i);
    x_jstr(v, w)
}


fn x_u64_ws(v: &Vec<char>, i: usize) -> (r: Option<(u64, usize)>)
    requires
        i <= v@.len(),
    ensures
        match r {
            Option::Some((n, j)) => i < j <= v@.len() && p_u64(v@, spec_ws_to(v@, i as int))
                == Option::Some((n, j as int)),
            Option::None => p_u64(v@, spec_ws_to(v@, i as int)) is None,
        },
{
    let w = ws_skip(v, i);
    x_u64(v, w)
}

fn x_u32_ws(v: &Vec<char>, i: usize) -> (r: Option<(u32, usize)>)
    requires
        i <= v@.len(),
    ensures
        match r {
            Option::Some((n, j)) => i < j <= v@.len() && p_u32(v@, spec_ws_to(v@, i as int))
                == Option::Some((n, j as int)),
            Option::None => p_u32(v@, spec_ws_to(v@, i as int)) is None,
        },
{
    let w = ws_skip(v, i);
    x_u32(v, w)
}

fn x_u16_ws(v: &Vec<char>, i: usize) -> (r: Option<(u16, usize)>)
    requires
        i <= v@.len(),
    ensures
        match r {
            Option::Some((n, j)) => i < j <= v@.len() && p_u16(v@, spec_ws_to(v@, i as int))
                == Option::Some((n, j as int)),
            Option::None => p_u16(v@, spec_ws_to(v@, i as int)) is None,
        },
{
    let w = ws_skip(v, i);
    x_u16(v, w)
}

fn x_i32_ws(v: &Vec<char>, i: usize) -> (r: Option<(i32, usize)>)
    requires
        i <= v@.len(),
    ensures
        match r {
            Option::Some((n, j)) => i < j <= v@.len() && p_i32(v@, spec_ws_to(v@, i as int))
                == Option::Some((n, j as int)),
            Option::None => p_i32(v@, spec_ws_to(v@, i as int)) is None,
        },
{
    let w = ws_skip(v, i);
    x_i32(v, w)
}

fn x_bool_ws(v: &Vec<char>, i: usize) -> (r: Option<(bool, usize)>)
    requires
        i <= v@.len(),
    ensures
        match r {
            Option::Some((b, j)) => i <= j <= v@.len() && p_bool(v@, spec_ws_to(v@, i as int))
                == Option::Some((b, j as int)),
            Option::None => p_bool(v@, spec_ws_to(v@, i as int)) is None,
        },
{
    let w = ws_skip(v, i);
    x_bool(v, w)
}


fn x_file(v: &Vec<char>, i: usize) -> (r: Option<(GitFileStatusMsg, usize)>)
    requires
        i <= v@.len(),
    ensures
        match r {
            Option::Some((m, j)) => i < j <= v@.len() && p_file(v@, i as int) == Option::Some(
                (m@, j as int),
            ),
            Option::None => p_file(v@, i as int) is None,
        },
{
    let q1 = match x_tok(v, i, "{") {
        Option::Some(j) => j,
        Option::None => {
            return Option::None;
        },
    };
    let q2 = match x_tok(v, q1, "\"path\":") {
        Option::Some(j) => j,
        Option::None => {
            return Option::None;
        },
    };
    let (w_path, q3) = match x_jstr_ws(v, q2) {
        Option::Some(p) => p,
        Option::None => {
            return Option::None;
        },
    };
    let q4 = match x_tok(v, q3, ",") {
        Option::Some(j) => j,
        Option::None => {
            return Option::None;
        },
    };
    let q5 = match x_tok(v, q4, "\"index_status\":") {
        Option::Some(j) => j,
        Option::None => {
            return Option::None;
        },
    };
    let (w_index_status, q6) = match x_jstr_ws(v, q5) {
        Option::Some(p) => p,
        Option::None => {
            return Option::None;
        },
    };
    let q7 = match x_tok(v, q6, ",") {
        Option::Some(j) => j,
        Option::None => {
            return Option::None;
        },
    };
    let q8 = match x_tok(v, q7, "\"worktree_status\":") {
        Option::Some(j) => j,
        Option::None => {
            return Option::None;
        },
    };
    let (w_worktree_status, q9) = match x_jstr_ws(v, q8) {
        Option::Some(p) => p,
        Option::None => {
            return Option::None;
        },
    };
    let q10 = match x_tok(v, q9, "}") {
        Option::Some(j) => j,
        Option::None => {
            return Option::None;
        },
    };
    Option::Some((GitFileStatusMsg { path: w_path, index_status: w_index_status, worktree_status: w_worktree_status }, q10))
}

fn x_file_list(v: &Vec<char>, i: usize) -> (r: Option<(Vec<GitFileStatusMsg>, usize)>)
    requires
        i <= v@.len(),
    ensures
        match r {
            Option::Some((fs, j)) => i <= j <= v@.len() && p_file_list(v@, i as int) == Option::Some(
                (files_view(fs@), j as int),
            ),
            Option::None => p_file_list(v@, i as int) is None,
        },
{
    let i1 = match x_tok(v, i, "[") {
        Option::Some(j) => j,
        Option::None => {
            return Option::None;
        },
    };
    let w = ws_skip(v, i1);
    if w < v.len() && v[w] == ']' {
        let out: Vec<GitFileStatusMsg> = Vec::new();
        assert(files_view(out@) =~= Seq::empty());
        return Option::Some((out, w + 1));
    }
    let mut out: Vec<GitFileStatusMsg> = Vec::new();
    let mut j: usize = i1;
    assert(files_view(out@) =~= Seq::empty());
    loop
        invariant
            i <= i1 <= j <= v@.len(),
            p_tok(v@, i as int, "["@) == Option::Some(i1 as int),
            !(spec_ws_to(v@, i1 as int) < v@.len() && v@[spec_ws_to(v@, i1 as int)] == ']'),
            p_file_items(v@, i1 as int, Seq::empty()) == p_file_items(
                v@,
                j as int,
                files_view(out@),
            ),
        decreases v@.len() - j,
    {
        let (f, j2) = match x_file(v, j) {
            Option::Some(p) => p,
            Option::None => {
                return Option::None;
            },
        };
        let ghost pre = files_view(out@);
        out.push(f);
        proof {
            assert(files_view(out@) =~= pre.push(out@[out@.len() - 1]@));
        }
        let k = ws_skip(v, j2);
        if k < v.len() && v[k] == ',' {
            j = k + 1;
        } else if k < v.len() && v[k] == ']' {
            return Option::Some((out, k + 1));
        } else {
            return Option::None;
        }
    }
}

fn x_str_list(v: &Vec<char>, i: usize) -> (r: Option<(Vec<String>, usize)>)
    requires
        i <= v@.len(),
    ensures
        match r {
            Option::Some((fs, j)) => i <= j <= v@.len() && p_str_list(v@, i as int) == Option::Some(
                (strings_view(fs@), j as int),
            ),
            Option::None => p_str_list(v@, i as int) is None,
        },
{
    let i1 = match x_tok(v, i, "[") {
        Option::Some(j) => j,
        Option::None => {
            return Option::None;
        },
    };
    let w = ws_skip(v, i1);
    if w < v.len() && v[w] == ']' {
        let out: Vec<String> = Vec::new();
        assert(strings_view(out@) =~= Seq::empty());
        return Option::Some((out, w + 1));
    }
    let mut out: Vec<String> = Vec::new();
    let mut j: usize = i1;
    assert(strings_view(out@) =~= Seq::empty());
    loop
        invariant
            i <= i1 <= j <= v@.len(),
            p_tok(v@, i as int, "["@) == Option::Some(i1 as int),
            !(spec_ws_to(v@, i1 as int) < v@.len() && v@[spec_ws_to(v@, i1 as int)] == ']'),
            p_str_items(v@, i1 as int, Seq::empty()) == p_str_items(
                v@,
                j as int,
                strings_view(out@),
            ),
        decreases v@.len() - j,
    {
        let (f, j2) = match x_jstr_ws(v, j) {
            Option::Some(p) => p,
            Option::None => {
                return Option::None;
            },
        };
        let ghost pre = strings_view(out@);
        out.push(f);
        proof {
            assert(strings_view(out@) =~= pre.push(out@[out@.len() - 1]@));
        }
        let k = ws_skip(v, j2);
        if k < v.len() && v[k] == ',' {
            j = k + 1;
        } else if k < v.len() && v[k] == ']' {
            return Option::Some((out, k + 1));
        } else {
            return Option::None;
        }
    }
}

fn x_comment(v: &Vec<char>, i: usize) -> (r: Option<(CommentItem, usize)>)
    requires
        i <= v@.len(),
    ensures
        match r {
            Option::Some((m, j)) => i < j <= v@.len() && p_comment(v@, i as int) == Option::Some(
                (m@, j as int),
            ),
            Option::None => p_comment(v@, i as int) is None,
        },
{
    let q1 = match x_tok(v, i, "{") {
        Option::Some(j) => j,
        Option::None => {
            return Option::None;
        },
    };
    let q2 = match x_tok(v, q1, "\"id\":") {
        Option::Some(j) => j,
        Option::None => {
            return Option::None;
        },
    };
    let (w_id, q3) = match x_jstr_ws(v, q2) {
        Option::Some(p) => p,
        Option::None => {
            return Option::None;
        },
    };
    let q4 = match x_tok(v, q3, ",") {
        Option::Some(j) => j,
        Option::None => {
            return Option::None;
        },
    };
    let q5 = match x_tok(v, q4, "\"file_path\":") {
        Option::Some(j) => j,
        Option::None => {
            return Option::None;
        },
    };
    let (w_file_path, q6) = match x_jstr_ws(v, q5) {
        Option::Some(p) => p,
        Option::None => {
            return Option::None;
        },
    };
    let q7 = match x_tok(v, q6, ",") {
        Option::Some(j) => j,
        Option::None => {
            return Option::None;
        },
    };
    let q8 = match x_tok(v, q7, "\"line_number\":") {
        Option::Some(j) => j,
        Option::None => {
            return Option::None;
        },
    };
    let (w_line_number, q9) = match x_u32_ws(v, q8) {
        Option::Some(p) => p,
        Option::None => {
            return Option::None;
        },
    };
    let q10 = match x_tok(v, q9, ",") {
        Option::Some(j) => j,
        Option::None => {
            return Option::None;
        },
    };
    let (w_end_line, q11): (Option<u32>, usize) = match x_tok(v, q10, "\"end_line\":") {
        Option::None => (Option::None, q10),
        Option::Some(c1) => match x_u32_ws(v, c1) {
            Option::None => {
                return Option::None;
            },
            Option::Some((t, c2)) => match x_tok(v, c2, ",") {
                Option::None => {
                    return Option::None;
                },
                Option::Some(c3) => (Option::Some(t), c3),
            },
        },
    };
    let q12 = match x_tok(v, q11, "\"content\":") {
        Option::Some(j) => j,
        Option::None => {
            return Option::None;
        },
    };
    let (w_content, q13) = match x_jstr_ws(v, q12) {
        Option::Some(p) => p,
        Option::None => {
            return Option::None;
        },
    };
    let q14 = match x_tok(v, q13, ",") {
        Option::Some(j) => j,
        Option::None => {
            return Option::None;
        },
    };
    let q15 = match x_tok(v, q14, "\"status\":") {
        Option::Some(j) => j,
        Option::None => {
            return Option::None;
        },
    };
    let (w_status, q16) = match x_jstr_ws(v, q15) {
        Option::Some(p) => p,
        Option::None => {
            return Option::None;
        },
    };
    let q17 = match x_tok(v, q16, ",") {
        Option::Some(j) => j,
        Option::None => {
            return Option::None;
        },
    };
    let q18 = match x_tok(v, q17, "\"created_at\":") {
        Option::Some(j) => j,
        Option::None => {
            return Option::None;
        },
    };
    let (w_created_at, q19) = match x_u64_ws(v, q18) {
        Option::Some(p) => p,
        Option::None => {
            return Option::None;
        },
    };
    let q20 = match x_tok(v, q19, "}") {
        Option::Some(j) => j,
        Option::None => {
            return Option::None;
        },
    };
    Option::Some((CommentItem { id: w_id, file_path: w_file_path, line_number: w_line_number, end_line: w_end_line, content: w_content, status: w_status, created_at: w_created_at }, q20))
}

fn x_comment_list(v: &Vec<char>, i: usize) -> (r: Option<(Vec<CommentItem>, usize)>)
    requires
        i <= v@.len(),
    ensures
        match r {
            Option::Some((fs, j)) => i <= j <= v@.len() && p_comment_list(v@, i as int) == Option::Some(
                (comments_view(fs@), j as int),
            ),
            Option::None => p_comment_list(v@, i as int) is None,
        },
{
    let i1 = match x_tok(v, i, "[") {
        Option::Some(j) => j,
        Option::None => {
            return Option::None;
        },
    };
    let w = ws_skip(v, i1);
    if w < v.len() && v[w] == ']' {
        let out: Vec<CommentItem> = Vec::new();
        assert(comments_view(out@) =~= Seq::empty());
        return Option::Some((out, w + 1));
    }
    let mut out: Vec<CommentItem> = Vec::new();
    let mut j: usize = i1;
    assert(comments_view(out@) =~= Seq::empty());
    loop
        invariant
            i <= i1 <= j <= v@.len(),
            p_tok(v@, i as int, "["@) == Option::Some(i1 as int),
            !(spec_ws_to(v@, i1 as int) < v@.len() && v@[spec_ws_to(v@, i1 as int)] == ']'),
            p_comment_items(v@, i1 as int, Seq::empty()) == p_comment_items(
                v@,
                j as int,
                comments_view(out@),
            ),
        decreases v@.len() - j,
    {
        let (f, j2) = match x_comment(v, j) {
            Option::Some(p) => p,
            Option::None => {
                return Option::None;
            },
        };
        let ghost pre = comments_view(out@);
        out.push(f);
        proof {
            assert(comments_view(out@) =~= pre.push(out@[out@.len() - 1]@));
        }
        let k = ws_skip(v, j2);
        if k < v.len() && v[k] == ',' {
            j = k + 1;
        } else if k < v.len() && v[k] == ']' {
            return Option::Some((out, k + 1));
        } else {
            return Option::None;
        }
    }
}

fn x_pl_auth_challenge(v: &Vec<char>, i: usize) -> (r: Option<(WsMessage, usize)>)
    requires
        i <= v@.len(),
    ensures
        match r {
            Option::Some((m, j)) => i <= j <= v@.len() && p_pl_auth_challenge(v@, i as int) == Option::Some(
                (m@, j as int),
            ),
            Option::None => p_pl_auth_challenge(v@, i as int) is None,
        },
{
    let q1 = match x_tok(v, i, "{") {
        Option::Some(j) => j,
        Option::None => {
            return Option::None;
        },
    };
    let q2 = match x_tok(v, q1, "\"challenge\":") {
        Option::Some(j) => j,
        Option::None => {
            return Option::None;
        },
    };
    let (w_challenge, q3) = match x_jstr_ws(v, q2) {
        Option::Some(p) => p,
        Option::None => {
            return Option::None;
        },
    };
    let q4 = match x_tok(v, q3, "}") {
        Option::Some(j) => j,
        Option::None => {
            return Option::None;
        },
    };
    Option::Some((WsMessage::AuthChallenge(AuthChallenge { challenge: w_challenge }), q4))
}

fn x_pl_auth_response(v: &Vec<char>, i: usize) -> (r: Option<(WsMessage, usize)>)
    requires
        i <= v@.len(),
    ensures
        match r {
            Option::Some((m, j)) => i <= j <= v@.len() && p_pl_auth_response(v@, i as int) == Option::Some(
                (m@, j as int),
            ),
            Option::None => p_pl_auth_response(v@, i as int) is None,
        },
{
    let q1 = match x_tok(v, i, "{") {
        Option::Some(j) => j,
        Option::None => {
            return Option::None;
        },
    };
    let q2 = match x_tok(v, q1, "\"hmac\":") {
        Option::Some(j) => j,
        Option::None => {
            return Option::None;
        },
    };
    let (w_hmac, q3) = match x_jstr_ws(v, q2) {
        Option::Some(p) => p,
        Option::None => {
            return Option::None;
        },
    };
    let q4 = match x_tok(v, q3, "}") {
        Option::Some(j) => j,
        Option::None => {
            return Option::None;
        },
    };
    Option::Some((WsMessage::AuthResponse(AuthResponse { hmac: w_hmac }), q4))
}

fn x_pl_auth_result(v: &Vec<char>, i: usize) -> (r: Option<(WsMessage, usize)>)
    requires
        i <= v@.len(),
    ensures
        match r {
            Option::Some((m, j)) => i <= j <= v@.len() && p_pl_auth_result(v@, i as int) == Option::Some(
                (m@, j as int),
            ),
            Option::None => p_pl_auth_result(v@, i as int) is None,
        },
{
    let q1 = match x_tok(v, i, "{") {
        Option::Some(j) => j,
        Option::None => {
            return Option::None;
        },
    };
    let q2 = match x_tok(v, q1, "\"success\":") {
        Option::Some(j) => j,
        Option::None => {
            return Option::None;
        },
    };
    let (w_success, q3) = match x_bool_ws(v, q2) {
        Option::Some(p) => p,
        Option::None => {
            return Option::None;
        },
    };
    let (w_message, q4): (Option<String>, usize) = match x_tok(v, q3, ",") {
        Option::None => (Option::None, q3),
        Option::Some(c1) => match x_tok(v, c1, "\"message\":") {
            Option::None => {
                return Option::None;
            },
            Option::Some(c2) => match x_jstr_ws(v, c2) {
                Option::None => {
                    return Option::None;
                },
                Option::Some((t, c3)) => (Option::Some(t), c3),
            },
        },
    };
    let q5 = match x_tok(v, q4, "}") {
        Option::Some(j) => j,
        Option::None => {
            return Option::None;
        },
    };
    Option::Some((WsMessage::AuthResult(AuthResult { success: w_success, message: w_message }), q5))
}

fn x_pl_pty_output(v: &Vec<char>, i: usize) -> (r: Option<(WsMessage, usize)>)
    requires
        i <= v@.len(),
    ensures
        match r {
            Option::Some((m, j)) => i <= j <= v@.len() && p_pl_pty_output(v@, i as int) == Option::Some(
                (m@, j as int),
            ),
            Option::None => p_pl_pty_output(v@, i as int) is None,
        },
{
    let q1 = match x_tok(v, i, "{") {
        Option::Some(j) => j,
        Option::None => {
            return Option::None;
        },
    };
    let q2 = match x_tok(v, q1, "\"pty_id\":") {
        Option::Some(j) => j,
        Option::None => {
            return Option::None;
        },
    };
    let (w_pty_id, q3) = match x_u64_ws(v, q2) {
        Option::Some(p) => p,
        Option::None => {
            return Option::None;
        },
    };
    let q4 = match x_tok(v, q3, ",") {
        Option::Some(j) => j,
        Option::None => {
            return Option::None;
        },
    };
    let q5 = match x_tok(v, q4, "\"data\":") {
        Option::Some(j) => j,
        Option::None => {
            return Option::None;
        },
    };
    let (w_data, q6) = match x_jstr_ws(v, q5) {
        Option::Some(p) => p,
        Option::None => {
            return Option::None;
        },
    };
    let q7 = match x_tok(v, q6, "}") {
        Option::Some(j) => j,
        Option::None => {
            return Option::None;
        },
    };
    Option::Some((WsMessage::PtyOutput(PtyOutputMsg { pty_id: w_pty_id, data: w_data }), q7))
}

fn x_pl_pty_exit(v: &Vec<char>, i: usize) -> (r: Option<(WsMessage, usize)>)
    requires
        i <= v@.len(),
    ensures
        match r {
            Option::Some((m, j)) => i <= j <= v@.len() && p_pl_pty_exit(v@, i as int) == Option::Some(
                (m@, j as int),
            ),
            Option::None => p_pl_pty_exit(v@, i as int) is None,
        },
{
    let q1 = match x_tok(v, i, "{") {
        Option::Some(j) => j,
        Option::None => {
            return Option::None;
        },
    };
    let q2 = match x_tok(v, q1, "\"pty_id\":") {
        Option::Some(j) => j,
        Option::None => {
            return Option::None;
        },
    };
    let (w_pty_id, q3) = match x_u64_ws(v, q2) {
        Option::Some(p) => p,
        Option::None => {
            return Option::None;
        },
    };
    let (w_exit_code, q4): (Option<i32>, usize) = match x_tok(v, q3, ",") {
        Option::None => (Option::None, q3),
        Option::Some(c1) => match x_tok(v, c1, "\"exit_code\":") {
            Option::None => {
                return Option::None;
            },
            Option::Some(c2) => match x_i32_ws(v, c2) {
                Option::None => {
                    return Option::None;
                },
                Option::Some((t, c3)) => (Option::Some(t), c3),
            },
        },
    };
    let q5 = match x_tok(v, q4, "}") {
        Option::Some(j) => j,
        Option::None => {
            return Option::None;
        },
    };
    Option::Some((WsMessage::PtyExit(PtyExitMsg { pty_id: w_pty_id, exit_code: w_exit_code }), q5))
}

fn x_pl_pty_input(v: &Vec<char>, i: usize) -> (r: Option<(WsMessage, usize)>)
    requires
        i <= v@.len(),
    ensures
        match r {
            Option::Some((m, j)) => i <= j <= v@.len() && p_pl_pty_input(v@, i as int) == Option::Some(
                (m@, j as int),
            ),
            Option::None => p_pl_pty_input(v@, i as int) is None,
        },
{
    let q1 = match x_tok(v, i, "{") {
        Option::Some(j) => j,
        Option::None => {
            return Option::None;
        },
    };
    let q2 = match x_tok(v, q1, "\"pty_id\":") {
        Option::Some(j) => j,
        Option::None => {
            return Option::None;
        },
    };
    let (w_pty_id, q3) = match x_u64_ws(v, q2) {
        Option::Some(p) => p,
        Option::None => {
            return Option::None;
        },
    };
    let q4 = match x_tok(v, q3, ",") {
        Option::Some(j) => j,
        Option::None => {
            return Option::None;
        },
    };
    let q5 = match x_tok(v, q4, "\"data\":") {
        Option::Some(j) => j,
        Option::None => {
            return Option::None;
        },
    };
    let (w_data, q6) = match x_jstr_ws(v, q5) {
        Option::Some(p) => p,
        Option::None => {
            return Option::None;
        },
    };
    let q7 = match x_tok(v, q6, "}") {
        Option::Some(j) => j,
        Option::None => {
            return Option::None;
        },
    };
    Option::Some((WsMessage::PtyInput(PtyInput { pty_id: w_pty_id, data: w_data }), q7))
}

fn x_pl_pty_resize(v: &Vec<char>, i: usize) -> (r: Option<(WsMessage, usize)>)
    requires
        i <= v@.len(),
    ensures
        match r {
            Option::Some((m, j)) => i <= j <= v@.len() && p_pl_pty_resize(v@, i as int) == Option::Some(
                (m@, j as int),
            ),
            Option::None => p_pl_pty_resize(v@, i as int) is None,
        },
{
    let q1 = match x_tok(v, i, "{") {
        Option::Some(j) => j,
        Option::None => {
            return Option::None;
        },
    };
    let q2 = match x_tok(v, q1, "\"pty_id\":") {
        Option::Some(j) => j,
        Option::None => {
            return Option::None;
        },
    };
    let (w_pty_id, q3) = match x_u64_ws(v, q2) {
        Option::Some(p) => p,
        Option::None => {
            return Option::None;
        },
    };
    let q4 = match x_tok(v, q3, ",") {
        Option::Some(j) => j,
        Option::None => {
            return Option::None;
        },
    };
    let q5 = match x_tok(v, q4, "\"rows\":") {
        Option::Some(j) => j,
        Option::None => {
            return Option::None;
        },
    };
    let (w_rows, q6) = match x_u16_ws(v, q5) {
        Option::Some(p) => p,
        Option::None => {
            return Option::None;
        },
    };
    let q7 = match x_tok(v, q6, ",") {
        Option::Some(j) => j,
        Option::None => {
            return Option::None;
        },
    };
    let q8 = match x_tok(v, q7, "\"cols\":") {
        Option::Some(j) => j,
        Option::None => {
            return Option::None;
        },
    };
    let (w_cols, q9) = match x_u16_ws(v, q8) {
        Option::Some(p) => p,
        Option::None => {
            return Option::None;
        },
    };
    let q10 = match x_tok(v, q9, "}") {
        Option::Some(j) => j,
        Option::None => {
            return Option::None;
        },
    };
    Option::Some((WsMessage::PtyResize(PtyResize { pty_id: w_pty_id, rows: w_rows, cols: w_cols }), q10))
}

fn x_pl_pty_ready(v: &Vec<char>, i: usize) -> (r: Option<(WsMessage, usize)>)
    requires
        i <= v@.len(),
    ensures
        match r {
            Option::Some((m, j)) => i <= j <= v@.len() && p_pl_pty_ready(v@, i as int) == Option::Some(
                (m@, j as int),
            ),
            Option::None => p_pl_pty_ready(v@, i as int) is None,
        },
{
    let q1 = match x_tok(v, i, "{") {
        Option::Some(j) => j,
        Option::None => {
            return Option::None;
        },
    };
    let q2 = match x_tok(v, q1, "\"pty_id\":") {
        Option::Some(j) => j,
        Option::None => {
            return Option::None;
        },
    };
    let (w_pty_id, q3) = match x_u64_ws(v, q2) {
        Option::Some(p) => p,
        Option::None => {
            return Option::None;
        },
    };
    let q4 = match x_tok(v, q3, ",") {
        Option::Some(j) => j,
        Option::None => {
            return Option::None;
        },
    };
    let q5 = match x_tok(v, q4, "\"cols\":") {
        Option::Some(j) => j,
        Option::None => {
            return Option::None;
        },
    };
    let (w_cols, q6) = match x_u16_ws(v, q5) {
        Option::Some(p) => p,
        Option::None => {
            return Option::None;
        },
    };
    let q7 = match x_tok(v, q6, ",") {
        Option::Some(j) => j,
        Option::None => {
            return Option::None;
        },
    };
    let q8 = match x_tok(v, q7, "\"rows\":") {
        Option::Some(j) => j,
        Option::None => {
            return Option::None;
        },
    };
    let (w_rows, q9) = match x_u16_ws(v, q8) {
        Option::Some(p) => p,
        Option::None => {
            return Option::None;
        },
    };
    let q10 = match x_tok(v, q9, "}") {
        Option::Some(j) => j,
        Option::None => {
            return Option::None;
        },
    };
    Option::Some((WsMessage::PtyReady(PtyReady { pty_id: w_pty_id, cols: w_cols, rows: w_rows }), q10))
}

fn x_pl_git_status_sync(v: &Vec<char>, i: usize) -> (r: Option<(WsMessage, usize)>)
    requires
        i <= v@.len(),
    ensures
        match r {
            Option::Some((m, j)) => i <= j <= v@.len() && p_pl_git_status_sync(v@, i as int) == Option::Some(
                (m@, j as int),
            ),
            Option::None => p_pl_git_status_sync(v@, i as int) is None,
        },
{
    let q1 = match x_tok(v, i, "{") {
        Option::Some(j) => j,
        Option::None => {
            return Option::None;
        },
    };
    let q2 = match x_tok(v, q1, "\"files\":") {
        Option::Some(j) => j,
        Option::None => {
            return Option::None;
        },
    };
    let (w_files, q3) = match x_file_list(v, q2) {
        Option::Some(p) => p,
        Option::None => {
            return Option::None;
        },
    };
    let q4 = match x_tok(v, q3, "}") {
        Option::Some(j) => j,
        Option::None => {
            return Option::None;
        },
    };
    Option::Some((WsMessage::GitStatusSync(GitStatusSync { files: w_files }), q4))
}

fn x_pl_file_content_request(v: &Vec<char>, i: usize) -> (r: Option<(WsMessage, usize)>)
    requires
        i <= v@.len(),
    ensures
        match r {
            Option::Some((m, j)) => i <= j <= v@.len() && p_pl_file_content_request(v@, i as int) == Option::Some(
                (m@, j as int),
            ),
            Option::None => p_pl_file_content_request(v@, i as int) is None,
        },
{
    let q1 = match x_tok(v, i, "{") {
        Option::Some(j) => j,
        Option::None => {
            return Option::None;
        },
    };
    let q2 = match x_tok(v, q1, "\"path\":") {
        Option::Some(j) => j,
        Option::None => {
            return Option::None;
        },
    };
    let (w_path, q3) = match x_jstr_ws(v, q2) {
        Option::Some(p) => p,
        Option::None => {
            return Option::None;
        },
    };
    let q4 = match x_tok(v, q3, "}") {
        Option::Some(j) => j,
        Option::None => {
            return Option::None;
        },
    };
    Option::Some((WsMessage::FileContentRequest(FileContentRequest { path: w_path }), q4))
}

fn x_pl_file_content_response(v: &Vec<char>, i: usize) -> (r: Option<(WsMessage, usize)>)
    requires
        i <= v@.len(),
    ensures
        match r {
            Option::Some((m, j)) => i <= j <= v@.len() && p_pl_file_content_response(v@, i as int) == Option::Some(
                (m@, j as int),
            ),
            Option::None => p_pl_file_content_response(v@, i as int) is None,
        },
{
    let q1 = match x_tok(v, i, "{") {
        Option::Some(j) => j,
        Option::None => {
            return Option::None;
        },
    };
    let q2 = match x_tok(v, q1, "\"path\":") {
        Option::Some(j) => j,
        Option::None => {
            return Option::None;
        },
    };
    let (w_path, q3) = match x_jstr_ws(v, q2) {
        Option::Some(p) => p,
        Option::None => {
            return Option::None;
        },
    };
    let q4 = match x_tok(v, q3, ",") {
        Option::Some(j) => j,
        Option::None => {
            return Option::None;
        },
    };
    let q5 = match x_tok(v, q4, "\"original\":") {
        Option::Some(j) => j,
        Option::None => {
            return Option::None;
        },
    };
    let (w_original, q6) = match x_jstr_ws(v, q5) {
        Option::Some(p) => p,
        Option::None => {
            return Option::None;
        },
    };
    let q7 = match x_tok(v, q6, ",") {
        Option::Some(j) => j,
        Option::None => {
            return Option::None;
        },
    };
    let q8 = match x_tok(v, q7, "\"modified\":") {
        Option::Some(j) => j,
        Option::None => {
            return Option::None;
        },
    };
    let (w_modified, q9) = match x_jstr_ws(v, q8) {
        Option::Some(p) => p,
        Option::None => {
            return Option::None;
        },
    };
    let q10 = match x_tok(v, q9, "}") {
        Option::Some(j) => j,
        Option::None => {
            return Option::None;
        },
    };
    Option::Some((WsMessage::FileContentResponse(FileContentResponse { path: w_path, original: w_original, modified: w_modified }), q10))
}

fn x_pl_file_change(v: &Vec<char>, i: usize) -> (r: Option<(WsMessage, usize)>)
    requires
        i <= v@.len(),
    ensures
        match r {
            Option::Some((m, j)) => i <= j <= v@.len() && p_pl_file_change(v@, i as int) == Option::Some(
                (m@, j as int),
            ),
            Option::None => p_pl_file_change(v@, i as int) is None,
        },
{
    let q1 = match x_tok(v, i, "{") {
        Option::Some(j) => j,
        Option::None => {
            return Option::None;
        },
    };
    let q2 = match x_tok(v, q1, "\"path\":") {
        Option::Some(j) => j,
        Option::None => {
            return Option::None;
        },
    };
    let (w_path, q3) = match x_jstr_ws(v, q2) {
        Option::Some(p) => p,
        Option::None => {
            return Option::None;
        },
    };
    let q4 = match x_tok(v, q3, ",") {
        Option::Some(j) => j,
        Option::None => {
            return Option::None;
        },
    };
    let q5 = match x_tok(v, q4, "\"kind\":") {
        Option::Some(j) => j,
        Option::None => {
            return Option::None;
        },
    };
    let (w_kind, q6) = match x_jstr_ws(v, q5) {
        Option::Some(p) => p,
        Option::None => {
            return Option::None;
        },
    };
    let q7 = match x_tok(v, q6, "}") {
        Option::Some(j) => j,
        Option::None => {
            return Option::None;
        },
    };
    Option::Some((WsMessage::FileChange(FileChange { path: w_path, kind: w_kind }), q7))
}

fn x_pl_git_status_request(v: &Vec<char>, i: usize) -> (r: Option<(WsMessage, usize)>)
    requires
        i <= v@.len(),
    ensures
        match r {
            Option::Some((m, j)) => i <= j <= v@.len() && p_pl_git_status_request(v@, i as int) == Option::Some(
                (m@, j as int),
            ),
            Option::None => p_pl_git_status_request(v@, i as int) is None,
        },
{
    let q1 = match x_tok(v, i, "{") {
        Option::Some(j) => j,
        Option::None => {
            return Option::None;
        },
    };
    let q2 = match x_tok(v, q1, "}") {
        Option::Some(j) => j,
        Option::None => {
            return Option::None;
        },
    };
    Option::Some((WsMessage::GitStatusRequest(GitStatusRequest {}), q2))
}

fn x_pl_paths(v: &Vec<char>, i: usize, unstage: bool) -> (r: Option<(WsMessage, usize)>)
    requires
        i <= v@.len(),
    ensures
        match r {
            Option::Some((m, j)) => i <= j <= v@.len() && p_pl_paths(v@, i as int, unstage) == Option::Some(
                (m@, j as int),
            ),
            Option::None => p_pl_paths(v@, i as int, unstage) is None,
        },
{
    let q1 = match x_tok(v, i, "{") {
        Option::Some(j) => j,
        Option::None => {
            return Option::None;
        },
    };
    let q2 = match x_tok(v, q1, "\"paths\":") {
        Option::Some(j) => j,
        Option::None => {
            return Option::None;
        },
    };
    let (w_paths, q3) = match x_str_list(v, q2) {
        Option::Some(p) => p,
        Option::None => {
            return Option::None;
        },
    };
    let q4 = match x_tok(v, q3, "}") {
        Option::Some(j) => j,
        Option::None => {
            return Option::None;
        },
    };
    Option::Some(((if unstage { WsMessage::GitUnstage(GitUnstage { paths: w_paths }) } else { WsMessage::GitStage(GitStage { paths: w_paths }) }), q4))
}

fn x_pl_git_stage_result(v: &Vec<char>, i: usize) -> (r: Option<(WsMessage, usize)>)
    requires
        i <= v@.len(),
    ensures
        match r {
            Option::Some((m, j)) => i <= j <= v@.len() && p_pl_git_stage_result(v@, i as int) == Option::Some(
                (m@, j as int),
            ),
            Option::None => p_pl_git_stage_result(v@, i as int) is None,
        },
{
    let q1 = match x_tok(v, i, "{") {
        Option::Some(j) => j,
        Option::None => {
            return Option::None;
        },
    };
    let q2 = match x_tok(v, q1, "\"success\":") {
        Option::Some(j) => j,
        Option::None => {
            return Option::None;
        },
    };
    let (w_success, q3) = match x_bool_ws(v, q2) {
        Option::Some(p) => p,
        Option::None => {
            return Option::None;
        },
    };
    let q4 = match x_tok(v, q3, ",") {
        Option::Some(j) => j,
        Option::None => {
            return Option::None;
        },
    };
    let (w_error, q5): (Option<String>, usize) = match x_tok(v, q4, "\"error\":") {
        Option::None => (Option::None, q4),
        Option::Some(c1) => match x_jstr_ws(v, c1) {
            Option::None => {
                return Option::None;
            },
            Option::Some((t, c2)) => match x_tok(v, c2, ",") {
                Option::None => {
                    return Option::None;
                },
                Option::Some(c3) => (Option::Some(t), c3),
            },
        },
    };
    let q6 = match x_tok(v, q5, "\"files\":") {
        Option::Some(j) => j,
        Option::None => {
            return Option::None;
        },
    };
    let (w_files, q7) = match x_file_list(v, q6) {
        Option::Some(p) => p,
        Option::None => {
            return Option::None;
        },
    };
    let q8 = match x_tok(v, q7, "}") {
        Option::Some(j) => j,
        Option::None => {
            return Option::None;
        },
    };
    Option::Some((WsMessage::GitStageResult(GitStageResult { success: w_success, error: w_error, files: w_files }), q8))
}

fn x_pl_add_comment(v: &Vec<char>, i: usize) -> (r: Option<(WsMessage, usize)>)
    requires
        i <= v@.len(),
    ensures
        match r {
            Option::Some((m, j)) => i <= j <= v@.len() && p_pl_add_comment(v@, i as int) == Option::Some(
                (m@, j as int),
            ),
            Option::None => p_pl_add_comment(v@, i as int) is None,
        },
{
    let q1 = match x_tok(v, i, "{") {
        Option::Some(j) => j,
        Option::None => {
            return Option::None;
        },
    };
    let q2 = match x_tok(v, q1, "\"file_path\":") {
        Option::Some(j) => j,
        Option::None => {
            return Option::None;
        },
    };
    let (w_file_path, q3) = match x_jstr_ws(v, q2) {
        Option::Some(p) => p,
        Option::None => {
            return Option::None;
        },
    };
    let q4 = match x_tok(v, q3, ",") {
        Option::Some(j) => j,
        Option::None => {
            return Option::None;
        },
    };
    let q5 = match x_tok(v, q4, "\"line_number\":") {
        Option::Some(j) => j,
        Option::None => {
            return Option::None;
        },
    };
    let (w_line_number, q6) = match x_u32_ws(v, q5) {
        Option::Some(p) => p,
        Option::None => {
            return Option::None;
        },
    };
    let q7 = match x_tok(v, q6, ",") {
        Option::Some(j) => j,
        Option::None => {
            return Option::None;
        },
    };
    let (w_end_line, q8): (Option<u32>, usize) = match x_tok(v, q7, "\"end_line\":") {
        Option::None => (Option::None, q7),
        Option::Some(c1) => match x_u32_ws(v, c1) {
            Option::None => {
                return Option::None;
            },
            Option::Some((t, c2)) => match x_tok(v, c2, ",") {
                Option::None => {
                    return Option::None;
                },
                Option::Some(c3) => (Option::Some(t), c3),
            },
        },
    };
    let q9 = match x_tok(v, q8, "\"content\":") {
        Option::Some(j) => j,
        Option::None => {
            return Option::None;
        },
    };
    let (w_content, q10) = match x_jstr_ws(v, q9) {
        Option::Some(p) => p,
        Option::None => {
            return Option::None;
        },
    };
    let q11 = match x_tok(v, q10, "}") {
        Option::Some(j) => j,
        Option::None => {
            return Option::None;
        },
    };
    Option::Some((WsMessage::AddComment(AddComment { file_path: w_file_path, line_number: w_line_number, end_line: w_end_line, content: w_content }), q11))
}

fn x_pl_comments_sync(v: &Vec<char>, i: usize) -> (r: Option<(WsMessage, usize)>)
    requires
        i <= v@.len(),
    ensures
        match r {
            Option::Some((m, j)) => i <= j <= v@.len() && p_pl_comments_sync(v@, i as int) == Option::Some(
                (m@, j as int),
            ),
            Option::None => p_pl_comments_sync(v@, i as int) is None,
        },
{
    let q1 = match x_tok(v, i, "{") {
        Option::Some(j) => j,
        Option::None => {
            return Option::None;
        },
    };
    let q2 = match x_tok(v, q1, "\"comments\":") {
        Option::Some(j) => j,
        Option::None => {
            return Option::None;
        },
    };
    let (w_comments, q3) = match x_comment_list(v, q2) {
        Option::Some(p) => p,
        Option::None => {
            return Option::None;
        },
    };
    let q4 = match x_tok(v, q3, "}") {
        Option::Some(j) => j,
        Option::None => {
            return Option::None;
        },
    };
    Option::Some((WsMessage::CommentsSync(CommentSync { comments: w_comments }), q4))
}

fn x_pl_error(v: &Vec<char>, i: usize) -> (r: Option<(WsMessage, usize)>)
    requires
        i <= v@.len(),
    ensures
        match r {
            Option::Some((m, j)) => i <= j <= v@.len() && p_pl_error(v@, i as int) == Option::Some(
                (m@, j as int),
            ),
            Option::None => p_pl_error(v@, i as int) is None,
        },
{
    let q1 = match x_tok(v, i, "{") {
        Option::Some(j) => j,
        Option::None => {
            return Option::None;
        },
    };
    let q2 = match x_tok(v, q1, "\"code\":") {
        Option::Some(j) => j,
        Option::None => {
            return Option::None;
        },
    };
    let (w_code, q3) = match x_jstr_ws(v, q2) {
        Option::Some(p) => p,
        Option::None => {
            return Option::None;
        },
    };
    let q4 = match x_tok(v, q3, ",") {
        Option::Some(j) => j,
        Option::None => {
            return Option::None;
        },
    };
    let q5 = match x_tok(v, q4, "\"message\":") {
        Option::Some(j) => j,
        Option::None => {
            return Option::None;
        },
    };
    let (w_message, q6) = match x_jstr_ws(v, q5) {
        Option::Some(p) => p,
        Option::None => {
            return Option::None;
        },
    };
    let q7 = match x_tok(v, q6, "}") {
        Option::Some(j) => j,
        Option::None => {
            return Option::None;
        },
    };
    Option::Some((WsMessage::Error(ErrorMsg { code: w_code, message: w_message }), q7))
}

/// Reads one JSON text frame back into a message.  Every text that
/// `serialize_message` writes is read back as itself; standard string
/// escapes and insignificant whitespace are also understood; anything
/// else, a frame with an unknown tag included, is rejected.
pub fn deserialize_message(json: &str) -> (r: Result<WsMessage, String>)
    ensures
        r is Ok <==> dec_msg(json@) is Some,
        r matches Ok(m) ==> dec_msg(json@) == Option::Some(m@),
{
    let v = chars_vec(json);
    let i1 = match x_tok(&v, 0, "{") {
        Option::Some(j) => j,
        Option::None => return Result::Err("invalid message frame".to_owned()),
    };
    let i2 = match x_tok(&v, i1, "\"type\":") {
        Option::Some(j) => j,
        Option::None => return Result::Err("invalid message frame".to_owned()),
    };
    let w2 = ws_skip(&v, i2);
    let (tag, i3) = match x_jstr_raw(&v, w2) {
        Option::Some(p) => p,
        Option::None => return Result::Err("invalid message frame".to_owned()),
    };
    let i4 = match x_tok(&v, i3, ",") {
        Option::Some(j) => j,
        Option::None => return Result::Err("invalid message frame".to_owned()),
    };
    let i5 = match x_tok(&v, i4, "\"payload\":") {
        Option::Some(j) => j,
        Option::None => return Result::Err("invalid message frame".to_owned()),
    };
    let (m, i6) = match x_payload(&tag, &v, i5) {
        Option::Some(p) => p,
        Option::None => return Result::Err("invalid message frame".to_owned()),
    };
    let i7 = match x_tok(&v, i6, "}") {
        Option::Some(j) => j,
        Option::None => return Result::Err("invalid message frame".to_owned()),
    };
    let w_end = ws_skip(&v, i7);
    if w_end == v.len() {
        Result::Ok(m)
    } else {
        Result::Err("invalid message frame".to_owned())
    }
}

fn x_jstr_raw(v: &Vec<char>, i: usize) -> (r: Option<(Vec<char>, usize)>)
    ensures
        match r {
            Option::Some((t, j)) => i < j <= v@.len() && p_jstr(v@, i as int) == Option::Some(
                (t@, j as int),
            ),
            Option::None => p_jstr(v@, i as int) is None,
        },
{
    if i >= v.len() {
        return Option::None;
    }
    if v[i] != '"' {
        return Option::None;
    }
    match x_qstr(v, i + 1) {
        Option::Some((t, j)) => Option::Some((t, j)),
        Option::None => Option::None,
    }
}

fn x_payload(tag: &Vec<char>, v: &Vec<char>, i: usize) -> (r: Option<(WsMessage, usize)>)
    requires
        i <= v@.len(),
    ensures
        match r {
            Option::Some((m, j)) => i <= j <= v@.len() && dec_payload(tag@, v@, i as int)
                == Option::Some((m@, j as int)),
            Option::None => dec_payload(tag@, v@, i as int) is None,
        },
{
    if crate::strutil::chars_eq_str(tag, "auth_challenge") {
        x_pl_auth_challenge(v, i)
    } else if crate::strutil::chars_eq_str(tag, "auth_response") {
        x_pl_auth_response(v, i)
    } else if crate::strutil::chars_eq_str(tag, "auth_result") {
        x_pl_auth_result(v, i)
    } else if crate::strutil::chars_eq_str(tag, "pty_output") {
        x_pl_pty_output(v, i)
    } else if crate::strutil::chars_eq_str(tag, "pty_exit") {
        x_pl_pty_exit(v, i)
    } else if crate::strutil::chars_eq_str(tag, "pty_input") {
        x_pl_pty_input(v, i)
    } else if crate::strutil::chars_eq_str(tag, "pty_resize") {
        x_pl_pty_resize(v, i)
    } else if crate::strutil::chars_eq_str(tag, "pty_ready") {
        x_pl_pty_ready(v, i)
    } else if crate::strutil::chars_eq_str(tag, "git_status_sync") {
        x_pl_git_status_sync(v, i)
    } else if crate::strutil::chars_eq_str(tag, "file_content_request") {
        x_pl_file_content_request(v, i)
    } else if crate::strutil::chars_eq_str(tag, "file_content_response") {
        x_pl_file_content_response(v, i)
    } else if crate::strutil::chars_eq_str(tag, "file_change") {
        x_pl_file_change(v, i)
    } else if crate::strutil::chars_eq_str(tag, "git_status_request") {
        x_pl_git_status_request(v, i)
    } else if crate::strutil::chars_eq_str(tag, "git_stage") {
        x_pl_paths(v, i, false)
    } else if crate::strutil::chars_eq_str(tag, "git_unstage") {
        x_pl_paths(v, i, true)
    } else if crate::strutil::chars_eq_str(tag, "git_stage_result") {
        x_pl_git_stage_result(v, i)
    } else if crate::strutil::chars_eq_str(tag, "add_comment") {
        x_pl_add_comment(v, i)
    } else if crate::strutil::chars_eq_str(tag, "comments_sync") {
        x_pl_comments_sync(v, i)
    } else if crate::strutil::chars_eq_str(tag, "error") {
        x_pl_error(v, i)
    } else {
        Option::None
    }
}


// ---------------------------------------------------------------------------
// Round trip: decoding an encoded frame gives the frame back
// ---------------------------------------------------------------------------

/// Characters that are written as themselves inside a JSON string.
pub open spec fn plain_str(t: Seq<char>) -> bool {
    forall|k: int|
        0 <= k < t.len() ==> ((#[trigger] t[k] as int) >= 32 && t[k] != '"' && t[k] != '\\')
}

proof fn lemma_p_lit_prefix(s: Seq<char>, i: int, lit: Seq<char>, rest: Seq<char>)
    requires
        0 <= i <= s.len(),
        s.skip(i) == lit + rest,
    ensures
        p_lit(s, i, lit) == Option::Some(i + lit.len() as int),
        s.skip(i + lit.len()) == rest,
{
    assert(s.skip(i).len() == s.len() - i);
    assert((lit + rest).len() == lit.len() + rest.len());
    assert(s.len() - i == lit.len() + rest.len());
    assert(s.subrange(i, i + lit.len() as int) =~= lit) by {
        assert forall|k: int| 0 <= k < lit.len() implies s.subrange(i, i + lit.len() as int)[k]
            == lit[k] by {
            assert(s.subrange(i, i + lit.len() as int)[k] == s[i + k]);
            assert(s.skip(i)[k] == s[i + k]);
            assert((lit + rest)[k] == lit[k]);
        }
    }
    assert(s.skip(i + lit.len()) =~= rest) by {
        assert forall|k: int| 0 <= k < rest.len() implies s.skip(i + lit.len())[k] == rest[k] by {
            assert(s.skip(i + lit.len())[k] == s[i + lit.len() + k]);
            assert(s.skip(i)[lit.len() + k] == s[i + lit.len() + k]);
            assert((lit + rest)[lit.len() + k] == rest[k]);
        }
    }
}

proof fn lemma_char_bounds(c: char)
    ensures
        0 <= c as int <= 0x10FFFF,
{
}

proof fn lemma_hex_val_digit(d: int)
    requires
        0 <= d < 16,
    ensures
        spec_is_hex_digit(spec_hex_digit(d)),
        spec_hex_val(spec_hex_digit(d)) == d,
{
}

proof fn lemma_p_qstr_round(s: Seq<char>, i: int, acc: Seq<char>, t: Seq<char>, rest: Seq<char>)
    requires
        0 <= i <= s.len(),
        s.skip(i) == esc_str(t) + seq!['"'] + rest,
    ensures
        p_qstr(s, i, acc) == Option::Some((acc + t, i + esc_str(t).len() + 1)),
        s.skip(i + esc_str(t).len() + 1) == rest,
    decreases t.len(),
{
    if t.len() == 0 {
        assert(esc_str(t) =~= Seq::<char>::empty());
        assert(s.skip(i) =~= seq!['"'] + rest);
        assert(s.skip(i).len() == s.len() - i);
        assert(s.len() - i >= 1);
        assert(i < s.len());
        assert(s.skip(i)[0] == s[i]);
        assert(s[i] == '"');
        assert(i < s.len());
        assert(acc + t =~= acc);
        lemma_p_lit_prefix(s, i, seq!['"'], rest);
        assert(s.skip(i + 1) == rest);
    } else {
        let c = t[0];
        let t1 = t.skip(1);
        let e = esc_char(c);
        assert(esc_str(t) == e + esc_str(t1));
        let tail = esc_str(t1) + seq!['"'] + rest;
        assert(s.skip(i) =~= e + tail);
        lemma_p_lit_prefix(s, i, e, tail);
        assert(s.skip(i + e.len()) == tail);
        assert(s.skip(i).len() == s.len() - i);
        assert(i + e.len() <= s.len());
        assert forall|k: int| 0 <= k < e.len() implies s[i + k] == e[k] by {
            assert(s.skip(i)[k] == s[i + k]);
            assert((e + tail)[k] == e[k]);
        }
        lemma_char_bounds(c);
        if c == '"' {
            assert(e =~= seq!['\\', '"']);
            assert(e[0] == '\\' && e[1] == '"');
            assert(s[i + 0] == e[0] && s[i + 1] == e[1]);
            assert(s[i] == '\\' && s[i + 1] == '"');
            lemma_p_qstr_round(s, i + 2, acc.push('"'), t1, rest);
            assert(acc.push('"') + t1 =~= acc + t);
        } else if c == '\\' {
            assert(e =~= seq!['\\', '\\']);
            assert(e[0] == '\\' && e[1] == '\\');
            assert(s[i + 0] == e[0] && s[i + 1] == e[1]);
            assert(s[i] == '\\' && s[i + 1] == '\\');
            lemma_p_qstr_round(s, i + 2, acc.push('\\'), t1, rest);
            assert(acc.push('\\') + t1 =~= acc + t);
        } else if (c as int) < 32 {
            let d0 = c as int / 16;
            let d1 = c as int % 16;
            assert(0 <= d0 < 16);
            assert(0 <= d1 < 16);
            assert(e =~= seq!['\\', 'u', '0', '0', spec_hex_digit(d0), spec_hex_digit(d1)]);
            assert(s[i + 0] == e[0] && s[i + 1] == e[1] && s[i + 2] == e[2] && s[i + 3] == e[3]
                && s[i + 4] == e[4] && s[i + 5] == e[5]);
            assert(s[i] == '\\' && s[i + 1] == 'u' && s[i + 2] == '0' && s[i + 3] == '0');
            assert(s[i + 4] == spec_hex_digit(d0) && s[i + 5] == spec_hex_digit(d1));
            lemma_hex_val_digit(d0);
            lemma_hex_val_digit(d1);
            assert('u' != '"' && 'u' != '\\');
            let v = 16 * spec_hex_val(s[i + 4]) + spec_hex_val(s[i + 5]);
            assert(v == c as int);
            assert((v as char) == c);
            lemma_p_qstr_round(s, i + 6, acc.push(c), t1, rest);
            assert(acc.push(c) + t1 =~= acc + t);
        } else {
            assert(e =~= seq![c]);
            assert(e[0] == c);
            assert(s[i + 0] == e[0]);
            assert(s[i] == c);
            lemma_p_qstr_round(s, i + 1, acc.push(c), t1, rest);
            assert(acc.push(c) + t1 =~= acc + t);
        }
    }
}

proof fn lemma_p_jstr_round(s: Seq<char>, i: int, t: Seq<char>, rest: Seq<char>)
    requires
        0 <= i <= s.len(),
        s.skip(i) == enc_str(t) + rest,
    ensures
        p_jstr(s, i) == Option::Some((t, i + enc_str(t).len())),
        s.skip(i + enc_str(t).len()) == rest,
{
    assert(s.skip(i) =~= seq!['"'] + (esc_str(t) + seq!['"'] + rest));
    lemma_p_lit_prefix(s, i, seq!['"'], esc_str(t) + seq!['"'] + rest);
    assert(s[i] == '"') by {
        assert(s.skip(i)[0] == s[i]);
    }
    assert(i < s.len());
    lemma_p_qstr_round(s, i + 1, Seq::empty(), t, rest);
    assert(Seq::<char>::empty() + t =~= t);
    assert(i + enc_str(t).len() == i + 1 + esc_str(t).len() + 1);
}

// Folding a digit run onto an accumulator, as `p_digits` does.
spec fn fold_digits(acc: nat, ds: Seq<char>) -> nat
    decreases ds.len(),
{
    if ds.len() == 0 {
        acc
    } else {
        fold_digits(acc * 10 + (ds[0] as int - 48) as nat, ds.skip(1))
    }
}

proof fn lemma_fold_digits_concat(acc: nat, a: Seq<char>, b: Seq<char>)
    ensures
        fold_digits(acc, a + b) == fold_digits(fold_digits(acc, a), b),
    decreases a.len(),
{
    if a.len() == 0 {
        assert(a + b =~= b);
    } else {
        let acc1 = acc * 10 + (a[0] as int - 48) as nat;
        assert((a + b).skip(1) =~= a.skip(1) + b);
        assert((a + b)[0] == a[0]);
        lemma_fold_digits_concat(acc1, a.skip(1), b);
    }
}

proof fn lemma_fold_dec_nat(n: nat)
    ensures
        fold_digits(0, spec_dec_nat(n)) == n,
    decreases n,
{
    if n < 10 {
        assert(spec_dec_nat(n) =~= seq![spec_digit_char(n as int)]);
        assert(spec_digit_char(n as int) as int == 48 + n);
        assert((spec_digit_char(n as int) as int - 48) as nat == n);
        assert(spec_dec_nat(n).skip(1) =~= Seq::<char>::empty());
        assert(spec_dec_nat(n)[0] == spec_digit_char(n as int));
        assert(fold_digits(0, spec_dec_nat(n)) == fold_digits(n, spec_dec_nat(n).skip(1)));
    } else {
        lemma_fold_dec_nat(n / 10);
        let d = seq![spec_digit_char((n % 10) as int)];
        lemma_fold_digits_concat(0, spec_dec_nat(n / 10), d);
        assert(d[0] == spec_digit_char((n % 10) as int));
        assert(d.skip(1) =~= Seq::<char>::empty());
        assert(spec_digit_char((n % 10) as int) as int == 48 + n % 10);
        assert(fold_digits(n / 10, d) == fold_digits(
            (n / 10) * 10 + (d[0] as int - 48) as nat,
            d.skip(1),
        ));
        assert(fold_digits((n / 10) * 10 + (d[0] as int - 48) as nat, d.skip(1)) == (n / 10) * 10 + (
        d[0] as int - 48) as nat);
        assert(fold_digits(n / 10, d) == (n / 10) * 10 + ((spec_digit_char((n % 10) as int) as int
            - 48) as nat));
        assert((spec_digit_char((n % 10) as int) as int - 48) as nat == n % 10);
        assert((n / 10) * 10 + n % 10 == n) by (nonlinear_arith);
    }
}

proof fn lemma_dec_nat_first(n: nat)
    ensures
        n >= 10 ==> spec_dec_nat(n)[0] != '0',
        n >= 1 ==> spec_dec_nat(n)[0] != '0',
    decreases n,
{
    crate::strutil::lemma_dec_nat_digits(n);
    if n >= 10 {
        lemma_dec_nat_first(n / 10);
        assert(spec_dec_nat(n)[0] == spec_dec_nat(n / 10)[0]);
    } else if n >= 1 {
        assert(spec_dec_nat(n) =~= seq![spec_digit_char(n as int)]);
        assert(spec_digit_char(n as int) as int == 48 + n);
    }
}

proof fn lemma_p_digits_run(s: Seq<char>, i: int, acc: nat, ds: Seq<char>, rest: Seq<char>)
    requires
        0 <= i <= s.len(),
        s.skip(i) == ds + rest,
        forall|k: int| 0 <= k < ds.len() ==> spec_is_digit(#[trigger] ds[k]),
        rest.len() == 0 || !spec_is_digit(rest[0]),
    ensures
        p_digits(s, i, acc) == (fold_digits(acc, ds), i + ds.len()),
        s.skip(i + ds.len()) == rest,
    decreases ds.len(),
{
    assert(s.skip(i).len() == s.len() - i);
    assert((ds + rest).len() == ds.len() + rest.len());
    if ds.len() == 0 {
        assert(s.skip(i) =~= rest);
        if i < s.len() {
            assert(s[i] == rest[0]) by {
                assert(s.skip(i)[0] == s[i]);
            }
        }
    } else {
        assert(i < s.len());
        assert(s.skip(i)[0] == s[i]);
        assert((ds + rest)[0] == ds[0]);
        assert(spec_is_digit(s[i]));
        assert(s.skip(i + 1) =~= ds.skip(1) + rest) by {
            assert forall|k: int| 0 <= k < s.len() - i - 1 implies s.skip(i + 1)[k] == (ds.skip(1)
                + rest)[k] by {
                assert(s.skip(i + 1)[k] == s[i + 1 + k]);
                assert(s.skip(i)[k + 1] == s[i + 1 + k]);
                if k + 1 < ds.len() {
                    assert((ds + rest)[k + 1] == ds[k + 1]);
                    assert((ds.skip(1) + rest)[k] == ds.skip(1)[k]);
                    assert(ds.skip(1)[k] == ds[k + 1]);
                } else {
                    assert((ds + rest)[k + 1] == rest[k + 1 - ds.len()]);
                    assert((ds.skip(1) + rest)[k] == rest[k - (ds.len() - 1)]);
                }
            }
        }
        lemma_p_digits_run(s, i + 1, acc * 10 + (s[i] as int - 48) as nat, ds.skip(1), rest);
    }
}

proof fn lemma_p_u64_round(s: Seq<char>, i: int, n: u64, rest: Seq<char>)
    requires
        0 <= i <= s.len(),
        s.skip(i) == spec_dec_nat(n as nat) + rest,
        rest.len() == 0 || !spec_is_digit(rest[0]),
    ensures
        p_u64(s, i) == Option::Some((n, i + spec_dec_nat(n as nat).len())),
        s.skip(i + spec_dec_nat(n as nat).len()) == rest,
{
    let ds = spec_dec_nat(n as nat);
    crate::strutil::lemma_dec_nat_digits(n as nat);
    lemma_p_digits_run(s, i, 0, ds, rest);
    lemma_fold_dec_nat(n as nat);
    assert(s.skip(i)[0] == s[i]);
    assert((ds + rest)[0] == ds[0]);
    assert(spec_is_digit(s[i]));
    assert(i < s.len());
    lemma_dec_nat_first(n as nat);
    if n == 0 {
        assert(ds =~= seq![spec_digit_char(0)]);
        assert(ds.len() == 1);
    } else {
        assert(s[i] == ds[0]);
        assert(ds[0] != '0');
        assert(spec_digit_char(0) as int == 48);
        assert(s[i] != '0');
    }
}

proof fn lemma_p_i32_round(s: Seq<char>, i: int, n: i32, rest: Seq<char>)
    requires
        0 <= i <= s.len(),
        s.skip(i) == enc_i32(n) + rest,
        rest.len() == 0 || !spec_is_digit(rest[0]),
    ensures
        p_i32(s, i) == Option::Some((n, i + enc_i32(n).len())),
        s.skip(i + enc_i32(n).len()) == rest,
{
    if n < 0 {
        let m = (-(n as int)) as nat;
        assert(s.skip(i) =~= seq!['-'] + (spec_dec_nat(m) + rest));
        lemma_p_lit_prefix(s, i, seq!['-'], spec_dec_nat(m) + rest);
        assert(s[i] == '-') by {
            assert(s.skip(i)[0] == s[i]);
        }
        assert(i < s.len());
        lemma_p_u64_round(s, i + 1, m as u64, rest);
        assert(1 <= m as u64 && m as u64 <= 2147483648u64);
        assert(((-(m as int)) as i32) == n);
    } else {
        assert(s.skip(i) == spec_dec_nat(n as nat) + rest);
        lemma_p_u64_round(s, i, n as u64, rest);
        crate::strutil::lemma_dec_nat_digits(n as nat);
        assert(s.skip(i)[0] == s[i]);
        assert(spec_is_digit(s[i]));
        assert(s[i] != '-');
        assert(n as u64 <= 2147483647u64);
        assert((n as u64) as i32 == n);
    }
}

proof fn lemma_p_bool_round(s: Seq<char>, i: int, b: bool, rest: Seq<char>)
    requires
        0 <= i <= s.len(),
        s.skip(i) == enc_bool(b) + rest,
    ensures
        p_bool(s, i) == Option::Some((b, i + enc_bool(b).len())),
        s.skip(i + enc_bool(b).len()) == rest,
{
    reveal_strlit("true");
    reveal_strlit("false");
    if b {
        lemma_p_lit_prefix(s, i, "true"@, rest);
    } else {
        lemma_p_lit_prefix(s, i, "false"@, rest);
        assert(p_lit(s, i, "true"@) is None) by {
            if p_lit(s, i, "true"@) is Some {
                assert(s.subrange(i, i + 4)[0] == s[i]);
                assert(s.skip(i)[0] == s[i]);
                assert(s[i] == 'f');
                assert(("true"@)[0] == 't');
            }
        }
    }
}


proof fn lemma_p_lit_mismatch(s: Seq<char>, i: int, lit: Seq<char>, k: int)
    requires
        0 <= i,
        0 <= k < lit.len(),
        i + k < s.len(),
        s[i + k] != lit[k],
    ensures
        p_lit(s, i, lit) is None,
{
    if p_lit(s, i, lit) is Some {
        assert(s.subrange(i, i + lit.len() as int)[k] == s[i + k]);
    }
}

proof fn lemma_esc_plain(t: Seq<char>)
    requires
        plain_str(t),
    ensures
        esc_str(t) == t,
    decreases t.len(),
{
    if t.len() != 0 {
        assert(plain_str(t.skip(1))) by {
            assert forall|k: int| 0 <= k < t.skip(1).len() implies ((#[trigger] t.skip(1)[k]
                as int) >= 32 && t.skip(1)[k] != '"' && t.skip(1)[k] != '\\') by {
                assert(t.skip(1)[k] == t[k + 1]);
            }
        }
        lemma_esc_plain(t.skip(1));
        assert((t[0] as int) >= 32 && t[0] != '"' && t[0] != '\\');
        assert(esc_char(t[0]) =~= seq![t[0]]);
        assert(esc_str(t) =~= t);
    }
}

proof fn lemma_tags_plain()
    ensures
        plain_str("auth_challenge"@),
        plain_str("auth_response"@),
        plain_str("auth_result"@),
        plain_str("pty_output"@),
        plain_str("pty_exit"@),
        plain_str("pty_input"@),
        plain_str("pty_resize"@),
        plain_str("pty_ready"@),
        plain_str("git_status_sync"@),
        plain_str("file_content_request"@),
        plain_str("file_content_response"@),
        plain_str("file_change"@),
        plain_str("git_status_request"@),
        plain_str("git_stage"@),
        plain_str("git_unstage"@),
        plain_str("git_stage_result"@),
        plain_str("add_comment"@),
        plain_str("comments_sync"@),
        plain_str("error"@),
{
    reveal_strlit("auth_challenge");
    reveal_strlit("auth_response");
    reveal_strlit("auth_result");
    reveal_strlit("pty_output");
    reveal_strlit("pty_exit");
    reveal_strlit("pty_input");
    reveal_strlit("pty_resize");
    reveal_strlit("pty_ready");
    reveal_strlit("git_status_sync");
    reveal_strlit("file_content_request");
    reveal_strlit("file_content_response");
    reveal_strlit("file_change");
    reveal_strlit("git_status_request");
    reveal_strlit("git_stage");
    reveal_strlit("git_unstage");
    reveal_strlit("git_stage_result");
    reveal_strlit("add_comment");
    reveal_strlit("comments_sync");
    reveal_strlit("error");
}

proof fn lemma_ws_here(s: Seq<char>, i: int)
    requires
        0 <= i < s.len(),
        !spec_is_json_ws(s[i]),
    ensures
        spec_ws_to(s, i) == i,
{
}

// A token matches where its text stands, since the encoder writes no
// whitespace before it.
proof fn lemma_p_tok_prefix(s: Seq<char>, i: int, lit: Seq<char>, rest: Seq<char>)
    requires
        0 <= i <= s.len(),
        s.skip(i) == lit + rest,
        lit.len() >= 1,
        !spec_is_json_ws(lit[0]),
    ensures
        p_tok(s, i, lit) == Option::Some(i + lit.len() as int),
        s.skip(i + lit.len()) == rest,
{
    assert(s.skip(i).len() == s.len() - i);
    assert(i < s.len());
    assert(s.skip(i)[0] == s[i]);
    assert((lit + rest)[0] == lit[0]);
    lemma_ws_here(s, i);
    lemma_p_lit_prefix(s, i, lit, rest);
}

proof fn lemma_p_jstr_ws_round(s: Seq<char>, i: int, t: Seq<char>, rest: Seq<char>)
    requires
        0 <= i <= s.len(),
        s.skip(i) == enc_str(t) + rest,
    ensures
        p_jstr(s, spec_ws_to(s, i)) == Option::Some((t, i + enc_str(t).len())),
        s.skip(i + enc_str(t).len()) == rest,
{
    assert(s.skip(i).len() == s.len() - i);
    assert(i < s.len());
    assert(s.skip(i)[0] == s[i]);
    assert((enc_str(t) + rest)[0] == '"');
    lemma_ws_here(s, i);
    lemma_p_jstr_round(s, i, t, rest);
}

proof fn lemma_p_u64_ws_round(s: Seq<char>, i: int, n: u64, rest: Seq<char>)
    requires
        0 <= i <= s.len(),
        s.skip(i) == spec_dec_nat(n as nat) + rest,
        rest.len() == 0 || !spec_is_digit(rest[0]),
    ensures
        p_u64(s, spec_ws_to(s, i)) == Option::Some((n, i + spec_dec_nat(n as nat).len())),
        s.skip(i + spec_dec_nat(n as nat).len()) == rest,
{
    crate::strutil::lemma_dec_nat_digits(n as nat);
    assert(s.skip(i).len() == s.len() - i);
    assert(i < s.len());
    assert(s.skip(i)[0] == s[i]);
    assert(spec_is_digit(s[i]));
    lemma_ws_here(s, i);
    lemma_p_u64_round(s, i, n, rest);
}

proof fn lemma_p_i32_ws_round(s: Seq<char>, i: int, n: i32, rest: Seq<char>)
    requires
        0 <= i <= s.len(),
        s.skip(i) == enc_i32(n) + rest,
        rest.len() == 0 || !spec_is_digit(rest[0]),
    ensures
        p_i32(s, spec_ws_to(s, i)) == Option::Some((n, i + enc_i32(n).len())),
        s.skip(i + enc_i32(n).len()) == rest,
{
    assert(s.skip(i).len() == s.len() - i);
    assert(i < s.len());
    assert(s.skip(i)[0] == s[i]);
    if n < 0 {
        assert(enc_i32(n)[0] == '-');
    } else {
        crate::strutil::lemma_dec_nat_digits(n as nat);
        assert(enc_i32(n)[0] == spec_dec_nat(n as nat)[0]);
        assert(spec_is_digit(enc_i32(n)[0]));
    }
    assert((enc_i32(n) + rest)[0] == enc_i32(n)[0]);
    lemma_ws_here(s, i);
    lemma_p_i32_round(s, i, n, rest);
}

proof fn lemma_p_bool_ws_round(s: Seq<char>, i: int, b: bool, rest: Seq<char>)
    requires
        0 <= i <= s.len(),
        s.skip(i) == enc_bool(b) + rest,
    ensures
        p_bool(s, spec_ws_to(s, i)) == Option::Some((b, i + enc_bool(b).len())),
        s.skip(i + enc_bool(b).len()) == rest,
{
    reveal_strlit("true");
    reveal_strlit("false");
    assert(s.skip(i).len() == s.len() - i);
    assert(i < s.len());
    assert(s.skip(i)[0] == s[i]);
    assert((enc_bool(b) + rest)[0] == enc_bool(b)[0]);
    lemma_ws_here(s, i);
    lemma_p_bool_round(s, i, b, rest);
}


#[verifier::rlimit(100)]
#[verifier::spinoff_prover]
proof fn lemma_p_file_round(s: Seq<char>, i: int, f: GitFileStatusV, rest: Seq<char>)
    requires
        0 <= i <= s.len(),
        s.skip(i) == enc_file(f) + rest,
    ensures
        p_file(s, i) == Option::Some((f, i + (enc_file(f)).len())),
        s.skip(i + (enc_file(f)).len()) == rest,
{
    reveal_strlit(",");
    reveal_strlit("\"index_status\":");
    reveal_strlit("{\"index_status\":");
    reveal_strlit(",\"index_status\":");
    reveal_strlit("\"path\":");
    reveal_strlit("{\"path\":");
    reveal_strlit(",\"path\":");
    reveal_strlit("\"worktree_status\":");
    reveal_strlit("{\"worktree_status\":");
    reveal_strlit(",\"worktree_status\":");
    reveal_strlit("{");
    reveal_strlit("}");
    let m = f;
    assert(enc_file(f) =~= "{"@ + "\"path\":"@ + enc_str(f.path) + ","@ + "\"index_status\":"@ + enc_str(f.index_status) + ","@ + "\"worktree_status\":"@ + enc_str(f.worktree_status) + "}"@);
    assert(s.skip(i) =~= ("{"@ + ("\"path\":"@ + (enc_str(f.path) + (","@ + ("\"index_status\":"@ + (enc_str(f.index_status) + (","@ + ("\"worktree_status\":"@ + (enc_str(f.worktree_status) + ("}"@ + rest)))))))))));
    assert(s.skip(i).len() == s.len() - i);
    lemma_p_tok_prefix(s, i, "{"@, ("\"path\":"@ + (enc_str(f.path) + (","@ + ("\"index_status\":"@ + (enc_str(f.index_status) + (","@ + ("\"worktree_status\":"@ + (enc_str(f.worktree_status) + ("}"@ + rest))))))))));
    let i0 = i + ("{"@).len() as int;
    lemma_p_tok_prefix(s, i0, "\"path\":"@, (enc_str(f.path) + (","@ + ("\"index_status\":"@ + (enc_str(f.index_status) + (","@ + ("\"worktree_status\":"@ + (enc_str(f.worktree_status) + ("}"@ + rest)))))))));
    let i1 = i0 + ("\"path\":"@).len() as int;
    lemma_p_jstr_ws_round(s, i1, f.path, (","@ + ("\"index_status\":"@ + (enc_str(f.index_status) + (","@ + ("\"worktree_status\":"@ + (enc_str(f.worktree_status) + ("}"@ + rest))))))));
    let i2 = i1 + (enc_str(f.path)).len() as int;
    lemma_p_tok_prefix(s, i2, ","@, ("\"index_status\":"@ + (enc_str(f.index_status) + (","@ + ("\"worktree_status\":"@ + (enc_str(f.worktree_status) + ("}"@ + rest)))))));
    let i3 = i2 + (","@).len() as int;
    lemma_p_tok_prefix(s, i3, "\"index_status\":"@, (enc_str(f.index_status) + (","@ + ("\"worktree_status\":"@ + (enc_str(f.worktree_status) + ("}"@ + rest))))));
    let i4 = i3 + ("\"index_status\":"@).len() as int;
    lemma_p_jstr_ws_round(s, i4, f.index_status, (","@ + ("\"worktree_status\":"@ + (enc_str(f.worktree_status) + ("}"@ + rest)))));
    let i5 = i4 + (enc_str(f.index_status)).len() as int;
    lemma_p_tok_prefix(s, i5, ","@, ("\"worktree_status\":"@ + (enc_str(f.worktree_status) + ("}"@ + rest))));
    let i6 = i5 + (","@).len() as int;
    lemma_p_tok_prefix(s, i6, "\"worktree_status\":"@, (enc_str(f.worktree_status) + ("}"@ + rest)));
    let i7 = i6 + ("\"worktree_status\":"@).len() as int;
    lemma_p_jstr_ws_round(s, i7, f.worktree_status, ("}"@ + rest));
    let i8 = i7 + (enc_str(f.worktree_status)).len() as int;
    lemma_p_tok_prefix(s, i8, "}"@, rest);
    let i9 = i8 + ("}"@).len() as int;
    assert(i9 == i + (enc_file(f)).len());
    assert(p_file(s, i) == Option::Some((f, i + (enc_file(f)).len() as int)));
}

#[verifier::rlimit(100)]
#[verifier::spinoff_prover]
proof fn lemma_p_file_items_round(
    s: Seq<char>,
    i: int,
    acc: Seq<GitFileStatusV>,
    fs: Seq<GitFileStatusV>,
    rest: Seq<char>,
)
    requires
        fs.len() >= 1,
        0 <= i <= s.len(),
        s.skip(i) == enc_file_items(fs) + seq![']'] + rest,
    ensures
        p_file_items(s, i, acc) == Option::Some((acc + fs, i + enc_file_items(fs).len() + 1)),
        s.skip(i + enc_file_items(fs).len() + 1) == rest,
    decreases fs.len(),
{
    if fs.len() == 1 {
        assert(enc_file_items(fs) == enc_file(fs[0]));
        assert(s.skip(i) =~= enc_file(fs[0]) + (seq![']'] + rest));
        lemma_p_file_round(s, i, fs[0], seq![']'] + rest);
        let j = i + enc_file(fs[0]).len() as int;
        assert(s.skip(j) == seq![']'] + rest);
        assert(s.skip(j).len() == s.len() - j);
        assert(j < s.len());
        assert(s.skip(j)[0] == s[j]);
        assert(s[j] == ']');
        lemma_ws_here(s, j);
        assert(s.skip(j + 1) =~= rest) by {
            assert forall|k: int| 0 <= k < rest.len() implies s.skip(j + 1)[k] == rest[k] by {
                assert(s.skip(j + 1)[k] == s[j + 1 + k]);
                assert(s.skip(j)[k + 1] == s[j + 1 + k]);
                assert((seq![']'] + rest)[k + 1] == rest[k]);
            }
        }
        assert(acc.push(fs[0]) =~= acc + fs);
    } else {
        assert(enc_file_items(fs) == enc_file(fs[0]) + seq![','] + enc_file_items(fs.skip(1)));
        let tail = seq![','] + (enc_file_items(fs.skip(1)) + seq![']'] + rest);
        assert(s.skip(i) =~= enc_file(fs[0]) + tail);
        lemma_p_file_round(s, i, fs[0], tail);
        let j = i + enc_file(fs[0]).len() as int;
        assert(s.skip(j) == tail);
        assert(s.skip(j).len() == s.len() - j);
        assert(j < s.len());
        assert(s.skip(j)[0] == s[j]);
        assert(s[j] == ',');
        lemma_ws_here(s, j);
        assert(s.skip(j + 1) =~= enc_file_items(fs.skip(1)) + seq![']'] + rest) by {
            let t2 = enc_file_items(fs.skip(1)) + seq![']'] + rest;
            assert forall|k: int| 0 <= k < t2.len() implies s.skip(j + 1)[k] == t2[k] by {
                assert(s.skip(j + 1)[k] == s[j + 1 + k]);
                assert(s.skip(j)[k + 1] == s[j + 1 + k]);
                assert(tail[k + 1] == t2[k]);
            }
        }
        lemma_p_file_items_round(s, j + 1, acc.push(fs[0]), fs.skip(1), rest);
        assert(acc.push(fs[0]) + fs.skip(1) =~= acc + fs);
    }
}

#[verifier::rlimit(100)]
#[verifier::spinoff_prover]
proof fn lemma_p_file_list_round(s: Seq<char>, i: int, fs: Seq<GitFileStatusV>, rest: Seq<char>)
    requires
        0 <= i <= s.len(),
        s.skip(i) == enc_file_list(fs) + rest,
    ensures
        p_file_list(s, i) == Option::Some((fs, i + enc_file_list(fs).len())),
        s.skip(i + enc_file_list(fs).len()) == rest,
{
    reveal_strlit("[");
    assert(("["@) =~= seq!['[']);
    if fs.len() == 0 {
        assert(enc_file_items(fs) =~= Seq::<char>::empty());
        assert(enc_file_list(fs) =~= seq!['[', ']']);
        assert(s.skip(i) =~= ("["@) + (seq![']'] + rest));
        lemma_p_tok_prefix(s, i, "["@, seq![']'] + rest);
        assert(s.skip(i + 1) == seq![']'] + rest);
        assert(s.skip(i + 1).len() == s.len() - i - 1);
        assert(i + 1 < s.len());
        assert(s.skip(i + 1)[0] == s[i + 1]);
        assert(s[i + 1] == ']');
        lemma_ws_here(s, i + 1);
        assert(p_file_list(s, i) == Option::Some((Seq::<GitFileStatusV>::empty(), i + 2)));
        assert(fs =~= Seq::<GitFileStatusV>::empty());
        assert(s.skip(i + 2) =~= rest) by {
            assert forall|k: int| 0 <= k < rest.len() implies s.skip(i + 2)[k] == rest[k] by {
                assert(s.skip(i + 2)[k] == s[i + 2 + k]);
                assert(s.skip(i + 1)[k + 1] == s[i + 2 + k]);
                assert((seq![']'] + rest)[k + 1] == rest[k]);
            }
        }
    } else {
        let items = enc_file_items(fs);
        assert(s.skip(i) =~= ("["@) + (items + seq![']'] + rest));
        lemma_p_tok_prefix(s, i, "["@, items + seq![']'] + rest);
        assert(s.skip(i + 1) == items + seq![']'] + rest);
        reveal_strlit("{");
        reveal_strlit("{\"path\":");
        assert(enc_file(fs[0])[0] == ("{\"path\":"@)[0]);
        assert(enc_file(fs[0])[0] == ("{"@)[0]);
        assert(items[0] == enc_file(fs[0])[0]) by {
            if fs.len() == 1 {
            } else {
            }
        }
        assert(s.skip(i + 1)[0] == s[i + 1]);
        assert(i + 1 < s.len());
        assert(s[i + 1] != ']' && !spec_is_json_ws(s[i + 1]));
        lemma_ws_here(s, i + 1);
        lemma_p_file_items_round(s, i + 1, Seq::empty(), fs, rest);
        assert(Seq::<GitFileStatusV>::empty() + fs =~= fs);
        assert(i + 1 + items.len() + 1 == i + enc_file_list(fs).len());
    }
}

proof fn lemma_p_str_elem_round(s: Seq<char>, i: int, t: Seq<char>, rest: Seq<char>)
    requires
        0 <= i <= s.len(),
        s.skip(i) == enc_str(t) + rest,
    ensures
        p_jstr_ws(s, i) == Option::Some((t, i + enc_str(t).len())),
        s.skip(i + enc_str(t).len()) == rest,
{
    lemma_p_jstr_ws_round(s, i, t, rest);
}

#[verifier::rlimit(100)]
#[verifier::spinoff_prover]
proof fn lemma_p_str_items_round(
    s: Seq<char>,
    i: int,
    acc: Seq<Seq<char>>,
    fs: Seq<Seq<char>>,
    rest: Seq<char>,
)
    requires
        fs.len() >= 1,
        0 <= i <= s.len(),
        s.skip(i) == enc_str_items(fs) + seq![']'] + rest,
    ensures
        p_str_items(s, i, acc) == Option::Some((acc + fs, i + enc_str_items(fs).len() + 1)),
        s.skip(i + enc_str_items(fs).len() + 1) == rest,
    decreases fs.len(),
{
    if fs.len() == 1 {
        assert(enc_str_items(fs) == enc_str(fs[0]));
        assert(s.skip(i) =~= enc_str(fs[0]) + (seq![']'] + rest));
        lemma_p_str_elem_round(s, i, fs[0], seq![']'] + rest);
        let j = i + enc_str(fs[0]).len() as int;
        assert(s.skip(j) == seq![']'] + rest);
        assert(s.skip(j).len() == s.len() - j);
        assert(j < s.len());
        assert(s.skip(j)[0] == s[j]);
        assert(s[j] == ']');
        lemma_ws_here(s, j);
        assert(s.skip(j + 1) =~= rest) by {
            assert forall|k: int| 0 <= k < rest.len() implies s.skip(j + 1)[k] == rest[k] by {
                assert(s.skip(j + 1)[k] == s[j + 1 + k]);
                assert(s.skip(j)[k + 1] == s[j + 1 + k]);
                assert((seq![']'] + rest)[k + 1] == rest[k]);
            }
        }
        assert(acc.push(fs[0]) =~= acc + fs);
    } else {
        assert(enc_str_items(fs) == enc_str(fs[0]) + seq![','] + enc_str_items(fs.skip(1)));
        let tail = seq![','] + (enc_str_items(fs.skip(1)) + seq![']'] + rest);
        assert(s.skip(i) =~= enc_str(fs[0]) + tail);
        lemma_p_str_elem_round(s, i, fs[0], tail);
        let j = i + enc_str(fs[0]).len() as int;
        assert(s.skip(j) == tail);
        assert(s.skip(j).len() == s.len() - j);
        assert(j < s.len());
        assert(s.skip(j)[0] == s[j]);
        assert(s[j] == ',');
        lemma_ws_here(s, j);
        assert(s.skip(j + 1) =~= enc_str_items(fs.skip(1)) + seq![']'] + rest) by {
            let t2 = enc_str_items(fs.skip(1)) + seq![']'] + rest;
            assert forall|k: int| 0 <= k < t2.len() implies s.skip(j + 1)[k] == t2[k] by {
                assert(s.skip(j + 1)[k] == s[j + 1 + k]);
                assert(s.skip(j)[k + 1] == s[j + 1 + k]);
                assert(tail[k + 1] == t2[k]);
            }
        }
        lemma_p_str_items_round(s, j + 1, acc.push(fs[0]), fs.skip(1), rest);
        assert(acc.push(fs[0]) + fs.skip(1) =~= acc + fs);
    }
}

#[verifier::rlimit(100)]
#[verifier::spinoff_prover]
proof fn lemma_p_str_list_round(s: Seq<char>, i: int, fs: Seq<Seq<char>>, rest: Seq<char>)
    requires
        0 <= i <= s.len(),
        s.skip(i) == enc_str_list(fs) + rest,
    ensures
        p_str_list(s, i) == Option::Some((fs, i + enc_str_list(fs).len())),
        s.skip(i + enc_str_list(fs).len()) == rest,
{
    reveal_strlit("[");
    assert(("["@) =~= seq!['[']);
    if fs.len() == 0 {
        assert(enc_str_items(fs) =~= Seq::<char>::empty());
        assert(enc_str_list(fs) =~= seq!['[', ']']);
        assert(s.skip(i) =~= ("["@) + (seq![']'] + rest));
        lemma_p_tok_prefix(s, i, "["@, seq![']'] + rest);
        assert(s.skip(i + 1) == seq![']'] + rest);
        assert(s.skip(i + 1).len() == s.len() - i - 1);
        assert(i + 1 < s.len());
        assert(s.skip(i + 1)[0] == s[i + 1]);
        assert(s[i + 1] == ']');
        lemma_ws_here(s, i + 1);
        assert(p_str_list(s, i) == Option::Some((Seq::<Seq<char>>::empty(), i + 2)));
        assert(fs =~= Seq::<Seq<char>>::empty());
        assert(s.skip(i + 2) =~= rest) by {
            assert forall|k: int| 0 <= k < rest.len() implies s.skip(i + 2)[k] == rest[k] by {
                assert(s.skip(i + 2)[k] == s[i + 2 + k]);
                assert(s.skip(i + 1)[k + 1] == s[i + 2 + k]);
                assert((seq![']'] + rest)[k + 1] == rest[k]);
            }
        }
    } else {
        let items = enc_str_items(fs);
        assert(s.skip(i) =~= ("["@) + (items + seq![']'] + rest));
        lemma_p_tok_prefix(s, i, "["@, items + seq![']'] + rest);
        assert(s.skip(i + 1) == items + seq![']'] + rest);
        reveal_strlit("\"");
        assert(enc_str(fs[0])[0] == ("\""@)[0]);
        assert(items[0] == enc_str(fs[0])[0]) by {
            if fs.len() == 1 {
            } else {
            }
        }
        assert(s.skip(i + 1)[0] == s[i + 1]);
        assert(i + 1 < s.len());
        assert(s[i + 1] != ']' && !spec_is_json_ws(s[i + 1]));
        lemma_ws_here(s, i + 1);
        lemma_p_str_items_round(s, i + 1, Seq::empty(), fs, rest);
        assert(Seq::<Seq<char>>::empty() + fs =~= fs);
        assert(i + 1 + items.len() + 1 == i + enc_str_list(fs).len());
    }
}

// The trailing fields of a comment object, from `content` on.
#[verifier::rlimit(100)]
#[verifier::spinoff_prover]
proof fn lemma_p_comment_tail(
    s: Seq<char>,
    j: int,
    content: Seq<char>,
    status: Seq<char>,
    created_at: u64,
    rest: Seq<char>,
)
    requires
        0 <= j <= s.len(),
        s.skip(j) == "\"content\":"@ + enc_str(content) + ","@ + "\"status\":"@ + enc_str(status)
            + ","@ + "\"created_at\":"@ + spec_dec_nat(created_at as nat) + "}"@ + rest,
    ensures
        ({
            let e1 = j + ("\"content\":"@).len() as int;
            let e2 = e1 + enc_str(content).len() as int;
            let e3 = e2 + 1 + ("\"status\":"@).len() as int;
            let e4 = e3 + enc_str(status).len() as int;
            let e5 = e4 + 1 + ("\"created_at\":"@).len() as int;
            let e6 = e5 + spec_dec_nat(created_at as nat).len() as int;
            &&& p_tok(s, j, "\"content\":"@) == Option::Some(e1)
            &&& p_jstr(s, spec_ws_to(s, e1)) == Option::Some((content, e2))
            &&& p_tok(s, e2, ","@) == Option::Some(e2 + 1)
            &&& p_tok(s, e2 + 1, "\"status\":"@) == Option::Some(e3)
            &&& p_jstr(s, spec_ws_to(s, e3)) == Option::Some((status, e4))
            &&& p_tok(s, e4, ","@) == Option::Some(e4 + 1)
            &&& p_tok(s, e4 + 1, "\"created_at\":"@) == Option::Some(e5)
            &&& p_u64(s, spec_ws_to(s, e5)) == Option::Some((created_at, e6))
            &&& p_tok(s, e6, "}"@) == Option::Some(e6 + 1)
            &&& s.skip(e6 + 1) == rest
        }),
{
    reveal_strlit("\"content\":");
    reveal_strlit("\"status\":");
    reveal_strlit("\"created_at\":");
    reveal_strlit(",");
    reveal_strlit("}");
    assert(s.skip(j).len() == s.len() - j);
    let t1 = enc_str(content) + (","@ + ("\"status\":"@ + (enc_str(status) + (","@ + (
    "\"created_at\":"@ + (spec_dec_nat(created_at as nat) + ("}"@ + rest)))))));
    assert(s.skip(j) =~= ("\"content\":"@) + t1);
    lemma_p_tok_prefix(s, j, "\"content\":"@, t1);
    let e1 = j + ("\"content\":"@).len() as int;
    lemma_p_jstr_ws_round(s, e1, content, ","@ + ("\"status\":"@ + (enc_str(status) + (","@ + (
    "\"created_at\":"@ + (spec_dec_nat(created_at as nat) + ("}"@ + rest)))))));
    let e2 = e1 + enc_str(content).len() as int;
    lemma_p_tok_prefix(s, e2, ","@, "\"status\":"@ + (enc_str(status) + (","@ + ("\"created_at\":"@
        + (spec_dec_nat(created_at as nat) + ("}"@ + rest))))));
    lemma_p_tok_prefix(s, e2 + 1, "\"status\":"@, enc_str(status) + (","@ + ("\"created_at\":"@ + (
    spec_dec_nat(created_at as nat) + ("}"@ + rest)))));
    let e3 = e2 + 1 + ("\"status\":"@).len() as int;
    lemma_p_jstr_ws_round(s, e3, status, ","@ + ("\"created_at\":"@ + (spec_dec_nat(
        created_at as nat,
    ) + ("}"@ + rest))));
    let e4 = e3 + enc_str(status).len() as int;
    lemma_p_tok_prefix(s, e4, ","@, "\"created_at\":"@ + (spec_dec_nat(created_at as nat) + ("}"@
        + rest)));
    lemma_p_tok_prefix(s, e4 + 1, "\"created_at\":"@, spec_dec_nat(created_at as nat) + ("}"@
        + rest));
    let e5 = e4 + 1 + ("\"created_at\":"@).len() as int;
    assert(("}"@ + rest).len() > 0 && !spec_is_digit(("}"@ + rest)[0])) by {
        assert(("}"@ + rest)[0] == ("}"@)[0]);
    }
    lemma_p_u64_ws_round(s, e5, created_at, "}"@ + rest);
    let e6 = e5 + spec_dec_nat(created_at as nat).len() as int;
    lemma_p_tok_prefix(s, e6, "}"@, rest);
}

// The leading fields of a comment object, up to the value of `line_number`.
#[verifier::rlimit(100)]
#[verifier::spinoff_prover]
proof fn lemma_p_comment_head(
    s: Seq<char>,
    i: int,
    id: Seq<char>,
    file_path: Seq<char>,
    line_number: u32,
    rest2: Seq<char>,
)
    requires
        0 <= i <= s.len(),
        s.skip(i) == "{\"id\":"@ + enc_str(id) + ",\"file_path\":"@ + enc_str(file_path)
            + ",\"line_number\":"@ + spec_dec_nat(line_number as nat) + rest2,
        rest2.len() > 0,
        !spec_is_digit(rest2[0]),
    ensures
        ({
            let i1 = i + 1 + ("\"id\":"@).len() as int;
            let i2 = i1 + enc_str(id).len() as int;
            let i3 = i2 + 1 + ("\"file_path\":"@).len() as int;
            let i4 = i3 + enc_str(file_path).len() as int;
            let i5 = i4 + 1 + ("\"line_number\":"@).len() as int;
            let i6 = i5 + spec_dec_nat(line_number as nat).len() as int;
            &&& p_tok(s, i, "{"@) == Option::Some(i + 1)
            &&& p_tok(s, i + 1, "\"id\":"@) == Option::Some(i1)
            &&& p_jstr(s, spec_ws_to(s, i1)) == Option::Some((id, i2))
            &&& p_tok(s, i2, ","@) == Option::Some(i2 + 1)
            &&& p_tok(s, i2 + 1, "\"file_path\":"@) == Option::Some(i3)
            &&& p_jstr(s, spec_ws_to(s, i3)) == Option::Some((file_path, i4))
            &&& p_tok(s, i4, ","@) == Option::Some(i4 + 1)
            &&& p_tok(s, i4 + 1, "\"line_number\":"@) == Option::Some(i5)
            &&& p_u32(s, spec_ws_to(s, i5)) == Option::Some((line_number, i6))
            &&& s.skip(i6) == rest2
        }),
{
    reveal_strlit("{");
    reveal_strlit(",");
    reveal_strlit("\"id\":");
    reveal_strlit("{\"id\":");
    reveal_strlit("\"file_path\":");
    reveal_strlit(",\"file_path\":");
    reveal_strlit("\"line_number\":");
    reveal_strlit(",\"line_number\":");
    assert(s.skip(i).len() == s.len() - i);
    assert(s.skip(i) =~= ("{"@ + ("\"id\":"@ + (enc_str(id) + (","@ + ("\"file_path\":"@ + (
    enc_str(file_path) + (","@ + ("\"line_number\":"@ + (spec_dec_nat(line_number as nat)
        + rest2))))))))));
    lemma_p_tok_prefix(s, i, "{"@, ("\"id\":"@ + (enc_str(id) + (","@ + ("\"file_path\":"@ + (
    enc_str(file_path) + (","@ + ("\"line_number\":"@ + (spec_dec_nat(line_number as nat)
        + rest2)))))))));
    lemma_p_tok_prefix(s, i + 1, "\"id\":"@, enc_str(id) + (","@ + ("\"file_path\":"@ + (enc_str(
        file_path,
    ) + (","@ + ("\"line_number\":"@ + (spec_dec_nat(line_number as nat) + rest2)))))));
    let i1 = i + 1 + ("\"id\":"@).len() as int;
    lemma_p_jstr_ws_round(s, i1, id, ","@ + ("\"file_path\":"@ + (enc_str(file_path) + (","@ + (
    "\"line_number\":"@ + (spec_dec_nat(line_number as nat) + rest2))))));
    let i2 = i1 + enc_str(id).len() as int;
    lemma_p_tok_prefix(s, i2, ","@, "\"file_path\":"@ + (enc_str(file_path) + (","@ + (
    "\"line_number\":"@ + (spec_dec_nat(line_number as nat) + rest2)))));
    lemma_p_tok_prefix(s, i2 + 1, "\"file_path\":"@, enc_str(file_path) + (","@ + (
    "\"line_number\":"@ + (spec_dec_nat(line_number as nat) + rest2))));
    let i3 = i2 + 1 + ("\"file_path\":"@).len() as int;
    lemma_p_jstr_ws_round(s, i3, file_path, ","@ + ("\"line_number\":"@ + (spec_dec_nat(
        line_number as nat,
    ) + rest2)));
    let i4 = i3 + enc_str(file_path).len() as int;
    lemma_p_tok_prefix(s, i4, ","@, "\"line_number\":"@ + (spec_dec_nat(line_number as nat)
        + rest2));
    lemma_p_tok_prefix(s, i4 + 1, "\"line_number\":"@, spec_dec_nat(line_number as nat) + rest2);
    let i5 = i4 + 1 + ("\"line_number\":"@).len() as int;
    lemma_p_u64_ws_round(s, i5, line_number as u64, rest2);
    assert(p_u32(s, spec_ws_to(s, i5)) == Option::Some(
        (line_number, i5 + spec_dec_nat(line_number as nat).len() as int),
    ));
}

#[verifier::rlimit(100)]
#[verifier::spinoff_prover]
proof fn lemma_p_comment_round(s: Seq<char>, i: int, c: CommentItemV, rest: Seq<char>)
    requires
        0 <= i <= s.len(),
        s.skip(i) == enc_comment(c) + rest,
    ensures
        p_comment(s, i) == Option::Some((c, i + (enc_comment(c)).len())),
        s.skip(i + (enc_comment(c)).len()) == rest,
{
    reveal_strlit("{");
    reveal_strlit("}");
    reveal_strlit(",");
    reveal_strlit("\"id\":");
    reveal_strlit("{\"id\":");
    reveal_strlit("\"file_path\":");
    reveal_strlit(",\"file_path\":");
    reveal_strlit("\"line_number\":");
    reveal_strlit(",\"line_number\":");
    reveal_strlit("\"end_line\":");
    reveal_strlit(",\"end_line\":");
    reveal_strlit("\"content\":");
    reveal_strlit(",\"content\":");
    reveal_strlit("\"status\":");
    reveal_strlit(",\"status\":");
    reveal_strlit("\"created_at\":");
    reveal_strlit(",\"created_at\":");
    let tailseg = "\"content\":"@ + enc_str(c.content) + ","@ + "\"status\":"@ + enc_str(c.status)
        + ","@ + "\"created_at\":"@ + spec_dec_nat(c.created_at as nat) + "}"@;
    let optseg = (match c.end_line {
        Option::Some(t) => ","@ + "\"end_line\":"@ + spec_dec_nat(t as nat) + ","@,
        Option::None => ","@,
    });
    let rest2 = optseg + (tailseg + rest);
    assert(s.skip(i) =~= "{\"id\":"@ + enc_str(c.id) + ",\"file_path\":"@ + enc_str(c.file_path)
        + ",\"line_number\":"@ + spec_dec_nat(c.line_number as nat) + rest2);
    assert(rest2.len() > 0 && !spec_is_digit(rest2[0])) by {
        match c.end_line {
            Option::Some(t) => {
                assert(rest2[0] == (","@)[0]);
            },
            Option::None => {
                assert(rest2[0] == (","@)[0]);
            },
        }
    }
    lemma_p_comment_head(s, i, c.id, c.file_path, c.line_number, rest2);
    let i1 = i + 1 + ("\"id\":"@).len() as int;
    let i2 = i1 + enc_str(c.id).len() as int;
    let i3 = i2 + 1 + ("\"file_path\":"@).len() as int;
    let i4 = i3 + enc_str(c.file_path).len() as int;
    let i5 = i4 + 1 + ("\"line_number\":"@).len() as int;
    let i6 = i5 + spec_dec_nat(c.line_number as nat).len() as int;
    assert(s.skip(i6) == rest2);
    let i9: int = match c.end_line {
        Option::Some(t) => {
            assert(s.skip(i6) =~= ","@ + (("\"end_line\":"@) + (spec_dec_nat(t as nat) + (","@ + (
            tailseg + rest)))));
            lemma_p_tok_prefix(s, i6, ","@, ("\"end_line\":"@) + (spec_dec_nat(t as nat) + (","@
                + (tailseg + rest))));
            lemma_p_tok_prefix(s, i6 + 1, "\"end_line\":"@, spec_dec_nat(t as nat) + (","@ + (
            tailseg + rest)));
            let a1 = i6 + 1 + ("\"end_line\":"@).len() as int;
            assert((","@ + (tailseg + rest)).len() > 0 && !spec_is_digit(
                (","@ + (tailseg + rest))[0],
            )) by {
                assert((","@ + (tailseg + rest))[0] == (","@)[0]);
            }
            lemma_p_u64_ws_round(s, a1, t as u64, ","@ + (tailseg + rest));
            assert(p_u32(s, spec_ws_to(s, a1)) == Option::Some(
                (t, a1 + spec_dec_nat(t as nat).len() as int),
            ));
            let a2 = a1 + spec_dec_nat(t as nat).len() as int;
            lemma_p_tok_prefix(s, a2, ","@, tailseg + rest);
            a2 + 1
        },
        Option::None => {
            assert(s.skip(i6) =~= ","@ + (tailseg + rest));
            lemma_p_tok_prefix(s, i6, ","@, tailseg + rest);
            let a0 = i6 + 1;
            assert(s.skip(a0)[0] == s[a0]);
            assert(s.skip(a0)[1] == s[a0 + 1]);
            assert(s[a0] == ("\"content\":"@)[0]) by {
                assert((tailseg + rest)[0] == ("\"content\":"@)[0]);
            }
            assert(s[a0 + 1] == ("\"content\":"@)[1]) by {
                assert((tailseg + rest)[1] == ("\"content\":"@)[1]);
            }
            lemma_ws_here(s, a0);
            assert(("\"end_line\":"@)[1] != ("\"content\":"@)[1]);
            lemma_p_lit_mismatch(s, a0, "\"end_line\":"@, 1);
            a0
        },
    };
    assert(s.skip(i9) == tailseg + rest) by {
        match c.end_line {
            Option::Some(t) => {},
            Option::None => {},
        }
    }
    assert(tailseg + rest =~= "\"content\":"@ + enc_str(c.content) + ","@ + "\"status\":"@
        + enc_str(c.status) + ","@ + "\"created_at\":"@ + spec_dec_nat(c.created_at as nat) + "}"@
        + rest);
    lemma_p_comment_tail(s, i9, c.content, c.status, c.created_at, rest);
    assert(i9 + ("\"content\":"@).len() + enc_str(c.content).len() + 1 + ("\"status\":"@).len()
        + enc_str(c.status).len() + 1 + ("\"created_at\":"@).len() + spec_dec_nat(
        c.created_at as nat,
    ).len() + 1 == i + (enc_comment(c)).len());
    assert(p_comment(s, i) == Option::Some((c, i + (enc_comment(c)).len())));
    assert(s.skip(i + (enc_comment(c)).len()) == rest);
}

#[verifier::rlimit(100)]
#[verifier::spinoff_prover]
proof fn lemma_p_comment_items_round(
    s: Seq<char>,
    i: int,
    acc: Seq<CommentItemV>,
    fs: Seq<CommentItemV>,
    rest: Seq<char>,
)
    requires
        fs.len() >= 1,
        0 <= i <= s.len(),
        s.skip(i) == enc_comment_items(fs) + seq![']'] + rest,
    ensures
        p_comment_items(s, i, acc) == Option::Some((acc + fs, i + enc_comment_items(fs).len() + 1)),
        s.skip(i + enc_comment_items(fs).len() + 1) == rest,
    decreases fs.len(),
{
    if fs.len() == 1 {
        assert(enc_comment_items(fs) == enc_comment(fs[0]));
        assert(s.skip(i) =~= enc_comment(fs[0]) + (seq![']'] + rest));
        lemma_p_comment_round(s, i, fs[0], seq![']'] + rest);
        let j = i + enc_comment(fs[0]).len() as int;
        assert(s.skip(j) == seq![']'] + rest);
        assert(s.skip(j).len() == s.len() - j);
        assert(j < s.len());
        assert(s.skip(j)[0] == s[j]);
        assert(s[j] == ']');
        lemma_ws_here(s, j);
        assert(s.skip(j + 1) =~= rest) by {
            assert forall|k: int| 0 <= k < rest.len() implies s.skip(j + 1)[k] == rest[k] by {
                assert(s.skip(j + 1)[k] == s[j + 1 + k]);
                assert(s.skip(j)[k + 1] == s[j + 1 + k]);
                assert((seq![']'] + rest)[k + 1] == rest[k]);
            }
        }
        assert(acc.push(fs[0]) =~= acc + fs);
    } else {
        assert(enc_comment_items(fs) == enc_comment(fs[0]) + seq![','] + enc_comment_items(fs.skip(1)));
        let tail = seq![','] + (enc_comment_items(fs.skip(1)) + seq![']'] + rest);
        assert(s.skip(i) =~= enc_comment(fs[0]) + tail);
        lemma_p_comment_round(s, i, fs[0], tail);
        let j = i + enc_comment(fs[0]).len() as int;
        assert(s.skip(j) == tail);
        assert(s.skip(j).len() == s.len() - j);
        assert(j < s.len());
        assert(s.skip(j)[0] == s[j]);
        assert(s[j] == ',');
        lemma_ws_here(s, j);
        assert(s.skip(j + 1) =~= enc_comment_items(fs.skip(1)) + seq![']'] + rest) by {
            let t2 = enc_comment_items(fs.skip(1)) + seq![']'] + rest;
            assert forall|k: int| 0 <= k < t2.len() implies s.skip(j + 1)[k] == t2[k] by {
                assert(s.skip(j + 1)[k] == s[j + 1 + k]);
                assert(s.skip(j)[k + 1] == s[j + 1 + k]);
                assert(tail[k + 1] == t2[k]);
            }
        }
        lemma_p_comment_items_round(s, j + 1, acc.push(fs[0]), fs.skip(1), rest);
        assert(acc.push(fs[0]) + fs.skip(1) =~= acc + fs);
    }
}

#[verifier::rlimit(100)]
#[verifier::spinoff_prover]
proof fn lemma_p_comment_list_round(s: Seq<char>, i: int, fs: Seq<CommentItemV>, rest: Seq<char>)
    requires
        0 <= i <= s.len(),
        s.skip(i) == enc_comment_list(fs) + rest,
    ensures
        p_comment_list(s, i) == Option::Some((fs, i + enc_comment_list(fs).len())),
        s.skip(i + enc_comment_list(fs).len()) == rest,
{
    reveal_strlit("[");
    assert(("["@) =~= seq!['[']);
    if fs.len() == 0 {
        assert(enc_comment_items(fs) =~= Seq::<char>::empty());
        assert(enc_comment_list(fs) =~= seq!['[', ']']);
        assert(s.skip(i) =~= ("["@) + (seq![']'] + rest));
        lemma_p_tok_prefix(s, i, "["@, seq![']'] + rest);
        assert(s.skip(i + 1) == seq![']'] + rest);
        assert(s.skip(i + 1).len() == s.len() - i - 1);
        assert(i + 1 < s.len());
        assert(s.skip(i + 1)[0] == s[i + 1]);
        assert(s[i + 1] == ']');
        lemma_ws_here(s, i + 1);
        assert(p_comment_list(s, i) == Option::Some((Seq::<CommentItemV>::empty(), i + 2)));
        assert(fs =~= Seq::<CommentItemV>::empty());
        assert(s.skip(i + 2) =~= rest) by {
            assert forall|k: int| 0 <= k < rest.len() implies s.skip(i + 2)[k] == rest[k] by {
                assert(s.skip(i + 2)[k] == s[i + 2 + k]);
                assert(s.skip(i + 1)[k + 1] == s[i + 2 + k]);
                assert((seq![']'] + rest)[k + 1] == rest[k]);
            }
        }
    } else {
        let items = enc_comment_items(fs);
        assert(s.skip(i) =~= ("["@) + (items + seq![']'] + rest));
        lemma_p_tok_prefix(s, i, "["@, items + seq![']'] + rest);
        assert(s.skip(i + 1) == items + seq![']'] + rest);
        reveal_strlit("{");
        reveal_strlit("{\"id\":");
        assert(enc_comment(fs[0])[0] == ("{\"id\":"@)[0]);
        assert(enc_comment(fs[0])[0] == ("{"@)[0]);
        assert(items[0] == enc_comment(fs[0])[0]) by {
            if fs.len() == 1 {
            } else {
            }
        }
        assert(s.skip(i + 1)[0] == s[i + 1]);
        assert(i + 1 < s.len());
        assert(s[i + 1] != ']' && !spec_is_json_ws(s[i + 1]));
        lemma_ws_here(s, i + 1);
        lemma_p_comment_items_round(s, i + 1, Seq::empty(), fs, rest);
        assert(Seq::<CommentItemV>::empty() + fs =~= fs);
        assert(i + 1 + items.len() + 1 == i + enc_comment_list(fs).len());
    }
}

#[verifier::rlimit(100)]
#[verifier::spinoff_prover]
proof fn lemma_pl_auth_challenge_round(s: Seq<char>, i: int, challenge: Seq<char>)
    requires
        0 <= i <= s.len(),
        s.skip(i) == enc_payload(WsMessageV::AuthChallenge { challenge }) + "}"@,
    ensures
        p_pl_auth_challenge(s, i) == Option::Some((WsMessageV::AuthChallenge { challenge }, i + (enc_payload(WsMessageV::AuthChallenge { challenge })).len())),
        s.skip(i + (enc_payload(WsMessageV::AuthChallenge { challenge })).len()) == "}"@,
{
    reveal_strlit("\"challenge\":");
    reveal_strlit("{\"challenge\":");
    reveal_strlit(",\"challenge\":");
    reveal_strlit("{");
    reveal_strlit("}");
    let m = WsMessageV::AuthChallenge { challenge };
    assert(enc_payload(WsMessageV::AuthChallenge { challenge }) =~= "{"@ + "\"challenge\":"@ + enc_str(challenge) + "}"@);
    assert(s.skip(i) =~= ("{"@ + ("\"challenge\":"@ + (enc_str(challenge) + ("}"@ + "}"@)))));
    assert(s.skip(i).len() == s.len() - i);
    lemma_p_tok_prefix(s, i, "{"@, ("\"challenge\":"@ + (enc_str(challenge) + ("}"@ + "}"@))));
    let i0 = i + ("{"@).len() as int;
    lemma_p_tok_prefix(s, i0, "\"challenge\":"@, (enc_str(challenge) + ("}"@ + "}"@)));
    let i1 = i0 + ("\"challenge\":"@).len() as int;
    lemma_p_jstr_ws_round(s, i1, challenge, ("}"@ + "}"@));
    let i2 = i1 + (enc_str(challenge)).len() as int;
    lemma_p_tok_prefix(s, i2, "}"@, "}"@);
    let i3 = i2 + ("}"@).len() as int;
    assert(i3 == i + (enc_payload(WsMessageV::AuthChallenge { challenge })).len());
    assert(p_pl_auth_challenge(s, i) == Option::Some((m, i + (enc_payload(WsMessageV::AuthChallenge { challenge })).len() as int)));
}

#[verifier::rlimit(100)]
#[verifier::spinoff_prover]
proof fn lemma_pl_auth_response_round(s: Seq<char>, i: int, hmac: Seq<char>)
    requires
        0 <= i <= s.len(),
        s.skip(i) == enc_payload(WsMessageV::AuthResponse { hmac }) + "}"@,
    ensures
        p_pl_auth_response(s, i) == Option::Some((WsMessageV::AuthResponse { hmac }, i + (enc_payload(WsMessageV::AuthResponse { hmac })).len())),
        s.skip(i + (enc_payload(WsMessageV::AuthResponse { hmac })).len()) == "}"@,
{
    reveal_strlit("\"hmac\":");
    reveal_strlit("{\"hmac\":");
    reveal_strlit(",\"hmac\":");
    reveal_strlit("{");
    reveal_strlit("}");
    let m = WsMessageV::AuthResponse { hmac };
    assert(enc_payload(WsMessageV::AuthResponse { hmac }) =~= "{"@ + "\"hmac\":"@ + enc_str(hmac) + "}"@);
    assert(s.skip(i) =~= ("{"@ + ("\"hmac\":"@ + (enc_str(hmac) + ("}"@ + "}"@)))));
    assert(s.skip(i).len() == s.len() - i);
    lemma_p_tok_prefix(s, i, "{"@, ("\"hmac\":"@ + (enc_str(hmac) + ("}"@ + "}"@))));
    let i0 = i + ("{"@).len() as int;
    lemma_p_tok_prefix(s, i0, "\"hmac\":"@, (enc_str(hmac) + ("}"@ + "}"@)));
    let i1 = i0 + ("\"hmac\":"@).len() as int;
    lemma_p_jstr_ws_round(s, i1, hmac, ("}"@ + "}"@));
    let i2 = i1 + (enc_str(hmac)).len() as int;
    lemma_p_tok_prefix(s, i2, "}"@, "}"@);
    let i3 = i2 + ("}"@).len() as int;
    assert(i3 == i + (enc_payload(WsMessageV::AuthResponse { hmac })).len());
    assert(p_pl_auth_response(s, i) == Option::Some((m, i + (enc_payload(WsMessageV::AuthResponse { hmac })).len() as int)));
}

#[verifier::rlimit(100)]
#[verifier::spinoff_prover]
proof fn lemma_pl_auth_result_round(s: Seq<char>, i: int, success: bool, message: Option<Seq<char>>)
    requires
        0 <= i <= s.len(),
        s.skip(i) == enc_payload(WsMessageV::AuthResult { success, message }) + "}"@,
    ensures
        p_pl_auth_result(s, i) == Option::Some((WsMessageV::AuthResult { success, message }, i + (enc_payload(WsMessageV::AuthResult { success, message })).len())),
        s.skip(i + (enc_payload(WsMessageV::AuthResult { success, message })).len()) == "}"@,
{
    reveal_strlit(",");
    reveal_strlit("\"message\":");
    reveal_strlit("{\"message\":");
    reveal_strlit(",\"message\":");
    reveal_strlit("\"success\":");
    reveal_strlit("{\"success\":");
    reveal_strlit(",\"success\":");
    reveal_strlit("{");
    reveal_strlit("}");
    let m = WsMessageV::AuthResult { success, message };
    assert(enc_payload(WsMessageV::AuthResult { success, message }) =~= "{"@ + "\"success\":"@ + enc_bool(success) + (match message { Option::Some(t) => ","@ + "\"message\":"@ + enc_str(t), Option::None => Seq::<char>::empty() }) + "}"@);
    assert(s.skip(i) =~= ("{"@ + ("\"success\":"@ + (enc_bool(success) + ((match message { Option::Some(t) => ","@ + "\"message\":"@ + enc_str(t), Option::None => Seq::<char>::empty() }) + ("}"@ + "}"@))))));
    assert(s.skip(i).len() == s.len() - i);
    lemma_p_tok_prefix(s, i, "{"@, ("\"success\":"@ + (enc_bool(success) + ((match message { Option::Some(t) => ","@ + "\"message\":"@ + enc_str(t), Option::None => Seq::<char>::empty() }) + ("}"@ + "}"@)))));
    let i0 = i + ("{"@).len() as int;
    lemma_p_tok_prefix(s, i0, "\"success\":"@, (enc_bool(success) + ((match message { Option::Some(t) => ","@ + "\"message\":"@ + enc_str(t), Option::None => Seq::<char>::empty() }) + ("}"@ + "}"@))));
    let i1 = i0 + ("\"success\":"@).len() as int;
    lemma_p_bool_ws_round(s, i1, success, ((match message { Option::Some(t) => ","@ + "\"message\":"@ + enc_str(t), Option::None => Seq::<char>::empty() }) + ("}"@ + "}"@)));
    let i2 = i1 + (enc_bool(success)).len() as int;
    let i3: int = match message {
        Option::Some(t) => {
            assert(s.skip(i2) =~= ","@ + (("\"message\":"@) + (enc_str(t) + ("}"@ + "}"@))));
            lemma_p_tok_prefix(s, i2, ","@, ("\"message\":"@) + (enc_str(t) + ("}"@ + "}"@)));
            lemma_p_tok_prefix(s, i2 + 1, "\"message\":"@, enc_str(t) + ("}"@ + "}"@));
            let a1 = i2 + 1 + ("\"message\":"@).len() as int;
            lemma_p_jstr_ws_round(s, a1, t, ("}"@ + "}"@));
            a1 + (enc_str(t)).len() as int
        },
        Option::None => {
            assert(s.skip(i2)[0] == s[i2]);
            assert(s[i2] == ("}"@)[0]);
            lemma_ws_here(s, i2);
            lemma_p_lit_mismatch(s, i2, ","@, 0);
            i2
        },
    };
    lemma_p_tok_prefix(s, i3, "}"@, "}"@);
    let i4 = i3 + ("}"@).len() as int;
    assert(i4 == i + (enc_payload(WsMessageV::AuthResult { success, message })).len());
    assert(p_pl_auth_result(s, i) == Option::Some((m, i + (enc_payload(WsMessageV::AuthResult { success, message })).len() as int)));
}

#[verifier::rlimit(100)]
#[verifier::spinoff_prover]
proof fn lemma_pl_pty_output_round(s: Seq<char>, i: int, pty_id: u64, data: Seq<char>)
    requires
        0 <= i <= s.len(),
        s.skip(i) == enc_payload(WsMessageV::PtyOutput { pty_id, data }) + "}"@,
    ensures
        p_pl_pty_output(s, i) == Option::Some((WsMessageV::PtyOutput { pty_id, data }, i + (enc_payload(WsMessageV::PtyOutput { pty_id, data })).len())),
        s.skip(i + (enc_payload(WsMessageV::PtyOutput { pty_id, data })).len()) == "}"@,
{
    reveal_strlit(",");
    reveal_strlit("\"data\":");
    reveal_strlit("{\"data\":");
    reveal_strlit(",\"data\":");
    reveal_strlit("\"pty_id\":");
    reveal_strlit("{\"pty_id\":");
    reveal_strlit(",\"pty_id\":");
    reveal_strlit("{");
    reveal_strlit("}");
    let m = WsMessageV::PtyOutput { pty_id, data };
    assert(enc_payload(WsMessageV::PtyOutput { pty_id, data }) =~= "{"@ + "\"pty_id\":"@ + spec_dec_nat(pty_id as nat) + ","@ + "\"data\":"@ + enc_str(data) + "}"@);
    assert(s.skip(i) =~= ("{"@ + ("\"pty_id\":"@ + (spec_dec_nat(pty_id as nat) + (","@ + ("\"data\":"@ + (enc_str(data) + ("}"@ + "}"@))))))));
    assert(s.skip(i).len() == s.len() - i);
    lemma_p_tok_prefix(s, i, "{"@, ("\"pty_id\":"@ + (spec_dec_nat(pty_id as nat) + (","@ + ("\"data\":"@ + (enc_str(data) + ("}"@ + "}"@)))))));
    let i0 = i + ("{"@).len() as int;
    lemma_p_tok_prefix(s, i0, "\"pty_id\":"@, (spec_dec_nat(pty_id as nat) + (","@ + ("\"data\":"@ + (enc_str(data) + ("}"@ + "}"@))))));
    let i1 = i0 + ("\"pty_id\":"@).len() as int;
    assert(((","@ + ("\"data\":"@ + (enc_str(data) + ("}"@ + "}"@))))).len() > 0 && !spec_is_digit(((","@ + ("\"data\":"@ + (enc_str(data) + ("}"@ + "}"@)))))[0])) by {
        assert(((","@ + ("\"data\":"@ + (enc_str(data) + ("}"@ + "}"@)))))[0] == (","@)[0]);
    }
    lemma_p_u64_ws_round(s, i1, pty_id, (","@ + ("\"data\":"@ + (enc_str(data) + ("}"@ + "}"@)))));
    let i2 = i1 + (spec_dec_nat(pty_id as nat)).len() as int;
    lemma_p_tok_prefix(s, i2, ","@, ("\"data\":"@ + (enc_str(data) + ("}"@ + "}"@))));
    let i3 = i2 + (","@).len() as int;
    lemma_p_tok_prefix(s, i3, "\"data\":"@, (enc_str(data) + ("}"@ + "}"@)));
    let i4 = i3 + ("\"data\":"@).len() as int;
    lemma_p_jstr_ws_round(s, i4, data, ("}"@ + "}"@));
    let i5 = i4 + (enc_str(data)).len() as int;
    lemma_p_tok_prefix(s, i5, "}"@, "}"@);
    let i6 = i5 + ("}"@).len() as int;
    assert(i6 == i + (enc_payload(WsMessageV::PtyOutput { pty_id, data })).len());
    assert(p_pl_pty_output(s, i) == Option::Some((m, i + (enc_payload(WsMessageV::PtyOutput { pty_id, data })).len() as int)));
}

#[verifier::rlimit(100)]
#[verifier::spinoff_prover]
proof fn lemma_pl_pty_exit_round(s: Seq<char>, i: int, pty_id: u64, exit_code: Option<i32>)
    requires
        0 <= i <= s.len(),
        s.skip(i) == enc_payload(WsMessageV::PtyExit { pty_id, exit_code }) + "}"@,
    ensures
        p_pl_pty_exit(s, i) == Option::Some((WsMessageV::PtyExit { pty_id, exit_code }, i + (enc_payload(WsMessageV::PtyExit { pty_id, exit_code })).len())),
        s.skip(i + (enc_payload(WsMessageV::PtyExit { pty_id, exit_code })).len()) == "}"@,
{
    reveal_strlit(",");
    reveal_strlit("\"exit_code\":");
    reveal_strlit("{\"exit_code\":");
    reveal_strlit(",\"exit_code\":");
    reveal_strlit("\"pty_id\":");
    reveal_strlit("{\"pty_id\":");
    reveal_strlit(",\"pty_id\":");
    reveal_strlit("{");
    reveal_strlit("}");
    let m = WsMessageV::PtyExit { pty_id, exit_code };
    assert(enc_payload(WsMessageV::PtyExit { pty_id, exit_code }) =~= "{"@ + "\"pty_id\":"@ + spec_dec_nat(pty_id as nat) + (match exit_code { Option::Some(t) => ","@ + "\"exit_code\":"@ + enc_i32(t), Option::None => Seq::<char>::empty() }) + "}"@);
    assert(s.skip(i) =~= ("{"@ + ("\"pty_id\":"@ + (spec_dec_nat(pty_id as nat) + ((match exit_code { Option::Some(t) => ","@ + "\"exit_code\":"@ + enc_i32(t), Option::None => Seq::<char>::empty() }) + ("}"@ + "}"@))))));
    assert(s.skip(i).len() == s.len() - i);
    lemma_p_tok_prefix(s, i, "{"@, ("\"pty_id\":"@ + (spec_dec_nat(pty_id as nat) + ((match exit_code { Option::Some(t) => ","@ + "\"exit_code\":"@ + enc_i32(t), Option::None => Seq::<char>::empty() }) + ("}"@ + "}"@)))));
    let i0 = i + ("{"@).len() as int;
    lemma_p_tok_prefix(s, i0, "\"pty_id\":"@, (spec_dec_nat(pty_id as nat) + ((match exit_code { Option::Some(t) => ","@ + "\"exit_code\":"@ + enc_i32(t), Option::None => Seq::<char>::empty() }) + ("}"@ + "}"@))));
    let i1 = i0 + ("\"pty_id\":"@).len() as int;
    assert((((match exit_code { Option::Some(t) => ","@ + "\"exit_code\":"@ + enc_i32(t), Option::None => Seq::<char>::empty() }) + ("}"@ + "}"@))).len() > 0 && !spec_is_digit((((match exit_code { Option::Some(t) => ","@ + "\"exit_code\":"@ + enc_i32(t), Option::None => Seq::<char>::empty() }) + ("}"@ + "}"@)))[0])) by {
        match exit_code {
            Option::Some(t) => {
                assert((((match exit_code { Option::Some(t) => ","@ + "\"exit_code\":"@ + enc_i32(t), Option::None => Seq::<char>::empty() }) + ("}"@ + "}"@)))[0] == (","@)[0]);
            },
            Option::None => {
                assert((((match exit_code { Option::Some(t) => ","@ + "\"exit_code\":"@ + enc_i32(t), Option::None => Seq::<char>::empty() }) + ("}"@ + "}"@)))[0] == ("}"@)[0]);
            },
        }
    }
    lemma_p_u64_ws_round(s, i1, pty_id, ((match exit_code { Option::Some(t) => ","@ + "\"exit_code\":"@ + enc_i32(t), Option::None => Seq::<char>::empty() }) + ("}"@ + "}"@)));
    let i2 = i1 + (spec_dec_nat(pty_id as nat)).len() as int;
    let i3: int = match exit_code {
        Option::Some(t) => {
            assert(s.skip(i2) =~= ","@ + (("\"exit_code\":"@) + (enc_i32(t) + ("}"@ + "}"@))));
            lemma_p_tok_prefix(s, i2, ","@, ("\"exit_code\":"@) + (enc_i32(t) + ("}"@ + "}"@)));
            lemma_p_tok_prefix(s, i2 + 1, "\"exit_code\":"@, enc_i32(t) + ("}"@ + "}"@));
            let a1 = i2 + 1 + ("\"exit_code\":"@).len() as int;
            assert((("}"@ + "}"@)).len() > 0 && !spec_is_digit((("}"@ + "}"@))[0])) by {
                assert((("}"@ + "}"@))[0] == ("}"@)[0]);
            }
            lemma_p_i32_ws_round(s, a1, t, ("}"@ + "}"@));
            a1 + (enc_i32(t)).len() as int
        },
        Option::None => {
            assert(s.skip(i2)[0] == s[i2]);
            assert(s[i2] == ("}"@)[0]);
            lemma_ws_here(s, i2);
            lemma_p_lit_mismatch(s, i2, ","@, 0);
            i2
        },
    };
    lemma_p_tok_prefix(s, i3, "}"@, "}"@);
    let i4 = i3 + ("}"@).len() as int;
    assert(i4 == i + (enc_payload(WsMessageV::PtyExit { pty_id, exit_code })).len());
    assert(p_pl_pty_exit(s, i) == Option::Some((m, i + (enc_payload(WsMessageV::PtyExit { pty_id, exit_code })).len() as int)));
}

#[verifier::rlimit(100)]
#[verifier::spinoff_prover]
proof fn lemma_pl_pty_input_round(s: Seq<char>, i: int, pty_id: u64, data: Seq<char>)
    requires
        0 <= i <= s.len(),
        s.skip(i) == enc_payload(WsMessageV::PtyInput { pty_id, data }) + "}"@,
    ensures
        p_pl_pty_input(s, i) == Option::Some((WsMessageV::PtyInput { pty_id, data }, i + (enc_payload(WsMessageV::PtyInput { pty_id, data })).len())),
        s.skip(i + (enc_payload(WsMessageV::PtyInput { pty_id, data })).len()) == "}"@,
{
    reveal_strlit(",");
    reveal_strlit("\"data\":");
    reveal_strlit("{\"data\":");
    reveal_strlit(",\"data\":");
    reveal_strlit("\"pty_id\":");
    reveal_strlit("{\"pty_id\":");
    reveal_strlit(",\"pty_id\":");
    reveal_strlit("{");
    reveal_strlit("}");
    let m = WsMessageV::PtyInput { pty_id, data };
    assert(enc_payload(WsMessageV::PtyInput { pty_id, data }) =~= "{"@ + "\"pty_id\":"@ + spec_dec_nat(pty_id as nat) + ","@ + "\"data\":"@ + enc_str(data) + "}"@);
    assert(s.skip(i) =~= ("{"@ + ("\"pty_id\":"@ + (spec_dec_nat(pty_id as nat) + (","@ + ("\"data\":"@ + (enc_str(data) + ("}"@ + "}"@))))))));
    assert(s.skip(i).len() == s.len() - i);
    lemma_p_tok_prefix(s, i, "{"@, ("\"pty_id\":"@ + (spec_dec_nat(pty_id as nat) + (","@ + ("\"data\":"@ + (enc_str(data) + ("}"@ + "}"@)))))));
    let i0 = i + ("{"@).len() as int;
    lemma_p_tok_prefix(s, i0, "\"pty_id\":"@, (spec_dec_nat(pty_id as nat) + (","@ + ("\"data\":"@ + (enc_str(data) + ("}"@ + "}"@))))));
    let i1 = i0 + ("\"pty_id\":"@).len() as int;
    assert(((","@ + ("\"data\":"@ + (enc_str(data) + ("}"@ + "}"@))))).len() > 0 && !spec_is_digit(((","@ + ("\"data\":"@ + (enc_str(data) + ("}"@ + "}"@)))))[0])) by {
        assert(((","@ + ("\"data\":"@ + (enc_str(data) + ("}"@ + "}"@)))))[0] == (","@)[0]);
    }
    lemma_p_u64_ws_round(s, i1, pty_id, (","@ + ("\"data\":"@ + (enc_str(data) + ("}"@ + "}"@)))));
    let i2 = i1 + (spec_dec_nat(pty_id as nat)).len() as int;
    lemma_p_tok_prefix(s, i2, ","@, ("\"data\":"@ + (enc_str(data) + ("}"@ + "}"@))));
    let i3 = i2 + (","@).len() as int;
    lemma_p_tok_prefix(s, i3, "\"data\":"@, (enc_str(data) + ("}"@ + "}"@)));
    let i4 = i3 + ("\"data\":"@).len() as int;
    lemma_p_jstr_ws_round(s, i4, data, ("}"@ + "}"@));
    let i5 = i4 + (enc_str(data)).len() as int;
    lemma_p_tok_prefix(s, i5, "}"@, "}"@);
    let i6 = i5 + ("}"@).len() as int;
    assert(i6 == i + (enc_payload(WsMessageV::PtyInput { pty_id, data })).len());
    assert(p_pl_pty_input(s, i) == Option::Some((m, i + (enc_payload(WsMessageV::PtyInput { pty_id, data })).len() as int)));
}

#[verifier::rlimit(100)]
#[verifier::spinoff_prover]
proof fn lemma_pl_pty_resize_round(s: Seq<char>, i: int, pty_id: u64, rows: u16, cols: u16)
    requires
        0 <= i <= s.len(),
        s.skip(i) == enc_payload(WsMessageV::PtyResize { pty_id, rows, cols }) + "}"@,
    ensures
        p_pl_pty_resize(s, i) == Option::Some((WsMessageV::PtyResize { pty_id, rows, cols }, i + (enc_payload(WsMessageV::PtyResize { pty_id, rows, cols })).len())),
        s.skip(i + (enc_payload(WsMessageV::PtyResize { pty_id, rows, cols })).len()) == "}"@,
{
    reveal_strlit(",");
    reveal_strlit("\"cols\":");
    reveal_strlit("{\"cols\":");
    reveal_strlit(",\"cols\":");
    reveal_strlit("\"pty_id\":");
    reveal_strlit("{\"pty_id\":");
    reveal_strlit(",\"pty_id\":");
    reveal_strlit("\"rows\":");
    reveal_strlit("{\"rows\":");
    reveal_strlit(",\"rows\":");
    reveal_strlit("{");
    reveal_strlit("}");
    let m = WsMessageV::PtyResize { pty_id, rows, cols };
    assert(enc_payload(WsMessageV::PtyResize { pty_id, rows, cols }) =~= "{"@ + "\"pty_id\":"@ + spec_dec_nat(pty_id as nat) + ","@ + "\"rows\":"@ + spec_dec_nat(rows as nat) + ","@ + "\"cols\":"@ + spec_dec_nat(cols as nat) + "}"@);
    assert(s.skip(i) =~= ("{"@ + ("\"pty_id\":"@ + (spec_dec_nat(pty_id as nat) + (","@ + ("\"rows\":"@ + (spec_dec_nat(rows as nat) + (","@ + ("\"cols\":"@ + (spec_dec_nat(cols as nat) + ("}"@ + "}"@)))))))))));
    assert(s.skip(i).len() == s.len() - i);
    lemma_p_tok_prefix(s, i, "{"@, ("\"pty_id\":"@ + (spec_dec_nat(pty_id as nat) + (","@ + ("\"rows\":"@ + (spec_dec_nat(rows as nat) + (","@ + ("\"cols\":"@ + (spec_dec_nat(cols as nat) + ("}"@ + "}"@))))))))));
    let i0 = i + ("{"@).len() as int;
    lemma_p_tok_prefix(s, i0, "\"pty_id\":"@, (spec_dec_nat(pty_id as nat) + (","@ + ("\"rows\":"@ + (spec_dec_nat(rows as nat) + (","@ + ("\"cols\":"@ + (spec_dec_nat(cols as nat) + ("}"@ + "}"@)))))))));
    let i1 = i0 + ("\"pty_id\":"@).len() as int;
    assert(((","@ + ("\"rows\":"@ + (spec_dec_nat(rows as nat) + (","@ + ("\"cols\":"@ + (spec_dec_nat(cols as nat) + ("}"@ + "}"@)))))))).len() > 0 && !spec_is_digit(((","@ + ("\"rows\":"@ + (spec_dec_nat(rows as nat) + (","@ + ("\"cols\":"@ + (spec_dec_nat(cols as nat) + ("}"@ + "}"@))))))))[0])) by {
        assert(((","@ + ("\"rows\":"@ + (spec_dec_nat(rows as nat) + (","@ + ("\"cols\":"@ + (spec_dec_nat(cols as nat) + ("}"@ + "}"@))))))))[0] == (","@)[0]);
    }
    lemma_p_u64_ws_round(s, i1, pty_id, (","@ + ("\"rows\":"@ + (spec_dec_nat(rows as nat) + (","@ + ("\"cols\":"@ + (spec_dec_nat(cols as nat) + ("}"@ + "}"@))))))));
    let i2 = i1 + (spec_dec_nat(pty_id as nat)).len() as int;
    lemma_p_tok_prefix(s, i2, ","@, ("\"rows\":"@ + (spec_dec_nat(rows as nat) + (","@ + ("\"cols\":"@ + (spec_dec_nat(cols as nat) + ("}"@ + "}"@)))))));
    let i3 = i2 + (","@).len() as int;
    lemma_p_tok_prefix(s, i3, "\"rows\":"@, (spec_dec_nat(rows as nat) + (","@ + ("\"cols\":"@ + (spec_dec_nat(cols as nat) + ("}"@ + "}"@))))));
    let i4 = i3 + ("\"rows\":"@).len() as int;
    assert(((","@ + ("\"cols\":"@ + (spec_dec_nat(cols as nat) + ("}"@ + "}"@))))).len() > 0 && !spec_is_digit(((","@ + ("\"cols\":"@ + (spec_dec_nat(cols as nat) + ("}"@ + "}"@)))))[0])) by {
        assert(((","@ + ("\"cols\":"@ + (spec_dec_nat(cols as nat) + ("}"@ + "}"@)))))[0] == (","@)[0]);
    }
    lemma_p_u64_ws_round(s, i4, rows as u64, (","@ + ("\"cols\":"@ + (spec_dec_nat(cols as nat) + ("}"@ + "}"@)))));
    assert(p_u16(s, spec_ws_to(s, i4)) == Option::Some((rows, i4 + spec_dec_nat(rows as nat).len() as int)));
    let i5 = i4 + (spec_dec_nat(rows as nat)).len() as int;
    lemma_p_tok_prefix(s, i5, ","@, ("\"cols\":"@ + (spec_dec_nat(cols as nat) + ("}"@ + "}"@))));
    let i6 = i5 + (","@).len() as int;
    lemma_p_tok_prefix(s, i6, "\"cols\":"@, (spec_dec_nat(cols as nat) + ("}"@ + "}"@)));
    let i7 = i6 + ("\"cols\":"@).len() as int;
    assert((("}"@ + "}"@)).len() > 0 && !spec_is_digit((("}"@ + "}"@))[0])) by {
        assert((("}"@ + "}"@))[0] == ("}"@)[0]);
    }
    lemma_p_u64_ws_round(s, i7, cols as u64, ("}"@ + "}"@));
    assert(p_u16(s, spec_ws_to(s, i7)) == Option::Some((cols, i7 + spec_dec_nat(cols as nat).len() as int)));
    let i8 = i7 + (spec_dec_nat(cols as nat)).len() as int;
    lemma_p_tok_prefix(s, i8, "}"@, "}"@);
    let i9 = i8 + ("}"@).len() as int;
    assert(i9 == i + (enc_payload(WsMessageV::PtyResize { pty_id, rows, cols })).len());
    assert(p_pl_pty_resize(s, i) == Option::Some((m, i + (enc_payload(WsMessageV::PtyResize { pty_id, rows, cols })).len() as int)));
}

#[verifier::rlimit(100)]
#[verifier::spinoff_prover]
proof fn lemma_pl_pty_ready_round(s: Seq<char>, i: int, pty_id: u64, cols: u16, rows: u16)
    requires
        0 <= i <= s.len(),
        s.skip(i) == enc_payload(WsMessageV::PtyReady { pty_id, cols, rows }) + "}"@,
    ensures
        p_pl_pty_ready(s, i) == Option::Some((WsMessageV::PtyReady { pty_id, cols, rows }, i + (enc_payload(WsMessageV::PtyReady { pty_id, cols, rows })).len())),
        s.skip(i + (enc_payload(WsMessageV::PtyReady { pty_id, cols, rows })).len()) == "}"@,
{
    reveal_strlit(",");
    reveal_strlit("\"cols\":");
    reveal_strlit("{\"cols\":");
    reveal_strlit(",\"cols\":");
    reveal_strlit("\"pty_id\":");
    reveal_strlit("{\"pty_id\":");
    reveal_strlit(",\"pty_id\":");
    reveal_strlit("\"rows\":");
    reveal_strlit("{\"rows\":");
    reveal_strlit(",\"rows\":");
    reveal_strlit("{");
    reveal_strlit("}");
    let m = WsMessageV::PtyReady { pty_id, cols, rows };
    assert(enc_payload(WsMessageV::PtyReady { pty_id, cols, rows }) =~= "{"@ + "\"pty_id\":"@ + spec_dec_nat(pty_id as nat) + ","@ + "\"cols\":"@ + spec_dec_nat(cols as nat) + ","@ + "\"rows\":"@ + spec_dec_nat(rows as nat) + "}"@);
    assert(s.skip(i) =~= ("{"@ + ("\"pty_id\":"@ + (spec_dec_nat(pty_id as nat) + (","@ + ("\"cols\":"@ + (spec_dec_nat(cols as nat) + (","@ + ("\"rows\":"@ + (spec_dec_nat(rows as nat) + ("}"@ + "}"@)))))))))));
    assert(s.skip(i).len() == s.len() - i);
    lemma_p_tok_prefix(s, i, "{"@, ("\"pty_id\":"@ + (spec_dec_nat(pty_id as nat) + (","@ + ("\"cols\":"@ + (spec_dec_nat(cols as nat) + (","@ + ("\"rows\":"@ + (spec_dec_nat(rows as nat) + ("}"@ + "}"@))))))))));
    let i0 = i + ("{"@).len() as int;
    lemma_p_tok_prefix(s, i0, "\"pty_id\":"@, (spec_dec_nat(pty_id as nat) + (","@ + ("\"cols\":"@ + (spec_dec_nat(cols as nat) + (","@ + ("\"rows\":"@ + (spec_dec_nat(rows as nat) + ("}"@ + "}"@)))))))));
    let i1 = i0 + ("\"pty_id\":"@).len() as int;
    assert(((","@ + ("\"cols\":"@ + (spec_dec_nat(cols as nat) + (","@ + ("\"rows\":"@ + (spec_dec_nat(rows as nat) + ("}"@ + "}"@)))))))).len() > 0 && !spec_is_digit(((","@ + ("\"cols\":"@ + (spec_dec_nat(cols as nat) + (","@ + ("\"rows\":"@ + (spec_dec_nat(rows as nat) + ("}"@ + "}"@))))))))[0])) by {
        assert(((","@ + ("\"cols\":"@ + (spec_dec_nat(cols as nat) + (","@ + ("\"rows\":"@ + (spec_dec_nat(rows as nat) + ("}"@ + "}"@))))))))[0] == (","@)[0]);
    }
    lemma_p_u64_ws_round(s, i1, pty_id, (","@ + ("\"cols\":"@ + (spec_dec_nat(cols as nat) + (","@ + ("\"rows\":"@ + (spec_dec_nat(rows as nat) + ("}"@ + "}"@))))))));
    let i2 = i1 + (spec_dec_nat(pty_id as nat)).len() as int;
    lemma_p_tok_prefix(s, i2, ","@, ("\"cols\":"@ + (spec_dec_nat(cols as nat) + (","@ + ("\"rows\":"@ + (spec_dec_nat(rows as nat) + ("}"@ + "}"@)))))));
    let i3 = i2 + (","@).len() as int;
    lemma_p_tok_prefix(s, i3, "\"cols\":"@, (spec_dec_nat(cols as nat) + (","@ + ("\"rows\":"@ + (spec_dec_nat(rows as nat) + ("}"@ + "}"@))))));
    let i4 = i3 + ("\"cols\":"@).len() as int;
    assert(((","@ + ("\"rows\":"@ + (spec_dec_nat(rows as nat) + ("}"@ + "}"@))))).len() > 0 && !spec_is_digit(((","@ + ("\"rows\":"@ + (spec_dec_nat(rows as nat) + ("}"@ + "}"@)))))[0])) by {
        assert(((","@ + ("\"rows\":"@ + (spec_dec_nat(rows as nat) + ("}"@ + "}"@)))))[0] == (","@)[0]);
    }
    lemma_p_u64_ws_round(s, i4, cols as u64, (","@ + ("\"rows\":"@ + (spec_dec_nat(rows as nat) + ("}"@ + "}"@)))));
    assert(p_u16(s, spec_ws_to(s, i4)) == Option::Some((cols, i4 + spec_dec_nat(cols as nat).len() as int)));
    let i5 = i4 + (spec_dec_nat(cols as nat)).len() as int;
    lemma_p_tok_prefix(s, i5, ","@, ("\"rows\":"@ + (spec_dec_nat(rows as nat) + ("}"@ + "}"@))));
    let i6 = i5 + (","@).len() as int;
    lemma_p_tok_prefix(s, i6, "\"rows\":"@, (spec_dec_nat(rows as nat) + ("}"@ + "}"@)));
    let i7 = i6 + ("\"rows\":"@).len() as int;
    assert((("}"@ + "}"@)).len() > 0 && !spec_is_digit((("}"@ + "}"@))[0])) by {
        assert((("}"@ + "}"@))[0] == ("}"@)[0]);
    }
    lemma_p_u64_ws_round(s, i7, rows as u64, ("}"@ + "}"@));
    assert(p_u16(s, spec_ws_to(s, i7)) == Option::Some((rows, i7 + spec_dec_nat(rows as nat).len() as int)));
    let i8 = i7 + (spec_dec_nat(rows as nat)).len() as int;
    lemma_p_tok_prefix(s, i8, "}"@, "}"@);
    let i9 = i8 + ("}"@).len() as int;
    assert(i9 == i + (enc_payload(WsMessageV::PtyReady { pty_id, cols, rows })).len());
    assert(p_pl_pty_ready(s, i) == Option::Some((m, i + (enc_payload(WsMessageV::PtyReady { pty_id, cols, rows })).len() as int)));
}

#[verifier::rlimit(100)]
#[verifier::spinoff_prover]
proof fn lemma_pl_git_status_sync_round(s: Seq<char>, i: int, files: Seq<GitFileStatusV>)
    requires
        0 <= i <= s.len(),
        s.skip(i) == enc_payload(WsMessageV::GitStatusSync { files }) + "}"@,
    ensures
        p_pl_git_status_sync(s, i) == Option::Some((WsMessageV::GitStatusSync { files }, i + (enc_payload(WsMessageV::GitStatusSync { files })).len())),
        s.skip(i + (enc_payload(WsMessageV::GitStatusSync { files })).len()) == "}"@,
{
    reveal_strlit("\"files\":");
    reveal_strlit("{\"files\":");
    reveal_strlit(",\"files\":");
    reveal_strlit("{");
    reveal_strlit("}");
    let m = WsMessageV::GitStatusSync { files };
    assert(enc_payload(WsMessageV::GitStatusSync { files }) =~= "{"@ + "\"files\":"@ + enc_file_list(files) + "}"@);
    assert(s.skip(i) =~= ("{"@ + ("\"files\":"@ + (enc_file_list(files) + ("}"@ + "}"@)))));
    assert(s.skip(i).len() == s.len() - i);
    lemma_p_tok_prefix(s, i, "{"@, ("\"files\":"@ + (enc_file_list(files) + ("}"@ + "}"@))));
    let i0 = i + ("{"@).len() as int;
    lemma_p_tok_prefix(s, i0, "\"files\":"@, (enc_file_list(files) + ("}"@ + "}"@)));
    let i1 = i0 + ("\"files\":"@).len() as int;
    lemma_p_file_list_round(s, i1, files, ("}"@ + "}"@));
    let i2 = i1 + (enc_file_list(files)).len() as int;
    lemma_p_tok_prefix(s, i2, "}"@, "}"@);
    let i3 = i2 + ("}"@).len() as int;
    assert(i3 == i + (enc_payload(WsMessageV::GitStatusSync { files })).len());
    assert(p_pl_git_status_sync(s, i) == Option::Some((m, i + (enc_payload(WsMessageV::GitStatusSync { files })).len() as int)));
}

#[verifier::rlimit(100)]
#[verifier::spinoff_prover]
proof fn lemma_pl_file_content_request_round(s: Seq<char>, i: int, path: Seq<char>)
    requires
        0 <= i <= s.len(),
        s.skip(i) == enc_payload(WsMessageV::FileContentRequest { path }) + "}"@,
    ensures
        p_pl_file_content_request(s, i) == Option::Some((WsMessageV::FileContentRequest { path }, i + (enc_payload(WsMessageV::FileContentRequest { path })).len())),
        s.skip(i + (enc_payload(WsMessageV::FileContentRequest { path })).len()) == "}"@,
{
    reveal_strlit("\"path\":");
    reveal_strlit("{\"path\":");
    reveal_strlit(",\"path\":");
    reveal_strlit("{");
    reveal_strlit("}");
    let m = WsMessageV::FileContentRequest { path };
    assert(enc_payload(WsMessageV::FileContentRequest { path }) =~= "{"@ + "\"path\":"@ + enc_str(path) + "}"@);
    assert(s.skip(i) =~= ("{"@ + ("\"path\":"@ + (enc_str(path) + ("}"@ + "}"@)))));
    assert(s.skip(i).len() == s.len() - i);
    lemma_p_tok_prefix(s, i, "{"@, ("\"path\":"@ + (enc_str(path) + ("}"@ + "}"@))));
    let i0 = i + ("{"@).len() as int;
    lemma_p_tok_prefix(s, i0, "\"path\":"@, (enc_str(path) + ("}"@ + "}"@)));
    let i1 = i0 + ("\"path\":"@).len() as int;
    lemma_p_jstr_ws_round(s, i1, path, ("}"@ + "}"@));
    let i2 = i1 + (enc_str(path)).len() as int;
    lemma_p_tok_prefix(s, i2, "}"@, "}"@);
    let i3 = i2 + ("}"@).len() as int;
    assert(i3 == i + (enc_payload(WsMessageV::FileContentRequest { path })).len());
    assert(p_pl_file_content_request(s, i) == Option::Some((m, i + (enc_payload(WsMessageV::FileContentRequest { path })).len() as int)));
}

#[verifier::rlimit(100)]
#[verifier::spinoff_prover]
proof fn lemma_pl_file_content_response_round(s: Seq<char>, i: int, path: Seq<char>, original: Seq<char>, modified: Seq<char>)
    requires
        0 <= i <= s.len(),
        s.skip(i) == enc_payload(WsMessageV::FileContentResponse { path, original, modified }) + "}"@,
    ensures
        p_pl_file_content_response(s, i) == Option::Some((WsMessageV::FileContentResponse { path, original, modified }, i + (enc_payload(WsMessageV::FileContentResponse { path, original, modified })).len())),
        s.skip(i + (enc_payload(WsMessageV::FileContentResponse { path, original, modified })).len()) == "}"@,
{
    reveal_strlit(",");
    reveal_strlit("\"modified\":");
    reveal_strlit("{\"modified\":");
    reveal_strlit(",\"modified\":");
    reveal_strlit("\"original\":");
    reveal_strlit("{\"original\":");
    reveal_strlit(",\"original\":");
    reveal_strlit("\"path\":");
    reveal_strlit("{\"path\":");
    reveal_strlit(",\"path\":");
    reveal_strlit("{");
    reveal_strlit("}");
    let m = WsMessageV::FileContentResponse { path, original, modified };
    assert(enc_payload(WsMessageV::FileContentResponse { path, original, modified }) =~= "{"@ + "\"path\":"@ + enc_str(path) + ","@ + "\"original\":"@ + enc_str(original) + ","@ + "\"modified\":"@ + enc_str(modified) + "}"@);
    assert(s.skip(i) =~= ("{"@ + ("\"path\":"@ + (enc_str(path) + (","@ + ("\"original\":"@ + (enc_str(original) + (","@ + ("\"modified\":"@ + (enc_str(modified) + ("}"@ + "}"@)))))))))));
    assert(s.skip(i).len() == s.len() - i);
    lemma_p_tok_prefix(s, i, "{"@, ("\"path\":"@ + (enc_str(path) + (","@ + ("\"original\":"@ + (enc_str(original) + (","@ + ("\"modified\":"@ + (enc_str(modified) + ("}"@ + "}"@))))))))));
    let i0 = i + ("{"@).len() as int;
    lemma_p_tok_prefix(s, i0, "\"path\":"@, (enc_str(path) + (","@ + ("\"original\":"@ + (enc_str(original) + (","@ + ("\"modified\":"@ + (enc_str(modified) + ("}"@ + "}"@)))))))));
    let i1 = i0 + ("\"path\":"@).len() as int;
    lemma_p_jstr_ws_round(s, i1, path, (","@ + ("\"original\":"@ + (enc_str(original) + (","@ + ("\"modified\":"@ + (enc_str(modified) + ("}"@ + "}"@))))))));
    let i2 = i1 + (enc_str(path)).len() as int;
    lemma_p_tok_prefix(s, i2, ","@, ("\"original\":"@ + (enc_str(original) + (","@ + ("\"modified\":"@ + (enc_str(modified) + ("}"@ + "}"@)))))));
    let i3 = i2 + (","@).len() as int;
    lemma_p_tok_prefix(s, i3, "\"original\":"@, (enc_str(original) + (","@ + ("\"modified\":"@ + (enc_str(modified) + ("}"@ + "}"@))))));
    let i4 = i3 + ("\"original\":"@).len() as int;
    lemma_p_jstr_ws_round(s, i4, original, (","@ + ("\"modified\":"@ + (enc_str(modified) + ("}"@ + "}"@)))));
    let i5 = i4 + (enc_str(original)).len() as int;
    lemma_p_tok_prefix(s, i5, ","@, ("\"modified\":"@ + (enc_str(modified) + ("}"@ + "}"@))));
    let i6 = i5 + (","@).len() as int;
    lemma_p_tok_prefix(s, i6, "\"modified\":"@, (enc_str(modified) + ("}"@ + "}"@)));
    let i7 = i6 + ("\"modified\":"@).len() as int;
    lemma_p_jstr_ws_round(s, i7, modified, ("}"@ + "}"@));
    let i8 = i7 + (enc_str(modified)).len() as int;
    lemma_p_tok_prefix(s, i8, "}"@, "}"@);
    let i9 = i8 + ("}"@).len() as int;
    assert(i9 == i + (enc_payload(WsMessageV::FileContentResponse { path, original, modified })).len());
    assert(p_pl_file_content_response(s, i) == Option::Some((m, i + (enc_payload(WsMessageV::FileContentResponse { path, original, modified })).len() as int)));
}

#[verifier::rlimit(100)]
#[verifier::spinoff_prover]
proof fn lemma_pl_file_change_round(s: Seq<char>, i: int, path: Seq<char>, kind: Seq<char>)
    requires
        0 <= i <= s.len(),
        s.skip(i) == enc_payload(WsMessageV::FileChange { path, kind }) + "}"@,
    ensures
        p_pl_file_change(s, i) == Option::Some((WsMessageV::FileChange { path, kind }, i + (enc_payload(WsMessageV::FileChange { path, kind })).len())),
        s.skip(i + (enc_payload(WsMessageV::FileChange { path, kind })).len()) == "}"@,
{
    reveal_strlit(",");
    reveal_strlit("\"kind\":");
    reveal_strlit("{\"kind\":");
    reveal_strlit(",\"kind\":");
    reveal_strlit("\"path\":");
    reveal_strlit("{\"path\":");
    reveal_strlit(",\"path\":");
    reveal_strlit("{");
    reveal_strlit("}");
    let m = WsMessageV::FileChange { path, kind };
    assert(enc_payload(WsMessageV::FileChange { path, kind }) =~= "{"@ + "\"path\":"@ + enc_str(path) + ","@ + "\"kind\":"@ + enc_str(kind) + "}"@);
    assert(s.skip(i) =~= ("{"@ + ("\"path\":"@ + (enc_str(path) + (","@ + ("\"kind\":"@ + (enc_str(kind) + ("}"@ + "}"@))))))));
    assert(s.skip(i).len() == s.len() - i);
    lemma_p_tok_prefix(s, i, "{"@, ("\"path\":"@ + (enc_str(path) + (","@ + ("\"kind\":"@ + (enc_str(kind) + ("}"@ + "}"@)))))));
    let i0 = i + ("{"@).len() as int;
    lemma_p_tok_prefix(s, i0, "\"path\":"@, (enc_str(path) + (","@ + ("\"kind\":"@ + (enc_str(kind) + ("}"@ + "}"@))))));
    let i1 = i0 + ("\"path\":"@).len() as int;
    lemma_p_jstr_ws_round(s, i1, path, (","@ + ("\"kind\":"@ + (enc_str(kind) + ("}"@ + "}"@)))));
    let i2 = i1 + (enc_str(path)).len() as int;
    lemma_p_tok_prefix(s, i2, ","@, ("\"kind\":"@ + (enc_str(kind) + ("}"@ + "}"@))));
    let i3 = i2 + (","@).len() as int;
    lemma_p_tok_prefix(s, i3, "\"kind\":"@, (enc_str(kind) + ("}"@ + "}"@)));
    let i4 = i3 + ("\"kind\":"@).len() as int;
    lemma_p_jstr_ws_round(s, i4, kind, ("}"@ + "}"@));
    let i5 = i4 + (enc_str(kind)).len() as int;
    lemma_p_tok_prefix(s, i5, "}"@, "}"@);
    let i6 = i5 + ("}"@).len() as int;
    assert(i6 == i + (enc_payload(WsMessageV::FileChange { path, kind })).len());
    assert(p_pl_file_change(s, i) == Option::Some((m, i + (enc_payload(WsMessageV::FileChange { path, kind })).len() as int)));
}

#[verifier::rlimit(100)]
#[verifier::spinoff_prover]
proof fn lemma_pl_git_status_request_round(s: Seq<char>, i: int)
    requires
        0 <= i <= s.len(),
        s.skip(i) == enc_payload(WsMessageV::GitStatusRequest) + "}"@,
    ensures
        p_pl_git_status_request(s, i) == Option::Some((WsMessageV::GitStatusRequest, i + (enc_payload(WsMessageV::GitStatusRequest)).len())),
        s.skip(i + (enc_payload(WsMessageV::GitStatusRequest)).len()) == "}"@,
{
    reveal_strlit("{");
    reveal_strlit("}");
    reveal_strlit("{}");
    let m = WsMessageV::GitStatusRequest;
    assert(enc_payload(WsMessageV::GitStatusRequest) =~= "{"@ + "}"@);
    assert(s.skip(i) =~= ("{"@ + ("}"@ + "}"@)));
    assert(s.skip(i).len() == s.len() - i);
    lemma_p_tok_prefix(s, i, "{"@, ("}"@ + "}"@));
    let i0 = i + ("{"@).len() as int;
    lemma_p_tok_prefix(s, i0, "}"@, "}"@);
    let i1 = i0 + ("}"@).len() as int;
    assert(i1 == i + (enc_payload(WsMessageV::GitStatusRequest)).len());
    assert(p_pl_git_status_request(s, i) == Option::Some((m, i + (enc_payload(WsMessageV::GitStatusRequest)).len() as int)));
}

#[verifier::rlimit(100)]
#[verifier::spinoff_prover]
proof fn lemma_pl_paths_round(s: Seq<char>, i: int, paths: Seq<Seq<char>>, unstage: bool)
    requires
        0 <= i <= s.len(),
        s.skip(i) == enc_payload((if unstage { WsMessageV::GitUnstage { paths } } else { WsMessageV::GitStage { paths } })) + "}"@,
    ensures
        p_pl_paths(s, i, unstage) == Option::Some(((if unstage { WsMessageV::GitUnstage { paths } } else { WsMessageV::GitStage { paths } }), i + (enc_payload((if unstage { WsMessageV::GitUnstage { paths } } else { WsMessageV::GitStage { paths } }))).len())),
        s.skip(i + (enc_payload((if unstage { WsMessageV::GitUnstage { paths } } else { WsMessageV::GitStage { paths } }))).len()) == "}"@,
{
    reveal_strlit("\"paths\":");
    reveal_strlit("{\"paths\":");
    reveal_strlit(",\"paths\":");
    reveal_strlit("{");
    reveal_strlit("}");
    let m = (if unstage { WsMessageV::GitUnstage { paths } } else { WsMessageV::GitStage { paths } });
    assert(enc_payload((if unstage { WsMessageV::GitUnstage { paths } } else { WsMessageV::GitStage { paths } })) =~= "{"@ + "\"paths\":"@ + enc_str_list(paths) + "}"@);
    assert(s.skip(i) =~= ("{"@ + ("\"paths\":"@ + (enc_str_list(paths) + ("}"@ + "}"@)))));
    assert(s.skip(i).len() == s.len() - i);
    lemma_p_tok_prefix(s, i, "{"@, ("\"paths\":"@ + (enc_str_list(paths) + ("}"@ + "}"@))));
    let i0 = i + ("{"@).len() as int;
    lemma_p_tok_prefix(s, i0, "\"paths\":"@, (enc_str_list(paths) + ("}"@ + "}"@)));
    let i1 = i0 + ("\"paths\":"@).len() as int;
    lemma_p_str_list_round(s, i1, paths, ("}"@ + "}"@));
    let i2 = i1 + (enc_str_list(paths)).len() as int;
    lemma_p_tok_prefix(s, i2, "}"@, "}"@);
    let i3 = i2 + ("}"@).len() as int;
    assert(i3 == i + (enc_payload((if unstage { WsMessageV::GitUnstage { paths } } else { WsMessageV::GitStage { paths } }))).len());
    assert(p_pl_paths(s, i, unstage) == Option::Some((m, i + (enc_payload((if unstage { WsMessageV::GitUnstage { paths } } else { WsMessageV::GitStage { paths } }))).len() as int)));
}

#[verifier::rlimit(100)]
#[verifier::spinoff_prover]
proof fn lemma_pl_git_stage_result_round(s: Seq<char>, i: int, success: bool, error: Option<Seq<char>>, files: Seq<GitFileStatusV>)
    requires
        0 <= i <= s.len(),
        s.skip(i) == enc_payload(WsMessageV::GitStageResult { success, error, files }) + "}"@,
    ensures
        p_pl_git_stage_result(s, i) == Option::Some((WsMessageV::GitStageResult { success, error, files }, i + (enc_payload(WsMessageV::GitStageResult { success, error, files })).len())),
        s.skip(i + (enc_payload(WsMessageV::GitStageResult { success, error, files })).len()) == "}"@,
{
    reveal_strlit(",");
    reveal_strlit("\"error\":");
    reveal_strlit("{\"error\":");
    reveal_strlit(",\"error\":");
    reveal_strlit("\"files\":");
    reveal_strlit("{\"files\":");
    reveal_strlit(",\"files\":");
    reveal_strlit("\"success\":");
    reveal_strlit("{\"success\":");
    reveal_strlit(",\"success\":");
    reveal_strlit("{");
    reveal_strlit("}");
    let m = WsMessageV::GitStageResult { success, error, files };
    assert(enc_payload(WsMessageV::GitStageResult { success, error, files }) =~= "{"@ + "\"success\":"@ + enc_bool(success) + (match error { Option::Some(t) => ","@ + "\"error\":"@ + enc_str(t) + ","@, Option::None => ","@ }) + "\"files\":"@ + enc_file_list(files) + "}"@);
    assert(s.skip(i) =~= ("{"@ + ("\"success\":"@ + (enc_bool(success) + ((match error { Option::Some(t) => ","@ + "\"error\":"@ + enc_str(t) + ","@, Option::None => ","@ }) + ("\"files\":"@ + (enc_file_list(files) + ("}"@ + "}"@))))))));
    assert(s.skip(i).len() == s.len() - i);
    lemma_p_tok_prefix(s, i, "{"@, ("\"success\":"@ + (enc_bool(success) + ((match error { Option::Some(t) => ","@ + "\"error\":"@ + enc_str(t) + ","@, Option::None => ","@ }) + ("\"files\":"@ + (enc_file_list(files) + ("}"@ + "}"@)))))));
    let i0 = i + ("{"@).len() as int;
    lemma_p_tok_prefix(s, i0, "\"success\":"@, (enc_bool(success) + ((match error { Option::Some(t) => ","@ + "\"error\":"@ + enc_str(t) + ","@, Option::None => ","@ }) + ("\"files\":"@ + (enc_file_list(files) + ("}"@ + "}"@))))));
    let i1 = i0 + ("\"success\":"@).len() as int;
    lemma_p_bool_ws_round(s, i1, success, ((match error { Option::Some(t) => ","@ + "\"error\":"@ + enc_str(t) + ","@, Option::None => ","@ }) + ("\"files\":"@ + (enc_file_list(files) + ("}"@ + "}"@)))));
    let i2 = i1 + (enc_bool(success)).len() as int;
    let i3: int = match error {
        Option::Some(t) => {
            assert(s.skip(i2) =~= ","@ + (("\"error\":"@) + (enc_str(t) + (","@ + ("\"files\":"@ + (enc_file_list(files) + ("}"@ + "}"@)))))));
            lemma_p_tok_prefix(s, i2, ","@, ("\"error\":"@) + (enc_str(t) + (","@ + ("\"files\":"@ + (enc_file_list(files) + ("}"@ + "}"@))))));
            lemma_p_tok_prefix(s, i2 + 1, "\"error\":"@, enc_str(t) + (","@ + ("\"files\":"@ + (enc_file_list(files) + ("}"@ + "}"@)))));
            let a1 = i2 + 1 + ("\"error\":"@).len() as int;
            lemma_p_jstr_ws_round(s, a1, t, ","@ + ("\"files\":"@ + (enc_file_list(files) + ("}"@ + "}"@))));
            let a2 = a1 + (enc_str(t)).len() as int;
            lemma_p_tok_prefix(s, a2, ","@, ("\"files\":"@ + (enc_file_list(files) + ("}"@ + "}"@))));
            a2 + 1
        },
        Option::None => {
            assert(s.skip(i2) =~= ","@ + ("\"files\":"@ + (enc_file_list(files) + ("}"@ + "}"@))));
            lemma_p_tok_prefix(s, i2, ","@, ("\"files\":"@ + (enc_file_list(files) + ("}"@ + "}"@))));
            let a0 = i2 + 1;
            assert(s.skip(a0)[0] == s[a0]);
            assert(s.skip(a0)[1] == s[a0 + 1]);
            assert(s[a0] == ("\"files\":"@)[0]);
            assert(s[a0 + 1] == ("\"files\":"@)[1]);
            lemma_ws_here(s, a0);
            assert(("\"error\":"@)[1] != ("\"files\":"@)[1]);
            lemma_p_lit_mismatch(s, a0, "\"error\":"@, 1);
            a0
        },
    };
    lemma_p_tok_prefix(s, i3, "\"files\":"@, (enc_file_list(files) + ("}"@ + "}"@)));
    let i4 = i3 + ("\"files\":"@).len() as int;
    lemma_p_file_list_round(s, i4, files, ("}"@ + "}"@));
    let i5 = i4 + (enc_file_list(files)).len() as int;
    lemma_p_tok_prefix(s, i5, "}"@, "}"@);
    let i6 = i5 + ("}"@).len() as int;
    assert(i6 == i + (enc_payload(WsMessageV::GitStageResult { success, error, files })).len());
    assert(p_pl_git_stage_result(s, i) == Option::Some((m, i + (enc_payload(WsMessageV::GitStageResult { success, error, files })).len() as int)));
}

#[verifier::rlimit(100)]
#[verifier::spinoff_prover]
proof fn lemma_pl_add_comment_round(s: Seq<char>, i: int, file_path: Seq<char>, line_number: u32, end_line: Option<u32>, content: Seq<char>)
    requires
        0 <= i <= s.len(),
        s.skip(i) == enc_payload(WsMessageV::AddComment { file_path, line_number, end_line, content }) + "}"@,
    ensures
        p_pl_add_comment(s, i) == Option::Some((WsMessageV::AddComment { file_path, line_number, end_line, content }, i + (enc_payload(WsMessageV::AddComment { file_path, line_number, end_line, content })).len())),
        s.skip(i + (enc_payload(WsMessageV::AddComment { file_path, line_number, end_line, content })).len()) == "}"@,
{
    reveal_strlit(",");
    reveal_strlit("\"content\":");
    reveal_strlit("{\"content\":");
    reveal_strlit(",\"content\":");
    reveal_strlit("\"end_line\":");
    reveal_strlit("{\"end_line\":");
    reveal_strlit(",\"end_line\":");
    reveal_strlit("\"file_path\":");
    reveal_strlit("{\"file_path\":");
    reveal_strlit(",\"file_path\":");
    reveal_strlit("\"line_number\":");
    reveal_strlit("{\"line_number\":");
    reveal_strlit(",\"line_number\":");
    reveal_strlit("{");
    reveal_strlit("}");
    let m = WsMessageV::AddComment { file_path, line_number, end_line, content };
    assert(enc_payload(WsMessageV::AddComment { file_path, line_number, end_line, content }) =~= "{"@ + "\"file_path\":"@ + enc_str(file_path) + ","@ + "\"line_number\":"@ + spec_dec_nat(line_number as nat) + (match end_line { Option::Some(t) => ","@ + "\"end_line\":"@ + spec_dec_nat(t as nat) + ","@, Option::None => ","@ }) + "\"content\":"@ + enc_str(content) + "}"@);
    assert(s.skip(i) =~= ("{"@ + ("\"file_path\":"@ + (enc_str(file_path) + (","@ + ("\"line_number\":"@ + (spec_dec_nat(line_number as nat) + ((match end_line { Option::Some(t) => ","@ + "\"end_line\":"@ + spec_dec_nat(t as nat) + ","@, Option::None => ","@ }) + ("\"content\":"@ + (enc_str(content) + ("}"@ + "}"@)))))))))));
    assert(s.skip(i).len() == s.len() - i);
    lemma_p_tok_prefix(s, i, "{"@, ("\"file_path\":"@ + (enc_str(file_path) + (","@ + ("\"line_number\":"@ + (spec_dec_nat(line_number as nat) + ((match end_line { Option::Some(t) => ","@ + "\"end_line\":"@ + spec_dec_nat(t as nat) + ","@, Option::None => ","@ }) + ("\"content\":"@ + (enc_str(content) + ("}"@ + "}"@))))))))));
    let i0 = i + ("{"@).len() as int;
    lemma_p_tok_prefix(s, i0, "\"file_path\":"@, (enc_str(file_path) + (","@ + ("\"line_number\":"@ + (spec_dec_nat(line_number as nat) + ((match end_line { Option::Some(t) => ","@ + "\"end_line\":"@ + spec_dec_nat(t as nat) + ","@, Option::None => ","@ }) + ("\"content\":"@ + (enc_str(content) + ("}"@ + "}"@)))))))));
    let i1 = i0 + ("\"file_path\":"@).len() as int;
    lemma_p_jstr_ws_round(s, i1, file_path, (","@ + ("\"line_number\":"@ + (spec_dec_nat(line_number as nat) + ((match end_line { Option::Some(t) => ","@ + "\"end_line\":"@ + spec_dec_nat(t as nat) + ","@, Option::None => ","@ }) + ("\"content\":"@ + (enc_str(content) + ("}"@ + "}"@))))))));
    let i2 = i1 + (enc_str(file_path)).len() as int;
    lemma_p_tok_prefix(s, i2, ","@, ("\"line_number\":"@ + (spec_dec_nat(line_number as nat) + ((match end_line { Option::Some(t) => ","@ + "\"end_line\":"@ + spec_dec_nat(t as nat) + ","@, Option::None => ","@ }) + ("\"content\":"@ + (enc_str(content) + ("}"@ + "}"@)))))));
    let i3 = i2 + (","@).len() as int;
    lemma_p_tok_prefix(s, i3, "\"line_number\":"@, (spec_dec_nat(line_number as nat) + ((match end_line { Option::Some(t) => ","@ + "\"end_line\":"@ + spec_dec_nat(t as nat) + ","@, Option::None => ","@ }) + ("\"content\":"@ + (enc_str(content) + ("}"@ + "}"@))))));
    let i4 = i3 + ("\"line_number\":"@).len() as int;
    assert((((match end_line { Option::Some(t) => ","@ + "\"end_line\":"@ + spec_dec_nat(t as nat) + ","@, Option::None => ","@ }) + ("\"content\":"@ + (enc_str(content) + ("}"@ + "}"@))))).len() > 0 && !spec_is_digit((((match end_line { Option::Some(t) => ","@ + "\"end_line\":"@ + spec_dec_nat(t as nat) + ","@, Option::None => ","@ }) + ("\"content\":"@ + (enc_str(content) + ("}"@ + "}"@)))))[0])) by {
        match end_line {
            Option::Some(t) => {
                assert((((match end_line { Option::Some(t) => ","@ + "\"end_line\":"@ + spec_dec_nat(t as nat) + ","@, Option::None => ","@ }) + ("\"content\":"@ + (enc_str(content) + ("}"@ + "}"@)))))[0] == (","@)[0]);
            },
            Option::None => {
                assert((((match end_line { Option::Some(t) => ","@ + "\"end_line\":"@ + spec_dec_nat(t as nat) + ","@, Option::None => ","@ }) + ("\"content\":"@ + (enc_str(content) + ("}"@ + "}"@)))))[0] == (","@)[0]);
            },
        }
    }
    lemma_p_u64_ws_round(s, i4, line_number as u64, ((match end_line { Option::Some(t) => ","@ + "\"end_line\":"@ + spec_dec_nat(t as nat) + ","@, Option::None => ","@ }) + ("\"content\":"@ + (enc_str(content) + ("}"@ + "}"@)))));
    assert(p_u32(s, spec_ws_to(s, i4)) == Option::Some((line_number, i4 + spec_dec_nat(line_number as nat).len() as int)));
    let i5 = i4 + (spec_dec_nat(line_number as nat)).len() as int;
    let i6: int = match end_line {
        Option::Some(t) => {
            assert(s.skip(i5) =~= ","@ + (("\"end_line\":"@) + (spec_dec_nat(t as nat) + (","@ + ("\"content\":"@ + (enc_str(content) + ("}"@ + "}"@)))))));
            lemma_p_tok_prefix(s, i5, ","@, ("\"end_line\":"@) + (spec_dec_nat(t as nat) + (","@ + ("\"content\":"@ + (enc_str(content) + ("}"@ + "}"@))))));
            lemma_p_tok_prefix(s, i5 + 1, "\"end_line\":"@, spec_dec_nat(t as nat) + (","@ + ("\"content\":"@ + (enc_str(content) + ("}"@ + "}"@)))));
            let a1 = i5 + 1 + ("\"end_line\":"@).len() as int;
            assert((","@ + ("\"content\":"@ + (enc_str(content) + ("}"@ + "}"@)))).len() > 0 && !spec_is_digit((","@ + ("\"content\":"@ + (enc_str(content) + ("}"@ + "}"@))))[0])) by {
                assert((","@ + ("\"content\":"@ + (enc_str(content) + ("}"@ + "}"@))))[0] == (","@)[0]);
            }
            lemma_p_u64_ws_round(s, a1, t as u64, ","@ + ("\"content\":"@ + (enc_str(content) + ("}"@ + "}"@))));
            assert(p_u32(s, spec_ws_to(s, a1)) == Option::Some((t, a1 + spec_dec_nat(t as nat).len() as int)));
            let a2 = a1 + (spec_dec_nat(t as nat)).len() as int;
            lemma_p_tok_prefix(s, a2, ","@, ("\"content\":"@ + (enc_str(content) + ("}"@ + "}"@))));
            a2 + 1
        },
        Option::None => {
            assert(s.skip(i5) =~= ","@ + ("\"content\":"@ + (enc_str(content) + ("}"@ + "}"@))));
            lemma_p_tok_prefix(s, i5, ","@, ("\"content\":"@ + (enc_str(content) + ("}"@ + "}"@))));
            let a0 = i5 + 1;
            assert(s.skip(a0)[0] == s[a0]);
            assert(s.skip(a0)[1] == s[a0 + 1]);
            assert(s[a0] == ("\"content\":"@)[0]);
            assert(s[a0 + 1] == ("\"content\":"@)[1]);
            lemma_ws_here(s, a0);
            assert(("\"end_line\":"@)[1] != ("\"content\":"@)[1]);
            lemma_p_lit_mismatch(s, a0, "\"end_line\":"@, 1);
            a0
        },
    };
    lemma_p_tok_prefix(s, i6, "\"content\":"@, (enc_str(content) + ("}"@ + "}"@)));
    let i7 = i6 + ("\"content\":"@).len() as int;
    lemma_p_jstr_ws_round(s, i7, content, ("}"@ + "}"@));
    let i8 = i7 + (enc_str(content)).len() as int;
    lemma_p_tok_prefix(s, i8, "}"@, "}"@);
    let i9 = i8 + ("}"@).len() as int;
    assert(i9 == i + (enc_payload(WsMessageV::AddComment { file_path, line_number, end_line, content })).len());
    assert(p_pl_add_comment(s, i) == Option::Some((m, i + (enc_payload(WsMessageV::AddComment { file_path, line_number, end_line, content })).len() as int)));
}

#[verifier::rlimit(100)]
#[verifier::spinoff_prover]
proof fn lemma_pl_comments_sync_round(s: Seq<char>, i: int, comments: Seq<CommentItemV>)
    requires
        0 <= i <= s.len(),
        s.skip(i) == enc_payload(WsMessageV::CommentsSync { comments }) + "}"@,
    ensures
        p_pl_comments_sync(s, i) == Option::Some((WsMessageV::CommentsSync { comments }, i + (enc_payload(WsMessageV::CommentsSync { comments })).len())),
        s.skip(i + (enc_payload(WsMessageV::CommentsSync { comments })).len()) == "}"@,
{
    reveal_strlit("\"comments\":");
    reveal_strlit("{\"comments\":");
    reveal_strlit(",\"comments\":");
    reveal_strlit("{");
    reveal_strlit("}");
    let m = WsMessageV::CommentsSync { comments };
    assert(enc_payload(WsMessageV::CommentsSync { comments }) =~= "{"@ + "\"comments\":"@ + enc_comment_list(comments) + "}"@);
    assert(s.skip(i) =~= ("{"@ + ("\"comments\":"@ + (enc_comment_list(comments) + ("}"@ + "}"@)))));
    assert(s.skip(i).len() == s.len() - i);
    lemma_p_tok_prefix(s, i, "{"@, ("\"comments\":"@ + (enc_comment_list(comments) + ("}"@ + "}"@))));
    let i0 = i + ("{"@).len() as int;
    lemma_p_tok_prefix(s, i0, "\"comments\":"@, (enc_comment_list(comments) + ("}"@ + "}"@)));
    let i1 = i0 + ("\"comments\":"@).len() as int;
    lemma_p_comment_list_round(s, i1, comments, ("}"@ + "}"@));
    let i2 = i1 + (enc_comment_list(comments)).len() as int;
    lemma_p_tok_prefix(s, i2, "}"@, "}"@);
    let i3 = i2 + ("}"@).len() as int;
    assert(i3 == i + (enc_payload(WsMessageV::CommentsSync { comments })).len());
    assert(p_pl_comments_sync(s, i) == Option::Some((m, i + (enc_payload(WsMessageV::CommentsSync { comments })).len() as int)));
}

#[verifier::rlimit(100)]
#[verifier::spinoff_prover]
proof fn lemma_pl_error_round(s: Seq<char>, i: int, code: Seq<char>, message: Seq<char>)
    requires
        0 <= i <= s.len(),
        s.skip(i) == enc_payload(WsMessageV::Error { code, message }) + "}"@,
    ensures
        p_pl_error(s, i) == Option::Some((WsMessageV::Error { code, message }, i + (enc_payload(WsMessageV::Error { code, message })).len())),
        s.skip(i + (enc_payload(WsMessageV::Error { code, message })).len()) == "}"@,
{
    reveal_strlit(",");
    reveal_strlit("\"code\":");
    reveal_strlit("{\"code\":");
    reveal_strlit(",\"code\":");
    reveal_strlit("\"message\":");
    reveal_strlit("{\"message\":");
    reveal_strlit(",\"message\":");
    reveal_strlit("{");
    reveal_strlit("}");
    let m = WsMessageV::Error { code, message };
    assert(enc_payload(WsMessageV::Error { code, message }) =~= "{"@ + "\"code\":"@ + enc_str(code) + ","@ + "\"message\":"@ + enc_str(message) + "}"@);
    assert(s.skip(i) =~= ("{"@ + ("\"code\":"@ + (enc_str(code) + (","@ + ("\"message\":"@ + (enc_str(message) + ("}"@ + "}"@))))))));
    assert(s.skip(i).len() == s.len() - i);
    lemma_p_tok_prefix(s, i, "{"@, ("\"code\":"@ + (enc_str(code) + (","@ + ("\"message\":"@ + (enc_str(message) + ("}"@ + "}"@)))))));
    let i0 = i + ("{"@).len() as int;
    lemma_p_tok_prefix(s, i0, "\"code\":"@, (enc_str(code) + (","@ + ("\"message\":"@ + (enc_str(message) + ("}"@ + "}"@))))));
    let i1 = i0 + ("\"code\":"@).len() as int;
    lemma_p_jstr_ws_round(s, i1, code, (","@ + ("\"message\":"@ + (enc_str(message) + ("}"@ + "}"@)))));
    let i2 = i1 + (enc_str(code)).len() as int;
    lemma_p_tok_prefix(s, i2, ","@, ("\"message\":"@ + (enc_str(message) + ("}"@ + "}"@))));
    let i3 = i2 + (","@).len() as int;
    lemma_p_tok_prefix(s, i3, "\"message\":"@, (enc_str(message) + ("}"@ + "}"@)));
    let i4 = i3 + ("\"message\":"@).len() as int;
    lemma_p_jstr_ws_round(s, i4, message, ("}"@ + "}"@));
    let i5 = i4 + (enc_str(message)).len() as int;
    lemma_p_tok_prefix(s, i5, "}"@, "}"@);
    let i6 = i5 + ("}"@).len() as int;
    assert(i6 == i + (enc_payload(WsMessageV::Error { code, message })).len());
    assert(p_pl_error(s, i) == Option::Some((m, i + (enc_payload(WsMessageV::Error { code, message })).len() as int)));
}

proof fn lemma_tags_distinct()
    ensures
        ("auth_challenge"@) != ("auth_response"@),
        ("auth_challenge"@) != ("auth_result"@),
        ("auth_challenge"@) != ("pty_output"@),
        ("auth_challenge"@) != ("pty_exit"@),
        ("auth_challenge"@) != ("pty_input"@),
        ("auth_challenge"@) != ("pty_resize"@),
        ("auth_challenge"@) != ("pty_ready"@),
        ("auth_challenge"@) != ("git_status_sync"@),
        ("auth_challenge"@) != ("file_content_request"@),
        ("auth_challenge"@) != ("file_content_response"@),
        ("auth_challenge"@) != ("file_change"@),
        ("auth_challenge"@) != ("git_status_request"@),
        ("auth_challenge"@) != ("git_stage"@),
        ("auth_challenge"@) != ("git_unstage"@),
        ("auth_challenge"@) != ("git_stage_result"@),
        ("auth_challenge"@) != ("add_comment"@),
        ("auth_challenge"@) != ("comments_sync"@),
        ("auth_challenge"@) != ("error"@),
        ("auth_response"@) != ("auth_result"@),
        ("auth_response"@) != ("pty_output"@),
        ("auth_response"@) != ("pty_exit"@),
        ("auth_response"@) != ("pty_input"@),
        ("auth_response"@) != ("pty_resize"@),
        ("auth_response"@) != ("pty_ready"@),
        ("auth_response"@) != ("git_status_sync"@),
        ("auth_response"@) != ("file_content_request"@),
        ("auth_response"@) != ("file_content_response"@),
        ("auth_response"@) != ("file_change"@),
        ("auth_response"@) != ("git_status_request"@),
        ("auth_response"@) != ("git_stage"@),
        ("auth_response"@) != ("git_unstage"@),
        ("auth_response"@) != ("git_stage_result"@),
        ("auth_response"@) != ("add_comment"@),
        ("auth_response"@) != ("comments_sync"@),
        ("auth_response"@) != ("error"@),
        ("auth_result"@) != ("pty_output"@),
        ("auth_result"@) != ("pty_exit"@),
        ("auth_result"@) != ("pty_input"@),
        ("auth_result"@) != ("pty_resize"@),
        ("auth_result"@) != ("pty_ready"@),
        ("auth_result"@) != ("git_status_sync"@),
        ("auth_result"@) != ("file_content_request"@),
        ("auth_result"@) != ("file_content_response"@),
        ("auth_result"@) != ("file_change"@),
        ("auth_result"@) != ("git_status_request"@),
        ("auth_result"@) != ("git_stage"@),
        ("auth_result"@) != ("git_unstage"@),
        ("auth_result"@) != ("git_stage_result"@),
        ("auth_result"@) != ("add_comment"@),
        ("auth_result"@) != ("comments_sync"@),
        ("auth_result"@) != ("error"@),
        ("pty_output"@) != ("pty_exit"@),
        ("pty_output"@) != ("pty_input"@),
        ("pty_output"@) != ("pty_resize"@),
        ("pty_output"@) != ("pty_ready"@),
        ("pty_output"@) != ("git_status_sync"@),
        ("pty_output"@) != ("file_content_request"@),
        ("pty_output"@) != ("file_content_response"@),
        ("pty_output"@) != ("file_change"@),
        ("pty_output"@) != ("git_status_request"@),
        ("pty_output"@) != ("git_stage"@),
        ("pty_output"@) != ("git_unstage"@),
        ("pty_output"@) != ("git_stage_result"@),
        ("pty_output"@) != ("add_comment"@),
        ("pty_output"@) != ("comments_sync"@),
        ("pty_output"@) != ("error"@),
        ("pty_exit"@) != ("pty_input"@),
        ("pty_exit"@) != ("pty_resize"@),
        ("pty_exit"@) != ("pty_ready"@),
        ("pty_exit"@) != ("git_status_sync"@),
        ("pty_exit"@) != ("file_content_request"@),
        ("pty_exit"@) != ("file_content_response"@),
        ("pty_exit"@) != ("file_change"@),
        ("pty_exit"@) != ("git_status_request"@),
        ("pty_exit"@) != ("git_stage"@),
        ("pty_exit"@) != ("git_unstage"@),
        ("pty_exit"@) != ("git_stage_result"@),
        ("pty_exit"@) != ("add_comment"@),
        ("pty_exit"@) != ("comments_sync"@),
        ("pty_exit"@) != ("error"@),
        ("pty_input"@) != ("pty_resize"@),
        ("pty_input"@) != ("pty_ready"@),
        ("pty_input"@) != ("git_status_sync"@),
        ("pty_input"@) != ("file_content_request"@),
        ("pty_input"@) != ("file_content_response"@),
        ("pty_input"@) != ("file_change"@),
        ("pty_input"@) != ("git_status_request"@),
        ("pty_input"@) != ("git_stage"@),
        ("pty_input"@) != ("git_unstage"@),
        ("pty_input"@) != ("git_stage_result"@),
        ("pty_input"@) != ("add_comment"@),
        ("pty_input"@) != ("comments_sync"@),
        ("pty_input"@) != ("error"@),
        ("pty_resize"@) != ("pty_ready"@),
        ("pty_resize"@) != ("git_status_sync"@),
        ("pty_resize"@) != ("file_content_request"@),
        ("pty_resize"@) != ("file_content_response"@),
        ("pty_resize"@) != ("file_change"@),
        ("pty_resize"@) != ("git_status_request"@),
        ("pty_resize"@) != ("git_stage"@),
        ("pty_resize"@) != ("git_unstage"@),
        ("pty_resize"@) != ("git_stage_result"@),
        ("pty_resize"@) != ("add_comment"@),
        ("pty_resize"@) != ("comments_sync"@),
        ("pty_resize"@) != ("error"@),
        ("pty_ready"@) != ("git_status_sync"@),
        ("pty_ready"@) != ("file_content_request"@),
        ("pty_ready"@) != ("file_content_response"@),
        ("pty_ready"@) != ("file_change"@),
        ("pty_ready"@) != ("git_status_request"@),
        ("pty_ready"@) != ("git_stage"@),
        ("pty_ready"@) != ("git_unstage"@),
        ("pty_ready"@) != ("git_stage_result"@),
        ("pty_ready"@) != ("add_comment"@),
        ("pty_ready"@) != ("comments_sync"@),
        ("pty_ready"@) != ("error"@),
        ("git_status_sync"@) != ("file_content_request"@),
        ("git_status_sync"@) != ("file_content_response"@),
        ("git_status_sync"@) != ("file_change"@),
        ("git_status_sync"@) != ("git_status_request"@),
        ("git_status_sync"@) != ("git_stage"@),
        ("git_status_sync"@) != ("git_unstage"@),
        ("git_status_sync"@) != ("git_stage_result"@),
        ("git_status_sync"@) != ("add_comment"@),
        ("git_status_sync"@) != ("comments_sync"@),
        ("git_status_sync"@) != ("error"@),
        ("file_content_request"@) != ("file_content_response"@),
        ("file_content_request"@) != ("file_change"@),
        ("file_content_request"@) != ("git_status_request"@),
        ("file_content_request"@) != ("git_stage"@),
        ("file_content_request"@) != ("git_unstage"@),
        ("file_content_request"@) != ("git_stage_result"@),
        ("file_content_request"@) != ("add_comment"@),
        ("file_content_request"@) != ("comments_sync"@),
        ("file_content_request"@) != ("error"@),
        ("file_content_response"@) != ("file_change"@),
        ("file_content_response"@) != ("git_status_request"@),
        ("file_content_response"@) != ("git_stage"@),
        ("file_content_response"@) != ("git_unstage"@),
        ("file_content_response"@) != ("git_stage_result"@),
        ("file_content_response"@) != ("add_comment"@),
        ("file_content_response"@) != ("comments_sync"@),
        ("file_content_response"@) != ("error"@),
        ("file_change"@) != ("git_status_request"@),
        ("file_change"@) != ("git_stage"@),
        ("file_change"@) != ("git_unstage"@),
        ("file_change"@) != ("git_stage_result"@),
        ("file_change"@) != ("add_comment"@),
        ("file_change"@) != ("comments_sync"@),
        ("file_change"@) != ("error"@),
        ("git_status_request"@) != ("git_stage"@),
        ("git_status_request"@) != ("git_unstage"@),
        ("git_status_request"@) != ("git_stage_result"@),
        ("git_status_request"@) != ("add_comment"@),
        ("git_status_request"@) != ("comments_sync"@),
        ("git_status_request"@) != ("error"@),
        ("git_stage"@) != ("git_unstage"@),
        ("git_stage"@) != ("git_stage_result"@),
        ("git_stage"@) != ("add_comment"@),
        ("git_stage"@) != ("comments_sync"@),
        ("git_stage"@) != ("error"@),
        ("git_unstage"@) != ("git_stage_result"@),
        ("git_unstage"@) != ("add_comment"@),
        ("git_unstage"@) != ("comments_sync"@),
        ("git_unstage"@) != ("error"@),
        ("git_stage_result"@) != ("add_comment"@),
        ("git_stage_result"@) != ("comments_sync"@),
        ("git_stage_result"@) != ("error"@),
        ("add_comment"@) != ("comments_sync"@),
        ("add_comment"@) != ("error"@),
        ("comments_sync"@) != ("error"@),
{
    reveal_strlit("auth_challenge");
    reveal_strlit("auth_response");
    reveal_strlit("auth_result");
    reveal_strlit("pty_output");
    reveal_strlit("pty_exit");
    reveal_strlit("pty_input");
    reveal_strlit("pty_resize");
    reveal_strlit("pty_ready");
    reveal_strlit("git_status_sync");
    reveal_strlit("file_content_request");
    reveal_strlit("file_content_response");
    reveal_strlit("file_change");
    reveal_strlit("git_status_request");
    reveal_strlit("git_stage");
    reveal_strlit("git_unstage");
    reveal_strlit("git_stage_result");
    reveal_strlit("add_comment");
    reveal_strlit("comments_sync");
    reveal_strlit("error");
    assert(("auth_challenge"@).len() == 14);
    assert(("auth_response"@).len() == 13);
    assert(("auth_result"@).len() == 11);
    assert(("pty_output"@).len() == 10);
    assert(("pty_exit"@).len() == 8);
    assert(("pty_input"@).len() == 9);
    assert(("pty_resize"@).len() == 10);
    assert(("pty_ready"@).len() == 9);
    assert(("git_status_sync"@).len() == 15);
    assert(("file_content_request"@).len() == 20);
    assert(("file_content_response"@).len() == 21);
    assert(("file_change"@).len() == 11);
    assert(("git_status_request"@).len() == 18);
    assert(("git_stage"@).len() == 9);
    assert(("git_unstage"@).len() == 11);
    assert(("git_stage_result"@).len() == 16);
    assert(("add_comment"@).len() == 11);
    assert(("comments_sync"@).len() == 13);
    assert(("error"@).len() == 5);
    assert(("pty_output"@)[4] != ("pty_resize"@)[4]);
    assert(("pty_input"@)[4] != ("pty_ready"@)[4]);
    assert(("pty_input"@)[0] != ("git_stage"@)[0]);
    assert(("pty_ready"@)[0] != ("git_stage"@)[0]);
    assert(("auth_result"@)[0] != ("file_change"@)[0]);
    assert(("auth_result"@)[0] != ("git_unstage"@)[0]);
    assert(("auth_result"@)[1] != ("add_comment"@)[1]);
    assert(("file_change"@)[0] != ("git_unstage"@)[0]);
    assert(("file_change"@)[0] != ("add_comment"@)[0]);
    assert(("git_unstage"@)[0] != ("add_comment"@)[0]);
    assert(("auth_response"@)[0] != ("comments_sync"@)[0]);
}


/// Where the payload object starts inside an encoded frame.
pub open spec fn payload_pos(m: WsMessageV) -> int {
    ("{\"type\":\""@).len() as int + tag_of(m).len() as int + 1 + (",\"payload\":"@).len() as int
}

#[verifier::rlimit(100)]
#[verifier::spinoff_prover]
proof fn lemma_frame_parts(tag: Seq<char>, encp: Seq<char>, s: Seq<char>)
    requires
        plain_str(tag),
        s == "{\"type\":\""@ + tag + "\""@ + ",\"payload\":"@ + encp + "}"@,
    ensures
        ({
            let i1 = ("{"@).len() as int;
            let i2 = i1 + ("\"type\":"@).len() as int;
            let i3 = i2 + enc_str(tag).len() as int;
            let i4 = i3 + 1;
            let i5 = i4 + ("\"payload\":"@).len() as int;
            &&& p_tok(s, 0, "{"@) == Option::Some(i1)
            &&& p_tok(s, i1, "\"type\":"@) == Option::Some(i2)
            &&& p_jstr(s, spec_ws_to(s, i2)) == Option::Some((tag, i3))
            &&& p_tok(s, i3, ","@) == Option::Some(i4)
            &&& p_tok(s, i4, "\"payload\":"@) == Option::Some(i5)
            &&& 0 <= i5 <= s.len()
            &&& s.skip(i5) == encp + "}"@
            &&& p_tok(s, i5 + encp.len() as int, "}"@) == Option::Some(s.len() as int)
            &&& spec_ws_to(s, s.len() as int) == s.len()
        }),
{
    reveal_strlit("{\"type\":\"");
    reveal_strlit("{");
    reveal_strlit("\"type\":");
    reveal_strlit("{\"type\":");
    reveal_strlit(",\"type\":");
    reveal_strlit("\"");
    reveal_strlit(",\"payload\":");
    reveal_strlit(",");
    reveal_strlit("\"payload\":");
    reveal_strlit("{\"payload\":");
    reveal_strlit(",\"payload\":");
    reveal_strlit("}");
    lemma_esc_plain(tag);
    assert(enc_str(tag) =~= ("\""@) + tag + ("\""@));
    let t1 = ("\"type\":"@) + (enc_str(tag) + ((","@) + (("\"payload\":"@) + (encp + ("}"@)))));
    assert(s.skip(0) =~= s);
    assert(s.skip(0) =~= ("{"@) + t1);
    lemma_p_tok_prefix(s, 0, "{"@, t1);
    let i1 = ("{"@).len() as int;
    lemma_p_tok_prefix(s, i1, "\"type\":"@, enc_str(tag) + ((","@) + (("\"payload\":"@) + (encp
        + ("}"@)))));
    let i2 = i1 + ("\"type\":"@).len() as int;
    lemma_p_jstr_ws_round(s, i2, tag, (","@) + (("\"payload\":"@) + (encp + ("}"@))));
    let i3 = i2 + enc_str(tag).len() as int;
    lemma_p_tok_prefix(s, i3, ","@, ("\"payload\":"@) + (encp + ("}"@)));
    let i4 = i3 + (","@).len() as int;
    lemma_p_tok_prefix(s, i4, "\"payload\":"@, encp + ("}"@));
    let i5 = i4 + ("\"payload\":"@).len() as int;
    assert(s.skip(i5) == encp + ("}"@));
    assert(s.skip(i5).len() == s.len() - i5);
    let i6 = i5 + encp.len() as int;
    assert(s.skip(i6) =~= ("}"@)) by {
        assert forall|k: int| 0 <= k < ("}"@).len() implies s.skip(i6)[k] == ("}"@)[k] by {
            assert(s.skip(i6)[k] == s[i6 + k]);
            assert(s.skip(i5)[encp.len() + k] == s[i6 + k]);
            assert((encp + ("}"@))[encp.len() + k] == ("}"@)[k]);
        }
    }
    assert(s.skip(i6) =~= ("}"@) + Seq::<char>::empty());
    lemma_p_tok_prefix(s, i6, "}"@, Seq::empty());
    assert(i6 + 1 == s.len());
}

#[verifier::rlimit(100)]
#[verifier::spinoff_prover]
proof fn lemma_frame_round(m: WsMessageV)
    ensures
        0 <= payload_pos(m) <= enc_msg(m).len(),
        enc_msg(m).skip(payload_pos(m)) == enc_payload(m) + "}"@,
        dec_payload(tag_of(m), enc_msg(m), payload_pos(m)) == Option::Some(
            (m, payload_pos(m) + enc_payload(m).len()),
        ) ==> dec_msg(enc_msg(m)) == Option::Some(m),
{
    let s = enc_msg(m);
    let tag = tag_of(m);
    let encp = enc_payload(m);
    lemma_tags_plain();
    assert(plain_str(tag));
    lemma_frame_parts(tag, encp, s);
    reveal_strlit("{\"type\":\"");
    reveal_strlit("{");
    reveal_strlit("\"type\":");
    reveal_strlit("{\"type\":");
    reveal_strlit(",\"type\":");
    reveal_strlit(",\"payload\":");
    reveal_strlit("\"payload\":");
    reveal_strlit("{\"payload\":");
    reveal_strlit(",\"payload\":");
    let i1 = ("{"@).len() as int;
    let i2 = i1 + ("\"type\":"@).len() as int;
    lemma_esc_plain(tag);
    reveal_strlit("\"");
    assert(enc_str(tag).len() == tag.len() + 2);
    let i3 = i2 + enc_str(tag).len() as int;
    let i4 = i3 + 1;
    let i5 = i4 + ("\"payload\":"@).len() as int;
    assert(i5 == payload_pos(m));
    assert(s.skip(payload_pos(m)).len() == s.len() - payload_pos(m));
}

proof fn lemma_round_AuthChallenge(m: WsMessageV)
    requires
        m matches WsMessageV::AuthChallenge { challenge },
    ensures
        dec_msg(enc_msg(m)) == Option::Some(m),
{
    let s = enc_msg(m);
    let i3 = payload_pos(m);
    lemma_frame_round(m);
    lemma_tags_distinct();
    match m {
        WsMessageV::AuthChallenge { challenge } => {
            lemma_pl_auth_challenge_round(s, i3, challenge);
        },
        _ => {},
    }
}

#[verifier::rlimit(100)]
#[verifier::spinoff_prover]
proof fn lemma_round_AuthResponse(m: WsMessageV)
    requires
        m matches WsMessageV::AuthResponse { hmac },
    ensures
        dec_msg(enc_msg(m)) == Option::Some(m),
{
    let s = enc_msg(m);
    let i3 = payload_pos(m);
    lemma_frame_round(m);
    lemma_tags_distinct();
    match m {
        WsMessageV::AuthResponse { hmac } => {
            lemma_pl_auth_response_round(s, i3, hmac);
        },
        _ => {},
    }
}

#[verifier::rlimit(100)]
#[verifier::spinoff_prover]
proof fn lemma_round_AuthResult(m: WsMessageV)
    requires
        m matches WsMessageV::AuthResult { success, message },
    ensures
        dec_msg(enc_msg(m)) == Option::Some(m),
{
    let s = enc_msg(m);
    let i3 = payload_pos(m);
    lemma_frame_round(m);
    lemma_tags_distinct();
    match m {
        WsMessageV::AuthResult { success, message } => {
            lemma_pl_auth_result_round(s, i3, success, message);
        },
        _ => {},
    }
}

#[verifier::rlimit(100)]
#[verifier::spinoff_prover]
proof fn lemma_round_PtyOutput(m: WsMessageV)
    requires
        m matches WsMessageV::PtyOutput { pty_id, data },
    ensures
        dec_msg(enc_msg(m)) == Option::Some(m),
{
    let s = enc_msg(m);
    let i3 = payload_pos(m);
    lemma_frame_round(m);
    lemma_tags_distinct();
    match m {
        WsMessageV::PtyOutput { pty_id, data } => {
            lemma_pl_pty_output_round(s, i3, pty_id, data);
        },
        _ => {},
    }
}

#[verifier::rlimit(100)]
#[verifier::spinoff_prover]
proof fn lemma_round_PtyExit(m: WsMessageV)
    requires
        m matches WsMessageV::PtyExit { pty_id, exit_code },
    ensures
        dec_msg(enc_msg(m)) == Option::Some(m),
{
    let s = enc_msg(m);
    let i3 = payload_pos(m);
    lemma_frame_round(m);
    lemma_tags_distinct();
    match m {
        WsMessageV::PtyExit { pty_id, exit_code } => {
            lemma_pl_pty_exit_round(s, i3, pty_id, exit_code);
        },
        _ => {},
    }
}

#[verifier::rlimit(100)]
#[verifier::spinoff_prover]
proof fn lemma_round_PtyInput(m: WsMessageV)
    requires
        m matches WsMessageV::PtyInput { pty_id, data },
    ensures
        dec_msg(enc_msg(m)) == Option::Some(m),
{
    let s = enc_msg(m);
    let i3 = payload_pos(m);
    lemma_frame_round(m);
    lemma_tags_distinct();
    match m {
        WsMessageV::PtyInput { pty_id, data } => {
            lemma_pl_pty_input_round(s, i3, pty_id, data);
        },
        _ => {},
    }
}

#[verifier::rlimit(100)]
#[verifier::spinoff_prover]
proof fn lemma_round_PtyResize(m: WsMessageV)
    requires
        m matches WsMessageV::PtyResize { pty_id, rows, cols },
    ensures
        dec_msg(enc_msg(m)) == Option::Some(m),
{
    let s = enc_msg(m);
    let i3 = payload_pos(m);
    lemma_frame_round(m);
    lemma_tags_distinct();
    match m {
        WsMessageV::PtyResize { pty_id, rows, cols } => {
            lemma_pl_pty_resize_round(s, i3, pty_id, rows, cols);
        },
        _ => {},
    }
}

#[verifier::rlimit(100)]
#[verifier::spinoff_prover]
proof fn lemma_round_PtyReady(m: WsMessageV)
    requires
        m matches WsMessageV::PtyReady { pty_id, cols, rows },
    ensures
        dec_msg(enc_msg(m)) == Option::Some(m),
{
    let s = enc_msg(m);
    let i3 = payload_pos(m);
    lemma_frame_round(m);
    lemma_tags_distinct();
    match m {
        WsMessageV::PtyReady { pty_id, cols, rows } => {
            lemma_pl_pty_ready_round(s, i3, pty_id, cols, rows);
        },
        _ => {},
    }
}

#[verifier::rlimit(100)]
#[verifier::spinoff_prover]
proof fn lemma_round_GitStatusSync(m: WsMessageV)
    requires
        m matches WsMessageV::GitStatusSync { files },
    ensures
        dec_msg(enc_msg(m)) == Option::Some(m),
{
    let s = enc_msg(m);
    let i3 = payload_pos(m);
    lemma_frame_round(m);
    lemma_tags_distinct();
    match m {
        WsMessageV::GitStatusSync { files } => {
            lemma_pl_git_status_sync_round(s, i3, files);
        },
        _ => {},
    }
}

#[verifier::rlimit(100)]
#[verifier::spinoff_prover]
proof fn lemma_round_FileContentRequest(m: WsMessageV)
    requires
        m matches WsMessageV::FileContentRequest { path },
    ensures
        dec_msg(enc_msg(m)) == Option::Some(m),
{
    let s = enc_msg(m);
    let i3 = payload_pos(m);
    lemma_frame_round(m);
    lemma_tags_distinct();
    match m {
        WsMessageV::FileContentRequest { path } => {
            lemma_pl_file_content_request_round(s, i3, path);
        },
        _ => {},
    }
}

#[verifier::rlimit(100)]
#[verifier::spinoff_prover]
proof fn lemma_round_FileContentResponse(m: WsMessageV)
    requires
        m matches WsMessageV::FileContentResponse { path, original, modified },
    ensures
        dec_msg(enc_msg(m)) == Option::Some(m),
{
    let s = enc_msg(m);
    let i3 = payload_pos(m);
    lemma_frame_round(m);
    lemma_tags_distinct();
    match m {
        WsMessageV::FileContentResponse { path, original, modified } => {
            lemma_pl_file_content_response_round(s, i3, path, original, modified);
        },
        _ => {},
    }
}

#[verifier::rlimit(100)]
#[verifier::spinoff_prover]
proof fn lemma_round_FileChange(m: WsMessageV)
    requires
        m matches WsMessageV::FileChange { path, kind },
    ensures
        dec_msg(enc_msg(m)) == Option::Some(m),
{
    let s = enc_msg(m);
    let i3 = payload_pos(m);
    lemma_frame_round(m);
    lemma_tags_distinct();
    match m {
        WsMessageV::FileChange { path, kind } => {
            lemma_pl_file_change_round(s, i3, path, kind);
        },
        _ => {},
    }
}

#[verifier::rlimit(100)]
#[verifier::spinoff_prover]
proof fn lemma_round_GitStatusRequest(m: WsMessageV)
    requires
        m matches WsMessageV::GitStatusRequest,
    ensures
        dec_msg(enc_msg(m)) == Option::Some(m),
{
    let s = enc_msg(m);
    let i3 = payload_pos(m);
    lemma_frame_round(m);
    lemma_tags_distinct();
    match m {
        WsMessageV::GitStatusRequest => {
            lemma_pl_git_status_request_round(s, i3);
        },
        _ => {},
    }
}

#[verifier::rlimit(100)]
#[verifier::spinoff_prover]
proof fn lemma_round_GitStage(m: WsMessageV)
    requires
        m matches WsMessageV::GitStage { paths },
    ensures
        dec_msg(enc_msg(m)) == Option::Some(m),
{
    let s = enc_msg(m);
    let i3 = payload_pos(m);
    lemma_frame_round(m);
    lemma_tags_distinct();
    match m {
        WsMessageV::GitStage { paths } => {
            lemma_pl_paths_round(s, i3, paths, false);
        },
        _ => {},
    }
}

#[verifier::rlimit(100)]
#[verifier::spinoff_prover]
proof fn lemma_round_GitUnstage(m: WsMessageV)
    requires
        m matches WsMessageV::GitUnstage { paths },
    ensures
        dec_msg(enc_msg(m)) == Option::Some(m),
{
    let s = enc_msg(m);
    let i3 = payload_pos(m);
    lemma_frame_round(m);
    lemma_tags_distinct();
    match m {
        WsMessageV::GitUnstage { paths } => {
            lemma_pl_paths_round(s, i3, paths, true);
        },
        _ => {},
    }
}

#[verifier::rlimit(100)]
#[verifier::spinoff_prover]
proof fn lemma_round_GitStageResult(m: WsMessageV)
    requires
        m matches WsMessageV::GitStageResult { success, error, files },
    ensures
        dec_msg(enc_msg(m)) == Option::Some(m),
{
    let s = enc_msg(m);
    let i3 = payload_pos(m);
    lemma_frame_round(m);
    lemma_tags_distinct();
    match m {
        WsMessageV::GitStageResult { success, error, files } => {
            lemma_pl_git_stage_result_round(s, i3, success, error, files);
        },
        _ => {},
    }
}

#[verifier::rlimit(100)]
#[verifier::spinoff_prover]
proof fn lemma_round_AddComment(m: WsMessageV)
    requires
        m matches WsMessageV::AddComment { file_path, line_number, end_line, content },
    ensures
        dec_msg(enc_msg(m)) == Option::Some(m),
{
    let s = enc_msg(m);
    let i3 = payload_pos(m);
    lemma_frame_round(m);
    lemma_tags_distinct();
    match m {
        WsMessageV::AddComment { file_path, line_number, end_line, content } => {
            lemma_pl_add_comment_round(s, i3, file_path, line_number, end_line, content);
        },
        _ => {},
    }
}

#[verifier::rlimit(100)]
#[verifier::spinoff_prover]
proof fn lemma_round_CommentsSync(m: WsMessageV)
    requires
        m matches WsMessageV::CommentsSync { comments },
    ensures
        dec_msg(enc_msg(m)) == Option::Some(m),
{
    let s = enc_msg(m);
    let i3 = payload_pos(m);
    lemma_frame_round(m);
    lemma_tags_distinct();
    match m {
        WsMessageV::CommentsSync { comments } => {
            lemma_pl_comments_sync_round(s, i3, comments);
        },
        _ => {},
    }
}

#[verifier::rlimit(100)]
#[verifier::spinoff_prover]
proof fn lemma_round_Error(m: WsMessageV)
    requires
        m matches WsMessageV::Error { code, message },
    ensures
        dec_msg(enc_msg(m)) == Option::Some(m),
{
    let s = enc_msg(m);
    let i3 = payload_pos(m);
    lemma_frame_round(m);
    lemma_tags_distinct();
    match m {
        WsMessageV::Error { code, message } => {
            lemma_pl_error_round(s, i3, code, message);
        },
        _ => {},
    }
}

/// Round trip: decoding the canonical encoding of any frame yields the
/// frame itself, for every variant of the protocol.
pub proof fn lemma_codec_round_trip(m: WsMessageV)
    ensures
        dec_msg(enc_msg(m)) == Option::Some(m),
{
    match m {
        WsMessageV::AuthChallenge { .. } => lemma_round_AuthChallenge(m),
        WsMessageV::AuthResponse { .. } => lemma_round_AuthResponse(m),
        WsMessageV::AuthResult { .. } => lemma_round_AuthResult(m),
        WsMessageV::PtyOutput { .. } => lemma_round_PtyOutput(m),
        WsMessageV::PtyExit { .. } => lemma_round_PtyExit(m),
        WsMessageV::PtyInput { .. } => lemma_round_PtyInput(m),
        WsMessageV::PtyResize { .. } => lemma_round_PtyResize(m),
        WsMessageV::PtyReady { .. } => lemma_round_PtyReady(m),
        WsMessageV::GitStatusSync { .. } => lemma_round_GitStatusSync(m),
        WsMessageV::FileContentRequest { .. } => lemma_round_FileContentRequest(m),
        WsMessageV::FileContentResponse { .. } => lemma_round_FileContentResponse(m),
        WsMessageV::FileChange { .. } => lemma_round_FileChange(m),
        WsMessageV::GitStatusRequest => lemma_round_GitStatusRequest(m),
        WsMessageV::GitStage { .. } => lemma_round_GitStage(m),
        WsMessageV::GitUnstage { .. } => lemma_round_GitUnstage(m),
        WsMessageV::GitStageResult { .. } => lemma_round_GitStageResult(m),
        WsMessageV::AddComment { .. } => lemma_round_AddComment(m),
        WsMessageV::CommentsSync { .. } => lemma_round_CommentsSync(m),
        WsMessageV::Error { .. } => lemma_round_Error(m),
    }
}
/// A frame whose tag lies outside the closed set never decodes: the
/// dispatcher yields nothing for an unknown tag, whatever the payload text.
pub proof fn lemma_unknown_tag_rejected(tag: Seq<char>, s: Seq<char>, i: int)
    requires
        !known_tag(tag),
    ensures
        dec_payload(tag, s, i) is None,
{
}

/// The encoding is one-to-one: two frames with the same text are the same
/// frame.
pub proof fn lemma_encoding_injective(a: WsMessageV, b: WsMessageV)
    requires
        enc_msg(a) == enc_msg(b),
    ensures
        a == b,
{
    lemma_codec_round_trip(a);
    lemma_codec_round_trip(b);
}

} // verus!
