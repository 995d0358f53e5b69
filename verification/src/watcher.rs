use vstd::prelude::*;

use crate::protocol::{FileChange, GitFileStatusMsg, GitStatusSync, WsMessage, WsMessageV};
use crate::pty::IdCounter;

verus! {

broadcast use vstd::seq::group_seq_axioms;

// ---------------------------------------------------------------------------
// File-watch bridge
//
// The debounced filesystem watcher runs with the desktop runtime; for every
// change it reports, the bridge publishes a `file_change` message and, when
// the repository status could be re-read, a fresh `git_status_sync`.
// All source event kinds are collapsed to the single kind `"change"` on
// purpose.
// ---------------------------------------------------------------------------

/// A change event as the desktop runtime sees it.
#[derive(Debug, Clone)]
pub struct FileChangeEvent {
    pub watcher_id: u64,
    pub path: String,
    pub kind: String,
}

/// Draws the next watcher identifier.
pub fn generate_watcher_id(counter: &mut IdCounter) -> (r: u64)
    requires
        old(counter).next_id() < u64::MAX,
    ensures
        r == old(counter).next_id(),
        final(counter).next_id() == old(counter).next_id() + 1,
{
    counter.take_next()
}

/// The messages one debounced change event publishes: the change itself
/// with kind `"change"`, then the re-read status when it was available.
pub fn watcher_messages(path: String, status: Option<Vec<GitFileStatusMsg>>) -> (r: Vec<WsMessage>)
    ensures
        r@.map_values(|m: WsMessage| m@) == (seq![
            WsMessageV::FileChange { path: path@, kind: "change"@ },
        ] + (match status {
            Option::Some(files) => seq![
                WsMessageV::GitStatusSync { files: crate::protocol::files_view(files@) },
            ],
            Option::None => Seq::<WsMessageV>::empty(),
        })),
{
    let mut out: Vec<WsMessage> = Vec::new();
    let ghost pv = path@;
    out.push(WsMessage::FileChange(FileChange { path, kind: "change".to_owned() }));
    match status {
        Option::Some(files) => {
            out.push(WsMessage::GitStatusSync(GitStatusSync { files }));
            assert(out@.map_values(|m: WsMessage| m@) =~= (seq![
                WsMessageV::FileChange { path: pv, kind: "change"@ },
            ] + seq![
                WsMessageV::GitStatusSync { files: crate::protocol::files_view(files@) },
            ]));
        },
        Option::None => {
            assert(out@.map_values(|m: WsMessage| m@) =~= (seq![
                WsMessageV::FileChange { path: pv, kind: "change"@ },
            ] + Seq::<WsMessageV>::empty()));
        },
    }
    out
}

} // verus!
