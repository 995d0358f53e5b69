use vstd::prelude::*;

use crate::protocol::GitFileStatusMsg;

verus! {

broadcast use vstd::seq::group_seq_axioms;

// ---------------------------------------------------------------------------
// Git status mapping
//
// The git provider reports each file's state as libgit2 status bits.  The
// wire protocol names the states: those bits are collapsed to one word for
// the index side and one for the worktree side, and files that are clean on
// both sides are left out of the snapshot.
// ---------------------------------------------------------------------------

/// The libgit2 status bits the mapping reads.
pub const GIT_STATUS_INDEX_NEW: u32 = 1;

pub const GIT_STATUS_INDEX_MODIFIED: u32 = 2;

pub const GIT_STATUS_INDEX_DELETED: u32 = 4;

pub const GIT_STATUS_INDEX_RENAMED: u32 = 8;

pub const GIT_STATUS_WT_NEW: u32 = 128;

pub const GIT_STATUS_WT_MODIFIED: u32 = 256;

pub const GIT_STATUS_WT_DELETED: u32 = 512;

pub open spec fn spec_index_status(status: u32) -> Seq<char> {
    if status & GIT_STATUS_INDEX_NEW != 0 {
        "new"@
    } else if status & GIT_STATUS_INDEX_MODIFIED != 0 {
        "modified"@
    } else if status & GIT_STATUS_INDEX_DELETED != 0 {
        "deleted"@
    } else if status & GIT_STATUS_INDEX_RENAMED != 0 {
        "renamed"@
    } else {
        "none"@
    }
}

pub open spec fn spec_worktree_status(status: u32) -> Seq<char> {
    if status & GIT_STATUS_WT_NEW != 0 {
        "new"@
    } else if status & GIT_STATUS_WT_MODIFIED != 0 {
        "modified"@
    } else if status & GIT_STATUS_WT_DELETED != 0 {
        "deleted"@
    } else {
        "none"@
    }
}

/// The index-side state word for a file's status bits.
pub fn index_status_from_flags(status: u32) -> (r: &'static str)
    ensures
        r@ == spec_index_status(status),
{
    if status & GIT_STATUS_INDEX_NEW != 0 {
        "new"
    } else if status & GIT_STATUS_INDEX_MODIFIED != 0 {
        "modified"
    } else if status & GIT_STATUS_INDEX_DELETED != 0 {
        "deleted"
    } else if status & GIT_STATUS_INDEX_RENAMED != 0 {
        "renamed"
    } else {
        "none"
    }
}

/// The worktree-side state word for a file's status bits.
pub fn worktree_status_from_flags(status: u32) -> (r: &'static str)
    ensures
        r@ == spec_worktree_status(status),
{
    if status & GIT_STATUS_WT_NEW != 0 {
        "new"
    } else if status & GIT_STATUS_WT_MODIFIED != 0 {
        "modified"
    } else if status & GIT_STATUS_WT_DELETED != 0 {
        "deleted"
    } else {
        "none"
    }
}

/// Whether a file with these bits appears in the snapshot at all.
pub open spec fn spec_status_visible(status: u32) -> bool {
    spec_index_status(status) != "none"@ || spec_worktree_status(status) != "none"@
}

/// The snapshot entries for raw status entries, in order: each file mapped
/// to its two state words, files clean on both sides dropped.
pub open spec fn spec_status_files(entries: Seq<(Seq<char>, u32)>) -> Seq<
    crate::protocol::GitFileStatusV,
>
    decreases entries.len(),
{
    if entries.len() == 0 {
        Seq::empty()
    } else {
        let (path, st) = entries[0];
        let rest = spec_status_files(entries.skip(1));
        if spec_status_visible(st) {
            seq![
                crate::protocol::GitFileStatusV {
                    path: path,
                    index_status: spec_index_status(st),
                    worktree_status: spec_worktree_status(st),
                },
            ] + rest
        } else {
            rest
        }
    }
}

/// One file's status record, as reported by the git provider.
#[derive(Debug, Clone)]
pub struct GitFileStatus {
    pub path: String,
    pub index_status: String,
    pub worktree_status: String,
}

/// A commit, as the log lists it.
#[derive(Debug, Clone)]
pub struct CommitInfo {
    pub hash: String,
    pub short_hash: String,
    pub message: String,
    pub author_name: String,
    pub author_email: String,
    pub timestamp: i64,
}

/// The abbreviated form of a commit hash: its first seven characters.
pub fn short_hash_of(hash: &str) -> (r: String)
    ensures
        r@ == if hash@.len() <= 7 {
            hash@
        } else {
            hash@.take(7)
        },
{
    let hv = crate::strutil::chars_vec(hash);
    let n: usize = if hv.len() <= 7 {
        hv.len()
    } else {
        7
    };
    let mut out: Vec<char> = Vec::new();
    let mut k: usize = 0;
    while k < n
        invariant
            k <= n <= hv@.len(),
            hv@ == hash@,
            out@ == hash@.subrange(0, k as int),
        decreases n - k,
    {
        out.push(hv[k]);
        assert(out@ =~= hash@.subrange(0, k + 1 as int));
        k = k + 1;
    }
    proof {
        if hash@.len() <= 7 {
            assert(out@ =~= hash@);
        } else {
            assert(out@ =~= hash@.take(7));
        }
    }
    crate::strutil::chars_to_string(&out)
}

/// Maps raw status entries to the snapshot the protocol carries.
pub fn status_entries_to_files(entries: Vec<(String, u32)>) -> (r: Vec<GitFileStatusMsg>)
    ensures
        crate::protocol::files_view(r@) == spec_status_files(
            entries@.map_values(|e: (String, u32)| (e.0@, e.1)),
        ),
{
    let mut out: Vec<GitFileStatusMsg> = Vec::new();
    let ghost ev = entries@.map_values(|e: (String, u32)| (e.0@, e.1));
    proof {
        assert(ev.len() == entries@.len());
        assert(crate::protocol::files_view(out@) =~= Seq::<crate::protocol::GitFileStatusV>::empty());
        assert(ev.skip(0) =~= ev);
    }
    let mut i: usize = 0;
    while i < entries.len()
        invariant
            i <= entries@.len(),
            ev == entries@.map_values(|e: (String, u32)| (e.0@, e.1)),
            ev.len() == entries@.len(),
            crate::protocol::files_view(out@) + spec_status_files(ev.skip(i as int))
                == spec_status_files(ev),
        decreases entries@.len() - i,
    {
        proof {
            assert(ev[i as int] == (entries@[i as int].0@, entries@[i as int].1));
            assert(ev.skip(i as int)[0] == ev[i as int]);
            assert(ev.skip(i as int).skip(1) =~= ev.skip(i as int + 1));
        }
        let e = &entries[i];
        let idx = index_status_from_flags(e.1);
        let wt = worktree_status_from_flags(e.1);
        let visible = !(crate::strutil::chars_eq_str(&crate::strutil::chars_vec(idx), "none")
            && crate::strutil::chars_eq_str(&crate::strutil::chars_vec(wt), "none"));
        if visible {
            let ghost pre = crate::protocol::files_view(out@);
            out.push(
                GitFileStatusMsg {
                    path: crate::strutil::copy_string(&e.0),
                    index_status: idx.to_owned(),
                    worktree_status: wt.to_owned(),
                },
            );
            proof {
                assert(crate::protocol::files_view(out@) =~= pre + seq![
                    crate::protocol::GitFileStatusV {
                        path: ev[i as int].0,
                        index_status: spec_index_status(ev[i as int].1),
                        worktree_status: spec_worktree_status(ev[i as int].1),
                    },
                ]);
            }
        }
        i = i + 1;
    }
    proof {
        assert(ev.skip(ev.len() as int).len() == 0);
        assert(crate::protocol::files_view(out@) =~= spec_status_files(ev));
    }
    out
}

} // verus!
