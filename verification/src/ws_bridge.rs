use vstd::prelude::*;

use crate::protocol::{WsMessage, WsMessageV};

verus! {

broadcast use vstd::seq::group_seq_axioms;

// ---------------------------------------------------------------------------
// Broadcaster
//
// Producers (the PTY reader, the file watcher, the router) publish messages
// toward the single attached client through this mailbox.  It also owns the
// replay ring: a bounded byte buffer holding the tail of recent terminal
// output, delivered as the first `pty_output` frame when a client attaches.
// ---------------------------------------------------------------------------

pub const PTY_OUTPUT_BUFFER_SIZE: usize = 64 * 1024;

/// The at-most-64-KiB tail of a byte sequence.
pub open spec fn ring_tail(s: Seq<u8>) -> Seq<u8> {
    if s.len() <= PTY_OUTPUT_BUFFER_SIZE {
        s
    } else {
        s.skip(s.len() - PTY_OUTPUT_BUFFER_SIZE as int)
    }
}

/// Writing in several pieces keeps exactly the same tail as writing all at
/// once: after more than 64 KiB has gone in, the ring holds the last 64 KiB
/// of everything written.
pub proof fn lemma_ring_tail_compose(a: Seq<u8>, b: Seq<u8>)
    ensures
        ring_tail(ring_tail(a) + b) == ring_tail(a + b),
{
    let c = PTY_OUTPUT_BUFFER_SIZE as int;
    if a.len() <= c {
        assert(ring_tail(a) + b =~= a + b);
    } else {
        let ta = a.skip(a.len() - c);
        assert(ta.len() == c);
        let lhs_in = ta + b;
        let rhs_in = a + b;
        if lhs_in.len() <= c {
            assert(b.len() == 0);
            assert(lhs_in =~= ta);
            assert(ring_tail(rhs_in) =~= ta) by {
                assert(rhs_in =~= a);
            }
        } else {
            assert(ring_tail(lhs_in) =~= ring_tail(rhs_in)) by {
                let l = lhs_in.skip(lhs_in.len() - c);
                let r = rhs_in.skip(rhs_in.len() - c);
                assert(l.len() == c && r.len() == c);
                assert forall|k: int| 0 <= k < c implies l[k] == r[k] by {
                    assert(l[k] == lhs_in[lhs_in.len() - c + k]);
                    assert(r[k] == rhs_in[rhs_in.len() - c + k]);
                    if lhs_in.len() - c + k < ta.len() {
                        assert(l[k] == ta[lhs_in.len() - c + k]);
                        assert(ta[lhs_in.len() - c + k] == a[a.len() - c + (lhs_in.len() - c + k)]);
                        assert(r[k] == a[rhs_in.len() - c + k]);
                    } else {
                        assert(l[k] == b[lhs_in.len() - c + k - ta.len()]);
                        assert(r[k] == b[rhs_in.len() - c + k - a.len()]);
                    }
                }
            }
        }
    }
}

/// The bounded FIFO byte ring that captures recent terminal output.
pub struct PtyOutputRing {
    buf: Vec<u8>,
}

impl PtyOutputRing {
    pub closed spec fn view(&self) -> Seq<u8> {
        self.buf@
    }

    pub open spec fn wf(&self) -> bool {
        self@.len() <= PTY_OUTPUT_BUFFER_SIZE
    }

    pub fn new() -> (r: PtyOutputRing)
        ensures
            r@ == Seq::<u8>::empty(),
            r.wf(),
    {
        PtyOutputRing { buf: Vec::new() }
    }

    /// Appends bytes, dropping the oldest so that at most 64 KiB stay.
    pub fn append(&mut self, data: &[u8])
        requires
            old(self).wf(),
        ensures
            final(self)@ == ring_tail(old(self)@ + data@),
            final(self).wf(),
    {
        let mut i: usize = 0;
        while i < data.len()
            invariant
                i <= data@.len(),
                self@ == old(self)@ + data@.subrange(0, i as int),
            decreases data@.len() - i,
        {
            self.buf.push(data[i]);
            i = i + 1;
        }
        assert(data@.subrange(0, data@.len() as int) == data@);
        if self.buf.len() > PTY_OUTPUT_BUFFER_SIZE {
            let excess = self.buf.len() - PTY_OUTPUT_BUFFER_SIZE;
            let mut nb: Vec<u8> = Vec::new();
            let mut j: usize = excess;
            while j < self.buf.len()
                invariant
                    excess <= j <= self@.len(),
                    excess == self@.len() - PTY_OUTPUT_BUFFER_SIZE,
                    self@ == old(self)@ + data@,
                    nb@ == self@.subrange(excess as int, j as int),
                decreases self@.len() - j,
            {
                nb.push(self.buf[j]);
                assert(nb@ =~= self@.subrange(excess as int, j + 1 as int));
                j = j + 1;
            }
            assert(nb@ =~= self@.skip(excess as int));
            self.buf = nb;
        }
    }

    /// A copy of the ring's current contents, oldest byte first.
    pub fn contents(&self) -> (r: Vec<u8>)
        ensures
            r@ == self@,
    {
        let mut out: Vec<u8> = Vec::new();
        let mut i: usize = 0;
        while i < self.buf.len()
            invariant
                i <= self@.len(),
                out@ == self@.subrange(0, i as int),
            decreases self@.len() - i,
        {
            out.push(self.buf[i]);
            i = i + 1;
        }
        assert(self@.subrange(0, self@.len() as int) == self@);
        out
    }
}

/// What `String::from_utf8_lossy` decodes a byte sequence to.  The result
/// depends on the bytes alone.
pub uninterp spec fn lossy_utf8(bytes: Seq<u8>) -> Seq<char>;

/// Relies on String::from_utf8_lossy: invalid sequences become replacement
/// characters, valid UTF-8 (ASCII in particular) is decoded unchanged.
#[verifier::external_body]
fn utf8_lossy(bytes: &[u8]) -> (r: String)
    ensures
        r@ == lossy_utf8(bytes@),
        bytes@.len() == 0 ==> r@.len() == 0,
        (forall|i: int| 0 <= i < bytes@.len() ==> bytes@[i] < 128) ==> r@ == bytes@.map_values(
            |b: u8| b as char,
        ),
{
    String::from_utf8_lossy(bytes).to_string()
}

/// The broadcaster: the replay ring plus the state of the sender slot.  The
/// channel itself lives with the session runtime; the library records only
/// whether a sender is installed and which messages are to be forwarded.
pub struct WsBroadcaster {
    ring: PtyOutputRing,
    sender_attached: bool,
}

impl WsBroadcaster {
    pub closed spec fn ring_bytes(&self) -> Seq<u8> {
        self.ring@
    }

    pub closed spec fn attached(&self) -> bool {
        self.sender_attached
    }

    pub open spec fn wf(&self) -> bool {
        self.ring_bytes().len() <= PTY_OUTPUT_BUFFER_SIZE
    }

    pub fn new() -> (r: WsBroadcaster)
        ensures
            r.ring_bytes() == Seq::<u8>::empty(),
            !r.attached(),
            r.wf(),
    {
        WsBroadcaster { ring: PtyOutputRing::new(), sender_attached: false }
    }

    /// Publishes a message.  `pty_output` payload bytes always land in the
    /// replay ring; the message itself is handed back for enqueueing exactly
    /// when a sender is installed, and is dropped otherwise.
    pub fn try_send(&mut self, msg: WsMessage) -> (forward: Option<WsMessage>)
        requires
            old(self).wf(),
        ensures
            final(self).wf(),
            final(self).attached() == old(self).attached(),
            match msg@ {
                WsMessageV::PtyOutput { pty_id, data } => final(self).ring_bytes() == ring_tail(
                    old(self).ring_bytes() + vstd::utf8::encode_utf8(data),
                ),
                _ => final(self).ring_bytes() == old(self).ring_bytes(),
            },
            forward == if old(self).attached() {
                Option::Some(msg)
            } else {
                Option::None::<WsMessage>
            },
    {
        match &msg {
            WsMessage::PtyOutput(p) => {
                self.ring.append(p.data.as_str().as_bytes());
            },
            _ => {},
        }
        if self.sender_attached {
            Option::Some(msg)
        } else {
            Option::None
        }
    }

    /// The ring's contents as text, for replay on attach.  The ring is not
    /// cleared.  A ring of plain ASCII bytes — terminal output usually is —
    /// replays exactly as written.
    pub fn take_pty_output_buffer(&self) -> (r: String)
        ensures
            r@ == lossy_utf8(self.ring_bytes()),
            self.ring_bytes().len() == 0 ==> r@.len() == 0,
            (forall|i: int|
                0 <= i < self.ring_bytes().len() ==> self.ring_bytes()[i] < 128) ==> r@
                == self.ring_bytes().map_values(|b: u8| b as char),
    {
        let bytes = self.ring.contents();
        utf8_lossy(bytes.as_slice())
    }

    /// Installs or clears the sender slot.
    pub fn set_sender(&mut self, attached: bool)
        requires
            old(self).wf(),
        ensures
            final(self).wf(),
            final(self).attached() == attached,
            final(self).ring_bytes() == old(self).ring_bytes(),
    {
        self.sender_attached = attached;
    }
}

} // verus!
