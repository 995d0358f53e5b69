use vstd::prelude::*;

verus! {

// ---------------------------------------------------------------------------
// Terminal sharing
//
// The terminals themselves are spawned and owned by the desktop runtime;
// the library holds the event types it forwards and the process-wide
// counter their identifiers come from.
// ---------------------------------------------------------------------------

/// A chunk of terminal output, already filtered.
#[derive(Debug, Clone)]
pub struct PtyOutput {
    pub pty_id: u64,
    pub data: String,
}

/// A terminal has exited.
#[derive(Debug, Clone)]
pub struct PtyExit {
    pub pty_id: u64,
    pub exit_code: Option<i32>,
}

/// A monotonic identifier source, starting at 1.
pub struct IdCounter {
    next: u64,
}

impl IdCounter {
    pub closed spec fn next_id(&self) -> u64 {
        self.next
    }

    pub fn new() -> (r: IdCounter)
        ensures
            r.next_id() == 1,
    {
        IdCounter { next: 1 }
    }

    pub fn take_next(&mut self) -> (r: u64)
        requires
            old(self).next_id() < u64::MAX,
        ensures
            r == old(self).next_id(),
            final(self).next_id() == old(self).next_id() + 1,
    {
        let id = self.next;
        self.next = self.next + 1;
        id
    }
}

/// Draws the next terminal identifier.
pub fn generate_pty_id(counter: &mut IdCounter) -> (r: u64)
    requires
        old(counter).next_id() < u64::MAX,
    ensures
        r == old(counter).next_id(),
        final(counter).next_id() == old(counter).next_id() + 1,
{
    counter.take_next()
}

/// Where a byte stream's longest valid-UTF-8 prefix ends.  Relies on
/// str::from_utf8 and Utf8Error::valid_up_to: the prefix decodes as text
/// whose bytes are exactly that prefix, and nothing is split off when the
/// whole buffer is valid.
#[verifier::external_body]
fn split_utf8(pending: &[u8]) -> (r: (String, Vec<u8>))
    ensures
        vstd::utf8::encode_utf8(r.0@) + r.1@ == pending@,
        vstd::utf8::valid_utf8(pending@) ==> r.1@.len() == 0,
{
    match std::str::from_utf8(pending) {
        Ok(text) => (text.to_string(), Vec::new()),
        Err(e) => {
            let k = e.valid_up_to();
            let head = std::str::from_utf8(&pending[..k]).unwrap_or("").to_string();
            (head, pending[k..].to_vec())
        },
    }
}

/// Splits a partially read byte buffer at the end of its longest valid
/// UTF-8 prefix: the prefix is decoded and forwarded, the suffix bytes wait
/// for the next read to complete their character.
pub fn utf8_prefix(pending: &[u8]) -> (r: (String, Vec<u8>))
    ensures
        vstd::utf8::encode_utf8(r.0@) + r.1@ == pending@,
        vstd::utf8::valid_utf8(pending@) ==> r.1@.len() == 0,
{
    split_utf8(pending)
}

} // verus!
