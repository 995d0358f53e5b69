use vstd::prelude::*;

use hmac::{Hmac, KeyInit, Mac};
use rand::RngExt;
use sha2::Sha256;

use crate::strutil::{chars_vec, hex_encode, spec_hex_of, spec_is_hex_digit};

verus! {

broadcast use vstd::seq::group_seq_axioms;

// ---------------------------------------------------------------------------
// Challenge-response authentication
//
// On accept, the server sends a fresh random challenge.  The client must
// answer with the hex form of HMAC-SHA256(key = shared token, msg =
// challenge text) within the handshake deadline.  Failures are counted per
// source address; three failures block the address for thirty seconds.
// ---------------------------------------------------------------------------

pub const AUTH_TIMEOUT_SECS: u64 = 5;

pub const RATE_LIMIT_MAX_FAILURES: u32 = 3;

pub const RATE_LIMIT_BLOCK_MS: u64 = 30 * 1000;

pub const CHALLENGE_LENGTH: usize = 32;

/// The HMAC-SHA256 tag for a key and a message: 32 bytes, a function of the
/// two inputs alone.
pub uninterp spec fn hmac_sha256_of(key: Seq<u8>, msg: Seq<u8>) -> Seq<u8>;

/// Relies on the hmac and sha2 crates: `Hmac::<Sha256>` computes the keyed
/// digest of the message; any key length is accepted, and the output is 32
/// bytes, determined by key and message alone.
#[verifier::external_body]
fn hmac_sha256(key: &[u8], msg: &[u8]) -> (r: Vec<u8>)
    ensures
        r@ == hmac_sha256_of(key@, msg@),
        r@.len() == 32,
{
    let mut mac = match <Hmac<Sha256> as KeyInit>::new_from_slice(key) {
        Ok(m) => m,
        // unreachable: HMAC accepts keys of any length
        Err(_) => return vec![0u8; 32],
    };
    mac.update(msg);
    mac.finalize().into_bytes().to_vec()
}

/// Relies on rand's thread generator: fills a fresh buffer with 32 bytes.
/// Nothing is promised of the values themselves.
#[verifier::external_body]
fn random_bytes_32() -> (r: Vec<u8>)
    ensures
        r@.len() == 32,
{
    let mut buf = vec![0u8; 32];
    rand::rng().fill(&mut buf[..]);
    buf
}

/// A fresh random challenge: 32 random bytes, hex-encoded to 64 digits.
pub fn generate_challenge() -> (r: String)
    ensures
        r@.len() == 2 * CHALLENGE_LENGTH,
        forall|i: int| 0 <= i < r@.len() ==> spec_is_hex_digit(#[trigger] r@[i]),
{
    let bytes = random_bytes_32();
    proof {
        crate::strutil::lemma_hex_of_len(bytes@);
        crate::strutil::lemma_hex_of_digits(bytes@);
    }
    hex_encode(bytes.as_slice())
}

/// Whether the client's answer is the hex form of HMAC-SHA256 over the
/// challenge, keyed by the shared token.
pub fn verify_hmac(challenge: &str, token: &str, client_hmac: &str) -> (r: bool)
    ensures
        r == (client_hmac@ == spec_hex_of(
            hmac_sha256_of(
                vstd::utf8::encode_utf8(token@),
                vstd::utf8::encode_utf8(challenge@),
            ),
        )),
{
    let tag = hmac_sha256(token.as_bytes(), challenge.as_bytes());
    let expected = hex_encode(tag.as_slice());
    let ev = chars_vec(expected.as_str());
    let cv = chars_vec(client_hmac);
    fixed_scan_eq(&ev, &cv)
}

/// Equality by a full scan: every position is visited whatever the inputs,
/// so the comparison's timing does not depend on where the texts differ.
/// (The digest's length is fixed and public, so a length mismatch may
/// return at once.)
fn fixed_scan_eq(a: &Vec<char>, b: &Vec<char>) -> (r: bool)
    ensures
        r == (a@ == b@),
{
    if a.len() != b.len() {
        return false;
    }
    let mut diff_bits: u8 = 0;
    let mut k: usize = 0;
    while k < a.len()
        invariant
            k <= a@.len(),
            a@.len() == b@.len(),
            (diff_bits == 0) == (forall|m: int| 0 <= m < k ==> a@[m] == b@[m]),
        decreases a@.len() - k,
    {
        let here: u8 = if a[k] != b[k] {
            1
        } else {
            0
        };
        let merged: u8 = diff_bits | here;
        proof {
            assert((merged == 0) == (diff_bits == 0 && here == 0)) by (bit_vector)
                requires
                    merged == diff_bits | here,
            ;
        }
        diff_bits = merged;
        k = k + 1;
    }
    proof {
        if diff_bits == 0 {
            assert(a@ =~= b@);
        } else {
            if a@ == b@ {
                assert(forall|m: int| 0 <= m < a@.len() ==> a@[m] == b@[m]);
                assert(false);
            }
        }
    }
    diff_bits == 0
}

// ---------------------------------------------------------------------------
// Per-address rate limiting
// ---------------------------------------------------------------------------

/// The failure record for one source address.  Times are milliseconds on the
/// caller's clock.
#[derive(Clone, Copy, Debug)]
pub struct RateLimitEntry {
    pub failures: u32,
    pub blocked_until: Option<u64>,
}

pub open spec fn assoc_map(es: Seq<(u128, RateLimitEntry)>) -> Map<u128, RateLimitEntry>
    decreases es.len(),
{
    if es.len() == 0 {
        Map::empty()
    } else {
        assoc_map(es.drop_last()).insert(es.last().0, es.last().1)
    }
}

pub open spec fn assoc_unique(es: Seq<(u128, RateLimitEntry)>) -> bool {
    forall|i: int, j: int| 0 <= i < j < es.len() ==> (#[trigger] es[i]).0 != (#[trigger] es[j]).0
}

proof fn lemma_assoc_contains(es: Seq<(u128, RateLimitEntry)>, ip: u128)
    ensures
        assoc_map(es).contains_key(ip) <==> exists|k: int| 0 <= k < es.len() && (#[trigger] es[k]).0 == ip,
    decreases es.len(),
{
    if es.len() > 0 {
        lemma_assoc_contains(es.drop_last(), ip);
        if assoc_map(es).contains_key(ip) {
            if es.last().0 != ip {
                let k = choose|k: int|
                    0 <= k < es.drop_last().len() && (#[trigger] es.drop_last()[k]).0 == ip;
                assert(es[k].0 == ip);
            } else {
                assert(es[es.len() - 1].0 == ip);
            }
        }
        if exists|k: int| 0 <= k < es.len() && (#[trigger] es[k]).0 == ip {
            let k = choose|k: int| 0 <= k < es.len() && (#[trigger] es[k]).0 == ip;
            if k < es.len() - 1 {
                assert(es.drop_last()[k].0 == ip);
            }
        }
    }
}

proof fn lemma_assoc_lookup(es: Seq<(u128, RateLimitEntry)>, i: int)
    requires
        assoc_unique(es),
        0 <= i < es.len(),
    ensures
        assoc_map(es).contains_key(es[i].0),
        assoc_map(es)[es[i].0] == es[i].1,
    decreases es.len(),
{
    if i == es.len() - 1 {
        assert(es.last() == es[i]);
    } else {
        assert(assoc_unique(es.drop_last())) by {
            assert(forall|a: int, b: int|
                0 <= a < b < es.drop_last().len() ==> (#[trigger] es.drop_last()[a]).0 != (
                #[trigger] es.drop_last()[b]).0);
        }
        lemma_assoc_lookup(es.drop_last(), i);
        assert(es.drop_last()[i] == es[i]);
        assert(es.last().0 != es[i].0);
    }
}

proof fn lemma_assoc_update(es: Seq<(u128, RateLimitEntry)>, i: int, v: RateLimitEntry)
    requires
        assoc_unique(es),
        0 <= i < es.len(),
    ensures
        assoc_map(es.update(i, (es[i].0, v))) == assoc_map(es).insert(es[i].0, v),
        assoc_unique(es.update(i, (es[i].0, v))),
    decreases es.len(),
{
    let es2 = es.update(i, (es[i].0, v));
    assert(assoc_unique(es2)) by {
        assert(forall|a: int| 0 <= a < es.len() ==> (#[trigger] es2[a]).0 == es[a].0);
    }
    if i == es.len() - 1 {
        assert(es2.drop_last() =~= es.drop_last());
        assert(es2.last() == (es[i].0, v));
        assert(assoc_map(es2) =~= assoc_map(es).insert(es[i].0, v));
    } else {
        assert(assoc_unique(es.drop_last())) by {
            assert(forall|a: int, b: int|
                0 <= a < b < es.drop_last().len() ==> (#[trigger] es.drop_last()[a]).0 != (
                #[trigger] es.drop_last()[b]).0);
        }
        lemma_assoc_update(es.drop_last(), i, v);
        assert(es2.drop_last() =~= es.drop_last().update(i, (es[i].0, v)));
        assert(es2.last() == es.last());
        assert(es.drop_last()[i] == es[i]);
        assert(es.last().0 != es[i].0);
        assert(assoc_map(es2) =~= assoc_map(es).insert(es[i].0, v));
    }
}

proof fn lemma_assoc_push(es: Seq<(u128, RateLimitEntry)>, ip: u128, v: RateLimitEntry)
    requires
        assoc_unique(es),
        forall|k: int| 0 <= k < es.len() ==> (#[trigger] es[k]).0 != ip,
    ensures
        assoc_map(es.push((ip, v))) == assoc_map(es).insert(ip, v),
        assoc_unique(es.push((ip, v))),
{
    let es2 = es.push((ip, v));
    assert(es2.drop_last() =~= es);
    assert(es2.last() == (ip, v));
    assert(assoc_unique(es2)) by {
        assert(forall|a: int| 0 <= a < es.len() ==> (#[trigger] es2[a]).0 == es[a].0);
    }
}

proof fn lemma_assoc_remove(es: Seq<(u128, RateLimitEntry)>, i: int)
    requires
        assoc_unique(es),
        0 <= i < es.len(),
    ensures
        assoc_map(es.remove(i)) == assoc_map(es).remove(es[i].0),
        assoc_unique(es.remove(i)),
    decreases es.len(),
{
    let es2 = es.remove(i);
    assert(assoc_unique(es2)) by {
        assert(forall|a: int|
            0 <= a < es2.len() ==> (#[trigger] es2[a]).0 == if a < i {
                es[a].0
            } else {
                es[a + 1].0
            });
    }
    if i == es.len() - 1 {
        assert(es2 =~= es.drop_last());
        lemma_assoc_contains(es.drop_last(), es[i].0);
        assert(forall|k: int|
            0 <= k < es.drop_last().len() ==> (#[trigger] es.drop_last()[k]).0 != es[i].0);
        assert(!assoc_map(es.drop_last()).contains_key(es[i].0));
        assert(assoc_map(es2) =~= assoc_map(es).remove(es[i].0));
    } else {
        assert(assoc_unique(es.drop_last())) by {
            assert(forall|a: int, b: int|
                0 <= a < b < es.drop_last().len() ==> (#[trigger] es.drop_last()[a]).0 != (
                #[trigger] es.drop_last()[b]).0);
        }
        lemma_assoc_remove(es.drop_last(), i);
        assert(es2.drop_last() =~= es.drop_last().remove(i));
        assert(es2.last() == es.last());
        assert(es.drop_last()[i] == es[i]);
        assert(es.last().0 != es[i].0);
        assert(assoc_map(es2) =~= assoc_map(es).remove(es[i].0));
    }
}

/// Whether, in limiter state `m`, the address `ip` is blocked at time `now`.
pub open spec fn spec_is_blocked(m: Map<u128, RateLimitEntry>, ip: u128, now_ms: u64) -> bool {
    m.contains_key(ip) && match m[ip].blocked_until {
        Option::Some(t) => now_ms < t,
        Option::None => false,
    }
}

/// The limiter state after one recorded failure from `ip` at time `now`:
/// the failure count rises, and from the third failure on the address is
/// blocked until thirty seconds past `now`.
pub open spec fn spec_record_failure(
    m: Map<u128, RateLimitEntry>,
    ip: u128,
    now_ms: u64,
) -> Map<u128, RateLimitEntry> {
    let old_f: u32 = if m.contains_key(ip) {
        m[ip].failures
    } else {
        0
    };
    let f: u32 = if old_f < u32::MAX {
        (old_f + 1) as u32
    } else {
        old_f
    };
    let b: Option<u64> = if f >= RATE_LIMIT_MAX_FAILURES {
        Option::Some((now_ms + RATE_LIMIT_BLOCK_MS) as u64)
    } else {
        if m.contains_key(ip) {
            m[ip].blocked_until
        } else {
            Option::None
        }
    };
    m.insert(ip, RateLimitEntry { failures: f, blocked_until: b })
}

/// The per-address failure counters, keyed by the address as an integer
/// (an IPv4 address in the low 32 bits, or a full IPv6 address).
pub struct RateLimiter {
    entries: Vec<(u128, RateLimitEntry)>,
}

impl RateLimiter {
    pub closed spec fn view(&self) -> Map<u128, RateLimitEntry> {
        assoc_map(self.entries@)
    }

    pub closed spec fn wf(&self) -> bool {
        assoc_unique(self.entries@)
    }

    pub fn new() -> (r: RateLimiter)
        ensures
            r@ == Map::<u128, RateLimitEntry>::empty(),
            r.wf(),
    {
        RateLimiter { entries: Vec::new() }
    }

    fn find(&self, ip: u128) -> (r: Option<usize>)
        requires
            self.wf(),
        ensures
            match r {
                Option::Some(i) => i < self.entries@.len() && self.entries@[i as int].0 == ip
                    && self@.contains_key(ip) && self@[ip] == self.entries@[i as int].1,
                Option::None => !self@.contains_key(ip),
            },
    {
        let mut i: usize = 0;
        while i < self.entries.len()
            invariant
                i <= self.entries@.len(),
                self.wf(),
                forall|k: int| 0 <= k < i ==> (#[trigger] self.entries@[k]).0 != ip,
            decreases self.entries@.len() - i,
        {
            if self.entries[i].0 == ip {
                proof {
                    lemma_assoc_lookup(self.entries@, i as int);
                }
                return Option::Some(i);
            }
            i = i + 1;
        }
        proof {
            lemma_assoc_contains(self.entries@, ip);
        }
        Option::None
    }

    /// Whether `ip` is blocked at time `now_ms`.
    pub fn is_ip_blocked(&self, ip: u128, now_ms: u64) -> (r: bool)
        requires
            self.wf(),
        ensures
            r == spec_is_blocked(self@, ip, now_ms),
    {
        match self.find(ip) {
            Option::Some(i) => match self.entries[i].1.blocked_until {
                Option::Some(t) => now_ms < t,
                Option::None => false,
            },
            Option::None => false,
        }
    }

    /// Records one failed handshake from `ip` at time `now_ms`.
    pub fn record_auth_failure(&mut self, ip: u128, now_ms: u64)
        requires
            old(self).wf(),
            now_ms + RATE_LIMIT_BLOCK_MS <= u64::MAX,
        ensures
            final(self).wf(),
            final(self)@ == spec_record_failure(old(self)@, ip, now_ms),
    {
        let found = self.find(ip);
        match found {
            Option::Some(i) => {
                let old_entry = self.entries[i].1;
                let f: u32 = if old_entry.failures < u32::MAX {
                    old_entry.failures + 1
                } else {
                    old_entry.failures
                };
                let b: Option<u64> = if f >= RATE_LIMIT_MAX_FAILURES {
                    Option::Some(now_ms + RATE_LIMIT_BLOCK_MS)
                } else {
                    old_entry.blocked_until
                };
                let entry = RateLimitEntry { failures: f, blocked_until: b };
                proof {
                    lemma_assoc_update(self.entries@, i as int, entry);
                }
                self.entries.set(i, (ip, entry));
            },
            Option::None => {
                let f: u32 = 1;
                let b: Option<u64> = if f >= RATE_LIMIT_MAX_FAILURES {
                    Option::Some(now_ms + RATE_LIMIT_BLOCK_MS)
                } else {
                    Option::None
                };
                let entry = RateLimitEntry { failures: f, blocked_until: b };
                proof {
                    lemma_assoc_contains(self.entries@, ip);
                    if exists|k: int|
                        0 <= k < self.entries@.len() && (#[trigger] self.entries@[k]).0 == ip {
                        let k = choose|k: int|
                            0 <= k < self.entries@.len() && (#[trigger] self.entries@[k]).0 == ip;
                        assert(self@.contains_key(ip));
                    }
                    lemma_assoc_push(self.entries@, ip, entry);
                }
                self.entries.push((ip, entry));
            },
        }
    }

    /// Clears the failure record for `ip`, as a successful handshake does.
    pub fn clear_auth_failures(&mut self, ip: u128)
        requires
            old(self).wf(),
        ensures
            final(self).wf(),
            final(self)@ == old(self)@.remove(ip),
    {
        let found = self.find(ip);
        match found {
            Option::Some(i) => {
                proof {
                    lemma_assoc_remove(self.entries@, i as int);
                }
                self.entries.remove(i);
            },
            Option::None => {
                proof {
                    assert(self@ =~= self@.remove(ip));
                }
            },
        }
    }
}

// ---------------------------------------------------------------------------
// Laws of the limiter
// ---------------------------------------------------------------------------

/// Lockout: an address with no failure record that fails three times in a
/// row is blocked for every instant within thirty seconds of the third
/// failure.
pub proof fn lemma_three_failures_block(
    m0: Map<u128, RateLimitEntry>,
    ip: u128,
    t1: u64,
    t2: u64,
    t3: u64,
    now: u64,
)
    requires
        !m0.contains_key(ip),
        t3 + RATE_LIMIT_BLOCK_MS <= u64::MAX,
        now < t3 + RATE_LIMIT_BLOCK_MS,
    ensures
        spec_is_blocked(
            spec_record_failure(spec_record_failure(spec_record_failure(m0, ip, t1), ip, t2), ip, t3),
            ip,
            now,
        ),
{
}

/// Fewer than three failures never block.
pub proof fn lemma_two_failures_do_not_block(
    m0: Map<u128, RateLimitEntry>,
    ip: u128,
    t1: u64,
    t2: u64,
    now: u64,
)
    requires
        !m0.contains_key(ip),
    ensures
        !spec_is_blocked(spec_record_failure(spec_record_failure(m0, ip, t1), ip, t2), ip, now),
{
}

/// A successful handshake clears the record: the address is no longer
/// blocked, at any time.
pub proof fn lemma_clear_unblocks(m: Map<u128, RateLimitEntry>, ip: u128, now: u64)
    ensures
        !spec_is_blocked(m.remove(ip), ip, now),
{
}

} // verus!
