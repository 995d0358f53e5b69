use vstd::prelude::*;

use crate::strutil::spec_trim;

verus! {

// ---------------------------------------------------------------------------
// TLS identity reuse
//
// A self-signed certificate bound to the server's address is kept on disk
// and reused as long as it is young enough and was issued for the same
// address.  Reading files and generating certificates is the runtime's
// work; the reuse decision is made here from plain facts.
// ---------------------------------------------------------------------------

pub const CERT_VALIDITY_DAYS: u64 = 365;

/// Whether a certificate of the given age is too old to reuse; an unknown
/// age (an unreadable file) counts as expired.
pub fn is_cert_expired(age_secs: Option<u64>) -> (r: bool)
    ensures
        r == match age_secs {
            Option::Some(a) => a > CERT_VALIDITY_DAYS * 24 * 60 * 60,
            Option::None => true,
        },
{
    match age_secs {
        Option::Some(a) => a > CERT_VALIDITY_DAYS * 24 * 60 * 60,
        Option::None => true,
    }
}

/// Whether the stored certificate may be reused for `requested_ip`: both
/// files exist, the certificate has not aged out, and the recorded address
/// (surrounding whitespace ignored) matches.
pub fn should_reuse_cert(
    cert_exists: bool,
    key_exists: bool,
    stored_ip: &Option<String>,
    requested_ip: &str,
    age_secs: Option<u64>,
) -> (r: bool)
    ensures
        r == (cert_exists && key_exists && (match age_secs {
            Option::Some(a) => a <= CERT_VALIDITY_DAYS * 24 * 60 * 60,
            Option::None => false,
        }) && (match stored_ip {
            Option::Some(s) => spec_trim(s@) == requested_ip@,
            Option::None => false,
        })),
{
    if !cert_exists || !key_exists {
        return false;
    }
    if is_cert_expired(age_secs) {
        return false;
    }
    match stored_ip {
        Option::Some(s) => {
            let t = crate::strutil::trim(&crate::strutil::chars_vec(s.as_str()));
            crate::strutil::chars_eq_str(&t, requested_ip)
        },
        Option::None => false,
    }
}

} // verus!
