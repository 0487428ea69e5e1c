//! In-memory session state of the vault: the bounded-lifetime credential
//! cache and the unlock bookkeeping behind the user-presence gate.
//!
//! The session never touches storage or the network itself: the application
//! performs the presence prompt and the vault I/O and hands the results in
//! as plain values, so every decision here is checked.

use vstd::prelude::*;
use vstd::string::*;
use vstd::utf8::*;

use crate::crypto::string_from_utf8;
use crate::crypto::zeroize_string;
use crate::error::AppError;
use crate::strutil::{has_substring, str_is_blank, str_trim, trimmed};

verus! {

/// An ASCII letter mapped to lower case; every other byte unchanged.
pub open spec fn lower_byte(b: u8) -> u8 {
    if 65 <= b && b <= 90 {
        (b + 32) as u8
    } else {
        b
    }
}

pub open spec fn ascii_lower_bytes(s: Seq<u8>) -> Seq<u8> {
    Seq::new(s.len(), |i: int| lower_byte(s[i]))
}

fn to_lower_bytes(v: &[u8]) -> (r: Vec<u8>)
    ensures
        r@ == ascii_lower_bytes(v@),
{
    let len = v.len();
    let mut out: Vec<u8> = Vec::new();
    let mut i: usize = 0;
    while i < len
        invariant
            len == v@.len(),
            0 <= i <= len,
            out@.len() == i,
            forall|j: int| 0 <= j < i ==> out@[j] == lower_byte(v@[j]),
        decreases len - i,
    {
        let b = v[i];
        if 65 <= b && b <= 90 {
            out.push(b + 32);
        } else {
            out.push(b);
        }
        i += 1;
    }
    proof {
        assert(out@ =~= ascii_lower_bytes(v@));
    }
    out
}

/// Whether `sub` occurs in `v` starting at position `i`.
fn bytes_match_at(v: &[u8], vlen: usize, sub: &[u8], sublen: usize, i: usize) -> (r: bool)
    requires
        vlen == v@.len(),
        sublen == sub@.len(),
        0 <= i,
        i + sublen <= vlen,
    ensures
        r == (v@.subrange(i as int, i + sub@.len()) == sub@),
{
    let mut j: usize = 0;
    while j < sublen
        invariant
            vlen == v@.len(),
            sublen == sub@.len(),
            i + sublen <= vlen,
            0 <= j <= sublen,
            forall|k: int| 0 <= k < j ==> v@[i + k] == sub@[k],
        decreases sublen - j,
    {
        if v[i + j] != sub[j] {
            proof {
                assert(v@.subrange(i as int, i + sub@.len())[j as int] == v@[i + j]);
            }
            return false;
        }
        j += 1;
    }
    proof {
        assert(v@.subrange(i as int, i + sub@.len()) =~= sub@);
    }
    true
}

fn bytes_contains(v: &[u8], sub: &[u8]) -> (r: bool)
    ensures
        r == has_substring(v@, sub@),
{
    let vlen = v.len();
    let sublen = sub.len();
    if sublen > vlen {
        return false;
    }
    if sublen == 0 {
        proof {
            assert(v@.subrange(0, 0 + sub@.len() as int) =~= sub@);
        }
        return true;
    }
    let bound = vlen - sublen;
    let mut i: usize = 0;
    while i <= bound
        invariant
            vlen == v@.len(),
            sublen == sub@.len(),
            1 <= sublen <= vlen,
            bound == vlen - sublen,
            0 <= i <= bound + 1,
            forall|j: int| 0 <= j < i ==> #[trigger] v@.subrange(j, j + sub@.len()) != sub@,
        decreases bound + 1 - i,
    {
        if bytes_match_at(v, vlen, sub, sublen, i) {
            return true;
        }
        i += 1;
    }
    proof {
        assert forall|j: int| 0 <= j && j + sub@.len() <= vlen implies #[trigger] v@.subrange(
            j,
            j + sub@.len(),
        ) != sub@ by {
            assert(j <= bound);
        }
    }
    false
}

/// The derived state of the stored secret: absent, persisted but not in
/// memory, or decrypted in the cache.
#[derive(Debug, Clone, Copy, PartialEq, Eq, Structural)]
pub enum ApiKeyStatus {
    NotSet,
    Locked,
    Unlocked,
}

/// The in-memory session: at most one decrypted copy of the secret, plus
/// the instant of the last successful unlock (milliseconds on a monotonic
/// clock).
pub struct VaultSession {
    pub cached: Option<String>,
    pub last_unlock_millis: Option<u64>,
}

/// The status a session reports, given whether a secret is persisted.
pub open spec fn spec_status(s: VaultSession, persisted: bool) -> ApiKeyStatus {
    if s.cached is Some {
        ApiKeyStatus::Unlocked
    } else if persisted {
        ApiKeyStatus::Locked
    } else {
        ApiKeyStatus::NotSet
    }
}

/// A session is still authenticated when the idle time since the last
/// unlock lies under the resume timeout.
pub open spec fn resume_within(last: Option<u64>, now: u64, timeout_minutes: u64) -> bool {
    last is Some && now - last->0 < timeout_minutes * 60000
}

impl VaultSession {
    /// A fresh session: nothing cached, never unlocked.
    pub fn new() -> (r: VaultSession)
        ensures
            r.cached is None,
            r.last_unlock_millis is None,
    {
        VaultSession { cached: None, last_unlock_millis: None }
    }

    /// Caches a decrypted secret and records the unlock instant.
    pub fn store_secret(&mut self, secret: String, now_millis: u64)
        ensures
            final(self).cached is Some && final(self).cached->0@ == secret@,
            final(self).last_unlock_millis == Some(now_millis),
    {
        self.cached = Some(secret);
        self.last_unlock_millis = Some(now_millis);
    }

    /// Clears the cache, scrubbing the secret's memory before release; the
    /// unlock instant is kept, as an explicit clear does not end presence.
    pub fn clear_cache(&mut self)
        ensures
            final(self).cached is None,
            final(self).last_unlock_millis == old(self).last_unlock_millis,
    {
        if let Some(mut secret) = self.cached.take() {
            zeroize_string(&mut secret);
        }
    }

    /// Forgets everything: cache (scrubbed) and unlock instant.
    pub fn reset(&mut self)
        ensures
            final(self).cached is None,
            final(self).last_unlock_millis is None,
    {
        self.clear_cache();
        self.last_unlock_millis = None;
    }

    /// A copy of the cached secret, if one is present.
    pub fn cached_secret(&self) -> (r: Option<String>)
        ensures
            r is Some <==> self.cached is Some,
            r is Some ==> r->0@ == self.cached->0@,
    {
        match &self.cached {
            Some(s) => Some(s.clone()),
            None => None,
        }
    }

    /// The derived status, never computed from anything but the cache and
    /// the persistence flag.
    pub fn status(&self, persisted: bool) -> (r: ApiKeyStatus)
        ensures
            r == spec_status(*self, persisted),
    {
        if self.cached.is_some() {
            ApiKeyStatus::Unlocked
        } else if persisted {
            ApiKeyStatus::Locked
        } else {
            ApiKeyStatus::NotSet
        }
    }

    /// Whether the session may resume without a fresh presence prompt.
    pub fn resume_authenticated(&self, now_millis: u64, timeout_minutes: u64) -> (r: bool)
        requires
            timeout_minutes * 60000 <= u64::MAX,
            self.last_unlock_millis is Some ==> self.last_unlock_millis->0 <= now_millis,
        ensures
            r == resume_within(self.last_unlock_millis, now_millis, timeout_minutes),
    {
        let timeout_millis = timeout_minutes * 60000;
        match self.last_unlock_millis {
            Some(t) => now_millis - t < timeout_millis,
            None => false,
        }
    }
}

/// After a cache clear the reported status is `Locked` exactly when a
/// secret is persisted and `NotSet` otherwise — never `Unlocked`.
pub proof fn lemma_status_after_clear(s: VaultSession, persisted: bool)
    requires
        s.cached is None,
    ensures
        spec_status(s, persisted) != ApiKeyStatus::Unlocked,
        persisted ==> spec_status(s, persisted) == ApiKeyStatus::Locked,
        !persisted ==> spec_status(s, persisted) == ApiKeyStatus::NotSet,
{
}

/// Validates a new secret before anything else sees it: it is trimmed and
/// must be non-empty.
pub fn normalize_secret(key: &str) -> (r: Result<String, AppError>)
    ensures
        r is Ok <==> trimmed(key@).len() > 0,
        r is Ok ==> r->Ok_0@ == trimmed(key@),
        r is Err ==> (r->Err_0 matches AppError::Config(m) && m@ == "API key cannot be empty"@),
{
    if str_is_blank(key) {
        return Err(AppError::Config(String::from_str("API key cannot be empty")));
    }
    Ok(String::from_str(str_trim(key)))
}

/// Turns the bytes loaded from the store back into the secret; anything
/// that is not UTF-8 counts as a missing secret, as the store never holds
/// such a value.
pub fn secret_from_bytes(bytes: Vec<u8>) -> (r: Result<String, AppError>)
    ensures
        r is Ok <==> valid_utf8(bytes@),
        r is Ok ==> r->Ok_0@ == decode_utf8(bytes@),
        r is Err ==> r == Err::<String, AppError>(AppError::MissingApiKey),
{
    match string_from_utf8(bytes) {
        Some(s) => Ok(s),
        None => Err(AppError::MissingApiKey),
    }
}

/// Whether a presence-gate error text, lowercased, says the user cancelled.
pub open spec fn biometric_cancelled(l: Seq<u8>) -> bool {
    has_substring(l, encode_utf8("cancel"@)) || has_substring(l, encode_utf8("cancelled"@))
        || has_substring(l, encode_utf8("user cancelled"@))
}

/// Whether a presence-gate error text, lowercased, says the capability is
/// missing.
pub open spec fn biometric_unavailable(l: Seq<u8>) -> bool {
    has_substring(l, encode_utf8("not available"@)) || has_substring(
        l,
        encode_utf8("unavailable"@),
    ) || has_substring(l, encode_utf8("no biometric"@))
}

/// Sorts a presence-gate failure into the taxonomy: a cancellation is
/// distinct from a missing capability, and both from a hard failure.
pub fn classify_biometric_error(err_text: &str) -> (r: AppError)
    ensures
        ({
            let l = ascii_lower_bytes(encode_utf8(err_text@));
            &&& (biometric_cancelled(l) ==> r == AppError::BiometricCancelled)
            &&& ((!biometric_cancelled(l) && biometric_unavailable(l)) ==> (r matches
                AppError::BiometricUnavailable(m) && m@ == err_text@))
            &&& ((!biometric_cancelled(l) && !biometric_unavailable(l)) ==> r
                == AppError::BiometricFailed)
        }),
{
    let lower = to_lower_bytes(err_text.as_bytes());
    if bytes_contains(lower.as_slice(), "cancel".as_bytes()) || bytes_contains(
        lower.as_slice(),
        "cancelled".as_bytes(),
    ) || bytes_contains(lower.as_slice(), "user cancelled".as_bytes()) {
        AppError::BiometricCancelled
    } else if bytes_contains(lower.as_slice(), "not available".as_bytes()) || bytes_contains(
        lower.as_slice(),
        "unavailable".as_bytes(),
    ) || bytes_contains(lower.as_slice(), "no biometric".as_bytes()) {
        AppError::BiometricUnavailable(String::from_str(err_text))
    } else {
        AppError::BiometricFailed
    }
}

/// What a store probe found, handed in by the application layer.
pub enum VaultProbe {
    PathUnavailable(String),
    FileMissing,
    OpenFailed(String),
    NoEntry,
    Entry(usize),
}

/// Store diagnostics, reported without paths or key material.
pub struct KeyringDiagnostics {
    pub key_present: bool,
    pub key_length: Option<usize>,
    pub keyring_accessible: bool,
    pub error_message: Option<String>,
}

/// The diagnostics derived from a store probe, one fixed answer per
/// outcome.
pub fn diagnostics_for(probe: &VaultProbe) -> (r: KeyringDiagnostics)
    ensures
        r.key_present <==> *probe matches VaultProbe::Entry(_),
        *probe matches VaultProbe::Entry(n) ==> r.key_length == Some(n),
        !(*probe matches VaultProbe::Entry(_)) ==> r.key_length is None,
        r.keyring_accessible <==> (*probe matches VaultProbe::FileMissing || *probe matches
            VaultProbe::NoEntry || *probe matches VaultProbe::Entry(_)),
        r.error_message is Some <==> !(*probe matches VaultProbe::Entry(_)),
{
    match probe {
        VaultProbe::PathUnavailable(msg) => KeyringDiagnostics {
            key_present: false,
            key_length: None,
            keyring_accessible: false,
            error_message: Some(msg.clone()),
        },
        VaultProbe::FileMissing => KeyringDiagnostics {
            key_present: false,
            key_length: None,
            keyring_accessible: true,
            error_message: Some(String::from_str("Vault file does not exist")),
        },
        VaultProbe::OpenFailed(msg) => KeyringDiagnostics {
            key_present: false,
            key_length: None,
            keyring_accessible: false,
            error_message: Some(msg.clone()),
        },
        VaultProbe::NoEntry => KeyringDiagnostics {
            key_present: false,
            key_length: None,
            keyring_accessible: true,
            error_message: Some(String::from_str("No API key entry found")),
        },
        VaultProbe::Entry(n) => KeyringDiagnostics {
            key_present: true,
            key_length: Some(*n),
            keyring_accessible: true,
            error_message: None,
        },
    }
}

/// The status command's answer, derived from the cache and a store probe:
/// a cached secret reports `Unlocked`, a stored entry `Locked`, anything
/// else — a missing file, an unreadable vault — `NotSet`.
pub fn status_from_probe(cached: bool, probe: &VaultProbe) -> (r: ApiKeyStatus)
    ensures
        cached ==> r == ApiKeyStatus::Unlocked,
        (!cached && *probe matches VaultProbe::Entry(_)) ==> r == ApiKeyStatus::Locked,
        (!cached && !(*probe matches VaultProbe::Entry(_))) ==> r == ApiKeyStatus::NotSet,
{
    if cached {
        return ApiKeyStatus::Unlocked;
    }
    match probe {
        VaultProbe::Entry(_) => ApiKeyStatus::Locked,
        _ => ApiKeyStatus::NotSet,
    }
}

} // verus!
