//! Pure helpers for the DNS-filter service client: request validation and
//! the pieces of client construction that are plain computation.

use vstd::prelude::*;
use vstd::string::*;
use vstd::utf8::*;

use crate::crypto::{b64_encode, b64_of};
use crate::strutil::{strip_trailing, trim_trailing_char};

verus! {

/// The filter service's status, as reported upward.
#[derive(Debug, Clone)]
pub struct AdguardStatusResponse {
    pub protection_enabled: bool,
    pub protection_disabled_duration: i64,
    pub protection_disabled_until: Option<String>,
    pub version: String,
    pub running: bool,
}

/// A request to pause protection for a number of minutes.
#[derive(Debug, Clone, Copy, PartialEq, Eq, Structural)]
pub struct PauseRequest {
    pub minutes: u64,
}

/// Validates a pause request and converts it to milliseconds: between 1 and
/// 1440 minutes, inclusive.
pub fn pause_duration_ms(minutes: u64) -> (r: Result<u64, String>)
    ensures
        r is Ok <==> (1 <= minutes && minutes <= 1440),
        r is Ok ==> r->Ok_0 == minutes * 60000,
        r is Err ==> r->Err_0@ == "minutes must be between 1 and 1440"@,
{
    if minutes == 0 || minutes > 1440 {
        return Err(String::from_str("minutes must be between 1 and 1440"));
    }
    Ok(minutes * 60000)
}

/// The Basic authentication header for the service: `"Basic "` followed by
/// the base64 of `username:password`.
pub fn basic_auth_header(username: &str, password: &str) -> (r: String)
    ensures
        r@ == "Basic "@ + b64_of(encode_utf8(username@ + seq![':'] + password@)),
{
    proof {
        reveal_strlit(":");
        assert(":"@ =~= seq![':']);
    }
    let mut credentials = String::from_str(username);
    credentials.append(":");
    credentials.append(password);
    proof {
        assert(credentials@ =~= username@ + seq![':'] + password@);
    }
    let encoded = b64_encode(credentials.as_str().as_bytes_vec().as_slice());
    let mut header = String::from_str("Basic ");
    header.append(encoded.as_str());
    header
}

/// The service host with trailing slashes removed, as the client stores it.
pub fn normalize_service_host(host: &str) -> (r: String)
    ensures
        r@ == trim_trailing_char(host@, '/'),
{
    String::from_str(strip_trailing(host, '/'))
}

} // verus!
