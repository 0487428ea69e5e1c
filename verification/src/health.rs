//! The health endpoint's answer.

use vstd::prelude::*;
use vstd::string::*;

verus! {

/// The body of a health answer.
pub struct HealthResponse {
    pub status: String,
}

/// The one health answer the service gives: status `"ok"`.
pub fn health_status() -> (r: HealthResponse)
    ensures
        r.status@ == "ok"@,
{
    HealthResponse { status: String::from_str("ok") }
}

} // verus!
