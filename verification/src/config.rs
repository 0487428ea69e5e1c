//! Application configuration: the backend base URL and default timeout.

use vstd::prelude::*;
use vstd::string::*;

use crate::strutil::{str_is_blank, trimmed};

verus! {

/// Where the gateway sends its calls, and the default call timeout.
#[derive(Debug, Clone)]
pub struct ApiConfig {
    pub base_url: String,
    pub timeout_seconds: u64,
}

impl ApiConfig {
    /// Checks the configuration before it is handed out: the base URL must
    /// not be blank and the timeout must be positive.
    pub fn sanitize(&self) -> (r: Result<ApiConfig, String>)
        ensures
            r is Ok <==> (trimmed(self.base_url@).len() != 0 && self.timeout_seconds != 0),
            r is Ok ==> r->Ok_0.base_url@ == self.base_url@ && r->Ok_0.timeout_seconds
                == self.timeout_seconds,
            trimmed(self.base_url@).len() == 0 <==> (r matches Err(m) && m@
                == "API base URL cannot be empty"@),
            (trimmed(self.base_url@).len() != 0 && self.timeout_seconds == 0) <==> (r matches Err(
                m,
            ) && m@ == "Timeout seconds must be greater than zero"@),
    {
        proof {
            reveal_strlit("API base URL cannot be empty");
            reveal_strlit("Timeout seconds must be greater than zero");
            assert("API base URL cannot be empty"@.len() == 28);
            assert("Timeout seconds must be greater than zero"@.len() == 41);
        }
        if str_is_blank(self.base_url.as_str()) {
            return Err(String::from_str("API base URL cannot be empty"));
        }
        if self.timeout_seconds == 0 {
            return Err(String::from_str("Timeout seconds must be greater than zero"));
        }
        Ok(ApiConfig { base_url: self.base_url.clone(), timeout_seconds: self.timeout_seconds })
    }
}

/// The whole application configuration.
#[derive(Debug, Clone)]
pub struct AppConfig {
    pub api: ApiConfig,
}

} // verus!
