//! Bearer-credential checking for the backend service: the expected key and
//! the constant-time comparison of a presented `Authorization` header.

use vstd::prelude::*;
use vstd::string::*;
use vstd::utf8::*;

use subtle::ConstantTimeEq;

use crate::strutil::has_prefix;

verus! {

/// The expected API key, shared cheaply between request handlers.
#[derive(Clone)]
pub struct ApiKey {
    key: std::sync::Arc<String>,
}

impl View for ApiKey {
    type V = Seq<char>;

    closed spec fn view(&self) -> Seq<char> {
        self.key@
    }
}

impl ApiKey {
    pub fn new(key: String) -> (r: ApiKey)
        ensures
            r@ == key@,
    {
        ApiKey { key: std::sync::Arc::new(key) }
    }

    pub fn as_str(&self) -> (r: &str)
        ensures
            r@ == self@,
    {
        self.key.as_str()
    }

    /// The key's length in bytes.
    pub fn len(&self) -> (r: usize)
        ensures
            r == encode_utf8(self@).len() as usize,
    {
        self.key.as_str().len()
    }

    pub fn is_empty(&self) -> (r: bool)
        ensures
            r == (self@.len() == 0),
    {
        self.key.as_str().is_empty()
    }
}

/// Relies on `subtle::ConstantTimeEq` for `[u8]`: the comparison decides
/// exact slice equality, in constant time over the contents.
#[verifier::external_body]
fn ct_bytes_eq(a: &[u8], b: &[u8]) -> (r: bool)
    ensures
        r == (a@ == b@),
{
    a.ct_eq(b).into()
}

/// A presented header authorizes exactly when it is `"Bearer "` followed by
/// the expected key.
pub open spec fn bearer_authorizes(header: Option<Seq<char>>, key: Seq<char>) -> bool {
    &&& header is Some
    &&& has_prefix(header->0, seq!['B', 'e', 'a', 'r', 'e', 'r', ' '])
    &&& header->0.skip(7) == key
}

/// Decides a request's `Authorization` header against the expected key; the
/// key comparison runs in constant time.
pub fn authorize_bearer(auth_header: Option<&str>, api_key: &ApiKey) -> (r: bool)
    ensures
        r == bearer_authorizes(
            match auth_header {
                Some(h) => Some(h@),
                None => None,
            },
            api_key@,
        ),
{
    broadcast use encode_utf8_decode_utf8;

    proof {
        reveal_strlit("Bearer ");
        assert("Bearer "@ =~= seq!['B', 'e', 'a', 'r', 'e', 'r', ' ']);
    }
    let header = match auth_header {
        Some(h) => h,
        None => {
            return false;
        },
    };
    if !crate::strutil::str_starts_with(header, "Bearer ") {
        return false;
    }
    let presented = header.substring_char(7, header.unicode_len());
    let key_str = api_key.as_str();
    let r = ct_bytes_eq(presented.as_bytes(), key_str.as_bytes());
    proof {
        if encode_utf8(presented@) == encode_utf8(key_str@) {
            assert(decode_utf8(encode_utf8(presented@)) == presented@);
            assert(decode_utf8(encode_utf8(key_str@)) == key_str@);
        }
        assert(header@.skip(7) =~= header@.subrange(7, header@.len() as int));
    }
    r
}

} // verus!
