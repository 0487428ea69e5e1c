//! The request gateway: the sole path for authenticated outbound calls.
//!
//! Every call is validated in a fixed order — method allow-list, path
//! safety, timeout bounds, base URL shape, secret resolution — each failure
//! with its own rejection, before the secret is attached as a bearer
//! credential.  An HTTP 401 answer is translated into a distinct
//! credential-rejected condition.

use vstd::prelude::*;
use vstd::string::*;

use crate::error::AppError;
use crate::strutil::{
    has_prefix, has_substring, trim_leading_char, trim_trailing_char, trimmed, str_contains,
    str_contains_char, str_starts_with, strip_leading, strip_trailing, str_is_blank, str_trim,
};

verus! {

/// An ASCII hexadecimal digit, either case.
pub open spec fn is_hex_digit(b: u8) -> bool {
    (48 <= b && b <= 57) || (65 <= b && b <= 70) || (97 <= b && b <= 102)
}

pub open spec fn hex_value(b: u8) -> u8 {
    if 48 <= b && b <= 57 {
        (b - 48) as u8
    } else if 65 <= b && b <= 70 {
        (b - 55) as u8
    } else {
        (b - 87) as u8
    }
}

/// Percent-decoding of a byte string: each `%XY` with two hex digits becomes
/// one byte; anything else is passed through unchanged.
pub open spec fn pct_decode(s: Seq<u8>) -> Seq<u8>
    decreases s.len(),
{
    if s.len() == 0 {
        Seq::empty()
    } else if s[0] == 37 && s.len() >= 3 && is_hex_digit(s[1]) && is_hex_digit(s[2]) {
        seq![(hex_value(s[1]) * 16 + hex_value(s[2])) as u8] + pct_decode(s.skip(3))
    } else {
        seq![s[0]] + pct_decode(s.skip(1))
    }
}

fn exec_is_hex_digit(b: u8) -> (r: bool)
    ensures
        r == is_hex_digit(b),
{
    (48 <= b && b <= 57) || (65 <= b && b <= 70) || (97 <= b && b <= 102)
}

fn percent_decode_bytes(v: &[u8]) -> (r: Vec<u8>)
    ensures
        r@ == pct_decode(v@),
{
    let len = v.len();
    let mut out: Vec<u8> = Vec::new();
    let mut i: usize = 0;
    proof {
        assert(v@.skip(0) =~= v@);
    }
    while i < len
        invariant
            len == v@.len(),
            0 <= i <= len,
            pct_decode(v@) == out@ + pct_decode(v@.skip(i as int)),
        decreases len - i,
    {
        let ghost rest = v@.skip(i as int);
        proof {
            assert(rest[0] == v@[i as int]);
        }
        if v[i] == 37 && len - i >= 3 && exec_is_hex_digit(v[i + 1]) && exec_is_hex_digit(v[i + 2])
        {
            proof {
                assert(rest[1] == v@[i + 1]);
                assert(rest[2] == v@[i + 2]);
                assert(rest.skip(3) =~= v@.skip(i + 3));
            }
            let hi = v[i + 1];
            let lo = v[i + 2];
            let hv = if 48 <= hi && hi <= 57 {
                hi - 48
            } else if 65 <= hi && hi <= 70 {
                hi - 55
            } else {
                hi - 87
            };
            let lv = if 48 <= lo && lo <= 57 {
                lo - 48
            } else if 65 <= lo && lo <= 70 {
                lo - 55
            } else {
                lo - 87
            };
            out.push(hv * 16 + lv);
            i += 3;
        } else {
            proof {
                assert(rest.skip(1) =~= v@.skip(i + 1));
            }
            out.push(v[i]);
            i += 1;
        }
    }
    proof {
        assert(v@.skip(len as int) =~= Seq::<u8>::empty());
        assert(out@ + Seq::<u8>::empty() =~= out@);
    }
    out
}

fn bytes_contain(v: &[u8], b: u8) -> (r: bool)
    ensures
        r == v@.contains(b),
{
    let len = v.len();
    let mut i: usize = 0;
    while i < len
        invariant
            len == v@.len(),
            0 <= i <= len,
            forall|j: int| 0 <= j < i ==> v@[j] != b,
        decreases len - i,
    {
        if v[i] == b {
            return true;
        }
        i += 1;
    }
    false
}

fn bytes_contain_pair(v: &[u8], a: u8, b: u8) -> (r: bool)
    ensures
        r == has_substring(v@, seq![a, b]),
{
    let len = v.len();
    if len < 2 {
        return false;
    }
    let mut i: usize = 0;
    while i < len - 1
        invariant
            len == v@.len(),
            2 <= len,
            0 <= i <= len - 1,
            forall|j: int| 0 <= j < i ==> #[trigger] v@.subrange(j, j + 2) != seq![a, b],
        decreases len - i,
    {
        if v[i] == a && v[i + 1] == b {
            proof {
                assert(v@.subrange(i as int, i + 2) =~= seq![a, b]);
            }
            return true;
        }
        proof {
            assert(v@.subrange(i as int, i + 2)[0] == v@[i as int]);
            assert(v@.subrange(i as int, i + 2)[1] == v@[i + 1]);
        }
        i += 1;
    }
    proof {
        assert forall|j: int| 0 <= j && j + 2 <= len implies #[trigger] v@.subrange(j, j + 2)
            != seq![a, b] by {
            assert(j < len - 1);
        }
    }
    false
}

/// The path-safety predicate: after stripping leading slashes the path is
/// non-empty, holds no `".."` or backslash (checked on the raw characters
/// and again on the percent-decoded bytes), no embedded scheme, no
/// `"file:"` or `"data:"` prefix, and no NUL.
pub open spec fn path_safe(path: Seq<char>) -> bool {
    let n = trim_leading_char(path, '/');
    let d = pct_decode(vstd::utf8::encode_utf8(n));
    &&& n.len() > 0
    &&& !has_substring(n, seq!['.', '.'])
    &&& !n.contains('\\')
    &&& !has_substring(n, seq![':', '/', '/'])
    &&& !has_prefix(n, seq!['f', 'i', 'l', 'e', ':'])
    &&& !has_prefix(n, seq!['d', 'a', 't', 'a', ':'])
    &&& !has_substring(d, seq![46u8, 46u8])
    &&& !d.contains(92u8)
    &&& !n.contains('\u{0}')
}

/// Whether a caller-supplied request path is safe to forward.
pub fn is_path_safe(path: &str) -> (r: bool)
    ensures
        r == path_safe(path@),
{
    proof {
        reveal_strlit("..");
        reveal_strlit("://");
        reveal_strlit("file:");
        reveal_strlit("data:");
        assert(".."@ =~= seq!['.', '.']);
        assert("://"@ =~= seq![':', '/', '/']);
        assert("file:"@ =~= seq!['f', 'i', 'l', 'e', ':']);
        assert("data:"@ =~= seq!['d', 'a', 't', 'a', ':']);
    }
    let normalized = strip_leading(path, '/');
    if normalized.unicode_len() == 0 {
        return false;
    }
    if str_contains(normalized, "..") || str_contains_char(normalized, '\\') {
        return false;
    }
    if str_contains(normalized, "://") || str_starts_with(normalized, "file:")
        || str_starts_with(normalized, "data:") {
        return false;
    }
    let raw = normalized.as_bytes_vec();
    let decoded = percent_decode_bytes(raw.as_slice());
    if bytes_contain_pair(decoded.as_slice(), 46, 46) || bytes_contain(decoded.as_slice(), 92) {
        return false;
    }
    if str_contains_char(normalized, '\u{0}') {
        return false;
    }
    true
}

/// Whether the `url` crate accepts `s` as an absolute URL.
pub uninterp spec fn url_parses(s: Seq<char>) -> bool;

/// The scheme that `url::Url::parse` reads out of `s`, when `s` parses.
pub uninterp spec fn url_scheme_of(s: Seq<char>) -> Seq<char>;

/// Relies on `url::Url::parse` (whether `s` is an absolute URL) and
/// `url::Url::scheme` (the parsed scheme, lowercased by the parser).
#[verifier::external_body]
fn url_parse_scheme(s: &str) -> (r: Option<String>)
    ensures
        r is Some <==> url_parses(s@),
        r is Some ==> r->0@ == url_scheme_of(s@),
{
    url::Url::parse(s).ok().map(|u| u.scheme().to_string())
}

/// The base URL, after dropping trailing slashes, parses with scheme
/// `http` or `https`.
pub open spec fn base_url_ok(u: Seq<char>) -> bool {
    let t = trim_trailing_char(u, '/');
    url_parses(t) && (url_scheme_of(t) == "http"@ || url_scheme_of(t) == "https"@)
}

/// Checks that a base URL is absolute with an `http` or `https` scheme and
/// returns it with trailing slashes removed.
pub fn validate_base_url(url: &str) -> (r: Result<String, AppError>)
    ensures
        r is Ok <==> base_url_ok(url@),
        r is Ok ==> r->Ok_0@ == trim_trailing_char(url@, '/'),
        !url_parses(trim_trailing_char(url@, '/')) <==> (r matches Err(AppError::Config(m))
            && m@ == "Invalid base URL"@),
        (url_parses(trim_trailing_char(url@, '/')) && !base_url_ok(url@)) <==> (r matches Err(
            AppError::Config(m),
        ) && m@ == "Base URL must use http or https scheme"@),
{
    proof {
        reveal_strlit("http");
        reveal_strlit("https");
        reveal_strlit("Invalid base URL");
        reveal_strlit("Base URL must use http or https scheme");
        assert("Invalid base URL"@.len() == 16);
        assert("Base URL must use http or https scheme"@.len() == 38);
    }
    let url_str = strip_trailing(url, '/');
    let scheme = match url_parse_scheme(url_str) {
        Some(s) => s,
        None => {
            return Err(AppError::Config(String::from_str("Invalid base URL")));
        },
    };
    if !crate::strutil::str_eq(scheme.as_str(), "http") && !crate::strutil::str_eq(
        scheme.as_str(),
        "https",
    ) {
        return Err(AppError::Config(String::from_str("Base URL must use http or https scheme")));
    }
    Ok(String::from_str(url_str))
}

/// The methods the gateway forwards.
#[derive(Debug, Clone, Copy, PartialEq, Eq, Structural)]
pub enum HttpMethod {
    Get,
    Post,
    Delete,
}

/// `m` spells GET in any letter case.
pub open spec fn spells_get(m: Seq<char>) -> bool {
    m.len() == 3 && (m[0] == 'G' || m[0] == 'g') && (m[1] == 'E' || m[1] == 'e') && (m[2] == 'T'
        || m[2] == 't')
}

/// `m` spells POST in any letter case.
pub open spec fn spells_post(m: Seq<char>) -> bool {
    m.len() == 4 && (m[0] == 'P' || m[0] == 'p') && (m[1] == 'O' || m[1] == 'o') && (m[2] == 'S'
        || m[2] == 's') && (m[3] == 'T' || m[3] == 't')
}

/// `m` spells DELETE in any letter case.
pub open spec fn spells_delete(m: Seq<char>) -> bool {
    m.len() == 6 && (m[0] == 'D' || m[0] == 'd') && (m[1] == 'E' || m[1] == 'e') && (m[2] == 'L'
        || m[2] == 'l') && (m[3] == 'E' || m[3] == 'e') && (m[4] == 'T' || m[4] == 't') && (m[5]
        == 'E' || m[5] == 'e')
}

/// The method allow-list: GET, POST and DELETE.
pub open spec fn method_allowed(m: Seq<char>) -> bool {
    spells_get(m) || spells_post(m) || spells_delete(m)
}

pub open spec fn spec_method(m: Seq<char>) -> HttpMethod {
    if spells_get(m) {
        HttpMethod::Get
    } else if spells_post(m) {
        HttpMethod::Post
    } else {
        HttpMethod::Delete
    }
}

fn char_in(c: char, upper: char, lower: char) -> (r: bool)
    ensures
        r == (c == upper || c == lower),
{
    c == upper || c == lower
}

/// Reads a method name, case-insensitively, against the allow-list.
pub fn parse_method(m: &str) -> (r: Option<HttpMethod>)
    ensures
        r is Some <==> method_allowed(m@),
        r is Some ==> r->0 == spec_method(m@),
{
    let len = m.unicode_len();
    if len == 3 {
        if char_in(m.get_char(0), 'G', 'g') && char_in(m.get_char(1), 'E', 'e') && char_in(
            m.get_char(2),
            'T',
            't',
        ) {
            return Some(HttpMethod::Get);
        }
    } else if len == 4 {
        if char_in(m.get_char(0), 'P', 'p') && char_in(m.get_char(1), 'O', 'o') && char_in(
            m.get_char(2),
            'S',
            's',
        ) && char_in(m.get_char(3), 'T', 't') {
            return Some(HttpMethod::Post);
        }
    } else if len == 6 {
        if char_in(m.get_char(0), 'D', 'd') && char_in(m.get_char(1), 'E', 'e') && char_in(
            m.get_char(2),
            'L',
            'l',
        ) && char_in(m.get_char(3), 'E', 'e') && char_in(m.get_char(4), 'T', 't') && char_in(
            m.get_char(5),
            'E',
            'e',
        ) {
            return Some(HttpMethod::Delete);
        }
    }
    None
}

/// A fully validated outbound request, ready to be issued: the target is
/// `base_url + "/" + path`, with `bearer` attached as the bearer credential
/// and the caller's timeout.
#[derive(Debug)]
pub struct PreparedRequest {
    pub method: HttpMethod,
    pub base_url: String,
    pub path: String,
    pub bearer: String,
    pub timeout_seconds: u64,
}

pub open spec fn opt_view(o: Option<&str>) -> Option<Seq<char>> {
    match o {
        Some(s) => Some(s@),
        None => None,
    }
}

/// Which secret a call uses: an explicit override is honored only under a
/// development configuration and only when nothing is cached — it never
/// shadows an unlocked secret; otherwise the cached secret is required.
pub open spec fn resolved_secret(
    ovr: Option<Seq<char>>,
    cached: Option<Seq<char>>,
    allow_override: bool,
) -> Option<Seq<char>> {
    if allow_override && ovr is Some && trimmed(ovr->0).len() > 0 && cached is None {
        Some(trimmed(ovr->0))
    } else if cached is Some {
        Some(cached->0)
    } else {
        None
    }
}

pub open spec fn cached_view(c: Option<&String>) -> Option<Seq<char>> {
    match c {
        Some(s) => Some(s@),
        None => None,
    }
}

/// The request path after stripping leading slashes.
pub open spec fn normalized_path(p: Seq<char>) -> Seq<char> {
    trim_leading_char(p, '/')
}

/// `path` is safe and lies under the backend's `api/` namespace.
pub open spec fn call_path_ok(p: Seq<char>) -> bool {
    path_safe(p) && has_prefix(normalized_path(p), seq!['a', 'p', 'i', '/'])
}

/// Validates one outbound call, in order: method, path, timeout, base URL,
/// secret resolution.  Each check has its own rejection, and no secret is
/// attached unless every check passes.
pub fn validate_call(
    method: &str,
    path: &str,
    timeout_seconds: u64,
    base_url: &str,
    api_key_override: Option<&str>,
    cached_key: Option<&String>,
    allow_override: bool,
) -> (r: Result<PreparedRequest, AppError>)
    ensures
        !method_allowed(method@) <==> (r matches Err(AppError::Config(m)) && m@
            == "Only GET, POST, and DELETE are allowed"@),
        (method_allowed(method@) && !path_safe(path@)) <==> (r matches Err(AppError::Config(m))
            && m@ == "Invalid path"@),
        (method_allowed(method@) && path_safe(path@) && !has_prefix(
            normalized_path(path@),
            seq!['a', 'p', 'i', '/'],
        )) <==> (r matches Err(AppError::Config(m)) && m@ == "Path must start with /api/"@),
        (method_allowed(method@) && call_path_ok(path@) && !(1 <= timeout_seconds
            && timeout_seconds <= 300)) <==> (r matches Err(AppError::Config(m)) && m@
            == "Timeout must be between 1 and 300 seconds"@),
        (method_allowed(method@) && call_path_ok(path@) && 1 <= timeout_seconds
            && timeout_seconds <= 300 && trimmed(base_url@).len() == 0) <==> (r matches Err(
            AppError::Config(m),
        ) && m@ == "Base URL cannot be empty"@),
        (method_allowed(method@) && call_path_ok(path@) && 1 <= timeout_seconds
            && timeout_seconds <= 300 && trimmed(base_url@).len() != 0 && !url_parses(
            trim_trailing_char(base_url@, '/'),
        )) <==> (r matches Err(AppError::Config(m)) && m@ == "Invalid base URL"@),
        (method_allowed(method@) && call_path_ok(path@) && 1 <= timeout_seconds
            && timeout_seconds <= 300 && trimmed(base_url@).len() != 0 && url_parses(
            trim_trailing_char(base_url@, '/'),
        ) && !base_url_ok(base_url@)) <==> (r matches Err(AppError::Config(m)) && m@
            == "Base URL must use http or https scheme"@),
        (method_allowed(method@) && call_path_ok(path@) && 1 <= timeout_seconds
            && timeout_seconds <= 300 && trimmed(base_url@).len() != 0 && base_url_ok(base_url@)
            && resolved_secret(
            opt_view(api_key_override),
            cached_view(cached_key),
            allow_override,
        ) is None) <==> r == Err::<PreparedRequest, AppError>(AppError::MissingApiKey),
        r is Ok <==> (method_allowed(method@) && call_path_ok(path@) && 1 <= timeout_seconds
            && timeout_seconds <= 300 && trimmed(base_url@).len() != 0 && base_url_ok(base_url@)
            && resolved_secret(
            opt_view(api_key_override),
            cached_view(cached_key),
            allow_override,
        ) is Some),
        r is Ok ==> {
            let p = r->Ok_0;
            &&& p.method == spec_method(method@)
            &&& p.base_url@ == trim_trailing_char(base_url@, '/')
            &&& p.path@ == normalized_path(path@)
            &&& Some(p.bearer@) == resolved_secret(
                opt_view(api_key_override),
                cached_view(cached_key),
                allow_override,
            )
            &&& p.timeout_seconds == timeout_seconds
        },
{
    proof {
        reveal_strlit("api/");
        assert("api/"@ =~= seq!['a', 'p', 'i', '/']);
        reveal_strlit("Only GET, POST, and DELETE are allowed");
        reveal_strlit("Invalid path");
        reveal_strlit("Path must start with /api/");
        reveal_strlit("Timeout must be between 1 and 300 seconds");
        reveal_strlit("Base URL cannot be empty");
        reveal_strlit("Invalid base URL");
        reveal_strlit("Base URL must use http or https scheme");
        assert("Only GET, POST, and DELETE are allowed"@.len() == 38);
        assert("Invalid path"@.len() == 12);
        assert("Path must start with /api/"@.len() == 26);
        assert("Timeout must be between 1 and 300 seconds"@.len() == 41);
        assert("Base URL cannot be empty"@.len() == 24);
        assert("Invalid base URL"@.len() == 16);
        assert("Base URL must use http or https scheme"@.len() == 38);
        assert("Only GET, POST, and DELETE are allowed"@[0] == 'O');
        assert("Base URL must use http or https scheme"@[0] == 'B');
    }
    let req_method = match parse_method(method) {
        Some(m) => m,
        None => {
            return Err(
                AppError::Config(String::from_str("Only GET, POST, and DELETE are allowed")),
            );
        },
    };
    if !is_path_safe(path) {
        return Err(AppError::Config(String::from_str("Invalid path")));
    }
    let path_normalized = strip_leading(path, '/');
    if !str_starts_with(path_normalized, "api/") {
        return Err(AppError::Config(String::from_str("Path must start with /api/")));
    }
    if !(1 <= timeout_seconds && timeout_seconds <= 300) {
        return Err(AppError::Config(String::from_str("Timeout must be between 1 and 300 seconds")));
    }
    if str_is_blank(base_url) {
        return Err(AppError::Config(String::from_str("Base URL cannot be empty")));
    }
    let validated_base = match validate_base_url(base_url) {
        Ok(b) => b,
        Err(e) => {
            return Err(e);
        },
    };
    let bearer: String = match resolve_secret(api_key_override, cached_key, allow_override) {
        Some(k) => k,
        None => {
            return Err(AppError::MissingApiKey);
        },
    };
    Ok(
        PreparedRequest {
            method: req_method,
            base_url: validated_base,
            path: String::from_str(path_normalized),
            bearer,
            timeout_seconds,
        },
    )
}

/// Picks the secret a call will use, per `resolved_secret`.
fn resolve_secret(
    api_key_override: Option<&str>,
    cached_key: Option<&String>,
    allow_override: bool,
) -> (r: Option<String>)
    ensures
        match resolved_secret(opt_view(api_key_override), cached_view(cached_key), allow_override) {
            Some(s) => r is Some && r->0@ == s,
            None => r is None,
        },
{
    if allow_override {
        if let Some(ovr) = api_key_override {
            let trimmed_ovr = str_trim(ovr);
            if trimmed_ovr.unicode_len() > 0 && cached_key.is_none() {
                return Some(String::from_str(trimmed_ovr));
            }
        }
    }
    match cached_key {
        Some(k) => Some(k.clone()),
        None => None,
    }
}

/// The outcome of an issued call: the backend's status and body, passed
/// through as data.
#[derive(Debug)]
pub struct ApiResponse {
    pub status: u16,
    pub body: String,
}

/// Translates a transport-level answer: HTTP 401 becomes the distinct
/// credential-rejected condition, so the caller can invalidate the cache;
/// every other status passes through with its body.
pub fn interpret_response(status: u16, body: String) -> (r: Result<ApiResponse, AppError>)
    ensures
        status == 401 <==> r == Err::<ApiResponse, AppError>(AppError::ApiKeyRejected),
        status != 401 ==> r is Ok && r->Ok_0.status == status && r->Ok_0.body@ == body@,
{
    if status == 401 {
        return Err(AppError::ApiKeyRejected);
    }
    Ok(ApiResponse { status, body })
}

} // verus!
