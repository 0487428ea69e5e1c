//! Feed refresh policy: which feed URLs may be fetched at all, and which
//! resolved addresses are safe to contact.  The fetch itself, the parsing
//! of the feed body and the storage of items happen in the application
//! layer, which consults these checks first.

use vstd::prelude::*;
use vstd::string::*;

use crate::gateway::{url_parses, url_scheme_of};
use crate::numstr::{dec_str, dec_str_i64, i64_to_dec, u64_to_dec};
use crate::strutil::str_eq;

verus! {

/// The largest feed body that will be parsed, in bytes.
pub const MAX_FEED_BYTES: usize = 2097152;

/// The outcome of one feed refresh, reported upward.
#[derive(Debug)]
pub struct FeedResult {
    pub feed_id: i64,
    pub url: String,
    pub items_inserted: usize,
    pub duplicates_skipped: usize,
    pub error: Option<String>,
}

/// The username component the `url` crate reads out of `s`, when it parses.
pub uninterp spec fn url_username_of(s: Seq<char>) -> Seq<char>;

/// The password component the `url` crate reads out of `s`, when it parses.
pub uninterp spec fn url_password_of(s: Seq<char>) -> Option<Seq<char>>;

/// The host component the `url` crate reads out of `s`, when it parses.
pub uninterp spec fn url_host_of(s: Seq<char>) -> Option<Seq<char>>;

/// The display text of the `url` crate's parse error on `s`, when it does
/// not parse.
pub uninterp spec fn url_err_of(s: Seq<char>) -> Seq<char>;

/// Relies on `url::Url::parse` and its accessors `scheme`, `username`,
/// `password` and `host_str`, plus the parse error's `Display`: all are
/// functions of the input string alone.
#[verifier::external_body]
fn url_components(s: &str) -> (r: Result<(String, String, Option<String>, Option<String>), String>)
    ensures
        r is Ok <==> url_parses(s@),
        r is Ok ==> {
            &&& r->Ok_0.0@ == url_scheme_of(s@)
            &&& r->Ok_0.1@ == url_username_of(s@)
            &&& (r->Ok_0.2 is Some <==> url_password_of(s@) is Some)
            &&& (r->Ok_0.3 is Some <==> url_host_of(s@) is Some)
        },
        r is Err ==> r->Err_0@ == url_err_of(s@),
{
    match url::Url::parse(s) {
        Ok(u) => Ok(
            (
                u.scheme().to_string(),
                u.username().to_string(),
                u.password().map(|p| p.to_string()),
                u.host_str().map(|h| h.to_string()),
            ),
        ),
        Err(e) => Err(e.to_string()),
    }
}

/// The checks a feed URL must pass before any fetch: it parses, uses
/// HTTPS, carries no userinfo, and names a host.
pub open spec fn feed_url_rejection(u: Seq<char>) -> Option<Seq<char>> {
    if !url_parses(u) {
        Some("Invalid URL: "@ + url_err_of(u))
    } else if url_scheme_of(u) != "https"@ {
        Some("URL must use HTTPS scheme"@)
    } else if url_username_of(u).len() != 0 || url_password_of(u) is Some {
        Some("URL must not contain userinfo"@)
    } else if url_host_of(u) is None {
        Some("URL missing host"@)
    } else {
        None
    }
}

/// Screens a feed URL; a rejected URL is never fetched.
pub fn check_feed_url(url: &str) -> (r: Option<String>)
    ensures
        match feed_url_rejection(url@) {
            Some(m) => r is Some && r->0@ == m,
            None => r is None,
        },
{
    proof {
        reveal_strlit("https");
        reveal_strlit("Invalid URL: ");
    }
    let parts = match url_components(url) {
        Ok(p) => p,
        Err(e) => {
            let mut out = String::from_str("Invalid URL: ");
            out.append(e.as_str());
            return Some(out);
        },
    };
    let (scheme, username, password, host) = parts;
    if !str_eq(scheme.as_str(), "https") {
        return Some(String::from_str("URL must use HTTPS scheme"));
    }
    if !username.as_str().is_empty() || password.is_some() {
        return Some(String::from_str("URL must not contain userinfo"));
    }
    if host.is_none() {
        return Some(String::from_str("URL missing host"));
    }
    None
}

/// A resolved host address, as plain values.
#[derive(Debug, Clone, Copy, PartialEq, Eq, Structural)]
pub enum HostIp {
    V4(u8, u8, u8, u8),
    V6(u16, u16, u16, u16, u16, u16, u16, u16),
}

/// Globally routable addresses: for IPv4 not private, loopback,
/// link-local, multicast or unspecified; for IPv6 not loopback,
/// link-local, unspecified, unique-local or multicast.
pub open spec fn ip_is_global(ip: HostIp) -> bool {
    match ip {
        HostIp::V4(a, b, c, d) => {
            &&& !(a == 10)
            &&& !(a == 172 && 16 <= b && b <= 31)
            &&& !(a == 192 && b == 168)
            &&& !(a == 127)
            &&& !(a == 169 && b == 254)
            &&& !(224 <= a && a <= 239)
            &&& !(a == 0 && b == 0 && c == 0 && d == 0)
        },
        HostIp::V6(s0, s1, s2, s3, s4, s5, s6, s7) => {
            &&& !(s0 == 0 && s1 == 0 && s2 == 0 && s3 == 0 && s4 == 0 && s5 == 0 && s6 == 0 && s7
                == 1)
            &&& !(s0 & 0xffc0 == 0xfe80)
            &&& !(s0 == 0 && s1 == 0 && s2 == 0 && s3 == 0 && s4 == 0 && s5 == 0 && s6 == 0 && s7
                == 0)
            &&& !(s0 & 0xfe00 == 0xfc00)
            &&& !(s0 & 0xff00 == 0xff00)
        },
    }
}

/// Whether one resolved address is globally routable.
pub fn is_global_ip(ip: &HostIp) -> (r: bool)
    ensures
        r == ip_is_global(*ip),
{
    match *ip {
        HostIp::V4(a, b, c, d) => {
            let private = a == 10 || (a == 172 && 16 <= b && b <= 31) || (a == 192 && b == 168);
            let loopback = a == 127;
            let link_local = a == 169 && b == 254;
            let multicast = 224 <= a && a <= 239;
            let unspecified = a == 0 && b == 0 && c == 0 && d == 0;
            !private && !loopback && !link_local && !multicast && !unspecified
        },
        HostIp::V6(s0, s1, s2, s3, s4, s5, s6, s7) => {
            let head_zero = s0 == 0 && s1 == 0 && s2 == 0 && s3 == 0 && s4 == 0 && s5 == 0 && s6
                == 0;
            let loopback = head_zero && s7 == 1;
            let unspecified = head_zero && s7 == 0;
            let link_local = s0 & 0xffc0 == 0xfe80;
            let unique_local = s0 & 0xfe00 == 0xfc00;
            let multicast = s0 & 0xff00 == 0xff00;
            !loopback && !link_local && !unspecified && !unique_local && !multicast
        },
    }
}

/// Rejects a feed body that exceeds the size cap, naming both sizes.
pub fn check_feed_size(len: usize) -> (r: Option<String>)
    ensures
        r is Some <==> len > MAX_FEED_BYTES,
        r is Some ==> r->0@ == "Feed too large: "@ + dec_str(len as int) + " bytes (max "@
            + dec_str(MAX_FEED_BYTES as int) + ")"@,
{
    if len <= MAX_FEED_BYTES {
        return None;
    }
    let mut out = String::from_str("Feed too large: ");
    let d = u64_to_dec(len as u64);
    out.append(d.as_str());
    out.append(" bytes (max ");
    let m = u64_to_dec(MAX_FEED_BYTES as u64);
    out.append(m.as_str());
    out.append(")");
    proof {
        assert(out@ =~= "Feed too large: "@ + dec_str(len as int) + " bytes (max "@ + dec_str(
            MAX_FEED_BYTES as int,
        ) + ")"@);
    }
    Some(out)
}

/// A feed item's stored identity: its own id, or its link when the id is
/// empty.
pub fn item_guid(entry_id: &str, link: &str) -> (r: String)
    ensures
        r@ == if entry_id@.len() == 0 {
            link@
        } else {
            entry_id@
        },
{
    if entry_id.is_empty() {
        String::from_str(link)
    } else {
        String::from_str(entry_id)
    }
}

/// A feed item's stored description: the content body when one is present,
/// else the summary.
pub fn item_description(content_body: Option<String>, summary: Option<String>) -> (r: Option<
    String,
>)
    ensures
        content_body is Some ==> r == content_body,
        content_body is None ==> r == summary,
{
    match content_body {
        Some(b) => Some(b),
        None => summary,
    }
}

/// The message rejecting an operation on an unknown feed.
pub fn feed_not_found_error(id: i64) -> (r: String)
    ensures
        r@ == "Feed with id "@ + dec_str_i64(id as int) + " not found"@,
{
    let mut out = String::from_str("Feed with id ");
    let d = i64_to_dec(id);
    out.append(d.as_str());
    out.append(" not found");
    out
}

/// One feed's failure inside a refresh summary.
#[derive(Debug, Clone)]
pub struct FeedRefreshError {
    pub feed_id: i64,
    pub url: String,
    pub error: String,
}

/// The aggregate outcome of refreshing every feed.
#[derive(Debug, Clone)]
pub struct RefreshSummary {
    pub feeds_processed: usize,
    pub items_inserted: usize,
    pub duplicates_skipped: usize,
    pub errors: Vec<FeedRefreshError>,
}

pub open spec fn total_inserted(rs: Seq<FeedResult>) -> int
    decreases rs.len(),
{
    if rs.len() == 0 {
        0
    } else {
        total_inserted(rs.drop_last()) + rs.last().items_inserted
    }
}

pub open spec fn total_skipped(rs: Seq<FeedResult>) -> int
    decreases rs.len(),
{
    if rs.len() == 0 {
        0
    } else {
        total_skipped(rs.drop_last()) + rs.last().duplicates_skipped
    }
}

/// The failures among the results, in order, as summary entries.
pub open spec fn error_entries(rs: Seq<FeedResult>) -> Seq<FeedRefreshError>
    decreases rs.len(),
{
    if rs.len() == 0 {
        Seq::empty()
    } else {
        let rest = error_entries(rs.drop_last());
        match rs.last().error {
            Some(e) => rest.push(
                FeedRefreshError { feed_id: rs.last().feed_id, url: rs.last().url, error: e },
            ),
            None => rest,
        }
    }
}

proof fn lemma_totals_monotone(rs: Seq<FeedResult>, i: int)
    requires
        0 <= i <= rs.len(),
    ensures
        total_inserted(rs.take(i)) <= total_inserted(rs),
        total_skipped(rs.take(i)) <= total_skipped(rs),
        total_inserted(rs.take(i)) >= 0,
        total_skipped(rs.take(i)) >= 0,
    decreases rs.len(),
{
    if i < rs.len() {
        assert(rs.drop_last().take(i) =~= rs.take(i));
        lemma_totals_monotone(rs.drop_last(), i);
    } else {
        assert(rs.take(i) =~= rs);
        if rs.len() > 0 {
            lemma_totals_monotone(rs.drop_last(), rs.len() - 1);
            assert(rs.drop_last().take(rs.len() - 1) =~= rs.drop_last());
        }
    }
}

/// Folds the per-feed results into one summary: counts of processed feeds,
/// inserted items and skipped duplicates, and the list of failures.
pub fn summarize_refresh(results: &Vec<FeedResult>) -> (r: RefreshSummary)
    requires
        total_inserted(results@) <= usize::MAX,
        total_skipped(results@) <= usize::MAX,
    ensures
        r.feeds_processed == results@.len(),
        r.items_inserted == total_inserted(results@),
        r.duplicates_skipped == total_skipped(results@),
        r.errors@ == error_entries(results@),
{
    let mut items_inserted: usize = 0;
    let mut duplicates_skipped: usize = 0;
    let mut errors: Vec<FeedRefreshError> = Vec::new();
    let mut i: usize = 0;
    proof {
        assert(results@.take(0) =~= Seq::<FeedResult>::empty());
    }
    while i < results.len()
        invariant
            0 <= i <= results@.len(),
            total_inserted(results@) <= usize::MAX,
            total_skipped(results@) <= usize::MAX,
            items_inserted == total_inserted(results@.take(i as int)),
            duplicates_skipped == total_skipped(results@.take(i as int)),
            errors@ == error_entries(results@.take(i as int)),
        decreases results@.len() - i,
    {
        proof {
            assert(results@.take(i + 1).drop_last() =~= results@.take(i as int));
            assert(results@.take(i + 1).last() == results@[i as int]);
            lemma_totals_monotone(results@, i + 1);
        }
        let result = &results[i];
        items_inserted = items_inserted + result.items_inserted;
        duplicates_skipped = duplicates_skipped + result.duplicates_skipped;
        match &result.error {
            Some(e) => {
                errors.push(
                    FeedRefreshError {
                        feed_id: result.feed_id,
                        url: result.url.clone(),
                        error: e.clone(),
                    },
                );
            },
            None => {},
        }
        i += 1;
    }
    proof {
        assert(results@.take(results@.len() as int) =~= results@);
    }
    RefreshSummary {
        feeds_processed: results.len(),
        items_inserted,
        duplicates_skipped,
        errors,
    }
}

/// Screens a host's resolved addresses: every one must be globally
/// routable, else the fetch is refused.
pub fn check_addrs_global(addrs: &Vec<HostIp>) -> (r: Option<String>)
    ensures
        r is None <==> (forall|i: int| 0 <= i < addrs@.len() ==> ip_is_global(#[trigger] addrs@[i])),
        r is Some ==> r->0@ == "refusing to fetch non-global address"@,
{
    let mut i: usize = 0;
    while i < addrs.len()
        invariant
            0 <= i <= addrs@.len(),
            forall|j: int| 0 <= j < i ==> ip_is_global(#[trigger] addrs@[j]),
        decreases addrs@.len() - i,
    {
        if !is_global_ip(&addrs[i]) {
            return Some(String::from_str("refusing to fetch non-global address"));
        }
        i += 1;
    }
    None
}

} // verus!
