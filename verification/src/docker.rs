//! Container-service helpers: response models, status mapping, uptime
//! parsing and port formatting.  The service's transport lives outside;
//! everything here is plain computation over the values it hands back.

use vstd::prelude::*;
use vstd::string::*;

use crate::numstr::{dec_str, parse_i64, parse_i64_spec};
use crate::strutil::{has_prefix, str_eq, str_starts_with};

verus! {

/// One container's status in a listing.
#[derive(Debug, Clone)]
pub struct ContainerStatus {
    pub name: String,
    pub display_status: String,
    pub state: String,
    pub health_status: Option<String>,
    pub uptime_seconds: Option<i64>,
    pub image: String,
    pub ports: Vec<String>,
    pub labels: Vec<(String, String)>,
    pub created_at: String,
    pub restart_count: i32,
}

/// A whole listing with its timestamp.
#[derive(Debug, Clone)]
pub struct ContainerListResponse {
    pub containers: Vec<ContainerStatus>,
    pub timestamp: String,
}

#[derive(Debug, Clone)]
pub struct RestartResponse {
    pub success: bool,
    pub message: String,
}

#[derive(Debug, Clone, Copy, PartialEq, Eq, Structural)]
pub struct RestartRequest {
    pub timeout_seconds: u64,
}

#[derive(Debug, Clone)]
pub struct StartResponse {
    pub success: bool,
    pub message: String,
}

#[derive(Debug, Clone)]
pub struct StopResponse {
    pub success: bool,
    pub message: String,
    pub stopped: bool,
}

#[derive(Debug, Clone, Copy, PartialEq, Eq, Structural)]
pub struct StopRequest {
    pub timeout_seconds: u64,
}

/// Query parameters of a log request.
#[derive(Debug, Clone)]
pub struct LogsQuery {
    pub tail: Option<usize>,
    pub since: Option<String>,
    pub timestamps: bool,
}

/// The timeout a restart or stop request falls back to.
pub fn default_timeout() -> (r: u64)
    ensures
        r == 10,
{
    10
}

/// The tail a log request falls back to, and its bounds.
pub fn clamp_log_tail(tail: Option<usize>) -> (r: Option<usize>)
    ensures
        r == Some(
            {
                let v = if tail is Some {
                    tail->0 as int
                } else {
                    100
                };
                if v < 1 {
                    1
                } else if v > 1000 {
                    1000
                } else {
                    v
                }
            } as usize,
        ),
{
    let value = match tail {
        Some(v) => v,
        None => 100,
    };
    let clamped = if value < 1 {
        1
    } else if value > 1000 {
        1000
    } else {
        value
    };
    Some(clamped)
}

/// The first index at which `c` occurs in `s`, or -1.
pub open spec fn first_index_of(s: Seq<char>, c: char) -> int
    decreases s.len(),
{
    if s.len() == 0 {
        -1
    } else if s[0] == c {
        0
    } else if first_index_of(s.drop_first(), c) == -1 {
        -1
    } else {
        first_index_of(s.drop_first(), c) + 1
    }
}

proof fn lemma_first_index_of(s: Seq<char>, c: char, k: int)
    requires
        0 <= k <= s.len(),
        forall|i: int| 0 <= i < k ==> s[i] != c,
        k < s.len() ==> s[k] == c,
    ensures
        first_index_of(s, c) == if k == s.len() {
            -1int
        } else {
            k
        },
    decreases k,
{
    if s.len() == 0 {
    } else if k == 0 {
    } else {
        assert(forall|i: int| 0 <= i < k - 1 ==> #[trigger] s.drop_first()[i] == s[i + 1]);
        lemma_first_index_of(s.drop_first(), c, k - 1);
    }
}

fn str_find_char(s: &str, c: char) -> (r: Option<usize>)
    ensures
        match r {
            Some(i) => first_index_of(s@, c) == i && i < s@.len(),
            None => first_index_of(s@, c) == -1,
        },
{
    let len = s.unicode_len();
    let mut i: usize = 0;
    while i < len
        invariant
            len == s@.len(),
            0 <= i <= len,
            forall|j: int| 0 <= j < i ==> s@[j] != c,
        decreases len - i,
    {
        if s.get_char(i) == c {
            proof {
                lemma_first_index_of(s@, c, i as int);
            }
            return Some(i);
        }
        i += 1;
    }
    proof {
        lemma_first_index_of(s@, c, len as int);
    }
    None
}

/// What a container's human status line yields as an uptime: `"Up "`, a
/// number, a space and a unit of seconds, minutes, hours or days; the
/// product must fit a signed 64-bit count of seconds.
pub open spec fn uptime_spec(status: Option<Seq<char>>) -> Option<int> {
    if status is None {
        None
    } else {
        let s = status->0;
        if !has_prefix(s, seq!['U', 'p', ' ']) {
            None
        } else {
            let rest = s.skip(3);
            let sp = first_index_of(rest, ' ');
            if sp == -1 {
                None
            } else {
                match parse_i64_spec(rest.take(sp)) {
                    None => None,
                    Some(v) => {
                        let unit = rest.skip(sp + 1);
                        let mult: int = if has_prefix(
                            unit,
                            seq!['s', 'e', 'c', 'o', 'n', 'd'],
                        ) {
                            1
                        } else if has_prefix(unit, seq!['m', 'i', 'n', 'u', 't', 'e']) {
                            60
                        } else if has_prefix(unit, seq!['h', 'o', 'u', 'r']) {
                            3600
                        } else if has_prefix(unit, seq!['d', 'a', 'y']) {
                            86400
                        } else {
                            0
                        };
                        if mult == 0 {
                            None
                        } else if i64::MIN <= v * mult && v * mult <= i64::MAX {
                            Some(v * mult)
                        } else {
                            None
                        }
                    },
                }
            }
        }
    }
}

/// Reads an uptime in seconds out of a status line such as `"Up 5 minutes"`.
pub fn parse_uptime_seconds(status: Option<&str>) -> (r: Option<i64>)
    ensures
        match uptime_spec(
            match status {
                Some(s) => Some(s@),
                None => None,
            },
        ) {
            Some(v) => r == Some(v as i64),
            None => r is None,
        },
{
    proof {
        reveal_strlit("Up ");
        reveal_strlit("second");
        reveal_strlit("minute");
        reveal_strlit("hour");
        reveal_strlit("day");
        assert("Up "@ =~= seq!['U', 'p', ' ']);
        assert("second"@ =~= seq!['s', 'e', 'c', 'o', 'n', 'd']);
        assert("minute"@ =~= seq!['m', 'i', 'n', 'u', 't', 'e']);
        assert("hour"@ =~= seq!['h', 'o', 'u', 'r']);
        assert("day"@ =~= seq!['d', 'a', 'y']);
    }
    let s = match status {
        Some(s) => s,
        None => {
            return None;
        },
    };
    if !str_starts_with(s, "Up ") {
        return None;
    }
    let len = s.unicode_len();
    let rest = s.substring_char(3, len);
    let space_idx = match str_find_char(rest, ' ') {
        Some(i) => i,
        None => {
            return None;
        },
    };
    let value_str = rest.substring_char(0, space_idx);
    proof {
        assert(value_str@ =~= rest@.take(space_idx as int));
    }
    let value = match parse_i64(value_str) {
        Some(v) => v,
        None => {
            return None;
        },
    };
    let unit = rest.substring_char(space_idx + 1, rest.unicode_len());
    proof {
        assert(unit@ =~= rest@.skip(space_idx + 1));
    }
    if str_starts_with(unit, "second") {
        Some(value)
    } else if str_starts_with(unit, "minute") {
        value.checked_mul(60)
    } else if str_starts_with(unit, "hour") {
        value.checked_mul(3600)
    } else if str_starts_with(unit, "day") {
        value.checked_mul(86400)
    } else {
        None
    }
}

/// The human-facing status for a container state: `running` and
/// `restarting` pass through, `exited` and `dead` read `stopped`, a missing
/// state reads `unknown`, anything else is passed through as it is.
pub open spec fn display_status_spec(state: Option<Seq<char>>) -> Seq<char> {
    match state {
        None => "unknown"@,
        Some(s) => {
            if s == "running"@ {
                "running"@
            } else if s == "exited"@ || s == "dead"@ {
                "stopped"@
            } else if s == "restarting"@ {
                "restarting"@
            } else {
                s
            }
        },
    }
}

pub fn map_display_status(state: Option<&str>) -> (r: String)
    ensures
        r@ == display_status_spec(
            match state {
                Some(s) => Some(s@),
                None => None,
            },
        ),
{
    match state {
        None => String::from_str("unknown"),
        Some(s) => {
            if str_eq(s, "running") {
                String::from_str("running")
            } else if str_eq(s, "exited") || str_eq(s, "dead") {
                String::from_str("stopped")
            } else if str_eq(s, "restarting") {
                String::from_str("restarting")
            } else {
                String::from_str(s)
            }
        },
    }
}

/// One port in a container summary, as the service reports it.
#[derive(Debug, Clone)]
pub struct PortInfo {
    pub ip: Option<String>,
    pub private_port: u16,
    pub public_port: Option<u16>,
    pub typ: Option<String>,
}

pub open spec fn opt_text(o: Option<String>) -> Seq<char> {
    match o {
        Some(s) => s@,
        None => Seq::empty(),
    }
}

/// The display line for one summary port: `ip:public->private/type`.
pub open spec fn port_line(p: PortInfo) -> Seq<char> {
    opt_text(p.ip) + seq![':'] + (match p.public_port {
        Some(n) => dec_str(n as int),
        None => Seq::<char>::empty(),
    }) + seq!['-', '>'] + dec_str(p.private_port as int) + seq!['/'] + opt_text(p.typ)
}

/// The port lines of a summary, in order, dropping lines for ports that are
/// not published (`:0->` prefixed).
pub open spec fn port_lines(ps: Seq<PortInfo>) -> Seq<Seq<char>>
    decreases ps.len(),
{
    if ps.len() == 0 {
        Seq::empty()
    } else {
        let rest = port_lines(ps.drop_last());
        let line = port_line(ps.last());
        if has_prefix(line, seq![':', '0', '-', '>']) {
            rest
        } else {
            rest.push(line)
        }
    }
}

fn format_port(p: &PortInfo) -> (r: String)
    ensures
        r@ == port_line(*p),
{
    proof {
        reveal_strlit(":");
        reveal_strlit("->");
        reveal_strlit("/");
        assert(":"@ =~= seq![':']);
        assert("->"@ =~= seq!['-', '>']);
        assert("/"@ =~= seq!['/']);
    }
    let mut line = match &p.ip {
        Some(ip) => ip.clone(),
        None => String::new(),
    };
    line.append(":");
    match p.public_port {
        Some(n) => {
            let d = crate::numstr::u64_to_dec(n as u64);
            line.append(d.as_str());
        },
        None => {},
    }
    line.append("->");
    let d = crate::numstr::u64_to_dec(p.private_port as u64);
    line.append(d.as_str());
    line.append("/");
    match &p.typ {
        Some(t) => {
            line.append(t.as_str());
        },
        None => {},
    }
    proof {
        assert(line@ =~= port_line(*p));
    }
    line
}

/// Formats a summary's ports for display, hiding unpublished ones.
pub fn parse_ports(ports: &Vec<PortInfo>) -> (r: Vec<String>)
    ensures
        r.deep_view() == port_lines(ports@),
{
    proof {
        reveal_strlit(":0->");
        assert(":0->"@ =~= seq![':', '0', '-', '>']);
    }
    let mut out: Vec<String> = Vec::new();
    let mut i: usize = 0;
    proof {
        assert(ports@.take(0) =~= Seq::<PortInfo>::empty());
    }
    while i < ports.len()
        invariant
            0 <= i <= ports@.len(),
            out.deep_view() == port_lines(ports@.take(i as int)),
        decreases ports@.len() - i,
    {
        proof {
            reveal_strlit(":0->");
            assert(":0->"@ =~= seq![':', '0', '-', '>']);
            assert(ports@.take(i + 1).drop_last() =~= ports@.take(i as int));
            assert(ports@.take(i + 1).last() == ports@[i as int]);
        }
        let line = format_port(&ports[i]);
        if !str_starts_with(line.as_str(), ":0->") {
            out.push(line);
            proof {
                assert(out.deep_view() =~= port_lines(ports@.take(i + 1)));
            }
        } else {
            proof {
                assert(out.deep_view() =~= port_lines(ports@.take(i + 1)));
            }
        }
        i += 1;
    }
    proof {
        assert(ports@.take(ports@.len() as int) =~= ports@);
    }
    out
}

/// One host binding of a container port.
#[derive(Debug, Clone)]
pub struct HostBinding {
    pub host_ip: Option<String>,
    pub host_port: Option<String>,
}

/// A container port together with its host bindings.
#[derive(Debug, Clone)]
pub struct PortBindingEntry {
    pub container_port: String,
    pub bindings: Option<Vec<HostBinding>>,
}

/// The display line for one host binding: `ip:port->container/tcp`, with
/// `0.0.0.0` for a missing host address.
pub open spec fn binding_line(b: HostBinding, container_port: Seq<char>) -> Seq<char> {
    (match b.host_ip {
        Some(ip) => ip@,
        None => "0.0.0.0"@,
    }) + seq![':'] + opt_text(b.host_port) + seq!['-', '>'] + container_port + seq![
        '/',
        't',
        'c',
        'p',
    ]
}

pub open spec fn binding_lines(bs: Seq<HostBinding>, container_port: Seq<char>) -> Seq<Seq<char>>
    decreases bs.len(),
{
    if bs.len() == 0 {
        Seq::empty()
    } else {
        binding_lines(bs.drop_last(), container_port).push(
            binding_line(bs.last(), container_port),
        )
    }
}

/// All display lines of a binding table, in order.
pub open spec fn binding_table_lines(entries: Seq<PortBindingEntry>) -> Seq<Seq<char>>
    decreases entries.len(),
{
    if entries.len() == 0 {
        Seq::empty()
    } else {
        binding_table_lines(entries.drop_last()) + (match entries.last().bindings {
            Some(bs) => binding_lines(bs@, entries.last().container_port@),
            None => Seq::<Seq<char>>::empty(),
        })
    }
}

fn format_binding(b: &HostBinding, container_port: &str) -> (r: String)
    ensures
        r@ == binding_line(*b, container_port@),
{
    proof {
        reveal_strlit(":");
        reveal_strlit("->");
        reveal_strlit("/tcp");
        assert(":"@ =~= seq![':']);
        assert("->"@ =~= seq!['-', '>']);
        assert("/tcp"@ =~= seq!['/', 't', 'c', 'p']);
    }
    let mut line = match &b.host_ip {
        Some(ip) => ip.clone(),
        None => String::from_str("0.0.0.0"),
    };
    line.append(":");
    match &b.host_port {
        Some(p) => {
            line.append(p.as_str());
        },
        None => {},
    }
    line.append("->");
    line.append(container_port);
    line.append("/tcp");
    proof {
        assert(line@ =~= binding_line(*b, container_port@));
    }
    line
}

/// Formats a container's host port bindings for display.
pub fn parse_container_ports(entries: &Vec<PortBindingEntry>) -> (r: Vec<String>)
    ensures
        r.deep_view() == binding_table_lines(entries@),
{
    let mut out: Vec<String> = Vec::new();
    let mut i: usize = 0;
    proof {
        assert(entries@.take(0) =~= Seq::<PortBindingEntry>::empty());
    }
    while i < entries.len()
        invariant
            0 <= i <= entries@.len(),
            out.deep_view() == binding_table_lines(entries@.take(i as int)),
        decreases entries@.len() - i,
    {
        proof {
            assert(entries@.take(i + 1).drop_last() =~= entries@.take(i as int));
            assert(entries@.take(i + 1).last() == entries@[i as int]);
        }
        let ghost before = out.deep_view();
        match &entries[i].bindings {
            Some(bs) => {
                let mut j: usize = 0;
                proof {
                    assert(bs@.take(0) =~= Seq::<HostBinding>::empty());
                    assert(before + binding_lines(bs@.take(0), entries@[i as int].container_port@)
                        =~= before);
                }
                while j < bs.len()
                    invariant
                        0 <= j <= bs@.len(),
                        0 <= i < entries@.len(),
                        bs@ == entries@[i as int].bindings->0@,
                        out.deep_view() == before + binding_lines(
                            bs@.take(j as int),
                            entries@[i as int].container_port@,
                        ),
                    decreases bs@.len() - j,
                {
                    proof {
                        assert(bs@.take(j + 1).drop_last() =~= bs@.take(j as int));
                        assert(bs@.take(j + 1).last() == bs@[j as int]);
                    }
                    let line = format_binding(&bs[j], entries[i].container_port.as_str());
                    let ghost prev_deep = out.deep_view();
                    let ghost prev_v = out@;
                    let ghost cport = entries@[i as int].container_port@;
                    let ghost rhs = before + binding_lines(bs@.take(j + 1), cport);
                    proof {
                        assert(prev_deep == Seq::new(prev_v.len(), |k: int| prev_v[k].deep_view()));
                        assert(prev_deep.len() == prev_v.len());
                        assert(prev_deep == before + binding_lines(bs@.take(j as int), cport));
                    }
                    out.push(line);
                    proof {
                        assert(binding_lines(bs@.take(j + 1), cport) == binding_lines(
                            bs@.take(j as int),
                            cport,
                        ).push(binding_line(bs@[j as int], cport)));
                        assert(out.deep_view().len() == prev_v.len() + 1);
                        assert(rhs.len() == prev_v.len() + 1);
                        assert forall|k: int|
                            0 <= k < out.deep_view().len() implies out.deep_view()[k] == rhs[k] by {
                            if k < prev_v.len() {
                                assert(out@[k] == prev_v[k]);
                                assert(out.deep_view()[k] == prev_v[k].deep_view());
                                assert(prev_deep[k] == prev_v[k].deep_view());
                                assert(prev_deep[k] == rhs[k]);
                            } else {
                                assert(out@[k] == line);
                            }
                        }
                        assert(out.deep_view() =~= rhs);
                    }
                    j += 1;
                }
                proof {
                    assert(bs@.take(bs@.len() as int) =~= bs@);
                    assert(out.deep_view() =~= binding_table_lines(entries@.take(i + 1)));
                }
            },
            None => {
                proof {
                    assert(out.deep_view() =~= binding_table_lines(entries@.take(i + 1)));
                }
            },
        }
        i += 1;
    }
    proof {
        assert(entries@.take(entries@.len() as int) =~= entries@);
    }
    out
}

/// A container's volume binds, as configured, or none at all.
pub fn parse_binds(binds: Option<&Vec<String>>) -> (r: Vec<String>)
    ensures
        match binds {
            Some(b) => r.deep_view() == b.deep_view(),
            None => r.deep_view() == Seq::<Seq<char>>::empty(),
        },
{
    match binds {
        Some(b) => {
            let mut out: Vec<String> = Vec::new();
            let mut i: usize = 0;
            proof {
                assert(b.deep_view() == Seq::new(b@.len(), |k: int| b@[k].deep_view()));
                assert(out.deep_view() =~= b.deep_view().take(0));
            }
            while i < b.len()
                invariant
                    0 <= i <= b@.len(),
                    b.deep_view() == Seq::new(b@.len(), |k: int| b@[k].deep_view()),
                    out.deep_view() == b.deep_view().take(i as int),
                decreases b@.len() - i,
            {
                let ghost prev_deep = out.deep_view();
                let ghost prev_v = out@;
                out.push(b[i].clone());
                proof {
                    assert(b.deep_view().len() == b@.len());
                    assert(prev_deep.len() == prev_v.len());
                    assert(out.deep_view().len() == prev_v.len() + 1);
                    assert forall|k: int|
                        0 <= k < out.deep_view().len() implies out.deep_view()[k]
                        == b.deep_view().take(i + 1)[k] by {
                        if k < prev_v.len() {
                            assert(out@[k] == prev_v[k]);
                            assert(out.deep_view()[k] == prev_v[k].deep_view());
                            assert(prev_deep[k] == prev_v[k].deep_view());
                            assert(prev_deep[k] == b.deep_view().take(i as int)[k]);
                        } else {
                            assert(out@[k] == b@[i as int]);
                            assert(b.deep_view().take(i + 1)[k] == b@[i as int].deep_view());
                        }
                    }
                    assert(out.deep_view() =~= b.deep_view().take(i + 1));
                }
                i += 1;
            }
            proof {
                assert(b.deep_view().take(b@.len() as int) =~= b.deep_view());
            }
            out
        },
        None => Vec::new(),
    }
}

/// How long a cached container listing stays fresh, in seconds.
pub const CONTAINER_CACHE_TTL_SECONDS: i64 = 5;

/// The cached container listing, with the epoch milliseconds of its last
/// refresh.
pub struct DockerCache {
    pub containers: Vec<ContainerStatus>,
    pub last_updated_millis: Option<i64>,
}

impl DockerCache {
    /// An empty, stale cache.
    pub fn new() -> (r: DockerCache)
        ensures
            r.containers@.len() == 0,
            r.last_updated_millis is None,
    {
        DockerCache { containers: Vec::new(), last_updated_millis: None }
    }

    /// A cache is stale when it was never filled or its age exceeds the
    /// given bound.
    pub fn is_stale(&self, now_millis: i64, max_age_millis: i64) -> (r: bool)
        requires
            self.last_updated_millis is Some ==> i64::MIN <= now_millis
                - self.last_updated_millis->0 <= i64::MAX,
        ensures
            r == match self.last_updated_millis {
                Some(t) => now_millis - t > max_age_millis,
                None => true,
            },
    {
        match self.last_updated_millis {
            Some(t) => now_millis - t > max_age_millis,
            None => true,
        }
    }
}

} // verus!
