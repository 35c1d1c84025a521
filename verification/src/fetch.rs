//! Fetching from functions: which addresses a request may reach, and what becomes of a request.

use vstd::prelude::*;
use vstd::string::*;
use crate::text::{
    concat, decimal, decimal_text, lemma_decimal_digits, lemma_pieces_extend, lemma_pieces_single,
    occurs, parts_occur_where_they_stand, pieces, same_text,
};

verus! {

/// An IP address, by its octets or its segments.
#[derive(Debug, Clone, Copy, PartialEq, Eq)]
pub enum IpAddr {
    V4([u8; 4]),
    V6([u16; 8]),
}

/// The content of an IP address.
pub enum IpTree {
    V4(Seq<u8>),
    V6(Seq<u16>),
}

impl View for IpAddr {
    type V = IpTree;

    open spec fn view(&self) -> IpTree {
        match *self {
            IpAddr::V4(o) => IpTree::V4(o@),
            IpAddr::V6(s) => IpTree::V6(s@),
        }
    }
}

/// An IPv4 address as a number.
pub open spec fn v4(a: u8, b: u8, c: u8, d: u8) -> int {
    a * 0x100_0000 + b * 0x1_0000 + c * 0x100 + d
}

/// Whether an address lies between two addresses.
pub open spec fn between(first: int, n: int, last: int) -> bool {
    first <= n <= last
}

/// Whether functions may never reach an IPv4 address: it lies in a private, loopback, link-local,
/// metadata, carrier, documentation, benchmarking, multicast or reserved range.
pub open spec fn blocked_v4(o: Seq<u8>) -> bool {
    let n = v4(o[0], o[1], o[2], o[3]);
    // "This network".
    ||| between(v4(0, 0, 0, 0), n, v4(0, 255, 255, 255))
    // Private networks.
    ||| between(v4(10, 0, 0, 0), n, v4(10, 255, 255, 255))
    ||| between(v4(172, 16, 0, 0), n, v4(172, 31, 255, 255))
    ||| between(v4(192, 168, 0, 0), n, v4(192, 168, 255, 255))
    // Carrier-grade NAT.
    ||| between(v4(100, 64, 0, 0), n, v4(100, 127, 255, 255))
    // Loopback.
    ||| between(v4(127, 0, 0, 0), n, v4(127, 255, 255, 255))
    // Link-local, with the metadata service of clouds.
    ||| between(v4(169, 254, 0, 0), n, v4(169, 254, 255, 255))
    // Protocol assignments.
    ||| between(v4(192, 0, 0, 0), n, v4(192, 0, 0, 255))
    // Documentation.
    ||| between(v4(192, 0, 2, 0), n, v4(192, 0, 2, 255))
    ||| between(v4(198, 51, 100, 0), n, v4(198, 51, 100, 255))
    ||| between(v4(203, 0, 113, 0), n, v4(203, 0, 113, 255))
    // Benchmarking.
    ||| between(v4(198, 18, 0, 0), n, v4(198, 19, 255, 255))
    // Multicast and reserved.
    ||| between(v4(224, 0, 0, 0), n, v4(255, 255, 255, 255))
}

/// Whether all segments before the given one are 0.
pub open spec fn zero_before(s: Seq<u16>, k: int) -> bool {
    forall|i: int| 0 <= i < k ==> #[trigger] s[i] == 0
}

/// The octets of the IPv4 address in the last two segments.
pub open spec fn embedded_v4(s: Seq<u16>) -> Seq<u8> {
    seq![(s[6] / 256) as u8, (s[6] % 256) as u8, (s[7] / 256) as u8, (s[7] % 256) as u8]
}

/// Whether functions may never reach an IPv6 address.
pub open spec fn blocked_v6(s: Seq<u16>) -> bool {
    // Unspecified (`::`) and loopback (`::1`).
    ||| zero_before(s, 7) && (s[7] == 0 || s[7] == 1)
    // Link-local (`fe80::` to `febf:..`).
    ||| 0xfe80 <= s[0] <= 0xfebf
    // Unique local (`fc00::` to `fdff:..`).
    ||| 0xfc00 <= s[0] <= 0xfdff
    // Multicast (`ff00::` to `ffff:..`).
    ||| 0xff00 <= s[0]
    // NAT64 (`64:ff9b::` to `64:ff9b::ffff:ffff`).
    ||| s[0] == 0x64 && s[1] == 0xff9b && s[2] == 0 && s[3] == 0 && s[4] == 0 && s[5] == 0
    // An IPv4 address in IPv6 (`::ffff:0:0` to `::ffff:ffff:ffff`).
    ||| zero_before(s, 5) && s[5] == 0xffff && blocked_v4(embedded_v4(s))
}

/// Whether functions may never reach an address.
pub open spec fn blocked(ip: IpTree) -> bool {
    match ip {
        IpTree::V4(o) => blocked_v4(o),
        IpTree::V6(s) => blocked_v6(s),
    }
}

fn is_blocked_ipv4(o: &[u8; 4]) -> (r: bool)
    ensures
        r == blocked_v4(o@),
{
    let a = o[0];
    let b = o[1];
    let c = o[2];
    a == 0 || a == 10 || (a == 100 && 64 <= b && b <= 127) || a == 127 || (a == 169 && b == 254)
        || (a == 172 && 16 <= b && b <= 31) || (a == 192 && b == 0 && c == 0) || (a == 192 && b == 0
        && c == 2) || (a == 198 && b == 51 && c == 100) || (a == 203 && b == 0 && c == 113) || (a
        == 192 && b == 168) || (a == 198 && (b == 18 || b == 19)) || a >= 224
}

fn is_blocked_ipv6(s: &[u16; 8]) -> (r: bool)
    ensures
        r == blocked_v6(s@),
{
    let zero5 = s[0] == 0 && s[1] == 0 && s[2] == 0 && s[3] == 0 && s[4] == 0;
    proof {
        assert(zero5 == zero_before(s@, 5)) by {
            if zero5 {
                assert forall|i: int| 0 <= i < 5 implies #[trigger] s@[i] == 0 by {}
            } else {
                assert(s@[0] != 0 || s@[1] != 0 || s@[2] != 0 || s@[3] != 0 || s@[4] != 0);
            }
        }
        assert((zero5 && s@[5] == 0 && s@[6] == 0) == zero_before(s@, 7)) by {
            if zero5 && s@[5] == 0 && s@[6] == 0 {
                assert forall|i: int| 0 <= i < 7 implies #[trigger] s@[i] == 0 by {}
            } else if zero_before(s@, 7) {
                assert(s@[0] == 0 && s@[1] == 0 && s@[2] == 0 && s@[3] == 0 && s@[4] == 0 && s@[5]
                    == 0 && s@[6] == 0);
            }
        }
    }
    if zero5 && s[5] == 0 && s[6] == 0 && (s[7] == 0 || s[7] == 1) {
        return true;
    }
    if 0xfe80 <= s[0] && s[0] <= 0xfebf {
        return true;
    }
    if 0xfc00 <= s[0] && s[0] <= 0xfdff {
        return true;
    }
    if 0xff00 <= s[0] {
        return true;
    }
    if s[0] == 0x64 && s[1] == 0xff9b && s[2] == 0 && s[3] == 0 && s[4] == 0 && s[5] == 0 {
        return true;
    }
    if zero5 && s[5] == 0xffff {
        let octets: [u8; 4] = [
            (s[6] / 256) as u8,
            (s[6] % 256) as u8,
            (s[7] / 256) as u8,
            (s[7] % 256) as u8,
        ];
        assert(octets@ =~= embedded_v4(s@));
        return is_blocked_ipv4(&octets);
    }
    false
}

/// Whether functions may never reach an address: it is in a private network, or is a loopback,
/// link-local, metadata, multicast or reserved address.
pub fn is_blocked_ip(ip: &IpAddr) -> (r: bool)
    ensures
        r == blocked(ip@),
{
    match ip {
        IpAddr::V4(o) => is_blocked_ipv4(o),
        IpAddr::V6(s) => is_blocked_ipv6(s),
    }
}

/// The text of an IPv6 address, as `std::net::Ipv6Addr` writes it.
pub uninterp spec fn ipv6_text(s: Seq<u16>) -> Seq<char>;

/// The `Display` of the `std::net::Ipv6Addr` with the given segments, which `url::Host` holds.
#[verifier::external_body]
fn display_ipv6(s: &[u16; 8]) -> (r: String)
    ensures
        r@ == ipv6_text(s@),
{
    match url::Host::<&str>::Ipv6((*s).into()) {
        url::Host::Ipv6(ip) => ip.to_string(),
        other => other.to_string(),
    }
}

/// The text of an address.
pub open spec fn ip_text(ip: IpTree) -> Seq<char> {
    match ip {
        IpTree::V4(o) => decimal(o[0] as nat) + "."@ + decimal(o[1] as nat) + "."@ + decimal(
            o[2] as nat,
        ) + "."@ + decimal(o[3] as nat),
        IpTree::V6(s) => ipv6_text(s),
    }
}

/// The text of an address.
pub fn ip_to_text(ip: &IpAddr) -> (r: String)
    ensures
        r@ == ip_text(ip@),
{
    match ip {
        IpAddr::V4(o) => {
            let a = concat(decimal_text(o[0] as u64).as_str(), ".");
            let b = concat(a.as_str(), decimal_text(o[1] as u64).as_str());
            let c = concat(b.as_str(), ".");
            let d = concat(c.as_str(), decimal_text(o[2] as u64).as_str());
            let e = concat(d.as_str(), ".");
            concat(e.as_str(), decimal_text(o[3] as u64).as_str())
        },
        IpAddr::V6(s) => display_ipv6(s),
    }
}

/// The host of a URL.
#[derive(Debug)]
pub enum Host {
    Domain(String),
    Ip(IpAddr),
}

/// The content of the host of a URL.
pub enum HostTree {
    Domain(Seq<char>),
    Ip(IpTree),
}

impl View for Host {
    type V = HostTree;

    open spec fn view(&self) -> HostTree {
        match *self {
            Host::Domain(s) => HostTree::Domain(s@),
            Host::Ip(ip) => HostTree::Ip(ip@),
        }
    }
}

/// What is said of a host that functions may never reach, if it is an address of that kind.
/// Domain names are checked when they are resolved.
pub open spec fn host_reason(host: HostTree) -> Option<Seq<char>> {
    match host {
        HostTree::Domain(_) => None,
        HostTree::Ip(ip) => if blocked(ip) {
            Some(
                "host "@ + ip_text(ip)
                    + " is a private, loopback, link-local, or metadata IP address"@,
            )
        } else {
            None
        },
    }
}

/// What is said of a host that functions may never reach.
pub fn blocked_host_reason(host: &Host) -> (r: Option<String>)
    ensures
        match r {
            Some(s) => host_reason(host@) == Some(s@),
            None => host_reason(host@) is None,
        },
{
    match host {
        Host::Domain(_) => None,
        Host::Ip(ip) => if is_blocked_ip(ip) {
            Some(
                concat(
                    concat("host ", ip_to_text(ip).as_str()).as_str(),
                    " is a private, loopback, link-local, or metadata IP address",
                ),
            )
        } else {
            None
        },
    }
}

/// A URL: its text, and its host, which some URLs have not.
#[derive(Debug)]
pub struct ParsedUrl {
    pub text: String,
    pub host: Option<Host>,
}

/// The content of a URL.
pub struct UrlTree {
    pub text: Seq<char>,
    pub host: Option<HostTree>,
}

impl View for ParsedUrl {
    type V = UrlTree;

    open spec fn view(&self) -> UrlTree {
        UrlTree {
            text: self.text@,
            host: match self.host {
                Some(h) => Some(h@),
                None => None,
            },
        }
    }
}

/// What `url::Url::parse` reads from a text: the URL, or the text of the error.
pub uninterp spec fn url_of_text(s: Seq<char>) -> Result<UrlTree, Seq<char>>;

/// `url::Url::parse`, with the `Display` of the URL and its host: a domain name, or an address by
/// its octets or segments.
#[verifier::external_body]
fn read_url(s: &str) -> (r: Result<ParsedUrl, String>)
    ensures
        match r {
            Ok(u) => url_of_text(s@) matches Ok(t) && t == u@,
            Err(e) => url_of_text(s@) matches Err(t) && t == e@,
        },
{
    let u = url::Url::parse(s).map_err(|e| e.to_string())?;
    let host = u.host().map(|h| match h {
        url::Host::Domain(d) => Host::Domain(d.to_string()),
        url::Host::Ipv4(a) => Host::Ip(IpAddr::V4(a.octets())),
        url::Host::Ipv6(a) => Host::Ip(IpAddr::V6(a.segments())),
    });
    Ok(ParsedUrl { text: u.to_string(), host })
}

/// Read a URL.
pub fn parse_url(s: &str) -> (r: Result<ParsedUrl, String>)
    ensures
        match r {
            Ok(u) => url_of_text(s@) matches Ok(t) && t == u@,
            Err(e) => url_of_text(s@) matches Err(t) && t == e@,
        },
{
    read_url(s)
}

/// Why a name is not connected to, as content.
pub enum ResolveFaultTree {
    NoAddress,
    Blocked(IpTree),
}

/// Why a name is not connected to.
#[derive(Debug)]
pub enum ResolveFault {
    /// It has no address.
    NoAddress,
    /// One of its addresses is one that functions may never reach.
    Blocked(IpAddr),
}

impl View for ResolveFault {
    type V = ResolveFaultTree;

    open spec fn view(&self) -> ResolveFaultTree {
        match *self {
            ResolveFault::NoAddress => ResolveFaultTree::NoAddress,
            ResolveFault::Blocked(ip) => ResolveFaultTree::Blocked(ip@),
        }
    }
}

/// The position of the first address that functions may never reach, or the number of addresses.
pub open spec fn first_blocked(ips: Seq<IpAddr>) -> nat
    decreases ips.len(),
{
    if ips.len() == 0 || blocked(ips[0]@) {
        0
    } else {
        1 + first_blocked(ips.skip(1))
    }
}

/// Check the addresses that a name has: there has to be one, and functions have to be allowed to
/// reach each of them.
pub fn resolve_host(ips: Vec<IpAddr>) -> (r: Result<Vec<IpAddr>, ResolveFault>)
    ensures
        match r {
            Ok(v) => ips@.len() > 0 && first_blocked(ips@) == ips@.len() && v@ == ips@,
            Err(f) => if ips@.len() == 0 {
                f@ == ResolveFaultTree::NoAddress
            } else {
                first_blocked(ips@) < ips@.len() && f@ == ResolveFaultTree::Blocked(
                    ips@[first_blocked(ips@) as int]@,
                )
            },
        },
{
    if ips.len() == 0 {
        return Err(ResolveFault::NoAddress);
    }
    let mut i: usize = 0;
    assert(ips@.skip(0) =~= ips@);
    while i < ips.len()
        invariant
            i <= ips.len(),
            first_blocked(ips@) == i + first_blocked(ips@.skip(i as int)),
        decreases ips.len() - i,
    {
        assert(ips@.skip(i as int).skip(1) =~= ips@.skip(i + 1));
        assert(ips@.skip(i as int)[0] == ips@[i as int]);
        if is_blocked_ip(&ips[i]) {
            return Err(ResolveFault::Blocked(ips[i]));
        }
        i += 1;
    }
    Ok(ips)
}

/// What is said of a name that is not connected to.
pub open spec fn resolve_fault_text(host: Seq<char>, f: ResolveFaultTree) -> Seq<char> {
    match f {
        ResolveFaultTree::NoAddress => host + " resolved to no IP addresses"@,
        ResolveFaultTree::Blocked(ip) => "refusing to connect to "@ + host
            + ": resolved to a private, loopback, link-local, or metadata IP address ("@ + ip_text(
            ip,
        ) + ")"@,
    }
}

impl ResolveFault {
    /// What is said of a name that is not connected to.
    pub fn message(&self, host: &str) -> (r: String)
        ensures
            r@ == resolve_fault_text(host@, self@),
    {
        match self {
            ResolveFault::NoAddress => concat(host, " resolved to no IP addresses"),
            ResolveFault::Blocked(ip) => {
                let a = concat("refusing to connect to ", host);
                let b = concat(
                    a.as_str(),
                    ": resolved to a private, loopback, link-local, or metadata IP address (",
                );
                let c = concat(b.as_str(), ip_to_text(ip).as_str());
                concat(c.as_str(), ")")
            },
        }
    }
}

proof fn lemma_first_blocked(ips: Seq<IpAddr>, i: int)
    requires
        0 <= i < first_blocked(ips),
        first_blocked(ips) <= ips.len(),
    ensures
        !blocked(ips[i]@),
    decreases ips.len(),
{
    if i > 0 {
        lemma_first_blocked(ips.skip(1), i - 1);
    }
}

/// A name that is connected to has no address that functions may never reach, so no answer of a
/// name server leads there.
pub proof fn resolved_addresses_are_allowed(ips: Seq<IpAddr>, i: int)
    requires
        first_blocked(ips) == ips.len(),
        0 <= i < ips.len(),
    ensures
        !blocked(ips[i]@),
{
    lemma_first_blocked(ips, i);
}

/// An IPv4 address is blocked in IPv6 form exactly where it is blocked itself.
pub proof fn mapped_addresses_follow_v4(o: Seq<u8>)
    requires
        o.len() == 4,
    ensures
        blocked_v6(
            seq![0u16, 0, 0, 0, 0, 0xffff, (o[0] * 256 + o[1]) as u16, (o[2] * 256 + o[3]) as u16],
        ) == blocked_v4(o),
{
    let s = seq![
        0u16,
        0,
        0,
        0,
        0,
        0xffff,
        (o[0] * 256 + o[1]) as u16,
        (o[2] * 256 + o[3]) as u16,
    ];
    assert(s[5] == 0xffff);
    assert(zero_before(s, 5));
    assert(embedded_v4(s) =~= o);
}

/// Whether the client itself screens addresses: not where a proxy does, nor where the deployment
/// allows private addresses.
pub fn ssrf_guard(has_proxy: bool, allow_private_fetch_ips: bool) -> (r: bool)
    ensures
        r == (!has_proxy && !allow_private_fetch_ips),
{
    !has_proxy && !allow_private_fetch_ips
}

/// What is said of a request that is not sent, if it is not.
pub open spec fn refusal(guard: bool, url: UrlTree) -> Option<Seq<char>> {
    match url.host {
        Some(host) if guard && host_reason(host) is Some => Some(
            "Request to "@ + url.text + " forbidden: "@ + host_reason(host)->0,
        ),
        _ => None,
    }
}

/// Decide whether a request is sent. An address in a URL never goes through name resolution, so it
/// is checked here.
pub fn refuse_request(guard: bool, url: &ParsedUrl) -> (r: Option<String>)
    ensures
        match r {
            Some(s) => refusal(guard, url@) == Some(s@),
            None => refusal(guard, url@) is None,
        },
{
    if !guard {
        return None;
    }
    match &url.host {
        None => None,
        Some(host) => match blocked_host_reason(host) {
            None => None,
            Some(reason) => {
                let a = concat("Request to ", url.text.as_str());
                let b = concat(a.as_str(), " forbidden: ");
                Some(concat(b.as_str(), reason.as_str()))
            },
        },
    }
}

/// With the guard on, a request to a blocked address is never sent.
pub proof fn blocked_literals_are_refused(url: UrlTree, ip: IpTree)
    requires
        url.host == Some(HostTree::Ip(ip)),
        blocked(ip),
    ensures
        refusal(true, url) is Some,
{
}

/// The status by which the proxy says that it blocked a request.
pub const PROXY_AUTHENTICATION_REQUIRED: u16 = 407;

/// What is said of a response that is not passed on, since the proxy blocked the request.
pub fn refuse_response(status: u16, url: &ParsedUrl) -> (r: Option<String>)
    ensures
        match r {
            Some(s) => status == PROXY_AUTHENTICATION_REQUIRED && s@ == "Request to "@ + url@.text
                + " forbidden"@,
            None => status != PROXY_AUTHENTICATION_REQUIRED,
        },
{
    if status == PROXY_AUTHENTICATION_REQUIRED {
        Some(concat(concat("Request to ", url.text.as_str()).as_str(), " forbidden"))
    } else {
        None
    }
}

/// The bytes of a request that were sent, after one more piece of its body, or none where the
/// piece could not be had.
pub fn count_sent(sent: u64, piece: Option<usize>) -> (r: u64)
    ensures
        r == (match piece {
            Some(n) => ((sent + n) % 0x1_0000_0000_0000_0000) as u64,
            None => sent,
        }),
{
    match piece {
        Some(n) => {
            let total: u128 = (sent as u128 + n as u128) % 0x1_0000_0000_0000_0000;
            total as u64
        },
        None => sent,
    }
}

/// A route: the URL, the method, and the number of the handler.
pub struct Route {
    pub url: String,
    pub method: String,
    pub handler: usize,
}

/// A client that answers from routes, and counts its calls.
pub struct StaticFetchClient {
    routes: Vec<Route>,
    num_calls: u64,
}

/// The position of the last route for a URL and a method, or -1.
pub open spec fn route_index(rs: Seq<Route>, url: Seq<char>, method: Seq<char>) -> int
    decreases rs.len(),
{
    if rs.len() == 0 {
        -1
    } else if rs.last().url@ == url && rs.last().method@ == method {
        rs.len() - 1
    } else {
        route_index(rs.drop_last(), url, method)
    }
}

impl StaticFetchClient {
    /// The handler for a URL and a method.
    pub closed spec fn handler(self, url: Seq<char>, method: Seq<char>) -> Option<usize> {
        let i = route_index(self.routes@, url, method);
        if 0 <= i < self.routes@.len() {
            Some(self.routes@[i].handler)
        } else {
            None
        }
    }

    /// How many times the client was called.
    pub closed spec fn calls(self) -> u64 {
        self.num_calls
    }

    /// A client without routes.
    pub fn new() -> (r: StaticFetchClient)
        ensures
            r.calls() == 0,
            forall|url: Seq<char>, method: Seq<char>| #[trigger] r.handler(url, method) is None,
    {
        StaticFetchClient { routes: Vec::new(), num_calls: 0 }
    }

    /// Set the handler for a URL and a method.
    pub fn register_http_route(&mut self, url: String, method: String, handler: usize)
        ensures
            final(self).calls() == old(self).calls(),
            forall|u: Seq<char>, m: Seq<char>| #[trigger]
                final(self).handler(u, m) == if u == url@ && m == method@ {
                    Some(handler)
                } else {
                    old(self).handler(u, m)
                },
    {
        let ghost before = self.routes@;
        self.routes.push(Route { url, method, handler });
        proof {
            assert(self.routes@.drop_last() =~= before);
            assert forall|u: Seq<char>, m: Seq<char>| #[trigger]
                self.handler(u, m) == if u == url@ && m == method@ {
                Some(handler)
            } else {
                old(self).handler(u, m)
            } by {
                lemma_route_index(before, u, m);
            }
        }
    }

    /// How many times the client was called.
    pub fn num_calls(&self) -> (r: u64)
        ensures
            r == self.calls(),
    {
        self.num_calls
    }

    /// Count a call, and find the handler for it.
    pub fn fetch(&mut self, url: &str, method: &str) -> (r: Option<usize>)
        ensures
            r == old(self).handler(url@, method@),
            final(self).calls() == (old(self).calls() + 1) % 0x1_0000_0000_0000_0000,
            forall|u: Seq<char>, m: Seq<char>| #[trigger]
                final(self).handler(u, m) == old(self).handler(u, m),
    {
        self.num_calls = if self.num_calls == 0xffff_ffff_ffff_ffff {
            0
        } else {
            self.num_calls + 1
        };
        let mut i: usize = self.routes.len();
        assert(self.routes@.take(i as int) =~= self.routes@);
        while i > 0
            invariant
                i <= self.routes.len(),
                self.routes@ == old(self).routes@,
                self.calls() == (old(self).calls() + 1) % 0x1_0000_0000_0000_0000,
                route_index(self.routes@, url@, method@) == route_index(
                    self.routes@.take(i as int),
                    url@,
                    method@,
                ),
            decreases i,
        {
            assert(self.routes@.take(i as int).drop_last() =~= self.routes@.take(i - 1));
            i -= 1;
            if same_text(self.routes[i].url.as_str(), url) && same_text(
                self.routes[i].method.as_str(),
                method,
            ) {
                return Some(self.routes[i].handler);
            }
        }
        None
    }
}

proof fn lemma_route_index(rs: Seq<Route>, url: Seq<char>, method: Seq<char>)
    ensures
        -1 <= route_index(rs, url, method) < rs.len(),
    decreases rs.len(),
{
    if rs.len() > 0 {
        lemma_route_index(rs.drop_last(), url, method);
    }
}

/// Which IPv4 addresses are off limits, by their octets: this network, the private networks, the
/// shared ones of carriers, loopback, link-local, protocol assignments, documentation, benchmarks,
/// and everything from multicast up. Every other address may be reached.
pub proof fn public_v4_addresses_are_reachable(o: Seq<u8>)
    requires
        o.len() == 4,
    ensures
        blocked(IpTree::V4(o)) <==> {
            ||| o[0] == 0 || o[0] == 10 || o[0] == 127 || o[0] >= 224
            ||| o[0] == 100 && o[1] / 64 == 1
            ||| o[0] == 169 && o[1] == 254
            ||| o[0] == 172 && o[1] / 16 == 1
            ||| o[0] == 192 && o[1] == 168
            ||| o[0] == 192 && o[1] == 0 && (o[2] == 0 || o[2] == 2)
            ||| o[0] == 198 && (o[1] / 2 == 9 || (o[1] == 51 && o[2] == 100))
            ||| o[0] == 203 && o[1] == 0 && o[2] == 113
        },
{
}

/// Which IPv6 addresses are off limits, by their first group: the unique local ones, link-local and
/// multicast; behind `64`, those of the NAT64 prefix; behind 0, the unspecified address,
/// loopback, and what stands for an IPv4 address that is off limits. Every other address may be
/// reached.
pub proof fn public_v6_addresses_are_reachable(s: Seq<u16>)
    requires
        s.len() == 8,
    ensures
        s[0] != 0 && s[0] != 0x64 ==> (blocked(IpTree::V6(s)) <==> s[0] / 0x200 == 0x7e || s[0] / 0x40
            == 0x3fa || s[0] / 0x100 == 0xff),
        s[0] == 0x64 ==> (blocked(IpTree::V6(s)) <==> s.take(6) == seq![
            0x64u16,
            0xff9bu16,
            0u16,
            0u16,
            0u16,
            0u16,
        ]),
        s[0] == 0 ==> (blocked(IpTree::V6(s)) <==> (s.take(7) == seq![
            0u16,
            0u16,
            0u16,
            0u16,
            0u16,
            0u16,
            0u16,
        ] && s[7] <= 1) || (s.take(6) == seq![0u16, 0u16, 0u16, 0u16, 0u16, 0xffffu16] && blocked(
            IpTree::V4(
                seq![
                    (s[6] / 256) as u8,
                    (s[6] % 256) as u8,
                    (s[7] / 256) as u8,
                    (s[7] % 256) as u8,
                ],
            ),
        ))),
{
    let six = s.take(6);
    let seven = s.take(7);
    assert(forall|i: int| 0 <= i < 6 ==> #[trigger] six[i] == s[i]);
    assert(forall|i: int| 0 <= i < 7 ==> #[trigger] seven[i] == s[i]);
    let prefix = seq![0x64u16, 0xff9bu16, 0u16, 0u16, 0u16, 0u16];
    let zeros = seq![0u16, 0u16, 0u16, 0u16, 0u16, 0u16, 0u16];
    let mapped = seq![0u16, 0u16, 0u16, 0u16, 0u16, 0xffffu16];
    if s[0] == 0x64 {
        if blocked_v6(s) {
            assert(six =~= prefix);
        }
        if six == prefix {
            assert(s[1] == six[1] && s[2] == six[2] && s[3] == six[3] && s[4] == six[4] && s[5]
                == six[5]);
        }
    }
    if s[0] == 0 {
        if seven == zeros {
            assert forall|i: int| 0 <= i < 7 implies #[trigger] s[i] == 0 by {
                assert(seven[i] == zeros[i]);
            }
        }
        if zero_before(s, 7) {
            assert(seven =~= zeros);
        }
        if six == mapped {
            assert forall|i: int| 0 <= i < 5 implies #[trigger] s[i] == 0 by {
                assert(six[i] == mapped[i]);
            }
            assert(s[5] == six[5]);
        }
        if zero_before(s, 5) && s[5] == 0xffff {
            assert(six =~= mapped);
        }
    }
}

/// Of the addresses of a host, the first one that is off limits is the one that is named; where
/// none is, the host may be reached.
pub proof fn first_blocked_address_is_named(ips: Seq<IpAddr>, i: int)
    requires
        0 <= i <= ips.len(),
        forall|j: int| 0 <= j < i ==> !blocked((#[trigger] ips[j])@),
        i < ips.len() ==> blocked(ips[i]@),
    ensures
        first_blocked(ips) == i,
    decreases i,
{
    if i > 0 {
        assert(!blocked(ips[0]@));
        assert forall|j: int| 0 <= j < i - 1 implies !blocked((#[trigger] ips.skip(1)[j])@) by {
            assert(ips.skip(1)[j] == ips[j + 1]);
        }
        if i < ips.len() {
            assert(ips.skip(1)[i - 1] == ips[i]);
        }
        first_blocked_address_is_named(ips.skip(1), i - 1);
    }
}

/// A request is refused before it is sent exactly where the guard is on and its host is written as
/// an address that is off limits: a domain is not, nor is any host without the guard.
pub proof fn requests_are_refused_for_cause(guard: bool, url: UrlTree)
    ensures
        refusal(guard, url) is Some <==> guard && (url.host matches Some(HostTree::Ip(ip))
            && blocked(ip)),
        refusal(guard, url) matches Some(text) ==> (url.host matches Some(HostTree::Ip(ip)) && text
            == "Request to "@ + url.text + " forbidden: "@ + ("host "@ + ip_text(ip)
            + " is a private, loopback, link-local, or metadata IP address"@)),
{
}

/// A host is objected to exactly where it is written as an address that is off limits, and the
/// address is named.
pub proof fn addresses_are_objected_to(host: HostTree)
    ensures
        host_reason(host) is Some <==> (host matches HostTree::Ip(ip) && blocked(ip)),
        host_reason(host) matches Some(text) ==> text == "host "@ + ip_text(host->Ip_0)
            + " is a private, loopback, link-local, or metadata IP address"@,
{
}

/// An IPv4 address is written as its four octets in order, with dots between them.
pub proof fn v4_addresses_are_dotted(o: Seq<u8>)
    requires
        o.len() == 4,
    ensures
        pieces(ip_text(IpTree::V4(o)), '.') == seq![
            decimal(o[0] as nat),
            decimal(o[1] as nat),
            decimal(o[2] as nat),
            decimal(o[3] as nat),
        ],
{
    reveal_strlit(".");
    assert("."@ =~= seq!['.']);
    let a = decimal(o[0] as nat);
    let b = decimal(o[1] as nat);
    let c = decimal(o[2] as nat);
    let d = decimal(o[3] as nat);
    lemma_decimal_digits(o[0] as nat);
    lemma_decimal_digits(o[1] as nat);
    lemma_decimal_digits(o[2] as nat);
    lemma_decimal_digits(o[3] as nat);
    lemma_pieces_single(a, '.');
    let ab = a.push('.') + b;
    lemma_pieces_extend(a, '.', b);
    let abc = ab.push('.') + c;
    lemma_pieces_extend(ab, '.', c);
    lemma_pieces_extend(abc, '.', d);
    assert(ip_text(IpTree::V4(o)) =~= abc.push('.') + d);
    assert(seq![a].push(b).push(c).push(d) =~= seq![a, b, c, d]);
}

/// The guard is on exactly where requests do not go through a proxy and private addresses are not
/// allowed.
pub proof fn guard_is_on_by_default(has_proxy: bool, allow_private: bool, guard: bool)
    requires
        call_ensures(ssrf_guard, (has_proxy, allow_private), guard),
    ensures
        has_proxy || allow_private ==> !guard,
        !has_proxy && !allow_private ==> guard,
{
}

/// A response is refused exactly where the proxy asks for a login, and the address that was asked
/// for is named.
pub proof fn proxy_refusals_are_passed_on(status: u16, url: ParsedUrl, refused: Option<String>)
    requires
        call_ensures(refuse_response, (status, &url), refused),
    ensures
        refused is Some <==> status == 407,
        refused matches Some(s) ==> s@ == "Request to "@ + url.text@ + " forbidden"@,
{
}

/// A host may be reached exactly where it has an address and none of them is off limits; and then
/// at all of its addresses, in their order. Of a host that may not, the first address that is off
/// limits is named.
pub proof fn hosts_resolve_to_allowed_addresses(
    ips: Vec<IpAddr>,
    resolved: Result<Vec<IpAddr>, ResolveFault>,
    i: int,
)
    requires
        call_ensures(resolve_host, (ips,), resolved),
    ensures
        resolved is Ok <==> ips@.len() > 0 && (forall|j: int|
            0 <= j < ips@.len() ==> !blocked((#[trigger] ips@[j])@)),
        resolved matches Ok(v) ==> v@ == ips@,
        resolved matches Err(f) ==> (f@ is NoAddress <==> ips@.len() == 0),
        0 <= i < ips@.len() && blocked(ips@[i]@) && (forall|j: int|
            0 <= j < i ==> !blocked((#[trigger] ips@[j])@)) ==> (resolved matches Err(f) && f@
            == ResolveFaultTree::Blocked(ips@[i]@)),
{
    if 0 <= i < ips@.len() && blocked(ips@[i]@) && (forall|j: int|
        0 <= j < i ==> !blocked((#[trigger] ips@[j])@)) {
        first_blocked_address_is_named(ips@, i);
    }
    if ips@.len() > 0 && (forall|j: int|
        0 <= j < ips@.len() ==> !blocked((#[trigger] ips@[j])@)) {
        first_blocked_address_is_named(ips@, ips@.len() as int);
    }
    if resolved is Ok {
        assert forall|j: int| 0 <= j < ips@.len() implies !blocked((#[trigger] ips@[j])@) by {
            resolved_addresses_are_allowed(ips@, j);
        }
    }
}

/// What was sent is counted piece by piece.
pub proof fn sent_bytes_are_counted(sent: u64, piece: Option<usize>, counted: u64)
    requires
        call_ensures(count_sent, (sent, piece), counted),
    ensures
        piece is None ==> counted == sent,
        piece matches Some(n) ==> sent + n <= u64::MAX ==> counted == sent + n,
{
}

/// What a request is told before it is sent depends on the guard and the host alone, and an address
/// is told apart from others by its octets.
pub proof fn blocked_hosts_are_explained(
    guard: bool,
    url: ParsedUrl,
    host: Host,
    refused: Option<String>,
    reason: Option<String>,
)
    requires
        call_ensures(refuse_request, (guard, &url), refused),
        call_ensures(blocked_host_reason, (&host,), reason),
    ensures
        reason is Some <==> (host matches Host::Ip(ip) && blocked(ip@)),
        url.host == Some(host) ==> (refused is Some <==> guard && reason is Some),
        url.host is None ==> refused is None,
        !guard ==> refused is None,
{
}

/// A route that is registered answers the requests to its address by its method, in the place of
/// one that was there before, and no others. Each request is counted, and leaves the routes alone.
pub proof fn routes_answer_their_requests(
    registered: &mut StaticFetchClient,
    url: String,
    method: String,
    handler: usize,
    asked: &mut StaticFetchClient,
    to: &str,
    by: &str,
    found: Option<usize>,
)
    requires
        call_ensures(
            StaticFetchClient::register_http_route,
            (registered, url, method, handler),
            (),
        ),
        *asked == *final(registered),
        call_ensures(StaticFetchClient::fetch, (asked, to, by), found),
    ensures
        to@ == url@ && by@ == method@ ==> found == Some(handler),
        !(to@ == url@ && by@ == method@) ==> found == old(registered).handler(to@, by@),
        final(registered).calls() == old(registered).calls(),
        old(registered).calls() < u64::MAX ==> final(asked).calls() == old(registered).calls() + 1,
        final(asked).handler(to@, by@) == found,
{
}

/// What is said of a host that may not be reached names the host, and the address that is off
/// limits.
pub proof fn resolve_faults_are_explained(host: Seq<char>, f: ResolveFaultTree)
    ensures
        f is NoAddress ==> resolve_fault_text(host, f) == host + " resolved to no IP addresses"@,
        f matches ResolveFaultTree::Blocked(ip) ==> occurs(resolve_fault_text(host, f), host)
            && occurs(resolve_fault_text(host, f), ip_text(ip)),
{
    if let ResolveFaultTree::Blocked(ip) = f {
        let a = "refusing to connect to "@;
        let b = ": resolved to a private, loopback, link-local, or metadata IP address ("@;
        let c = ")"@;
        parts_occur_where_they_stand(a, host, b + ip_text(ip) + c);
        assert(resolve_fault_text(host, f) =~= a + host + (b + ip_text(ip) + c));
        parts_occur_where_they_stand(a + host + b, ip_text(ip), c);
    }
}

} // verus!
