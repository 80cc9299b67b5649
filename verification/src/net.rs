//! URLs and IP addresses: the call into the URL parser, and the address
//! classes the library refuses. Parsing an IP address is std's networking
//! module, which is read outside the library; it hands in the result.

use vstd::prelude::*;

verus! {

/// Scheme and host (`host_str`) of the URL that `url::Url::parse` makes of
/// a string, or `None` when it refuses the string.
pub uninterp spec fn url_parts(url: Seq<char>) -> Option<(Seq<char>, Option<Seq<char>>)>;

/// `reqwest::Url::parse` (the `url` crate), read as its scheme and its
/// `host_str`. The contract names the result only: what a URL parses to
/// is the WHATWG URL standard, which takes pages.
#[verifier::external_body]
pub(crate) fn parse_url(url: &str) -> (r: Option<(String, Option<String>)>)
    ensures
        r.deep_view() == url_parts(url@),
{
    match reqwest::Url::parse(url) {
        Ok(u) => Some((u.scheme().to_string(), u.host_str().map(|h| h.to_string()))),
        Err(_) => None,
    }
}

/// An IP address as `str::parse::<std::net::IpAddr>` reads it: the four
/// octets of an IPv4 address or the eight segments of an IPv6 address.
#[derive(Clone, Copy, PartialEq, Eq, Structural)]
pub enum IpParsed {
    V4(u8, u8, u8, u8),
    V6(u16, u16, u16, u16, u16, u16, u16, u16),
}

/// `Ipv4Addr::is_loopback`: `127.0.0.0/8`.
pub open spec fn v4_loopback(a: u8) -> bool {
    a == 127
}

/// `Ipv4Addr::is_private`: `10.0.0.0/8`, `172.16.0.0/12`, `192.168.0.0/16`.
pub open spec fn v4_private(a: u8, b: u8) -> bool {
    a == 10 || (a == 172 && 16 <= b <= 31) || (a == 192 && b == 168)
}

/// `Ipv4Addr::is_link_local`: `169.254.0.0/16`.
pub open spec fn v4_link_local(a: u8, b: u8) -> bool {
    a == 169 && b == 254
}

/// `Ipv6Addr::is_loopback`: `::1`.
pub open spec fn v6_loopback(g: (u16, u16, u16, u16, u16, u16, u16, u16)) -> bool {
    g == (0u16, 0u16, 0u16, 0u16, 0u16, 0u16, 0u16, 1u16)
}

/// `Ipv6Addr::is_unspecified`: `::`.
pub open spec fn v6_unspecified(g: (u16, u16, u16, u16, u16, u16, u16, u16)) -> bool {
    g == (0u16, 0u16, 0u16, 0u16, 0u16, 0u16, 0u16, 0u16)
}

} // verus!
