//! Guards for the prover's outgoing requests: only HTTPS to public hosts, no
//! private or reserved addresses, and no credential or forwarding headers.
//!
//! Resolving a host name is left to the caller, who hands the addresses it
//! got to `check_resolved_addresses`.
use vstd::prelude::*;
use vstd::string::StringSliceAdditionalSpecFns;
use crate::signature::bytes_equal;

verus! {

/// Longest URL accepted, in bytes.
pub const MAX_URL_BYTES: usize = 2048;

/// Port assumed where the URL names none.
pub const DEFAULT_HTTPS_PORT: u16 = 443;

/// What `str::to_lowercase` makes of a string.
pub uninterp spec fn lower_of(s: Seq<char>) -> Seq<char>;

/// Relies on str::to_lowercase: the result depends on the characters alone.
#[verifier::external_body]
fn to_lowercase(s: &str) -> (r: String)
    ensures
        r@ == lower_of(s@),
{
    s.to_lowercase()
}

/// What `url::Url::parse` makes of a text: `None` where it does not parse;
/// else the scheme (lower case), the host as written, if any, and the port,
/// where one other than the scheme's default is given.
pub uninterp spec fn url_parts(raw: Seq<char>) -> Option<(Seq<char>, Option<Seq<char>>, Option<u16>)>;

/// The view of an optional string.
pub open spec fn opt_view(s: Option<String>) -> Option<Seq<char>> {
    match s {
        Some(v) => Some(v@),
        None => None,
    }
}

/// Relies on url::Url::parse, read out through Url::scheme, Url::host_str and
/// Url::port: the parts of the parsed URL, or `None`.
#[verifier::external_body]
fn parse_url(raw: &str) -> (r: Option<(String, Option<String>, Option<u16>)>)
    ensures
        match r {
            Some(t) => url_parts(raw@) == Some((t.0@, opt_view(t.1), t.2)),
            None => url_parts(raw@) is None,
        },
{
    url::Url::parse(raw).ok().map(|u| (u.scheme().to_string(), u.host_str().map(|h| h.to_string()), u.port()))
}

/// Why a request target was refused.
#[derive(Clone, Copy, Debug, PartialEq, Eq)]
pub enum UrlRejection {
    /// The URL is longer than 2048 bytes.
    TooLong,
    /// The text does not parse as a URL.
    Unparsable,
    /// The scheme is not `https`.
    NotHttps,
    /// The URL has no host.
    NoHost,
    /// The host is a local or cloud-internal name.
    BlockedHost,
    /// The host resolved to no address.
    NoAddress,
    /// The host resolved to a private or reserved address.
    PrivateAddress,
}

/// A request target that passed the checks made before resolving its host.
#[derive(Clone, Debug)]
pub struct UrlTarget {
    pub host: String,
    pub port: u16,
}

/// An IP address: four octets, or eight 16-bit segments.
#[derive(Clone, Copy, Debug, PartialEq, Eq)]
pub enum IpAddress {
    V4([u8; 4]),
    V6([u16; 8]),
}

/// `b` ends with `suffix`.
pub open spec fn ends_with(b: Seq<u8>, suffix: Seq<u8>) -> bool {
    b.len() >= suffix.len() && b.subrange(b.len() - suffix.len(), b.len() as int) == suffix
}

/// A host name, lower case, that no request may go to: `localhost`, the cloud
/// metadata service, and names under `.internal` or `.local`.
pub open spec fn blocked_host(lower: Seq<u8>) -> bool {
    lower == "localhost".spec_bytes() || lower == "metadata.google.internal".spec_bytes()
        || ends_with(lower, ".internal".spec_bytes()) || ends_with(lower, ".local".spec_bytes())
}

/// A private or reserved IPv4 address: loopback 127/8, private 10/8,
/// 172.16/12 and 192.168/16, link-local 169.254/16, broadcast, unspecified,
/// and shared 100.64/10.
pub open spec fn private_v4(o: [u8; 4]) -> bool {
    o[0] == 127 || o[0] == 10 || (o[0] == 172 && 16 <= o[1] <= 31) || (o[0] == 192 && o[1] == 168)
        || (o[0] == 169 && o[1] == 254) || (o[0] == 255 && o[1] == 255 && o[2] == 255 && o[3] == 255)
        || (o[0] == 0 && o[1] == 0 && o[2] == 0 && o[3] == 0) || (o[0] == 100 && (o[1] & 0xC0) == 64)
}

/// A private or reserved IPv6 address: loopback `::1`, unspecified `::`,
/// unique-local fc00::/7, link-local fe80::/10 and IPv4-mapped ::ffff:0:0/96.
pub open spec fn private_v6(s: [u16; 8]) -> bool {
    let zero6 = s[0] == 0 && s[1] == 0 && s[2] == 0 && s[3] == 0 && s[4] == 0 && s[5] == 0;
    (zero6 && s[6] == 0 && s[7] == 1) || (zero6 && s[6] == 0 && s[7] == 0) || (s[0] & 0xFE00)
        == 0xFC00 || (s[0] & 0xFFC0) == 0xFE80 || (s[0] == 0 && s[1] == 0 && s[2] == 0 && s[3] == 0
        && s[4] == 0 && s[5] == 0xFFFF)
}

pub open spec fn private_ip(ip: IpAddress) -> bool {
    match ip {
        IpAddress::V4(o) => private_v4(o),
        IpAddress::V6(s) => private_v6(s),
    }
}

/// Whether an address is private or reserved.
pub fn is_private_ip(ip: &IpAddress) -> (r: bool)
    ensures
        r == private_ip(*ip),
{
    match ip {
        IpAddress::V4(o) => {
            o[0] == 127 || o[0] == 10 || (o[0] == 172 && 16 <= o[1] && o[1] <= 31) || (o[0] == 192
                && o[1] == 168) || (o[0] == 169 && o[1] == 254) || (o[0] == 255 && o[1] == 255
                && o[2] == 255 && o[3] == 255) || (o[0] == 0 && o[1] == 0 && o[2] == 0 && o[3] == 0)
                || (o[0] == 100 && (o[1] & 0xC0) == 64)
        },
        IpAddress::V6(s) => {
            let zero6 = s[0] == 0 && s[1] == 0 && s[2] == 0 && s[3] == 0 && s[4] == 0 && s[5] == 0;
            (zero6 && s[6] == 0 && s[7] == 1) || (zero6 && s[6] == 0 && s[7] == 0) || (s[0]
                & 0xFE00) == 0xFC00 || (s[0] & 0xFFC0) == 0xFE80 || (s[0] == 0 && s[1] == 0 && s[2]
                == 0 && s[3] == 0 && s[4] == 0 && s[5] == 0xFFFF)
        },
    }
}

/// Whether `b` ends with `suffix`.
fn ends_with_bytes(b: &[u8], suffix: &[u8]) -> (r: bool)
    ensures
        r == ends_with(b@, suffix@),
{
    if b.len() < suffix.len() {
        return false;
    }
    let n = b.len();
    let start = n - suffix.len();
    let mut i: usize = 0;
    while i < suffix.len()
        invariant
            n == b@.len(),
            start + suffix@.len() == n,
            0 <= i <= suffix@.len(),
            forall|k: int| 0 <= k < i ==> b@[start + k] == suffix@[k],
        decreases suffix@.len() - i,
    {
        if b[start + i] != suffix[i] {
            assert(b@.subrange(start as int, b@.len() as int)[i as int] != suffix@[i as int]);
            return false;
        }
        i = i + 1;
    }
    assert(b@.subrange(start as int, b@.len() as int) =~= suffix@);
    true
}

/// Whether a lower-case host name is one no request may go to.
pub fn is_blocked_host(lower: &str) -> (r: bool)
    ensures
        r == blocked_host(lower.spec_bytes()),
{
    let b = lower.as_bytes();
    bytes_equal(b, "localhost".as_bytes()) || bytes_equal(b, "metadata.google.internal".as_bytes())
        || ends_with_bytes(b, ".internal".as_bytes()) || ends_with_bytes(b, ".local".as_bytes())
}

/// The checks on a parsed URL's scheme and host.
pub open spec fn target_outcome(scheme: Seq<u8>, host: Option<Seq<char>>) -> Result<(), UrlRejection> {
    if scheme != "https".spec_bytes() {
        Err(UrlRejection::NotHttps)
    } else {
        match host {
            None => Err(UrlRejection::NoHost),
            Some(h) => if blocked_host(vstd::utf8::encode_utf8(lower_of(h))) {
                Err(UrlRejection::BlockedHost)
            } else {
                Ok(())
            },
        }
    }
}

/// Checks the scheme and host a URL parsed into.
pub fn check_target(scheme: &str, host: &Option<String>) -> (r: Result<(), UrlRejection>)
    ensures
        r == target_outcome(
            scheme.spec_bytes(),
            match host {
                Some(h) => Some(h@),
                None => None,
            },
        ),
{
    if !bytes_equal(scheme.as_bytes(), "https".as_bytes()) {
        return Err(UrlRejection::NotHttps);
    }
    match host {
        None => Err(UrlRejection::NoHost),
        Some(h) => {
            let lower = to_lowercase(h.as_str());
            if is_blocked_host(lower.as_str()) {
                Err(UrlRejection::BlockedHost)
            } else {
                Ok(())
            }
        },
    }
}

/// What checking a URL before resolving its host comes to: the host and port
/// to resolve, or the first check it fails.
pub open spec fn url_outcome(raw: &str) -> Result<(Seq<char>, u16), UrlRejection> {
    if raw.spec_bytes().len() > MAX_URL_BYTES {
        Err(UrlRejection::TooLong)
    } else {
        match url_parts(raw@) {
            None => Err(UrlRejection::Unparsable),
            Some((scheme, host, port)) => match target_outcome(vstd::utf8::encode_utf8(scheme), host) {
                Err(e) => Err(e),
                Ok(()) => Ok(
                    (
                        host->0,
                        match port {
                            Some(p) => p,
                            None => DEFAULT_HTTPS_PORT,
                        },
                    ),
                ),
            },
        }
    }
}

/// Checks a URL before its host is resolved: at most 2048 bytes, parsable,
/// HTTPS, with a host that is not local or cloud-internal. Gives the host and
/// port to resolve.
pub fn check_url(raw_url: &str) -> (r: Result<UrlTarget, UrlRejection>)
    ensures
        match r {
            Ok(t) => url_outcome(raw_url) == Ok::<(Seq<char>, u16), UrlRejection>((t.host@, t.port)),
            Err(e) => url_outcome(raw_url) == Err::<(Seq<char>, u16), UrlRejection>(e),
        },
{
    if raw_url.as_bytes().len() > MAX_URL_BYTES {
        return Err(UrlRejection::TooLong);
    }
    let (scheme, host, port) = match parse_url(raw_url) {
        Some(t) => t,
        None => {
            return Err(UrlRejection::Unparsable);
        },
    };
    match check_target(scheme.as_str(), &host) {
        Ok(()) => {},
        Err(e) => {
            return Err(e);
        },
    }
    let port = match port {
        Some(p) => p,
        None => DEFAULT_HTTPS_PORT,
    };
    match host {
        Some(h) => Ok(UrlTarget { host: h, port }),
        None => Err(UrlRejection::NoHost),
    }
}

/// Checks the addresses a host resolved to: there must be some, and none
/// private or reserved.
pub fn check_resolved_addresses(addrs: &Vec<IpAddress>) -> (r: Result<(), UrlRejection>)
    ensures
        addrs@.len() == 0 ==> r == Err::<(), UrlRejection>(UrlRejection::NoAddress),
        addrs@.len() > 0 ==> (r == Err::<(), UrlRejection>(UrlRejection::PrivateAddress) <==> exists|i: int|
            0 <= i < addrs@.len() && private_ip(#[trigger] addrs@[i])),
        addrs@.len() > 0 ==> (r is Ok <==> forall|i: int| 0 <= i < addrs@.len() ==> !private_ip(#[trigger] addrs@[i])),
{
    if addrs.len() == 0 {
        return Err(UrlRejection::NoAddress);
    }
    let mut i: usize = 0;
    while i < addrs.len()
        invariant
            0 <= i <= addrs@.len(),
            forall|k: int| 0 <= k < i ==> !private_ip(#[trigger] addrs@[k]),
        decreases addrs@.len() - i,
    {
        if is_private_ip(&addrs[i]) {
            return Err(UrlRejection::PrivateAddress);
        }
        i = i + 1;
    }
    Ok(())
}

/// Header names, lower case, that are never forwarded: credentials, cookies
/// and the proxy forwarding headers.
pub open spec fn blocked_header(lower: Seq<u8>) -> bool {
    lower == "authorization".spec_bytes() || lower == "cookie".spec_bytes() || lower
        == "set-cookie".spec_bytes() || lower == "x-forwarded-for".spec_bytes() || lower
        == "x-forwarded-host".spec_bytes() || lower == "x-forwarded-proto".spec_bytes() || lower
        == "x-real-ip".spec_bytes() || lower == "proxy-authorization".spec_bytes() || lower
        == "cf-connecting-ip".spec_bytes()
}

/// Whether a header is kept: its lower-cased name is not blocked.
pub open spec fn header_kept(h: (String, String)) -> bool {
    !blocked_header(vstd::utf8::encode_utf8(lower_of(h.0@)))
}

/// The headers kept, in order.
pub open spec fn kept_headers(hs: Seq<(String, String)>) -> Seq<(String, String)>
    decreases hs.len(),
{
    if hs.len() == 0 {
        Seq::empty()
    } else if header_kept(hs.last()) {
        kept_headers(hs.drop_last()).push(hs.last())
    } else {
        kept_headers(hs.drop_last())
    }
}

/// Whether a lower-case header name is blocked.
fn is_blocked_header(lower: &str) -> (r: bool)
    ensures
        r == blocked_header(lower.spec_bytes()),
{
    let b = lower.as_bytes();
    bytes_equal(b, "authorization".as_bytes()) || bytes_equal(b, "cookie".as_bytes())
        || bytes_equal(b, "set-cookie".as_bytes()) || bytes_equal(b, "x-forwarded-for".as_bytes())
        || bytes_equal(b, "x-forwarded-host".as_bytes()) || bytes_equal(
        b,
        "x-forwarded-proto".as_bytes(),
    ) || bytes_equal(b, "x-real-ip".as_bytes()) || bytes_equal(
        b,
        "proxy-authorization".as_bytes(),
    ) || bytes_equal(b, "cf-connecting-ip".as_bytes())
}

/// The headers whose names, compared without regard to case, are not blocked,
/// in their order.
pub fn filter_headers(headers: &Vec<(String, String)>) -> (r: Vec<(String, String)>)
    ensures
        r@ == kept_headers(headers@),
{
    let mut out: Vec<(String, String)> = Vec::new();
    let mut i: usize = 0;
    while i < headers.len()
        invariant
            0 <= i <= headers@.len(),
            out@ == kept_headers(headers@.subrange(0, i as int)),
        decreases headers@.len() - i,
    {
        let (k, v) = &headers[i];
        let lower = to_lowercase(k.as_str());
        proof {
            let next = headers@.subrange(0, i + 1);
            assert(next.drop_last() =~= headers@.subrange(0, i as int));
            assert(next.last() == headers@[i as int]);
        }
        if !is_blocked_header(lower.as_str()) {
            out.push((k.clone(), v.clone()));
        }
        i = i + 1;
    }
    assert(headers@.subrange(0, headers@.len() as int) =~= headers@);
    out
}

} // verus!
