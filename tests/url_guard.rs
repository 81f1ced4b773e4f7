use tls_oracle::prover::proof_from_generator_output;
use tls_oracle::url_guard::{
    check_resolved_addresses, check_url, filter_headers, is_blocked_host, is_private_ip, IpAddress,
    UrlRejection,
};

fn s(v: &str) -> String {
    v.to_string()
}

#[test]
fn test_https_only() {
    assert!(check_url("http://example.com").is_err());
    assert!(check_url("ftp://example.com").is_err());
    assert!(check_url("file:///etc/passwd").is_err());
}

#[test]
fn test_blocked_hosts() {
    assert!(check_url("https://localhost/foo").is_err());
    assert!(check_url("https://metadata.google.internal/").is_err());
    assert!(check_url("https://something.internal/").is_err());
    assert!(check_url("https://printer.local/").is_err());
}

#[test]
fn test_url_too_long() {
    let long = format!("https://example.com/{}", "a".repeat(2100));
    assert!(check_url(&long).is_err());
    assert_eq!(check_url(&long).unwrap_err(), UrlRejection::TooLong);
}

#[test]
fn test_private_ips() {
    assert!(is_private_ip(&IpAddress::V4([127, 0, 0, 1])));
    assert!(is_private_ip(&IpAddress::V4([10, 0, 0, 1])));
    assert!(is_private_ip(&IpAddress::V4([192, 168, 1, 1])));
    assert!(is_private_ip(&IpAddress::V4([172, 16, 0, 1])));
    assert!(is_private_ip(&IpAddress::V4([169, 254, 169, 254])));
    assert!(is_private_ip(&IpAddress::V6([0, 0, 0, 0, 0, 0, 0, 1])));
    assert!(!is_private_ip(&IpAddress::V4([8, 8, 8, 8])));
    assert!(!is_private_ip(&IpAddress::V4([1, 1, 1, 1])));
}

#[test]
fn test_filter_headers() {
    let h = vec![
        (s("Authorization"), s("Bearer secret")),
        (s("Accept"), s("application/json")),
        (s("Cookie"), s("session=abc")),
    ];
    let filtered = filter_headers(&h);
    assert_eq!(filtered.len(), 1);
    assert!(filtered.iter().any(|(k, _)| k == "Accept"));
}

#[test]
fn test_valid_url() {
    let result = check_url("https://api.coingecko.com/api/v3/ping");
    assert!(result.is_ok());
    let target = result.unwrap();
    assert_eq!(target.host, "api.coingecko.com");
    assert_eq!(target.port, 443);
}

#[test]
fn url_rejections_by_kind() {
    assert_eq!(check_url("http://example.com").unwrap_err(), UrlRejection::NotHttps);
    assert_eq!(check_url("not a url").unwrap_err(), UrlRejection::Unparsable);
    assert_eq!(check_url("https://LocalHost/").unwrap_err(), UrlRejection::BlockedHost);
    assert_eq!(check_url("https://example.com:8443/x").unwrap().port, 8443);
    let exact = format!("https://example.com/{}", "a".repeat(2048 - 20));
    assert_eq!(exact.len(), 2048);
    assert!(check_url(&exact).is_ok());
}

#[test]
fn blocked_host_names() {
    assert!(is_blocked_host("localhost"));
    assert!(is_blocked_host("a.b.internal"));
    assert!(is_blocked_host(".local"));
    assert!(!is_blocked_host("local"));
    assert!(!is_blocked_host("example.com"));
}

#[test]
fn more_reserved_ranges() {
    assert!(is_private_ip(&IpAddress::V4([172, 31, 255, 255])));
    assert!(!is_private_ip(&IpAddress::V4([172, 32, 0, 1])));
    assert!(is_private_ip(&IpAddress::V4([100, 64, 0, 1])));
    assert!(!is_private_ip(&IpAddress::V4([100, 128, 0, 1])));
    assert!(is_private_ip(&IpAddress::V4([255, 255, 255, 255])));
    assert!(is_private_ip(&IpAddress::V4([0, 0, 0, 0])));
    assert!(is_private_ip(&IpAddress::V6([0, 0, 0, 0, 0, 0, 0, 0])));
    assert!(is_private_ip(&IpAddress::V6([0xfd00, 0, 0, 0, 0, 0, 0, 1])));
    assert!(is_private_ip(&IpAddress::V6([0xfe80, 0, 0, 0, 0, 0, 0, 1])));
    assert!(is_private_ip(&IpAddress::V6([0, 0, 0, 0, 0, 0xffff, 0x7f00, 1])));
    assert!(!is_private_ip(&IpAddress::V6([0x2001, 0x4860, 0, 0, 0, 0, 0, 0x8888])));
}

#[test]
fn resolved_addresses() {
    assert_eq!(check_resolved_addresses(&vec![]), Err(UrlRejection::NoAddress));
    assert_eq!(
        check_resolved_addresses(&vec![IpAddress::V4([8, 8, 8, 8]), IpAddress::V4([10, 1, 1, 1])]),
        Err(UrlRejection::PrivateAddress)
    );
    assert_eq!(check_resolved_addresses(&vec![IpAddress::V4([8, 8, 8, 8])]), Ok(()));
}

#[test]
fn header_filter_ignores_case_and_keeps_order() {
    let h = vec![
        (s("X-Forwarded-For"), s("1.2.3.4")),
        (s("User-Agent"), s("a")),
        (s("SET-COOKIE"), s("x")),
        (s("Accept"), s("b")),
        (s("proxy-authorization"), s("y")),
    ];
    let filtered = filter_headers(&h);
    assert_eq!(filtered, vec![(s("User-Agent"), s("a")), (s("Accept"), s("b"))]);
    assert_eq!(filter_headers(&vec![]).len(), 0);
}

#[test]
fn generator_output_shape() {
    let two = vec![s("1"), s("2")];
    let b = vec![vec![s("3"), s("4")], vec![s("5"), s("6")]];
    let signals = vec![s("7"), s("8"), s("9"), s("10")];
    let p = proof_from_generator_output(&two, &b, &two, &signals).unwrap();
    assert_eq!(p.proof_b[1][0], "5");
    assert_eq!(p.public_signals[3], "10");
    assert!(proof_from_generator_output(&two, &b, &two, &signals[..3].to_vec()).is_none());
    assert!(proof_from_generator_output(&vec![s("1")], &b, &two, &signals).is_none());
    let short_b = vec![vec![s("3")], vec![s("5"), s("6")]];
    assert!(proof_from_generator_output(&two, &short_b, &two, &signals).is_none());
}
