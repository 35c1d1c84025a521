use convex_backend::fetch::{
    blocked_host_reason, count_sent, ip_to_text, is_blocked_ip, parse_url, refuse_request,
    refuse_response, resolve_host, ssrf_guard, Host, IpAddr, ResolveFault, StaticFetchClient,
};

fn address(ip: &str) -> IpAddr {
    let url = if ip.contains(':') {
        format!("http://[{ip}]/")
    } else {
        format!("http://{ip}/")
    };
    match parse_url(&url).unwrap().host {
        Some(Host::Ip(ip)) => ip,
        other => panic!("{other:?}"),
    }
}

fn blocked(ip: &str) -> bool {
    is_blocked_ip(&address(ip))
}

#[test]
fn blocks_private_ipv4_ranges() {
    for ip in [
        "0.0.0.0",
        "0.255.255.255",
        "10.0.0.1",
        "10.255.255.255",
        "100.64.0.1",
        "100.127.255.255",
        "127.0.0.1",
        "127.255.255.255",
        "169.254.0.1",
        "169.254.169.254",
        "169.254.255.255",
        "172.16.0.1",
        "172.31.255.255",
        "192.0.0.1",
        "192.0.2.1",
        "192.168.0.1",
        "192.168.255.255",
        "198.18.0.1",
        "198.19.255.255",
        "198.51.100.1",
        "203.0.113.1",
        "224.0.0.1",
        "239.255.255.255",
        "240.0.0.1",
        "255.255.255.255",
    ] {
        assert!(blocked(ip), "{ip} should be blocked");
    }
}

#[test]
fn allows_public_ipv4() {
    for ip in [
        "1.1.1.1",
        "8.8.8.8",
        "9.9.9.9",
        "23.0.0.1",
        "52.0.0.1",
        "100.63.255.255",
        "100.128.0.1",
        "169.253.255.255",
        "169.255.0.1",
        "172.15.255.255",
        "172.32.0.1",
        "192.0.3.1",
        "192.169.0.1",
        "198.17.255.255",
        "198.20.0.1",
        "223.255.255.255",
    ] {
        assert!(!blocked(ip), "{ip} should be allowed");
    }
}

#[test]
fn blocks_private_ipv6_ranges() {
    for ip in [
        "::",
        "::1",
        "::ffff:127.0.0.1",
        "::ffff:169.254.169.254",
        "::ffff:10.0.0.1",
        "64:ff9b::1",
        "64:ff9b::c000:201",
        "fc00::1",
        "fd00::1",
        "fdff:ffff:ffff:ffff:ffff:ffff:ffff:ffff",
        "fe80::1",
        "fe9f::1",
        "febf::1",
    ] {
        assert!(blocked(ip), "{ip} should be blocked");
    }
}

#[test]
fn blocks_ipv6_multicast() {
    for ip in ["ff00::", "ff02::1", "ff0e::1", "ffff:ffff:ffff:ffff:ffff:ffff:ffff:ffff"] {
        assert!(blocked(ip), "{ip} should be blocked");
    }
}

#[test]
fn allows_public_ipv6() {
    for ip in [
        "2001:4860:4860::8888",
        "2606:4700:4700::1111",
        "2a00:1450:4001:810::200e",
        "2400:cb00::1",
        "fbff::1",
        "f800::1",
    ] {
        assert!(!blocked(ip), "{ip} should be allowed");
    }
}

#[test]
fn blocks_ip_literal_hosts_in_urls() {
    for url in [
        "http://10.0.0.1/",
        "http://127.0.0.1:8080/",
        "http://169.254.169.254/latest/meta-data/",
        "http://192.168.1.1/",
        "http://[::1]/",
        "http://[fe80::1]/",
        "http://[::ffff:169.254.169.254]/",
    ] {
        let parsed = parse_url(url).unwrap();
        let host = parsed.host.unwrap();
        assert!(
            blocked_host_reason(&host).is_some(),
            "host {host:?} in {url} should be blocked"
        );
    }
}

#[test]
fn allows_public_ip_literal_and_domain_hosts() {
    for url in [
        "https://8.8.8.8/",
        "http://[2606:4700:4700::1111]/",
        "https://example.com/",
        "http://localhost/",
    ] {
        let parsed = parse_url(url).unwrap();
        let host = parsed.host.unwrap();
        assert!(
            blocked_host_reason(&host).is_none(),
            "host {host:?} in {url} should not be blocked by the URL check (domains are \
             validated at DNS resolution time)"
        );
    }
}

#[test]
fn boundary_ranges_are_correct() {
    assert!(blocked("172.16.0.0"));
    assert!(!blocked("172.15.255.255"));
    assert!(blocked("172.31.255.255"));
    assert!(!blocked("172.32.0.0"));
    assert!(blocked("100.64.0.0"));
    assert!(!blocked("100.63.255.255"));
    assert!(blocked("100.127.255.255"));
    assert!(!blocked("100.128.0.0"));
    assert!(blocked("169.254.0.0"));
    assert!(!blocked("169.253.255.255"));
    assert!(blocked("192.168.0.0"));
    assert!(!blocked("192.169.0.0"));
    assert!(blocked("198.18.0.0"));
    assert!(!blocked("198.17.255.255"));
    assert!(blocked("198.19.255.255"));
    assert!(!blocked("198.20.0.0"));
    assert!(blocked("224.0.0.0"));
    assert!(!blocked("223.255.255.255"));
}

#[test]
fn addresses_are_written_as_usual() {
    assert_eq!(ip_to_text(&IpAddr::V4([10, 0, 0, 255])), "10.0.0.255");
    assert_eq!(ip_to_text(&address("2001:db8:0:0:1:0:0:1")), "2001:db8::1:0:0:1");
    assert_eq!(ip_to_text(&address("::ffff:10.0.0.1")), "::ffff:10.0.0.1");
}

#[test]
fn names_resolve_to_allowed_addresses_only() {
    let public = IpAddr::V4([8, 8, 8, 8]);
    let private = IpAddr::V4([10, 0, 0, 1]);
    let ok = resolve_host(vec![public, public]).unwrap();
    assert_eq!(ok.len(), 2);

    let none = resolve_host(vec![]).unwrap_err();
    assert!(matches!(none, ResolveFault::NoAddress));
    assert_eq!(none.message("example.com"), "example.com resolved to no IP addresses");

    let mixed = resolve_host(vec![public, private]).unwrap_err();
    assert_eq!(
        mixed.message("example.com"),
        "refusing to connect to example.com: resolved to a private, loopback, link-local, or \
         metadata IP address (10.0.0.1)"
    );
}

#[test]
fn guarded_requests_are_refused() {
    let url = parse_url("http://10.0.0.1/x").unwrap();
    assert_eq!(
        refuse_request(true, &url).unwrap(),
        "Request to http://10.0.0.1/x forbidden: host 10.0.0.1 is a private, loopback, \
         link-local, or metadata IP address"
    );
    assert!(refuse_request(false, &url).is_none());
    assert!(refuse_request(true, &parse_url("https://example.com").unwrap()).is_none());
    assert!(refuse_request(true, &parse_url("data:text/plain,hi").unwrap()).is_none());

    assert!(ssrf_guard(false, false));
    assert!(!ssrf_guard(true, false));
    assert!(!ssrf_guard(false, true));
    assert!(!ssrf_guard(true, true));
}

#[test]
fn the_proxy_can_refuse() {
    let url = parse_url("https://example.com").unwrap();
    assert_eq!(
        refuse_response(407, &url).unwrap(),
        "Request to https://example.com/ forbidden"
    );
    assert!(refuse_response(200, &url).is_none());
    assert!(refuse_response(403, &url).is_none());
}

#[test]
fn texts_that_are_no_urls_are_reported() {
    assert_eq!(parse_url("example.com").unwrap_err(), "relative URL without a base");
}

#[test]
fn sent_bytes_are_counted() {
    assert_eq!(count_sent(10, Some(5)), 15);
    assert_eq!(count_sent(10, None), 10);
    assert_eq!(count_sent(u64::MAX, Some(2)), 1);
}

#[test]
fn static_routes_answer() {
    let mut client = StaticFetchClient::new();
    client.register_http_route("https://a/".to_string(), "GET".to_string(), 1);
    client.register_http_route("https://a/".to_string(), "POST".to_string(), 2);
    assert_eq!(client.fetch("https://a/", "GET"), Some(1));
    assert_eq!(client.fetch("https://a/", "POST"), Some(2));
    assert_eq!(client.fetch("https://b/", "GET"), None);
    assert_eq!(client.num_calls(), 3);
    client.register_http_route("https://a/".to_string(), "GET".to_string(), 7);
    assert_eq!(client.fetch("https://a/", "GET"), Some(7));
}
