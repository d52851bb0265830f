use http::header::{HeaderMap, HeaderName, HeaderValue};
use linuxdo_accelerator::config::AppConfig;
use linuxdo_accelerator::dns_hosts::DnsHosts;
use linuxdo_accelerator::request::{
    build_upstream_request, extract_host, header_text, listen_address, proxy_handler,
    redirect_handler, request_path, response_headers, should_skip_request_header,
    should_skip_response_header, upstream_failure, upstream_from_url, upstream_target, Route,
};

fn config(domains: &[&str]) -> AppConfig {
    AppConfig {
        listen_host: "127.211.73.84".to_string(),
        hosts_ip: String::new(),
        http_port: 80,
        https_port: 443,
        upstream: "https://linux.do".to_string(),
        fake_sni: None,
        doh_endpoints: Vec::new(),
        dns_hosts: DnsHosts::new(),
        proxy_domains: domains.iter().map(|d| d.to_string()).collect(),
        hosts_domains: Vec::new(),
        certificate_domains: Vec::new(),
        ca_common_name: String::new(),
        server_common_name: "fallback.example".to_string(),
    }
}

fn headers(entries: &[(&str, &[u8])]) -> HeaderMap {
    let mut map = HeaderMap::new();
    for (name, value) in entries {
        map.append(
            HeaderName::from_bytes(name.as_bytes()).unwrap(),
            HeaderValue::from_bytes(value).unwrap(),
        );
    }
    map
}

#[test]
fn host_is_read_from_its_header() {
    let settings = config(&["linux.do"]);
    let map = headers(&[("Accept", b"*/*"), ("Host", b"WWW.Linux.do:443"), ("host", b"second")]);
    assert_eq!(extract_host(&map, &settings), Some("www.linux.do".to_string()));
    assert_eq!(extract_host(&headers(&[("host", b":80")]), &settings), Some(String::new()));
}

#[test]
fn host_falls_back_to_the_first_domain() {
    let settings = config(&["Linux.do", "www.linux.do"]);
    assert_eq!(extract_host(&HeaderMap::new(), &settings), Some("Linux.do".to_string()));
    let invisible = headers(&[("host", b"linux\xff.do")]);
    assert_eq!(extract_host(&invisible, &settings), Some("Linux.do".to_string()));
    assert_eq!(extract_host(&HeaderMap::new(), &config(&[])), None);
}

#[test]
fn header_values_are_read_as_the_http_crate_reads_them() {
    for b in 0..=255u8 {
        if let Ok(value) = HeaderValue::from_bytes(&[b]) {
            assert_eq!(
                header_text(&vec![b]).as_deref(),
                value.to_str().ok(),
                "byte {}",
                b
            );
        }
    }
}

#[test]
fn requests_are_routed() {
    let settings = config(&["linux.do", "*.linux.do"]);
    match proxy_handler(&headers(&[("host", b"cdn.linux.do")]), &settings) {
        Route::Forward(host) => assert_eq!(host, "cdn.linux.do"),
        other => panic!("{other:?}"),
    }
    match proxy_handler(&headers(&[("host", b"example.org")]), &settings) {
        Route::Refuse(status, text) => {
            assert_eq!(status, 502);
            assert_eq!(text, "host is not managed by linuxdo-accelerator");
        }
        other => panic!("{other:?}"),
    }
    match proxy_handler(&HeaderMap::new(), &config(&[])) {
        Route::Refuse(status, text) => {
            assert_eq!(status, 400);
            assert_eq!(text, "missing Host header");
        }
        other => panic!("{other:?}"),
    }
    match upstream_failure("timed out") {
        Route::Refuse(status, text) => {
            assert_eq!(status, 502);
            assert_eq!(text, "upstream request failed: timed out");
        }
        other => panic!("{other:?}"),
    }
}

#[test]
fn requests_are_redirected() {
    let mut settings = config(&["linux.do"]);
    let map = headers(&[("host", b"Linux.do:80")]);
    assert_eq!(
        redirect_handler(&map, &settings, Some("/t/topic?x=1")).location,
        "https://linux.do/t/topic?x=1"
    );
    settings.https_port = 8443;
    assert_eq!(redirect_handler(&map, &settings, None).location, "https://linux.do:8443/");
    let answer = redirect_handler(&map, &settings, Some("/t/1?page=2"));
    assert_eq!(answer.status, 301);
    assert_eq!(answer.location, "https://linux.do:8443/t/1?page=2");
    assert!(answer.body.is_empty());
    let mut bare = config(&[]);
    bare.https_port = 443;
    assert_eq!(
        redirect_handler(&HeaderMap::new(), &bare, None).location,
        "https://fallback.example/"
    );
    assert_eq!(request_path(None), "/");
    assert_eq!(request_path(Some("/a")), "/a");
}

#[test]
fn upstream_is_found_in_its_url() {
    let mut settings = config(&[]);
    assert_eq!(upstream_target(&settings), Ok(("https".to_string(), 443)));
    settings.upstream = "HTTP://linux.do:8080/x".to_string();
    assert_eq!(upstream_target(&settings), Ok(("http".to_string(), 8080)));
    settings.upstream = "custom://linux.do".to_string();
    assert_eq!(upstream_target(&settings), Err("upstream URL is missing port".to_string()));
    settings.upstream = "linux.do".to_string();
    assert_eq!(
        upstream_target(&settings),
        Err("failed to parse upstream URL linux.do: relative URL without a base".to_string())
    );
}

#[test]
fn url_results_are_judged() {
    let parsed = Ok(("https".to_string(), Some(443)));
    assert_eq!(upstream_from_url("u", parsed), Ok(("https".to_string(), 443)));
    let portless = Ok(("https".to_string(), None));
    assert_eq!(
        upstream_from_url("u", portless),
        Err("upstream URL is missing port".to_string())
    );
    assert_eq!(
        upstream_from_url("u", Err("bad".to_string())),
        Err("failed to parse upstream URL u: bad".to_string())
    );
}

#[test]
fn headers_of_the_connection_are_left_out() {
    for name in [
        "connection",
        "Keep-Alive",
        "proxy-authenticate",
        "PROXY-AUTHORIZATION",
        "te",
        "trailers",
        "transfer-encoding",
        "upgrade",
    ] {
        assert!(should_skip_request_header(name), "{}", name);
        assert!(should_skip_response_header(name), "{}", name);
    }
    for name in ["Host", "Proxy-Connection"] {
        assert!(should_skip_request_header(name), "{}", name);
        assert!(!should_skip_response_header(name), "{}", name);
    }
    for name in ["cookie", "content-length", "x-te", ""] {
        assert!(!should_skip_request_header(name), "{}", name);
        assert!(!should_skip_response_header(name), "{}", name);
    }
}

#[test]
fn requests_are_handed_on_with_one_host() {
    let map = headers(&[
        ("host", b"a"),
        ("cookie", b"x=\xff"),
        ("connection", b"close"),
        ("cookie", b"y"),
    ]);
    let kept = build_upstream_request("linux.do", &map).unwrap();
    let list: Vec<(&str, &[u8])> =
        kept.iter().map(|h| (h.name.as_str(), h.value.as_slice())).collect();
    let expected: Vec<(&str, &[u8])> =
        vec![("cookie", b"x=\xff"), ("cookie", b"y"), ("host", b"linux.do")];
    assert_eq!(list, expected);
}

#[test]
fn responses_are_handed_on() {
    let map = headers(&[("transfer-encoding", b"chunked"), ("set-cookie", b"1"), ("host", b"h")]);
    let kept = response_headers(&map);
    assert_eq!(kept.len(), 2);
    assert_eq!(kept[0].name, "set-cookie");
    assert_eq!(kept[0].value, b"1");
    assert_eq!(kept[1].name, "host");
}

#[test]
fn addresses_are_written_with_their_port() {
    assert_eq!(listen_address("127.211.73.84", 443), "127.211.73.84:443");
}

#[test]
fn hosts_that_are_no_header_values_are_refused() {
    for c in ('\0'..='\u{ff}').chain(['中']) {
        let host = format!("a{c}b");
        let built = build_upstream_request(&host, &HeaderMap::new());
        assert_eq!(built.is_ok(), HeaderValue::from_str(&host).is_ok(), "{:?}", c);
        if let Err(error) = built {
            assert_eq!(
                error,
                "failed to build upstream request: failed to parse header value"
            );
        }
    }
}
