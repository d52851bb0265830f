use linuxdo_accelerator::config::AppConfig;
use linuxdo_accelerator::dispatch::{
    attempt_server_name, dispatch_upstream_request, effective_fake_sni_candidates, judge_reply,
    negotiated_h2, plan_attempts, server_name_if, should_retry_front_status, transport_for,
    Attempt, DispatchStep, Transport,
};
use linuxdo_accelerator::dns_hosts::DnsHosts;
use linuxdo_accelerator::doh::IpAddress;
use linuxdo_accelerator::resolve_cache::{ResolvedUpstream, SocketAddress};

fn config(fake_sni: Option<&str>) -> AppConfig {
    AppConfig {
        listen_host: String::new(),
        hosts_ip: String::new(),
        http_port: 80,
        https_port: 443,
        upstream: String::new(),
        fake_sni: fake_sni.map(|s| s.to_string()),
        doh_endpoints: Vec::new(),
        dns_hosts: DnsHosts::new(),
        proxy_domains: Vec::new(),
        hosts_domains: Vec::new(),
        certificate_domains: Vec::new(),
        ca_common_name: String::new(),
        server_common_name: String::new(),
    }
}

fn addr(ip: u32) -> SocketAddress {
    SocketAddress { ip: IpAddress::V4(ip), port: 443 }
}

const DEFAULTS: [&str; 5] = [
    "www.cloudflare.com",
    "cdnjs.cloudflare.com",
    "developers.cloudflare.com",
    "dash.cloudflare.com",
    "one.one.one.one",
];

#[test]
fn fronts_start_with_the_configured_one() {
    let fronts = effective_fake_sni_candidates(&config(Some(" own.example ")));
    assert_eq!(fronts[0], "own.example");
    assert_eq!(fronts[1..].to_vec(), DEFAULTS.to_vec());
    let moved = effective_fake_sni_candidates(&config(Some("dash.cloudflare.com")));
    assert_eq!(
        moved,
        vec![
            "dash.cloudflare.com",
            "www.cloudflare.com",
            "cdnjs.cloudflare.com",
            "developers.cloudflare.com",
            "one.one.one.one",
        ]
    );
    assert_eq!(effective_fake_sni_candidates(&config(Some("  "))), DEFAULTS.to_vec());
    assert_eq!(effective_fake_sni_candidates(&config(None)), DEFAULTS.to_vec());
}

#[test]
fn attempts_go_by_ech_and_then_by_front() {
    let fronts = vec!["a".to_string(), "b".to_string()];
    let mut upstream = ResolvedUpstream {
        addrs: vec![addr(1), addr(2)],
        ech_config_list: Some(vec![0]),
    };
    let plan: Vec<(Option<String>, SocketAddress)> =
        plan_attempts(&upstream, &fronts).into_iter().map(|a| (a.front, a.addr)).collect();
    let front = |name: &str, ip: u32| (Some(name.to_string()), addr(ip));
    assert_eq!(
        plan,
        vec![
            (None, addr(1)),
            (None, addr(2)),
            front("a", 1),
            front("a", 2),
            front("b", 1),
            front("b", 2),
        ]
    );
    upstream.ech_config_list = None;
    assert_eq!(plan_attempts(&upstream, &fronts).len(), 4);
    upstream.addrs.clear();
    assert!(plan_attempts(&upstream, &fronts).is_empty());
}

#[test]
fn attempts_are_made_until_they_run_out() {
    let plan = vec![Attempt { front: None, addr: addr(1) }, Attempt { front: None, addr: addr(2) }];
    let mut failures: Vec<String> = Vec::new();
    assert!(matches!(dispatch_upstream_request(&plan, &failures), DispatchStep::Attempt(0)));
    failures.push("first".to_string());
    assert!(matches!(dispatch_upstream_request(&plan, &failures), DispatchStep::Attempt(1)));
    failures.push("second".to_string());
    match dispatch_upstream_request(&plan, &failures) {
        DispatchStep::Fail(error) => assert_eq!(error, "second"),
        DispatchStep::Attempt(_) => panic!("there is no third attempt"),
    }
    match dispatch_upstream_request(&Vec::new(), &Vec::new()) {
        DispatchStep::Fail(error) => assert_eq!(error, "no usable upstream address"),
        DispatchStep::Attempt(_) => panic!("there is no attempt"),
    }
}

fn follow(plan: &Vec<Attempt>, replies: &[Result<u16, &str>]) -> Result<usize, String> {
    let mut failures = Vec::new();
    loop {
        let i = match dispatch_upstream_request(plan, &failures) {
            DispatchStep::Attempt(i) => i,
            DispatchStep::Fail(error) => return Err(error),
        };
        match replies[i] {
            Ok(status) => match judge_reply(&plan[i], status) {
                Some(error) => failures.push(error),
                None => return Ok(i),
            },
            Err(error) => failures.push(error.to_string()),
        }
    }
}

#[test]
fn the_first_reply_that_counts_is_handed_on() {
    let front = Some("front.example".to_string());
    let plan = vec![
        Attempt { front: None, addr: addr(1) },
        Attempt { front: front.clone(), addr: addr(1) },
        Attempt { front: front.clone(), addr: addr(2) },
    ];
    assert_eq!(follow(&plan, &[Ok(403), Ok(200), Ok(200)]), Ok(0));
    assert_eq!(follow(&plan, &[Err("reset"), Ok(403), Ok(404)]), Ok(2));
    assert_eq!(
        follow(&plan, &[Err("reset"), Err("timeout"), Ok(421)]),
        Err("front domain front.example returned retryable status 421 Misdirected Request"
            .to_string())
    );
    assert_eq!(follow(&plan, &[Err("a"), Ok(400), Err("c")]), Err("c".to_string()));
}

#[test]
fn fronts_may_refuse() {
    let fronted = Attempt { front: Some("front.example".to_string()), addr: addr(1) };
    for (status, text) in [
        (400, "400 Bad Request"),
        (403, "403 Forbidden"),
        (421, "421 Misdirected Request"),
        (431, "431 Request Header Fields Too Large"),
    ] {
        assert!(should_retry_front_status(status));
        assert_eq!(
            judge_reply(&fronted, status),
            Some(format!("front domain front.example returned retryable status {text}"))
        );
    }
    for status in [200, 301, 401, 404, 429, 500, 502] {
        assert!(!should_retry_front_status(status));
        assert_eq!(judge_reply(&fronted, status), None);
    }
}

#[test]
fn replies_over_ech_count() {
    let hidden = Attempt { front: None, addr: addr(1) };
    assert_eq!(judge_reply(&hidden, 403), None);
    assert_eq!(judge_reply(&hidden, 200), None);
}

#[test]
fn only_http_goes_without_tls() {
    assert_eq!(transport_for("http"), Transport::Plain);
    assert_eq!(transport_for("HTTP"), Transport::Plain);
    assert_eq!(transport_for("https"), Transport::Tls);
    assert_eq!(transport_for(""), Transport::Tls);
}

#[test]
fn http2_has_its_name() {
    assert!(negotiated_h2(Some(b"h2")));
    assert!(!negotiated_h2(Some(b"http/1.1")));
    assert!(!negotiated_h2(Some(b"h3")));
    assert!(!negotiated_h2(None));
}

#[test]
fn server_names_are_checked() {
    let front = Some("www.cloudflare.com".to_string());
    assert_eq!(attempt_server_name(&front, "linux.do"), Ok("www.cloudflare.com".to_string()));
    assert_eq!(attempt_server_name(&None, "linux.do"), Ok("linux.do".to_string()));
    assert_eq!(attempt_server_name(&None, "::1"), Ok("::1".to_string()));
    assert_eq!(
        attempt_server_name(&None, "not a name"),
        Err("failed to construct upstream SNI name: invalid dns name".to_string())
    );
    assert_eq!(server_name_if(&front, "linux.do", true), Ok("www.cloudflare.com".to_string()));
    assert!(server_name_if(&front, "linux.do", false).is_err());
}
