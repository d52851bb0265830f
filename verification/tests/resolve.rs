use linuxdo_accelerator::config::AppConfig;
use linuxdo_accelerator::dns_hosts::DnsHosts;
use linuxdo_accelerator::doh::{DohAnswer, IpAddress};
use linuxdo_accelerator::resolve::{
    assemble_upstream, cache_key, parse_dns_host_override, resolve_upstream, DnsHostOverride,
    ResolveError, ResolveKnown, ResolveStep,
};
use linuxdo_accelerator::resolve_cache::{
    ResolveCache, ResolvedUpstream, SocketAddress, RESOLVE_CACHE_TTL,
};

fn config() -> AppConfig {
    AppConfig {
        listen_host: String::new(),
        hosts_ip: String::new(),
        http_port: 80,
        https_port: 443,
        upstream: "https://linux.do".to_string(),
        fake_sni: None,
        doh_endpoints: Vec::new(),
        dns_hosts: DnsHosts::new(),
        proxy_domains: Vec::new(),
        hosts_domains: Vec::new(),
        certificate_domains: Vec::new(),
        ca_common_name: String::new(),
        server_common_name: String::new(),
    }
}

fn upstream(ip: u32) -> ResolvedUpstream {
    ResolvedUpstream {
        addrs: vec![SocketAddress { ip: IpAddress::V4(ip), port: 443 }],
        ech_config_list: None,
    }
}

fn ech_list(kem: u8) -> Vec<u8> {
    let name = b"cloudflare-ech.com";
    let mut contents = vec![7u8, 0, kem, 0, 32];
    contents.extend([9u8; 32]);
    contents.extend([0, 4, 0, 1, 0, 1]);
    contents.push(64);
    contents.push(name.len() as u8);
    contents.extend(name);
    contents.extend([0, 0]);
    let mut config = vec![0xfe, 0x0d, 0, contents.len() as u8];
    config.extend(contents);
    let mut list = vec![0, config.len() as u8];
    list.extend(config);
    list
}

fn https_answer(list: &[u8]) -> DohAnswer {
    let mut bytes = vec![0, 1, 0, 0, 5, 0, list.len() as u8];
    bytes.extend(list);
    let mut data = format!("\\# {}", bytes.len());
    for b in &bytes {
        data.push_str(&format!(" {b:02x}"));
    }
    DohAnswer { record_type: 65, data }
}

#[test]
fn address_is_its_own_upstream() {
    let mut known = ResolveKnown::nothing();
    match resolve_upstream(&config(), "1.2.3.4", 443, &known) {
        ResolveStep::ReadLiteral(text) => assert_eq!(text, "1.2.3.4"),
        other => panic!("{other:?}"),
    }
    known.literal = Some(Some(IpAddress::V4(0x01020304)));
    match resolve_upstream(&config(), "1.2.3.4", 8443, &known) {
        ResolveStep::Return(upstream, keep) => {
            assert_eq!(
                upstream.addrs,
                vec![SocketAddress { ip: IpAddress::V4(0x01020304), port: 8443 }]
            );
            assert!(upstream.ech_config_list.is_none());
            assert_eq!(keep, None);
        }
        other => panic!("{other:?}"),
    }
}

#[test]
fn cache_counts_before_everything_else() {
    let mut settings = config();
    settings.dns_hosts.insert("linux.do".to_string(), "".to_string());
    let mut known = ResolveKnown::nothing();
    known.literal = Some(None);
    match resolve_upstream(&settings, "Linux.DO", 443, &known) {
        ResolveStep::ReadCache(host, port) => {
            assert_eq!(host, "linux.do");
            assert_eq!(port, 443);
        }
        other => panic!("{other:?}"),
    }
    known.cached = Some(Some(upstream(5)));
    match resolve_upstream(&settings, "Linux.DO", 443, &known) {
        ResolveStep::Return(found, keep) => {
            assert_eq!(found.addrs, upstream(5).addrs);
            assert_eq!(keep, None);
        }
        other => panic!("{other:?}"),
    }
    known.cached = Some(None);
    match resolve_upstream(&settings, "Linux.DO", 443, &known) {
        ResolveStep::Fail(error) => {
            assert_eq!(error.message(), "dns_hosts override cannot be empty");
        }
        other => panic!("{other:?}"),
    }
}

#[test]
fn override_with_an_address_is_kept() {
    let mut settings = config();
    settings.dns_hosts.insert("linux.do".to_string(), " 10.0.0.1 ".to_string());
    let mut known = ResolveKnown::nothing();
    known.literal = Some(None);
    known.cached = Some(None);
    match resolve_upstream(&settings, "linux.do", 443, &known) {
        ResolveStep::ReadOverride(text) => assert_eq!(text, "10.0.0.1"),
        other => panic!("{other:?}"),
    }
    known.override_address = Some(Some(IpAddress::V4(0x0a000001)));
    match resolve_upstream(&settings, "linux.do", 443, &known) {
        ResolveStep::Return(found, keep) => {
            assert_eq!(
                found.addrs,
                vec![SocketAddress { ip: IpAddress::V4(0x0a000001), port: 443 }]
            );
            assert_eq!(keep, Some("linux.do".to_string()));
        }
        other => panic!("{other:?}"),
    }
}

#[test]
fn override_with_a_domain_is_looked_up() {
    let mut settings = config();
    settings.dns_hosts.insert("linux.do".to_string(), "domain: other.example ".to_string());
    let mut known = ResolveKnown::nothing();
    known.literal = Some(None);
    known.cached = Some(None);
    match resolve_upstream(&settings, "linux.do", 443, &known) {
        ResolveStep::QueryBinding(host) => assert_eq!(host, "other.example"),
        other => panic!("{other:?}"),
    }
}

#[test]
fn lookup_uses_a_list_that_can_be_used() {
    let list = ech_list(0x20);
    let mut known = ResolveKnown::nothing();
    known.literal = Some(None);
    known.cached = Some(None);
    match resolve_upstream(&config(), "linux.do", 443, &known) {
        ResolveStep::QueryBinding(host) => assert_eq!(host, "linux.do"),
        other => panic!("{other:?}"),
    }
    known.https_answers = Some(Ok(vec![https_answer(&list)]));
    match resolve_upstream(&config(), "linux.do", 443, &known) {
        ResolveStep::QueryAddresses(host, public) => {
            assert_eq!(host, "linux.do");
            assert_eq!(public, Some("cloudflare-ech.com".to_string()));
        }
        other => panic!("{other:?}"),
    }
    let ips = vec![IpAddress::V6(1), IpAddress::V4(2)];
    let extra = vec![IpAddress::V4(2), IpAddress::V4(3)];
    known.addresses = Some(Ok((ips, extra)));
    match resolve_upstream(&config(), "linux.do", 443, &known) {
        ResolveStep::Return(found, keep) => {
            let expected = [IpAddress::V6(1), IpAddress::V4(2), IpAddress::V4(3)]
                .map(|ip| SocketAddress { ip, port: 443 });
            assert_eq!(found.addrs, expected.to_vec());
            assert_eq!(found.ech_config_list, Some(list));
            assert_eq!(keep, Some("linux.do".to_string()));
        }
        other => panic!("{other:?}"),
    }
}

#[test]
fn lookup_drops_a_list_that_cannot_be_used() {
    let mut known = ResolveKnown::nothing();
    known.literal = Some(None);
    known.cached = Some(None);
    known.https_answers = Some(Ok(vec![https_answer(&ech_list(0x99))]));
    known.addresses = Some(Ok((vec![IpAddress::V4(2)], Vec::new())));
    match resolve_upstream(&config(), "linux.do", 443, &known) {
        ResolveStep::Return(found, keep) => {
            assert_eq!(found.ech_config_list, None);
            assert_eq!(keep, Some("linux.do".to_string()));
        }
        other => panic!("{other:?}"),
    }
}

#[test]
fn lookup_fails_with_its_queries() {
    let mut known = ResolveKnown::nothing();
    known.literal = Some(None);
    known.cached = Some(None);
    known.https_answers = Some(Err("no reply".to_string()));
    match resolve_upstream(&config(), "linux.do", 443, &known) {
        ResolveStep::Fail(error) => assert_eq!(error.message(), "no reply"),
        other => panic!("{other:?}"),
    }
    known.https_answers = Some(Ok(Vec::new()));
    known.addresses = Some(Err("lost".to_string()));
    match resolve_upstream(&config(), "linux.do", 443, &known) {
        ResolveStep::Fail(error) => assert_eq!(error.message(), "lost"),
        other => panic!("{other:?}"),
    }
    known.addresses = Some(Ok((Vec::new(), vec![IpAddress::V4(1)])));
    match resolve_upstream(&config(), "linux.do", 443, &known) {
        ResolveStep::Fail(error) => assert_eq!(
            error.message(),
            "upstream host linux.do resolved to no addresses"
        ),
        other => panic!("{other:?}"),
    }
}

#[test]
fn overrides_are_read() {
    match parse_dns_host_override(" other.example ", None) {
        Ok(DnsHostOverride::Alias(host)) => assert_eq!(host, "other.example"),
        other => panic!("{other:?}"),
    }
    match parse_dns_host_override("1.1.1.1", Some(IpAddress::V4(0x01010101))) {
        Ok(DnsHostOverride::Addresses(ips)) => assert_eq!(ips, vec![IpAddress::V4(0x01010101)]),
        other => panic!("{other:?}"),
    }
    assert!(matches!(parse_dns_host_override("  ", None), Err(ResolveError::EmptyOverride)));
    match parse_dns_host_override("domain:  ", None) {
        Err(error) => assert_eq!(error.message(), "dns_hosts domain override cannot be empty"),
        Ok(other) => panic!("{other:?}"),
    }
}

#[test]
fn upstream_is_put_together() {
    let ips = vec![IpAddress::V4(1), IpAddress::V4(1), IpAddress::V4(2)];
    let found = assemble_upstream("h", &ips, Some(vec![1]), true, 80).unwrap();
    assert_eq!(found.addrs.len(), 2);
    assert_eq!(found.ech_config_list, Some(vec![1]));
    let plain = assemble_upstream("h", &ips, Some(vec![1]), false, 80).unwrap();
    assert_eq!(plain.ech_config_list, None);
    assert!(assemble_upstream("h", &Vec::new(), None, false, 80).is_err());
}

#[test]
fn cache_gives_back_until_the_time_is_up() {
    let mut cache = ResolveCache::new();
    cache.write_cached_upstream("linux.do", 443, upstream(1), 1000);
    let end = 1000 + RESOLVE_CACHE_TTL;
    assert_eq!(
        cache.read_cached_upstream("linux.do", 443, end - 1).unwrap().addrs,
        upstream(1).addrs
    );
    assert!(cache.read_cached_upstream("linux.do", 443, end).is_none());
    assert!(cache.read_cached_upstream("linux.do", 80, 1000).is_none());
    assert!(cache.read_cached_upstream("www.linux.do", 443, 1000).is_none());
}

#[test]
fn cache_replaces_and_forgets() {
    let mut cache = ResolveCache::new();
    cache.write_cached_upstream("a", 1, upstream(1), 0);
    cache.write_cached_upstream("b", 1, upstream(2), 10);
    cache.write_cached_upstream("a", 1, upstream(3), 20);
    assert_eq!(cache.read_cached_upstream("a", 1, 20).unwrap().addrs, upstream(3).addrs);
    assert_eq!(cache.read_cached_upstream("b", 1, 20).unwrap().addrs, upstream(2).addrs);
    cache.write_cached_upstream("c", 1, upstream(4), 15 + RESOLVE_CACHE_TTL);
    assert!(cache.read_cached_upstream("b", 1, 0).is_none());
    assert!(cache.read_cached_upstream("a", 1, 0).is_some());
}

#[test]
fn resolution_is_remembered() {
    let mut known = ResolveKnown::nothing();
    known.literal = Some(None);
    known.cached = Some(None);
    known.https_answers = Some(Ok(Vec::new()));
    known.addresses = Some(Ok((vec![IpAddress::V4(9)], Vec::new())));
    let mut cache = ResolveCache::new();
    match resolve_upstream(&config(), "Linux.do", 443, &known) {
        ResolveStep::Return(found, Some(key)) => {
            assert_eq!(key, cache_key("Linux.do"));
            cache.write_cached_upstream(&key, 443, found, 5);
        }
        other => panic!("{other:?}"),
    }
    let mut again = ResolveKnown::nothing();
    again.literal = Some(None);
    match resolve_upstream(&config(), "LINUX.DO", 443, &again) {
        ResolveStep::ReadCache(host, port) => {
            again.cached = Some(cache.read_cached_upstream(&host, port, 5 + RESOLVE_CACHE_TTL - 1));
        }
        other => panic!("{other:?}"),
    }
    match resolve_upstream(&config(), "LINUX.DO", 443, &again) {
        ResolveStep::Return(found, keep) => {
            assert_eq!(found.addrs, upstream(9).addrs);
            assert_eq!(keep, None);
        }
        other => panic!("{other:?}"),
    }
}
