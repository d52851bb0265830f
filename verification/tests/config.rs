use linuxdo_accelerator::config::{default_fake_sni, AppConfig};
use linuxdo_accelerator::dns_hosts::{text_precedes, DnsHosts};
use linuxdo_accelerator::hosts::FileChange;
use linuxdo_accelerator::migrate::{
    check_legacy_network_profile, cleanup_legacy_network_profile, file_changes,
    merge_missing_values, migrate_loopback_defaults, needs_rewrite, normalize_toml, stored_config,
    update_config, LegacyMainConfig, LegacyNetworkProfile, LegacyProfileError, LoadError, Loaded,
    StoredConfig, WriteBack,
};
use linuxdo_accelerator::platform::Os;

fn load(stored: StoredConfig, defaults: AppConfig) -> Result<Loaded, LoadError> {
    AppConfig::load_or_create(Os::Linux, "/etc/x/my.toml", stored, defaults)
}

fn words(changes: &[FileChange]) -> Vec<String> {
    changes
        .iter()
        .map(|change| match change {
            FileChange::Write(path, content) => format!("{path} <- {content}"),
            FileChange::Remove(path) => format!("{path} gone"),
        })
        .collect()
}

fn strings(values: &[&str]) -> Vec<String> {
    values.iter().map(|v| v.to_string()).collect()
}

fn sample() -> AppConfig {
    AppConfig {
        listen_host: "127.211.73.84".to_string(),
        hosts_ip: "127.211.73.84".to_string(),
        http_port: 80,
        https_port: 443,
        upstream: "https://linux.do".to_string(),
        fake_sni: None,
        doh_endpoints: strings(&["https://doh.example/dns-query"]),
        dns_hosts: DnsHosts::new(),
        proxy_domains: strings(&["linux.do", "*.Linux.do"]),
        hosts_domains: Vec::new(),
        certificate_domains: strings(&["linux.do"]),
        ca_common_name: "Root".to_string(),
        server_common_name: "linux.do".to_string(),
    }
}

#[test]
fn hosts_match_exactly_or_by_wildcard() {
    let config = sample();
    assert!(config.matches_proxy_host("linux.do"));
    assert!(config.matches_proxy_host("LINUX.DO"));
    assert!(config.matches_proxy_host("www.linux.do"));
    assert!(config.matches_proxy_host("a.b.linux.do"));
    assert!(!config.matches_proxy_host("notlinux.do"));
    assert!(!config.matches_proxy_host("linux.do.example"));
    assert!(!config.matches_proxy_host(""));
}

#[test]
fn wildcard_does_not_match_the_domain_itself() {
    let mut config = sample();
    config.proxy_domains = strings(&["*.linux.do"]);
    assert!(!config.matches_proxy_host("linux.do"));
    assert!(config.matches_proxy_host(".linux.do"));
}

#[test]
fn overrides_prefer_the_name_and_then_the_longest_wildcard() {
    let mut config = sample();
    config.dns_hosts.insert("*.linux.do".to_string(), "short".to_string());
    config.dns_hosts.insert("*.cdn.linux.do".to_string(), "long".to_string());
    config.dns_hosts.insert("x.cdn.linux.do".to_string(), "exact".to_string());
    assert_eq!(config.find_dns_host_override("X.cdn.linux.do"), Some("exact"));
    assert_eq!(config.find_dns_host_override("y.cdn.linux.do"), Some("long"));
    assert_eq!(config.find_dns_host_override("www.linux.do"), Some("short"));
    assert_eq!(config.find_dns_host_override("linux.do"), None);
}

#[test]
fn last_of_two_equal_wildcards_counts() {
    let mut config = sample();
    config.dns_hosts.insert("*.LINUX.do".to_string(), "upper".to_string());
    config.dns_hosts.insert("*.linux.do".to_string(), "lower".to_string());
    assert_eq!(config.find_dns_host_override("a.linux.do"), Some("lower"));
}

#[test]
fn overrides_stay_ordered_and_distinct() {
    let mut hosts = DnsHosts::new();
    hosts.insert("b".to_string(), "1".to_string());
    hosts.insert("a".to_string(), "2".to_string());
    hosts.insert("b".to_string(), "3".to_string());
    assert_eq!(hosts.len(), 2);
    assert_eq!(hosts.entry(0).pattern, "a");
    assert_eq!(hosts.entry(1).pattern, "b");
    assert_eq!(hosts.entry(1).target, "3");
    let copy = hosts.clone();
    assert_eq!(copy.entry(0).target, "2");
    assert!(text_precedes("a", "ab"));
    assert!(text_precedes("ab", "b"));
    assert!(!text_precedes("a", "a"));
}

#[test]
fn hosts_domains_fall_back_to_the_proxied_ones() {
    let mut config = sample();
    assert_eq!(config.hosts_domains(), &config.proxy_domains);
    config.hosts_domains = strings(&["only.linux.do"]);
    assert_eq!(config.hosts_domains(), &strings(&["only.linux.do"]));
}

#[test]
fn fake_sni_has_a_default() {
    assert_eq!(default_fake_sni(), Some("www.cloudflare.com".to_string()));
}

#[test]
fn merging_adds_what_is_missing_in_order() {
    let mut values = strings(&["b", "x"]);
    assert!(merge_missing_values(&mut values, strings(&["a", "b", "c", "a"])));
    assert_eq!(values, strings(&["b", "x", "a", "c"]));
    assert!(!merge_missing_values(&mut values, strings(&["a", "b", "c"])));
    assert_eq!(values, strings(&["b", "x", "a", "c"]));
}

#[test]
fn old_loopback_is_replaced() {
    let mut config = sample();
    config.listen_host = "127.0.0.1".to_string();
    assert!(migrate_loopback_defaults(&mut config));
    assert_eq!(config.listen_host, "127.211.73.84");
    assert_eq!(config.hosts_ip, "127.211.73.84");
    assert!(!migrate_loopback_defaults(&mut config));
    config.hosts_ip = "0.0.0.0".to_string();
    assert!(!migrate_loopback_defaults(&mut config));
    assert_eq!(config.hosts_ip, "0.0.0.0");
}

#[test]
fn updating_twice_is_updating_once() {
    let mut defaults = sample();
    defaults.hosts_domains = strings(&["linux.do", "www.linux.do"]);
    let mut config = sample();
    config.hosts_ip = "127.0.0.1".to_string();
    assert!(update_config(&mut config, defaults.clone()));
    assert_eq!(config.hosts_domains, strings(&["linux.do", "www.linux.do"]));
    assert_eq!(config.hosts_ip, "127.211.73.84");
    assert!(!update_config(&mut config, defaults));
}

#[test]
fn missing_configuration_is_the_default_one() {
    let loaded = load(StoredConfig::Missing, sample()).unwrap();
    assert_eq!(loaded.write_back, WriteBack::Defaults);
    assert_eq!(loaded.config.upstream, "https://linux.do");
    assert_eq!(words(&[loaded.cleanup]), ["/etc/x/linuxdo-network.toml gone"]);
}

#[test]
fn stored_configuration_is_brought_up_to_date() {
    let mut stored = sample();
    stored.doh_endpoints = strings(&["https://own.example/dns-query"]);
    let loaded = load(StoredConfig::Current(stored), sample()).unwrap();
    assert_eq!(loaded.write_back, WriteBack::Always);
    assert_eq!(
        loaded.config.doh_endpoints,
        strings(&["https://own.example/dns-query", "https://doh.example/dns-query"])
    );
    let again = load(StoredConfig::Current(loaded.config), sample()).unwrap();
    assert_eq!(again.write_back, WriteBack::WhereDifferent);
}

fn legacy_main() -> LegacyMainConfig {
    LegacyMainConfig {
        listen_host: "127.0.0.1".to_string(),
        hosts_ip: "10.0.0.1".to_string(),
        http_port: 8080,
        https_port: 8443,
        upstream: "https://old.example".to_string(),
        fake_sni: Some("front.example".to_string()),
        ca_common_name: "Old Root".to_string(),
        server_common_name: "old.example".to_string(),
    }
}

fn legacy_network() -> LegacyNetworkProfile {
    LegacyNetworkProfile {
        doh_endpoints: strings(&["https://old.example/dns-query"]),
        proxy_domains: strings(&["old.example"]),
        certificate_domains: strings(&["old.example"]),
    }
}

#[test]
fn two_old_files_become_one() {
    let stored = StoredConfig::Legacy(legacy_main(), Some(legacy_network()));
    let loaded = load(stored, sample()).unwrap();
    assert_eq!(loaded.write_back, WriteBack::Always);
    assert_eq!(loaded.config.listen_host, "127.211.73.84");
    assert_eq!(loaded.config.hosts_ip, "10.0.0.1");
    assert_eq!(loaded.config.http_port, 8080);
    assert_eq!(loaded.config.fake_sni, Some("front.example".to_string()));
    assert_eq!(loaded.config.proxy_domains, strings(&["old.example", "linux.do", "*.Linux.do"]));
    assert_eq!(loaded.config.dns_hosts.len(), 0);
    assert_eq!(loaded.config.server_common_name, "old.example");
    assert_eq!(words(&[loaded.cleanup]), ["/etc/x/linuxdo-network.toml gone"]);
}

#[test]
fn old_main_file_alone_takes_the_default_lists() {
    let stored = StoredConfig::Legacy(legacy_main(), None);
    let loaded = load(stored, sample()).unwrap();
    assert_eq!(loaded.config.proxy_domains, strings(&["linux.do", "*.Linux.do"]));
    assert_eq!(loaded.config.certificate_domains, strings(&["linux.do"]));
}

#[test]
fn old_network_file_must_leave_no_list_empty() {
    let mut network = legacy_network();
    network.certificate_domains.clear();
    assert_eq!(
        check_legacy_network_profile(&network),
        Err(LegacyProfileError::MissingCertificateDomains)
    );
    network.proxy_domains.clear();
    assert_eq!(
        check_legacy_network_profile(&network),
        Err(LegacyProfileError::MissingProxyDomains)
    );
    network.doh_endpoints.clear();
    let error = check_legacy_network_profile(&network).unwrap_err();
    assert_eq!(error.message(), "legacy network profile is missing doh_endpoints");
    assert_eq!(
        LegacyProfileError::MissingProxyDomains.message(),
        "legacy network profile is missing proxy_domains"
    );
    assert_eq!(
        LegacyProfileError::MissingCertificateDomains.message(),
        "legacy network profile is missing certificate_domains"
    );
    let stored = StoredConfig::Legacy(legacy_main(), Some(network));
    assert_fails(stored, "legacy network profile is missing doh_endpoints", None);
}

#[test]
fn file_is_left_alone_where_only_line_ends_differ() {
    assert_eq!(normalize_toml("a = 1  \r\nb = 2\t\n"), "a = 1\nb = 2");
    assert!(!needs_rewrite(WriteBack::WhereDifferent, "a = 1 \r\n", "a = 1\n"));
    assert!(needs_rewrite(WriteBack::WhereDifferent, "a = 1\n", "a = 2\n"));
    assert!(needs_rewrite(WriteBack::WhereDifferent, " a = 1\n", "a = 1\n"));
    assert!(needs_rewrite(WriteBack::Always, "a = 1\n", "a = 1\n"));
}

fn changes(write_back: WriteBack, content: &str) -> Vec<String> {
    let cleanup = cleanup_legacy_network_profile(Os::Linux, "/c/my.toml");
    let outcome = Ok(Loaded { config: sample(), write_back, cleanup });
    words(&file_changes("/c/my.toml", &outcome, content, "default", "a = 1\n"))
}

#[test]
fn the_old_network_file_goes_last() {
    let gone = "/c/linuxdo-network.toml gone".to_string();
    assert_eq!(
        changes(WriteBack::Defaults, ""),
        ["/c/my.toml <- default".to_string(), gone.clone()]
    );
    assert_eq!(
        changes(WriteBack::Always, "a = 1\n"),
        ["/c/my.toml <- a = 1\n".to_string(), gone.clone()]
    );
    assert_eq!(
        changes(WriteBack::WhereDifferent, "a = 2\n"),
        ["/c/my.toml <- a = 1\n".to_string(), gone.clone()]
    );
    assert_eq!(changes(WriteBack::WhereDifferent, "a = 1  \r\n"), [gone]);
}

#[test]
fn defaults_are_saved_where_there_is_no_file() {
    assert_eq!(
        words(&AppConfig::save_default(Os::Linux, "my.toml", false, "text")),
        ["my.toml <- text", "linuxdo-network.toml gone"]
    );
    assert_eq!(
        words(&AppConfig::save_default(Os::Linux, "my.toml", true, "text")),
        ["linuxdo-network.toml gone"]
    );
}

/// Loading fails with the given message and cause, and changes no file.
fn assert_fails(stored: StoredConfig, message: &str, cause: Option<&str>) {
    let outcome = load(stored, sample());
    assert!(file_changes("/etc/x/my.toml", &outcome, "[", "default", "").is_empty());
    let error = outcome.unwrap_err();
    assert_eq!(error.message(), message);
    assert_eq!(error.cause(), cause.map(|cause| cause.to_string()));
}

#[test]
fn what_cannot_be_read_is_left_alone() {
    let stored = stored_config(None, Err("no TOML".to_string()), None);
    assert_fails(stored, "failed to parse config /etc/x/my.toml", Some("no TOML"));
    let stored = stored_config(None, Ok(legacy_main()), Some(Err("no lists".to_string())));
    assert_fails(stored, "failed to parse /etc/x/linuxdo-network.toml", Some("no lists"));
}

#[test]
fn a_configuration_counts_before_an_old_one() {
    let stored = stored_config(Some(sample()), Ok(legacy_main()), None);
    assert!(matches!(stored, StoredConfig::Current(_)));
    let stored = stored_config(Some(sample()), Err("why".to_string()), None);
    assert!(matches!(stored, StoredConfig::Current(_)));
    let stored = stored_config(None, Ok(legacy_main()), None);
    assert!(matches!(stored, StoredConfig::Legacy(_, None)));
    let stored = stored_config(None, Ok(legacy_main()), Some(Ok(legacy_network())));
    assert!(matches!(stored, StoredConfig::Legacy(_, Some(_))));
}
