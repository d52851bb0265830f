//! The configuration: which hosts are taken over, where they are looked up,
//! and how a stored configuration is brought up to date.
use crate::dns_hosts::{ascending, lemma_ascending_distinct, DnsHosts};
use crate::text::{
    after_prefix, ends_with, lemma_lowercase_idempotent, lower, lowercase, opt_text, same_text,
    strip_prefix, texts, to_ascii_lowercase, to_chars,
};
use vstd::prelude::*;

verus! {

/// The loopback address that earlier versions listened on.
pub const OLD_DEFAULT_LOOPBACK: &'static str = "127.0.0.1";

/// The loopback address that replaces it.
pub const NEW_DEFAULT_LOOPBACK: &'static str = "127.211.73.84";

/// The front domain that a configuration without one gets.
pub const DEFAULT_FAKE_SNI: &'static str = "www.cloudflare.com";

/// The configuration of the accelerator.
#[derive(Debug)]
pub struct AppConfig {
    pub listen_host: String,
    pub hosts_ip: String,
    pub http_port: u16,
    pub https_port: u16,
    pub upstream: String,
    pub fake_sni: Option<String>,
    pub doh_endpoints: Vec<String>,
    pub dns_hosts: DnsHosts,
    pub proxy_domains: Vec<String>,
    pub hosts_domains: Vec<String>,
    pub certificate_domains: Vec<String>,
    pub ca_common_name: String,
    pub server_common_name: String,
}

/// What a configuration says, as mathematical values.
#[verifier::ext_equal]
pub struct ConfigModel {
    pub listen_host: Seq<char>,
    pub hosts_ip: Seq<char>,
    pub http_port: u16,
    pub https_port: u16,
    pub upstream: Seq<char>,
    pub fake_sni: Option<Seq<char>>,
    pub doh_endpoints: Seq<Seq<char>>,
    pub dns_hosts: Seq<(Seq<char>, Seq<char>)>,
    pub proxy_domains: Seq<Seq<char>>,
    pub hosts_domains: Seq<Seq<char>>,
    pub certificate_domains: Seq<Seq<char>>,
    pub ca_common_name: Seq<char>,
    pub server_common_name: Seq<char>,
}

impl View for AppConfig {
    type V = ConfigModel;

    open spec fn view(&self) -> ConfigModel {
        ConfigModel {
            listen_host: self.listen_host@,
            hosts_ip: self.hosts_ip@,
            http_port: self.http_port,
            https_port: self.https_port,
            upstream: self.upstream@,
            fake_sni: opt_text(self.fake_sni),
            doh_endpoints: texts(self.doh_endpoints@),
            dns_hosts: self.dns_hosts@,
            proxy_domains: texts(self.proxy_domains@),
            hosts_domains: texts(self.hosts_domains@),
            certificate_domains: texts(self.certificate_domains@),
            ca_common_name: self.ca_common_name@,
            server_common_name: self.server_common_name@,
        }
    }
}

impl Clone for AppConfig {
    fn clone(&self) -> (r: Self)
        ensures
            r@ == self@,
    {
        AppConfig {
            listen_host: self.listen_host.clone(),
            hosts_ip: self.hosts_ip.clone(),
            http_port: self.http_port,
            https_port: self.https_port,
            upstream: self.upstream.clone(),
            fake_sni: self.fake_sni.clone(),
            doh_endpoints: self.doh_endpoints.clone(),
            dns_hosts: self.dns_hosts.clone(),
            proxy_domains: self.proxy_domains.clone(),
            hosts_domains: self.hosts_domains.clone(),
            certificate_domains: self.certificate_domains.clone(),
            ca_common_name: self.ca_common_name.clone(),
            server_common_name: self.server_common_name.clone(),
        }
    }
}

/// The front domain of a configuration that names none.
pub fn default_fake_sni() -> (r: Option<String>)
    ensures
        opt_text(r) == Some("www.cloudflare.com"@),
{
    Some(DEFAULT_FAKE_SNI.to_string())
}

// ---------------------------------------------------------------------------
// Matching hosts
// ---------------------------------------------------------------------------

/// The suffix that a wildcard pattern such as `*.linux.do` asks for, with the
/// dot in front of it.
pub open spec fn wildcard_suffix(pattern: Seq<char>) -> Option<Seq<char>> {
    match after_prefix(pattern, "*."@) {
        Some(suffix) => Some("."@ + suffix),
        None => None,
    }
}

/// The dotted suffix that a wildcard pattern asks for.
fn dotted_suffix(pattern: &str) -> (r: Option<String>)
    ensures
        opt_text(r) == wildcard_suffix(pattern@),
{
    match strip_prefix(pattern, "*.") {
        Some(suffix) => {
            let mut dotted = ".".to_string();
            dotted.append(suffix.as_str());
            Some(dotted)
        },
        None => None,
    }
}

/// Whether a host matches a pattern, both in lower case: by its suffix where
/// the pattern is a wildcard, and else by being the same.
pub open spec fn host_matches(host: Seq<char>, pattern: Seq<char>) -> bool {
    match wildcard_suffix(pattern) {
        Some(suffix) => suffix.is_suffix_of(host),
        None => host == pattern,
    }
}

/// Whether a host is one of those that the proxy takes over, whatever the
/// case of its letters.
pub open spec fn proxied(domains: Seq<Seq<char>>, host: Seq<char>) -> bool {
    exists|i: int|
        0 <= i < domains.len() && host_matches(lowercase(host), lowercase(#[trigger] domains[i]))
}

/// Whether override `i` is a wildcard that `host`, in lower case, matches.
pub open spec fn wildcard_applies(
    hosts: Seq<(Seq<char>, Seq<char>)>,
    host: Seq<char>,
    i: int,
) -> bool {
    &&& 0 <= i < hosts.len()
    &&& wildcard_suffix(lowercase(hosts[i].0)) is Some
    &&& wildcard_suffix(lowercase(hosts[i].0))->0.is_suffix_of(host)
}

/// The length of the suffix that wildcard override `i` asks for.
pub open spec fn wildcard_len(hosts: Seq<(Seq<char>, Seq<char>)>, i: int) -> nat {
    wildcard_suffix(lowercase(hosts[i].0))->0.len()
}

/// Whether override `i` is the wildcard for `host`: none that applies asks
/// for a longer suffix, and none after it for one as long.
pub open spec fn best_wildcard(
    hosts: Seq<(Seq<char>, Seq<char>)>,
    host: Seq<char>,
    i: int,
) -> bool {
    &&& wildcard_applies(hosts, host, i)
    &&& forall|j: int| #[trigger]
        wildcard_applies(hosts, host, j) ==> wildcard_len(hosts, j) <= wildcard_len(hosts, i) && (j
            > i ==> wildcard_len(hosts, j) < wildcard_len(hosts, i))
}

/// Whether the pattern of override `i` is `host` itself.
pub open spec fn names_host(hosts: Seq<(Seq<char>, Seq<char>)>, host: Seq<char>, i: int) -> bool {
    0 <= i < hosts.len() && hosts[i].0 == host
}

/// What a host is looked up as: the target of the override that names it in
/// lower case, else that of the wildcard with the longest suffix.
pub open spec fn dns_override(
    hosts: Seq<(Seq<char>, Seq<char>)>,
    host: Seq<char>,
) -> Option<Seq<char>> {
    let host = lowercase(host);
    if exists|i: int| names_host(hosts, host, i) {
        Some(hosts[choose|i: int| names_host(hosts, host, i)].1)
    } else if exists|i: int| best_wildcard(hosts, host, i) {
        Some(hosts[choose|i: int| best_wildcard(hosts, host, i)].1)
    } else {
        None
    }
}

impl AppConfig {
    /// Whether `host` is one of the hosts that the proxy takes over.
    pub fn matches_proxy_host(&self, host: &str) -> (r: bool)
        ensures
            r == proxied(self@.proxy_domains, host@),
    {
        let candidate = to_ascii_lowercase(host);
        for i in 0..self.proxy_domains.len()
            invariant
                candidate@ == lowercase(host@),
                forall|j: int|
                    0 <= j < i ==> !host_matches(
                        lowercase(host@),
                        lowercase(#[trigger] self@.proxy_domains[j]),
                    ),
        {
            let pattern = to_ascii_lowercase(self.proxy_domains[i].as_str());
            assert(self@.proxy_domains[i as int] == self.proxy_domains@[i as int]@);
            let matched = match dotted_suffix(pattern.as_str()) {
                Some(suffix) => ends_with(candidate.as_str(), suffix.as_str()),
                None => candidate == pattern,
            };
            if matched {
                return true;
            }
        }
        false
    }

    /// What `host` is looked up as instead, if an override says so.
    pub fn find_dns_host_override(&self, host: &str) -> (r: Option<&str>)
        ensures
            match r {
                Some(target) => dns_override(self@.dns_hosts, host@) == Some(target@),
                None => dns_override(self@.dns_hosts, host@) is None,
            },
    {
        let candidate = to_ascii_lowercase(host);
        let ghost hosts = self@.dns_hosts;
        let ghost name = lowercase(host@);
        let n: usize = self.dns_hosts.len();
        for i in 0..n
            invariant
                candidate@ == name,
                name == lowercase(host@),
                hosts == self.dns_hosts@,
                hosts == self@.dns_hosts,
                ascending(hosts),
                n == hosts.len(),
                forall|j: int| 0 <= j < i ==> !names_host(hosts, name, j),
        {
            let entry = self.dns_hosts.entry(i);
            if same_text(entry.pattern.as_str(), candidate.as_str()) {
                proof {
                    assert(names_host(hosts, name, i as int));
                    let k = choose|k: int| names_host(hosts, name, k);
                    lemma_ascending_distinct(hosts, i as int, k);
                }
                return Some(entry.target.as_str());
            }
        }
        let mut best: Option<(usize, usize)> = None;
        for i in 0..n
            invariant
                candidate@ == name,
                name == lowercase(host@),
                hosts == self.dns_hosts@,
                n == hosts.len(),
                match best {
                    Some((b, len)) => {
                        &&& 0 <= b < i
                        &&& wildcard_applies(hosts, name, b as int)
                        &&& len == wildcard_len(hosts, b as int)
                        &&& forall|j: int|
                            0 <= j < i && #[trigger] wildcard_applies(hosts, name, j)
                                ==> wildcard_len(hosts, j) <= len && (j > b ==> wildcard_len(
                                hosts,
                                j,
                            ) < len)
                    },
                    None => forall|j: int| 0 <= j < i ==> !wildcard_applies(hosts, name, j),
                },
        {
            let entry = self.dns_hosts.entry(i);
            let pattern = to_ascii_lowercase(entry.pattern.as_str());
            if let Some(suffix) = dotted_suffix(pattern.as_str()) {
                if ends_with(candidate.as_str(), suffix.as_str()) {
                    assert(wildcard_applies(hosts, name, i as int));
                    let len: usize = to_chars(suffix.as_str()).len();
                    let better = match best {
                        Some((_, longest)) => len >= longest,
                        None => true,
                    };
                    if better {
                        best = Some((i, len));
                    }
                }
            }
        }
        match best {
            Some((b, _)) => {
                proof {
                    assert(best_wildcard(hosts, name, b as int));
                    let k = choose|k: int| best_wildcard(hosts, name, k);
                    assert(wildcard_applies(hosts, name, k));
                    assert(k == b);
                }
                Some(self.dns_hosts.entry(b).target.as_str())
            },
            None => None,
        }
    }

    /// The domains that go into the hosts file: those configured for it, or
    /// the proxied ones where none are.
    pub fn hosts_domains(&self) -> (r: &Vec<String>)
        ensures
            texts(r@) == managed_domains(self@),
    {
        if self.hosts_domains.is_empty() {
            &self.proxy_domains
        } else {
            &self.hosts_domains
        }
    }
}

/// The domains that go into the hosts file.
pub open spec fn managed_domains(config: ConfigModel) -> Seq<Seq<char>> {
    if config.hosts_domains.len() == 0 {
        config.proxy_domains
    } else {
        config.hosts_domains
    }
}

// ---------------------------------------------------------------------------
// Laws
// ---------------------------------------------------------------------------

/// Hosts that differ in the case of their letters only are taken over, and
/// overridden, alike.
pub proof fn law_case_does_not_matter(config: ConfigModel, a: Seq<char>, b: Seq<char>)
    requires
        lowercase(a) == lowercase(b),
    ensures
        proxied(config.proxy_domains, a) == proxied(config.proxy_domains, b),
        dns_override(config.dns_hosts, a) == dns_override(config.dns_hosts, b),
{
}

/// A host in lower case is taken over, and overridden, as it was written.
pub proof fn law_lower_case_stands_for_the_host(config: ConfigModel, host: Seq<char>)
    ensures
        proxied(config.proxy_domains, lowercase(host)) == proxied(config.proxy_domains, host),
        dns_override(config.dns_hosts, lowercase(host)) == dns_override(config.dns_hosts, host),
{
    lemma_lowercase_idempotent(host);
}

/// The best of the wildcards that apply among the first `n` overrides.
proof fn lemma_best_wildcard(hosts: Seq<(Seq<char>, Seq<char>)>, host: Seq<char>, n: int) -> (b:
    int)
    requires
        0 <= n <= hosts.len(),
        exists|j: int| 0 <= j < n && wildcard_applies(hosts, host, j),
    ensures
        0 <= b < n,
        wildcard_applies(hosts, host, b),
        forall|j: int|
            0 <= j < n && #[trigger] wildcard_applies(hosts, host, j) ==> wildcard_len(hosts, j)
                <= wildcard_len(hosts, b) && (j > b ==> wildcard_len(hosts, j) < wildcard_len(
                hosts,
                b,
            )),
    decreases n,
{
    if exists|j: int| 0 <= j < n - 1 && wildcard_applies(hosts, host, j) {
        let front = lemma_best_wildcard(hosts, host, n - 1);
        if wildcard_applies(hosts, host, n - 1) && wildcard_len(hosts, n - 1) >= wildcard_len(
            hosts,
            front,
        ) {
            n - 1
        } else {
            front
        }
    } else {
        n - 1
    }
}

/// Where an override names the host or is a wildcard for it, the host is
/// overridden.
pub proof fn law_override_is_found(hosts: Seq<(Seq<char>, Seq<char>)>, host: Seq<char>, i: int)
    requires
        names_host(hosts, lowercase(host), i) || wildcard_applies(hosts, lowercase(host), i),
    ensures
        dns_override(hosts, host) is Some,
{
    let name = lowercase(host);
    if wildcard_applies(hosts, name, i) {
        let b = lemma_best_wildcard(hosts, name, hosts.len() as int);
        assert(best_wildcard(hosts, name, b));
    }
}

/// An override that names the host counts before every wildcard.
pub proof fn law_exact_override_first(hosts: Seq<(Seq<char>, Seq<char>)>, host: Seq<char>, i: int)
    requires
        ascending(hosts),
        names_host(hosts, lowercase(host), i),
    ensures
        dns_override(hosts, host) == Some(hosts[i].1),
{
    let k = choose|k: int| names_host(hosts, lowercase(host), k);
    assert(names_host(hosts, lowercase(host), k));
    lemma_ascending_distinct(hosts, i, k);
}

/// Whether a pattern is a wildcard: a star and a dot, and what follows.
pub open spec fn is_wildcard(pattern: Seq<char>) -> bool {
    pattern.len() >= 2 && pattern[0] == '*' && pattern[1] == '.'
}

/// Whether a host ends with what a wildcard says after its star, whatever the
/// case of their letters.
pub open spec fn ends_as(pattern: Seq<char>, host: Seq<char>) -> bool {
    let n = pattern.len() - 1;
    host.len() >= n && lowercase(host).skip(host.len() - n) == lowercase(pattern).skip(1)
}

proof fn lemma_wildcard(pattern: Seq<char>, host: Seq<char>)
    ensures
        wildcard_suffix(lowercase(pattern)) is Some <==> is_wildcard(pattern),
        is_wildcard(pattern) ==> {
            &&& wildcard_suffix(lowercase(pattern))->0.len() == pattern.len() - 1
            &&& wildcard_suffix(lowercase(pattern))->0.is_suffix_of(lowercase(host)) <==> ends_as(
                pattern,
                host,
            )
        },
{
    reveal_strlit("*.");
    reveal_strlit(".");
    let p = lowercase(pattern);
    let h = lowercase(host);
    if is_wildcard(pattern) {
        assert(p[0] == '*' && p[1] == '.');
        assert("*."@ =~= p.subrange(0, 2));
        let suffix = "."@ + p.skip(2);
        assert(suffix =~= p.skip(1));
        let n = pattern.len() - 1;
        if host.len() >= n {
            assert(h.subrange(h.len() - n, h.len() as int) =~= h.skip(h.len() - n));
        }
    } else if "*."@.is_prefix_of(p) {
        assert(p.subrange(0, 2)[0] == p[0] && p.subrange(0, 2)[1] == p[1]);
        assert(lower(pattern[0]) == '*' && lower(pattern[1]) == '.');
    }
}

/// A host is taken over where, whatever the case of letters, it is one of the
/// domains, or ends with a dot and what stands behind the star and the dot of
/// one that is a wildcard; no other is.
pub proof fn law_hosts_taken_over(domains: Seq<Seq<char>>, host: Seq<char>)
    ensures
        proxied(domains, host) <==> exists|i: int|
            0 <= i < domains.len() && if is_wildcard(#[trigger] domains[i]) {
                ends_as(domains[i], host)
            } else {
                lowercase(domains[i]) == lowercase(host)
            },
{
    assert forall|i: int| 0 <= i < domains.len() implies host_matches(
        lowercase(host),
        lowercase(#[trigger] domains[i]),
    ) == if is_wildcard(domains[i]) {
        ends_as(domains[i], host)
    } else {
        lowercase(domains[i]) == lowercase(host)
    } by {
        lemma_wildcard(domains[i], host);
    }
}

/// The override of a host is the one that names it in lower case.
pub proof fn law_override_by_name(hosts: Seq<(Seq<char>, Seq<char>)>, host: Seq<char>, i: int)
    requires
        0 <= i < hosts.len(),
        hosts[i].0 == lowercase(host),
        forall|j: int| 0 <= j < hosts.len() && (#[trigger] hosts[j]).0 == hosts[i].0 ==> j == i,
    ensures
        dns_override(hosts, host) == Some(hosts[i].1),
{
    assert(names_host(hosts, lowercase(host), i));
    let k = choose|k: int| names_host(hosts, lowercase(host), k);
    assert(hosts[k].0 == hosts[i].0);
}

/// Without an override that names the host, the longest wildcard that it ends
/// as is its override, and the last of these where several are as long.
pub proof fn law_override_by_wildcard(hosts: Seq<(Seq<char>, Seq<char>)>, host: Seq<char>, i: int)
    requires
        forall|j: int| 0 <= j < hosts.len() ==> (#[trigger] hosts[j]).0 != lowercase(host),
        0 <= i < hosts.len(),
        is_wildcard(hosts[i].0),
        ends_as(hosts[i].0, host),
        forall|j: int|
            0 <= j < hosts.len() && is_wildcard((#[trigger] hosts[j]).0) && ends_as(
                hosts[j].0,
                host,
            ) ==> hosts[j].0.len() <= hosts[i].0.len() && (j > i ==> hosts[j].0.len()
                < hosts[i].0.len()),
    ensures
        dns_override(hosts, host) == Some(hosts[i].1),
{
    let name = lowercase(host);
    assert forall|j: int| #[trigger] wildcard_applies(hosts, name, j) implies is_wildcard(
        hosts[j].0,
    ) && ends_as(hosts[j].0, host) && wildcard_len(hosts, j) == hosts[j].0.len() - 1 by {
        lemma_wildcard(hosts[j].0, host);
    }
    lemma_wildcard(hosts[i].0, host);
    assert(wildcard_applies(hosts, name, i));
    assert(best_wildcard(hosts, name, i));
    let k = choose|k: int| best_wildcard(hosts, name, k);
    assert(wildcard_applies(hosts, name, k));
    assert(k == i);
    assert(!exists|j: int| names_host(hosts, name, j));
}

/// A host that no override names, and that ends as no wildcard among them, is
/// not overridden.
pub proof fn law_no_override(hosts: Seq<(Seq<char>, Seq<char>)>, host: Seq<char>)
    requires
        forall|j: int|
            0 <= j < hosts.len() ==> (#[trigger] hosts[j]).0 != lowercase(host) && !(is_wildcard(
                hosts[j].0,
            ) && ends_as(hosts[j].0, host)),
    ensures
        dns_override(hosts, host) is None,
{
    let name = lowercase(host);
    assert(!exists|j: int| names_host(hosts, name, j));
    assert forall|j: int| !best_wildcard(hosts, name, j) by {
        if 0 <= j < hosts.len() {
            lemma_wildcard(hosts[j].0, host);
        }
    }
}

/// The hosts file gets the domains that are configured for it, and those that
/// are taken over only where none are.
pub proof fn law_domains_of_the_hosts_file(config: ConfigModel)
    ensures
        config.hosts_domains.len() > 0 ==> managed_domains(config) == config.hosts_domains,
        config.hosts_domains.len() == 0 ==> managed_domains(config) == config.proxy_domains,
{
}

/// What is said of a configuration is what it holds.
pub proof fn law_configuration_as_it_is(config: AppConfig)
    ensures
        config@.listen_host == config.listen_host@,
        config@.hosts_ip == config.hosts_ip@,
        config@.http_port == config.http_port,
        config@.https_port == config.https_port,
        config@.upstream == config.upstream@,
        config@.fake_sni == opt_text(config.fake_sni),
        config@.doh_endpoints == texts(config.doh_endpoints@),
        config@.dns_hosts == config.dns_hosts@,
        config@.proxy_domains == texts(config.proxy_domains@),
        config@.hosts_domains == texts(config.hosts_domains@),
        config@.certificate_domains == texts(config.certificate_domains@),
        config@.ca_common_name == config.ca_common_name@,
        config@.server_common_name == config.server_common_name@,
{
}

} // verus!
