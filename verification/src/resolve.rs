//! Resolving an upstream: what to ask next, and what the answers amount to.
use crate::config::{dns_override, AppConfig, ConfigModel};
use crate::doh::{
    answer_models, answered_binding, resolve_https_binding, DohAnswer, IpAddress,
};
use crate::https_record::{BindingModel, HttpsServiceBinding};
use crate::outside::{ech_accepted, ech_config_usable};
use crate::resolve_cache::{
    cached, law_cache_returns_what_was_stored, opt_bytes, stored, CachedModel, ResolvedUpstream,
    SocketAddress, UpstreamModel,
};
use crate::space::{trim, trimmed};
use crate::text::{
    after_prefix, followed_by, lowercase, opt_text, same_text, strip_prefix, to_ascii_lowercase,
};
use vstd::prelude::*;

verus! {

// ---------------------------------------------------------------------------
// Host overrides
// ---------------------------------------------------------------------------

/// What the configuration puts in the place of a host.
#[derive(Debug)]
pub enum DnsHostOverride {
    Alias(String),
    Addresses(Vec<IpAddress>),
}

/// What the configuration puts in the place of a host, as sequences.
#[verifier::ext_equal]
pub enum OverrideModel {
    Alias(Seq<char>),
    Addresses(Seq<IpAddress>),
}

impl View for DnsHostOverride {
    type V = OverrideModel;

    open spec fn view(&self) -> OverrideModel {
        match *self {
            DnsHostOverride::Alias(host) => OverrideModel::Alias(host@),
            DnsHostOverride::Addresses(ips) => OverrideModel::Addresses(ips@),
        }
    }
}

/// Why an upstream could not be resolved.
#[derive(Debug)]
pub enum ResolveError {
    /// The override of the host is empty.
    EmptyOverride,
    /// The override of the host names an empty domain.
    EmptyDomainOverride,
    /// There is no address for this host.
    NoAddresses(String),
    /// A query failed.
    Failed(String),
}

/// Why an upstream could not be resolved, with texts as sequences.
#[verifier::ext_equal]
pub enum ResolveFault {
    EmptyOverride,
    EmptyDomainOverride,
    NoAddresses(Seq<char>),
    Failed(Seq<char>),
}

impl View for ResolveError {
    type V = ResolveFault;

    open spec fn view(&self) -> ResolveFault {
        match *self {
            ResolveError::EmptyOverride => ResolveFault::EmptyOverride,
            ResolveError::EmptyDomainOverride => ResolveFault::EmptyDomainOverride,
            ResolveError::NoAddresses(host) => ResolveFault::NoAddresses(host@),
            ResolveError::Failed(error) => ResolveFault::Failed(error@),
        }
    }
}

impl ResolveError {
    /// The error in words.
    pub open spec fn text(self) -> Seq<char> {
        match self {
            ResolveError::EmptyOverride => "dns_hosts override cannot be empty"@,
            ResolveError::EmptyDomainOverride => "dns_hosts domain override cannot be empty"@,
            ResolveError::NoAddresses(host) => "upstream host "@ + host@
                + " resolved to no addresses"@,
            ResolveError::Failed(error) => error@,
        }
    }

    /// The error in words.
    pub fn message(&self) -> (r: String)
        ensures
            r@ == self.text(),
    {
        match self {
            ResolveError::EmptyOverride => "dns_hosts override cannot be empty".to_string(),
            ResolveError::EmptyDomainOverride =>
                "dns_hosts domain override cannot be empty".to_string(),
            ResolveError::NoAddresses(host) => {
                let mut s = followed_by("upstream host ", host.as_str());
                s.append(" resolved to no addresses");
                s
            },
            ResolveError::Failed(error) => error.clone(),
        }
    }
}

/// What the override `raw` means, where `address` is the address that its
/// text reads as, if it reads as one: behind `domain:` stands another host;
/// otherwise an address stands for itself, and any other text for a host.
pub open spec fn override_of(raw: Seq<char>, address: Option<IpAddress>) -> Result<
    OverrideModel,
    ResolveFault,
> {
    let value = trimmed(raw);
    if value.len() == 0 {
        Err(ResolveFault::EmptyOverride)
    } else {
        match after_prefix(value, "domain:"@) {
            Some(alias) => if trimmed(alias).len() == 0 {
                Err(ResolveFault::EmptyDomainOverride)
            } else {
                Ok(OverrideModel::Alias(trimmed(alias)))
            },
            None => match address {
                Some(ip) => Ok(OverrideModel::Addresses(seq![ip])),
                None => Ok(OverrideModel::Alias(value)),
            },
        }
    }
}

/// Whether it matters for an override if its text reads as an address.
pub open spec fn may_be_address(raw: Seq<char>) -> bool {
    trimmed(raw).len() > 0 && after_prefix(trimmed(raw), "domain:"@) is None
}

/// Reads the override `raw`, of which `address` is the address that its text
/// reads as, if it reads as one.
pub fn parse_dns_host_override(raw: &str, address: Option<IpAddress>) -> (r: Result<
    DnsHostOverride,
    ResolveError,
>)
    ensures
        match r {
            Ok(o) => override_of(raw@, address) == Ok::<OverrideModel, ResolveFault>(o@),
            Err(e) => override_of(raw@, address) == Err::<OverrideModel, ResolveFault>(e@),
        },
{
    let value = trim(raw);
    if value.as_str().is_empty() {
        return Err(ResolveError::EmptyOverride);
    }
    if let Some(alias) = strip_prefix(value.as_str(), "domain:") {
        let alias = trim(alias.as_str());
        if alias.as_str().is_empty() {
            return Err(ResolveError::EmptyDomainOverride);
        }
        return Ok(DnsHostOverride::Alias(alias));
    }
    if let Some(ip) = address {
        let ips = vec![ip];
        assert(ips@ =~= seq![ip]);
        return Ok(DnsHostOverride::Addresses(ips));
    }
    Ok(DnsHostOverride::Alias(value))
}

// ---------------------------------------------------------------------------
// From addresses to an upstream
// ---------------------------------------------------------------------------

/// The addresses without repetitions, each where it first stood.
pub open spec fn distinct(ips: Seq<IpAddress>) -> Seq<IpAddress>
    decreases ips.len(),
{
    if ips.len() == 0 {
        Seq::empty()
    } else {
        let front = distinct(ips.drop_last());
        if front.contains(ips.last()) {
            front
        } else {
            front.push(ips.last())
        }
    }
}

/// The addresses with a port.
pub open spec fn with_port(ips: Seq<IpAddress>, port: u16) -> Seq<SocketAddress> {
    ips.map_values(|ip: IpAddress| SocketAddress { ip, port })
}

/// The upstream at the given addresses, with the ECH configuration list where
/// it can be used.
pub open spec fn assembled(
    host: Seq<char>,
    ips: Seq<IpAddress>,
    list: Option<Seq<u8>>,
    usable: bool,
    port: u16,
) -> Result<UpstreamModel, ResolveFault> {
    if ips.len() == 0 {
        Err(ResolveFault::NoAddresses(host))
    } else {
        Ok(
            UpstreamModel {
                addrs: with_port(distinct(ips), port),
                ech_config_list: if usable {
                    list
                } else {
                    None
                },
            },
        )
    }
}

fn contains_address(ips: &Vec<SocketAddress>, address: SocketAddress) -> (r: bool)
    ensures
        r == ips@.contains(address),
{
    for i in 0..ips.len()
        invariant
            forall|j: int| 0 <= j < i ==> ips@[j] != address,
    {
        if ips[i] == address {
            return true;
        }
    }
    false
}

/// Puts together the upstream at the given addresses; `usable` says whether
/// the ECH configuration list can be used.
pub fn assemble_upstream(
    host: &str,
    ips: &Vec<IpAddress>,
    list: Option<Vec<u8>>,
    usable: bool,
    port: u16,
) -> (r: Result<ResolvedUpstream, ResolveError>)
    ensures
        match r {
            Ok(u) => assembled(host@, ips@, opt_bytes(list), usable, port) == Ok::<
                UpstreamModel,
                ResolveFault,
            >(u@),
            Err(e) => assembled(host@, ips@, opt_bytes(list), usable, port) == Err::<
                UpstreamModel,
                ResolveFault,
            >(e@),
        },
{
    if ips.is_empty() {
        return Err(ResolveError::NoAddresses(host.to_string()));
    }
    let mut addrs: Vec<SocketAddress> = Vec::new();
    assert(ips@.take(0) =~= Seq::<IpAddress>::empty());
    assert(addrs@ =~= with_port(Seq::empty(), port));
    for i in 0..ips.len()
        invariant
            addrs@ == with_port(distinct(ips@.take(i as int)), port),
    {
        let address = SocketAddress { ip: ips[i], port };
        let ghost front = distinct(ips@.take(i as int));
        proof {
            assert(ips@.take(i + 1).drop_last() =~= ips@.take(i as int));
            if front.contains(ips@[i as int]) {
                let k = choose|k: int| 0 <= k < front.len() && front[k] == ips@[i as int];
                assert(addrs@[k] == address);
            }
            if addrs@.contains(address) {
                let k = choose|k: int| 0 <= k < addrs@.len() && addrs@[k] == address;
                assert(front[k] == ips@[i as int]);
            }
        }
        if !contains_address(&addrs, address) {
            addrs.push(address);
            assert(addrs@ =~= with_port(front.push(ips@[i as int]), port));
        }
    }
    assert(ips@.take(ips@.len() as int) =~= ips@);
    let ech_config_list = if usable {
        list
    } else {
        None
    };
    Ok(ResolvedUpstream { addrs, ech_config_list })
}

/// The host whose addresses are looked up: the target of the binding, where
/// it has one.
pub open spec fn target_host(binding: BindingModel, host: Seq<char>) -> Seq<char> {
    match binding.target_name {
        Some(name) => if name.len() == 0 {
            host
        } else {
            name
        },
        None => host,
    }
}

/// The other host whose addresses are looked up: the public name of the
/// binding's ECH configuration, unless it is the target.
pub open spec fn public_host(binding: BindingModel, target: Seq<char>) -> Option<Seq<char>> {
    match binding.ech_public_name {
        Some(name) => if name == target {
            None
        } else {
            Some(name)
        },
        None => None,
    }
}

fn binding_target(binding: &HttpsServiceBinding, host: &str) -> (r: String)
    ensures
        r@ == target_host(binding@, host@),
{
    match &binding.target_name {
        Some(name) => if name.as_str().is_empty() {
            host.to_string()
        } else {
            name.clone()
        },
        None => host.to_string(),
    }
}

fn binding_public_name(binding: &HttpsServiceBinding, target: &str) -> (r: Option<String>)
    ensures
        opt_text(r) == public_host(binding@, target@),
{
    match &binding.ech_public_name {
        Some(name) => if same_text(name.as_str(), target) {
            None
        } else {
            Some(name.clone())
        },
        None => None,
    }
}

// ---------------------------------------------------------------------------
// The course of a resolution
// ---------------------------------------------------------------------------

/// What has been found out so far. `None` is what has not been asked yet.
#[derive(Debug)]
pub struct ResolveKnown {
    /// The address that the host itself reads as, if it reads as one.
    pub literal: Option<Option<IpAddress>>,
    /// What the cache holds.
    pub cached: Option<Option<ResolvedUpstream>>,
    /// The address that the override reads as, if it reads as one.
    pub override_address: Option<Option<IpAddress>>,
    /// The answers to the HTTPS query.
    pub https_answers: Option<Result<Vec<DohAnswer>, String>>,
    /// The addresses of the target and of the public name.
    pub addresses: Option<Result<(Vec<IpAddress>, Vec<IpAddress>), String>>,
}

/// What has been found out so far, as mathematical values.
#[verifier::ext_equal]
pub struct KnownModel {
    pub literal: Option<Option<IpAddress>>,
    pub cached: Option<Option<UpstreamModel>>,
    pub override_address: Option<Option<IpAddress>>,
    pub https_answers: Option<Result<Seq<(u16, Seq<char>)>, Seq<char>>>,
    pub addresses: Option<Result<(Seq<IpAddress>, Seq<IpAddress>), Seq<char>>>,
}

impl View for ResolveKnown {
    type V = KnownModel;

    open spec fn view(&self) -> KnownModel {
        KnownModel {
            literal: self.literal,
            cached: match self.cached {
                None => None,
                Some(None) => Some(None),
                Some(Some(u)) => Some(Some(u@)),
            },
            override_address: self.override_address,
            https_answers: match self.https_answers {
                None => None,
                Some(Ok(answers)) => Some(Ok(answer_models(answers@))),
                Some(Err(e)) => Some(Err(e@)),
            },
            addresses: match self.addresses {
                None => None,
                Some(Ok((ips, extra))) => Some(Ok((ips@, extra@))),
                Some(Err(e)) => Some(Err(e@)),
            },
        }
    }
}

impl ResolveKnown {
    /// Nothing has been asked yet.
    pub fn nothing() -> (r: ResolveKnown)
        ensures
            r@ == (KnownModel {
                literal: None,
                cached: None,
                override_address: None,
                https_answers: None,
                addresses: None,
            }),
    {
        ResolveKnown {
            literal: None,
            cached: None,
            override_address: None,
            https_answers: None,
            addresses: None,
        }
    }
}

/// What to do next.
#[derive(Debug)]
pub enum ResolveStep {
    /// Find out whether the host itself is an address.
    ReadLiteral(String),
    /// Look into the cache.
    ReadCache(String, u16),
    /// Find out whether this override is an address.
    ReadOverride(String),
    /// Ask for the HTTPS records of this host.
    QueryBinding(String),
    /// Ask for the addresses of this host, and of the other where there is
    /// one.
    QueryAddresses(String, Option<String>),
    /// Done; the upstream is to be put into the cache for this host, where
    /// there is one.
    Return(ResolvedUpstream, Option<String>),
    /// Given up.
    Fail(ResolveError),
}

/// What to do next, as mathematical values.
#[verifier::ext_equal]
pub enum StepModel {
    ReadLiteral(Seq<char>),
    ReadCache(Seq<char>, u16),
    ReadOverride(Seq<char>),
    QueryBinding(Seq<char>),
    QueryAddresses(Seq<char>, Option<Seq<char>>),
    Return(UpstreamModel, Option<Seq<char>>),
    Fail(ResolveFault),
}

impl View for ResolveStep {
    type V = StepModel;

    open spec fn view(&self) -> StepModel {
        match *self {
            ResolveStep::ReadLiteral(text) => StepModel::ReadLiteral(text@),
            ResolveStep::ReadCache(host, port) => StepModel::ReadCache(host@, port),
            ResolveStep::ReadOverride(text) => StepModel::ReadOverride(text@),
            ResolveStep::QueryBinding(host) => StepModel::QueryBinding(host@),
            ResolveStep::QueryAddresses(host, other) => StepModel::QueryAddresses(
                host@,
                opt_text(other),
            ),
            ResolveStep::Return(upstream, key) => StepModel::Return(upstream@, opt_text(key)),
            ResolveStep::Fail(error) => StepModel::Fail(error@),
        }
    }
}

/// The upstream at one address, without ECH.
pub open spec fn single(ip: IpAddress, port: u16) -> UpstreamModel {
    UpstreamModel { addrs: seq![SocketAddress { ip, port }], ech_config_list: None }
}

/// The host that an upstream is kept under in the cache: the one that was
/// asked for, in lower case.
pub fn cache_key(host: &str) -> (r: String)
    ensures
        r@ == lowercase(host@),
{
    to_ascii_lowercase(host)
}

/// What to do next where the addresses of the binding's target have been
/// asked for: put the upstream together, and keep it under `key`.
pub open spec fn finish_step(
    key: Seq<char>,
    binding: BindingModel,
    target: Seq<char>,
    ips: Seq<IpAddress>,
    extra: Seq<IpAddress>,
    port: u16,
) -> StepModel {
    let all = if public_host(binding, target) is Some {
        ips + extra
    } else {
        ips
    };
    let usable = binding.ech_config_list matches Some(list) && ech_accepted(list);
    match assembled(target, all, binding.ech_config_list, usable, port) {
        Ok(upstream) => StepModel::Return(upstream, Some(key)),
        Err(e) => StepModel::Fail(e),
    }
}

/// What to do next where `host` has to be looked up: ask for its HTTPS
/// records, then for the addresses that they lead to.
pub open spec fn lookup_step(
    key: Seq<char>,
    host: Seq<char>,
    port: u16,
    known: KnownModel,
) -> StepModel {
    match known.https_answers {
        None => StepModel::QueryBinding(host),
        Some(Err(e)) => StepModel::Fail(ResolveFault::Failed(e)),
        Some(Ok(answers)) => {
            let binding = answered_binding(answers);
            let target = target_host(binding, host);
            match known.addresses {
                None => StepModel::QueryAddresses(target, public_host(binding, target)),
                Some(Err(e)) => StepModel::Fail(ResolveFault::Failed(e)),
                Some(Ok((ips, extra))) => finish_step(key, binding, target, ips, extra, port),
            }
        },
    }
}

/// What to do next where the configuration overrides the host.
pub open spec fn override_step(
    key: Seq<char>,
    raw: Seq<char>,
    port: u16,
    known: KnownModel,
) -> StepModel {
    if may_be_address(raw) && known.override_address is None {
        StepModel::ReadOverride(trimmed(raw))
    } else {
        let address = match known.override_address {
            Some(address) => address,
            None => None,
        };
        match override_of(raw, address) {
            Err(e) => StepModel::Fail(e),
            Ok(OverrideModel::Addresses(ips)) => StepModel::Return(
                UpstreamModel { addrs: with_port(ips, port), ech_config_list: None },
                Some(key),
            ),
            Ok(OverrideModel::Alias(host)) => lookup_step(key, host, port, known),
        }
    }
}

/// What to do next: an address is its own upstream; otherwise the cache
/// counts, then the configuration's override, then a lookup.
pub open spec fn next_step(
    config: ConfigModel,
    host: Seq<char>,
    port: u16,
    known: KnownModel,
) -> StepModel {
    match known.literal {
        None => StepModel::ReadLiteral(host),
        Some(Some(ip)) => StepModel::Return(single(ip, port), None),
        Some(None) => match known.cached {
            None => StepModel::ReadCache(lowercase(host), port),
            Some(Some(upstream)) => StepModel::Return(upstream, None),
            Some(None) => match dns_override(config.dns_hosts, host) {
                Some(raw) => override_step(lowercase(host), raw, port, known),
                None => lookup_step(lowercase(host), host, port, known),
            },
        },
    }
}

fn next_lookup(key: &str, host: &str, port: u16, known: &ResolveKnown) -> (r: ResolveStep)
    ensures
        r@ == lookup_step(key@, host@, port, known@),
{
    let binding = match &known.https_answers {
        None => {
            return ResolveStep::QueryBinding(host.to_string());
        },
        Some(Err(e)) => {
            return ResolveStep::Fail(ResolveError::Failed(e.clone()));
        },
        Some(Ok(answers)) => resolve_https_binding(answers),
    };
    let target = binding_target(&binding, host);
    let public_name = binding_public_name(&binding, target.as_str());
    match &known.addresses {
        None => ResolveStep::QueryAddresses(target, public_name),
        Some(Err(e)) => ResolveStep::Fail(ResolveError::Failed(e.clone())),
        Some(Ok((ips, extra))) => {
            let mut all: Vec<IpAddress> = ips.clone();
            assert(all@ =~= ips@);
            if public_name.is_some() {
                let mut more: Vec<IpAddress> = extra.clone();
                assert(more@ =~= extra@);
                all.append(&mut more);
            }
            let usable = match &binding.ech_config_list {
                Some(list) => ech_config_usable(list),
                None => false,
            };
            match assemble_upstream(target.as_str(), &all, binding.ech_config_list, usable, port) {
                Ok(upstream) => ResolveStep::Return(upstream, Some(key.to_string())),
                Err(e) => ResolveStep::Fail(e),
            }
        },
    }
}

fn next_override(key: &str, raw: &str, port: u16, known: &ResolveKnown) -> (r: ResolveStep)
    ensures
        r@ == override_step(key@, raw@, port, known@),
{
    let value = trim(raw);
    let plain = !value.as_str().is_empty() && strip_prefix(value.as_str(), "domain:").is_none();
    if plain && known.override_address.is_none() {
        return ResolveStep::ReadOverride(value);
    }
    let address: Option<IpAddress> = match known.override_address {
        Some(address) => address,
        None => None,
    };
    match parse_dns_host_override(raw, address) {
        Err(e) => ResolveStep::Fail(e),
        Ok(DnsHostOverride::Addresses(ips)) => {
            let mut addrs: Vec<SocketAddress> = Vec::new();
            for i in 0..ips.len()
                invariant
                    addrs@ == with_port(ips@.take(i as int), port),
            {
                addrs.push(SocketAddress { ip: ips[i], port });
                assert(addrs@ =~= with_port(ips@.take(i + 1), port));
            }
            assert(ips@.take(ips@.len() as int) =~= ips@);
            ResolveStep::Return(
                ResolvedUpstream { addrs, ech_config_list: None },
                Some(key.to_string()),
            )
        },
        Ok(DnsHostOverride::Alias(host)) => next_lookup(key, host.as_str(), port, known),
    }
}

/// Says what to do next to resolve `host`, given what is known so far.
pub fn resolve_upstream(config: &AppConfig, host: &str, port: u16, known: &ResolveKnown) -> (r:
    ResolveStep)
    ensures
        r@ == next_step(config@, host@, port, known@),
{
    match known.literal {
        None => {
            return ResolveStep::ReadLiteral(host.to_string());
        },
        Some(Some(ip)) => {
            let addrs = vec![SocketAddress { ip, port }];
            assert(addrs@ =~= seq![SocketAddress { ip, port }]);
            return ResolveStep::Return(ResolvedUpstream { addrs, ech_config_list: None }, None);
        },
        Some(None) => {},
    }
    let key = cache_key(host);
    match &known.cached {
        None => {
            return ResolveStep::ReadCache(key, port);
        },
        Some(Some(upstream)) => {
            return ResolveStep::Return(upstream.clone(), None);
        },
        Some(None) => {},
    }
    match config.find_dns_host_override(host) {
        Some(raw) => next_override(key.as_str(), raw, port, known),
        None => next_lookup(key.as_str(), host, port, known),
    }
}

// ---------------------------------------------------------------------------
// Laws
// ---------------------------------------------------------------------------

/// Whether a step ends the resolution.
pub open spec fn ends(step: StepModel) -> bool {
    step is Return || step is Fail
}

/// Whether everything that `a` knows is known in `b` as well.
pub open spec fn extends(a: KnownModel, b: KnownModel) -> bool {
    &&& a.literal is Some ==> b.literal == a.literal
    &&& a.cached is Some ==> b.cached == a.cached
    &&& a.override_address is Some ==> b.override_address == a.override_address
    &&& a.https_answers is Some ==> b.https_answers == a.https_answers
    &&& a.addresses is Some ==> b.addresses == a.addresses
}

/// Nothing is asked twice: a step asks only for what is not known yet.
pub proof fn law_asks_only_what_is_unknown(
    config: ConfigModel,
    host: Seq<char>,
    port: u16,
    known: KnownModel,
)
    ensures
        match next_step(config, host, port, known) {
            StepModel::ReadLiteral(_) => known.literal is None,
            StepModel::ReadCache(_, _) => known.cached is None,
            StepModel::ReadOverride(_) => known.override_address is None,
            StepModel::QueryBinding(_) => known.https_answers is None,
            StepModel::QueryAddresses(_, _) => known.addresses is None,
            StepModel::Return(_, _) => true,
            StepModel::Fail(_) => true,
        },
{
}

/// Where everything is known the resolution ends.
pub proof fn law_ends_when_all_is_known(
    config: ConfigModel,
    host: Seq<char>,
    port: u16,
    known: KnownModel,
)
    requires
        known.literal is Some,
        known.cached is Some,
        known.override_address is Some,
        known.https_answers is Some,
        known.addresses is Some,
    ensures
        ends(next_step(config, host, port, known)),
{
}

/// Once the resolution has ended, knowing more would not have ended it
/// otherwise.
pub proof fn law_end_is_settled(
    config: ConfigModel,
    host: Seq<char>,
    port: u16,
    known: KnownModel,
    more: KnownModel,
)
    requires
        extends(known, more),
        ends(next_step(config, host, port, known)),
    ensures
        next_step(config, host, port, more) == next_step(config, host, port, known),
{
}

/// A host that is an address is never looked up anywhere.
pub proof fn law_address_needs_no_lookup(
    config: ConfigModel,
    host: Seq<char>,
    port: u16,
    known: KnownModel,
    ip: IpAddress,
)
    requires
        known.literal == Some(Some(ip)),
    ensures
        next_step(config, host, port, known) == StepModel::Return(single(ip, port), None),
{
}

/// What a resolution found and gave to the cache, under the host that it
/// named, is what the next one gives for the same host, in whatever case it is
/// written, until it expires, and without asking anybody.
pub proof fn law_resolution_is_remembered(
    config: ConfigModel,
    host: Seq<char>,
    again: Seq<char>,
    port: u16,
    known: KnownModel,
    upstream: UpstreamModel,
    key: Seq<char>,
    cache: Map<(Seq<char>, u16), CachedModel>,
    now: u64,
    later: u64,
)
    requires
        next_step(config, host, port, known) == StepModel::Return(upstream, Some(key)),
        lowercase(again) == lowercase(host),
        later < now + 300_000_000_000 <= u64::MAX,
    ensures
        ({
            let kept = stored(cache, key, port, upstream, now);
            let asked = KnownModel {
                literal: Some(None),
                cached: Some(cached(kept, lowercase(again), port, later)),
                override_address: None,
                https_answers: None,
                addresses: None,
            };
            next_step(config, again, port, asked) == StepModel::Return(upstream, None)
        }),
{
    law_cache_returns_what_was_stored(cache, key, port, upstream, now, later);
}

proof fn lemma_distinct(ips: Seq<IpAddress>)
    ensures
        distinct(ips).no_duplicates(),
        forall|ip: IpAddress| #[trigger] distinct(ips).contains(ip) <==> ips.contains(ip),
        ips.len() > 0 ==> distinct(ips).len() > 0,
    decreases ips.len(),
{
    if ips.len() > 0 {
        let front = distinct(ips.drop_last());
        lemma_distinct(ips.drop_last());
        assert forall|ip: IpAddress| #[trigger] distinct(ips).contains(ip) <==> ips.contains(
            ip,
        ) by {
            if ips.contains(ip) {
                let k = choose|k: int| 0 <= k < ips.len() && ips[k] == ip;
                if k < ips.len() - 1 {
                    assert(ips.drop_last()[k] == ip);
                    assert(front.contains(ip));
                    let j = choose|j: int| 0 <= j < front.len() && front[j] == ip;
                    assert(distinct(ips)[j] == ip);
                } else if !front.contains(ip) {
                    assert(distinct(ips).last() == ip);
                }
            }
            if distinct(ips).contains(ip) {
                let k = choose|k: int| 0 <= k < distinct(ips).len() && distinct(ips)[k] == ip;
                if k < front.len() {
                    assert(front[k] == ip);
                    assert(front.contains(ip));
                    assert(ips.drop_last().contains(ip));
                    let j = choose|j: int|
                        0 <= j < ips.drop_last().len() && ips.drop_last()[j] == ip;
                    assert(ips[j] == ip);
                } else {
                    assert(ips[ips.len() - 1] == ip);
                }
            }
        }
        if front.len() == 0 {
            assert(distinct(ips).len() > 0);
        }
    }
}

/// An upstream that was put together has at least one address, none twice,
/// exactly those that were found, all with the port that was asked for.
pub proof fn law_assembled_addresses(
    host: Seq<char>,
    ips: Seq<IpAddress>,
    list: Option<Seq<u8>>,
    usable: bool,
    port: u16,
)
    ensures
        assembled(host, ips, list, usable, port) matches Ok(upstream) ==> {
            &&& upstream.addrs.len() > 0
            &&& upstream.addrs.no_duplicates()
            &&& forall|ip: IpAddress| #[trigger]
                ips.contains(ip) <==> upstream.addrs.contains(SocketAddress { ip, port })
            &&& forall|i: int|
                0 <= i < upstream.addrs.len() ==> (#[trigger] upstream.addrs[i]).port == port
            &&& usable ==> upstream.ech_config_list == list
            &&& !usable ==> upstream.ech_config_list is None
        },
        assembled(host, ips, list, usable, port) is Ok <==> ips.len() > 0,
        ips.len() == 0 ==> assembled(host, ips, list, usable, port) == Err::<
            UpstreamModel,
            ResolveFault,
        >(ResolveFault::NoAddresses(host)),
{
    if ips.len() > 0 {
        lemma_distinct(ips);
        let once = distinct(ips);
        let addrs = with_port(once, port);
        assert forall|i: int, j: int| 0 <= i < addrs.len() && 0 <= j < addrs.len() && i
            != j implies addrs[i] != addrs[j] by {
            assert(once[i] != once[j]);
        }
        assert forall|ip: IpAddress| #[trigger] ips.contains(ip) <==> addrs.contains(
            SocketAddress { ip, port },
        ) by {
            if once.contains(ip) {
                let k = choose|k: int| 0 <= k < once.len() && once[k] == ip;
                assert(addrs[k] == (SocketAddress { ip, port }));
            }
            if addrs.contains(SocketAddress { ip, port }) {
                let k = choose|k: int|
                    0 <= k < addrs.len() && addrs[k] == (SocketAddress { ip, port });
                assert(once[k] == ip);
                assert(once.contains(ip));
            }
            assert(once.contains(ip) <==> ips.contains(ip));
        }
    }
}

/// The errors of a resolution in words.
pub proof fn law_resolve_errors_in_words(text: String)
    ensures
        ResolveError::EmptyOverride.text() == "dns_hosts override cannot be empty"@,
        ResolveError::EmptyDomainOverride.text() == "dns_hosts domain override cannot be empty"@,
        ResolveError::NoAddresses(text).text() == "upstream host "@ + text@
            + " resolved to no addresses"@,
        ResolveError::Failed(text).text() == text@,
        ResolveError::EmptyOverride@ == ResolveFault::EmptyOverride,
        ResolveError::EmptyDomainOverride@ == ResolveFault::EmptyDomainOverride,
        ResolveError::NoAddresses(text)@ == ResolveFault::NoAddresses(text@),
        ResolveError::Failed(text)@ == ResolveFault::Failed(text@),
{
}

/// What is said of the steps and of what is known is what they hold.
pub proof fn law_steps_as_they_are(
    text: String,
    port: u16,
    other: Option<String>,
    upstream: ResolvedUpstream,
    error: ResolveError,
)
    ensures
        ResolveStep::ReadLiteral(text)@ == StepModel::ReadLiteral(text@),
        ResolveStep::ReadCache(text, port)@ == StepModel::ReadCache(text@, port),
        ResolveStep::ReadOverride(text)@ == StepModel::ReadOverride(text@),
        ResolveStep::QueryBinding(text)@ == StepModel::QueryBinding(text@),
        ResolveStep::QueryAddresses(text, other)@ == StepModel::QueryAddresses(
            text@,
            opt_text(other),
        ),
        ResolveStep::Return(upstream, other)@ == StepModel::Return(upstream@, opt_text(other)),
        ResolveStep::Fail(error)@ == StepModel::Fail(error@),
        upstream@.addrs == upstream.addrs@,
        upstream.ech_config_list matches Some(list) ==> upstream@.ech_config_list == Some(list@),
        upstream.ech_config_list is None ==> upstream@.ech_config_list is None,
{
}

/// What is said of what is known so far is what it holds.
pub proof fn law_known_as_it_is(known: ResolveKnown)
    ensures
        known@.literal == known.literal,
        known@.override_address == known.override_address,
        known.cached is None ==> known@.cached is None,
        known.cached matches Some(None) ==> known@.cached == Some(None::<UpstreamModel>),
        known.cached matches Some(Some(u)) ==> known@.cached == Some(Some(u@)),
        known.https_answers is None ==> known@.https_answers is None,
        known.https_answers matches Some(Ok(answers)) ==> (known@.https_answers matches Some(Ok(m))
            && m.len() == answers@.len() && forall|i: int|
            0 <= i < m.len() ==> #[trigger] m[i] == (answers@[i].record_type, answers@[i].data@)),
        known.https_answers matches Some(Err(e)) ==> known@.https_answers == Some(
            Err::<Seq<(u16, Seq<char>)>, Seq<char>>(e@),
        ),
        known.addresses is None ==> known@.addresses is None,
        known.addresses matches Some(Ok((ips, extra))) ==> known@.addresses == Some(
            Ok::<(Seq<IpAddress>, Seq<IpAddress>), Seq<char>>((ips@, extra@)),
        ),
        known.addresses matches Some(Err(e)) ==> known@.addresses == Some(
            Err::<(Seq<IpAddress>, Seq<IpAddress>), Seq<char>>(e@),
        ),
{
}

} // verus!
