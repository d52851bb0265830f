//! Bringing a stored configuration up to date: values that became defaults
//! after it was written are added, the old loopback address is replaced, and
//! the two files of earlier versions become one.
use crate::config::{
    AppConfig, ConfigModel, NEW_DEFAULT_LOOPBACK, OLD_DEFAULT_LOOPBACK,
};
use crate::dns_hosts::DnsHosts;
use crate::hosts::{FileChange, FileChangeModel};
use crate::lines::{
    ends_with_return, join, joined, lemma_lines_joined, lemma_lines_unbroken, line_end, lines,
    split_lines, without_last_empty,
};
use crate::paths::{in_dir, legacy_network_profile_path, parent};
use crate::platform::Os;
use crate::space::{is_white_space, trim_end, trimmed_end};
use crate::text::{contains_text, followed_by, opt_text, same_text, texts};
use vstd::prelude::*;

verus! {

// ---------------------------------------------------------------------------
// Merging lists
// ---------------------------------------------------------------------------

/// The values with those of `defaults` that are missing added at the end, in
/// the order of the defaults.
pub open spec fn merged(values: Seq<Seq<char>>, defaults: Seq<Seq<char>>) -> Seq<Seq<char>>
    decreases defaults.len(),
{
    if defaults.len() == 0 {
        values
    } else {
        let front = merged(values, defaults.drop_last());
        if front.contains(defaults.last()) {
            front
        } else {
            front.push(defaults.last())
        }
    }
}

/// Adds to `target` the values of `defaults` that it lacks, and says whether
/// there were any.
pub fn merge_missing_values(target: &mut Vec<String>, defaults: Vec<String>) -> (r: bool)
    ensures
        texts(final(target)@) == merged(texts(old(target)@), texts(defaults@)),
        r == (texts(final(target)@) != texts(old(target)@)),
{
    let ghost start = texts(target@);
    let ghost all = texts(defaults@);
    let mut changed = false;
    assert(all.take(0) =~= Seq::<Seq<char>>::empty());
    for i in 0..defaults.len()
        invariant
            start == texts(old(target)@),
            all == texts(defaults@),
            texts(target@) == merged(start, all.take(i as int)),
            changed == (texts(target@).len() > start.len()),
            start.len() <= texts(target@).len(),
    {
        proof {
            assert(all.take(i + 1).drop_last() =~= all.take(i as int));
            assert(all.take(i + 1).last() == defaults@[i as int]@);
        }
        if !contains_text(target, defaults[i].as_str()) {
            let ghost before = texts(target@);
            target.push(defaults[i].clone());
            assert(texts(target@) =~= before.push(all[i as int]));
            changed = true;
        }
    }
    proof {
        assert(all.take(all.len() as int) =~= all);
        lemma_merged_keeps(start, all);
        if texts(target@).len() == start.len() {
            assert(texts(target@) =~= start);
        }
    }
    changed
}

/// Merging keeps the values that were there in front, adds only defaults, and
/// leaves no default out.
pub proof fn lemma_merged_keeps(values: Seq<Seq<char>>, defaults: Seq<Seq<char>>)
    ensures
        values.is_prefix_of(merged(values, defaults)),
        forall|i: int|
            0 <= i < defaults.len() ==> merged(values, defaults).contains(#[trigger] defaults[i]),
        forall|x: Seq<char>| #[trigger]
            merged(values, defaults).contains(x) ==> values.contains(x) || defaults.contains(x),
    decreases defaults.len(),
{
    let all = merged(values, defaults);
    if defaults.len() == 0 {
        assert(values =~= all.subrange(0, values.len() as int));
    } else {
        let front = merged(values, defaults.drop_last());
        lemma_merged_keeps(values, defaults.drop_last());
        assert(values =~= all.subrange(0, values.len() as int));
        if !front.contains(defaults.last()) {
            assert(all.last() == defaults.last());
        }
        assert forall|i: int| 0 <= i < defaults.len() implies all.contains(
            #[trigger] defaults[i],
        ) by {
            if i < defaults.len() - 1 {
                assert(defaults.drop_last()[i] == defaults[i]);
                let k = choose|k: int| 0 <= k < front.len() && front[k] == defaults[i];
                assert(all[k] == defaults[i]);
            }
        }
        assert forall|x: Seq<char>| #[trigger] all.contains(x) implies values.contains(x)
            || defaults.contains(x) by {
            let k = choose|k: int| 0 <= k < all.len() && all[k] == x;
            if k < front.len() {
                assert(front[k] == x);
                assert(front.contains(x));
                if defaults.drop_last().contains(x) {
                    let j = choose|j: int|
                        0 <= j < defaults.drop_last().len() && defaults.drop_last()[j] == x;
                    assert(defaults[j] == x);
                }
            } else {
                assert(defaults[defaults.len() - 1] == x);
            }
        }
    }
}

/// Where nothing is missing, merging changes nothing.
pub proof fn lemma_merged_complete(values: Seq<Seq<char>>, defaults: Seq<Seq<char>>)
    requires
        forall|i: int| 0 <= i < defaults.len() ==> values.contains(#[trigger] defaults[i]),
    ensures
        merged(values, defaults) == values,
    decreases defaults.len(),
{
    if defaults.len() > 0 {
        let front = defaults.drop_last();
        assert forall|i: int| 0 <= i < front.len() implies values.contains(#[trigger] front[i]) by {
            assert(front[i] == defaults[i]);
        }
        lemma_merged_complete(values, front);
        assert(values.contains(defaults[defaults.len() - 1]));
    }
}

/// Merging the same defaults a second time changes nothing.
pub proof fn law_merging_settles(values: Seq<Seq<char>>, defaults: Seq<Seq<char>>)
    ensures
        merged(merged(values, defaults), defaults) == merged(values, defaults),
{
    lemma_merged_keeps(values, defaults);
    lemma_merged_complete(merged(values, defaults), defaults);
}

/// Merging repeats no value: where the values were distinct they stay so.
pub proof fn law_merging_repeats_nothing(values: Seq<Seq<char>>, defaults: Seq<Seq<char>>)
    requires
        values.no_duplicates(),
    ensures
        merged(values, defaults).no_duplicates(),
    decreases defaults.len(),
{
    if defaults.len() > 0 {
        law_merging_repeats_nothing(values, defaults.drop_last());
    }
}

// ---------------------------------------------------------------------------
// Bringing a configuration up to date
// ---------------------------------------------------------------------------

/// The address with the old loopback default replaced by the new one.
pub open spec fn migrated_address(address: Seq<char>) -> Seq<char> {
    if address == OLD_DEFAULT_LOOPBACK@ {
        NEW_DEFAULT_LOOPBACK@
    } else {
        address
    }
}

/// The configuration with both addresses migrated.
pub open spec fn migrated(config: ConfigModel) -> ConfigModel {
    ConfigModel {
        listen_host: migrated_address(config.listen_host),
        hosts_ip: migrated_address(config.hosts_ip),
        ..config
    }
}

/// Replaces the old loopback default where it is still configured, and says
/// whether it was.
pub fn migrate_loopback_defaults(config: &mut AppConfig) -> (r: bool)
    ensures
        final(config)@ == migrated(old(config)@),
        r == (old(config)@.listen_host == "127.0.0.1"@ || old(config)@.hosts_ip
            == "127.0.0.1"@),
{
    let mut changed = false;
    if same_text(config.listen_host.as_str(), OLD_DEFAULT_LOOPBACK) {
        config.listen_host = NEW_DEFAULT_LOOPBACK.to_string();
        changed = true;
    }
    if same_text(config.hosts_ip.as_str(), OLD_DEFAULT_LOOPBACK) {
        config.hosts_ip = NEW_DEFAULT_LOOPBACK.to_string();
        changed = true;
    }
    changed
}

/// The configuration brought up to date against the defaults.
pub open spec fn updated(config: ConfigModel, defaults: ConfigModel) -> ConfigModel {
    ConfigModel {
        doh_endpoints: merged(config.doh_endpoints, defaults.doh_endpoints),
        proxy_domains: merged(config.proxy_domains, defaults.proxy_domains),
        hosts_domains: merged(config.hosts_domains, defaults.hosts_domains),
        certificate_domains: merged(config.certificate_domains, defaults.certificate_domains),
        ..migrated(config)
    }
}

proof fn lemma_loopbacks_differ()
    ensures
        OLD_DEFAULT_LOOPBACK@ != NEW_DEFAULT_LOOPBACK@,
{
    reveal_strlit("127.0.0.1");
    reveal_strlit("127.211.73.84");
    assert(OLD_DEFAULT_LOOPBACK@.len() != NEW_DEFAULT_LOOPBACK@.len());
}

/// Brings `config` up to date against `defaults`, and says whether that
/// changed it.
pub fn update_config(config: &mut AppConfig, defaults: AppConfig) -> (r: bool)
    ensures
        final(config)@ == updated(old(config)@, defaults@),
        r == (final(config)@ != old(config)@),
{
    proof {
        lemma_loopbacks_differ();
    }
    let moved = migrate_loopback_defaults(config);
    let doh = merge_missing_values(&mut config.doh_endpoints, defaults.doh_endpoints);
    let proxy = merge_missing_values(&mut config.proxy_domains, defaults.proxy_domains);
    let hosts = merge_missing_values(&mut config.hosts_domains, defaults.hosts_domains);
    let certificate = merge_missing_values(
        &mut config.certificate_domains,
        defaults.certificate_domains,
    );
    let changed = moved || doh || proxy || hosts || certificate;
    assert(config@ =~= updated(old(config)@, defaults@));
    assert(!changed ==> config@ =~= old(config)@);
    changed
}

/// A configuration that is up to date stays as it is.
pub proof fn law_update_settles(config: ConfigModel, defaults: ConfigModel)
    ensures
        updated(updated(config, defaults), defaults) == updated(config, defaults),
{
    lemma_loopbacks_differ();
    law_merging_settles(config.doh_endpoints, defaults.doh_endpoints);
    law_merging_settles(config.proxy_domains, defaults.proxy_domains);
    law_merging_settles(config.hosts_domains, defaults.hosts_domains);
    law_merging_settles(config.certificate_domains, defaults.certificate_domains);
    assert(updated(updated(config, defaults), defaults) =~= updated(config, defaults));
}

/// Bringing a configuration up to date keeps every value that the user put
/// into a list, in its place, and leaves no default out.
pub proof fn law_update_keeps_values(config: ConfigModel, defaults: ConfigModel)
    ensures
        config.doh_endpoints.is_prefix_of(updated(config, defaults).doh_endpoints),
        config.proxy_domains.is_prefix_of(updated(config, defaults).proxy_domains),
        config.hosts_domains.is_prefix_of(updated(config, defaults).hosts_domains),
        config.certificate_domains.is_prefix_of(updated(config, defaults).certificate_domains),
        forall|i: int|
            0 <= i < defaults.proxy_domains.len() ==> updated(
                config,
                defaults,
            ).proxy_domains.contains(#[trigger] defaults.proxy_domains[i]),
        updated(config, defaults).dns_hosts == config.dns_hosts,
        updated(config, defaults).upstream == config.upstream,
{
    lemma_merged_keeps(config.doh_endpoints, defaults.doh_endpoints);
    lemma_merged_keeps(config.proxy_domains, defaults.proxy_domains);
    lemma_merged_keeps(config.hosts_domains, defaults.hosts_domains);
    lemma_merged_keeps(config.certificate_domains, defaults.certificate_domains);
}

// ---------------------------------------------------------------------------
// The two files of earlier versions
// ---------------------------------------------------------------------------

/// The main file of earlier versions.
#[derive(Debug)]
pub struct LegacyMainConfig {
    pub listen_host: String,
    pub hosts_ip: String,
    pub http_port: u16,
    pub https_port: u16,
    pub upstream: String,
    pub fake_sni: Option<String>,
    pub ca_common_name: String,
    pub server_common_name: String,
}

/// The network file of earlier versions.
#[derive(Debug)]
pub struct LegacyNetworkProfile {
    pub doh_endpoints: Vec<String>,
    pub proxy_domains: Vec<String>,
    pub certificate_domains: Vec<String>,
}

/// What a network file lacks.
#[derive(Debug, Clone, Copy, PartialEq, Eq, Structural)]
pub enum LegacyProfileError {
    MissingDohEndpoints,
    MissingProxyDomains,
    MissingCertificateDomains,
}

impl LegacyProfileError {
    /// The error in words.
    pub open spec fn text(self) -> Seq<char> {
        match self {
            LegacyProfileError::MissingDohEndpoints =>
                "legacy network profile is missing doh_endpoints"@,
            LegacyProfileError::MissingProxyDomains =>
                "legacy network profile is missing proxy_domains"@,
            LegacyProfileError::MissingCertificateDomains =>
                "legacy network profile is missing certificate_domains"@,
        }
    }

    /// The error in words.
    pub fn message(&self) -> (r: String)
        ensures
            r@ == self.text(),
    {
        match self {
            LegacyProfileError::MissingDohEndpoints =>
                "legacy network profile is missing doh_endpoints".to_string(),
            LegacyProfileError::MissingProxyDomains =>
                "legacy network profile is missing proxy_domains".to_string(),
            LegacyProfileError::MissingCertificateDomains =>
                "legacy network profile is missing certificate_domains".to_string(),
        }
    }
}

/// What makes a network file unusable: the first of its lists that is empty.
pub open spec fn profile_error(profile: LegacyNetworkProfile) -> Option<LegacyProfileError> {
    if profile.doh_endpoints@.len() == 0 {
        Some(LegacyProfileError::MissingDohEndpoints)
    } else if profile.proxy_domains@.len() == 0 {
        Some(LegacyProfileError::MissingProxyDomains)
    } else if profile.certificate_domains@.len() == 0 {
        Some(LegacyProfileError::MissingCertificateDomains)
    } else {
        None
    }
}

/// Checks that a network file leaves no list empty.
pub fn check_legacy_network_profile(profile: &LegacyNetworkProfile) -> (r: Result<
    (),
    LegacyProfileError,
>)
    ensures
        match r {
            Ok(_) => profile_error(*profile) is None,
            Err(e) => profile_error(*profile) == Some(e),
        },
{
    if profile.doh_endpoints.is_empty() {
        return Err(LegacyProfileError::MissingDohEndpoints);
    }
    if profile.proxy_domains.is_empty() {
        return Err(LegacyProfileError::MissingProxyDomains);
    }
    if profile.certificate_domains.is_empty() {
        return Err(LegacyProfileError::MissingCertificateDomains);
    }
    Ok(())
}

/// The configuration that the two files of an earlier version make up.
pub open spec fn from_legacy(
    main: LegacyMainConfig,
    network: Option<LegacyNetworkProfile>,
) -> ConfigModel {
    ConfigModel {
        listen_host: main.listen_host@,
        hosts_ip: main.hosts_ip@,
        http_port: main.http_port,
        https_port: main.https_port,
        upstream: main.upstream@,
        fake_sni: opt_text(main.fake_sni),
        doh_endpoints: match network {
            Some(n) => texts(n.doh_endpoints@),
            None => Seq::empty(),
        },
        dns_hosts: Seq::empty(),
        proxy_domains: match network {
            Some(n) => texts(n.proxy_domains@),
            None => Seq::empty(),
        },
        hosts_domains: Seq::empty(),
        certificate_domains: match network {
            Some(n) => texts(n.certificate_domains@),
            None => Seq::empty(),
        },
        ca_common_name: main.ca_common_name@,
        server_common_name: main.server_common_name@,
    }
}

/// One configuration out of the two files of an earlier version.
pub fn combine_legacy(main: LegacyMainConfig, network: Option<LegacyNetworkProfile>) -> (r:
    AppConfig)
    ensures
        r@ == from_legacy(main, network),
{
    let lists = match network {
        Some(n) => n,
        None => LegacyNetworkProfile {
            doh_endpoints: Vec::new(),
            proxy_domains: Vec::new(),
            certificate_domains: Vec::new(),
        },
    };
    let r = AppConfig {
        listen_host: main.listen_host,
        hosts_ip: main.hosts_ip,
        http_port: main.http_port,
        https_port: main.https_port,
        upstream: main.upstream,
        fake_sni: main.fake_sni,
        doh_endpoints: lists.doh_endpoints,
        dns_hosts: DnsHosts::new(),
        proxy_domains: lists.proxy_domains,
        hosts_domains: Vec::new(),
        certificate_domains: lists.certificate_domains,
        ca_common_name: main.ca_common_name,
        server_common_name: main.server_common_name,
    };
    assert(r@ =~= from_legacy(main, network));
    r
}

// ---------------------------------------------------------------------------
// Loading
// ---------------------------------------------------------------------------

/// What was found where the configuration is stored.
#[derive(Debug)]
pub enum StoredConfig {
    /// There is no file.
    Missing,
    /// The file holds a configuration.
    Current(AppConfig),
    /// The file is the main file of an earlier version; its network file
    /// stands beside it or not.
    Legacy(LegacyMainConfig, Option<LegacyNetworkProfile>),
    /// The file is neither, for this reason.
    Unreadable(String),
    /// The file is the main file of an earlier version, and what stands beside
    /// it is no network file, for this reason.
    UnreadableNetwork(String),
}

/// What was found in a file: `current` is what it says as a configuration,
/// if it is one, `main` what it says as the main file of an earlier version,
/// or why it is none. The network file beside it, if there is one, counts for
/// such a main file only.
pub fn stored_config(
    current: Option<AppConfig>,
    main: Result<LegacyMainConfig, String>,
    network: Option<Result<LegacyNetworkProfile, String>>,
) -> (r: StoredConfig)
    ensures
        r == match current {
            Some(config) => StoredConfig::Current(config),
            None => match main {
                Err(why) => StoredConfig::Unreadable(why),
                Ok(main) => match network {
                    None => StoredConfig::Legacy(main, None),
                    Some(Ok(network)) => StoredConfig::Legacy(main, Some(network)),
                    Some(Err(why)) => StoredConfig::UnreadableNetwork(why),
                },
            },
        },
{
    match current {
        Some(config) => StoredConfig::Current(config),
        None => match main {
            Err(why) => StoredConfig::Unreadable(why),
            Ok(main) => match network {
                None => StoredConfig::Legacy(main, None),
                Some(Ok(network)) => StoredConfig::Legacy(main, Some(network)),
                Some(Err(why)) => StoredConfig::UnreadableNetwork(why),
            },
        },
    }
}

/// Why a configuration cannot be loaded.
#[derive(Debug)]
pub enum LoadError {
    /// The file at this path is no configuration, for this reason.
    Config(String, String),
    /// The file at this path is no network file, for this reason.
    Network(String, String),
    /// The network file lacks something.
    Incomplete(LegacyProfileError),
}

/// Why a configuration cannot be loaded, with texts as sequences.
#[verifier::ext_equal]
pub enum LoadFault {
    Config(Seq<char>, Seq<char>),
    Network(Seq<char>, Seq<char>),
    Incomplete(LegacyProfileError),
}

impl View for LoadError {
    type V = LoadFault;

    open spec fn view(&self) -> LoadFault {
        match *self {
            LoadError::Config(path, why) => LoadFault::Config(path@, why@),
            LoadError::Network(path, why) => LoadFault::Network(path@, why@),
            LoadError::Incomplete(e) => LoadFault::Incomplete(e),
        }
    }
}

impl LoadFault {
    /// The error in words.
    pub open spec fn words(self) -> Seq<char> {
        match self {
            LoadFault::Config(path, _) => "failed to parse config "@ + path,
            LoadFault::Network(path, _) => "failed to parse "@ + path,
            LoadFault::Incomplete(e) => e.text(),
        }
    }

    /// What the error was caused by.
    pub open spec fn reason(self) -> Option<Seq<char>> {
        match self {
            LoadFault::Config(_, why) => Some(why),
            LoadFault::Network(_, why) => Some(why),
            LoadFault::Incomplete(_) => None,
        }
    }
}

impl LoadError {
    /// The error in words.
    pub fn message(&self) -> (r: String)
        ensures
            r@ == self@.words(),
    {
        match self {
            LoadError::Config(path, _) => followed_by("failed to parse config ", path.as_str()),
            LoadError::Network(path, _) => followed_by("failed to parse ", path.as_str()),
            LoadError::Incomplete(e) => e.message(),
        }
    }

    /// What the error was caused by.
    pub fn cause(&self) -> (r: Option<String>)
        ensures
            opt_text(r) == self@.reason(),
    {
        match self {
            LoadError::Config(_, why) => Some(why.clone()),
            LoadError::Network(_, why) => Some(why.clone()),
            LoadError::Incomplete(_) => None,
        }
    }
}

/// When the file is written after loading.
#[derive(Debug, Clone, Copy, PartialEq, Eq, Structural)]
pub enum WriteBack {
    /// With the text of the defaults.
    Defaults,
    /// With the loaded configuration.
    Always,
    /// With the loaded configuration, where the file says something else.
    WhereDifferent,
}

/// A loaded configuration and what to do with the files.
#[derive(Debug)]
pub struct Loaded {
    pub config: AppConfig,
    /// When the file is written.
    pub write_back: WriteBack,
    /// What becomes of the network file of earlier versions.
    pub cleanup: FileChange,
}

/// A loaded configuration and what to do with the files, as mathematical
/// values.
#[verifier::ext_equal]
pub struct LoadedModel {
    pub config: ConfigModel,
    pub write_back: WriteBack,
    pub cleanup: FileChangeModel,
}

impl View for Loaded {
    type V = LoadedModel;

    open spec fn view(&self) -> LoadedModel {
        LoadedModel {
            config: self.config@,
            write_back: self.write_back,
            cleanup: self.cleanup@,
        }
    }
}

/// What loading came to, as mathematical values.
pub open spec fn load_model(outcome: Result<Loaded, LoadError>) -> Result<LoadedModel, LoadFault> {
    match outcome {
        Ok(loaded) => Ok(loaded@),
        Err(e) => Err(e@),
    }
}

/// Where the network file of an earlier version stands.
pub open spec fn network_file(os: Os, path: Seq<char>) -> Seq<char> {
    in_dir(os, parent(os, path), "linuxdo-network.toml"@)
}

/// The removal of the network file that an earlier version kept beside the
/// configuration.
pub open spec fn network_file_removal(os: Os, path: Seq<char>) -> FileChangeModel {
    FileChangeModel::Remove(network_file(os, path))
}

/// Removes the network file that an earlier version kept beside the
/// configuration at `path`.
pub fn cleanup_legacy_network_profile(os: Os, path: &str) -> (r: FileChange)
    ensures
        r@ == network_file_removal(os, path@),
{
    FileChange::Remove(legacy_network_profile_path(os, path))
}

/// What loading the configuration at `path` comes to: the defaults where there
/// is none, and else what was found, brought up to date. The network file of
/// an earlier version goes with every one that is loaded. What cannot be read,
/// and a network file that lacks something, is an error.
pub open spec fn loaded(
    os: Os,
    path: Seq<char>,
    stored: StoredConfig,
    defaults: ConfigModel,
) -> Result<LoadedModel, LoadFault> {
    let cleanup = network_file_removal(os, path);
    match stored {
        StoredConfig::Missing => Ok(
            LoadedModel { config: defaults, write_back: WriteBack::Defaults, cleanup },
        ),
        StoredConfig::Current(config) => Ok(
            LoadedModel {
                config: updated(config@, defaults),
                write_back: if updated(config@, defaults) == config@ {
                    WriteBack::WhereDifferent
                } else {
                    WriteBack::Always
                },
                cleanup,
            },
        ),
        StoredConfig::Legacy(main, network) => match network {
            Some(n) if profile_error(n) is Some => Err(
                LoadFault::Incomplete(profile_error(n)->0),
            ),
            _ => Ok(
                LoadedModel {
                    config: updated(from_legacy(main, network), defaults),
                    write_back: WriteBack::Always,
                    cleanup,
                },
            ),
        },
        StoredConfig::Unreadable(why) => Err(LoadFault::Config(path, why@)),
        StoredConfig::UnreadableNetwork(why) => Err(
            LoadFault::Network(network_file(os, path), why@),
        ),
    }
}

impl AppConfig {
    /// Loads a configuration out of what was found where it is stored, at
    /// `path`.
    pub fn load_or_create(
        os: Os,
        path: &str,
        stored: StoredConfig,
        defaults: AppConfig,
    ) -> (r: Result<Loaded, LoadError>)
        ensures
            load_model(r) == loaded(os, path@, stored, defaults@),
    {
        let cleanup = cleanup_legacy_network_profile(os, path);
        match stored {
            StoredConfig::Missing => Ok(
                Loaded { config: defaults, write_back: WriteBack::Defaults, cleanup },
            ),
            StoredConfig::Current(mut config) => {
                let changed = update_config(&mut config, defaults);
                let write_back = if changed {
                    WriteBack::Always
                } else {
                    WriteBack::WhereDifferent
                };
                Ok(Loaded { config, write_back, cleanup })
            },
            StoredConfig::Legacy(main, network) => {
                if let Some(n) = &network {
                    if let Err(e) = check_legacy_network_profile(n) {
                        return Err(LoadError::Incomplete(e));
                    }
                }
                let mut config = combine_legacy(main, network);
                update_config(&mut config, defaults);
                Ok(Loaded { config, write_back: WriteBack::Always, cleanup })
            },
            StoredConfig::Unreadable(why) => Err(LoadError::Config(path.to_string(), why)),
            StoredConfig::UnreadableNetwork(why) => Err(
                LoadError::Network(legacy_network_profile_path(os, path), why),
            ),
        }
    }

    /// What saving the defaults changes: the file at `path` is written with
    /// their text, unless it is there, and then the network file of an
    /// earlier version goes.
    pub fn save_default(os: Os, path: &str, present: bool, default_text: &str) -> (r: Vec<
        FileChange,
    >)
        ensures
            change_models(r@) == (if present {
                Seq::empty()
            } else {
                seq![FileChangeModel::Write(path@, default_text@)]
            }).push(network_file_removal(os, path@)),
    {
        let mut changes: Vec<FileChange> = Vec::new();
        if !present {
            changes.push(FileChange::Write(path.to_string(), default_text.to_string()));
        }
        changes.push(cleanup_legacy_network_profile(os, path));
        assert(change_models(changes@) =~= (if present {
            Seq::empty()
        } else {
            seq![FileChangeModel::Write(path@, default_text@)]
        }).push(network_file_removal(os, path@)));
        changes
    }
}

/// The changes as mathematical values.
pub open spec fn change_models(changes: Seq<FileChange>) -> Seq<FileChangeModel> {
    changes.map_values(|c: FileChange| c@)
}

/// The text with the white space at the end of its lines removed and its line
/// ends made line feeds.
pub open spec fn normalized(content: Seq<char>) -> Seq<char> {
    joined(lines(content).map_values(|l: Seq<char>| trimmed_end(l)), "\n"@)
}

/// The text with the white space at the end of its lines removed and its line
/// ends made line feeds.
pub fn normalize_toml(content: &str) -> (r: String)
    ensures
        r@ == normalized(content@),
{
    let split = split_lines(content);
    let ghost ends = lines(content@).map_values(|l: Seq<char>| trimmed_end(l));
    let mut out: Vec<String> = Vec::new();
    for i in 0..split.len()
        invariant
            texts(split@) == lines(content@),
            ends == lines(content@).map_values(|l: Seq<char>| trimmed_end(l)),
            texts(out@) == ends.take(i as int),
    {
        let ghost before = texts(out@);
        let line = trim_end(split[i].as_str());
        assert(lines(content@)[i as int] == split@[i as int]@);
        out.push(line);
        assert(texts(out@) =~= before.push(line@));
        assert(texts(out@) =~= ends.take(i + 1));
    }
    assert(ends.take(ends.len() as int) =~= ends);
    join(&out, "\n")
}

/// Whether the file is written after loading: `content` is what it holds,
/// `serialized` what the loaded configuration is written as.
pub open spec fn rewrites(write_back: WriteBack, content: Seq<char>, serialized: Seq<char>) -> bool {
    match write_back {
        WriteBack::WhereDifferent => normalized(content) != normalized(serialized),
        _ => true,
    }
}

/// Whether the file is written after loading.
pub fn needs_rewrite(write_back: WriteBack, content: &str, serialized: &str) -> (r: bool)
    ensures
        r == rewrites(write_back, content@, serialized@),
{
    match write_back {
        WriteBack::WhereDifferent => normalize_toml(content) != normalize_toml(serialized),
        _ => true,
    }
}

/// What is changed after loading, in this order: the file at `path`, which
/// holds `content`, is written where it has to be, with the text of the
/// defaults or with what the loaded configuration is written as; then the
/// network file of an earlier version goes. Where loading failed nothing is
/// changed.
pub open spec fn changes_of(
    path: Seq<char>,
    outcome: Result<LoadedModel, LoadFault>,
    content: Seq<char>,
    default_text: Seq<char>,
    serialized: Seq<char>,
) -> Seq<FileChangeModel> {
    match outcome {
        Err(_) => Seq::empty(),
        Ok(loaded) => (if loaded.write_back == WriteBack::Defaults {
            seq![FileChangeModel::Write(path, default_text)]
        } else if rewrites(loaded.write_back, content, serialized) {
            seq![FileChangeModel::Write(path, serialized)]
        } else {
            Seq::empty()
        }).push(loaded.cleanup),
    }
}

/// The changes that loading owes, in order.
pub fn file_changes(
    path: &str,
    outcome: &Result<Loaded, LoadError>,
    content: &str,
    default_text: &str,
    serialized: &str,
) -> (r: Vec<FileChange>)
    ensures
        change_models(r@) == changes_of(
            path@,
            load_model(*outcome),
            content@,
            default_text@,
            serialized@,
        ),
{
    let mut changes: Vec<FileChange> = Vec::new();
    if let Ok(loaded) = outcome {
        if loaded.write_back == WriteBack::Defaults {
            changes.push(FileChange::Write(path.to_string(), default_text.to_string()));
        } else if needs_rewrite(loaded.write_back, content, serialized) {
            changes.push(FileChange::Write(path.to_string(), serialized.to_string()));
        }
        changes.push(loaded.cleanup.clone());
    }
    assert(change_models(changes@) =~= changes_of(
        path@,
        load_model(*outcome),
        content@,
        default_text@,
        serialized@,
    ));
    changes
}

/// Loading settles after one time: a configuration that was loaded and
/// written as `text` is loaded unchanged from then on, and its file is left
/// alone.
pub proof fn law_loading_settles(config: ConfigModel, defaults: ConfigModel, text: Seq<char>)
    ensures
        updated(updated(config, defaults), defaults) == updated(config, defaults),
        !rewrites(WriteBack::WhereDifferent, text, text),
{
    law_update_settles(config, defaults);
}

/// Whatever was loaded, the network file of an earlier version goes last,
/// once, and all that is written before that is the configuration.
pub proof fn law_network_file_goes_last(
    os: Os,
    path: Seq<char>,
    stored: StoredConfig,
    defaults: ConfigModel,
    content: Seq<char>,
    default_text: Seq<char>,
    serialized: Seq<char>,
)
    requires
        loaded(os, path, stored, defaults) is Ok,
    ensures
        ({
            let outcome = loaded(os, path, stored, defaults);
            let changes = changes_of(path, outcome, content, default_text, serialized);
            &&& changes.last() == network_file_removal(os, path)
            &&& forall|i: int|
                0 <= i < changes.len() - 1 ==> (#[trigger] changes[i] matches FileChangeModel::Write(
                    file,
                    _,
                ) && file == path)
        }),
{
}

/// A file that is neither a configuration nor the main file of an earlier
/// version is an error, and so is a network file that cannot be read or lacks
/// something. No file is changed then.
pub proof fn law_what_cannot_be_loaded_stays(
    os: Os,
    path: Seq<char>,
    stored: StoredConfig,
    defaults: ConfigModel,
    content: Seq<char>,
    default_text: Seq<char>,
    serialized: Seq<char>,
)
    requires
        match stored {
            StoredConfig::Unreadable(_) => true,
            StoredConfig::UnreadableNetwork(_) => true,
            StoredConfig::Legacy(_, Some(network)) => profile_error(network) is Some,
            _ => false,
        },
    ensures
        loaded(os, path, stored, defaults) is Err,
        changes_of(
            path,
            loaded(os, path, stored, defaults),
            content,
            default_text,
            serialized,
        ).len() == 0,
{
}

/// Merging adds, behind the values that are there, the defaults that are not
/// among them, in their order, and nothing else.
pub proof fn law_merging_adds_what_is_missing(values: Seq<Seq<char>>, defaults: Seq<Seq<char>>)
    requires
        defaults.no_duplicates(),
    ensures
        merged(values, defaults) == values + defaults.filter(
            |d: Seq<char>| !values.contains(d),
        ),
    decreases defaults.len(),
{
    reveal(Seq::filter);
    let missing = |d: Seq<char>| !values.contains(d);
    if defaults.len() > 0 {
        let front = defaults.drop_last();
        let last = defaults.last();
        law_merging_adds_what_is_missing(values, front);
        let before = merged(values, front);
        lemma_merged_keeps(values, front);
        if values.contains(last) {
            let k = choose|k: int| 0 <= k < values.len() && values[k] == last;
            assert(before.subrange(0, values.len() as int)[k] == before[k]);
            assert(before[k] == last);
        } else if before.contains(last) {
            assert(front.contains(last));
            let k = choose|k: int| 0 <= k < front.len() && front[k] == last;
            assert(defaults[k] == defaults[defaults.len() - 1]);
        } else {
            assert(before.push(last) =~= values + front.filter(missing).push(last));
        }
    } else {
        assert(values + defaults.filter(missing) =~= values);
    }
}

/// Whether a list is that of the user with defaults behind it: it starts with
/// all that the user put into it, holds every default, and nothing else.
pub open spec fn completes(
    list: Seq<Seq<char>>,
    own: Seq<Seq<char>>,
    defaults: Seq<Seq<char>>,
) -> bool {
    &&& own.is_prefix_of(list)
    &&& forall|x: Seq<char>| #[trigger]
        list.contains(x) <==> own.contains(x) || defaults.contains(x)
}

proof fn lemma_merged_completes(own: Seq<Seq<char>>, defaults: Seq<Seq<char>>)
    ensures
        completes(merged(own, defaults), own, defaults),
{
    let list = merged(own, defaults);
    lemma_merged_keeps(own, defaults);
    assert forall|x: Seq<char>| #[trigger] list.contains(x) <==> own.contains(x)
        || defaults.contains(x) by {
        if own.contains(x) {
            let k = choose|k: int| 0 <= k < own.len() && own[k] == x;
            assert(list.subrange(0, own.len() as int)[k] == list[k]);
            assert(list[k] == x);
        }
        if defaults.contains(x) {
            let k = choose|k: int| 0 <= k < defaults.len() && defaults[k] == x;
            assert(list.contains(defaults[k]));
        }
    }
}

/// Whether a configuration holds the settings of the user: every port and name
/// as configured, the addresses too unless they are the one that earlier
/// versions listened on, and the lists with defaults behind what the user put
/// into them.
pub open spec fn holds_settings(
    new: ConfigModel,
    own: ConfigModel,
    defaults: ConfigModel,
) -> bool {
    &&& new.http_port == own.http_port
    &&& new.https_port == own.https_port
    &&& new.upstream == own.upstream
    &&& new.fake_sni == own.fake_sni
    &&& new.dns_hosts == own.dns_hosts
    &&& new.ca_common_name == own.ca_common_name
    &&& new.server_common_name == own.server_common_name
    &&& own.listen_host != "127.0.0.1"@ ==> new.listen_host == own.listen_host
    &&& own.listen_host == "127.0.0.1"@ ==> new.listen_host == "127.211.73.84"@
    &&& own.hosts_ip != "127.0.0.1"@ ==> new.hosts_ip == own.hosts_ip
    &&& own.hosts_ip == "127.0.0.1"@ ==> new.hosts_ip == "127.211.73.84"@
    &&& completes(new.doh_endpoints, own.doh_endpoints, defaults.doh_endpoints)
    &&& completes(new.proxy_domains, own.proxy_domains, defaults.proxy_domains)
    &&& completes(new.hosts_domains, own.hosts_domains, defaults.hosts_domains)
    &&& completes(new.certificate_domains, own.certificate_domains, defaults.certificate_domains)
}

/// Bringing a configuration up to date leaves the ports, the upstream, the
/// front domain, the overrides and the names as the user configured them, and
/// the two addresses unless they are 127.0.0.1. Lists lose nothing and gain
/// nothing but defaults.
pub proof fn law_update_holds_the_settings(config: ConfigModel, defaults: ConfigModel)
    ensures
        holds_settings(updated(config, defaults), config, defaults),
{
    lemma_merged_completes(config.doh_endpoints, defaults.doh_endpoints);
    lemma_merged_completes(config.proxy_domains, defaults.proxy_domains);
    lemma_merged_completes(config.hosts_domains, defaults.hosts_domains);
    lemma_merged_completes(config.certificate_domains, defaults.certificate_domains);
}

/// A configuration that is loaded holds the settings that were stored, and is
/// written where that changed it or the file says something else.
pub proof fn law_loading_holds_the_settings(
    os: Os,
    path: Seq<char>,
    config: AppConfig,
    defaults: ConfigModel,
)
    ensures
        loaded(os, path, StoredConfig::Current(config), defaults) matches Ok(l) && {
            &&& holds_settings(l.config, config@, defaults)
            &&& l.config != config@ ==> l.write_back == WriteBack::Always
            &&& l.config == config@ ==> l.write_back == WriteBack::WhereDifferent
        },
{
    law_update_holds_the_settings(config@, defaults);
}

/// Where nothing is stored, the defaults are loaded as they are, and written.
pub proof fn law_loading_defaults(os: Os, path: Seq<char>, defaults: ConfigModel)
    ensures
        loaded(os, path, StoredConfig::Missing, defaults) matches Ok(l) && l.config == defaults
            && l.write_back == WriteBack::Defaults,
{
}

/// The two files of an earlier version are loaded with every setting in them,
/// without overrides and without domains of its own for the hosts file, and
/// the one file that takes their place is written. They are refused where a
/// list in the network file is empty.
pub proof fn law_loading_earlier_files(
    os: Os,
    path: Seq<char>,
    main: LegacyMainConfig,
    network: Option<LegacyNetworkProfile>,
    own: ConfigModel,
    defaults: ConfigModel,
)
    requires
        own.listen_host == main.listen_host@,
        own.hosts_ip == main.hosts_ip@,
        own.http_port == main.http_port,
        own.https_port == main.https_port,
        own.upstream == main.upstream@,
        own.fake_sni == opt_text(main.fake_sni),
        own.ca_common_name == main.ca_common_name@,
        own.server_common_name == main.server_common_name@,
        own.dns_hosts.len() == 0,
        own.hosts_domains.len() == 0,
        match network {
            Some(n) => own.doh_endpoints == texts(n.doh_endpoints@) && own.proxy_domains == texts(
                n.proxy_domains@,
            ) && own.certificate_domains == texts(n.certificate_domains@),
            None => own.doh_endpoints.len() == 0 && own.proxy_domains.len() == 0
                && own.certificate_domains.len() == 0,
        },
    ensures
        network is None || (own.doh_endpoints.len() > 0 && own.proxy_domains.len() > 0
            && own.certificate_domains.len() > 0) <==> loaded(
            os,
            path,
            StoredConfig::Legacy(main, network),
            defaults,
        ) is Ok,
        loaded(os, path, StoredConfig::Legacy(main, network), defaults) matches Ok(l)
            ==> holds_settings(l.config, own, defaults) && l.write_back == WriteBack::Always,
{
    let found = from_legacy(main, network);
    assert(own.doh_endpoints =~= found.doh_endpoints);
    assert(own.proxy_domains =~= found.proxy_domains);
    assert(own.certificate_domains =~= found.certificate_domains);
    assert(own.hosts_domains =~= found.hosts_domains);
    assert(own.dns_hosts =~= found.dns_hosts);
    law_update_holds_the_settings(found, defaults);
}

/// What loading changes on disk: the file gets the text of the defaults where
/// it was missing, the new text where it has to be written, and is left alone
/// otherwise; then the network file of an earlier version goes.
pub proof fn law_changes_on_disk(
    path: Seq<char>,
    l: LoadedModel,
    content: Seq<char>,
    default_text: Seq<char>,
    serialized: Seq<char>,
)
    ensures
        ({
            let changes = changes_of(path, Ok(l), content, default_text, serialized);
            &&& l.write_back == WriteBack::Defaults ==> changes == seq![
                FileChangeModel::Write(path, default_text),
                l.cleanup,
            ]
            &&& l.write_back == WriteBack::Always ==> changes == seq![
                FileChangeModel::Write(path, serialized),
                l.cleanup,
            ]
            &&& l.write_back == WriteBack::WhereDifferent && content == serialized ==> changes
                == seq![l.cleanup]
            &&& l.write_back == WriteBack::WhereDifferent && normalized(content) != normalized(
                serialized,
            ) ==> changes == seq![FileChangeModel::Write(path, serialized), l.cleanup]
        }),
{
}

/// The lines of a text, each without the white space at its end.
pub open spec fn ended_lines(content: Seq<char>) -> Seq<Seq<char>> {
    Seq::new(lines(content).len(), |i: int| trimmed_end(lines(content)[i]))
}

proof fn lemma_trimmed_end(s: Seq<char>)
    ensures
        trimmed_end(s).is_prefix_of(s),
        trimmed_end(s).len() > 0 ==> !is_white_space(trimmed_end(s).last()),
    decreases s.len(),
{
    if s.len() > 0 && is_white_space(s.last()) {
        lemma_trimmed_end(s.drop_last());
        let t = trimmed_end(s);
        assert(t =~= s.subrange(0, t.len() as int));
    } else {
        assert(s =~= s.subrange(0, s.len() as int));
    }
}

proof fn lemma_normalized_lines(content: Seq<char>)
    ensures
        normalized(content) == joined(ended_lines(content), line_end(false)),
        lines(normalized(content)) == without_last_empty(ended_lines(content)),
{
    let ls = ended_lines(content);
    reveal_strlit("\n");
    assert("\n"@ =~= line_end(false));
    assert(ls =~= lines(content).map_values(|l: Seq<char>| trimmed_end(l)));
    lemma_lines_unbroken(content);
    assert forall|i: int| 0 <= i < ls.len() implies !(#[trigger] ls[i]).contains('\n')
        && !ends_with_return(ls[i]) by {
        let line = lines(content)[i];
        lemma_trimmed_end(line);
        if ls[i].contains('\n') {
            let k = choose|k: int| 0 <= k < ls[i].len() && ls[i][k] == '\n';
            assert(line.subrange(0, ls[i].len() as int)[k] == line[k]);
            assert(line.contains('\n'));
        }
        assert(is_white_space('\r'));
    }
    lemma_lines_joined(ls, false);
}

/// A file says something else than a text exactly where their lines differ,
/// but for white space at the end of lines, for how lines are ended, and for
/// an empty line at the end.
pub proof fn law_where_texts_differ(content: Seq<char>, serialized: Seq<char>)
    ensures
        ended_lines(content) == ended_lines(serialized) ==> !rewrites(
            WriteBack::WhereDifferent,
            content,
            serialized,
        ),
        without_last_empty(ended_lines(content)) != without_last_empty(ended_lines(serialized))
            ==> rewrites(WriteBack::WhereDifferent, content, serialized),
        rewrites(WriteBack::Always, content, serialized),
{
    lemma_normalized_lines(content);
    lemma_normalized_lines(serialized);
}

/// Replacing the old loopback address touches the two addresses alone, and
/// those only where they are 127.0.0.1.
pub proof fn law_old_loopback_is_replaced(config: ConfigModel)
    ensures
        ({
            let new = migrated(config);
            &&& new == (ConfigModel {
                listen_host: new.listen_host,
                hosts_ip: new.hosts_ip,
                ..config
            })
            &&& config.listen_host != "127.0.0.1"@ ==> new.listen_host == config.listen_host
            &&& config.listen_host == "127.0.0.1"@ ==> new.listen_host == "127.211.73.84"@
            &&& config.hosts_ip != "127.0.0.1"@ ==> new.hosts_ip == config.hosts_ip
            &&& config.hosts_ip == "127.0.0.1"@ ==> new.hosts_ip == "127.211.73.84"@
        }),
{
}

/// A network file is refused for the first of its three lists that is empty:
/// the endpoints, then the domains that are taken over, then those of the
/// certificate.
pub proof fn law_incomplete_network_file(profile: LegacyNetworkProfile)
    ensures
        ({
            let doh = profile.doh_endpoints@.len();
            let proxy = profile.proxy_domains@.len();
            let certificate = profile.certificate_domains@.len();
            let error = profile_error(profile);
            &&& doh == 0 ==> error == Some(LegacyProfileError::MissingDohEndpoints)
            &&& doh > 0 && proxy == 0 ==> error == Some(LegacyProfileError::MissingProxyDomains)
            &&& doh > 0 && proxy > 0 && certificate == 0 ==> error == Some(
                LegacyProfileError::MissingCertificateDomains,
            )
            &&& doh > 0 && proxy > 0 && certificate > 0 ==> error is None
        }),
{
}

/// What cannot be loaded is refused with the reason, and the path of the file
/// that it is wrong with.
pub proof fn law_reasons_for_refusal(
    os: Os,
    path: Seq<char>,
    why: String,
    main: LegacyMainConfig,
    network: LegacyNetworkProfile,
    defaults: ConfigModel,
)
    ensures
        loaded(os, path, StoredConfig::Unreadable(why), defaults) == Err::<LoadedModel, LoadFault>(
            LoadFault::Config(path, why@),
        ),
        loaded(os, path, StoredConfig::UnreadableNetwork(why), defaults) == Err::<
            LoadedModel,
            LoadFault,
        >(LoadFault::Network(in_dir(os, parent(os, path), "linuxdo-network.toml"@), why@)),
        profile_error(network) matches Some(e) ==> loaded(
            os,
            path,
            StoredConfig::Legacy(main, Some(network)),
            defaults,
        ) == Err::<LoadedModel, LoadFault>(LoadFault::Incomplete(e)),
{
}

/// Whatever is loaded, the network file beside the configuration goes.
pub proof fn law_network_file_goes(
    os: Os,
    path: Seq<char>,
    stored: StoredConfig,
    defaults: ConfigModel,
)
    ensures
        loaded(os, path, stored, defaults) matches Ok(l) ==> l.cleanup == FileChangeModel::Remove(
            in_dir(os, parent(os, path), "linuxdo-network.toml"@),
        ),
        network_file_removal(os, path) == FileChangeModel::Remove(
            in_dir(os, parent(os, path), "linuxdo-network.toml"@),
        ),
{
}

/// The errors of loading in words, and what caused them.
pub proof fn law_load_errors_in_words(path: Seq<char>, why: Seq<char>, e: LegacyProfileError)
    ensures
        LoadFault::Config(path, why).words() == "failed to parse config "@ + path,
        LoadFault::Network(path, why).words() == "failed to parse "@ + path,
        LoadFault::Config(path, why).reason() == Some(why),
        LoadFault::Network(path, why).reason() == Some(why),
        LoadFault::Incomplete(e).reason() is None,
        LoadFault::Incomplete(LegacyProfileError::MissingDohEndpoints).words()
            == "legacy network profile is missing doh_endpoints"@,
        LoadFault::Incomplete(LegacyProfileError::MissingProxyDomains).words()
            == "legacy network profile is missing proxy_domains"@,
        LoadFault::Incomplete(LegacyProfileError::MissingCertificateDomains).words()
            == "legacy network profile is missing certificate_domains"@,
{
}

} // verus!
