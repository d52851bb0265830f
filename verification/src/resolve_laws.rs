//! What holds of every resolution: what is asked, and what the answers amount
//! to.
use crate::config::{dns_override, ConfigModel};
use crate::doh::{
    is_chosen, law_no_readable_record, law_smallest_priority_is_chosen, reads_as, IpAddress,
};
use crate::https_record::BindingModel;
use crate::outside::ech_accepted;
use crate::resolve::{
    assembled, distinct, law_assembled_addresses, next_step, KnownModel, ResolveFault, StepModel,
};
use crate::resolve_cache::{SocketAddress, UpstreamModel};
use crate::space::{
    blank, law_trim_leaves_nothing_of_white_space, law_trim_takes_white_space_off, solid,
};
use crate::text::{after_prefix, lowercase};
use vstd::prelude::*;

verus! {

/// What is asked of a host that neither is an address nor stands in the cache
/// comes first of all: whether it is an address, then the cache for its name
/// in lower case, and what the cache holds is the answer.
pub proof fn law_first_questions(
    config: ConfigModel,
    host: Seq<char>,
    port: u16,
    known: KnownModel,
)
    ensures
        known.literal is None ==> next_step(config, host, port, known) == StepModel::ReadLiteral(
            host,
        ),
        known.literal == Some(None::<IpAddress>) && known.cached is None ==> next_step(
            config,
            host,
            port,
            known,
        ) == StepModel::ReadCache(lowercase(host), port),
        known.literal == Some(None::<IpAddress>) ==> (known.cached matches Some(Some(upstream))
            ==> next_step(config, host, port, known) == StepModel::Return(upstream, None)),
        known.literal matches Some(Some(ip)) ==> (next_step(config, host, port, known) matches
            StepModel::Return(upstream, key) && key is None && upstream.ech_config_list is None
            && upstream.addrs == seq![SocketAddress { ip, port }]),
{
}

/// Whether a host has to be looked up by its own name: it is no address, the
/// cache holds nothing for it, and no override applies to it.
pub open spec fn plain_lookup(config: ConfigModel, host: Seq<char>, known: KnownModel) -> bool {
    &&& known.literal == Some(None::<IpAddress>)
    &&& known.cached == Some(None::<UpstreamModel>)
    &&& dns_override(config.dns_hosts, host) is None
}

/// A host that has to be looked up is asked for by its own name.
pub proof fn law_binding_of_the_host_is_asked(
    config: ConfigModel,
    host: Seq<char>,
    port: u16,
    known: KnownModel,
)
    requires
        plain_lookup(config, host, known),
    ensures
        known.https_answers is None ==> next_step(config, host, port, known)
            == StepModel::QueryBinding(host),
        known.https_answers matches Some(Err(e)) ==> next_step(config, host, port, known)
            == StepModel::Fail(ResolveFault::Failed(e)),
{
}

/// Whether `target` is whom the addresses are asked of: the target that the
/// binding names, or the host itself where it names none.
pub open spec fn is_target(binding: BindingModel, host: Seq<char>, target: Seq<char>) -> bool {
    match binding.target_name {
        Some(name) => target == if name.len() > 0 {
            name
        } else {
            host
        },
        None => target == host,
    }
}

/// The addresses are asked of the target that the chosen HTTPS record names,
/// and of the host where it names none; beside that, of the public name of its
/// ECH configuration, where there is one and it is another name.
pub proof fn law_addresses_of_the_target_are_asked(
    config: ConfigModel,
    host: Seq<char>,
    port: u16,
    known: KnownModel,
    answers: Seq<(u16, Seq<char>)>,
    i: int,
    binding: BindingModel,
    target: Seq<char>,
)
    requires
        plain_lookup(config, host, known),
        known.https_answers == Some(Ok::<Seq<(u16, Seq<char>)>, Seq<char>>(answers)),
        is_chosen(answers, i, binding),
        is_target(binding, host, target),
        known.addresses is None,
    ensures
        next_step(config, host, port, known) matches StepModel::QueryAddresses(asked, other) && {
            &&& asked == target
            &&& other == match binding.ech_public_name {
                Some(name) => if name != target {
                    Some(name)
                } else {
                    None
                },
                None => None,
            }
        },
{
    law_smallest_priority_is_chosen(answers, i, binding);
}

/// Where no HTTPS record can be read, the addresses of the host itself are
/// asked, and of no other.
pub proof fn law_addresses_of_the_host_are_asked(
    config: ConfigModel,
    host: Seq<char>,
    port: u16,
    known: KnownModel,
    answers: Seq<(u16, Seq<char>)>,
)
    requires
        plain_lookup(config, host, known),
        known.https_answers == Some(Ok::<Seq<(u16, Seq<char>)>, Seq<char>>(answers)),
        forall|j: int, c: BindingModel| !reads_as(answers, j, c),
        known.addresses is None,
    ensures
        next_step(config, host, port, known) == StepModel::QueryAddresses(host, None),
{
    law_no_readable_record(answers);
}

/// Whether a list of addresses with a port is the addresses `ips`, each where
/// it first occurs.
pub open spec fn are_addresses_of(addrs: Seq<SocketAddress>, ips: Seq<IpAddress>, port: u16) -> bool {
    &&& addrs.no_duplicates()
    &&& forall|ip: IpAddress| #[trigger]
        ips.contains(ip) <==> addrs.contains(SocketAddress { ip, port })
    &&& forall|i: int| 0 <= i < addrs.len() ==> (#[trigger] addrs[i]).port == port
    &&& forall|i: int, j: int|
        0 <= i < j < addrs.len() ==> occurs_before(ips, (#[trigger] addrs[i]).ip, (
        #[trigger] addrs[j]).ip)
}

/// Whether `a` stands somewhere before every `b`.
pub open spec fn occurs_before(ips: Seq<IpAddress>, a: IpAddress, b: IpAddress) -> bool {
    exists|x: int|
        0 <= x < ips.len() && #[trigger] ips[x] == a && !ips.take(x).contains(b)
}

proof fn lemma_distinct_in_order(ips: Seq<IpAddress>, i: int, j: int)
    requires
        0 <= i < j < distinct(ips).len(),
    ensures
        occurs_before(ips, distinct(ips)[i], distinct(ips)[j]),
    decreases ips.len(),
{
    let front = ips.drop_last();
    let before = distinct(front);
    let a = distinct(ips)[i];
    let b = distinct(ips)[j];
    if j < before.len() {
        lemma_distinct_in_order(front, i, j);
        assert(before[i] == a && before[j] == b);
        let x = choose|x: int|
            0 <= x < front.len() && #[trigger] front[x] == a && !front.take(x).contains(b);
        assert(ips[x] == a);
        assert(ips.take(x) =~= front.take(x));
    } else {
        assert(b == ips.last() && !before.contains(b));
        lemma_distinct_holds_all(front);
        assert(before[i] == a);
        assert(before.contains(a));
        assert(front.contains(a));
        let x = choose|x: int| 0 <= x < front.len() && front[x] == a;
        assert(ips[x] == a);
        if ips.take(x).contains(b) {
            let y = choose|y: int| 0 <= y < ips.take(x).len() && ips.take(x)[y] == b;
            assert(front[y] == b);
            assert(front.contains(b));
        }
    }
}

proof fn lemma_distinct_holds_all(ips: Seq<IpAddress>)
    ensures
        forall|ip: IpAddress| #[trigger] distinct(ips).contains(ip) <==> ips.contains(ip),
{
    let host = Seq::<char>::empty();
    law_assembled_addresses(host, ips, None, false, 0);
    assert forall|ip: IpAddress| #[trigger] distinct(ips).contains(ip) <==> ips.contains(ip) by {
        if ips.len() > 0 {
            let addrs = assembled(host, ips, None, false, 0)->Ok_0.addrs;
            if distinct(ips).contains(ip) {
                let k = choose|k: int| 0 <= k < distinct(ips).len() && distinct(ips)[k] == ip;
                assert(addrs[k] == (SocketAddress { ip, port: 0 }));
            }
            if ips.contains(ip) {
                assert(addrs.contains(SocketAddress { ip, port: 0 }));
                let k = choose|k: int|
                    0 <= k < addrs.len() && addrs[k] == (SocketAddress { ip, port: 0 });
                assert(distinct(ips)[k] == ip);
            }
        }
    }
}

/// What a resolution ends with once the addresses are known: those of the
/// target, and after them those of the public name where that was asked for,
/// each once, where it first occurs, with the port that was asked for. They
/// come with the ECH configuration list of the chosen record where it can be
/// used, and are put into the cache under the name of the host in lower case.
/// Without an address the target is what had none.
pub proof fn law_addresses_amount_to(
    config: ConfigModel,
    host: Seq<char>,
    port: u16,
    known: KnownModel,
    answers: Seq<(u16, Seq<char>)>,
    i: int,
    binding: BindingModel,
    target: Seq<char>,
    ips: Seq<IpAddress>,
    extra: Seq<IpAddress>,
    all: Seq<IpAddress>,
)
    requires
        plain_lookup(config, host, known),
        known.https_answers == Some(Ok::<Seq<(u16, Seq<char>)>, Seq<char>>(answers)),
        is_chosen(answers, i, binding),
        is_target(binding, host, target),
        known.addresses == Some(Ok::<(Seq<IpAddress>, Seq<IpAddress>), Seq<char>>((ips, extra))),
        all == if binding.ech_public_name is Some && binding.ech_public_name != Some(target) {
            ips + extra
        } else {
            ips
        },
    ensures
        all.len() == 0 ==> next_step(config, host, port, known) == StepModel::Fail(
            ResolveFault::NoAddresses(target),
        ),
        all.len() > 0 ==> (next_step(config, host, port, known) matches StepModel::Return(
            upstream,
            key,
        ) && {
            &&& key == Some(lowercase(host))
            &&& are_addresses_of(upstream.addrs, all, port)
            &&& upstream.addrs[0].ip == all[0]
            &&& upstream.ech_config_list == match binding.ech_config_list {
                Some(list) => if ech_accepted(list) {
                    Some(list)
                } else {
                    None
                },
                None => None,
            }
        }),
{
    law_smallest_priority_is_chosen(answers, i, binding);
    let usable = binding.ech_config_list matches Some(list) && ech_accepted(list);
    law_assembled_addresses(target, all, binding.ech_config_list, usable, port);
    if all.len() > 0 {
        let addrs = assembled(
            target,
            all,
            binding.ech_config_list,
            usable,
            port,
        )->Ok_0.addrs;
        assert forall|a: int, b: int| 0 <= a < b < addrs.len() implies occurs_before(
            all,
            (#[trigger] addrs[a]).ip,
            (#[trigger] addrs[b]).ip,
        ) by {
            lemma_distinct_in_order(all, a, b);
        }
        lemma_first_comes_first(addrs, all, port);
    }
}

proof fn lemma_first_comes_first(addrs: Seq<SocketAddress>, ips: Seq<IpAddress>, port: u16)
    requires
        ips.len() > 0,
        are_addresses_of(addrs, ips, port),
    ensures
        addrs.len() > 0,
        addrs[0].ip == ips[0],
{
    assert(ips.contains(ips[0]));
    let first = SocketAddress { ip: ips[0], port };
    let k = choose|k: int| 0 <= k < addrs.len() && addrs[k] == first;
    if k > 0 {
        assert(occurs_before(ips, addrs[0].ip, addrs[k].ip));
        let x = choose|x: int|
            0 <= x < ips.len() && #[trigger] ips[x] == addrs[0].ip && !ips.take(x).contains(
                addrs[k].ip,
            );
        if x > 0 {
            assert(ips.take(x)[0] == ips[0]);
        }
    }
}

/// A resolution fails with the error of a query that failed.
pub proof fn law_failed_address_query(
    config: ConfigModel,
    host: Seq<char>,
    port: u16,
    known: KnownModel,
    answers: Seq<(u16, Seq<char>)>,
    error: Seq<char>,
)
    requires
        plain_lookup(config, host, known),
        known.https_answers == Some(Ok::<Seq<(u16, Seq<char>)>, Seq<char>>(answers)),
        known.addresses == Some(Err::<(Seq<IpAddress>, Seq<IpAddress>), Seq<char>>(error)),
    ensures
        next_step(config, host, port, known) == StepModel::Fail(ResolveFault::Failed(error)),
{
}

// ---------------------------------------------------------------------------
// Overrides
// ---------------------------------------------------------------------------

/// A configuration without overrides.
pub open spec fn without_overrides(config: ConfigModel) -> ConfigModel {
    ConfigModel { dns_hosts: Seq::empty(), ..config }
}

/// Whether one step is the other, but for the name under which a result is put
/// into the cache.
pub open spec fn same_but_for_key(a: StepModel, b: StepModel, key: Seq<char>) -> bool {
    match b {
        StepModel::Return(upstream, Some(_)) => a == StepModel::Return(upstream, Some(key)),
        _ => a == b,
    }
}

/// Whether a host has to be looked up and `raw` overrides it.
pub open spec fn overridden(
    config: ConfigModel,
    host: Seq<char>,
    known: KnownModel,
    raw: Seq<char>,
) -> bool {
    &&& known.literal == Some(None::<IpAddress>)
    &&& known.cached == Some(None::<UpstreamModel>)
    &&& dns_override(config.dns_hosts, host) == Some(raw)
}

/// An override that names a domain after `domain:` has that domain looked up
/// in the place of the host, as if it had been asked for without overrides;
/// the result is put into the cache for the host.
pub proof fn law_domain_override_is_looked_up(
    config: ConfigModel,
    host: Seq<char>,
    port: u16,
    known: KnownModel,
    left: Seq<char>,
    gap: Seq<char>,
    alias: Seq<char>,
    right: Seq<char>,
)
    requires
        blank(left),
        blank(gap),
        blank(right),
        solid(alias),
        overridden(config, host, known, left + ("domain:"@ + gap + alias) + right),
    ensures
        same_but_for_key(
            next_step(config, host, port, known),
            next_step(without_overrides(config), alias, port, known),
            lowercase(host),
        ),
{
    reveal_strlit("domain:");
    let value = "domain:"@ + gap + alias;
    assert(value[0] == 'd');
    assert(value.last() == alias.last());
    law_trim_takes_white_space_off(left, value, right);
    assert("domain:"@ =~= value.subrange(0, 7));
    assert(value.skip(7) =~= gap + alias + Seq::<char>::empty());
    law_trim_takes_white_space_off(gap, alias, Seq::empty());
    assert(after_prefix(value, "domain:"@) == Some(value.skip(7)));
    assert(dns_override(Seq::empty(), alias) is None);
}

/// Any other override is first read as an address; where it is one, that
/// address is the answer, with the port that was asked for and without ECH;
/// where it is none, it is looked up in the place of the host.
pub proof fn law_other_override(
    config: ConfigModel,
    host: Seq<char>,
    port: u16,
    known: KnownModel,
    left: Seq<char>,
    value: Seq<char>,
    right: Seq<char>,
)
    requires
        blank(left),
        blank(right),
        solid(value),
        !"domain:"@.is_prefix_of(value),
        overridden(config, host, known, left + value + right),
    ensures
        known.override_address is None ==> next_step(config, host, port, known)
            == StepModel::ReadOverride(value),
        known.override_address matches Some(Some(ip)) ==> (next_step(config, host, port, known)
            matches StepModel::Return(upstream, key) && key == Some(lowercase(host))
            && upstream.ech_config_list is None && upstream.addrs == seq![
            SocketAddress { ip, port },
        ]),
        known.override_address == Some(None::<IpAddress>) ==> same_but_for_key(
            next_step(config, host, port, known),
            next_step(without_overrides(config), value, port, known),
            lowercase(host),
        ),
{
    law_trim_takes_white_space_off(left, value, right);
    assert(dns_override(Seq::empty(), value) is None);
    if let Some(Some(ip)) = known.override_address {
        assert(seq![ip].map_values(|ip: IpAddress| SocketAddress { ip, port }) =~= seq![
            SocketAddress { ip, port },
        ]);
    }
}

/// An override that is blank, or says `domain:` and no more, is an error of
/// its own.
pub proof fn law_empty_override(
    config: ConfigModel,
    host: Seq<char>,
    port: u16,
    known: KnownModel,
    left: Seq<char>,
    right: Seq<char>,
)
    requires
        blank(left),
        blank(right),
    ensures
        overridden(config, host, known, left) ==> next_step(config, host, port, known)
            == StepModel::Fail(ResolveFault::EmptyOverride),
        overridden(config, host, known, left + "domain:"@ + right) ==> next_step(
            config,
            host,
            port,
            known,
        ) == StepModel::Fail(ResolveFault::EmptyDomainOverride),
{
    reveal_strlit("domain:");
    let none = Seq::<char>::empty();
    law_trim_leaves_nothing_of_white_space(left);
    law_trim_takes_white_space_off(left, "domain:"@, right);
    assert("domain:"@ =~= "domain:"@.subrange(0, 7));
    assert("domain:"@.skip(7) =~= none);
    law_trim_leaves_nothing_of_white_space(none);
    assert(after_prefix("domain:"@, "domain:"@) == Some(none));
}

/// What a resolution ends with where no HTTPS record can be read: the
/// addresses of the host, without ECH.
pub proof fn law_addresses_without_a_record(
    config: ConfigModel,
    host: Seq<char>,
    port: u16,
    known: KnownModel,
    answers: Seq<(u16, Seq<char>)>,
    ips: Seq<IpAddress>,
    extra: Seq<IpAddress>,
)
    requires
        plain_lookup(config, host, known),
        known.https_answers == Some(Ok::<Seq<(u16, Seq<char>)>, Seq<char>>(answers)),
        forall|j: int, c: BindingModel| !reads_as(answers, j, c),
        known.addresses == Some(Ok::<(Seq<IpAddress>, Seq<IpAddress>), Seq<char>>((ips, extra))),
    ensures
        ips.len() == 0 ==> next_step(config, host, port, known) == StepModel::Fail(
            ResolveFault::NoAddresses(host),
        ),
        ips.len() > 0 ==> (next_step(config, host, port, known) matches StepModel::Return(
            upstream,
            key,
        ) && key == Some(lowercase(host)) && are_addresses_of(upstream.addrs, ips, port)
            && upstream.ech_config_list is None),
{
    law_no_readable_record(answers);
    law_assembled_addresses(host, ips, None, false, port);
    if ips.len() > 0 {
        let addrs = assembled(host, ips, None, false, port)->Ok_0.addrs;
        assert forall|a: int, b: int| 0 <= a < b < addrs.len() implies occurs_before(
            ips,
            (#[trigger] addrs[a]).ip,
            (#[trigger] addrs[b]).ip,
        ) by {
            lemma_distinct_in_order(ips, a, b);
        }
    }
}

} // verus!
