//! Sending a request to an upstream: which attempts are made, in which order,
//! and which replies count.
use crate::config::{AppConfig, ConfigModel};
use crate::migrate::{
    law_merging_adds_what_is_missing, law_merging_repeats_nothing, lemma_merged_keeps,
    merge_missing_values, merged,
};
use crate::outside::{
    front_refusal_text, is_front_refusal, server_name_accepted, status_text, valid_server_name,
};
use crate::resolve_cache::{ResolvedUpstream, SocketAddress, UpstreamModel};
use crate::space::{
    blank, law_trim_leaves_nothing_of_white_space, law_trim_takes_white_space_off, solid, trim,
    trimmed,
};
use crate::text::{followed_by, lowercase, opt_text, same_text, texts, to_ascii_lowercase};
use vstd::prelude::*;

verus! {

// ---------------------------------------------------------------------------
// Front domains
// ---------------------------------------------------------------------------

/// The front domains that are tried after the configured one.
pub open spec fn default_fronts() -> Seq<Seq<char>> {
    seq![
        "www.cloudflare.com"@,
        "cdnjs.cloudflare.com"@,
        "developers.cloudflare.com"@,
        "dash.cloudflare.com"@,
        "one.one.one.one"@,
    ]
}

/// The configured front domain, where there is one.
pub open spec fn own_front(config: ConfigModel) -> Seq<Seq<char>> {
    match config.fake_sni {
        Some(name) => if trimmed(name).len() == 0 {
            Seq::empty()
        } else {
            seq![trimmed(name)]
        },
        None => Seq::empty(),
    }
}

/// The front domains in the order in which they are tried: the configured one
/// first, and none twice.
pub open spec fn fronts(config: ConfigModel) -> Seq<Seq<char>> {
    merged(own_front(config), default_fronts())
}

/// Lists the front domains in the order in which they are tried.
pub fn effective_fake_sni_candidates(config: &AppConfig) -> (r: Vec<String>)
    ensures
        texts(r@) == fronts(config@),
{
    let mut candidates: Vec<String> = Vec::new();
    if let Some(name) = &config.fake_sni {
        let name = trim(name.as_str());
        if !name.as_str().is_empty() {
            candidates.push(name);
        }
    }
    assert(texts(candidates@) =~= own_front(config@));
    let defaults = vec![
        "www.cloudflare.com".to_string(),
        "cdnjs.cloudflare.com".to_string(),
        "developers.cloudflare.com".to_string(),
        "dash.cloudflare.com".to_string(),
        "one.one.one.one".to_string(),
    ];
    assert(texts(defaults@) =~= default_fronts());
    merge_missing_values(&mut candidates, defaults);
    candidates
}

/// The configured front domain is tried before all others.
pub proof fn law_configured_front_first(config: ConfigModel)
    requires
        config.fake_sni is Some,
        trimmed(config.fake_sni->0).len() > 0,
    ensures
        fronts(config).len() > 0,
        fronts(config)[0] == trimmed(config.fake_sni->0),
{
    let own = own_front(config);
    lemma_merged_keeps(own, default_fronts());
    assert(own[0] == fronts(config).subrange(0, own.len() as int)[0]);
}

/// No front domain is tried twice.
pub proof fn law_fronts_are_distinct(config: ConfigModel)
    ensures
        fronts(config).no_duplicates(),
{
    law_merging_repeats_nothing(own_front(config), default_fronts());
}

/// There is always a front domain to try.
pub proof fn law_some_front(config: ConfigModel)
    ensures
        fronts(config).len() > 0,
{
    lemma_merged_keeps(own_front(config), default_fronts());
    assert(fronts(config).contains(default_fronts()[0]));
}

// ---------------------------------------------------------------------------
// Attempts
// ---------------------------------------------------------------------------

/// One attempt: the front domain that it names to the network, or none where
/// ECH hides the host, and the address that it goes to.
#[derive(Debug)]
pub struct Attempt {
    pub front: Option<String>,
    pub addr: SocketAddress,
}

/// One attempt, with its text as a sequence.
#[verifier::ext_equal]
pub struct AttemptModel {
    pub front: Option<Seq<char>>,
    pub addr: SocketAddress,
}

/// The attempts as mathematical values.
pub open spec fn attempt_models(attempts: Seq<Attempt>) -> Seq<AttemptModel> {
    attempts.map_values(|a: Attempt| AttemptModel { front: opt_text(a.front), addr: a.addr })
}

/// One attempt at each address, all with the same front.
pub open spec fn at_each(addrs: Seq<SocketAddress>, front: Option<Seq<char>>) -> Seq<
    AttemptModel,
> {
    addrs.map_values(|addr: SocketAddress| AttemptModel { front, addr })
}

/// For each front domain in turn, one attempt at each address.
pub open spec fn fronted(fronts: Seq<Seq<char>>, addrs: Seq<SocketAddress>) -> Seq<AttemptModel>
    decreases fronts.len(),
{
    if fronts.len() == 0 {
        Seq::empty()
    } else {
        fronted(fronts.drop_last(), addrs) + at_each(addrs, Some(fronts.last()))
    }
}

/// All attempts in order: with ECH first, where it can be used, then behind
/// the front domains.
pub open spec fn planned(upstream: UpstreamModel, fronts: Seq<Seq<char>>) -> Seq<AttemptModel> {
    (if upstream.ech_config_list is Some {
        at_each(upstream.addrs, None)
    } else {
        Seq::empty()
    }) + fronted(fronts, upstream.addrs)
}

fn push_attempts(plan: &mut Vec<Attempt>, addrs: &Vec<SocketAddress>, front: &Option<String>)
    ensures
        attempt_models(final(plan)@) == attempt_models(old(plan)@) + at_each(
            addrs@,
            opt_text(*front),
        ),
{
    let ghost before = attempt_models(plan@);
    assert(before + at_each(addrs@.take(0), opt_text(*front)) =~= before);
    for i in 0..addrs.len()
        invariant
            attempt_models(plan@) == before + at_each(addrs@.take(i as int), opt_text(*front)),
    {
        let ghost previous = attempt_models(plan@);
        let own: Option<String> = match front {
            Some(name) => Some(name.clone()),
            None => None,
        };
        let ghost model = AttemptModel { front: opt_text(*front), addr: addrs@[i as int] };
        plan.push(Attempt { front: own, addr: addrs[i] });
        assert(attempt_models(plan@) =~= previous.push(model));
        assert(attempt_models(plan@) =~= before + at_each(addrs@.take(i + 1), opt_text(*front)));
    }
    assert(addrs@.take(addrs@.len() as int) =~= addrs@);
}

/// Lists the attempts in the order in which they are made.
pub fn plan_attempts(upstream: &ResolvedUpstream, fronts: &Vec<String>) -> (r: Vec<Attempt>)
    ensures
        attempt_models(r@) == planned(upstream@, texts(fronts@)),
{
    let mut plan: Vec<Attempt> = Vec::new();
    let ghost none = Seq::<AttemptModel>::empty();
    assert(attempt_models(plan@) =~= none);
    if upstream.ech_config_list.is_some() {
        push_attempts(&mut plan, &upstream.addrs, &None);
    }
    let ghost first = attempt_models(plan@);
    let ghost names = texts(fronts@);
    assert(names.take(0) =~= Seq::<Seq<char>>::empty());
    assert(first =~= if upstream@.ech_config_list is Some {
        at_each(upstream@.addrs, None)
    } else {
        none
    });
    assert(first + none =~= first);
    for i in 0..fronts.len()
        invariant
            names == texts(fronts@),
            attempt_models(plan@) == first + fronted(names.take(i as int), upstream.addrs@),
    {
        let front = Some(fronts[i].clone());
        push_attempts(&mut plan, &upstream.addrs, &front);
        proof {
            assert(names.take(i + 1).drop_last() =~= names.take(i as int));
            assert(names.take(i + 1).last() == fronts@[i as int]@);
            assert(attempt_models(plan@) =~= first + fronted(
                names.take(i + 1),
                upstream.addrs@,
            ));
        }
    }
    assert(names.take(names.len() as int) =~= names);
    plan
}

/// What to do next.
#[derive(Debug)]
pub enum DispatchStep {
    /// Make the attempt at this place in the plan.
    Attempt(usize),
    /// Give up, with this error.
    Fail(String),
}

/// What to do next after the attempts made so far failed: the next attempt;
/// after the last of them the last error stands.
pub open spec fn next_attempt(attempts: nat, failures: Seq<Seq<char>>) -> Result<int, Seq<char>> {
    if failures.len() < attempts {
        Ok(failures.len() as int)
    } else if failures.len() > 0 {
        Err(failures.last())
    } else {
        Err("no usable upstream address"@)
    }
}

/// The next step, where the attempts made so far failed with the given
/// errors.
pub fn dispatch_upstream_request(plan: &Vec<Attempt>, failures: &Vec<String>) -> (r: DispatchStep)
    ensures
        match r {
            DispatchStep::Attempt(i) => next_attempt(plan@.len(), texts(failures@)) == Ok::<
                int,
                Seq<char>,
            >(i as int) && i < plan@.len(),
            DispatchStep::Fail(e) => next_attempt(plan@.len(), texts(failures@)) == Err::<
                int,
                Seq<char>,
            >(e@),
        },
{
    if failures.len() < plan.len() {
        DispatchStep::Attempt(failures.len())
    } else if failures.len() > 0 {
        DispatchStep::Fail(failures[failures.len() - 1].clone())
    } else {
        DispatchStep::Fail("no usable upstream address".to_string())
    }
}

/// Whether a front domain's reply with this status is not taken for the
/// upstream's.
pub fn should_retry_front_status(status: u16) -> (r: bool)
    ensures
        r == is_front_refusal(status),
{
    status == 400 || status == 403 || status == 421 || status == 431
}

/// Why a reply does not count, if it does not: behind a front domain the
/// statuses with which that domain refuses the host.
pub open spec fn refusal(front: Option<Seq<char>>, status: u16) -> Option<Seq<char>> {
    match front {
        Some(name) => if is_front_refusal(status) {
            Some(
                "front domain "@ + name + " returned retryable status "@ + front_refusal_text(
                    status,
                ),
            )
        } else {
            None
        },
        None => None,
    }
}

/// Judges the reply to an attempt: the error to go on with where it does not
/// count.
pub fn judge_reply(attempt: &Attempt, status: u16) -> (r: Option<String>)
    ensures
        opt_text(r) == refusal(opt_text(attempt.front), status),
{
    match &attempt.front {
        Some(name) => {
            if !should_retry_front_status(status) {
                return None;
            }
            let mut message = followed_by("front domain ", name.as_str());
            message.append(" returned retryable status ");
            message.append(status_text(status).as_str());
            Some(message)
        },
        None => None,
    }
}

// ---------------------------------------------------------------------------
// One attempt
// ---------------------------------------------------------------------------

/// How long a connection to the upstream may take, in milliseconds.
pub const CONNECT_TIME: u64 = 5000;

/// How an attempt reaches the upstream.
#[derive(Debug, Clone, Copy, PartialEq, Eq, Structural)]
pub enum Transport {
    Plain,
    Tls,
}

/// How the upstream of the given scheme is reached: only `http`, in whatever
/// case, goes without TLS.
pub fn transport_for(upstream_scheme: &str) -> (r: Transport)
    ensures
        r == if lowercase(upstream_scheme@) == "http"@ {
            Transport::Plain
        } else {
            Transport::Tls
        },
{
    let scheme = to_ascii_lowercase(upstream_scheme);
    if same_text(scheme.as_str(), "http") {
        Transport::Plain
    } else {
        Transport::Tls
    }
}

/// Whether the protocol agreed on is HTTP/2: its name is `h2`.
pub fn negotiated_h2(protocol: Option<&[u8]>) -> (r: bool)
    ensures
        r == (protocol matches Some(name) && name@ == seq![104u8, 50u8]),
{
    match protocol {
        Some(name) => {
            let h2 = name.len() == 2 && name[0] == 104 && name[1] == 50;
            assert(h2 ==> name@ =~= seq![104u8, 50u8]);
            h2
        },
        None => false,
    }
}

/// The name that an attempt gives to the network, and the error where it can
/// be no server's name.
pub open spec fn presented_name(front: Option<Seq<char>>, host: Seq<char>, valid: bool) -> Result<
    Seq<char>,
    Seq<char>,
> {
    if valid {
        Ok(
            match front {
                Some(name) => name,
                None => host,
            },
        )
    } else {
        Err("failed to construct upstream SNI name: invalid dns name"@)
    }
}

/// The name that an attempt gives, where `valid` says whether it can be a
/// server's.
pub fn server_name_if(front: &Option<String>, request_host: &str, valid: bool) -> (r: Result<
    String,
    String,
>)
    ensures
        match r {
            Ok(name) => presented_name(opt_text(*front), request_host@, valid) == Ok::<
                Seq<char>,
                Seq<char>,
            >(name@),
            Err(e) => presented_name(opt_text(*front), request_host@, valid) == Err::<
                Seq<char>,
                Seq<char>,
            >(e@),
        },
{
    if !valid {
        return Err("failed to construct upstream SNI name: invalid dns name".to_string());
    }
    match front {
        Some(name) => Ok(name.clone()),
        None => Ok(request_host.to_string()),
    }
}

/// The name that an attempt gives to the network: its front domain, or else
/// the host itself.
pub fn attempt_server_name(front: &Option<String>, request_host: &str) -> (r: Result<
    String,
    String,
>)
    ensures
        ({
            let name = match *front {
                Some(name) => name@,
                None => request_host@,
            };
            match r {
                Ok(n) => presented_name(opt_text(*front), request_host@, valid_server_name(name))
                    == Ok::<Seq<char>, Seq<char>>(n@),
                Err(e) => presented_name(opt_text(*front), request_host@, valid_server_name(name))
                    == Err::<Seq<char>, Seq<char>>(e@),
            }
        }),
{
    let valid = match front {
        Some(name) => server_name_accepted(name.as_str()),
        None => server_name_accepted(request_host),
    };
    server_name_if(front, request_host, valid)
}

// ---------------------------------------------------------------------------
// Laws
// ---------------------------------------------------------------------------

proof fn lemma_fronted(fronts: Seq<Seq<char>>, addrs: Seq<SocketAddress>)
    ensures
        fronted(fronts, addrs).len() == fronts.len() * addrs.len(),
        forall|i: int|
            0 <= i < fronted(fronts, addrs).len() ==> (#[trigger] fronted(
                fronts,
                addrs,
            )[i]).front is Some,
        forall|f: int, a: int|
            0 <= f < fronts.len() && 0 <= a < addrs.len() ==> fronted(fronts, addrs)[f
                * addrs.len() + a] == (AttemptModel {
                front: Some(#[trigger] fronts[f]),
                addr: #[trigger] addrs[a],
            }),
    decreases fronts.len(),
{
    if fronts.len() > 0 {
        let front = fronts.drop_last();
        lemma_fronted(front, addrs);
        let n = addrs.len();
        let k = front.len();
        assert(fronts.len() * n == k * n + n) by (nonlinear_arith)
            requires
                fronts.len() == k + 1,
        ;
        assert forall|f: int, a: int|
            0 <= f < fronts.len() && 0 <= a < addrs.len() implies fronted(fronts, addrs)[f
                * addrs.len() + a] == (AttemptModel {
                front: Some(#[trigger] fronts[f]),
                addr: #[trigger] addrs[a],
            }) by {
            assert(f * n >= 0) by (nonlinear_arith)
                requires
                    f >= 0,
            ;
            if f < k {
                assert(f * n + a < k * n) by (nonlinear_arith)
                    requires
                        0 <= f < k,
                        0 <= a < n,
                ;
                assert(front[f] == fronts[f]);
            } else {
                assert(f == k);
                assert(at_each(addrs, Some(fronts.last()))[a].addr == addrs[a]);
            }
        }
    }
}

/// There is one attempt per address with ECH, where that can be used, and one
/// per front domain and address.
pub proof fn law_plan_length(upstream: UpstreamModel, fronts: Seq<Seq<char>>)
    ensures
        planned(upstream, fronts).len() == (if upstream.ech_config_list is Some {
            upstream.addrs.len()
        } else {
            0
        }) + fronts.len() * upstream.addrs.len(),
{
    lemma_fronted(fronts, upstream.addrs);
}

/// The attempts with ECH come before all others.
pub proof fn law_ech_first(upstream: UpstreamModel, fronts: Seq<Seq<char>>, i: int, j: int)
    requires
        0 <= i < j < planned(upstream, fronts).len(),
        planned(upstream, fronts)[j].front is None,
    ensures
        planned(upstream, fronts)[i].front is None,
{
    lemma_fronted(fronts, upstream.addrs);
    let first = if upstream.ech_config_list is Some {
        at_each(upstream.addrs, None)
    } else {
        Seq::empty()
    };
    if j >= first.len() {
        assert(planned(upstream, fronts)[j] == fronted(fronts, upstream.addrs)[j - first.len()]);
    }
}

/// Every front domain is tried at every address: the domains in their order,
/// and for each of them the addresses in theirs.
pub proof fn law_fronts_at_every_address(
    upstream: UpstreamModel,
    fronts: Seq<Seq<char>>,
    f: int,
    a: int,
)
    requires
        0 <= f < fronts.len(),
        0 <= a < upstream.addrs.len(),
    ensures
        ({
            let offset = if upstream.ech_config_list is Some {
                upstream.addrs.len() as int
            } else {
                0
            };
            let at = offset + f * upstream.addrs.len() + a;
            0 <= at < planned(upstream, fronts).len() && planned(upstream, fronts)[at] == (
            AttemptModel { front: Some(fronts[f]), addr: upstream.addrs[a] })
        }),
{
    lemma_fronted(fronts, upstream.addrs);
    let n = upstream.addrs.len();
    assert(0 <= f * n + a < fronts.len() * n) by (nonlinear_arith)
        requires
            0 <= f < fronts.len(),
            0 <= a < n,
    ;
    assert(fronted(fronts, upstream.addrs)[f * n + a] == (AttemptModel {
        front: Some(fronts[f]),
        addr: upstream.addrs[a],
    }));
}

/// A reply over ECH always counts, whatever its status.
pub proof fn law_ech_reply_counts(status: u16)
    ensures
        refusal(None, status) is None,
{
}

/// The error of an attempt that came to `reply`, which is the status of the
/// answer or why there is none; `None` where the answer counts.
pub open spec fn attempt_error(attempt: AttemptModel, reply: Result<u16, Seq<char>>) -> Option<
    Seq<char>,
> {
    match reply {
        Ok(status) => refusal(attempt.front, status),
        Err(e) => Some(e),
    }
}

/// What following the steps comes to, where attempt `i` comes to
/// `replies[i]`: the attempt whose answer is handed on, or the error.
pub open spec fn dispatched(
    plan: Seq<AttemptModel>,
    replies: Seq<Result<u16, Seq<char>>>,
    failures: Seq<Seq<char>>,
) -> Result<int, Seq<char>>
    decreases plan.len() - failures.len(),
{
    match next_attempt(plan.len(), failures) {
        Err(e) => Err(e),
        Ok(i) => match attempt_error(plan[i], replies[i]) {
            None => Ok(i),
            Some(e) => dispatched(plan, replies, failures.push(e)),
        },
    }
}

proof fn lemma_dispatched(
    plan: Seq<AttemptModel>,
    replies: Seq<Result<u16, Seq<char>>>,
    failures: Seq<Seq<char>>,
)
    requires
        failures.len() <= plan.len(),
        forall|j: int|
            0 <= j < failures.len() ==> attempt_error(plan[j], replies[j]) == Some(
                #[trigger] failures[j],
            ),
    ensures
        match dispatched(plan, replies, failures) {
            Ok(i) => {
                &&& 0 <= i < plan.len()
                &&& attempt_error(plan[i], replies[i]) is None
                &&& forall|j: int|
                    #![trigger plan[j]]
                    0 <= j < i ==> attempt_error(plan[j], replies[j]) is Some
            },
            Err(e) => {
                &&& forall|j: int|
                    #![trigger plan[j]]
                    0 <= j < plan.len() ==> attempt_error(plan[j], replies[j]) is Some
                &&& plan.len() > 0 ==> attempt_error(plan.last(), replies[plan.len() - 1]) == Some(
                    e,
                )
                &&& plan.len() == 0 ==> e == "no usable upstream address"@
            },
        },
    decreases plan.len() - failures.len(),
{
    let n = failures.len() as int;
    assert forall|j: int| #![trigger plan[j]] 0 <= j < n implies attempt_error(
        plan[j],
        replies[j],
    ) is Some by {
        assert(attempt_error(plan[j], replies[j]) == Some(failures[j]));
    }
    if n < plan.len() {
        match attempt_error(plan[n], replies[n]) {
            None => {},
            Some(e) => {
                let more = failures.push(e);
                assert forall|j: int| 0 <= j < more.len() implies attempt_error(
                    plan[j],
                    replies[j],
                ) == Some(#[trigger] more[j]) by {
                    if j < n {
                        assert(more[j] == failures[j]);
                    }
                }
                lemma_dispatched(plan, replies, more);
            },
        }
    } else if n > 0 {
        assert(attempt_error(plan[n - 1], replies[n - 1]) == Some(failures[n - 1]));
    }
}

/// A request is answered with the first reply that counts. Where none does,
/// the error is that of the last attempt.
pub proof fn law_first_counting_reply_answers(
    plan: Seq<AttemptModel>,
    replies: Seq<Result<u16, Seq<char>>>,
)
    ensures
        match dispatched(plan, replies, Seq::empty()) {
            Ok(i) => {
                &&& 0 <= i < plan.len()
                &&& attempt_error(plan[i], replies[i]) is None
                &&& forall|j: int|
                    #![trigger plan[j]]
                    0 <= j < i ==> attempt_error(plan[j], replies[j]) is Some
            },
            Err(e) => {
                &&& forall|j: int|
                    #![trigger plan[j]]
                    0 <= j < plan.len() ==> attempt_error(plan[j], replies[j]) is Some
                &&& plan.len() > 0 ==> attempt_error(plan.last(), replies[plan.len() - 1]) == Some(
                    e,
                )
                &&& plan.len() == 0 ==> e == "no usable upstream address"@
            },
        },
{
    lemma_dispatched(plan, replies, Seq::empty());
}

/// Where the upstream can be reached with ECH, the first attempts are made
/// with it, one at each address in their order; where it cannot, every attempt
/// names a front domain.
pub proof fn law_ech_at_every_address(upstream: UpstreamModel, fronts: Seq<Seq<char>>, a: int)
    requires
        0 <= a < upstream.addrs.len(),
    ensures
        upstream.ech_config_list is Some ==> a < planned(upstream, fronts).len() && planned(
            upstream,
            fronts,
        )[a] == (AttemptModel { front: None, addr: upstream.addrs[a] }),
        upstream.ech_config_list is None ==> forall|i: int|
            0 <= i < planned(upstream, fronts).len() ==> (#[trigger] planned(
                upstream,
                fronts,
            )[i]).front is Some,
{
    lemma_fronted(fronts, upstream.addrs);
    let first = at_each(upstream.addrs, None);
    if upstream.ech_config_list is Some {
        assert(planned(upstream, fronts)[a] == first[a]);
    } else {
        let all = fronted(fronts, upstream.addrs);
        assert(planned(upstream, fronts) =~= all);
    }
}

proof fn lemma_default_fronts()
    ensures
        default_fronts().no_duplicates(),
        default_fronts().len() == 5,
{
    reveal_strlit("www.cloudflare.com");
    reveal_strlit("cdnjs.cloudflare.com");
    reveal_strlit("developers.cloudflare.com");
    reveal_strlit("dash.cloudflare.com");
    reveal_strlit("one.one.one.one");
    let d = default_fronts();
    assert(d[0].len() == 18 && d[1].len() == 20 && d[2].len() == 25 && d[3].len() == 19
        && d[4].len() == 15);
}

/// The front domains are the five that every configuration has, in their
/// order, with the configured one, without white space around it, in front of
/// them and not among them again.
pub proof fn law_fronts_in_order(
    config: ConfigModel,
    left: Seq<char>,
    name: Seq<char>,
    right: Seq<char>,
)
    requires
        blank(left),
        blank(right),
        solid(name),
    ensures
        config.fake_sni is None || config.fake_sni == Some(left) ==> fronts(config) == seq![
            "www.cloudflare.com"@,
            "cdnjs.cloudflare.com"@,
            "developers.cloudflare.com"@,
            "dash.cloudflare.com"@,
            "one.one.one.one"@,
        ],
        config.fake_sni == Some(left + name + right) ==> fronts(config) == seq![name] + seq![
            "www.cloudflare.com"@,
            "cdnjs.cloudflare.com"@,
            "developers.cloudflare.com"@,
            "dash.cloudflare.com"@,
            "one.one.one.one"@,
        ].filter(|f: Seq<char>| f != name),
{
    lemma_default_fronts();
    if config.fake_sni is None || config.fake_sni == Some(left) {
        law_trim_leaves_nothing_of_white_space(left);
        assert(own_front(config) =~= Seq::<Seq<char>>::empty());
        lemma_no_own_front(default_fronts());
    }
    if config.fake_sni == Some(left + name + right) {
        law_trim_takes_white_space_off(left, name, right);
        assert(own_front(config) =~= seq![name]);
        lemma_one_own_front(name, default_fronts());
    }
}

proof fn lemma_no_own_front(names: Seq<Seq<char>>)
    requires
        names.no_duplicates(),
    ensures
        merged(Seq::empty(), names) == names,
{
    let own = Seq::<Seq<char>>::empty();
    law_merging_adds_what_is_missing(own, names);
    lemma_same_filter(names, |f: Seq<char>| !own.contains(f), |f: Seq<char>| true);
    lemma_filter_keeps_all(names, |f: Seq<char>| true);
    assert(own + names =~= names);
}

proof fn lemma_one_own_front(name: Seq<char>, names: Seq<Seq<char>>)
    requires
        names.no_duplicates(),
    ensures
        merged(seq![name], names) == seq![name] + names.filter(|f: Seq<char>| f != name),
{
    let own = seq![name];
    law_merging_adds_what_is_missing(own, names);
    assert(own[0] == name);
    lemma_same_filter(names, |f: Seq<char>| !own.contains(f), |f: Seq<char>| f != name);
}

proof fn lemma_same_filter(
    s: Seq<Seq<char>>,
    a: spec_fn(Seq<char>) -> bool,
    b: spec_fn(Seq<char>) -> bool,
)
    requires
        forall|x: Seq<char>| #[trigger] a(x) == b(x),
    ensures
        s.filter(a) == s.filter(b),
    decreases s.len(),
{
    reveal(Seq::filter);
    if s.len() > 0 {
        lemma_same_filter(s.drop_last(), a, b);
        assert(a(s.last()) == b(s.last()));
    }
}

proof fn lemma_filter_keeps_all(s: Seq<Seq<char>>, wanted: spec_fn(Seq<char>) -> bool)
    requires
        forall|x: Seq<char>| #[trigger] wanted(x),
    ensures
        s.filter(wanted) == s,
    decreases s.len(),
{
    reveal(Seq::filter);
    if s.len() > 0 {
        lemma_filter_keeps_all(s.drop_last(), wanted);
        assert(wanted(s.last()));
        assert(s.drop_last().push(s.last()) =~= s);
    }
}

/// Behind a front domain a reply does not count exactly where its status is
/// 400, 403, 421 or 431; the error then names the front domain.
pub proof fn law_replies_that_do_not_count(name: Seq<char>, status: u16)
    ensures
        refusal(Some(name), status) is Some <==> status == 400 || status == 403 || status == 421
            || status == 431,
        refusal(None, status) is None,
        status == 400 ==> refusal(Some(name), status) == Some(
            "front domain "@ + name + " returned retryable status "@ + "400 Bad Request"@,
        ),
        status == 403 ==> refusal(Some(name), status) == Some(
            "front domain "@ + name + " returned retryable status "@ + "403 Forbidden"@,
        ),
        status == 421 ==> refusal(Some(name), status) == Some(
            "front domain "@ + name + " returned retryable status "@ + "421 Misdirected Request"@,
        ),
        status == 431 ==> refusal(Some(name), status) == Some(
            "front domain "@ + name + " returned retryable status "@
                + "431 Request Header Fields Too Large"@,
        ),
{
}

/// An attempt fails with the error that kept it from being answered.
pub proof fn law_attempt_without_reply(attempt: AttemptModel, error: Seq<char>, status: u16)
    ensures
        attempt_error(attempt, Err(error)) == Some(error),
        attempt_error(attempt, Ok(status)) is Some <==> attempt.front is Some && (status == 400
            || status == 403 || status == 421 || status == 431),
{
}

/// An attempt presents its front domain to the network, or the host where it
/// has none, and fails where that can be no server's name.
pub proof fn law_presented_name(name: Seq<char>, host: Seq<char>)
    ensures
        presented_name(Some(name), host, true) == Ok::<Seq<char>, Seq<char>>(name),
        presented_name(None, host, true) == Ok::<Seq<char>, Seq<char>>(host),
        presented_name(Some(name), host, false) is Err,
        presented_name(None, host, false) is Err,
{
}

/// The attempts are made one after another; after the last of them the last
/// error stands, and without any an error of its own.
pub proof fn law_attempts_in_order(attempts: nat, failures: Seq<Seq<char>>)
    ensures
        failures.len() < attempts ==> next_attempt(attempts, failures) == Ok::<int, Seq<char>>(
            failures.len() as int,
        ),
        failures.len() >= attempts && failures.len() > 0 ==> next_attempt(attempts, failures)
            == Err::<int, Seq<char>>(failures.last()),
        failures.len() == 0 && attempts == 0 ==> next_attempt(attempts, failures) == Err::<
            int,
            Seq<char>,
        >("no usable upstream address"@),
{
}

/// What is said of attempts is what they are, in their order.
pub proof fn law_attempts_as_they_are(attempts: Seq<Attempt>, i: int)
    requires
        0 <= i < attempts.len(),
    ensures
        attempt_models(attempts).len() == attempts.len(),
        attempt_models(attempts)[i].front == opt_text(attempts[i].front),
        attempt_models(attempts)[i].addr == attempts[i].addr,
{
}

/// A connection to the upstream may take five seconds.
pub proof fn law_connection_time()
    ensures
        CONNECT_TIME == 5000,
{
}

} // verus!
