//! DNS over HTTPS: which endpoint is asked, which replies are accepted, and
//! what the records in them say.
use crate::https_record::{
    https_binding, parse_https_answer, BindingModel, HttpsServiceBinding, RecordFault,
};
use crate::number::{decimal, push_decimal};
use crate::text::{followed_by, texts};
use vstd::prelude::*;

verus! {

/// One record of a reply.
#[derive(Debug)]
pub struct DohAnswer {
    pub record_type: u16,
    pub data: String,
}

/// The type and the data of each record.
pub open spec fn answer_models(answers: Seq<DohAnswer>) -> Seq<(u16, Seq<char>)> {
    answers.map_values(|a: DohAnswer| (a.record_type, a.data@))
}

/// An address of the internet protocol, as a number.
#[derive(Debug, Clone, Copy, PartialEq, Eq, Structural)]
pub enum IpAddress {
    V4(u32),
    V6(u128),
}

// ---------------------------------------------------------------------------
// Asking the endpoints
// ---------------------------------------------------------------------------

/// How long a connection to an endpoint may take, in milliseconds.
pub const DOH_CONNECT_TIME: u64 = 10_000;

/// How long a query may take, in milliseconds.
pub const DOH_QUERY_TIME: u64 = 15_000;

/// What to do next in a query.
#[derive(Debug)]
pub enum DohStep {
    /// Ask the endpoint at this place in the configuration.
    Ask(usize),
    /// Give up, with this error.
    Fail(String),
}

/// What to do next after `failures` endpoints failed: the next endpoint is
/// asked; after the last of them the last error stands.
pub open spec fn next_endpoint(endpoints: nat, failures: Seq<Seq<char>>) -> Result<int, Seq<char>> {
    if failures.len() < endpoints {
        Ok(failures.len() as int)
    } else if failures.len() > 0 {
        Err(failures.last())
    } else {
        Err("no DoH endpoint available"@)
    }
}

/// The next step of a query in which the endpoints asked so far failed with
/// the given errors.
pub fn doh_query(endpoints: &Vec<String>, failures: &Vec<String>) -> (r: DohStep)
    ensures
        match r {
            DohStep::Ask(i) => next_endpoint(
                endpoints@.len(),
                texts(failures@),
            ) == Ok::<int, Seq<char>>(i as int) && i < endpoints@.len(),
            DohStep::Fail(e) => next_endpoint(endpoints@.len(), texts(failures@))
                == Err::<int, Seq<char>>(e@),
        },
{
    if failures.len() < endpoints.len() {
        DohStep::Ask(failures.len())
    } else if failures.len() > 0 {
        DohStep::Fail(failures[failures.len() - 1].clone())
    } else {
        DohStep::Fail("no DoH endpoint available".to_string())
    }
}

/// What following the steps of a query comes to, where endpoint `i` comes to
/// `errors[i]`, or answers where that is `None`: the endpoint whose answer
/// counts, or the error.
pub open spec fn queried(errors: Seq<Option<Seq<char>>>, failures: Seq<Seq<char>>) -> Result<
    int,
    Seq<char>,
>
    decreases errors.len() - failures.len(),
{
    match next_endpoint(errors.len(), failures) {
        Err(e) => Err(e),
        Ok(i) => match errors[i] {
            None => Ok(i),
            Some(e) => queried(errors, failures.push(e)),
        },
    }
}

proof fn lemma_queried(errors: Seq<Option<Seq<char>>>, failures: Seq<Seq<char>>)
    requires
        failures.len() <= errors.len(),
        forall|j: int| 0 <= j < failures.len() ==> errors[j] == Some(#[trigger] failures[j]),
    ensures
        match queried(errors, failures) {
            Ok(i) => {
                &&& 0 <= i < errors.len()
                &&& errors[i] is None
                &&& forall|j: int| 0 <= j < i ==> (#[trigger] errors[j]) is Some
            },
            Err(e) => {
                &&& forall|j: int| 0 <= j < errors.len() ==> (#[trigger] errors[j]) is Some
                &&& errors.len() > 0 ==> errors.last() == Some(e)
                &&& errors.len() == 0 ==> e == "no DoH endpoint available"@
            },
        },
    decreases errors.len() - failures.len(),
{
    let n = failures.len() as int;
    assert forall|j: int| 0 <= j < n implies (#[trigger] errors[j]) is Some by {
        assert(errors[j] == Some(failures[j]));
    }
    if n < errors.len() {
        if let Some(e) = errors[n] {
            let more = failures.push(e);
            assert forall|j: int| 0 <= j < more.len() implies errors[j] == Some(
                #[trigger] more[j],
            ) by {
                if j < n {
                    assert(more[j] == failures[j]);
                }
            }
            lemma_queried(errors, more);
        }
    } else if n > 0 {
        assert(errors[n - 1] == Some(failures[n - 1]));
    }
}

/// A query is answered by the first endpoint that answers. Where none does,
/// the error is that of the last.
pub proof fn law_first_endpoint_that_answers(errors: Seq<Option<Seq<char>>>)
    ensures
        match queried(errors, Seq::empty()) {
            Ok(i) => {
                &&& 0 <= i < errors.len()
                &&& errors[i] is None
                &&& forall|j: int| 0 <= j < i ==> (#[trigger] errors[j]) is Some
            },
            Err(e) => {
                &&& forall|j: int| 0 <= j < errors.len() ==> (#[trigger] errors[j]) is Some
                &&& errors.len() > 0 ==> errors.last() == Some(e)
                &&& errors.len() == 0 ==> e == "no DoH endpoint available"@
            },
        },
{
    lemma_queried(errors, Seq::empty());
}

/// The error for a reply with a status other than zero.
pub open spec fn status_error(
    record_type: Seq<char>,
    host: Seq<char>,
    endpoint: Seq<char>,
    status: u32,
) -> Seq<char> {
    "DoH query "@ + record_type + " "@ + host + " via "@ + endpoint + " returned status "@
        + decimal(status as nat)
}

/// Takes the records out of a decoded reply, unless its status says that the
/// query failed. A reply without a status is one with status zero, and one
/// without records holds none.
pub fn accept_reply(
    status: Option<u32>,
    answers: Option<Vec<DohAnswer>>,
    record_type: &str,
    host: &str,
    endpoint: &str,
) -> (r: Result<Vec<DohAnswer>, String>)
    ensures
        match r {
            Ok(v) => (status is None || status == Some(0u32)) && v@ == match answers {
                Some(a) => a@,
                None => Seq::empty(),
            },
            Err(e) => status is Some && status != Some(0u32) && e@ == status_error(
                record_type@,
                host@,
                endpoint@,
                status->0,
            ),
        },
{
    let code: u32 = match status {
        Some(code) => code,
        None => 0,
    };
    if code != 0 {
        let mut message = followed_by("DoH query ", record_type);
        message.append(" ");
        message.append(host);
        message.append(" via ");
        message.append(endpoint);
        message.append(" returned status ");
        push_decimal(&mut message, code as u64);
        return Err(message);
    }
    match answers {
        Some(a) => Ok(a),
        None => Ok(Vec::new()),
    }
}

// ---------------------------------------------------------------------------
// HTTPS records
// ---------------------------------------------------------------------------

/// The type of HTTPS records.
pub const HTTPS_RECORD: u16 = 65;

/// What the HTTPS records among the answers say, without those that cannot be
/// read.
pub open spec fn bindings_of(answers: Seq<(u16, Seq<char>)>) -> Seq<BindingModel>
    decreases answers.len(),
{
    if answers.len() == 0 {
        Seq::empty()
    } else {
        let front = bindings_of(answers.drop_last());
        match https_binding(answers.last().1) {
            Ok(binding) => if answers.last().0 == HTTPS_RECORD {
                front.push(binding)
            } else {
                front
            },
            Err(_) => front,
        }
    }
}

/// The views of the bindings.
pub open spec fn binding_models(bindings: Seq<HttpsServiceBinding>) -> Seq<BindingModel> {
    bindings.map_values(|b: HttpsServiceBinding| b@)
}

/// Reads the HTTPS records among the answers.
pub fn https_bindings(answers: &Vec<DohAnswer>) -> (r: Vec<HttpsServiceBinding>)
    ensures
        binding_models(r@) == bindings_of(answer_models(answers@)),
{
    let mut bindings: Vec<HttpsServiceBinding> = Vec::new();
    let ghost all = answer_models(answers@);
    assert(all.take(0) =~= Seq::<(u16, Seq<char>)>::empty());
    assert(binding_models(bindings@) =~= Seq::<BindingModel>::empty());
    for i in 0..answers.len()
        invariant
            all == answer_models(answers@),
            binding_models(bindings@) == bindings_of(all.take(i as int)),
    {
        proof {
            assert(all.take(i + 1).drop_last() =~= all.take(i as int));
            assert(all.take(i + 1).last() == all[i as int]);
        }
        if answers[i].record_type == HTTPS_RECORD {
            match parse_https_answer(answers[i].data.as_str()) {
                Ok(binding) => {
                    let ghost before = binding_models(bindings@);
                    let ghost model = binding@;
                    bindings.push(binding);
                    assert(binding_models(bindings@) =~= before.push(model));
                },
                Err(_) => {},
            }
        }
    }
    assert(all.take(all.len() as int) =~= all);
    bindings
}

/// Whether the binding at `i` has the lowest priority number, and is the
/// first such.
pub open spec fn first_preferred(bindings: Seq<BindingModel>, i: int) -> bool {
    &&& 0 <= i < bindings.len()
    &&& forall|j: int|
        0 <= j < bindings.len() ==> bindings[i].priority <= #[trigger] bindings[j].priority
    &&& forall|j: int| 0 <= j < i ==> bindings[i].priority < #[trigger] bindings[j].priority
}

/// The binding that says nothing.
pub open spec fn no_binding() -> BindingModel {
    BindingModel {
        priority: 0,
        target_name: None,
        ech_config_list: None,
        ech_public_name: None,
    }
}

/// The binding that counts: the first of those with the lowest priority
/// number, or the one that says nothing where there are none.
pub open spec fn preferred(bindings: Seq<BindingModel>) -> BindingModel {
    if bindings.len() == 0 {
        no_binding()
    } else {
        bindings[choose|i: int| first_preferred(bindings, i)]
    }
}

/// At most one binding is the first preferred one.
pub proof fn lemma_preferred_unique(bindings: Seq<BindingModel>, i: int)
    requires
        first_preferred(bindings, i),
    ensures
        preferred(bindings) == bindings[i],
{
    let k = choose|k: int| first_preferred(bindings, k);
    assert(first_preferred(bindings, k));
    if k < i {
        assert(bindings[i].priority < bindings[k].priority);
    } else if i < k {
        assert(bindings[k].priority < bindings[i].priority);
    }
}

/// Picks the binding that counts.
pub fn select_binding(bindings: Vec<HttpsServiceBinding>) -> (r: HttpsServiceBinding)
    ensures
        r@ == preferred(binding_models(bindings@)),
{
    let ghost models = binding_models(bindings@);
    let n = bindings.len();
    if n == 0 {
        return HttpsServiceBinding {
            priority: 0,
            target_name: None,
            ech_config_list: None,
            ech_public_name: None,
        };
    }
    let mut best: usize = 0;
    for i in 1..n
        invariant
            n == bindings@.len(),
            models == binding_models(bindings@),
            best < i,
            forall|j: int|
                0 <= j < i ==> models[best as int].priority <= #[trigger] models[j].priority,
            forall|j: int|
                0 <= j < best ==> models[best as int].priority < #[trigger] models[j].priority,
    {
        if bindings[i].priority < bindings[best].priority {
            assert(models[i as int].priority < models[best as int].priority);
            best = i;
        } else {
            assert(models[best as int].priority <= models[i as int].priority);
        }
    }
    proof {
        assert(first_preferred(models, best as int));
        lemma_preferred_unique(models, best as int);
    }
    let mut bindings = bindings;
    bindings.swap_remove(best)
}

/// What the answers to an HTTPS query say of the host.
pub open spec fn answered_binding(answers: Seq<(u16, Seq<char>)>) -> BindingModel {
    preferred(bindings_of(answers))
}

/// Reads the HTTPS records among the answers and picks the one that counts.
pub fn resolve_https_binding(answers: &Vec<DohAnswer>) -> (r: HttpsServiceBinding)
    ensures
        r@ == answered_binding(answer_models(answers@)),
{
    select_binding(https_bindings(answers))
}

// ---------------------------------------------------------------------------
// Address records
// ---------------------------------------------------------------------------

/// The type of records with an IPv4 address.
pub const A_RECORD: u16 = 1;

/// The type of records with an IPv6 address.
pub const AAAA_RECORD: u16 = 28;

/// One record of a reply, its data read as an IPv6 address.
#[derive(Debug, Clone, Copy, PartialEq, Eq, Structural)]
pub struct Ipv6Answer {
    pub record_type: u16,
    pub address: Option<u128>,
}

/// One record of a reply, its data read as an IPv4 address.
#[derive(Debug, Clone, Copy, PartialEq, Eq, Structural)]
pub struct Ipv4Answer {
    pub record_type: u16,
    pub address: Option<u32>,
}

/// The addresses in the records of type AAAA, in order.
pub open spec fn ipv6_addresses(answers: Seq<Ipv6Answer>) -> Seq<IpAddress>
    decreases answers.len(),
{
    if answers.len() == 0 {
        Seq::empty()
    } else {
        let front = ipv6_addresses(answers.drop_last());
        match answers.last().address {
            Some(ip) => if answers.last().record_type == AAAA_RECORD {
                front.push(IpAddress::V6(ip))
            } else {
                front
            },
            None => front,
        }
    }
}

/// The addresses in the records of type A, in order.
pub open spec fn ipv4_addresses(answers: Seq<Ipv4Answer>) -> Seq<IpAddress>
    decreases answers.len(),
{
    if answers.len() == 0 {
        Seq::empty()
    } else {
        let front = ipv4_addresses(answers.drop_last());
        match answers.last().address {
            Some(ip) => if answers.last().record_type == A_RECORD {
                front.push(IpAddress::V4(ip))
            } else {
                front
            },
            None => front,
        }
    }
}

/// The addresses that the answers to an AAAA and to an A query give: those of
/// IPv6 first.
pub fn collect_addresses(ipv6_answers: &Vec<Ipv6Answer>, ipv4_answers: &Vec<Ipv4Answer>) -> (r: Vec<
    IpAddress,
>)
    ensures
        r@ == ipv6_addresses(ipv6_answers@) + ipv4_addresses(ipv4_answers@),
{
    let mut addrs: Vec<IpAddress> = Vec::new();
    assert(ipv6_answers@.take(0) =~= Seq::<Ipv6Answer>::empty());
    for i in 0..ipv6_answers.len()
        invariant
            addrs@ == ipv6_addresses(ipv6_answers@.take(i as int)),
    {
        proof {
            assert(ipv6_answers@.take(i + 1).drop_last() =~= ipv6_answers@.take(i as int));
        }
        if ipv6_answers[i].record_type == AAAA_RECORD {
            if let Some(ip) = ipv6_answers[i].address {
                addrs.push(IpAddress::V6(ip));
            }
        }
    }
    assert(ipv6_answers@.take(ipv6_answers@.len() as int) =~= ipv6_answers@);
    assert(ipv4_answers@.take(0) =~= Seq::<Ipv4Answer>::empty());
    let ghost six = addrs@;
    assert(six + Seq::<IpAddress>::empty() =~= six);
    for i in 0..ipv4_answers.len()
        invariant
            addrs@ == six + ipv4_addresses(ipv4_answers@.take(i as int)),
    {
        proof {
            assert(ipv4_answers@.take(i + 1).drop_last() =~= ipv4_answers@.take(i as int));
        }
        if ipv4_answers[i].record_type == A_RECORD {
            if let Some(ip) = ipv4_answers[i].address {
                addrs.push(IpAddress::V4(ip));
            }
        }
    }
    assert(ipv4_answers@.take(ipv4_answers@.len() as int) =~= ipv4_answers@);
    addrs
}

// ---------------------------------------------------------------------------
// Laws
// ---------------------------------------------------------------------------

/// Whether answer `i` is an HTTPS record that reads as the binding `b`.
pub open spec fn reads_as(answers: Seq<(u16, Seq<char>)>, i: int, b: BindingModel) -> bool {
    0 <= i < answers.len() && answers[i].0 == 65 && https_binding(answers[i].1) == Ok::<
        BindingModel,
        RecordFault,
    >(b)
}

/// Whether answer `i` reads as the binding `b`, none has a smaller priority,
/// and none before it has the same.
pub open spec fn is_chosen(answers: Seq<(u16, Seq<char>)>, i: int, b: BindingModel) -> bool {
    &&& reads_as(answers, i, b)
    &&& forall|j: int, c: BindingModel| #[trigger]
        reads_as(answers, j, c) ==> b.priority <= c.priority && (j < i ==> b.priority < c.priority)
}

proof fn lemma_bindings_are_read(answers: Seq<(u16, Seq<char>)>, k: int) -> (i: int)
    requires
        0 <= k < bindings_of(answers).len(),
    ensures
        reads_as(answers, i, bindings_of(answers)[k]),
    decreases answers.len(),
{
    let front = answers.drop_last();
    if k < bindings_of(front).len() {
        let i = lemma_bindings_are_read(front, k);
        assert(front[i] == answers[i]);
        i
    } else {
        answers.len() - 1
    }
}

proof fn lemma_chosen_is_first(answers: Seq<(u16, Seq<char>)>, i: int, b: BindingModel) -> (k: int)
    requires
        is_chosen(answers, i, b),
    ensures
        first_preferred(bindings_of(answers), k),
        bindings_of(answers)[k] == b,
    decreases answers.len(),
{
    let front = answers.drop_last();
    let all = bindings_of(answers);
    let before = bindings_of(front);
    let last = answers.len() - 1;
    if i == last {
        assert forall|j: int| 0 <= j < before.len() implies b.priority
            < #[trigger] before[j].priority by {
            let m = lemma_bindings_are_read(front, j);
            assert(front[m] == answers[m]);
            assert(reads_as(answers, m, before[j]));
        }
        assert(all == before.push(b));
        before.len() as int
    } else {
        assert(front[i] == answers[i]);
        assert forall|j: int, c: BindingModel| #[trigger] reads_as(front, j, c) implies b.priority
            <= c.priority && (j < i ==> b.priority < c.priority) by {
            assert(front[j] == answers[j]);
            assert(reads_as(answers, j, c));
        }
        let k = lemma_chosen_is_first(front, i, b);
        if all.len() > before.len() {
            assert(reads_as(answers, last, all.last()));
            assert forall|j: int| 0 <= j < all.len() implies all[k].priority
                <= #[trigger] all[j].priority by {
                if j < before.len() {
                    assert(all[j] == before[j]);
                }
            }
            assert forall|j: int| 0 <= j < k implies all[k].priority
                < #[trigger] all[j].priority by {
                assert(all[j] == before[j]);
            }
        }
        k
    }
}

proof fn lemma_some_is_chosen(answers: Seq<(u16, Seq<char>)>, j: int, c: BindingModel) -> (r: (
    int,
    BindingModel,
))
    requires
        reads_as(answers, j, c),
    ensures
        is_chosen(answers, r.0, r.1),
    decreases answers.len(),
{
    let front = answers.drop_last();
    let last = answers.len() - 1;
    if exists|m: int, d: BindingModel| reads_as(front, m, d) {
        let (m, d) = choose|m: int, d: BindingModel| reads_as(front, m, d);
        let (i, b) = lemma_some_is_chosen(front, m, d);
        assert(front[i] == answers[i]);
        let better = answers[last].0 == 65 && (https_binding(answers[last].1) matches Ok(e)
            && e.priority < b.priority);
        let (n, f) = if better {
            (last, https_binding(answers[last].1)->Ok_0)
        } else {
            (i, b)
        };
        assert forall|k: int, e: BindingModel| #[trigger] reads_as(answers, k, e) implies f.priority
            <= e.priority && (k < n ==> f.priority < e.priority) by {
            if k < last {
                assert(front[k] == answers[k]);
                assert(reads_as(front, k, e));
            }
        }
        (n, f)
    } else {
        assert forall|k: int, e: BindingModel| #[trigger] reads_as(answers, k, e) implies k
            == last by {
            if k < last {
                assert(front[k] == answers[k]);
                assert(reads_as(front, k, e));
            }
        }
        (j, c)
    }
}

/// The binding that answers give is the one with the smallest priority among
/// their HTTPS records, those of type 65, that can be read, and the first of
/// these where several have it.
pub proof fn law_smallest_priority_is_chosen(
    answers: Seq<(u16, Seq<char>)>,
    i: int,
    b: BindingModel,
)
    requires
        is_chosen(answers, i, b),
    ensures
        answered_binding(answers) == b,
{
    let k = lemma_chosen_is_first(answers, i, b);
    lemma_preferred_unique(bindings_of(answers), k);
}

/// Where any HTTPS record can be read, one of them is chosen.
pub proof fn law_a_readable_record_is_used(
    answers: Seq<(u16, Seq<char>)>,
    j: int,
    c: BindingModel,
)
    requires
        reads_as(answers, j, c),
    ensures
        exists|i: int| is_chosen(answers, i, answered_binding(answers)),
        answered_binding(answers).priority <= c.priority,
{
    let (i, b) = lemma_some_is_chosen(answers, j, c);
    law_smallest_priority_is_chosen(answers, i, b);
}

/// Where no HTTPS record can be read, there is neither a target nor an ECH
/// configuration.
pub proof fn law_no_readable_record(answers: Seq<(u16, Seq<char>)>)
    requires
        forall|j: int, c: BindingModel| !reads_as(answers, j, c),
    ensures
        answered_binding(answers).target_name is None,
        answered_binding(answers).ech_config_list is None,
        answered_binding(answers).ech_public_name is None,
{
    if bindings_of(answers).len() > 0 {
        let i = lemma_bindings_are_read(answers, 0);
        assert(reads_as(answers, i, bindings_of(answers)[0]));
    }
}

/// Of the answers to a query for IPv6 addresses the records of type 28 count
/// that hold an address, in their order.
pub proof fn law_ipv6_addresses(answers: Seq<Ipv6Answer>)
    ensures
        ipv6_addresses(answers) == answers.filter(
            |a: Ipv6Answer| a.record_type == 28 && a.address is Some,
        ).map_values(|a: Ipv6Answer| IpAddress::V6(a.address->0)),
    decreases answers.len(),
{
    reveal(Seq::filter);
    let wanted = |a: Ipv6Answer| a.record_type == 28 && a.address is Some;
    let shown = |a: Ipv6Answer| IpAddress::V6(a.address->0);
    if answers.len() > 0 {
        law_ipv6_addresses(answers.drop_last());
    }
    assert(ipv6_addresses(answers) =~= answers.filter(wanted).map_values(shown));
}

/// Of the answers to a query for IPv4 addresses the records of type 1 count
/// that hold an address, in their order.
pub proof fn law_ipv4_addresses(answers: Seq<Ipv4Answer>)
    ensures
        ipv4_addresses(answers) == answers.filter(
            |a: Ipv4Answer| a.record_type == 1 && a.address is Some,
        ).map_values(|a: Ipv4Answer| IpAddress::V4(a.address->0)),
    decreases answers.len(),
{
    reveal(Seq::filter);
    let wanted = |a: Ipv4Answer| a.record_type == 1 && a.address is Some;
    let shown = |a: Ipv4Answer| IpAddress::V4(a.address->0);
    if answers.len() > 0 {
        law_ipv4_addresses(answers.drop_last());
    }
    assert(ipv4_addresses(answers) =~= answers.filter(wanted).map_values(shown));
}

/// The bindings of answers are what their records of type 65 that can be read
/// say, in their order.
pub proof fn law_bindings_of_answers(answers: Seq<(u16, Seq<char>)>)
    ensures
        bindings_of(answers) == answers.filter(
            |a: (u16, Seq<char>)| a.0 == 65 && https_binding(a.1) is Ok,
        ).map_values(|a: (u16, Seq<char>)| https_binding(a.1)->Ok_0),
    decreases answers.len(),
{
    reveal(Seq::filter);
    let wanted = |a: (u16, Seq<char>)| a.0 == 65 && https_binding(a.1) is Ok;
    let shown = |a: (u16, Seq<char>)| https_binding(a.1)->Ok_0;
    if answers.len() > 0 {
        law_bindings_of_answers(answers.drop_last());
    }
    assert(bindings_of(answers) =~= answers.filter(wanted).map_values(shown));
}

/// Of several bindings the first with the smallest priority is preferred; of
/// none, one that says nothing.
pub proof fn law_preferred_binding(bindings: Seq<BindingModel>, i: int)
    ensures
        bindings.len() == 0 ==> {
            let b = preferred(bindings);
            b.priority == 0 && b.target_name is None && b.ech_config_list is None
                && b.ech_public_name is None
        },
        0 <= i < bindings.len() && (forall|j: int|
            0 <= j < bindings.len() ==> bindings[i].priority <= (#[trigger] bindings[j]).priority)
            && (forall|j: int| 0 <= j < i ==> bindings[i].priority < (
        #[trigger] bindings[j]).priority) ==> preferred(bindings) == bindings[i],
{
    if 0 <= i < bindings.len() && (forall|j: int|
        0 <= j < bindings.len() ==> bindings[i].priority <= (#[trigger] bindings[j]).priority) && (
    forall|j: int| 0 <= j < i ==> bindings[i].priority < (#[trigger] bindings[j]).priority) {
        assert(first_preferred(bindings, i));
        lemma_preferred_unique(bindings, i);
    }
}

/// The endpoints are asked one after another; after the last of them the last
/// error stands, and without any an error of its own.
pub proof fn law_endpoints_in_order(endpoints: nat, failures: Seq<Seq<char>>)
    ensures
        failures.len() < endpoints ==> next_endpoint(endpoints, failures) == Ok::<int, Seq<char>>(
            failures.len() as int,
        ),
        failures.len() >= endpoints && failures.len() > 0 ==> next_endpoint(endpoints, failures)
            == Err::<int, Seq<char>>(failures.last()),
        failures.len() == 0 && endpoints == 0 ==> next_endpoint(endpoints, failures) == Err::<
            int,
            Seq<char>,
        >("no DoH endpoint available"@),
{
}

/// The error of a reply names what was asked for, of whom, and the status.
pub proof fn law_status_errors(
    record_type: Seq<char>,
    host: Seq<char>,
    endpoint: Seq<char>,
    status: u32,
)
    ensures
        status_error(record_type, host, endpoint, status) == "DoH query "@ + record_type + " "@
            + host + " via "@ + endpoint + " returned status "@ + decimal(status as nat),
{
}

/// A connection to an endpoint may take ten seconds, and a query fifteen.
pub proof fn law_query_times()
    ensures
        DOH_CONNECT_TIME == 10_000,
        DOH_QUERY_TIME == 15_000,
{
}

} // verus!
