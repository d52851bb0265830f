//! Requests on their way through: the host that they are for, what becomes of
//! them, and the headers that are handed on.
use crate::config::{proxied, AppConfig, ConfigModel};
use crate::lines::{find, find_from, lemma_find_at};
use crate::number::{decimal, push_decimal};
use crate::outside::{
    first_value, header_entries, header_list, host_value, parse_url, url_scheme_and_port,
};
use crate::text::{
    followed_by, from_chars, lowercase, opt_text, same_text, to_ascii_lowercase, to_chars,
};
use vstd::prelude::*;
use vstd::slice::slice_to_vec;
use vstd::utf8::encode_utf8;

verus! {

// ---------------------------------------------------------------------------
// The host
// ---------------------------------------------------------------------------

/// Whether a byte is a visible ASCII character, a space or a tab.
pub open spec fn is_visible(b: u8) -> bool {
    32 <= b < 127 || b == 9
}

/// The text of a header value, where all of it is visible.
pub open spec fn visible_text(value: Seq<u8>) -> Option<Seq<char>> {
    if forall|i: int| 0 <= i < value.len() ==> is_visible(#[trigger] value[i]) {
        Some(value.map_values(|b: u8| b as char))
    } else {
        None
    }
}

/// Reads a header value as text.
pub fn header_text(value: &Vec<u8>) -> (r: Option<String>)
    ensures
        opt_text(r) == visible_text(value@),
{
    let mut text = String::new();
    assert(text@ =~= value@.take(0).map_values(|b: u8| b as char));
    for i in 0..value.len()
        invariant
            text@ == value@.take(i as int).map_values(|b: u8| b as char),
            forall|j: int| 0 <= j < i ==> is_visible(#[trigger] value@[j]),
    {
        let b = value[i];
        if !(b >= 32 && b < 127 || b == 9) {
            assert(!is_visible(value@[i as int]));
            return None;
        }
        text.push(b as char);
        assert(text@ =~= value@.take(i + 1).map_values(|b: u8| b as char));
    }
    assert(value@.take(value@.len() as int) =~= value@);
    Some(text)
}

/// The part of a `host` header in front of the port, in lower case.
pub open spec fn host_part(value: Seq<char>) -> Seq<char> {
    lowercase(value.take(find(value, ':') as int))
}

/// The host that a request is for: the one in its `host` header, or else the
/// first that is taken over.
pub open spec fn requested_host(
    entries: Seq<(Seq<char>, Seq<u8>)>,
    proxy_domains: Seq<Seq<char>>,
) -> Option<Seq<char>> {
    let named = match first_value(entries, "host"@) {
        Some(value) => visible_text(value),
        None => None,
    };
    match named {
        Some(text) => Some(host_part(text)),
        None => if proxy_domains.len() > 0 {
            Some(proxy_domains[0])
        } else {
            None
        },
    }
}

fn host_of(value: &str) -> (r: String)
    ensures
        r@ == host_part(value@),
{
    let chars = to_chars(value);
    let end = find_from(&chars, 0, ':');
    let host = from_chars(&chars, 0, end);
    assert(value@.subrange(0, value@.len() as int) =~= value@);
    assert(value@.subrange(0, end as int) =~= value@.take(end as int));
    to_ascii_lowercase(host.as_str())
}

/// Finds the host that a request is for.
pub fn extract_host(headers: &http::HeaderMap, config: &AppConfig) -> (r: Option<String>)
    ensures
        opt_text(r) == requested_host(header_entries(*headers), config@.proxy_domains),
{
    if let Some(value) = host_value(headers) {
        if let Some(text) = header_text(&value) {
            return Some(host_of(text.as_str()));
        }
    }
    if config.proxy_domains.len() > 0 {
        Some(config.proxy_domains[0].clone())
    } else {
        None
    }
}

// ---------------------------------------------------------------------------
// What becomes of a request
// ---------------------------------------------------------------------------

/// The text in front of an error of the upstream.
pub const UPSTREAM_FAILED: &'static str = "upstream request failed: ";

/// What becomes of a request.
#[derive(Debug)]
pub enum Route {
    /// It is handed on to this host.
    Forward(String),
    /// It is answered with this status and text.
    Refuse(u16, String),
}

/// What becomes of a request, with texts as sequences.
#[verifier::ext_equal]
pub enum RouteModel {
    Forward(Seq<char>),
    Refuse(u16, Seq<char>),
}

impl View for Route {
    type V = RouteModel;

    open spec fn view(&self) -> RouteModel {
        match *self {
            Route::Forward(host) => RouteModel::Forward(host@),
            Route::Refuse(status, text) => RouteModel::Refuse(status, text@),
        }
    }
}

/// What becomes of a request: it is handed on where its host is one of those
/// that are taken over.
pub open spec fn routed(entries: Seq<(Seq<char>, Seq<u8>)>, config: ConfigModel) -> RouteModel {
    match requested_host(entries, config.proxy_domains) {
        None => RouteModel::Refuse(400, "missing Host header"@),
        Some(host) => if proxied(config.proxy_domains, host) {
            RouteModel::Forward(host)
        } else {
            RouteModel::Refuse(502, "host is not managed by linuxdo-accelerator"@)
        },
    }
}

/// Decides what becomes of a request.
pub fn proxy_handler(headers: &http::HeaderMap, config: &AppConfig) -> (r: Route)
    ensures
        r@ == routed(header_entries(*headers), config@),
{
    match extract_host(headers, config) {
        None => Route::Refuse(400, "missing Host header".to_string()),
        Some(host) => if config.matches_proxy_host(host.as_str()) {
            Route::Forward(host)
        } else {
            Route::Refuse(502, "host is not managed by linuxdo-accelerator".to_string())
        },
    }
}

/// What a request is answered with where the upstream failed.
pub fn upstream_failure(error: &str) -> (r: Route)
    ensures
        r@ == RouteModel::Refuse(502, "upstream request failed: "@ + error@),
{
    Route::Refuse(502, followed_by(UPSTREAM_FAILED, error))
}

/// Only hosts that are taken over are ever forwarded to.
pub proof fn law_forwards_only_managed_hosts(
    entries: Seq<(Seq<char>, Seq<u8>)>,
    config: ConfigModel,
)
    ensures
        routed(entries, config) matches RouteModel::Forward(host) ==> proxied(
            config.proxy_domains,
            host,
        ),
{
}

/// The address that connections are waited for at.
pub fn listen_address(host: &str, port: u16) -> (r: String)
    ensures
        r@ == host@ + ":"@ + decimal(port as nat),
{
    let mut address = followed_by(host, ":");
    push_decimal(&mut address, port as u64);
    address
}

// ---------------------------------------------------------------------------
// The redirect from HTTP
// ---------------------------------------------------------------------------

/// Where a request over HTTP is sent: the same host and path over HTTPS, with
/// the port where it is not the usual one.
pub open spec fn redirected(host: Seq<char>, https_port: u16, path: Seq<char>) -> Seq<char> {
    "https://"@ + host + (if https_port == 443 {
        Seq::empty()
    } else {
        ":"@ + decimal(https_port as nat)
    }) + path
}

/// The answer that sends a request elsewhere.
#[derive(Debug)]
pub struct Redirect {
    pub status: u16,
    pub location: String,
    pub body: Vec<u8>,
}

/// The answer that sends a request elsewhere, as sequences.
#[verifier::ext_equal]
pub struct RedirectModel {
    pub status: u16,
    pub location: Seq<char>,
    pub body: Seq<u8>,
}

impl View for Redirect {
    type V = RedirectModel;

    open spec fn view(&self) -> RedirectModel {
        RedirectModel { status: self.status, location: self.location@, body: self.body@ }
    }
}

/// The answer to a request over HTTP: it is sent elsewhere for good, with
/// nothing else to say.
pub open spec fn redirect(
    entries: Seq<(Seq<char>, Seq<u8>)>,
    config: ConfigModel,
    path: Seq<char>,
) -> RedirectModel {
    let host = match requested_host(entries, config.proxy_domains) {
        Some(host) => host,
        None => config.server_common_name,
    };
    RedirectModel {
        status: 301,
        location: redirected(host, config.https_port, path),
        body: Seq::empty(),
    }
}

/// Answers a request over HTTP, which is for the given path, if it names one.
pub fn redirect_handler(
    headers: &http::HeaderMap,
    config: &AppConfig,
    path_and_query: Option<&str>,
) -> (r: Redirect)
    ensures
        r@ == redirect(header_entries(*headers), config@, path_or_root(path_and_query)),
{
    let host = match extract_host(headers, config) {
        Some(host) => host,
        None => config.server_common_name.clone(),
    };
    let mut location = followed_by("https://", host.as_str());
    let ghost start = location@;
    if config.https_port != 443 {
        location.append(":");
        push_decimal(&mut location, config.https_port as u64);
    }
    assert(location@ =~= start + (if config@.https_port == 443 {
        Seq::empty()
    } else {
        ":"@ + decimal(config@.https_port as nat)
    }));
    location.append(request_path(path_and_query));
    let r = Redirect { status: 301, location, body: Vec::new() };
    assert(r.body@ =~= Seq::<u8>::empty());
    r
}

/// The path of a request, or the root where it has none.
pub open spec fn path_or_root(path_and_query: Option<&str>) -> Seq<char> {
    match path_and_query {
        Some(path) => path@,
        None => "/"@,
    }
}

/// The path of a request, or the root where it has none.
pub fn request_path(path_and_query: Option<&str>) -> (r: &str)
    ensures
        r@ == path_or_root(path_and_query),
{
    match path_and_query {
        Some(path) => path,
        None => "/",
    }
}

// ---------------------------------------------------------------------------
// Where the upstream is
// ---------------------------------------------------------------------------

/// The scheme and the port of the upstream, or why there are none.
pub open spec fn upstream_of(
    upstream: Seq<char>,
    parsed: Result<(Seq<char>, Option<u16>), Seq<char>>,
) -> Result<(Seq<char>, u16), Seq<char>> {
    match parsed {
        Err(error) => Err("failed to parse upstream URL "@ + upstream + ": "@ + error),
        Ok((scheme, Some(port))) => Ok((scheme, port)),
        Ok((_, None)) => Err("upstream URL is missing port"@),
    }
}

/// The scheme and the port of the upstream, given what parsing its URL gave.
pub fn upstream_from_url(upstream: &str, parsed: Result<(String, Option<u16>), String>) -> (r:
    Result<(String, u16), String>)
    ensures
        match r {
            Ok((scheme, port)) => upstream_of(upstream@, url_model(parsed)) == Ok::<
                (Seq<char>, u16),
                Seq<char>,
            >((scheme@, port)),
            Err(e) => upstream_of(upstream@, url_model(parsed)) == Err::<
                (Seq<char>, u16),
                Seq<char>,
            >(e@),
        },
{
    match parsed {
        Err(error) => {
            let mut message = followed_by("failed to parse upstream URL ", upstream);
            message.append(": ");
            message.append(error.as_str());
            Err(message)
        },
        Ok((scheme, Some(port))) => Ok((scheme, port)),
        Ok((_, None)) => Err("upstream URL is missing port".to_string()),
    }
}

/// What parsing a URL gave, with texts as sequences.
pub open spec fn url_model(parsed: Result<(String, Option<u16>), String>) -> Result<
    (Seq<char>, Option<u16>),
    Seq<char>,
> {
    match parsed {
        Ok((scheme, port)) => Ok((scheme@, port)),
        Err(error) => Err(error@),
    }
}

/// Finds the scheme and the port of the configured upstream.
pub fn upstream_target(config: &AppConfig) -> (r: Result<(String, u16), String>)
    ensures
        match r {
            Ok((scheme, port)) => upstream_of(
                config@.upstream,
                url_scheme_and_port(config@.upstream),
            ) == Ok::<(Seq<char>, u16), Seq<char>>((scheme@, port)),
            Err(e) => upstream_of(config@.upstream, url_scheme_and_port(config@.upstream))
                == Err::<(Seq<char>, u16), Seq<char>>(e@),
        },
{
    let parsed = parse_url(config.upstream.as_str());
    upstream_from_url(config.upstream.as_str(), parsed)
}

// ---------------------------------------------------------------------------
// Headers
// ---------------------------------------------------------------------------

/// One header: its name and its value.
#[derive(Debug)]
pub struct Header {
    pub name: String,
    pub value: Vec<u8>,
}

/// The names and values of headers.
pub open spec fn header_models(headers: Seq<Header>) -> Seq<(Seq<char>, Seq<u8>)> {
    headers.map_values(|h: Header| (h.name@, h.value@))
}

/// Whether a header speaks of the connection that a response came over, and
/// not of the response.
pub open spec fn response_hop(name: Seq<char>) -> bool {
    let n = lowercase(name);
    ||| n == "connection"@
    ||| n == "keep-alive"@
    ||| n == "proxy-authenticate"@
    ||| n == "proxy-authorization"@
    ||| n == "te"@
    ||| n == "trailers"@
    ||| n == "transfer-encoding"@
    ||| n == "upgrade"@
}

/// Whether a header of a request is not handed on: those that speak of the
/// connection, and the host, which is set anew.
pub open spec fn request_hop(name: Seq<char>) -> bool {
    response_hop(name) || lowercase(name) == "host"@ || lowercase(name) == "proxy-connection"@
}

/// Whether a header of a response is not handed on.
pub fn should_skip_response_header(header_name: &str) -> (r: bool)
    ensures
        r == response_hop(header_name@),
{
    let lower = to_ascii_lowercase(header_name);
    let n = lower.as_str();
    same_text(n, "connection") || same_text(n, "keep-alive") || same_text(n, "proxy-authenticate")
        || same_text(n, "proxy-authorization") || same_text(n, "te") || same_text(n, "trailers")
        || same_text(n, "transfer-encoding") || same_text(n, "upgrade")
}

/// Whether a header of a request is not handed on.
pub fn should_skip_request_header(header_name: &str) -> (r: bool)
    ensures
        r == request_hop(header_name@),
{
    let lower = to_ascii_lowercase(header_name);
    let n = lower.as_str();
    should_skip_response_header(header_name) || same_text(n, "host") || same_text(
        n,
        "proxy-connection",
    )
}

/// The headers of a response that are handed on.
pub open spec fn response_kept(entries: Seq<(Seq<char>, Seq<u8>)>) -> Seq<(Seq<char>, Seq<u8>)> {
    entries.filter(|h: (Seq<char>, Seq<u8>)| !response_hop(h.0))
}

/// The headers of a request that are handed on.
pub open spec fn request_kept(entries: Seq<(Seq<char>, Seq<u8>)>) -> Seq<(Seq<char>, Seq<u8>)> {
    entries.filter(|h: (Seq<char>, Seq<u8>)| !request_hop(h.0))
}

fn keep_headers(headers: &http::HeaderMap, for_request: bool) -> (r: Vec<Header>)
    ensures
        header_models(r@) == if for_request {
            request_kept(header_entries(*headers))
        } else {
            response_kept(header_entries(*headers))
        },
{
    let list = header_list(headers);
    let ghost all = header_entries(*headers);
    let ghost wanted = |h: (Seq<char>, Seq<u8>)|
        if for_request {
            !request_hop(h.0)
        } else {
            !response_hop(h.0)
        };
    let mut kept: Vec<Header> = Vec::new();
    assert(list@.len() == all.len());
    assert(all.take(0) =~= Seq::<(Seq<char>, Seq<u8>)>::empty());
    assert(header_models(kept@) =~= Seq::<(Seq<char>, Seq<u8>)>::empty());
    reveal(Seq::filter);
    for i in 0..list.len()
        invariant
            list@.map_values(|h: (String, Vec<u8>)| (h.0@, h.1@)) == all,
            wanted == (|h: (Seq<char>, Seq<u8>)|
                if for_request {
                    !request_hop(h.0)
                } else {
                    !response_hop(h.0)
                }),
            header_models(kept@) == all.take(i as int).filter(wanted),
    {
        proof {
            reveal(Seq::filter);
            assert(all[i as int] == (list@[i as int].0@, list@[i as int].1@));
            assert(all.take(i + 1).drop_last() =~= all.take(i as int));
        }
        let name = list[i].0.as_str();
        let skip = if for_request {
            should_skip_request_header(name)
        } else {
            should_skip_response_header(name)
        };
        if !skip {
            let ghost before = header_models(kept@);
            let value = list[i].1.clone();
            assert(value@ =~= list@[i as int].1@);
            kept.push(Header { name: list[i].0.clone(), value });
            assert(header_models(kept@) =~= before.push(all[i as int]));
        }
    }
    proof {
        assert(all.take(all.len() as int) =~= all);
        if for_request {
            assert(wanted =~= (|h: (Seq<char>, Seq<u8>)| !request_hop(h.0)));
        } else {
            assert(wanted =~= (|h: (Seq<char>, Seq<u8>)| !response_hop(h.0)));
        }
    }
    kept
}

/// The headers that a response is handed on with.
pub fn response_headers(headers: &http::HeaderMap) -> (r: Vec<Header>)
    ensures
        header_models(r@) == response_kept(header_entries(*headers)),
{
    keep_headers(headers, false)
}

/// Whether a byte may stand in a header value.
pub open spec fn is_header_byte(b: u8) -> bool {
    (b >= 32 && b != 127) || b == 9
}

/// Whether bytes may be a header value.
pub open spec fn valid_header_value(value: Seq<u8>) -> bool {
    forall|i: int| 0 <= i < value.len() ==> is_header_byte(#[trigger] value[i])
}

fn may_be_header_value(value: &Vec<u8>) -> (r: bool)
    ensures
        r == valid_header_value(value@),
{
    for i in 0..value.len()
        invariant
            forall|j: int| 0 <= j < i ==> is_header_byte(#[trigger] value@[j]),
    {
        let b = value[i];
        if !((b >= 32 && b != 127) || b == 9) {
            assert(!is_header_byte(value@[i as int]));
            return false;
        }
    }
    true
}

/// The error where the host of a request cannot stand in its header.
pub const BAD_HOST: &'static str =
    "failed to build upstream request: failed to parse header value";

/// The headers that a request is handed on with: those that are kept, and
/// the host that it goes to.
pub open spec fn forwarded(entries: Seq<(Seq<char>, Seq<u8>)>, host: Seq<char>) -> Seq<
    (Seq<char>, Seq<u8>),
> {
    request_kept(entries).push(("host"@, encode_utf8(host)))
}

/// The headers that a request is handed on with, unless its host cannot stand
/// in one.
pub fn build_upstream_request(request_host: &str, headers: &http::HeaderMap) -> (r: Result<
    Vec<Header>,
    String,
>)
    ensures
        match r {
            Ok(kept) => valid_header_value(encode_utf8(request_host@)) && header_models(kept@)
                == forwarded(header_entries(*headers), request_host@),
            Err(e) => !valid_header_value(encode_utf8(request_host@)) && e@
                == "failed to build upstream request: failed to parse header value"@,
        },
{
    let value = slice_to_vec(request_host.as_bytes());
    if !may_be_header_value(&value) {
        return Err(BAD_HOST.to_string());
    }
    let mut kept = keep_headers(headers, true);
    let ghost before = header_models(kept@);
    let ghost last = ("host"@, value@);
    kept.push(Header { name: "host".to_string(), value });
    assert(header_models(kept@) =~= before.push(last));
    Ok(kept)
}

/// A request is handed on with exactly one `host` header, which names the
/// host that it goes to.
pub proof fn law_one_host_header(entries: Seq<(Seq<char>, Seq<u8>)>, host: Seq<char>, i: int)
    requires
        0 <= i < forwarded(entries, host).len(),
    ensures
        lowercase(forwarded(entries, host)[i].0) == "host"@ <==> i == forwarded(entries, host).len()
            - 1,
        forwarded(entries, host).last().1 == encode_utf8(host),
{
    let kept = request_kept(entries);
    let wanted = |h: (Seq<char>, Seq<u8>)| !request_hop(h.0);
    if i < kept.len() {
        entries.lemma_filter_pred(wanted, i);
    } else {
        reveal_strlit("host");
        assert(lowercase("host"@) =~= "host"@);
    }
}

/// Of the headers of a request exactly those are handed on that neither speak
/// of the connection nor name the host.
pub proof fn law_request_headers_kept(entries: Seq<(Seq<char>, Seq<u8>)>, header: (
    Seq<char>,
    Seq<u8>,
))
    ensures
        request_kept(entries).contains(header) <==> entries.contains(header) && !request_hop(
            header.0,
        ),
{
    let wanted = |h: (Seq<char>, Seq<u8>)| !request_hop(h.0);
    if request_kept(entries).contains(header) {
        let k = choose|k: int|
            0 <= k < request_kept(entries).len() && request_kept(entries)[k] == header;
        entries.lemma_filter_pred(wanted, k);
        entries.lemma_filter_contains_rev(wanted, header);
    }
    if entries.contains(header) && !request_hop(header.0) {
        let k = choose|k: int| 0 <= k < entries.len() && entries[k] == header;
        entries.lemma_filter_contains(wanted, k);
    }
}

/// No header that speaks of a connection is handed on, and every other header
/// of a response is, with its value.
pub proof fn law_response_headers_kept(entries: Seq<(Seq<char>, Seq<u8>)>, header: (
    Seq<char>,
    Seq<u8>,
))
    ensures
        response_kept(entries).contains(header) <==> entries.contains(header) && !response_hop(
            header.0,
        ),
{
    let wanted = |h: (Seq<char>, Seq<u8>)| !response_hop(h.0);
    if response_kept(entries).contains(header) {
        let k = choose|k: int|
            0 <= k < response_kept(entries).len() && response_kept(entries)[k] == header;
        entries.lemma_filter_pred(wanted, k);
        entries.lemma_filter_contains_rev(wanted, header);
    }
    if entries.contains(header) && !response_hop(header.0) {
        let k = choose|k: int| 0 <= k < entries.len() && entries[k] == header;
        entries.lemma_filter_contains(wanted, k);
    }
}

/// A header is left out of a response exactly where its name, in lower case,
/// is one of eight; all others are handed on with their values, in their
/// order.
pub proof fn law_response_headers_left_out(entries: Seq<(Seq<char>, Seq<u8>)>, name: Seq<char>)
    ensures
        response_hop(name) <==> {
            ||| lowercase(name) == "connection"@
            ||| lowercase(name) == "keep-alive"@
            ||| lowercase(name) == "proxy-authenticate"@
            ||| lowercase(name) == "proxy-authorization"@
            ||| lowercase(name) == "te"@
            ||| lowercase(name) == "trailers"@
            ||| lowercase(name) == "transfer-encoding"@
            ||| lowercase(name) == "upgrade"@
        },
        response_kept(entries) == entries.filter(
            |h: (Seq<char>, Seq<u8>)|
                {
                    &&& lowercase(h.0) != "connection"@
                    &&& lowercase(h.0) != "keep-alive"@
                    &&& lowercase(h.0) != "proxy-authenticate"@
                    &&& lowercase(h.0) != "proxy-authorization"@
                    &&& lowercase(h.0) != "te"@
                    &&& lowercase(h.0) != "trailers"@
                    &&& lowercase(h.0) != "transfer-encoding"@
                    &&& lowercase(h.0) != "upgrade"@
                },
        ),
{
    let kept = |h: (Seq<char>, Seq<u8>)| !response_hop(h.0);
    assert(kept =~= (|h: (Seq<char>, Seq<u8>)|
        {
            &&& lowercase(h.0) != "connection"@
            &&& lowercase(h.0) != "keep-alive"@
            &&& lowercase(h.0) != "proxy-authenticate"@
            &&& lowercase(h.0) != "proxy-authorization"@
            &&& lowercase(h.0) != "te"@
            &&& lowercase(h.0) != "trailers"@
            &&& lowercase(h.0) != "transfer-encoding"@
            &&& lowercase(h.0) != "upgrade"@
        }));
}

/// A header is left out of a request exactly where its name, in lower case, is
/// one of ten; all others are handed on with their values, in their order, and
/// behind them the name of the host that the request goes to.
pub proof fn law_request_headers_left_out(
    entries: Seq<(Seq<char>, Seq<u8>)>,
    host: Seq<char>,
    name: Seq<char>,
)
    ensures
        request_hop(name) <==> {
            ||| lowercase(name) == "connection"@
            ||| lowercase(name) == "keep-alive"@
            ||| lowercase(name) == "proxy-authenticate"@
            ||| lowercase(name) == "proxy-authorization"@
            ||| lowercase(name) == "te"@
            ||| lowercase(name) == "trailers"@
            ||| lowercase(name) == "transfer-encoding"@
            ||| lowercase(name) == "upgrade"@
            ||| lowercase(name) == "host"@
            ||| lowercase(name) == "proxy-connection"@
        },
        forwarded(entries, host) == entries.filter(
            |h: (Seq<char>, Seq<u8>)|
                {
                    &&& lowercase(h.0) != "connection"@
                    &&& lowercase(h.0) != "keep-alive"@
                    &&& lowercase(h.0) != "proxy-authenticate"@
                    &&& lowercase(h.0) != "proxy-authorization"@
                    &&& lowercase(h.0) != "te"@
                    &&& lowercase(h.0) != "trailers"@
                    &&& lowercase(h.0) != "transfer-encoding"@
                    &&& lowercase(h.0) != "upgrade"@
                    &&& lowercase(h.0) != "host"@
                    &&& lowercase(h.0) != "proxy-connection"@
                },
        ) + seq![("host"@, encode_utf8(host))],
{
    let kept = |h: (Seq<char>, Seq<u8>)| !request_hop(h.0);
    assert(kept =~= (|h: (Seq<char>, Seq<u8>)|
        {
            &&& lowercase(h.0) != "connection"@
            &&& lowercase(h.0) != "keep-alive"@
            &&& lowercase(h.0) != "proxy-authenticate"@
            &&& lowercase(h.0) != "proxy-authorization"@
            &&& lowercase(h.0) != "te"@
            &&& lowercase(h.0) != "trailers"@
            &&& lowercase(h.0) != "transfer-encoding"@
            &&& lowercase(h.0) != "upgrade"@
            &&& lowercase(h.0) != "host"@
            &&& lowercase(h.0) != "proxy-connection"@
        }));
    assert(forwarded(entries, host) =~= entries.filter(kept) + seq![("host"@, encode_utf8(host))]);
}

proof fn lemma_first_value(entries: Seq<(Seq<char>, Seq<u8>)>, name: Seq<char>, i: int)
    requires
        0 <= i <= entries.len(),
        forall|j: int| 0 <= j < i ==> (#[trigger] entries[j]).0 != name,
        i < entries.len() ==> entries[i].0 == name,
    ensures
        first_value(entries, name) == if i < entries.len() {
            Some(entries[i].1)
        } else {
            None
        },
    decreases entries.len(),
{
    if i > 0 {
        let rest = entries.skip(1);
        assert forall|j: int| 0 <= j < i - 1 implies (#[trigger] rest[j]).0 != name by {
            assert(rest[j] == entries[j + 1]);
        }
        assert(entries[0].0 != name);
        lemma_first_value(rest, name, i - 1);
    }
}

/// A request is for the host in its first `host` header, up to a colon, in
/// lower case, whatever hosts are taken over.
pub proof fn law_host_header_names_the_host(
    entries: Seq<(Seq<char>, Seq<u8>)>,
    domains: Seq<Seq<char>>,
    i: int,
    host: Seq<char>,
    rest: Seq<char>,
)
    requires
        0 <= i < entries.len(),
        entries[i].0 == "host"@,
        forall|j: int| 0 <= j < i ==> (#[trigger] entries[j]).0 != "host"@,
        entries[i].1.len() == (host + rest).len(),
        forall|k: int|
            0 <= k < entries[i].1.len() ==> (#[trigger] entries[i].1[k]) as char == (host + rest)[k]
                && (32 <= entries[i].1[k] < 127 || entries[i].1[k] == 9),
        !host.contains(':'),
        rest.len() > 0 ==> rest[0] == ':',
    ensures
        requested_host(entries, domains) == Some(lowercase(host)),
{
    lemma_first_value(entries, "host"@, i);
    let value = entries[i].1;
    let text = host + rest;
    assert(value.map_values(|b: u8| b as char) =~= text);
    assert(visible_text(value) == Some(text));
    assert forall|k: int| 0 <= k < host.len() implies #[trigger] text[k] != ':' by {
        assert(host[k] == text[k]);
    }
    lemma_find_at(text, ':', host.len() as int);
    assert(text.take(host.len() as int) =~= host);
}

/// A request whose `host` header is missing, or holds a byte that is neither a
/// visible character nor a space or a tab, is for the first of the hosts that
/// are taken over, and for none where there are none.
pub proof fn law_host_without_header(
    entries: Seq<(Seq<char>, Seq<u8>)>,
    domains: Seq<Seq<char>>,
    i: int,
    k: int,
)
    requires
        0 <= i <= entries.len(),
        forall|j: int| 0 <= j < i ==> (#[trigger] entries[j]).0 != "host"@,
        i < entries.len() ==> entries[i].0 == "host"@ && 0 <= k < entries[i].1.len() && !(32
            <= entries[i].1[k] < 127 || entries[i].1[k] == 9),
    ensures
        domains.len() > 0 ==> requested_host(entries, domains) == Some(domains[0]),
        domains.len() == 0 ==> requested_host(entries, domains) is None,
{
    lemma_first_value(entries, "host"@, i);
    if i < entries.len() {
        assert(!is_visible(entries[i].1[k]));
    }
}

/// A request is handed on to the host that it is for where that is taken over,
/// and is otherwise answered with status 502, or 400 where it is for none.
pub proof fn law_routes(entries: Seq<(Seq<char>, Seq<u8>)>, config: ConfigModel, host: Seq<char>)
    ensures
        requested_host(entries, config.proxy_domains) == Some(host) && proxied(
            config.proxy_domains,
            host,
        ) ==> routed(entries, config) == RouteModel::Forward(host),
        requested_host(entries, config.proxy_domains) == Some(host) && !proxied(
            config.proxy_domains,
            host,
        ) ==> routed(entries, config) == RouteModel::Refuse(
            502,
            "host is not managed by linuxdo-accelerator"@,
        ),
        requested_host(entries, config.proxy_domains) is None ==> routed(entries, config)
            == RouteModel::Refuse(400, "missing Host header"@),
{
}

/// A request over HTTP is sent, with status 301 and no body, to the same host
/// and path over HTTPS; the port stands behind the host unless it is 443. A
/// request for no host is sent to the one that the certificate is for.
pub proof fn law_redirect_goes_to_the_same_place(
    entries: Seq<(Seq<char>, Seq<u8>)>,
    config: ConfigModel,
    path: Seq<char>,
    host: Seq<char>,
)
    requires
        requested_host(entries, config.proxy_domains) == Some(host) || (requested_host(
            entries,
            config.proxy_domains,
        ) is None && host == config.server_common_name),
    ensures
        ({
            let answer = redirect(entries, config, path);
            &&& answer.status == 301
            &&& answer.body.len() == 0
            &&& config.https_port == 443 ==> answer.location == "https://"@ + host + path
            &&& config.https_port != 443 ==> answer.location == "https://"@ + host + ":"@ + decimal(
                config.https_port as nat,
            ) + path
        }),
{
    let location = redirect(entries, config, path).location;
    if config.https_port == 443 {
        assert(location =~= "https://"@ + host + path);
    } else {
        assert(location =~= "https://"@ + host + ":"@ + decimal(config.https_port as nat) + path);
    }
}

/// The upstream has the scheme and the port of its URL; it is an error where
/// the URL cannot be read or has no port.
pub proof fn law_upstream_is_that_of_its_url(
    upstream: Seq<char>,
    parsed: Result<(Seq<char>, Option<u16>), Seq<char>>,
)
    ensures
        parsed matches Ok((scheme, Some(port))) ==> upstream_of(upstream, parsed) == Ok::<
            (Seq<char>, u16),
            Seq<char>,
        >((scheme, port)),
        parsed matches Ok((_, None)) ==> upstream_of(upstream, parsed) == Err::<
            (Seq<char>, u16),
            Seq<char>,
        >("upstream URL is missing port"@),
        parsed matches Err(e) ==> upstream_of(upstream, parsed) == Err::<
            (Seq<char>, u16),
            Seq<char>,
        >("failed to parse upstream URL "@ + upstream + ": "@ + e),
{
}

/// A header value holds no control character but the tab, and may hold any
/// other byte.
pub proof fn law_header_values(value: Seq<u8>)
    ensures
        valid_header_value(value) <==> forall|i: int|
            0 <= i < value.len() ==> #[trigger] value[i] == 9 || (value[i] >= 32 && value[i]
                != 127),
{
    if valid_header_value(value) {
        assert forall|i: int| 0 <= i < value.len() implies #[trigger] value[i] == 9 || (value[i]
            >= 32 && value[i] != 127) by {
            assert(is_header_byte(value[i]));
        }
    }
}

/// A header value is read as text exactly where each of its bytes is a visible
/// character, a space or a tab, and each of them is a character of the text.
pub proof fn law_header_text(value: Seq<u8>, text: Seq<char>)
    ensures
        visible_text(value) == Some(text) <==> text.len() == value.len() && forall|i: int|
            0 <= i < value.len() ==> (32 <= #[trigger] value[i] < 127 || value[i] == 9) && text[i]
                == value[i] as char,
{
    let read = value.map_values(|b: u8| b as char);
    if visible_text(value) == Some(text) {
        assert forall|i: int| 0 <= i < value.len() implies (32 <= #[trigger] value[i] < 127
            || value[i] == 9) && text[i] == value[i] as char by {
            assert(is_visible(value[i]));
        }
    }
    if text.len() == value.len() && forall|i: int|
        0 <= i < value.len() ==> (32 <= #[trigger] value[i] < 127 || value[i] == 9) && text[i]
            == value[i] as char {
        assert(read =~= text);
    }
}

/// A request without a path is for the root.
pub proof fn law_request_path(path: &str)
    ensures
        path_or_root(Some(path)) == path@,
        path_or_root(None) == "/"@,
{
}

/// What is said of headers, of an answer and of a URL is what they are.
pub proof fn law_answers_as_they_are(
    headers: Seq<Header>,
    i: int,
    redirect: Redirect,
    text: String,
    status: u16,
    port: Option<u16>,
)
    requires
        0 <= i < headers.len(),
    ensures
        header_models(headers).len() == headers.len(),
        header_models(headers)[i] == (headers[i].name@, headers[i].value@),
        redirect@.status == redirect.status,
        redirect@.location == redirect.location@,
        redirect@.body == redirect.body@,
        Route::Forward(text)@ == RouteModel::Forward(text@),
        Route::Refuse(status, text)@ == RouteModel::Refuse(status, text@),
        url_model(Ok((text, port))) == Ok::<(Seq<char>, Option<u16>), Seq<char>>((text@, port)),
        url_model(Err(text)) == Err::<(Seq<char>, Option<u16>), Seq<char>>(text@),
{
}

} // verus!
