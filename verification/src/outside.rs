//! The calls into code that is not verified here, each behind a contract.
use crate::pem::{certificates_model, key_model, KeyKind};
use vstd::prelude::*;
use vstd::utf8::{decode_utf8, valid_utf8};

verus! {

/// `std::str::from_utf8`: bytes are accepted exactly where they are valid
/// UTF-8, and what comes back is the text that they encode.
#[verifier::external_body]
pub(crate) fn from_utf8(bytes: &[u8]) -> (r: Option<String>)
    ensures
        r is Some <==> valid_utf8(bytes@),
        r matches Some(s) ==> s@ == decode_utf8(bytes@),
{
    match std::str::from_utf8(bytes) {
        Ok(s) => Some(s.to_string()),
        Err(_) => None,
    }
}

/// Whether rustls finds, in an ECH configuration list, a configuration that
/// it can use with the suites of its aws-lc-rs provider.
pub uninterp spec fn ech_accepted(list: Seq<u8>) -> bool;

/// `rustls::client::EchConfig::new` with all HPKE suites of the aws-lc-rs
/// provider: whether it returns a configuration depends on the bytes of the
/// list alone.
#[verifier::external_body]
pub(crate) fn ech_config_usable(list: &Vec<u8>) -> (r: bool)
    ensures
        r == ech_accepted(list@),
{
    rustls::client::EchConfig::new(
        rustls::pki_types::EchConfigListBytes::from(list.as_slice()),
        rustls::crypto::aws_lc_rs::hpke::ALL_SUPPORTED_SUITES,
    )
    .is_ok()
}

/// The header map of the http crate.
#[verifier::external_type_specification]
#[verifier::external_body]
#[verifier::reject_recursive_types(T)]
pub struct ExHeaderMap<T>(http::HeaderMap<T>);

/// The header values of the http crate.
#[verifier::external_type_specification]
#[verifier::external_body]
pub struct ExHeaderValue(http::HeaderValue);

/// The names and values in a header map, in the order in which it is walked.
pub uninterp spec fn header_entries(map: http::HeaderMap<http::HeaderValue>) -> Seq<
    (Seq<char>, Seq<u8>),
>;

/// The first value that stands beside a name.
pub open spec fn first_value(entries: Seq<(Seq<char>, Seq<u8>)>, name: Seq<char>) -> Option<Seq<u8>>
    decreases entries.len(),
{
    if entries.len() == 0 {
        None
    } else if entries[0].0 == name {
        Some(entries[0].1)
    } else {
        first_value(entries.skip(1), name)
    }
}

/// `http::HeaderMap::get` for the `host` header: the first of its values, if
/// it has any.
#[verifier::external_body]
pub(crate) fn host_value(map: &http::HeaderMap) -> (r: Option<Vec<u8>>)
    ensures
        match r {
            Some(value) => first_value(header_entries(*map), "host"@) == Some(value@),
            None => first_value(header_entries(*map), "host"@) is None,
        },
{
    map.get(http::header::HOST).map(|value| value.as_bytes().to_vec())
}

/// `http::HeaderMap::iter`: every name with every value, in order.
#[verifier::external_body]
pub(crate) fn header_list(map: &http::HeaderMap) -> (r: Vec<(String, Vec<u8>)>)
    ensures
        r@.map_values(|h: (String, Vec<u8>)| (h.0@, h.1@)) == header_entries(*map),
{
    map.iter().map(|(name, value)| (name.as_str().to_string(), value.as_bytes().to_vec())).collect()
}

/// What parsing a URL gives: its scheme and its port, or the default port of
/// the scheme, or why the text is no URL.
pub uninterp spec fn url_scheme_and_port(url: Seq<char>) -> Result<
    (Seq<char>, Option<u16>),
    Seq<char>,
>;

/// `reqwest::Url::parse`, with `scheme` and `port_or_known_default` of what
/// it returns: they depend on the text alone.
#[verifier::external_body]
pub(crate) fn parse_url(url: &str) -> (r: Result<(String, Option<u16>), String>)
    ensures
        match r {
            Ok((scheme, port)) => url_scheme_and_port(url@) == Ok::<
                (Seq<char>, Option<u16>),
                Seq<char>,
            >((scheme@, port)),
            Err(error) => url_scheme_and_port(url@) == Err::<(Seq<char>, Option<u16>), Seq<char>>(
                error@,
            ),
        },
{
    match reqwest::Url::parse(url) {
        Ok(parsed) => Ok((parsed.scheme().to_string(), parsed.port_or_known_default())),
        Err(error) => Err(error.to_string()),
    }
}

/// Whether a text can be the name of a TLS server: a domain name or an
/// address.
pub uninterp spec fn valid_server_name(name: Seq<char>) -> bool;

/// `rustls::pki_types::ServerName::try_from`: whether it takes a text depends
/// on the text alone.
#[verifier::external_body]
pub(crate) fn server_name_accepted(name: &str) -> (r: bool)
    ensures
        r == valid_server_name(name@),
{
    rustls::pki_types::ServerName::try_from(name.to_string()).is_ok()
}

/// The HTTP status codes that a front domain answers with where it does not
/// serve the host behind it.
pub open spec fn is_front_refusal(code: u16) -> bool {
    code == 400 || code == 403 || code == 421 || code == 431
}

/// A status code of `is_front_refusal` in words.
pub open spec fn front_refusal_text(code: u16) -> Seq<char> {
    if code == 400 {
        "400 Bad Request"@
    } else if code == 403 {
        "403 Forbidden"@
    } else if code == 421 {
        "421 Misdirected Request"@
    } else {
        "431 Request Header Fields Too Large"@
    }
}

/// `http::StatusCode` as text: the number and the canonical reason, for the
/// codes that are asked for here.
#[verifier::external_body]
pub(crate) fn status_text(code: u16) -> (r: String)
    requires
        is_front_refusal(code),
    ensures
        r@ == front_refusal_text(code),
{
    match http::StatusCode::from_u16(code) {
        Ok(status) => status.to_string(),
        Err(error) => error.to_string(),
    }
}

/// The certificates in a PEM text, in order, or what is wrong with the text
/// up to the end of the first section that cannot be read.
pub uninterp spec fn pem_certificates(pem: Seq<u8>) -> Result<Seq<Seq<u8>>, Seq<char>>;

/// `rustls_pemfile::certs`, collected up to its first error: the certificates
/// and the text of the error depend on the bytes alone.
#[verifier::external_body]
pub(crate) fn parse_certificates(pem: &[u8]) -> (r: Result<Vec<Vec<u8>>, String>)
    ensures
        certificates_model(r) == pem_certificates(pem@),
{
    rustls_pemfile::certs(&mut &pem[..])
        .map(|found| found.map(|certificate| certificate.as_ref().to_vec()))
        .collect::<Result<Vec<Vec<u8>>, std::io::Error>>()
        .map_err(|error| error.to_string())
}

/// The first private key in a PEM text, if there is one, or what is wrong
/// with the text before it.
pub uninterp spec fn pem_private_key(pem: Seq<u8>) -> Result<
    Option<(KeyKind, Seq<u8>)>,
    Seq<char>,
>;

/// `rustls_pemfile::private_key`: the key, its kind and the text of the error
/// depend on the bytes alone. It returns keys of the three kinds only; the
/// arm for others is there because their type is open to more.
#[verifier::external_body]
pub(crate) fn parse_private_key(pem: &[u8]) -> (r: Result<Option<(KeyKind, Vec<u8>)>, String>)
    ensures
        key_model(r) == pem_private_key(pem@),
{
    match rustls_pemfile::private_key(&mut &pem[..]) {
        Ok(Some(rustls::pki_types::PrivateKeyDer::Pkcs1(key))) => {
            Ok(Some((KeyKind::Pkcs1, key.secret_pkcs1_der().to_vec())))
        },
        Ok(Some(rustls::pki_types::PrivateKeyDer::Pkcs8(key))) => {
            Ok(Some((KeyKind::Pkcs8, key.secret_pkcs8_der().to_vec())))
        },
        Ok(Some(rustls::pki_types::PrivateKeyDer::Sec1(key))) => {
            Ok(Some((KeyKind::Sec1, key.secret_sec1_der().to_vec())))
        },
        Ok(_) => Ok(None),
        Err(error) => Err(error.to_string()),
    }
}

} // verus!
