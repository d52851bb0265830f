//! The certificates and the key that the proxy serves with, out of the text
//! that they are kept in.
use crate::outside::{parse_certificates, parse_private_key, pem_certificates, pem_private_key};
use crate::text::{followed_by, opt_text};
use vstd::prelude::*;

verus! {

/// How a private key is encoded.
#[derive(Debug, Clone, Copy, PartialEq, Eq, Structural)]
pub enum KeyKind {
    Pkcs1,
    Pkcs8,
    Sec1,
}

/// Why the proxy has nothing to serve with.
#[derive(Debug)]
pub enum CertificateError {
    /// The certificates cannot be read, for this reason.
    Chain(String),
    /// The key cannot be read, for this reason.
    Key(String),
    /// There is no key in this file.
    NoKey(String),
}

/// Why the proxy has nothing to serve with, with texts as sequences.
#[verifier::ext_equal]
pub enum CertificateFault {
    Chain(Seq<char>),
    Key(Seq<char>),
    NoKey(Seq<char>),
}

impl View for CertificateError {
    type V = CertificateFault;

    open spec fn view(&self) -> CertificateFault {
        match *self {
            CertificateError::Chain(why) => CertificateFault::Chain(why@),
            CertificateError::Key(why) => CertificateFault::Key(why@),
            CertificateError::NoKey(path) => CertificateFault::NoKey(path@),
        }
    }
}

impl CertificateFault {
    /// The error in words.
    pub open spec fn words(self) -> Seq<char> {
        match self {
            CertificateFault::Chain(_) => "failed to load certificate chain"@,
            CertificateFault::Key(_) => "failed to parse private key"@,
            CertificateFault::NoKey(path) => "private key not found in "@ + path,
        }
    }

    /// What the error was caused by.
    pub open spec fn reason(self) -> Option<Seq<char>> {
        match self {
            CertificateFault::Chain(why) => Some(why),
            CertificateFault::Key(why) => Some(why),
            CertificateFault::NoKey(_) => None,
        }
    }
}

impl CertificateError {
    /// The error in words.
    pub fn message(&self) -> (r: String)
        ensures
            r@ == self@.words(),
    {
        match self {
            CertificateError::Chain(_) => "failed to load certificate chain".to_string(),
            CertificateError::Key(_) => "failed to parse private key".to_string(),
            CertificateError::NoKey(path) => followed_by(
                "private key not found in ",
                path.as_str(),
            ),
        }
    }

    /// What the error was caused by.
    pub fn cause(&self) -> (r: Option<String>)
        ensures
            opt_text(r) == self@.reason(),
    {
        match self {
            CertificateError::Chain(why) => Some(why.clone()),
            CertificateError::Key(why) => Some(why.clone()),
            CertificateError::NoKey(_) => None,
        }
    }
}

/// The bytes of each certificate.
pub open spec fn all_bytes(v: Seq<Vec<u8>>) -> Seq<Seq<u8>> {
    v.map_values(|c: Vec<u8>| c@)
}

/// What parsing certificates came to, as sequences.
pub open spec fn certificates_model(parsed: Result<Vec<Vec<u8>>, String>) -> Result<
    Seq<Seq<u8>>,
    Seq<char>,
> {
    match parsed {
        Ok(certificates) => Ok(all_bytes(certificates@)),
        Err(why) => Err(why@),
    }
}

/// What looking for a key came to, as sequences.
pub open spec fn key_model(parsed: Result<Option<(KeyKind, Vec<u8>)>, String>) -> Result<
    Option<(KeyKind, Seq<u8>)>,
    Seq<char>,
> {
    match parsed {
        Ok(Some((kind, key))) => Ok(Some((kind, key@))),
        Ok(None) => Ok(None),
        Err(why) => Err(why@),
    }
}

/// The certificates, or the error, for what parsing them came to.
pub open spec fn chain_of(parsed: Result<Seq<Seq<u8>>, Seq<char>>) -> Result<
    Seq<Seq<u8>>,
    CertificateFault,
> {
    match parsed {
        Ok(certificates) => Ok(certificates),
        Err(why) => Err(CertificateFault::Chain(why)),
    }
}

/// The key, or the error, for what looking for it in a file came to.
pub open spec fn key_of(
    parsed: Result<Option<(KeyKind, Seq<u8>)>, Seq<char>>,
    path: Seq<char>,
) -> Result<(KeyKind, Seq<u8>), CertificateFault> {
    match parsed {
        Ok(Some(key)) => Ok(key),
        Ok(None) => Err(CertificateFault::NoKey(path)),
        Err(why) => Err(CertificateFault::Key(why)),
    }
}

/// Whether `r` is the outcome `goal`.
pub open spec fn is_chain(
    r: Result<Vec<Vec<u8>>, CertificateError>,
    goal: Result<Seq<Seq<u8>>, CertificateFault>,
) -> bool {
    match r {
        Ok(certificates) => goal == Ok::<_, CertificateFault>(all_bytes(certificates@)),
        Err(e) => goal == Err::<Seq<Seq<u8>>, _>(e@),
    }
}

/// Whether `r` is the outcome `goal`.
pub open spec fn is_key(
    r: Result<(KeyKind, Vec<u8>), CertificateError>,
    goal: Result<(KeyKind, Seq<u8>), CertificateFault>,
) -> bool {
    match r {
        Ok((kind, key)) => goal == Ok::<_, CertificateFault>((kind, key@)),
        Err(e) => goal == Err::<(KeyKind, Seq<u8>), _>(e@),
    }
}

/// Takes the certificates out of what parsing them came to.
pub fn certificate_chain(parsed: Result<Vec<Vec<u8>>, String>) -> (r: Result<
    Vec<Vec<u8>>,
    CertificateError,
>)
    ensures
        is_chain(r, chain_of(certificates_model(parsed))),
{
    match parsed {
        Ok(certificates) => Ok(certificates),
        Err(why) => Err(CertificateError::Chain(why)),
    }
}

/// Takes the key out of what looking for it in the file `path` came to.
pub fn private_key(parsed: Result<Option<(KeyKind, Vec<u8>)>, String>, path: &str) -> (r: Result<
    (KeyKind, Vec<u8>),
    CertificateError,
>)
    ensures
        is_key(r, key_of(key_model(parsed), path@)),
{
    match parsed {
        Ok(Some(key)) => Ok(key),
        Ok(None) => Err(CertificateError::NoKey(path.to_string())),
        Err(why) => Err(CertificateError::Key(why)),
    }
}

/// Loads the certificates that a file holds.
pub fn load_certificates(pem: &[u8]) -> (r: Result<Vec<Vec<u8>>, CertificateError>)
    ensures
        is_chain(r, chain_of(pem_certificates(pem@))),
{
    certificate_chain(parse_certificates(pem))
}

/// Loads the private key that the file `path` holds.
pub fn load_private_key(pem: &[u8], path: &str) -> (r: Result<
    (KeyKind, Vec<u8>),
    CertificateError,
>)
    ensures
        is_key(r, key_of(pem_private_key(pem@), path@)),
{
    private_key(parse_private_key(pem), path)
}

/// A chain is made of exactly the certificates that were found, in their
/// order, and a key is the one that was found; what was wrong with the text,
/// or that it holds no key, is the error.
pub proof fn law_what_was_found_is_used(
    certificates: Seq<Seq<u8>>,
    key: (KeyKind, Seq<u8>),
    why: Seq<char>,
    path: Seq<char>,
)
    ensures
        chain_of(Ok(certificates)) == Ok::<Seq<Seq<u8>>, CertificateFault>(certificates),
        chain_of(Err(why)) == Err::<Seq<Seq<u8>>, CertificateFault>(CertificateFault::Chain(why)),
        key_of(Ok(Some(key)), path) == Ok::<(KeyKind, Seq<u8>), CertificateFault>(key),
        key_of(Ok(None), path) == Err::<(KeyKind, Seq<u8>), CertificateFault>(
            CertificateFault::NoKey(path),
        ),
        key_of(Err(why), path) == Err::<(KeyKind, Seq<u8>), CertificateFault>(
            CertificateFault::Key(why),
        ),
{
}

} // verus!
