//! HTTPS resource records as DNS-over-HTTPS servers write them in JSON: the
//! generic notation for record data, the domain name and the service
//! parameters in it, and the name inside an ECH configuration list.
use crate::lines::{join, joined};
use crate::number::{decimal, parse_unsigned, parsed, push_decimal};
use crate::outside::from_utf8;
use crate::space::{split_whitespace, trim, trimmed, words};
use crate::text::{after_prefix, followed_by, opt_text, strip_prefix, texts};
use vstd::prelude::*;
use vstd::slice::slice_to_vec;
use vstd::utf8::{decode_utf8, valid_utf8};

verus! {

/// Why record data could not be read.
#[derive(Debug)]
pub enum RecordError {
    UnexpectedFormat { found: String },
    MissingLength,
    InvalidLength { found: String },
    InvalidByte { found: String },
    LengthMismatch { expected: usize, actual: usize },
    TooShort,
    TruncatedParameterHeader,
    TruncatedParameterValue,
    TruncatedName,
    CompressedName,
    TruncatedLabel,
    InvalidLabel,
    EchTooShort,
    EchLengthMismatch { declared: usize, actual: usize },
}

/// Why record data could not be read, with texts as sequences.
#[verifier::ext_equal]
pub enum RecordFault {
    UnexpectedFormat { found: Seq<char> },
    MissingLength,
    InvalidLength { found: Seq<char> },
    InvalidByte { found: Seq<char> },
    LengthMismatch { expected: int, actual: int },
    TooShort,
    TruncatedParameterHeader,
    TruncatedParameterValue,
    TruncatedName,
    CompressedName,
    TruncatedLabel,
    InvalidLabel,
    EchTooShort,
    EchLengthMismatch { declared: int, actual: int },
}

impl View for RecordError {
    type V = RecordFault;

    open spec fn view(&self) -> RecordFault {
        match *self {
            RecordError::UnexpectedFormat { found } => RecordFault::UnexpectedFormat {
                found: found@,
            },
            RecordError::MissingLength => RecordFault::MissingLength,
            RecordError::InvalidLength { found } => RecordFault::InvalidLength { found: found@ },
            RecordError::InvalidByte { found } => RecordFault::InvalidByte { found: found@ },
            RecordError::LengthMismatch { expected, actual } => RecordFault::LengthMismatch {
                expected: expected as int,
                actual: actual as int,
            },
            RecordError::TooShort => RecordFault::TooShort,
            RecordError::TruncatedParameterHeader => RecordFault::TruncatedParameterHeader,
            RecordError::TruncatedParameterValue => RecordFault::TruncatedParameterValue,
            RecordError::TruncatedName => RecordFault::TruncatedName,
            RecordError::CompressedName => RecordFault::CompressedName,
            RecordError::TruncatedLabel => RecordFault::TruncatedLabel,
            RecordError::InvalidLabel => RecordFault::InvalidLabel,
            RecordError::EchTooShort => RecordFault::EchTooShort,
            RecordError::EchLengthMismatch { declared, actual } => RecordFault::EchLengthMismatch {
                declared: declared as int,
                actual: actual as int,
            },
        }
    }
}

impl RecordError {
    /// The error in words.
    pub open spec fn text(self) -> Seq<char> {
        match self {
            RecordError::UnexpectedFormat { found } => "unexpected HTTPS RR format: "@ + found@,
            RecordError::MissingLength => "missing HTTPS RR byte length"@,
            RecordError::InvalidLength { .. } => "invalid HTTPS RR byte length"@,
            RecordError::InvalidByte { found } => "invalid HTTPS RR hex byte "@ + found@,
            RecordError::LengthMismatch { expected, actual } =>
                "HTTPS RR length mismatch, expected "@ + decimal(expected as nat)
                    + " bytes, got "@ + decimal(actual as nat),
            RecordError::TooShort => "HTTPS RR data is too short"@,
            RecordError::TruncatedParameterHeader =>
                "truncated HTTPS RR service parameter header"@,
            RecordError::TruncatedParameterValue => "truncated HTTPS RR service parameter value"@,
            RecordError::TruncatedName => "truncated DNS name in HTTPS RR"@,
            RecordError::CompressedName =>
                "compressed DNS names are unsupported in HTTPS RR parser"@,
            RecordError::TruncatedLabel => "truncated DNS label in HTTPS RR"@,
            RecordError::InvalidLabel => "invalid UTF-8 label in HTTPS RR"@,
            RecordError::EchTooShort => "ECH service parameter is too short"@,
            RecordError::EchLengthMismatch { declared, actual } =>
                "ECH config length mismatch, declared "@ + decimal(declared as nat)
                    + ", actual "@ + decimal(actual as nat),
        }
    }

    /// The error in words.
    pub fn message(&self) -> (r: String)
        ensures
            r@ == self.text(),
    {
        match self {
            RecordError::UnexpectedFormat { found } => followed_by(
                "unexpected HTTPS RR format: ",
                found.as_str(),
            ),
            RecordError::MissingLength => "missing HTTPS RR byte length".to_string(),
            RecordError::InvalidLength { .. } => "invalid HTTPS RR byte length".to_string(),
            RecordError::InvalidByte { found } => followed_by(
                "invalid HTTPS RR hex byte ",
                found.as_str(),
            ),
            RecordError::LengthMismatch { expected, actual } => {
                let mut s = "HTTPS RR length mismatch, expected ".to_string();
                push_decimal(&mut s, *expected as u64);
                s.append(" bytes, got ");
                push_decimal(&mut s, *actual as u64);
                s
            },
            RecordError::TooShort => "HTTPS RR data is too short".to_string(),
            RecordError::TruncatedParameterHeader =>
                "truncated HTTPS RR service parameter header".to_string(),
            RecordError::TruncatedParameterValue =>
                "truncated HTTPS RR service parameter value".to_string(),
            RecordError::TruncatedName => "truncated DNS name in HTTPS RR".to_string(),
            RecordError::CompressedName =>
                "compressed DNS names are unsupported in HTTPS RR parser".to_string(),
            RecordError::TruncatedLabel => "truncated DNS label in HTTPS RR".to_string(),
            RecordError::InvalidLabel => "invalid UTF-8 label in HTTPS RR".to_string(),
            RecordError::EchTooShort => "ECH service parameter is too short".to_string(),
            RecordError::EchLengthMismatch { declared, actual } => {
                let mut s = "ECH config length mismatch, declared ".to_string();
                push_decimal(&mut s, *declared as u64);
                s.append(", actual ");
                push_decimal(&mut s, *actual as u64);
                s
            },
        }
    }
}

/// The number that two bytes hold, the more significant one first.
pub open spec fn be16(high: u8, low: u8) -> int {
    high * 256 + low
}

fn join_bytes(high: u8, low: u8) -> (r: u16)
    ensures
        r == be16(high, low),
{
    (high as u16) * 256 + low as u16
}

// ---------------------------------------------------------------------------
// The generic notation
// ---------------------------------------------------------------------------

/// The bytes that the words write in hexadecimal, or the first word that
/// writes none.
pub open spec fn hex_bytes(ws: Seq<Seq<char>>) -> Result<Seq<u8>, Seq<char>>
    decreases ws.len(),
{
    if ws.len() == 0 {
        Ok(Seq::empty())
    } else {
        match hex_bytes(ws.drop_last()) {
            Err(word) => Err(word),
            Ok(bytes) => match parsed(ws.last(), 16, 255) {
                None => Err(ws.last()),
                Some(n) => Ok(bytes.push(n as u8)),
            },
        }
    }
}

/// The bytes of record data in the generic notation: `\#`, the number of
/// bytes, and the bytes in hexadecimal.
pub open spec fn rdata_bytes(raw: Seq<char>) -> Result<Seq<u8>, RecordFault> {
    match after_prefix(trimmed(raw), "\\#"@) {
        None => Err(RecordFault::UnexpectedFormat { found: trimmed(raw) }),
        Some(encoded) => {
            let ws = words(trimmed(encoded));
            if ws.len() == 0 {
                Err(RecordFault::MissingLength)
            } else {
                match parsed(ws[0], 10, usize::MAX as nat) {
                    None => Err(RecordFault::InvalidLength { found: ws[0] }),
                    Some(expected) => match hex_bytes(ws.skip(1)) {
                        Err(word) => Err(RecordFault::InvalidByte { found: word }),
                        Ok(bytes) => if bytes.len() == expected {
                            Ok(bytes)
                        } else {
                            Err(
                                RecordFault::LengthMismatch {
                                    expected: expected as int,
                                    actual: bytes.len() as int,
                                },
                            )
                        },
                    },
                }
            }
        },
    }
}

/// A word that writes no byte stays the first such word when more follow.
proof fn lemma_hex_bytes_error(ws: Seq<Seq<char>>, k: int)
    requires
        0 <= k <= ws.len(),
        hex_bytes(ws.take(k)) is Err,
    ensures
        hex_bytes(ws) == hex_bytes(ws.take(k)),
    decreases ws.len(),
{
    if k == ws.len() {
        assert(ws.take(k) =~= ws);
    } else {
        let front = ws.drop_last();
        assert(front.take(k) =~= ws.take(k));
        lemma_hex_bytes_error(front, k);
    }
}

/// Reads record data in the generic notation.
pub fn parse_dns_json_hex_rdata(raw_rdata: &str) -> (r: Result<Vec<u8>, RecordError>)
    ensures
        match r {
            Ok(bytes) => rdata_bytes(raw_rdata@) == Ok::<Seq<u8>, RecordFault>(bytes@),
            Err(e) => rdata_bytes(raw_rdata@) == Err::<Seq<u8>, RecordFault>(e@),
        },
{
    let raw = trim(raw_rdata);
    let encoded = match strip_prefix(raw.as_str(), "\\#") {
        Some(rest) => trim(rest.as_str()),
        None => {
            return Err(RecordError::UnexpectedFormat { found: raw });
        },
    };
    let parts = split_whitespace(encoded.as_str());
    let ghost ws = texts(parts@);
    if parts.is_empty() {
        return Err(RecordError::MissingLength);
    }
    let expected_len: usize = match parse_unsigned(parts[0].as_str(), 10, usize::MAX as u64) {
        Some(n) => n as usize,
        None => {
            return Err(RecordError::InvalidLength { found: parts[0].clone() });
        },
    };
    let mut bytes: Vec<u8> = Vec::new();
    let ghost hex = ws.skip(1);
    assert(hex.take(0) =~= Seq::<Seq<char>>::empty());
    for i in 1..parts.len()
        invariant
            parts@.len() > 0,
            ws == texts(parts@),
            hex == ws.skip(1),
            hex_bytes(hex.take(i - 1)) == Ok::<Seq<u8>, Seq<char>>(bytes@),
            bytes@.len() == i - 1,
            ws == words(trimmed(after_prefix(trimmed(raw_rdata@), "\\#"@)->0)),
            after_prefix(trimmed(raw_rdata@), "\\#"@) is Some,
            parsed(ws[0], 10, usize::MAX as nat) is Some,
    {
        proof {
            assert(hex.take(i as int).drop_last() =~= hex.take(i - 1));
            assert(hex.take(i as int).last() == parts@[i as int]@);
        }
        match parse_unsigned(parts[i].as_str(), 16, 255) {
            Some(byte) => {
                bytes.push(byte as u8);
            },
            None => {
                proof {
                    lemma_hex_bytes_error(hex, i as int);
                }
                return Err(RecordError::InvalidByte { found: parts[i].clone() });
            },
        }
    }
    assert(hex.take(hex.len() as int) =~= hex);
    if bytes.len() != expected_len {
        return Err(RecordError::LengthMismatch { expected: expected_len, actual: bytes.len() });
    }
    Ok(bytes)
}

// ---------------------------------------------------------------------------
// Domain names
// ---------------------------------------------------------------------------

/// The labels of the domain name at `at`, and where it ends.
pub open spec fn dns_labels(data: Seq<u8>, at: int) -> Result<(Seq<Seq<char>>, int), RecordFault>
    decreases data.len() - at,
{
    if at < 0 || at >= data.len() {
        Err(RecordFault::TruncatedName)
    } else if data[at] == 0 {
        Ok((Seq::empty(), at + 1))
    } else if data[at] >= 64 {
        Err(RecordFault::CompressedName)
    } else if at + 1 + data[at] > data.len() {
        Err(RecordFault::TruncatedLabel)
    } else {
        let label = data.subrange(at + 1, at + 1 + data[at]);
        if !valid_utf8(label) {
            Err(RecordFault::InvalidLabel)
        } else {
            match dns_labels(data, at + 1 + data[at]) {
                Err(e) => Err(e),
                Ok((rest, end)) => Ok((seq![decode_utf8(label)] + rest, end)),
            }
        }
    }
}

/// The domain name at the start of the data, with a dot between its labels,
/// and the number of bytes that it takes.
pub open spec fn dns_name(data: Seq<u8>) -> Result<(Seq<char>, int), RecordFault> {
    match dns_labels(data, 0) {
        Err(e) => Err(e),
        Ok((labels, end)) => Ok((joined(labels, "."@), end)),
    }
}

/// What `rest` says, with labels read before put in front.
spec fn after_labels(
    labels: Seq<Seq<char>>,
    rest: Result<(Seq<Seq<char>>, int), RecordFault>,
) -> Result<(Seq<Seq<char>>, int), RecordFault> {
    match rest {
        Err(e) => Err(e),
        Ok((more, end)) => Ok((labels + more, end)),
    }
}

/// A domain name takes at least one byte and at most those that are there.
pub proof fn lemma_dns_labels_end(data: Seq<u8>, at: int)
    requires
        at >= 0,
    ensures
        dns_labels(data, at) matches Ok((labels, end)) ==> at < end <= data.len(),
    decreases data.len() - at,
{
    if at < data.len() && 0 < data[at] < 64 && at + 1 + data[at] <= data.len() {
        lemma_dns_labels_end(data, at + 1 + data[at]);
    }
}

/// Reads the domain name at the start of `data` and says how many bytes it
/// takes.
pub fn parse_dns_name(data: &[u8]) -> (r: Result<(String, usize), RecordError>)
    ensures
        match r {
            Ok((name, consumed)) => dns_name(data@) == Ok::<(Seq<char>, int), RecordFault>(
                (name@, consumed as int),
            ) && 0 < consumed <= data@.len(),
            Err(e) => dns_name(data@) == Err::<(Seq<char>, int), RecordFault>(e@),
        },
{
    let n = data.len();
    let mut labels: Vec<String> = Vec::new();
    let mut offset: usize = 0;
    proof {
        lemma_dns_labels_end(data@, 0);
    }
    assert(after_labels(texts(labels@), dns_labels(data@, 0)) =~= dns_labels(data@, 0)) by {
        assert forall|s: Seq<Seq<char>>| texts(labels@) + s =~= s by {}
    }
    loop
        invariant
            n == data@.len(),
            offset <= n,
            dns_labels(data@, 0) == after_labels(
                texts(labels@),
                dns_labels(data@, offset as int),
            ),
            dns_labels(data@, 0) matches Ok((labels, end)) ==> 0 < end <= n,
        decreases n - offset,
    {
        if offset >= n {
            return Err(RecordError::TruncatedName);
        }
        let label_len = data[offset];
        if label_len == 0 {
            assert(texts(labels@) + Seq::<Seq<char>>::empty() =~= texts(labels@));
            return Ok((join(&labels, "."), offset + 1));
        }
        assert((label_len & 0b1100_0000 != 0) == (label_len >= 64)) by (bit_vector);
        if label_len & 0b1100_0000 != 0 {
            return Err(RecordError::CompressedName);
        }
        let len = label_len as usize;
        if len > n - offset - 1 {
            return Err(RecordError::TruncatedLabel);
        }
        let start = offset + 1;
        let label = match from_utf8(&data[start..start + len]) {
            Some(label) => label,
            None => {
                return Err(RecordError::InvalidLabel);
            },
        };
        let ghost before = texts(labels@);
        let ghost text = label@;
        labels.push(label);
        proof {
            assert(texts(labels@) =~= before.push(text));
            assert forall|s: Seq<Seq<char>>|
                before + (seq![text] + s) =~= #[trigger] (texts(labels@) + s) by {}
        }
        offset = start + len;
    }
}

// ---------------------------------------------------------------------------
// ECH configurations
// ---------------------------------------------------------------------------

/// The configuration list that an ECH service parameter holds: all of it,
/// where the length in front is that of what follows.
pub open spec fn ech_param(value: Seq<u8>) -> Result<Seq<u8>, RecordFault> {
    if value.len() < 2 {
        Err(RecordFault::EchTooShort)
    } else if value.len() != be16(value[0], value[1]) + 2 {
        Err(
            RecordFault::EchLengthMismatch {
                declared: be16(value[0], value[1]),
                actual: value.len() - 2,
            },
        )
    } else {
        Ok(value)
    }
}

/// Reads the value of an ECH service parameter.
pub fn parse_ech_config_param(value: &[u8]) -> (r: Result<Vec<u8>, RecordError>)
    ensures
        match r {
            Ok(list) => ech_param(value@) == Ok::<Seq<u8>, RecordFault>(list@),
            Err(e) => ech_param(value@) == Err::<Seq<u8>, RecordFault>(e@),
        },
{
    if value.len() < 2 {
        return Err(RecordError::EchTooShort);
    }
    let declared = join_bytes(value[0], value[1]) as usize;
    if value.len() - 2 != declared {
        return Err(RecordError::EchLengthMismatch { declared, actual: value.len() - 2 });
    }
    Ok(slice_to_vec(value))
}

/// Why an ECH configuration list yields no public name.
#[derive(Debug, Clone, Copy, PartialEq, Eq, Structural)]
pub enum EchError {
    TruncatedField,
    TruncatedList,
    UnsupportedVersion(u16),
    TruncatedContents,
    MissingNameLength,
    TruncatedName,
    InvalidName,
    EmptyName,
}

/// The number in the two bytes at `at`, where they are there.
pub open spec fn u16_at(bytes: Seq<u8>, at: int) -> Option<int> {
    if 0 <= at && at + 2 <= bytes.len() {
        Some(be16(bytes[at], bytes[at + 1]))
    } else {
        None
    }
}

/// Reads the two-byte number at `offset`.
pub fn read_u16(bytes: &[u8], offset: usize) -> (r: Result<u16, EchError>)
    ensures
        match r {
            Ok(n) => u16_at(bytes@, offset as int) == Some(n as int),
            Err(e) => u16_at(bytes@, offset as int) is None && e == EchError::TruncatedField,
        },
{
    if bytes.len() < 2 || offset > bytes.len() - 2 {
        return Err(EchError::TruncatedField);
    }
    Ok(join_bytes(bytes[offset], bytes[offset + 1]))
}

/// The version of the ECH configurations whose public name is read.
pub const ECH_VERSION: u16 = 0xfe0d;

/// The first configuration of the list and what follows it there.
pub open spec fn ech_config(list: Seq<u8>) -> Result<Seq<u8>, EchError> {
    match u16_at(list, 0) {
        None => Err(EchError::TruncatedField),
        Some(len) => if list.len() < 2 + len || len < 4 {
            Err(EchError::TruncatedList)
        } else {
            Ok(list.subrange(2, 2 + len))
        },
    }
}

/// Where the public name's length stands in a configuration: behind its
/// version, length, identifier and key encapsulation mechanism, the public
/// key and the cipher suites, each with its length, and the maximum length of
/// names.
pub open spec fn name_length_at(config: Seq<u8>) -> Result<int, EchError> {
    match (u16_at(config, 0), u16_at(config, 2)) {
        (Some(version), Some(len)) => if version != ECH_VERSION {
            Err(EchError::UnsupportedVersion(version as u16))
        } else if config.len() < 4 + len {
            Err(EchError::TruncatedContents)
        } else {
            match u16_at(config, 7) {
                None => Err(EchError::TruncatedField),
                Some(key_len) => match u16_at(config, 9 + key_len) {
                    None => Err(EchError::TruncatedField),
                    Some(suites_len) => Ok(9 + key_len + 2 + suites_len + 1),
                },
            }
        },
        _ => Err(EchError::TruncatedField),
    }
}

/// The text that stands at `at` behind its length, without the white space
/// around it.
pub open spec fn name_at(config: Seq<u8>, at: int) -> Result<Seq<char>, EchError> {
    if at >= config.len() {
        Err(EchError::MissingNameLength)
    } else if at + 1 + config[at] > config.len() {
        Err(EchError::TruncatedName)
    } else {
        let bytes = config.subrange(at + 1, at + 1 + config[at]);
        if !valid_utf8(bytes) {
            Err(EchError::InvalidName)
        } else if trimmed(decode_utf8(bytes)).len() == 0 {
            Err(EchError::EmptyName)
        } else {
            Ok(trimmed(decode_utf8(bytes)))
        }
    }
}

/// The public name of the first configuration in the list.
pub open spec fn ech_public_name(list: Seq<u8>) -> Result<Seq<char>, EchError> {
    match ech_config(list) {
        Err(e) => Err(e),
        Ok(config) => match name_length_at(config) {
            Err(e) => Err(e),
            Ok(at) => name_at(config, at),
        },
    }
}

/// Reads the public name of the first configuration in the list.
pub fn parse_ech_public_name(ech_config_list: &[u8]) -> (r: Result<String, EchError>)
    ensures
        match r {
            Ok(name) => ech_public_name(ech_config_list@) == Ok::<Seq<char>, EchError>(name@),
            Err(e) => ech_public_name(ech_config_list@) == Err::<Seq<char>, EchError>(e),
        },
{
    let list_len = match read_u16(ech_config_list, 0) {
        Ok(n) => n as usize,
        Err(e) => {
            return Err(e);
        },
    };
    if ech_config_list.len() - 2 < list_len || list_len < 4 {
        return Err(EchError::TruncatedList);
    }
    let config = &ech_config_list[2..2 + list_len];
    let version = match read_u16(config, 0) {
        Ok(n) => n,
        Err(e) => {
            return Err(e);
        },
    };
    let contents_len = match read_u16(config, 2) {
        Ok(n) => n as usize,
        Err(e) => {
            return Err(e);
        },
    };
    if version != ECH_VERSION {
        return Err(EchError::UnsupportedVersion(version));
    }
    if config.len() - 4 < contents_len {
        return Err(EchError::TruncatedContents);
    }
    let public_key_len = match read_u16(config, 7) {
        Ok(n) => n as usize,
        Err(e) => {
            return Err(e);
        },
    };
    let suites_len = match read_u16(config, 9 + public_key_len) {
        Ok(n) => n as usize,
        Err(e) => {
            return Err(e);
        },
    };
    let offset = 9 + public_key_len + 2 + suites_len + 1;
    if offset >= config.len() {
        return Err(EchError::MissingNameLength);
    }
    let name_len = config[offset] as usize;
    if config.len() - offset - 1 < name_len {
        return Err(EchError::TruncatedName);
    }
    let start = offset + 1;
    let name = match from_utf8(&config[start..start + name_len]) {
        Some(text) => trim(text.as_str()),
        None => {
            return Err(EchError::InvalidName);
        },
    };
    if name.as_str().is_empty() {
        return Err(EchError::EmptyName);
    }
    Ok(name)
}

// ---------------------------------------------------------------------------
// Service bindings
// ---------------------------------------------------------------------------

/// What an HTTPS record says of a host.
#[derive(Debug)]
pub struct HttpsServiceBinding {
    pub priority: u16,
    pub target_name: Option<String>,
    pub ech_config_list: Option<Vec<u8>>,
    pub ech_public_name: Option<String>,
}

/// What an HTTPS record says of a host, with texts and bytes as sequences.
#[verifier::ext_equal]
pub struct BindingModel {
    pub priority: u16,
    pub target_name: Option<Seq<char>>,
    pub ech_config_list: Option<Seq<u8>>,
    pub ech_public_name: Option<Seq<char>>,
}

impl View for HttpsServiceBinding {
    type V = BindingModel;

    open spec fn view(&self) -> BindingModel {
        BindingModel {
            priority: self.priority,
            target_name: opt_text(self.target_name),
            ech_config_list: match self.ech_config_list {
                Some(list) => Some(list@),
                None => None,
            },
            ech_public_name: opt_text(self.ech_public_name),
        }
    }
}

/// The key of the ECH service parameter.
pub const ECH_KEY: u16 = 5;

/// The binding with the service parameters from `at` on applied to it.
pub open spec fn with_params(bytes: Seq<u8>, at: int, binding: BindingModel) -> Result<
    BindingModel,
    RecordFault,
>
    decreases bytes.len() - at,
{
    if at >= bytes.len() {
        Ok(binding)
    } else if at + 4 > bytes.len() {
        Err(RecordFault::TruncatedParameterHeader)
    } else {
        let len = be16(bytes[at + 2], bytes[at + 3]);
        if at + 4 + len > bytes.len() {
            Err(RecordFault::TruncatedParameterValue)
        } else if be16(bytes[at], bytes[at + 1]) != ECH_KEY {
            with_params(bytes, at + 4 + len, binding)
        } else {
            match ech_param(bytes.subrange(at + 4, at + 4 + len)) {
                Err(e) => Err(e),
                Ok(list) => with_params(
                    bytes,
                    at + 4 + len,
                    BindingModel {
                        ech_config_list: Some(list),
                        ech_public_name: match ech_public_name(list) {
                            Ok(name) => Some(name),
                            Err(_) => None,
                        },
                        ..binding
                    },
                ),
            }
        }
    }
}

/// What an HTTPS record with the given data says.
pub open spec fn https_binding(raw: Seq<char>) -> Result<BindingModel, RecordFault> {
    match rdata_bytes(raw) {
        Err(e) => Err(e),
        Ok(bytes) => if bytes.len() < 3 {
            Err(RecordFault::TooShort)
        } else {
            match dns_name(bytes.skip(2)) {
                Err(e) => Err(e),
                Ok((name, consumed)) => with_params(
                    bytes,
                    2 + consumed,
                    BindingModel {
                        priority: be16(bytes[0], bytes[1]) as u16,
                        target_name: if name.len() == 0 {
                            None
                        } else {
                            Some(name)
                        },
                        ech_config_list: None,
                        ech_public_name: None,
                    },
                ),
            }
        },
    }
}

/// Reads the data of an HTTPS record.
pub fn parse_https_answer(raw_rdata: &str) -> (r: Result<HttpsServiceBinding, RecordError>)
    ensures
        match r {
            Ok(binding) => https_binding(raw_rdata@) == Ok::<BindingModel, RecordFault>(binding@),
            Err(e) => https_binding(raw_rdata@) == Err::<BindingModel, RecordFault>(e@),
        },
{
    let bytes = match parse_dns_json_hex_rdata(raw_rdata) {
        Ok(bytes) => bytes,
        Err(e) => {
            return Err(e);
        },
    };
    let n = bytes.len();
    if n < 3 {
        return Err(RecordError::TooShort);
    }
    let data = bytes.as_slice();
    assert(data@.subrange(2, n as int) =~= bytes@.skip(2));
    let (target_name, consumed) = match parse_dns_name(&data[2..n]) {
        Ok(parsed) => parsed,
        Err(e) => {
            return Err(e);
        },
    };
    let empty = target_name.as_str().is_empty();
    let mut binding = HttpsServiceBinding {
        priority: join_bytes(bytes[0], bytes[1]),
        target_name: if empty {
            None
        } else {
            Some(target_name)
        },
        ech_config_list: None,
        ech_public_name: None,
    };
    let mut offset: usize = 2 + consumed;
    while offset < n
        invariant
            n == bytes@.len(),
            data@ == bytes@,
            offset <= n,
            https_binding(raw_rdata@) == with_params(bytes@, offset as int, binding@),
        decreases n - offset,
    {
        if n - offset < 4 {
            return Err(RecordError::TruncatedParameterHeader);
        }
        let key = join_bytes(bytes[offset], bytes[offset + 1]);
        let value_len = join_bytes(bytes[offset + 2], bytes[offset + 3]) as usize;
        let start = offset + 4;
        if n - start < value_len {
            return Err(RecordError::TruncatedParameterValue);
        }
        if key == ECH_KEY {
            let list = match parse_ech_config_param(&data[start..start + value_len]) {
                Ok(list) => list,
                Err(e) => {
                    return Err(e);
                },
            };
            binding.ech_public_name = match parse_ech_public_name(list.as_slice()) {
                Ok(name) => Some(name),
                Err(_) => None,
            };
            binding.ech_config_list = Some(list);
        }
        offset = start + value_len;
    }
    Ok(binding)
}

/// Whether the parts of a binding belong together: a target name is not
/// empty, the configuration list has the length that it declares, and the
/// public name is the one in that list.
pub open spec fn coherent(binding: BindingModel) -> bool {
    &&& binding.target_name != Some(Seq::<char>::empty())
    &&& binding.ech_config_list matches Some(list) ==> ech_param(list)
        == Ok::<Seq<u8>, RecordFault>(list)
    &&& binding.ech_public_name == match binding.ech_config_list {
        Some(list) => match ech_public_name(list) {
            Ok(name) => Some(name),
            Err(_) => None,
        },
        None => None,
    }
}

proof fn lemma_params_coherent(bytes: Seq<u8>, at: int, binding: BindingModel)
    requires
        at >= 0,
        coherent(binding),
    ensures
        with_params(bytes, at, binding) matches Ok(b) ==> coherent(b) && b.priority
            == binding.priority && b.target_name == binding.target_name,
    decreases bytes.len() - at,
{
    if at + 4 <= bytes.len() {
        let len = be16(bytes[at + 2], bytes[at + 3]);
        let next = at + 4 + len;
        if next <= bytes.len() {
            if be16(bytes[at], bytes[at + 1]) != ECH_KEY {
                lemma_params_coherent(bytes, next, binding);
            } else if let Ok(list) = ech_param(bytes.subrange(at + 4, next)) {
                lemma_params_coherent(
                    bytes,
                    next,
                    BindingModel {
                        ech_config_list: Some(list),
                        ech_public_name: match ech_public_name(list) {
                            Ok(name) => Some(name),
                            Err(_) => None,
                        },
                        ..binding
                    },
                );
            }
        }
    }
}

/// A record that can be read gives a binding whose parts belong together.
pub proof fn law_bindings_coherent(raw: Seq<char>)
    ensures
        https_binding(raw) matches Ok(binding) ==> coherent(binding),
{
    if let Ok(bytes) = rdata_bytes(raw) {
        if bytes.len() >= 3 {
            if let Ok((name, consumed)) = dns_name(bytes.skip(2)) {
                lemma_dns_labels_end(bytes.skip(2), 0);
                lemma_params_coherent(
                    bytes,
                    2 + consumed,
                    BindingModel {
                        priority: be16(bytes[0], bytes[1]) as u16,
                        target_name: if name.len() == 0 {
                            None
                        } else {
                            Some(name)
                        },
                        ech_config_list: None,
                        ech_public_name: None,
                    },
                );
            }
        }
    }
}

/// The errors of a record in words.
pub proof fn law_record_errors_in_words(found: String, expected: usize, actual: usize)
    ensures
        (RecordError::UnexpectedFormat { found }).text() == "unexpected HTTPS RR format: "@ + found@,
        RecordError::MissingLength.text() == "missing HTTPS RR byte length"@,
        (RecordError::InvalidLength { found }).text() == "invalid HTTPS RR byte length"@,
        (RecordError::InvalidByte { found }).text() == "invalid HTTPS RR hex byte "@ + found@,
        (RecordError::LengthMismatch { expected, actual }).text()
            == "HTTPS RR length mismatch, expected "@ + decimal(expected as nat) + " bytes, got "@
            + decimal(actual as nat),
        RecordError::TooShort.text() == "HTTPS RR data is too short"@,
        RecordError::TruncatedParameterHeader.text()
            == "truncated HTTPS RR service parameter header"@,
        RecordError::TruncatedParameterValue.text()
            == "truncated HTTPS RR service parameter value"@,
        RecordError::TruncatedName.text() == "truncated DNS name in HTTPS RR"@,
        RecordError::CompressedName.text()
            == "compressed DNS names are unsupported in HTTPS RR parser"@,
        RecordError::TruncatedLabel.text() == "truncated DNS label in HTTPS RR"@,
        RecordError::InvalidLabel.text() == "invalid UTF-8 label in HTTPS RR"@,
        RecordError::EchTooShort.text() == "ECH service parameter is too short"@,
        (RecordError::EchLengthMismatch { declared: expected, actual }).text()
            == "ECH config length mismatch, declared "@ + decimal(expected as nat) + ", actual "@
            + decimal(actual as nat),
{
}

/// What is said of a binding is what it holds.
pub proof fn law_binding_as_it_is(b: HttpsServiceBinding)
    ensures
        b@.priority == b.priority,
        b@.target_name == opt_text(b.target_name),
        b.ech_config_list matches Some(list) ==> b@.ech_config_list == Some(list@),
        b.ech_config_list is None ==> b@.ech_config_list is None,
        b@.ech_public_name == opt_text(b.ech_public_name),
{
}

} // verus!
