//! Pure logic of the Technitium DNS server backend.
//!
//! The API reports typed record data and only human-readable error
//! messages.  The logic here renders that data into the generic value form,
//! converts between the generic model and the API's per-type parameters,
//! synthesizes `name:type:hash` record identities, and classifies error
//! messages into the shared taxonomy.  The HTTP client lives outside the
//! verified library.

use vstd::prelude::*;

verus! {

use vstd::utf8::{encode_utf8, valid_utf8};
use vstd::string::StringSliceAdditionalSpecFns;
use crate::text::{
    dec_rep, push_dec_u64, push_str_bytes, string_of_utf8, lemma_dec_rep_digits,
    lemma_ascii_bytes_chars, contains_ignore_ascii_case, contains_bytes, lower_bytes, hex_rep,
    hex_string_of_u64, is_ascii_bytes,
};

/// API response status, as the server spells it.
#[derive(Debug, Clone, Copy, PartialEq, Eq, Structural)]
pub enum ApiStatus {
    /// The call succeeded.
    Success,
    /// The call failed; an error message accompanies it.
    Error,
    /// The session token expired or is invalid.
    InvalidToken,
    /// A second authentication factor was required.
    TwoFactorRequired,
}

/// Failures of the Technitium backend.  Transport failures are the HTTP
/// layer's affair and stay outside this type.
#[derive(Debug, Clone, PartialEq, Eq)]
pub enum ApiError {
    /// An error status with its message.
    ApiStatus(String),
    /// The login response carried no token.
    MissingToken,
    /// Invalid or expired token.
    InvalidToken,
    /// A second authentication factor was required.
    TwoFactorRequired,
    /// The credentials do not allow the operation.
    Unauthorized,
    /// The named object does not exist.
    NotFound,
    /// The domain name was rejected.
    InvalidDomainName,
    /// The record was rejected.
    InvalidRecord,
}

/// Whether an error message, compared without regard to ASCII case, names
/// an authorization failure.
pub open spec fn spec_msg_unauthorized(m: Seq<u8>) -> bool {
    contains_bytes(lower_bytes(m), lower_bytes(encode_utf8("not authorized"@)))
        || contains_bytes(lower_bytes(m), lower_bytes(encode_utf8("unauthorized"@)))
}

/// Whether an error message names a missing object.
pub open spec fn spec_msg_not_found(m: Seq<u8>) -> bool {
    contains_bytes(lower_bytes(m), lower_bytes(encode_utf8("not found"@))) || contains_bytes(
        lower_bytes(m),
        lower_bytes(encode_utf8("does not exist"@)),
    ) || contains_bytes(lower_bytes(m), lower_bytes(encode_utf8("no such zone"@)))
}

/// Whether an error message names an invalid domain.
pub open spec fn spec_msg_invalid_domain(m: Seq<u8>) -> bool {
    contains_bytes(lower_bytes(m), lower_bytes(encode_utf8("invalid"@))) && contains_bytes(
        lower_bytes(m),
        lower_bytes(encode_utf8("domain"@)),
    )
}

/// Classifies a human-readable error message: the server offers no
/// structured codes, so the named conditions are recognized by phrase,
/// without regard to ASCII case, and anything else is kept verbatim.
pub fn classify_error_message(msg: &str) -> (r: ApiError)
    ensures
        spec_msg_unauthorized(msg.spec_bytes()) ==> r == ApiError::Unauthorized,
        !spec_msg_unauthorized(msg.spec_bytes()) && spec_msg_not_found(msg.spec_bytes()) ==> r
            == ApiError::NotFound,
        !spec_msg_unauthorized(msg.spec_bytes()) && !spec_msg_not_found(msg.spec_bytes())
            && spec_msg_invalid_domain(msg.spec_bytes()) ==> r == ApiError::InvalidDomainName,
        !spec_msg_unauthorized(msg.spec_bytes()) && !spec_msg_not_found(msg.spec_bytes())
            && !spec_msg_invalid_domain(msg.spec_bytes()) ==> (match r {
            ApiError::ApiStatus(m) => m@ == msg@,
            _ => false,
        }),
{
    let b = msg.as_bytes();
    if contains_ignore_ascii_case(b, "not authorized".as_bytes()) || contains_ignore_ascii_case(
        b,
        "unauthorized".as_bytes(),
    ) {
        ApiError::Unauthorized
    } else if contains_ignore_ascii_case(b, "not found".as_bytes())
        || contains_ignore_ascii_case(b, "does not exist".as_bytes())
        || contains_ignore_ascii_case(b, "no such zone".as_bytes()) {
        ApiError::NotFound
    } else if contains_ignore_ascii_case(b, "invalid".as_bytes()) && contains_ignore_ascii_case(
        b,
        "domain".as_bytes(),
    ) {
        ApiError::InvalidDomainName
    } else {
        ApiError::ApiStatus(msg.to_owned())
    }
}

/// A generic API response: a status, an optional error message, and an
/// optional payload.
#[derive(Debug, Clone, PartialEq, Eq)]
pub struct ApiResponse<T> {
    /// Response status.
    pub status: ApiStatus,
    /// Error message, present on failures.
    pub error_message: Option<String>,
    /// The payload, present on success.
    pub response: Option<T>,
}

impl<T> ApiResponse<T> {
    /// Turns a response into a result: a success must carry its payload; a
    /// token or second-factor failure maps to its named error; an error
    /// status has its message classified.
    pub fn into_result(self) -> (r: Result<T, ApiError>)
        ensures
            self.status == ApiStatus::Success && self.response is Some ==> r == Ok::<
                T,
                ApiError,
            >(self.response.unwrap()),
            self.status == ApiStatus::Success && self.response is None ==> (match r {
                Err(ApiError::ApiStatus(_)) => true,
                _ => false,
            }),
            self.status == ApiStatus::InvalidToken ==> r == Err::<T, ApiError>(
                ApiError::InvalidToken,
            ),
            self.status == ApiStatus::TwoFactorRequired ==> r == Err::<T, ApiError>(
                ApiError::TwoFactorRequired,
            ),
            self.status == ApiStatus::Error ==> r is Err,
    {
        match self.status {
            ApiStatus::Success => match self.response {
                Some(v) => Ok(v),
                None => Err(ApiError::ApiStatus("Missing response data".to_owned())),
            },
            ApiStatus::InvalidToken => Err(ApiError::InvalidToken),
            ApiStatus::TwoFactorRequired => Err(ApiError::TwoFactorRequired),
            ApiStatus::Error => {
                let m = match self.error_message {
                    Some(m) => m,
                    None => String::new(),
                };
                Err(classify_error_message(m.as_str()))
            },
        }
    }
}

/// An API response without a payload, for delete and toggle calls.
#[derive(Debug, Clone, PartialEq, Eq)]
pub struct EmptyApiResponse {
    /// Response status.
    pub status: ApiStatus,
    /// Error message, present on failures.
    pub error_message: Option<String>,
}

impl EmptyApiResponse {
    /// Turns a bare response into a result, as the payload-carrying form
    /// does.
    pub fn into_result(self) -> (r: Result<(), ApiError>)
        ensures
            self.status == ApiStatus::Success ==> r is Ok,
            self.status == ApiStatus::InvalidToken ==> r == Err::<(), ApiError>(
                ApiError::InvalidToken,
            ),
            self.status == ApiStatus::TwoFactorRequired ==> r == Err::<(), ApiError>(
                ApiError::TwoFactorRequired,
            ),
            self.status == ApiStatus::Error ==> r is Err,
    {
        match self.status {
            ApiStatus::Success => Ok(()),
            ApiStatus::InvalidToken => Err(ApiError::InvalidToken),
            ApiStatus::TwoFactorRequired => Err(ApiError::TwoFactorRequired),
            ApiStatus::Error => {
                let m = match self.error_message {
                    Some(m) => m,
                    None => String::new(),
                };
                Err(classify_error_message(m.as_str()))
            },
        }
    }
}

/// A zone as the server lists it.
#[derive(Debug, Clone, PartialEq, Eq)]
pub struct Zone {
    /// Zone name.
    pub name: String,
    /// Zone type: primary, secondary, stub or forwarder.
    pub zone_type: String,
    /// Whether the zone is internal to the server.
    pub internal: bool,
    /// DNSSEC status, when reported.
    pub dnssec_status: Option<String>,
    /// SOA serial, when reported.
    pub soa_serial: Option<u64>,
    /// Whether the zone is disabled.
    pub disabled: bool,
    /// Last modification time, as reported.
    pub last_modified: Option<String>,
}

impl Zone {
    /// The zone type string.
    pub fn zone_type(&self) -> (r: &str)
        ensures
            r@ == self.zone_type@,
    {
        self.zone_type.as_str()
    }

    /// Whether the zone is disabled.
    pub fn is_disabled(&self) -> (r: bool)
        ensures
            r == self.disabled,
    {
        self.disabled
    }
}

/// Zone summary inside a records response.
#[derive(Debug, Clone, PartialEq, Eq)]
pub struct ZoneInfo {
    /// Zone name.
    pub name: String,
    /// Zone type.
    pub zone_type: String,
    /// Whether the zone is disabled.
    pub disabled: bool,
}

/// Payload of a zone detail call.
#[derive(Debug, Clone, PartialEq, Eq)]
pub struct ZoneOptionsResponse {
    /// Zone name.
    pub name: String,
    /// Zone type.
    pub zone_type: String,
    /// Whether the zone is internal to the server.
    pub internal: bool,
    /// DNSSEC status, when reported.
    pub dnssec_status: Option<String>,
    /// Whether the zone is disabled.
    pub disabled: bool,
}

/// Payload of a zone creation call.
#[derive(Debug, Clone, PartialEq, Eq)]
pub struct CreateZoneResponse {
    /// The created domain.
    pub domain: String,
}

/// Payload of a login call.
#[derive(Debug, Clone, PartialEq, Eq)]
pub struct LoginResponse {
    /// Response status.
    pub status: ApiStatus,
    /// Error message, present on failures.
    pub error_message: Option<String>,
    /// The session token.
    pub token: Option<String>,
    /// The authenticated username.
    pub username: Option<String>,
}

/// Payload of a zone listing call.
#[derive(Debug, Clone, PartialEq, Eq)]
pub struct ZonesResponse {
    /// The zones of this page.
    pub zones: Vec<Zone>,
    /// Page number, when reported.
    pub page_number: Option<u32>,
    /// Total pages, when reported.
    pub total_pages: Option<u32>,
    /// Total zones, when reported.
    pub total_zones: Option<u32>,
}

/// Typed record data as the server reports it, one shape per supported
/// type, with a rendered fallback for anything else.
#[derive(Debug, Clone, PartialEq, Eq)]
pub enum RecordData {
    /// IPv4 address text.
    A { ip_address: String },
    /// IPv6 address text.
    AAAA { ip_address: String },
    /// Canonical name.
    CNAME { cname: String },
    /// Mail exchange.
    MX { preference: u16, exchange: String },
    /// Name server.
    NS { name_server: String },
    /// Text record.
    TXT { text: String },
    /// Service locator.
    SRV { priority: u16, weight: u16, port: u16, target: String },
    /// Pointer record.
    PTR { ptr_name: String },
    /// Certification authority authorization.
    CAA { flags: u8, tag: String, value: String },
    /// Delegation signer.
    DS { key_tag: u16, algorithm: String, digest_type: String, digest: String },
    /// Delegation name.
    DNAME { dname: String },
    /// Any other shape, already rendered.
    Other(String),
}

/// Per-type parameters of a record write call.
#[derive(Debug, Clone, PartialEq, Eq)]
pub enum RecordParams {
    /// IPv4 address text.
    A { ip_address: String },
    /// IPv6 address text.
    AAAA { ip_address: String },
    /// Canonical name.
    CNAME { cname: String },
    /// Mail exchange.
    MX { preference: u16, exchange: String },
    /// Name server.
    NS { name_server: String },
    /// Text record.
    TXT { text: String },
    /// Service locator.
    SRV { priority: u16, weight: u16, port: u16, target: String },
    /// Pointer record.
    PTR { ptr_name: String },
    /// Certification authority authorization.
    CAA { flags: u8, tag: String, value: String },
    /// Delegation signer.
    DS { key_tag: u16, algorithm: String, digest_type: String, digest: String },
    /// Delegation name.
    DNAME { dname: String },
    /// Any other shape, already rendered.
    Other { value: String },
}

/// The rendered value of typed record data, as bytes: numbers in decimal,
/// fields separated by spaces, the CAA value quoted.
pub open spec fn spec_value_string(d: RecordData) -> Seq<u8> {
    match d {
        RecordData::A { ip_address } => encode_utf8(ip_address@),
        RecordData::AAAA { ip_address } => encode_utf8(ip_address@),
        RecordData::CNAME { cname } => encode_utf8(cname@),
        RecordData::MX { preference, exchange } => dec_rep(preference as nat) + seq![32u8]
            + encode_utf8(exchange@),
        RecordData::NS { name_server } => encode_utf8(name_server@),
        RecordData::TXT { text } => encode_utf8(text@),
        RecordData::SRV { priority, weight, port, target } => dec_rep(priority as nat) + seq![
            32u8,
        ] + dec_rep(weight as nat) + seq![32u8] + dec_rep(port as nat) + seq![32u8] + encode_utf8(
            target@,
        ),
        RecordData::PTR { ptr_name } => encode_utf8(ptr_name@),
        RecordData::CAA { flags, tag, value } => dec_rep(flags as nat) + seq![32u8] + encode_utf8(
            tag@,
        ) + seq![32u8, 34u8] + encode_utf8(value@) + seq![34u8],
        RecordData::DS { key_tag, algorithm, digest_type, digest } => dec_rep(key_tag as nat)
            + seq![32u8] + encode_utf8(algorithm@) + seq![32u8] + encode_utf8(digest_type@)
            + seq![32u8] + encode_utf8(digest@),
        RecordData::DNAME { dname } => encode_utf8(dname@),
        RecordData::Other(v) => encode_utf8(v@),
    }
}

impl RecordData {
    /// Renders the typed data into the generic value form.
    pub fn to_value_string(&self) -> (r: String)
        ensures
            encode_utf8(r@) == spec_value_string(*self),
    {
        match self {
            RecordData::A { ip_address } => ip_address.clone(),
            RecordData::AAAA { ip_address } => ip_address.clone(),
            RecordData::CNAME { cname } => cname.clone(),
            RecordData::MX { preference, exchange } => {
                let mut out: Vec<u8> = Vec::new();
                push_dec_u64(&mut out, *preference as u64);
                out.push(32);
                push_str_bytes(&mut out, exchange.as_str());
                proof {
                    let prefix = dec_rep(*preference as nat) + seq![32u8];
                    lemma_dec_rep_digits(*preference as nat);
                    lemma_ascii_prefix_valid(prefix, exchange@);
                    assert(out@ =~= prefix + encode_utf8(exchange@));
                }
                string_of_utf8(out.as_slice())
            },
            RecordData::NS { name_server } => name_server.clone(),
            RecordData::TXT { text } => text.clone(),
            RecordData::SRV { priority, weight, port, target } => {
                let mut out: Vec<u8> = Vec::new();
                push_dec_u64(&mut out, *priority as u64);
                out.push(32);
                push_dec_u64(&mut out, *weight as u64);
                out.push(32);
                push_dec_u64(&mut out, *port as u64);
                out.push(32);
                push_str_bytes(&mut out, target.as_str());
                proof {
                    let prefix = dec_rep(*priority as nat) + seq![32u8] + dec_rep(
                        *weight as nat,
                    ) + seq![32u8] + dec_rep(*port as nat) + seq![32u8];
                    lemma_dec_rep_digits(*priority as nat);
                    lemma_dec_rep_digits(*weight as nat);
                    lemma_dec_rep_digits(*port as nat);
                    lemma_ascii_prefix_valid(prefix, target@);
                    assert(out@ =~= prefix + encode_utf8(target@));
                }
                string_of_utf8(out.as_slice())
            },
            RecordData::PTR { ptr_name } => ptr_name.clone(),
            RecordData::CAA { flags, tag, value } => {
                let mut out: Vec<u8> = Vec::new();
                push_dec_u64(&mut out, *flags as u64);
                out.push(32);
                push_str_bytes(&mut out, tag.as_str());
                out.push(32);
                out.push(34);
                push_str_bytes(&mut out, value.as_str());
                out.push(34);
                proof {
                    let p1 = dec_rep(*flags as nat) + seq![32u8];
                    lemma_dec_rep_digits(*flags as nat);
                    lemma_ascii_bytes_chars(p1);
                    vstd::utf8::encode_utf8_valid_utf8(tag@);
                    vstd::utf8::encode_utf8_valid_utf8(value@);
                    lemma_ascii_bytes_chars(seq![32u8, 34u8]);
                    lemma_ascii_bytes_chars(seq![34u8]);
                    vstd::utf8::valid_utf8_concat(p1, encode_utf8(tag@));
                    vstd::utf8::valid_utf8_concat(p1 + encode_utf8(tag@), seq![32u8, 34u8]);
                    vstd::utf8::valid_utf8_concat(
                        p1 + encode_utf8(tag@) + seq![32u8, 34u8],
                        encode_utf8(value@),
                    );
                    vstd::utf8::valid_utf8_concat(
                        p1 + encode_utf8(tag@) + seq![32u8, 34u8] + encode_utf8(value@),
                        seq![34u8],
                    );
                    assert(out@ =~= p1 + encode_utf8(tag@) + seq![32u8, 34u8] + encode_utf8(
                        value@,
                    ) + seq![34u8]);
                    assert(out@ =~= spec_value_string(*self));
                }
                string_of_utf8(out.as_slice())
            },
            RecordData::DS { key_tag, algorithm, digest_type, digest } => {
                let mut out: Vec<u8> = Vec::new();
                push_dec_u64(&mut out, *key_tag as u64);
                out.push(32);
                push_str_bytes(&mut out, algorithm.as_str());
                out.push(32);
                push_str_bytes(&mut out, digest_type.as_str());
                out.push(32);
                push_str_bytes(&mut out, digest.as_str());
                proof {
                    let p1 = dec_rep(*key_tag as nat) + seq![32u8];
                    lemma_dec_rep_digits(*key_tag as nat);
                    lemma_ascii_bytes_chars(p1);
                    lemma_ascii_bytes_chars(seq![32u8]);
                    vstd::utf8::encode_utf8_valid_utf8(algorithm@);
                    vstd::utf8::encode_utf8_valid_utf8(digest_type@);
                    vstd::utf8::encode_utf8_valid_utf8(digest@);
                    vstd::utf8::valid_utf8_concat(p1, encode_utf8(algorithm@));
                    vstd::utf8::valid_utf8_concat(p1 + encode_utf8(algorithm@), seq![32u8]);
                    vstd::utf8::valid_utf8_concat(
                        p1 + encode_utf8(algorithm@) + seq![32u8],
                        encode_utf8(digest_type@),
                    );
                    vstd::utf8::valid_utf8_concat(
                        p1 + encode_utf8(algorithm@) + seq![32u8] + encode_utf8(digest_type@),
                        seq![32u8],
                    );
                    vstd::utf8::valid_utf8_concat(
                        p1 + encode_utf8(algorithm@) + seq![32u8] + encode_utf8(digest_type@)
                            + seq![32u8],
                        encode_utf8(digest@),
                    );
                    assert(out@ =~= p1 + encode_utf8(algorithm@) + seq![32u8] + encode_utf8(
                        digest_type@,
                    ) + seq![32u8] + encode_utf8(digest@));
                    assert(out@ =~= spec_value_string(*self));
                }
                string_of_utf8(out.as_slice())
            },
            RecordData::DNAME { dname } => dname.clone(),
            RecordData::Other(v) => v.clone(),
        }
    }

    /// Converts the typed data to write-call parameters; shapes the write
    /// API cannot express are sent as their rendered value.
    pub fn to_params(&self) -> (r: RecordParams)
        ensures
            match *self {
                RecordData::A { ip_address } => r == RecordParams::A { ip_address },
                RecordData::AAAA { ip_address } => r == RecordParams::AAAA { ip_address },
                RecordData::CNAME { cname } => r == RecordParams::CNAME { cname },
                RecordData::MX { preference, exchange } => r == RecordParams::MX {
                    preference,
                    exchange,
                },
                RecordData::NS { name_server } => r == RecordParams::NS { name_server },
                RecordData::TXT { text } => r == RecordParams::TXT { text },
                RecordData::SRV { priority, weight, port, target } => r == RecordParams::SRV {
                    priority,
                    weight,
                    port,
                    target,
                },
                RecordData::PTR { ptr_name } => r == RecordParams::PTR { ptr_name },
                RecordData::CAA { flags, tag, value } => r == RecordParams::CAA {
                    flags,
                    tag,
                    value,
                },
                RecordData::DS { key_tag, algorithm, digest_type, digest } => r
                    == RecordParams::DS { key_tag, algorithm, digest_type, digest },
                RecordData::DNAME { dname } => r == RecordParams::DNAME { dname },
                RecordData::Other(_) => (match r {
                    RecordParams::Other { value } => encode_utf8(value@) == spec_value_string(
                        *self,
                    ),
                    _ => false,
                }),
            },
    {
        match self {
            RecordData::A { ip_address } => RecordParams::A { ip_address: ip_address.clone() },
            RecordData::AAAA { ip_address } => RecordParams::AAAA {
                ip_address: ip_address.clone(),
            },
            RecordData::CNAME { cname } => RecordParams::CNAME { cname: cname.clone() },
            RecordData::MX { preference, exchange } => RecordParams::MX {
                preference: *preference,
                exchange: exchange.clone(),
            },
            RecordData::NS { name_server } => RecordParams::NS {
                name_server: name_server.clone(),
            },
            RecordData::TXT { text } => RecordParams::TXT { text: text.clone() },
            RecordData::SRV { priority, weight, port, target } => RecordParams::SRV {
                priority: *priority,
                weight: *weight,
                port: *port,
                target: target.clone(),
            },
            RecordData::PTR { ptr_name } => RecordParams::PTR { ptr_name: ptr_name.clone() },
            RecordData::CAA { flags, tag, value } => RecordParams::CAA {
                flags: *flags,
                tag: tag.clone(),
                value: value.clone(),
            },
            RecordData::DS { key_tag, algorithm, digest_type, digest } => RecordParams::DS {
                key_tag: *key_tag,
                algorithm: algorithm.clone(),
                digest_type: digest_type.clone(),
                digest: digest.clone(),
            },
            RecordData::DNAME { dname } => RecordParams::DNAME { dname: dname.clone() },
            RecordData::Other(_) => RecordParams::Other { value: self.to_value_string() },
        }
    }
}

/// An ASCII prefix followed by the bytes of a string is valid UTF-8.
proof fn lemma_ascii_prefix_valid(prefix: Seq<u8>, s: Seq<char>)
    requires
        is_ascii_bytes(prefix),
    ensures
        valid_utf8(prefix + encode_utf8(s)),
{
    lemma_ascii_bytes_chars(prefix);
    vstd::utf8::encode_utf8_valid_utf8(s);
    vstd::utf8::valid_utf8_concat(prefix, encode_utf8(s));
}

/// Converts the generic record data to write-call parameters.
pub fn record_data_to_params(data: &crate::record::RecordData) -> (r: RecordParams)
    ensures
        match data@ {
            crate::record::RecordDataView::A { .. } => (match r {
                RecordParams::A { ip_address } => encode_utf8(ip_address@)
                    == crate::record::spec_rd_value(data@),
                _ => false,
            }),
            crate::record::RecordDataView::AAAA { .. } => (match r {
                RecordParams::AAAA { ip_address } => encode_utf8(ip_address@)
                    == crate::record::spec_rd_value(data@),
                _ => false,
            }),
            crate::record::RecordDataView::CNAME { name } => (match r {
                RecordParams::CNAME { cname } => encode_utf8(cname@) == name,
                _ => false,
            }),
            crate::record::RecordDataView::MX { priority, mail_server } => (match r {
                RecordParams::MX { preference, exchange } => preference == priority
                    && encode_utf8(exchange@) == mail_server,
                _ => false,
            }),
            crate::record::RecordDataView::NS { name } => (match r {
                RecordParams::NS { name_server } => encode_utf8(name_server@) == name,
                _ => false,
            }),
            crate::record::RecordDataView::TXT { text } => (match r {
                RecordParams::TXT { text: t } => encode_utf8(t@) == text,
                _ => false,
            }),
            crate::record::RecordDataView::SRV { priority, weight, port, target } => (match r {
                RecordParams::SRV { priority: p, weight: w, port: po, target: t } => p
                    == priority && w == weight && po == port && encode_utf8(t@) == target,
                _ => false,
            }),
            crate::record::RecordDataView::Other { value, .. } => (match r {
                RecordParams::Other { value: v } => encode_utf8(v@) == value,
                _ => false,
            }),
        },
{
    match data {
        crate::record::RecordData::A(_) => RecordParams::A { ip_address: data.get_value() },
        crate::record::RecordData::AAAA(_) => RecordParams::AAAA {
            ip_address: data.get_value(),
        },
        crate::record::RecordData::CNAME(cname) => RecordParams::CNAME {
            cname: cname.clone(),
        },
        crate::record::RecordData::MX { priority, mail_server } => RecordParams::MX {
            preference: *priority,
            exchange: mail_server.clone(),
        },
        crate::record::RecordData::NS(ns) => RecordParams::NS { name_server: ns.clone() },
        crate::record::RecordData::TXT(txt) => RecordParams::TXT { text: txt.clone() },
        crate::record::RecordData::SRV { priority, weight, port, target } => RecordParams::SRV {
            priority: *priority,
            weight: *weight,
            port: *port,
            target: target.clone(),
        },
        crate::record::RecordData::Other { value, .. } => RecordParams::Other {
            value: value.clone(),
        },
    }
}

/// The rolling hash behind synthesized record identities: a 64-bit
/// accumulator folded over the bytes, multiplying by a fixed odd prime and
/// adding each byte, modulo `2^64`.
pub open spec fn spec_calculate_hash(s: Seq<u8>) -> int
    decreases s.len(),
{
    if s.len() == 0 {
        0xcbf29ce484222325
    } else {
        ((spec_calculate_hash(s.drop_last()) * 0x100000001b3) % 0x1_0000_0000_0000_0000
            + s.last()) % 0x1_0000_0000_0000_0000
    }
}

proof fn lemma_calculate_hash_range(s: Seq<u8>)
    ensures
        0 <= spec_calculate_hash(s) < 0x1_0000_0000_0000_0000,
    decreases s.len(),
{
    if s.len() > 0 {
        lemma_calculate_hash_range(s.drop_last());
    }
}

/// Folds a string's bytes into the identity hash.
pub fn calculate_hash(s: &str) -> (r: u64)
    ensures
        r == spec_calculate_hash(s.spec_bytes()),
{
    let b = s.as_bytes();
    let mut acc: u64 = 0xcbf29ce484222325;
    let mut i: usize = 0;
    while i < b.len()
        invariant
            0 <= i <= b@.len(),
            acc == spec_calculate_hash(b@.subrange(0, i as int)),
        decreases b@.len() - i,
    {
        proof {
            assert(b@.subrange(0, i + 1).drop_last() =~= b@.subrange(0, i as int));
            assert(b@.subrange(0, i + 1).last() == b@[i as int]);
        }
        let wide: u128 = ((acc as u128) * 0x100000001b3) % 0x1_0000_0000_0000_0000;
        let wide2: u128 = (wide + (b[i] as u128)) % 0x1_0000_0000_0000_0000;
        acc = wide2 as u64;
        i = i + 1;
    }
    proof {
        assert(b@.subrange(0, i as int) =~= b@);
    }
    acc
}

/// The synthesized identity of a record on this backend: name, type, and
/// the hex hash of the rendered value, joined by colons.
pub open spec fn spec_tech_record_id(name: Seq<u8>, rt: Seq<u8>, value_hash: int) -> Seq<u8> {
    name + seq![58u8] + rt + seq![58u8] + hex_rep(value_hash as nat, 1)
}

/// Builds the synthesized identity of a record.
pub fn make_tech_record_id(name: &str, record_type: &str, value_hash: u64) -> (r: String)
    ensures
        encode_utf8(r@) == spec_tech_record_id(
            name.spec_bytes(),
            record_type.spec_bytes(),
            value_hash as int,
        ),
{
    let hash = hex_string_of_u64(value_hash, 1);
    let mut out: Vec<u8> = Vec::new();
    push_str_bytes(&mut out, name);
    out.push(58);
    push_str_bytes(&mut out, record_type);
    out.push(58);
    push_str_bytes(&mut out, hash.as_str());
    proof {
        vstd::utf8::encode_utf8_valid_utf8(name@);
        vstd::utf8::encode_utf8_valid_utf8(record_type@);
        vstd::utf8::encode_utf8_valid_utf8(hash@);
        lemma_ascii_bytes_chars(seq![58u8]);
        vstd::utf8::valid_utf8_concat(encode_utf8(name@), seq![58u8]);
        vstd::utf8::valid_utf8_concat(encode_utf8(name@) + seq![58u8], encode_utf8(
            record_type@,
        ));
        vstd::utf8::valid_utf8_concat(
            encode_utf8(name@) + seq![58u8] + encode_utf8(record_type@),
            seq![58u8],
        );
        vstd::utf8::valid_utf8_concat(
            encode_utf8(name@) + seq![58u8] + encode_utf8(record_type@) + seq![58u8],
            encode_utf8(hash@),
        );
        assert(out@ =~= encode_utf8(name@) + seq![58u8] + encode_utf8(record_type@) + seq![58u8]
            + encode_utf8(hash@));
    }
    string_of_utf8(out.as_slice())
}

/// A DNS record as the server reports it, with its typed data.
#[derive(Debug, Clone, PartialEq, Eq)]
pub struct DnsRecord {
    /// Whether the record is disabled.
    pub disabled: bool,
    /// The record's owner name.
    pub name: String,
    /// Record type mnemonic.
    pub record_type: String,
    /// TTL in seconds.
    pub ttl: u64,
    /// The typed record data.
    pub rdata: RecordData,
}

/// Converts a server record to the generic record.  The generic data is
/// parsed from the rendered value, and the identity is synthesized from the
/// name, the type, and the hash of the generic value.
pub fn to_generic_record(rec: DnsRecord) -> (r: crate::record::Record)
    ensures
        r.host@ == rec.name@,
        r.ttl == rec.ttl,
        r.data@ == crate::record::spec_from_raw(
            encode_utf8(rec.record_type@),
            spec_value_string(rec.rdata),
        ),
        encode_utf8(r.id@) == spec_tech_record_id(
            encode_utf8(rec.name@),
            encode_utf8(rec.record_type@),
            spec_calculate_hash(
                crate::record::spec_rd_value(
                    crate::record::spec_from_raw(
                        encode_utf8(rec.record_type@),
                        spec_value_string(rec.rdata),
                    ),
                ),
            ),
        ),
{
    let value = rec.rdata.to_value_string();
    let data = crate::record::RecordData::from_raw(rec.record_type.as_str(), value.as_str());
    let generic_value = data.get_value();
    let hash = calculate_hash(generic_value.as_str());
    let id = make_tech_record_id(rec.name.as_str(), rec.record_type.as_str(), hash);
    crate::record::Record { id, host: rec.name, data, ttl: rec.ttl }
}

} // verus!
