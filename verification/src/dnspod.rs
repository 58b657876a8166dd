//! Pure logic of the DNSPod backend.
//!
//! The API reports most numbers as strings and identifies every failure by
//! a numeric status code.  The logic here builds the mandatory user-agent,
//! reads the stringly-typed TTL fields with their documented defaults, and
//! classifies the status codes into the shared taxonomy, one table per
//! operation family.  The HTTP client lives outside the verified library.

use vstd::prelude::*;

verus! {

use vstd::utf8::{encode_utf8, valid_utf8};
use vstd::string::StringSliceAdditionalSpecFns;
use crate::text::{
    dec_val, is_dec_bytes, parse_dec_u64, push_str_bytes, string_of_utf8, eq_bytes,
    lemma_ascii_bytes_chars,
};
use crate::errors::{
    RetrieveZoneError, RetrieveRecordError, CreateZoneError, CreateRecordError, DeleteZoneError,
    DeleteRecordError,
};

/// Configuration for the DNSPod client: the API demands a user-agent that
/// names the calling program and a contact address.
#[derive(Debug, Clone, PartialEq, Eq)]
pub struct ClientConfig {
    /// The calling program's name.
    pub program_name: String,
    /// The calling program's version.
    pub version: String,
    /// Contact address for the API operator.
    pub contact_email: String,
}

impl ClientConfig {
    /// Builds a configuration.
    pub fn new(program_name: &str, version: &str, contact_email: &str) -> (r: ClientConfig)
        ensures
            r.program_name@ == program_name@,
            r.version@ == version@,
            r.contact_email@ == contact_email@,
    {
        ClientConfig {
            program_name: program_name.to_owned(),
            version: version.to_owned(),
            contact_email: contact_email.to_owned(),
        }
    }

    /// The user-agent the API demands: program, slash, version, then the
    /// contact address in parentheses.
    pub fn user_agent(&self) -> (r: String)
        ensures
            encode_utf8(r@) == encode_utf8(self.program_name@) + seq![47u8] + encode_utf8(
                self.version@,
            ) + seq![32u8, 40u8] + encode_utf8(self.contact_email@) + seq![41u8],
    {
        let mut out: Vec<u8> = Vec::new();
        push_str_bytes(&mut out, self.program_name.as_str());
        out.push(47);
        push_str_bytes(&mut out, self.version.as_str());
        out.push(32);
        out.push(40);
        push_str_bytes(&mut out, self.contact_email.as_str());
        out.push(41);
        proof {
            vstd::utf8::encode_utf8_valid_utf8(self.program_name@);
            vstd::utf8::encode_utf8_valid_utf8(self.version@);
            vstd::utf8::encode_utf8_valid_utf8(self.contact_email@);
            lemma_ascii_bytes_chars(seq![47u8]);
            lemma_ascii_bytes_chars(seq![32u8, 40u8]);
            lemma_ascii_bytes_chars(seq![41u8]);
            vstd::utf8::valid_utf8_concat(encode_utf8(self.program_name@), seq![47u8]);
            vstd::utf8::valid_utf8_concat(
                encode_utf8(self.program_name@) + seq![47u8],
                encode_utf8(self.version@),
            );
            vstd::utf8::valid_utf8_concat(
                encode_utf8(self.program_name@) + seq![47u8] + encode_utf8(self.version@),
                seq![32u8, 40u8],
            );
            vstd::utf8::valid_utf8_concat(
                encode_utf8(self.program_name@) + seq![47u8] + encode_utf8(self.version@) + seq![
                    32u8,
                    40u8,
                ],
                encode_utf8(self.contact_email@),
            );
            vstd::utf8::valid_utf8_concat(
                encode_utf8(self.program_name@) + seq![47u8] + encode_utf8(self.version@) + seq![
                    32u8,
                    40u8,
                ] + encode_utf8(self.contact_email@),
                seq![41u8],
            );
            assert(out@ =~= encode_utf8(self.program_name@) + seq![47u8] + encode_utf8(
                self.version@,
            ) + seq![32u8, 40u8] + encode_utf8(self.contact_email@) + seq![41u8]);
        }
        string_of_utf8(out.as_slice())
    }
}

/// The status part of every API response.
#[derive(Debug, Clone, PartialEq, Eq)]
pub struct Status {
    /// Numeric status code, as the API spells it; `1` is success.
    pub code: String,
    /// Human-readable message.
    pub message: String,
    /// Creation time of the response, when reported.
    pub created_at: Option<String>,
}

/// Failures of the DNSPod backend: an API status that was not success.
/// Transport failures are the HTTP layer's affair and stay outside this
/// type.
#[derive(Debug, Clone, PartialEq, Eq)]
pub enum DnspodError {
    /// The API answered with a non-success status.
    Api(Status),
}

impl DnspodError {
    /// The message of the failure.
    pub fn message(&self) -> (r: String)
        ensures
            match self {
                DnspodError::Api(s) => r@ == s.message@,
            },
    {
        match self {
            DnspodError::Api(s) => s.message.clone(),
        }
    }
}

/// The string-or-number TTL field read with a default: the documented
/// fallback applies when the field is absent or does not parse.
pub open spec fn spec_ttl_field(t: Option<Seq<char>>, default_ttl: u64) -> u64 {
    match t {
        Some(s) => if is_dec_bytes(encode_utf8(s)) && dec_val(encode_utf8(s)) <= u64::MAX {
            dec_val(encode_utf8(s)) as u64
        } else {
            default_ttl
        },
        None => default_ttl,
    }
}

/// Reads an optional decimal string with a default.
fn ttl_field(t: &Option<String>, default_ttl: u64) -> (r: u64)
    ensures
        r == spec_ttl_field(
            match t {
                Some(s) => Some(s@),
                None => None,
            },
            default_ttl,
        ),
{
    match t {
        Some(s) => {
            match parse_dec_u64(s.as_str().as_bytes()) {
                Some(v) => v,
                None => default_ttl,
            }
        },
        None => default_ttl,
    }
}

/// A domain as the API lists it; unrecognized detail fields are carried as
/// the API sent them.
#[derive(Debug, Clone, PartialEq, Eq)]
pub struct Domain {
    /// Domain identity, as a string.
    pub id: String,
    /// Domain name.
    pub name: String,
    /// Punycode spelling, when reported.
    pub punycode: Option<String>,
    /// Service grade, when reported.
    pub grade: Option<String>,
    /// Domain status, when reported.
    pub status: Option<String>,
    /// Record count, as a string, when reported.
    pub records: Option<String>,
    /// Default TTL, as a string, when reported.
    pub ttl: Option<String>,
    /// Owner, when reported.
    pub owner: Option<String>,
}

impl Domain {
    /// The domain's default TTL; the API's documented fallback is 600
    /// seconds.
    pub fn get_ttl(&self) -> (r: u64)
        ensures
            r == spec_ttl_field(
                match self.ttl {
                    Some(s) => Some(s@),
                    None => None,
                },
                600,
            ),
    {
        ttl_field(&self.ttl, 600)
    }
}

/// A record as the API lists it.
#[derive(Debug, Clone, PartialEq, Eq)]
pub struct DnsRecord {
    /// Record identity, as a string.
    pub id: String,
    /// The record's relative name.
    pub name: String,
    /// Resolution line, when reported.
    pub line: Option<String>,
    /// Record type, when reported.
    pub record_type: Option<String>,
    /// TTL, as a string, when reported.
    pub ttl: Option<String>,
    /// The record value.
    pub value: String,
    /// MX preference, as a string, when reported.
    pub mx: Option<String>,
    /// Whether the record is enabled, as a string, when reported.
    pub enabled: Option<String>,
    /// Record status, when reported.
    pub status: Option<String>,
    /// Remark, when reported.
    pub remark: Option<String>,
}

impl DnsRecord {
    /// The record's TTL, with the zone default as fallback.
    pub fn get_ttl(&self, default_ttl: u64) -> (r: u64)
        ensures
            r == spec_ttl_field(
                match self.ttl {
                    Some(s) => Some(s@),
                    None => None,
                },
                default_ttl,
            ),
    {
        ttl_field(&self.ttl, default_ttl)
    }

    /// The record's type; the API's default is an address record.
    pub fn get_type(&self) -> (r: &str)
        ensures
            match self.record_type {
                Some(s) => r@ == s@,
                None => r@ == "A"@,
            },
    {
        match &self.record_type {
            Some(s) => s.as_str(),
            None => "A",
        }
    }
}

/// A record as the detail call reports it.
#[derive(Debug, Clone, PartialEq, Eq)]
pub struct RecordInfo {
    /// Record identity, as a string.
    pub id: String,
    /// The record's relative name.
    pub sub_domain: String,
    /// Record type.
    pub record_type: String,
    /// Resolution line.
    pub record_line: String,
    /// The record value.
    pub value: String,
    /// MX preference, as a string, when reported.
    pub mx: Option<String>,
    /// TTL, as a string, when reported.
    pub ttl: Option<String>,
    /// Whether the record is enabled, as a string, when reported.
    pub enabled: Option<String>,
    /// Remark, when reported.
    pub remark: Option<String>,
    /// The owning domain's identity, when reported.
    pub domain_id: Option<String>,
}

impl RecordInfo {
    /// The record's TTL, with the zone default as fallback.
    pub fn get_ttl(&self, default_ttl: u64) -> (r: u64)
        ensures
            r == spec_ttl_field(
                match self.ttl {
                    Some(s) => Some(s@),
                    None => None,
                },
                default_ttl,
            ),
    {
        ttl_field(&self.ttl, default_ttl)
    }
}

/// Counters of a domain listing.
#[derive(Debug, Clone, Copy, PartialEq, Eq, Structural)]
pub struct DomainListInfo {
    /// Domains matching the query.
    pub domain_total: Option<u32>,
    /// All domains of the account.
    pub all_total: Option<u32>,
    /// Domains owned by the account.
    pub mine_total: Option<u32>,
    /// Domains shared with the account.
    pub share_total: Option<u32>,
}

/// Response of the domain listing call.
#[derive(Debug, Clone, PartialEq, Eq)]
pub struct DomainListResponse {
    /// The response status.
    pub status: Status,
    /// Listing counters, when present.
    pub info: Option<DomainListInfo>,
    /// The domains of this page.
    pub domains: Option<Vec<Domain>>,
}

/// Response of the domain detail call.
#[derive(Debug, Clone, PartialEq, Eq)]
pub struct DomainInfoResponse {
    /// The response status.
    pub status: Status,
    /// The domain, present on success.
    pub domain: Option<Domain>,
}

/// The created domain inside a creation response.
#[derive(Debug, Clone, PartialEq, Eq)]
pub struct DomainCreateDomain {
    /// The new domain's identity.
    pub id: String,
    /// Punycode spelling, when reported.
    pub punycode: Option<String>,
    /// The new domain's name, when reported.
    pub domain: Option<String>,
}

/// Response of the domain creation call.
#[derive(Debug, Clone, PartialEq, Eq)]
pub struct DomainCreateResponse {
    /// The response status.
    pub status: Status,
    /// The created domain.
    pub domain: DomainCreateDomain,
}

/// Counters of a record listing.
#[derive(Debug, Clone, PartialEq, Eq)]
pub struct RecordListInfo {
    /// Distinct subdomains, as a string, when reported.
    pub sub_domains: Option<String>,
    /// Total records, as a string, when reported.
    pub record_total: Option<String>,
}

/// Domain summary inside a record listing.
#[derive(Debug, Clone, PartialEq, Eq)]
pub struct RecordListDomain {
    /// The domain's identity.
    pub id: String,
    /// The domain's name.
    pub name: String,
    /// Punycode spelling, when reported.
    pub punycode: Option<String>,
    /// Service grade, when reported.
    pub grade: Option<String>,
    /// Owner, when reported.
    pub owner: Option<String>,
}

/// Domain summary inside a record detail response.
#[derive(Debug, Clone, PartialEq, Eq)]
pub struct RecordInfoDomain {
    /// The domain's identity.
    pub id: String,
    /// The domain's name.
    pub domain: String,
    /// Service grade, when reported.
    pub domain_grade: Option<String>,
}

/// Response of the record detail call.
#[derive(Debug, Clone, PartialEq, Eq)]
pub struct RecordInfoResponse {
    /// The response status.
    pub status: Status,
    /// The owning domain.
    pub domain: RecordInfoDomain,
    /// The record.
    pub record: RecordInfo,
}

/// The created record inside a creation response.
#[derive(Debug, Clone, PartialEq, Eq)]
pub struct RecordCreateRecord {
    /// The new record's identity.
    pub id: String,
    /// The new record's name.
    pub name: String,
    /// The new record's status, when reported.
    pub status: Option<String>,
}

/// Response of the record creation call.
#[derive(Debug, Clone, PartialEq, Eq)]
pub struct RecordCreateResponse {
    /// The response status.
    pub status: Status,
    /// The created record, present on success.
    pub record: Option<RecordCreateRecord>,
}

/// The modified record inside a modification response.
#[derive(Debug, Clone, PartialEq, Eq)]
pub struct RecordModifyRecord {
    /// The record's identity.
    pub id: String,
    /// The record's name.
    pub name: String,
    /// The record's value, when reported.
    pub value: Option<String>,
    /// The record's status, when reported.
    pub status: Option<String>,
}

/// Response of the record modification call.
#[derive(Debug, Clone, PartialEq, Eq)]
pub struct RecordModifyResponse {
    /// The response status.
    pub status: Status,
    /// The modified record.
    pub record: RecordModifyRecord,
}

/// The record inside a status-toggle response.
#[derive(Debug, Clone, PartialEq, Eq)]
pub struct RecordStatusRecord {
    /// The record's identity.
    pub id: String,
    /// The record's name.
    pub name: String,
    /// The record's status, when reported.
    pub status: Option<String>,
}

/// Response of the record status-toggle call.
#[derive(Debug, Clone, PartialEq, Eq)]
pub struct RecordStatusResponse {
    /// The response status.
    pub status: Status,
    /// The toggled record.
    pub record: RecordStatusRecord,
}

/// Classifies a status code for zone retrieval: `-1` is unauthorized, `6`
/// and `8` mean the domain is missing, anything else passes through.
pub fn classify_zone_retrieve(code: &str, err: DnspodError) -> (r: RetrieveZoneError<DnspodError>)
    ensures
        r == {
            let b = code.spec_bytes();
            if b == encode_utf8("-1"@) {
                RetrieveZoneError::<DnspodError>::Unauthorized
            } else if b == encode_utf8("6"@) || b == encode_utf8("8"@) {
                RetrieveZoneError::<DnspodError>::NotFound
            } else {
                RetrieveZoneError::Custom(err)
            }
        },
{
    let b = code.as_bytes();
    if eq_bytes(b, "-1".as_bytes()) {
        RetrieveZoneError::Unauthorized
    } else if eq_bytes(b, "6".as_bytes()) || eq_bytes(b, "8".as_bytes()) {
        RetrieveZoneError::NotFound
    } else {
        RetrieveZoneError::Custom(err)
    }
}

/// Classifies a status code for zone creation: `-1` and `12` are
/// authorization failures; `6`, `7`, `11` and `41` mean the name was
/// rejected or taken; anything else passes through.
pub fn classify_zone_create(code: &str, err: DnspodError) -> (r: CreateZoneError<DnspodError>)
    ensures
        r == {
            let b = code.spec_bytes();
            if b == encode_utf8("-1"@) || b == encode_utf8("12"@) {
                CreateZoneError::<DnspodError>::Unauthorized
            } else if b == encode_utf8("6"@) || b == encode_utf8("7"@) || b == encode_utf8(
                "11"@,
            ) || b == encode_utf8("41"@) {
                CreateZoneError::<DnspodError>::InvalidDomainName
            } else {
                CreateZoneError::Custom(err)
            }
        },
{
    let b = code.as_bytes();
    if eq_bytes(b, "-1".as_bytes()) || eq_bytes(b, "12".as_bytes()) {
        CreateZoneError::Unauthorized
    } else if eq_bytes(b, "6".as_bytes()) || eq_bytes(b, "7".as_bytes()) || eq_bytes(
        b,
        "11".as_bytes(),
    ) || eq_bytes(b, "41".as_bytes()) {
        CreateZoneError::InvalidDomainName
    } else {
        CreateZoneError::Custom(err)
    }
}

/// Classifies a status code for zone deletion: `-1`, `-15`, `7`, `8` and
/// `9` are authorization failures, `6` means the domain is missing,
/// anything else passes through.
pub fn classify_zone_delete(code: &str, err: DnspodError) -> (r: DeleteZoneError<DnspodError>)
    ensures
        r == {
            let b = code.spec_bytes();
            if b == encode_utf8("-1"@) || b == encode_utf8("-15"@) || b == encode_utf8("7"@)
                || b == encode_utf8("8"@) || b == encode_utf8("9"@) {
                DeleteZoneError::<DnspodError>::Unauthorized
            } else if b == encode_utf8("6"@) {
                DeleteZoneError::<DnspodError>::NotFound
            } else {
                DeleteZoneError::Custom(err)
            }
        },
{
    let b = code.as_bytes();
    if eq_bytes(b, "-1".as_bytes()) || eq_bytes(b, "-15".as_bytes()) || eq_bytes(
        b,
        "7".as_bytes(),
    ) || eq_bytes(b, "8".as_bytes()) || eq_bytes(b, "9".as_bytes()) {
        DeleteZoneError::Unauthorized
    } else if eq_bytes(b, "6".as_bytes()) {
        DeleteZoneError::NotFound
    } else {
        DeleteZoneError::Custom(err)
    }
}

/// Classifies a status code for record retrieval: `-1` and `7` are
/// authorization failures; `6` and `8` mean the domain or record is
/// missing; anything else passes through.
pub fn classify_record_retrieve(code: &str, err: DnspodError) -> (r: RetrieveRecordError<
    DnspodError,
>)
    ensures
        r == {
            let b = code.spec_bytes();
            if b == encode_utf8("-1"@) || b == encode_utf8("7"@) {
                RetrieveRecordError::<DnspodError>::Unauthorized
            } else if b == encode_utf8("6"@) || b == encode_utf8("8"@) {
                RetrieveRecordError::<DnspodError>::NotFound
            } else {
                RetrieveRecordError::Custom(err)
            }
        },
{
    let b = code.as_bytes();
    if eq_bytes(b, "-1".as_bytes()) || eq_bytes(b, "7".as_bytes()) {
        RetrieveRecordError::Unauthorized
    } else if eq_bytes(b, "6".as_bytes()) || eq_bytes(b, "8".as_bytes()) {
        RetrieveRecordError::NotFound
    } else {
        RetrieveRecordError::Custom(err)
    }
}

/// Classifies a status code for record creation, after the API's table:
/// authorization failures, an unsupported type, and the several codes that
/// mean the record was rejected.
pub fn classify_record_create(code: &str, err: DnspodError) -> (r: CreateRecordError<DnspodError>)
    ensures
        r == {
            let b = code.spec_bytes();
            if b == encode_utf8("-1"@) || b == encode_utf8("-15"@) || b == encode_utf8("7"@)
                || b == encode_utf8("21"@) {
                CreateRecordError::<DnspodError>::Unauthorized
            } else if b == encode_utf8("27"@) {
                CreateRecordError::<DnspodError>::UnsupportedType
            } else if b == encode_utf8("6"@) || b == encode_utf8("22"@) || b == encode_utf8(
                "23"@,
            ) || b == encode_utf8("24"@) || b == encode_utf8("25"@) || b == encode_utf8("26"@)
                || b == encode_utf8("30"@) || b == encode_utf8("31"@) || b == encode_utf8(
                "32"@,
            ) || b == encode_utf8("33"@) || b == encode_utf8("34"@) {
                CreateRecordError::<DnspodError>::InvalidRecord
            } else {
                CreateRecordError::Custom(err)
            }
        },
{
    let b = code.as_bytes();
    if eq_bytes(b, "-1".as_bytes()) || eq_bytes(b, "-15".as_bytes()) || eq_bytes(
        b,
        "7".as_bytes(),
    ) || eq_bytes(b, "21".as_bytes()) {
        CreateRecordError::Unauthorized
    } else if eq_bytes(b, "27".as_bytes()) {
        CreateRecordError::UnsupportedType
    } else if eq_bytes(b, "6".as_bytes()) || eq_bytes(b, "22".as_bytes()) || eq_bytes(
        b,
        "23".as_bytes(),
    ) || eq_bytes(b, "24".as_bytes()) || eq_bytes(b, "25".as_bytes()) || eq_bytes(
        b,
        "26".as_bytes(),
    ) || eq_bytes(b, "30".as_bytes()) || eq_bytes(b, "31".as_bytes()) || eq_bytes(
        b,
        "32".as_bytes(),
    ) || eq_bytes(b, "33".as_bytes()) || eq_bytes(b, "34".as_bytes()) {
        CreateRecordError::InvalidRecord
    } else {
        CreateRecordError::Custom(err)
    }
}

/// Classifies a status code for record deletion: `-1`, `-15`, `7` and `21`
/// are authorization failures; `6` and `8` mean the domain or record is
/// missing; anything else passes through.
pub fn classify_record_delete(code: &str, err: DnspodError) -> (r: DeleteRecordError<DnspodError>)
    ensures
        r == {
            let b = code.spec_bytes();
            if b == encode_utf8("-1"@) || b == encode_utf8("-15"@) || b == encode_utf8("7"@)
                || b == encode_utf8("21"@) {
                DeleteRecordError::<DnspodError>::Unauthorized
            } else if b == encode_utf8("6"@) || b == encode_utf8("8"@) {
                DeleteRecordError::<DnspodError>::NotFound
            } else {
                DeleteRecordError::Custom(err)
            }
        },
{
    let b = code.as_bytes();
    if eq_bytes(b, "-1".as_bytes()) || eq_bytes(b, "-15".as_bytes()) || eq_bytes(
        b,
        "7".as_bytes(),
    ) || eq_bytes(b, "21".as_bytes()) {
        DeleteRecordError::Unauthorized
    } else if eq_bytes(b, "6".as_bytes()) || eq_bytes(b, "8".as_bytes()) {
        DeleteRecordError::NotFound
    } else {
        DeleteRecordError::Custom(err)
    }
}

/// Converts a listed record to the generic record: the value is parsed by
/// type, and the TTL falls back to the zone default.
pub fn record_from_api(rec: &DnsRecord, default_ttl: u64) -> (r: crate::record::Record)
    ensures
        r.id@ == rec.id@,
        r.host@ == rec.name@,
        r.data@ == crate::record::spec_from_raw(
            (match rec.record_type {
                Some(s) => encode_utf8(s@),
                None => encode_utf8("A"@),
            }),
            encode_utf8(rec.value@),
        ),
        r.ttl == spec_ttl_field(
            match rec.ttl {
                Some(s) => Some(s@),
                None => None,
            },
            default_ttl,
        ),
{
    let data = crate::record::RecordData::from_raw(rec.get_type(), rec.value.as_str());
    crate::record::Record {
        id: rec.id.clone(),
        host: rec.name.clone(),
        data,
        ttl: rec.get_ttl(default_ttl),
    }
}

/// Converts a record detail to the generic record.
pub fn record_from_info(rec: &RecordInfo, default_ttl: u64) -> (r: crate::record::Record)
    ensures
        r.id@ == rec.id@,
        r.host@ == rec.sub_domain@,
        r.data@ == crate::record::spec_from_raw(
            encode_utf8(rec.record_type@),
            encode_utf8(rec.value@),
        ),
        r.ttl == spec_ttl_field(
            match rec.ttl {
                Some(s) => Some(s@),
                None => None,
            },
            default_ttl,
        ),
{
    let data = crate::record::RecordData::from_raw(rec.record_type.as_str(), rec.value.as_str());
    crate::record::Record {
        id: rec.id.clone(),
        host: rec.sub_domain.clone(),
        data,
        ttl: rec.get_ttl(default_ttl),
    }
}

} // verus!
