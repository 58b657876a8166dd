//! Pure logic of the Cloudflare backend.
//!
//! The API reports full owner names under a zone; the logic here extracts
//! the subdomain, converts reported records into the generic model, and
//! builds the creation request for generic record data.  The HTTP client
//! lives outside the verified library.

use vstd::prelude::*;

verus! {

use vstd::utf8::{encode_utf8, valid_utf8};
use vstd::string::StringSliceAdditionalSpecFns;
use crate::text::{
    spec_ends_with, ends_with_bytes, string_of_utf8, push_str_bytes, eq_bytes,
    lemma_ascii_bytes_chars,
};
use crate::addr::{Ipv4Addr, Ipv6Addr, spec_parse_ipv4, spec_parse_ipv6};
use crate::record::{
    Record, RecordData, RecordDataView, spec_rd_type, spec_rd_value, space_fields,
};
use crate::namecrane::{priority_or, u16_or_zero};

/// An error item of an API response.
#[derive(Debug, Clone, PartialEq, Eq)]
pub struct ApiError {
    /// Numeric error code.
    pub code: i32,
    /// Error message.
    pub message: String,
}

/// A zone as the API reports it.
#[derive(Debug, Clone, PartialEq, Eq)]
pub struct Zone {
    /// Zone identity: a hex string.
    pub id: String,
    /// Domain name.
    pub name: String,
    /// Zone status.
    pub status: String,
    /// Whether the zone is paused.
    pub paused: bool,
    /// Zone type, when reported.
    pub zone_type: Option<String>,
}

/// Structured SRV data of a reported record.
#[derive(Debug, Clone, PartialEq, Eq)]
pub struct SrvData {
    /// Service name, without the underscore.
    pub service: Option<String>,
    /// Protocol, without the underscore.
    pub proto: Option<String>,
    /// Record name.
    pub name: Option<String>,
    /// Priority.
    pub priority: Option<u16>,
    /// Weight.
    pub weight: Option<u16>,
    /// Port.
    pub port: Option<u16>,
    /// Target host.
    pub target: Option<String>,
}

/// A DNS record as the API reports it.
#[derive(Debug, Clone, PartialEq, Eq)]
pub struct DnsRecord {
    /// Record identity: a hex string.
    pub id: String,
    /// The owning zone's identity, when reported.
    pub zone_id: Option<String>,
    /// The owning zone's name, when reported.
    pub zone_name: Option<String>,
    /// Full owner name.
    pub name: String,
    /// Record type mnemonic.
    pub record_type: String,
    /// The record value.
    pub content: String,
    /// Whether the record is proxied.
    pub proxied: bool,
    /// TTL in seconds; one means automatic.
    pub ttl: u32,
    /// Priority, for MX and SRV records.
    pub priority: Option<u16>,
    /// Comment, when present.
    pub comment: Option<String>,
    /// Structured SRV data, when present.
    pub data: Option<SrvData>,
}

/// Why a reported record could not become a generic record.
#[derive(Debug, Clone, PartialEq, Eq)]
pub struct RecordConversionError {
    /// The record type that failed to convert.
    pub record_type: String,
    /// What went wrong, in words.
    pub reason: String,
}

/// A reported record paired with its zone name, which the subdomain
/// extraction needs.
pub struct DnsRecordWithZone<'a> {
    /// The reported record.
    pub record: &'a DnsRecord,
    /// The owning zone's domain name.
    pub zone_name: &'a str,
}

/// The subdomain under a zone: the zone itself is the apex marker, a name
/// under the zone keeps only its prefix, and anything else is kept whole.
pub open spec fn spec_cf_host(name: Seq<u8>, zone: Seq<u8>) -> Seq<u8> {
    if name == zone {
        encode_utf8("@"@)
    } else if spec_ends_with(name, seq![46u8] + zone) {
        name.subrange(0, name.len() - zone.len() - 1)
    } else {
        name
    }
}

/// What generic data a reported record stands for, when it can.
pub open spec fn spec_cf_data(rec: DnsRecord) -> Option<RecordDataView> {
    let rt = encode_utf8(rec.record_type@);
    let c = encode_utf8(rec.content@);
    if rt == encode_utf8("A"@) {
        match spec_parse_ipv4(c) {
            Some(o) => Some(RecordDataView::A { a: o.0, b: o.1, c: o.2, d: o.3 }),
            None => None,
        }
    } else if rt == encode_utf8("AAAA"@) {
        match spec_parse_ipv6(c) {
            Some(groups) => Some(RecordDataView::AAAA { groups }),
            None => None,
        }
    } else if rt == encode_utf8("CNAME"@) {
        Some(RecordDataView::CNAME { name: c })
    } else if rt == encode_utf8("MX"@) {
        Some(RecordDataView::MX { priority: priority_or(rec.priority, 10), mail_server: c })
    } else if rt == encode_utf8("NS"@) {
        Some(RecordDataView::NS { name: c })
    } else if rt == encode_utf8("TXT"@) {
        Some(RecordDataView::TXT { text: c })
    } else if rt == encode_utf8("SRV"@) {
        match rec.data {
            Some(d) => Some(
                RecordDataView::SRV {
                    priority: priority_or(d.priority, 0),
                    weight: priority_or(d.weight, 0),
                    port: priority_or(d.port, 0),
                    target: match d.target {
                        Some(t) => encode_utf8(t@),
                        None => Seq::empty(),
                    },
                },
            ),
            None => {
                let f = space_fields(c);
                if f.len() >= 4 {
                    Some(
                        RecordDataView::SRV {
                            priority: u16_or_zero(f[0]),
                            weight: u16_or_zero(f[1]),
                            port: u16_or_zero(f[2]),
                            target: f[3],
                        },
                    )
                } else {
                    None
                }
            },
        }
    } else {
        None
    }
}

impl<'a> DnsRecordWithZone<'a> {
    /// Pairs a reported record with its zone name.
    pub fn new(record: &'a DnsRecord, zone_name: &'a str) -> (r: DnsRecordWithZone<'a>)
        ensures
            r.record == record,
            r.zone_name@ == zone_name@,
    {
        DnsRecordWithZone { record, zone_name }
    }

    /// Converts the reported record into a generic record, extracting the
    /// subdomain from the full owner name.  Fails exactly when the record's
    /// data cannot be expressed: a malformed address, an SRV without enough
    /// fields, or a type outside the supported set.
    pub fn try_into_record(&self) -> (r: Result<Record, RecordConversionError>)
        ensures
            match r {
                Ok(rec) => {
                    &&& spec_cf_data(*self.record) == Some(rec.data@)
                    &&& rec.id@ == self.record.id@
                    &&& encode_utf8(rec.host@) == spec_cf_host(
                        encode_utf8(self.record.name@),
                        encode_utf8(self.zone_name@),
                    )
                    &&& rec.ttl == self.record.ttl as u64
                },
                Err(e) => spec_cf_data(*self.record) is None && e.record_type@
                    == self.record.record_type@,
            },
    {
        let record = self.record;
        let host = extract_host(record.name.as_str(), self.zone_name);
        let rt = record.record_type.as_str();
        let data: RecordData = if eq_bytes(rt.as_bytes(), "A".as_bytes()) {
            match Ipv4Addr::parse(record.content.as_str()) {
                Some(ip) => RecordData::A(ip),
                None => {
                    return Err(
                        RecordConversionError {
                            record_type: record.record_type.clone(),
                            reason: "invalid IPv4 address".to_owned(),
                        },
                    );
                },
            }
        } else if eq_bytes(rt.as_bytes(), "AAAA".as_bytes()) {
            match Ipv6Addr::parse(record.content.as_str()) {
                Some(ip) => RecordData::AAAA(ip),
                None => {
                    return Err(
                        RecordConversionError {
                            record_type: record.record_type.clone(),
                            reason: "invalid IPv6 address".to_owned(),
                        },
                    );
                },
            }
        } else if eq_bytes(rt.as_bytes(), "CNAME".as_bytes()) {
            RecordData::CNAME(record.content.clone())
        } else if eq_bytes(rt.as_bytes(), "MX".as_bytes()) {
            let priority = match record.priority {
                Some(p) => p,
                None => 10,
            };
            RecordData::MX { priority, mail_server: record.content.clone() }
        } else if eq_bytes(rt.as_bytes(), "NS".as_bytes()) {
            RecordData::NS(record.content.clone())
        } else if eq_bytes(rt.as_bytes(), "TXT".as_bytes()) {
            RecordData::TXT(record.content.clone())
        } else if eq_bytes(rt.as_bytes(), "SRV".as_bytes()) {
            match &record.data {
                Some(d) => {
                    let priority = match d.priority {
                        Some(p) => p,
                        None => 0,
                    };
                    let weight = match d.weight {
                        Some(w) => w,
                        None => 0,
                    };
                    let port = match d.port {
                        Some(p) => p,
                        None => 0,
                    };
                    let target = match &d.target {
                        Some(t) => t.clone(),
                        None => String::new(),
                    };
                    proof {
                        assert(encode_utf8(Seq::<char>::empty()) =~= Seq::<u8>::empty());
                    }
                    RecordData::SRV { priority, weight, port, target }
                },
                None => {
                    match srv_from_content(record.content.as_str()) {
                        Some(d) => d,
                        None => {
                            return Err(
                                RecordConversionError {
                                    record_type: record.record_type.clone(),
                                    reason:
                                        "SRV record requires 4 parts: priority weight port target".to_owned(),
                                },
                            );
                        },
                    }
                },
            }
        } else {
            return Err(
                RecordConversionError {
                    record_type: record.record_type.clone(),
                    reason: "unsupported record type".to_owned(),
                },
            );
        };
        Ok(Record { id: record.id.clone(), host, data, ttl: record.ttl as u64 })
    }
}

/// Reads SRV data from a space-separated content value with at least four
/// fields.
fn srv_from_content(content: &str) -> (r: Option<RecordData>)
    ensures
        match r {
            Some(d) => {
                let f = space_fields(content.spec_bytes());
                &&& f.len() >= 4
                &&& d@ == RecordDataView::SRV {
                    priority: u16_or_zero(f[0]),
                    weight: u16_or_zero(f[1]),
                    port: u16_or_zero(f[2]),
                    target: f[3],
                }
            },
            None => space_fields(content.spec_bytes()).len() < 4,
        },
{
    let cb = content.as_bytes();
    proof {
        vstd::utf8::encode_utf8_valid_utf8(content@);
    }
    let fields = crate::record::space_fields_vec(cb);
    if fields.len() < 4 {
        return None;
    }
    let priority = crate::record::u16_field_or_default(fields[0].as_slice(), 0);
    let weight = crate::record::u16_field_or_default(fields[1].as_slice(), 0);
    let port = crate::record::u16_field_or_default(fields[2].as_slice(), 0);
    proof {
        crate::record::lemma_space_field_valid(content.spec_bytes(), 3);
    }
    let target = match crate::text::utf8_to_owned(fields[3].as_slice()) {
        Some(t) => t,
        None => vstd::pervasive::unreached(),
    };
    Some(RecordData::SRV { priority, weight, port, target })
}

/// Extracts the subdomain of a full owner name under a zone.
fn extract_host(name: &str, zone_name: &str) -> (r: String)
    ensures
        encode_utf8(r@) == spec_cf_host(name.spec_bytes(), zone_name.spec_bytes()),
{
    let nb = name.as_bytes();
    let zb = zone_name.as_bytes();
    if eq_bytes(nb, zb) {
        proof {
            reveal_strlit("@");
            lemma_ascii_bytes_chars(seq![64u8]);
            assert("@"@ =~= crate::text::chars_of_bytes(seq![64u8]));
        }
        let mut out: Vec<u8> = Vec::new();
        out.push(64);
        proof {
            assert(out@ =~= encode_utf8("@"@));
        }
        return string_of_utf8(out.as_slice());
    }
    let mut dotted: Vec<u8> = Vec::new();
    dotted.push(46);
    push_str_bytes(&mut dotted, zone_name);
    proof {
        assert(dotted@ =~= seq![46u8] + encode_utf8(zone_name@));
    }
    if ends_with_bytes(nb, dotted.as_slice()) {
        let cut = name.as_bytes().len() - zone_name.as_bytes().len() - 1;
        proof {
            vstd::utf8::encode_utf8_valid_utf8(name@);
            assert(nb@[cut as int] == (seq![46u8] + encode_utf8(zone_name@))[0]);
            vstd::utf8::utf8_byte_ranges_bitwise(nb@[cut as int]);
            vstd::utf8::is_char_boundary_iff_is_leading_byte(nb@, cut as int);
            vstd::utf8::valid_utf8_split(nb@, cut as int);
        }
        let prefix = vstd::slice::slice_subrange(nb, 0, cut);
        string_of_utf8(prefix)
    } else {
        name.to_owned()
    }
}

/// Why a creation request could not be built.
#[derive(Debug, Clone, Copy, PartialEq, Eq, Structural)]
pub enum CreateRequestError {
    /// The record type is outside the backend's supported set.
    UnsupportedType,
}

/// The body of a record creation call.
#[derive(Debug, Clone, PartialEq, Eq)]
pub struct CreateRecordRequest {
    /// Record type mnemonic.
    pub record_type: String,
    /// Full owner name.
    pub name: String,
    /// The record value.
    pub content: String,
    /// TTL in seconds; one means automatic.
    pub ttl: u32,
    /// Whether to proxy the record.
    pub proxied: Option<bool>,
    /// Priority, for MX and SRV records.
    pub priority: Option<u16>,
    /// Structured SRV data, for SRV records.
    pub data: Option<SrvData>,
}

/// The record types creation accepts.
pub open spec fn spec_cf_supported(t: Seq<u8>) -> bool {
    ||| t == encode_utf8("A"@)
    ||| t == encode_utf8("AAAA"@)
    ||| t == encode_utf8("CNAME"@)
    ||| t == encode_utf8("MX"@)
    ||| t == encode_utf8("NS"@)
    ||| t == encode_utf8("TXT"@)
    ||| t == encode_utf8("SRV"@)
}

/// The full owner name a creation uses: the apex marker or the empty host
/// name the zone itself, a host already ending in the zone kept whole, and
/// anything else dotted onto the zone.
pub open spec fn spec_cf_full_name(host: Seq<u8>, zone: Seq<u8>) -> Seq<u8> {
    if host == encode_utf8("@"@) || host.len() == 0 {
        zone
    } else if spec_ends_with(host, zone) {
        host
    } else {
        host + seq![46u8] + zone
    }
}

impl CreateRecordRequest {
    /// Builds a creation request from generic record data.  Fails exactly
    /// when the data's type is outside the supported set; the value sent is
    /// the data's generic value, except that SRV content carries weight,
    /// port and target with the priority in its own field, and MX carries
    /// the mail server with its preference in its own field.
    pub fn from_record_data(host: &str, data: &RecordData, ttl: u64, zone_name: &str) -> (r:
        Result<CreateRecordRequest, CreateRequestError>)
        ensures
            match r {
                Ok(req) => {
                    &&& spec_cf_supported(spec_rd_type(data@))
                    &&& encode_utf8(req.record_type@) == spec_rd_type(data@)
                    &&& encode_utf8(req.name@) == spec_cf_full_name(
                        encode_utf8(host@),
                        encode_utf8(zone_name@),
                    )
                    &&& encode_utf8(req.content@) == crate::record::spec_rd_api_value(data@)
                    &&& req.ttl == (if ttl == 0 {
                        1u32
                    } else {
                        (ttl % 0x1_0000_0000) as u32
                    })
                    &&& req.proxied == Some(false)
                    &&& req.priority == (match data@ {
                        RecordDataView::MX { priority, .. } => Some(priority),
                        RecordDataView::SRV { priority, .. } => Some(priority),
                        _ => None::<u16>,
                    })
                },
                Err(_) => !spec_cf_supported(spec_rd_type(data@)),
            },
    {
        let typ = data.get_type();
        if !(eq_bytes(typ.as_bytes(), "A".as_bytes()) || eq_bytes(
            typ.as_bytes(),
            "AAAA".as_bytes(),
        ) || eq_bytes(typ.as_bytes(), "CNAME".as_bytes()) || eq_bytes(
            typ.as_bytes(),
            "MX".as_bytes(),
        ) || eq_bytes(typ.as_bytes(), "NS".as_bytes()) || eq_bytes(
            typ.as_bytes(),
            "TXT".as_bytes(),
        ) || eq_bytes(typ.as_bytes(), "SRV".as_bytes())) {
            return Err(CreateRequestError::UnsupportedType);
        }
        let name = full_name(host, zone_name);
        let content = data.get_api_value();
        let priority = match data {
            RecordData::MX { priority, .. } => Some(*priority),
            RecordData::SRV { priority, .. } => Some(*priority),
            _ => None,
        };
        let srv_data = match data {
            RecordData::SRV { priority, weight, port, target } => Some(
                SrvData {
                    service: None,
                    proto: None,
                    name: None,
                    priority: Some(*priority),
                    weight: Some(*weight),
                    port: Some(*port),
                    target: Some(target.clone()),
                },
            ),
            _ => None,
        };
        let short_ttl = (ttl % 0x1_0000_0000) as u32;
        Ok(
            CreateRecordRequest {
                record_type: typ.to_owned(),
                name,
                content,
                ttl: if ttl == 0 {
                    1
                } else {
                    short_ttl
                },
                proxied: Some(false),
                priority,
                data: srv_data,
            },
        )
    }
}

/// Joins a host onto its zone the way the creation call wants it.
fn full_name(host: &str, zone_name: &str) -> (r: String)
    ensures
        encode_utf8(r@) == spec_cf_full_name(host.spec_bytes(), zone_name.spec_bytes()),
{
    let hb = host.as_bytes();
    let zb = zone_name.as_bytes();
    if eq_bytes(hb, "@".as_bytes()) || hb.len() == 0 {
        zone_name.to_owned()
    } else if ends_with_bytes(hb, zb) {
        host.to_owned()
    } else {
        let mut out: Vec<u8> = Vec::new();
        push_str_bytes(&mut out, host);
        out.push(46);
        push_str_bytes(&mut out, zone_name);
        proof {
            vstd::utf8::encode_utf8_valid_utf8(host@);
            vstd::utf8::encode_utf8_valid_utf8(zone_name@);
            lemma_ascii_bytes_chars(seq![46u8]);
            vstd::utf8::valid_utf8_concat(encode_utf8(host@), seq![46u8]);
            vstd::utf8::valid_utf8_concat(encode_utf8(host@) + seq![46u8], encode_utf8(
                zone_name@,
            ));
            assert(out@ =~= encode_utf8(host@) + seq![46u8] + encode_utf8(zone_name@));
        }
        string_of_utf8(out.as_slice())
    }
}

/// Payload of a record deletion call.
#[derive(Debug, Clone, PartialEq, Eq)]
pub struct DeleteResponse {
    /// The deleted record's identity.
    pub id: String,
}

} // verus!
