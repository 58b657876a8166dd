//! Pure logic of the Tencent Cloud DNS backend.
//!
//! The API reports absolute values with trailing dots and quoted TXT
//! values; the logic here normalizes them while parsing reported records
//! into the generic model.  Request signing and the HTTP client live
//! outside the verified library.

use vstd::prelude::*;

verus! {

use vstd::utf8::{encode_utf8, valid_utf8};
use vstd::string::StringSliceAdditionalSpecFns;
use crate::text::{
    spec_trim_trailing, trim_trailing, string_of_utf8, eq_bytes, spec_split, split_bytes,
    spec_join, join_bytes, lemma_split_pieces_valid, lemma_join_pieces_valid,
};
use crate::addr::{Ipv4Addr, Ipv6Addr, spec_parse_ipv4, spec_parse_ipv6};
use crate::record::{Record, RecordData, RecordDataView, spec_rd_value, space_fields};
use crate::namecrane::{priority_or, u16_or_zero};

/// A domain as the listing call reports it.
#[derive(Debug, Clone, PartialEq, Eq)]
pub struct DomainListItem {
    /// Numeric domain identity.
    pub domain_id: u64,
    /// Domain name.
    pub name: String,
    /// Domain status.
    pub status: String,
    /// Default TTL.
    pub ttl: Option<u64>,
    /// Service grade.
    pub grade: Option<String>,
}

/// Counters of a domain listing.
#[derive(Debug, Clone, Copy, PartialEq, Eq, Structural)]
pub struct DomainCountInfo {
    /// Domains matching the query.
    pub domain_total: u64,
    /// All domains of the account.
    pub all_total: u64,
}

/// Response of the domain listing call.
#[derive(Debug, Clone, PartialEq, Eq)]
pub struct DescribeDomainListResponse {
    /// The domains of this page.
    pub domain_list: Option<Vec<DomainListItem>>,
    /// Listing counters, when present.
    pub domain_count_info: Option<DomainCountInfo>,
    /// The request's identity at the API.
    pub request_id: String,
}

/// A domain as the detail call reports it.
#[derive(Debug, Clone, PartialEq, Eq)]
pub struct DomainInfo {
    /// Numeric domain identity.
    pub domain_id: u64,
    /// Domain name.
    pub domain: String,
    /// Domain status.
    pub status: String,
    /// Default TTL.
    pub ttl: u64,
    /// Record count, when reported.
    pub record_count: Option<u64>,
}

/// Response of the domain detail call.
#[derive(Debug, Clone, PartialEq, Eq)]
pub struct DescribeDomainResponse {
    /// The domain.
    pub domain_info: DomainInfo,
    /// The request's identity at the API.
    pub request_id: String,
}

/// A record as the listing call reports it.
#[derive(Debug, Clone, PartialEq, Eq)]
pub struct RecordListItem {
    /// Numeric record identity.
    pub record_id: u64,
    /// The record's relative name.
    pub name: String,
    /// Record type mnemonic.
    pub record_type: String,
    /// The record value.
    pub value: String,
    /// TTL in seconds.
    pub ttl: u64,
    /// Resolution line.
    pub line: String,
    /// Record status.
    pub status: String,
    /// MX preference, for MX records.
    pub mx: Option<u16>,
}

/// Counters of a record listing.
#[derive(Debug, Clone, Copy, PartialEq, Eq, Structural)]
pub struct RecordCountInfo {
    /// Total records of the domain.
    pub total_count: u64,
}

/// Response of the record listing call.
#[derive(Debug, Clone, PartialEq, Eq)]
pub struct DescribeRecordListResponse {
    /// The records of this page.
    pub record_list: Option<Vec<RecordListItem>>,
    /// Listing counters, when present.
    pub record_count_info: Option<RecordCountInfo>,
    /// The request's identity at the API.
    pub request_id: String,
}

/// A record as the detail call reports it.
#[derive(Debug, Clone, PartialEq, Eq)]
pub struct RecordInfo {
    /// Numeric record identity.
    pub id: u64,
    /// The record's relative name.
    pub sub_domain: String,
    /// Record type mnemonic.
    pub record_type: String,
    /// The record value.
    pub value: String,
    /// TTL in seconds.
    pub ttl: u64,
    /// MX preference, for MX records.
    pub mx: Option<u16>,
    /// Whether the record is enabled: one or zero.
    pub enabled: u8,
}

/// Response of the record detail call.
#[derive(Debug, Clone, PartialEq, Eq)]
pub struct DescribeRecordResponse {
    /// The record.
    pub record_info: RecordInfo,
    /// The request's identity at the API.
    pub request_id: String,
}

/// Response of the record creation call.
#[derive(Debug, Clone, PartialEq, Eq)]
pub struct CreateRecordResponse {
    /// The new record's numeric identity.
    pub record_id: u64,
    /// The request's identity at the API.
    pub request_id: String,
}

/// Response of the record modification call.
#[derive(Debug, Clone, PartialEq, Eq)]
pub struct ModifyRecordResponse {
    /// The modified record's numeric identity.
    pub record_id: u64,
    /// The request's identity at the API.
    pub request_id: String,
}

/// Response of the record deletion call.
#[derive(Debug, Clone, PartialEq, Eq)]
pub struct DeleteRecordResponse {
    /// The request's identity at the API.
    pub request_id: String,
}

/// The created domain inside a creation response.
#[derive(Debug, Clone, PartialEq, Eq)]
pub struct DomainCreateInfo {
    /// Numeric domain identity.
    pub id: u64,
    /// Domain name.
    pub domain: String,
    /// Punycode spelling.
    pub punycode: String,
}

/// Response of the domain creation call.
#[derive(Debug, Clone, PartialEq, Eq)]
pub struct CreateDomainResponse {
    /// The created domain.
    pub domain_create_info: DomainCreateInfo,
    /// The request's identity at the API.
    pub request_id: String,
}

/// Response of the domain deletion call.
#[derive(Debug, Clone, PartialEq, Eq)]
pub struct DeleteDomainResponse {
    /// The request's identity at the API.
    pub request_id: String,
}

/// A reported record whose value could not become generic record data.
#[derive(Debug, Clone, PartialEq, Eq)]
pub struct RecordConversionError {
    /// The record type that failed to convert.
    pub record_type: String,
}

/// A value with trailing dots stripped, since the API reports absolute
/// names.
pub open spec fn spec_undotted(v: Seq<u8>) -> Seq<u8> {
    spec_trim_trailing(v, 46)
}

/// A TXT value with surrounding double quotes stripped.
pub open spec fn spec_unquoted(v: Seq<u8>) -> Seq<u8> {
    if v.len() >= 2 && v[0] == 34 && v.last() == 34 {
        v.subrange(1, v.len() - 1)
    } else {
        v
    }
}

/// What generic data a reported value stands for, when it can: addresses
/// are parsed, names lose their trailing dot, TXT values lose their
/// quotes, SRV values split into their four fields, and any other type is
/// kept opaque.
pub open spec fn spec_tc_data(rt: Seq<u8>, v: Seq<u8>, mx: Option<u16>) -> Option<
    RecordDataView,
> {
    if rt == encode_utf8("A"@) {
        match spec_parse_ipv4(v) {
            Some(o) => Some(RecordDataView::A { a: o.0, b: o.1, c: o.2, d: o.3 }),
            None => None,
        }
    } else if rt == encode_utf8("AAAA"@) {
        match spec_parse_ipv6(v) {
            Some(groups) => Some(RecordDataView::AAAA { groups }),
            None => None,
        }
    } else if rt == encode_utf8("CNAME"@) {
        Some(RecordDataView::CNAME { name: spec_undotted(v) })
    } else if rt == encode_utf8("MX"@) {
        Some(
            RecordDataView::MX { priority: priority_or(mx, 10), mail_server: spec_undotted(v) },
        )
    } else if rt == encode_utf8("NS"@) {
        Some(RecordDataView::NS { name: spec_undotted(v) })
    } else if rt == encode_utf8("TXT"@) {
        Some(RecordDataView::TXT { text: spec_unquoted(v) })
    } else if rt == encode_utf8("SRV"@) {
        let f = space_fields(v);
        if f.len() >= 4 && crate::record::u16_field_ok(f[0]) && crate::record::u16_field_ok(
            f[1],
        ) && crate::record::u16_field_ok(f[2]) {
            Some(
                RecordDataView::SRV {
                    priority: (crate::text::dec_val(f[0])) as u16,
                    weight: (crate::text::dec_val(f[1])) as u16,
                    port: (crate::text::dec_val(f[2])) as u16,
                    target: spec_undotted(f[3]),
                },
            )
        } else {
            None
        }
    } else {
        Some(RecordDataView::Other { typ: rt, value: v })
    }
}

/// Parses a reported value by type into generic record data.
pub fn parse_record_data(record_type: &str, value: &str, mx: Option<u16>) -> (r: Option<
    RecordData,
>)
    ensures
        match r {
            Some(d) => spec_tc_data(record_type.spec_bytes(), value.spec_bytes(), mx) == Some(
                d@,
            ),
            None => spec_tc_data(record_type.spec_bytes(), value.spec_bytes(), mx) is None,
        },
{
    let rt = record_type.as_bytes();
    let vb = value.as_bytes();
    proof {
        vstd::utf8::encode_utf8_valid_utf8(value@);
    }
    if eq_bytes(rt, "A".as_bytes()) {
        match Ipv4Addr::parse_bytes(vb) {
            Some(ip) => Some(RecordData::A(ip)),
            None => None,
        }
    } else if eq_bytes(rt, "AAAA".as_bytes()) {
        match Ipv6Addr::parse_bytes(vb) {
            Some(ip) => Some(RecordData::AAAA(ip)),
            None => None,
        }
    } else if eq_bytes(rt, "CNAME".as_bytes()) {
        Some(RecordData::CNAME(undotted(value)))
    } else if eq_bytes(rt, "MX".as_bytes()) {
        let priority = match mx {
            Some(p) => p,
            None => 10,
        };
        Some(RecordData::MX { priority, mail_server: undotted(value) })
    } else if eq_bytes(rt, "NS".as_bytes()) {
        Some(RecordData::NS(undotted(value)))
    } else if eq_bytes(rt, "TXT".as_bytes()) {
        Some(RecordData::TXT(unquoted(value)))
    } else if eq_bytes(rt, "SRV".as_bytes()) {
        let fields = crate::record::space_fields_vec(vb);
        if fields.len() < 4 {
            return None;
        }
        let p0 = crate::text::parse_dec_u16(fields[0].as_slice());
        let p1 = crate::text::parse_dec_u16(fields[1].as_slice());
        let p2 = crate::text::parse_dec_u16(fields[2].as_slice());
        match (p0, p1, p2) {
            (Some(priority), Some(weight), Some(port)) => {
                proof {
                    crate::record::lemma_space_field_valid(value.spec_bytes(), 3);
                    lemma_trim_dots_valid(space_fields(value.spec_bytes())[3]);
                }
                let tb = trim_trailing(fields[3].as_slice(), 46);
                let target = string_of_utf8(tb);
                Some(RecordData::SRV { priority, weight, port, target })
            },
            _ => None,
        }
    } else {
        Some(RecordData::Other { typ: record_type.to_owned(), value: value.to_owned() })
    }
}

/// The value sent to the API for generic record data: the mail server
/// alone for MX, all four fields for SRV, and the generic value otherwise.
pub open spec fn spec_tc_record_value(d: RecordDataView) -> Seq<u8> {
    match d {
        RecordDataView::MX { mail_server, .. } => mail_server,
        _ => spec_rd_value(d),
    }
}

/// Renders the value the API wants for record data.
pub fn get_record_value(data: &RecordData) -> (r: String)
    ensures
        encode_utf8(r@) == spec_tc_record_value(data@),
{
    match data {
        RecordData::MX { mail_server, .. } => mail_server.clone(),
        _ => data.get_value(),
    }
}

/// Converts a listed record into a generic record; fails exactly when the
/// value cannot be expressed for its type.
pub fn record_from_list_item(item: &RecordListItem) -> (r: Result<Record, RecordConversionError>)
    ensures
        match r {
            Ok(rec) => {
                &&& spec_tc_data(
                    encode_utf8(item.record_type@),
                    encode_utf8(item.value@),
                    item.mx,
                ) == Some(rec.data@)
                &&& encode_utf8(rec.id@) == crate::text::dec_rep(item.record_id as nat)
                &&& rec.host@ == item.name@
                &&& rec.ttl == item.ttl
            },
            Err(e) => spec_tc_data(
                encode_utf8(item.record_type@),
                encode_utf8(item.value@),
                item.mx,
            ) is None && e.record_type@ == item.record_type@,
        },
{
    match parse_record_data(item.record_type.as_str(), item.value.as_str(), item.mx) {
        Some(data) => Ok(
            Record {
                id: crate::text::dec_string_of_u64(item.record_id),
                host: item.name.clone(),
                data,
                ttl: item.ttl,
            },
        ),
        None => Err(RecordConversionError { record_type: item.record_type.clone() }),
    }
}

/// Converts a record detail into a generic record; fails exactly when the
/// value cannot be expressed for its type.
pub fn record_from_info(info: &RecordInfo) -> (r: Result<Record, RecordConversionError>)
    ensures
        match r {
            Ok(rec) => {
                &&& spec_tc_data(
                    encode_utf8(info.record_type@),
                    encode_utf8(info.value@),
                    info.mx,
                ) == Some(rec.data@)
                &&& encode_utf8(rec.id@) == crate::text::dec_rep(info.id as nat)
                &&& rec.host@ == info.sub_domain@
                &&& rec.ttl == info.ttl
            },
            Err(e) => spec_tc_data(
                encode_utf8(info.record_type@),
                encode_utf8(info.value@),
                info.mx,
            ) is None && e.record_type@ == info.record_type@,
        },
{
    match parse_record_data(info.record_type.as_str(), info.value.as_str(), info.mx) {
        Some(data) => Ok(
            Record {
                id: crate::text::dec_string_of_u64(info.id),
                host: info.sub_domain.clone(),
                data,
                ttl: info.ttl,
            },
        ),
        None => Err(RecordConversionError { record_type: info.record_type.clone() }),
    }
}

/// Trimming trailing dots keeps valid UTF-8 valid.
proof fn lemma_trim_dots_valid(b: Seq<u8>)
    requires
        valid_utf8(b),
    ensures
        valid_utf8(spec_trim_trailing(b, 46)),
    decreases b.len(),
{
    if b.len() > 0 && b.last() == 46 {
        vstd::utf8::utf8_byte_ranges_bitwise(b.last());
        vstd::utf8::is_char_boundary_iff_is_leading_byte(b, b.len() - 1);
        vstd::utf8::valid_utf8_split(b, b.len() - 1);
        assert(b.subrange(0, b.len() - 1) =~= b.drop_last());
        lemma_trim_dots_valid(b.drop_last());
    }
}

/// Strips trailing dots from a value.
fn undotted(v: &str) -> (r: String)
    ensures
        encode_utf8(r@) == spec_undotted(v.spec_bytes()),
{
    proof {
        vstd::utf8::encode_utf8_valid_utf8(v@);
        lemma_trim_dots_valid(v.spec_bytes());
    }
    let b = trim_trailing(v.as_bytes(), 46);
    string_of_utf8(b)
}

/// Strips one pair of surrounding double quotes from a TXT value.
fn unquoted(v: &str) -> (r: String)
    ensures
        encode_utf8(r@) == spec_unquoted(v.spec_bytes()),
{
    let b = v.as_bytes();
    if b.len() >= 2 && b[0] == 34 && b[b.len() - 1] == 34 {
        proof {
            vstd::utf8::encode_utf8_valid_utf8(v@);
            vstd::utf8::utf8_byte_ranges_bitwise(b@[0]);
            vstd::utf8::utf8_byte_ranges_bitwise(b@[b@.len() - 1]);
            vstd::utf8::is_char_boundary_iff_is_leading_byte(b@, b@.len() - 1);
            vstd::utf8::valid_utf8_split(b@, b@.len() - 1);
            let head = b@.subrange(0, b@.len() - 1);
            assert(head[0] == b@[0]);
            if head.len() == 1 {
                assert(b@.subrange(1, b@.len() - 1) =~= Seq::<u8>::empty());
                assert(valid_utf8(b@.subrange(1, b@.len() - 1)));
            } else {
                assert(vstd::utf8::is_leading_byte_width_1(head[0]));
                assert(vstd::utf8::valid_first_scalar(head));
                assert(vstd::utf8::length_of_first_scalar(head) == 1);
                assert(vstd::utf8::is_char_boundary(vstd::utf8::pop_first_scalar(head), 0));
                assert(vstd::utf8::is_char_boundary(head, 1));
                vstd::utf8::valid_utf8_split(head, 1);
                assert(head.subrange(1, head.len() as int) =~= b@.subrange(1, b@.len() - 1));
            }
        }
        let inner = vstd::slice::slice_subrange(b, 1, b.len() - 1);
        string_of_utf8(inner)
    } else {
        v.to_owned()
    }
}

} // verus!
