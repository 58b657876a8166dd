//! Pure logic of the Hetzner Cloud DNS backend.
//!
//! The API groups records into RRSets: all values sharing a name and type.
//! The logic here flattens an RRSet into generic records, formats values the
//! way the API wants them (TXT values double-quoted), and handles the
//! `name/type/value` record identities this backend uses.  The HTTP client
//! lives outside the verified library.

use vstd::prelude::*;

verus! {

use vstd::utf8::{encode_utf8, valid_utf8};
use vstd::string::StringSliceAdditionalSpecFns;
use crate::text::{
    spec_split, spec_join, split_bytes, join_bytes, string_of_utf8, push_str_bytes, eq_bytes,
    lemma_split_pieces_valid, lemma_join_pieces_valid, lemma_ascii_bytes_chars,
};
use crate::record::{Record, RecordData, RecordDataView, spec_from_raw, spec_rd_value};

/// A DNS zone as the Hetzner Cloud API reports it.
#[derive(Debug, Clone, PartialEq, Eq)]
pub struct Zone {
    /// Unique numeric zone identifier.
    pub id: u64,
    /// Domain name.
    pub name: String,
    /// Zone mode, primary or secondary.
    pub mode: String,
    /// Zone status.
    pub status: ZoneStatus,
    /// Default TTL for records of this zone.
    pub ttl: u64,
    /// Number of records in the zone.
    pub record_count: u32,
}

/// Zone status in Hetzner Cloud DNS.
#[derive(Debug, Clone, Copy, PartialEq, Eq, Hash, Structural)]
pub enum ZoneStatus {
    /// Active and resolving.
    Active,
    /// Awaiting setup.
    Pending,
    /// Setup failed.
    Failed,
}

/// One value of an RRSet, with its optional comment.
#[derive(Debug, Clone, PartialEq, Eq)]
pub struct RecordValue {
    /// The record value.
    pub value: String,
    /// An optional comment.
    pub comment: Option<String>,
}

impl RecordValue {
    /// A value without a comment.
    pub fn new(value: &str) -> (r: RecordValue)
        ensures
            r.value@ == value@,
            r.comment is None,
    {
        RecordValue { value: value.to_owned(), comment: None }
    }

    /// A value with a comment.
    pub fn with_comment(value: &str, comment: &str) -> (r: RecordValue)
        ensures
            r.value@ == value@,
            match r.comment {
                Some(c) => c@ == comment@,
                None => false,
            },
    {
        RecordValue { value: value.to_owned(), comment: Some(comment.to_owned()) }
    }
}

/// A set of records sharing one name and type.
#[derive(Debug, Clone, PartialEq, Eq)]
pub struct RRSet {
    /// Identity in `name/type` form.
    pub id: String,
    /// Record name, `@` for the apex.
    pub name: String,
    /// Record type mnemonic.
    pub typ: String,
    /// TTL in seconds; the zone default applies when absent.
    pub ttl: Option<u64>,
    /// The values of the set.
    pub records: Vec<RecordValue>,
    /// The owning zone's numeric identifier.
    pub zone: u64,
}

/// Pagination metadata of a listing response.
#[derive(Debug, Clone, Copy, PartialEq, Eq, Structural)]
pub struct Pagination {
    /// Current page, counted from one.
    pub page: u32,
    /// Entries per page.
    pub per_page: u32,
    /// Last page number.
    pub last_page: u32,
    /// Total number of entries.
    pub total_entries: u32,
}

/// Metadata envelope of a listing response.
#[derive(Debug, Clone, Copy, PartialEq, Eq, Structural)]
pub struct Meta {
    /// Pagination of the listing.
    pub pagination: Pagination,
}

/// Envelope of a single-zone response.
#[derive(Debug, Clone, PartialEq, Eq)]
pub struct ZoneResponse {
    /// The zone.
    pub zone: Zone,
}

/// Envelope of a zone creation response.
#[derive(Debug, Clone, PartialEq, Eq)]
pub struct CreateZoneResponse {
    /// The created zone.
    pub zone: Zone,
}

/// Envelope of a zone listing response.
#[derive(Debug, Clone, PartialEq, Eq)]
pub struct ZonesResponse {
    /// The zones of this page.
    pub zones: Vec<Zone>,
    /// Pagination of the listing.
    pub meta: Meta,
}

/// Envelope of a single-RRSet response.
#[derive(Debug, Clone, PartialEq, Eq)]
pub struct RRSetResponse {
    /// The record set.
    pub rrset: RRSet,
}

/// Envelope of an RRSet creation response.
#[derive(Debug, Clone, PartialEq, Eq)]
pub struct CreateRRSetResponse {
    /// The created record set.
    pub rrset: RRSet,
}

/// Envelope of an RRSet listing response.
#[derive(Debug, Clone, PartialEq, Eq)]
pub struct RRSetsResponse {
    /// The record sets of this page.
    pub rrsets: Vec<RRSet>,
    /// Pagination of the listing.
    pub meta: Meta,
}

/// Status of a background action at the backend.
#[derive(Debug, Clone, Copy, PartialEq, Eq, Hash, Structural)]
pub enum ActionStatus {
    /// Still running.
    Running,
    /// Finished successfully.
    Success,
    /// Finished with an error.
    Failure,
}

/// A background action the backend runs for a mutating call.
#[derive(Debug, Clone, PartialEq, Eq)]
pub struct Action {
    /// The action's numeric identity.
    pub id: u64,
    /// The command the action runs.
    pub command: String,
    /// The action's status.
    pub status: ActionStatus,
    /// Progress in percent.
    pub progress: u8,
}

/// Envelope of an action response.
#[derive(Debug, Clone, PartialEq, Eq)]
pub struct ActionResponse {
    /// The action.
    pub action: Action,
}

/// The record types this backend accepts.
pub open spec fn spec_supported_type(t: Seq<u8>) -> bool {
    ||| t == encode_utf8("A"@)
    ||| t == encode_utf8("AAAA"@)
    ||| t == encode_utf8("NS"@)
    ||| t == encode_utf8("MX"@)
    ||| t == encode_utf8("CNAME"@)
    ||| t == encode_utf8("RP"@)
    ||| t == encode_utf8("TXT"@)
    ||| t == encode_utf8("SOA"@)
    ||| t == encode_utf8("HINFO"@)
    ||| t == encode_utf8("SRV"@)
    ||| t == encode_utf8("TLSA"@)
    ||| t == encode_utf8("DS"@)
    ||| t == encode_utf8("CAA"@)
    ||| t == encode_utf8("PTR"@)
    ||| t == encode_utf8("HTTPS"@)
    ||| t == encode_utf8("SVCB"@)
}

/// Whether the backend accepts a record type.
pub fn is_supported_record_type(t: &str) -> (r: bool)
    ensures
        r == spec_supported_type(t.spec_bytes()),
{
    let b = t.as_bytes();
    eq_bytes(b, "A".as_bytes()) || eq_bytes(b, "AAAA".as_bytes()) || eq_bytes(
        b,
        "NS".as_bytes(),
    ) || eq_bytes(b, "MX".as_bytes()) || eq_bytes(b, "CNAME".as_bytes()) || eq_bytes(
        b,
        "RP".as_bytes(),
    ) || eq_bytes(b, "TXT".as_bytes()) || eq_bytes(b, "SOA".as_bytes()) || eq_bytes(
        b,
        "HINFO".as_bytes(),
    ) || eq_bytes(b, "SRV".as_bytes()) || eq_bytes(b, "TLSA".as_bytes()) || eq_bytes(
        b,
        "DS".as_bytes(),
    ) || eq_bytes(b, "CAA".as_bytes()) || eq_bytes(b, "PTR".as_bytes()) || eq_bytes(
        b,
        "HTTPS".as_bytes(),
    ) || eq_bytes(b, "SVCB".as_bytes())
}

/// A TXT value wrapped in double quotes, unless it already is.
pub open spec fn spec_quoted(v: Seq<u8>) -> Seq<u8> {
    if v.len() >= 1 && v[0] == 34 && v.last() == 34 {
        v
    } else {
        seq![34u8] + v + seq![34u8]
    }
}

/// Wraps a TXT value in double quotes for the API, leaving an
/// already-quoted value untouched.
pub fn format_txt_value(val: &str) -> (r: String)
    ensures
        encode_utf8(r@) == spec_quoted(encode_utf8(val@)),
{
    let b = val.as_bytes();
    if b.len() >= 1 && b[0] == 34 && b[b.len() - 1] == 34 {
        val.to_owned()
    } else {
        let mut out: Vec<u8> = Vec::new();
        out.push(34);
        push_str_bytes(&mut out, val);
        out.push(34);
        proof {
            vstd::utf8::encode_utf8_valid_utf8(val@);
            lemma_ascii_bytes_chars(seq![34u8]);
            vstd::utf8::valid_utf8_concat(seq![34u8], encode_utf8(val@));
            vstd::utf8::valid_utf8_concat(seq![34u8] + encode_utf8(val@), seq![34u8]);
            assert(out@ =~= (seq![34u8] + encode_utf8(val@)) + seq![34u8]);
            assert(out@ =~= spec_quoted(encode_utf8(val@)));
        }
        string_of_utf8(out.as_slice())
    }
}

/// The value the API expects for record data: TXT values are quoted, every
/// other shape uses its generic value.
pub open spec fn spec_value_for_api(d: RecordDataView) -> Seq<u8> {
    match d {
        RecordDataView::TXT { text } => spec_quoted(text),
        _ => spec_rd_value(d),
    }
}

/// Formats record data the way the API wants its value.
pub fn format_value_for_api(data: &RecordData) -> (r: String)
    ensures
        encode_utf8(r@) == spec_value_for_api(data@),
{
    match data {
        RecordData::TXT(val) => format_txt_value(val.as_str()),
        _ => data.get_value(),
    }
}

/// The `name/type/value` identity of a record.
pub open spec fn spec_record_id(name: Seq<u8>, typ: Seq<u8>, value: Seq<u8>) -> Seq<u8> {
    name + seq![47u8] + typ + seq![47u8] + value
}

/// Builds the `name/type/value` identity of a record.
pub fn make_record_id(name: &str, typ: &str, value: &str) -> (r: String)
    ensures
        encode_utf8(r@) == spec_record_id(
            encode_utf8(name@),
            encode_utf8(typ@),
            encode_utf8(value@),
        ),
{
    let mut out: Vec<u8> = Vec::new();
    push_str_bytes(&mut out, name);
    out.push(47);
    push_str_bytes(&mut out, typ);
    out.push(47);
    push_str_bytes(&mut out, value);
    proof {
        vstd::utf8::encode_utf8_valid_utf8(name@);
        vstd::utf8::encode_utf8_valid_utf8(typ@);
        vstd::utf8::encode_utf8_valid_utf8(value@);
        lemma_ascii_bytes_chars(seq![47u8]);
        vstd::utf8::valid_utf8_concat(encode_utf8(name@), seq![47u8]);
        vstd::utf8::valid_utf8_concat(encode_utf8(name@) + seq![47u8], encode_utf8(typ@));
        vstd::utf8::valid_utf8_concat(
            encode_utf8(name@) + seq![47u8] + encode_utf8(typ@),
            seq![47u8],
        );
        vstd::utf8::valid_utf8_concat(
            encode_utf8(name@) + seq![47u8] + encode_utf8(typ@) + seq![47u8],
            encode_utf8(value@),
        );
        assert(out@ =~= encode_utf8(name@) + seq![47u8] + encode_utf8(typ@) + seq![47u8]
            + encode_utf8(value@));
    }
    string_of_utf8(out.as_slice())
}

/// What parsing a `name/type/value` identity yields: the piece before the
/// first slash, the piece between the first and second, and everything
/// after the second; nothing, with fewer than two slashes.
pub open spec fn spec_parse_record_id(id: Seq<u8>) -> Option<(Seq<u8>, Seq<u8>, Seq<u8>)> {
    let p = spec_split(id, 47);
    if p.len() >= 3 {
        Some((p[0], p[1], spec_join(p.skip(2), 47)))
    } else {
        None
    }
}

/// Parses a record identity back into name, type and value.
pub fn parse_record_id(id: &str) -> (r: Option<(String, String, String)>)
    ensures
        match r {
            Some(t) => spec_parse_record_id(id.spec_bytes()) == Some(
                (encode_utf8(t.0@), encode_utf8(t.1@), encode_utf8(t.2@)),
            ),
            None => spec_parse_record_id(id.spec_bytes()) is None,
        },
{
    let b = id.as_bytes();
    proof {
        vstd::utf8::encode_utf8_valid_utf8(id@);
        lemma_split_pieces_valid(b@, 47);
    }
    let parts = split_bytes(b, 47);
    if parts.len() < 3 {
        return None;
    }
    let ghost g = spec_split(b@, 47);
    let name = string_of_utf8(parts[0].as_slice());
    let typ = string_of_utf8(parts[1].as_slice());
    let mut tail: Vec<Vec<u8>> = Vec::new();
    let mut i: usize = 2;
    while i < parts.len()
        invariant
            g == spec_split(b@, 47),
            parts@.len() == g.len(),
            forall|p: int| 0 <= p < parts@.len() ==> #[trigger] parts@[p]@ == g[p],
            2 <= i <= parts@.len(),
            tail@.len() == i - 2,
            forall|p: int| 0 <= p < tail@.len() ==> #[trigger] tail@[p]@ == g[p + 2],
        decreases parts@.len() - i,
    {
        let piece = parts[i].clone();
        tail.push(piece);
        i = i + 1;
    }
    let joined = join_bytes(&tail, 47);
    proof {
        assert(tail@.map_values(|p: Vec<u8>| p@) =~~= g.skip(2));
        assert forall|p: int| 0 <= p < g.skip(2).len() implies valid_utf8(
            #[trigger] g.skip(2)[p],
        ) by {
            assert(g.skip(2)[p] == g[p + 2]);
        }
        lemma_join_pieces_valid(g.skip(2), 47);
    }
    let value = string_of_utf8(joined.as_slice());
    Some((name, typ, value))
}

/// Flattens one RRSet into generic records: one per value, each under the
/// `name/type/value` identity, carrying the set's TTL or the zone default.
pub fn rrset_to_records(rrset: &RRSet, zone_ttl: u64) -> (r: Vec<Record>)
    ensures
        r@.len() == rrset.records@.len(),
        forall|i: int|
            0 <= i < r@.len() ==> {
                let rec = #[trigger] r@[i];
                &&& encode_utf8(rec.id@) == spec_record_id(
                    encode_utf8(rrset.name@),
                    encode_utf8(rrset.typ@),
                    encode_utf8(rrset.records@[i].value@),
                )
                &&& rec.host@ == rrset.name@
                &&& rec.data@ == spec_from_raw(
                    encode_utf8(rrset.typ@),
                    encode_utf8(rrset.records@[i].value@),
                )
                &&& rec.ttl == (match rrset.ttl {
                    Some(t) => t,
                    None => zone_ttl,
                })
            },
{
    let ttl = match rrset.ttl {
        Some(t) => t,
        None => zone_ttl,
    };
    let mut out: Vec<Record> = Vec::new();
    let mut i: usize = 0;
    while i < rrset.records.len()
        invariant
            ttl == (match rrset.ttl {
                Some(t) => t,
                None => zone_ttl,
            }),
            0 <= i <= rrset.records@.len(),
            out@.len() == i,
            forall|k: int|
                0 <= k < out@.len() ==> {
                    let rec = #[trigger] out@[k];
                    &&& encode_utf8(rec.id@) == spec_record_id(
                        encode_utf8(rrset.name@),
                        encode_utf8(rrset.typ@),
                        encode_utf8(rrset.records@[k].value@),
                    )
                    &&& rec.host@ == rrset.name@
                    &&& rec.data@ == spec_from_raw(
                        encode_utf8(rrset.typ@),
                        encode_utf8(rrset.records@[k].value@),
                    )
                    &&& rec.ttl == (match rrset.ttl {
                        Some(t) => t,
                        None => zone_ttl,
                    })
                },
        decreases rrset.records@.len() - i,
    {
        let value = &rrset.records[i].value;
        let id = make_record_id(rrset.name.as_str(), rrset.typ.as_str(), value.as_str());
        let data = RecordData::from_raw(rrset.typ.as_str(), value.as_str());
        let rec = Record { id, host: rrset.name.clone(), data, ttl };
        out.push(rec);
        i = i + 1;
    }
    out
}

} // verus!
