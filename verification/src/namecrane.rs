//! Pure logic of the CraneDNS backend: client configuration, the record
//! shape its API reports, and the synthesized record identities.
//!
//! The API does not assign record identifiers, so this module synthesizes
//! one per record as `name:type:hash`, where the hash is eight hex digits
//! of a rolling checksum of the content.  The HTTP client that carries
//! these values over the network lives outside the verified library.

use vstd::prelude::*;

verus! {

use vstd::utf8::{encode_utf8, valid_utf8};
use vstd::string::StringSliceAdditionalSpecFns;
use crate::text::{
    spec_split, spec_join, split_bytes, join_bytes, hex_rep, hex_string_of_u64, push_str_bytes,
    string_of_utf8, lemma_split_pieces_valid, lemma_join_pieces_valid, lemma_hex_rep_ascii,
    lemma_ascii_bytes_chars, is_ascii_bytes, split_to_strings, eq_bytes, parse_dec_u16,
    dec_val, is_dec_bytes,
};
use crate::types::Environment;
use crate::record::{Record, RecordData, RecordDataView, spec_from_raw, full_host, spec_full_host};

/// Configuration for the CraneDNS API client: one key manages one domain.
#[derive(Debug, Clone)]
pub struct ClientConfig {
    /// The API key.
    pub api_key: String,
    /// The one domain the key manages.
    pub domain: String,
    /// Target environment.
    pub environment: Environment,
}

impl ClientConfig {
    /// Builds a configuration.
    pub fn new(api_key: &str, domain: &str, environment: Environment) -> (r: ClientConfig)
        ensures
            r.api_key@ == api_key@,
            r.domain@ == domain@,
            r.environment == environment,
    {
        ClientConfig { api_key: api_key.to_owned(), domain: domain.to_owned(), environment }
    }

    /// A sandbox configuration.
    pub fn sandbox(api_key: &str, domain: &str) -> (r: ClientConfig)
        ensures
            r.api_key@ == api_key@,
            r.domain@ == domain@,
            r.environment == Environment::Sandbox,
    {
        ClientConfig::new(api_key, domain, Environment::Sandbox)
    }

    /// A production configuration.
    pub fn production(api_key: &str, domain: &str) -> (r: ClientConfig)
        ensures
            r.api_key@ == api_key@,
            r.domain@ == domain@,
            r.environment == Environment::Production,
    {
        ClientConfig::new(api_key, domain, Environment::Production)
    }

    /// The API endpoint for the configured environment.
    pub fn api_url(&self) -> (r: &'static str)
        ensures
            self.environment == Environment::Production ==> r@
                == "https://namecrane.com/index.php?m=cranedns&action=api"@,
            self.environment == Environment::Sandbox ==> r@
                == "https://namecrane.org/index.php?m=cranedns&action=api"@,
    {
        match self.environment {
            Environment::Production => "https://namecrane.com/index.php?m=cranedns&action=api",
            Environment::Sandbox => "https://namecrane.org/index.php?m=cranedns&action=api",
        }
    }
}

/// A DNS record as the CraneDNS API reports it.
#[derive(Debug, Clone, PartialEq, Eq)]
pub struct ApiRecord {
    /// The hostname relative to the domain, `@` for the apex.
    pub name: String,
    /// Record type mnemonic.
    pub record_type: String,
    /// The record value.
    pub content: String,
    /// TTL in seconds.
    pub ttl: u64,
    /// Priority, for MX and SRV records.
    pub priority: Option<u16>,
}

/// The rolling checksum of a byte string: each byte is added and the sum
/// multiplied by 31, modulo `2^32`.
pub open spec fn content_hash_val(s: Seq<u8>) -> int
    decreases s.len(),
{
    if s.len() == 0 {
        0
    } else {
        ((content_hash_val(s.drop_last()) + s.last()) * 31) % 0x1_0000_0000
    }
}

proof fn lemma_content_hash_range(s: Seq<u8>)
    ensures
        0 <= content_hash_val(s) < 0x1_0000_0000,
    decreases s.len(),
{
    if s.len() > 0 {
        lemma_content_hash_range(s.drop_last());
    }
}

/// The eight-hex-digit spelling of the content checksum.
pub open spec fn spec_content_hash(s: Seq<u8>) -> Seq<u8> {
    hex_rep(content_hash_val(s) as nat, 8)
}

/// Computes the checksum of a content string, as eight hex digits.
pub fn content_hash(content: &str) -> (r: String)
    ensures
        encode_utf8(r@) == spec_content_hash(content.spec_bytes()),
{
    let b = content.as_bytes();
    let mut acc: u32 = 0;
    let mut i: usize = 0;
    while i < b.len()
        invariant
            0 <= i <= b@.len(),
            acc == content_hash_val(b@.subrange(0, i as int)),
        decreases b@.len() - i,
    {
        let w: u64 = ((acc as u64) + (b[i] as u64)) * 31;
        proof {
            assert(b@.subrange(0, i + 1).drop_last() =~= b@.subrange(0, i as int));
            assert(b@.subrange(0, i + 1).last() == b@[i as int]);
        }
        acc = (w % 0x1_0000_0000) as u32;
        i = i + 1;
    }
    proof {
        assert(b@.subrange(0, i as int) =~= b@);
    }
    hex_string_of_u64(acc as u64, 8)
}

/// The synthesized identity of a record: name, type, and content checksum,
/// joined by colons.
pub open spec fn spec_record_id(name: Seq<u8>, rt: Seq<u8>, content: Seq<u8>) -> Seq<u8> {
    name + seq![58u8] + rt + seq![58u8] + spec_content_hash(content)
}

/// Synthesizes the identity of a record from its parts.
pub fn synthesize_record_id(name: &str, record_type: &str, content: &str) -> (r: String)
    ensures
        encode_utf8(r@) == spec_record_id(
            name.spec_bytes(),
            record_type.spec_bytes(),
            content.spec_bytes(),
        ),
{
    let hash = content_hash(content);
    let mut out: Vec<u8> = Vec::new();
    push_str_bytes(&mut out, name);
    out.push(58);
    push_str_bytes(&mut out, record_type);
    out.push(58);
    push_str_bytes(&mut out, hash.as_str());
    proof {
        vstd::utf8::encode_utf8_valid_utf8(name@);
        vstd::utf8::encode_utf8_valid_utf8(record_type@);
        vstd::utf8::encode_utf8_valid_utf8(hash@);
        lemma_ascii_bytes_chars(seq![58u8]);
        vstd::utf8::valid_utf8_concat(encode_utf8(name@), seq![58u8]);
        vstd::utf8::valid_utf8_concat(encode_utf8(name@) + seq![58u8], encode_utf8(
            record_type@,
        ));
        vstd::utf8::valid_utf8_concat(
            encode_utf8(name@) + seq![58u8] + encode_utf8(record_type@),
            seq![58u8],
        );
        vstd::utf8::valid_utf8_concat(
            encode_utf8(name@) + seq![58u8] + encode_utf8(record_type@) + seq![58u8],
            encode_utf8(hash@),
        );
        assert(out@ =~= encode_utf8(name@) + seq![58u8] + encode_utf8(record_type@) + seq![58u8]
            + encode_utf8(hash@));
    }
    string_of_utf8(out.as_slice())
}

/// What parsing a synthesized identity yields: the piece before the first
/// colon, the piece between the first and second, and everything after the
/// second; or nothing, when there are fewer than two colons.
pub open spec fn spec_parse_record_id(id: Seq<u8>) -> Option<(Seq<u8>, Seq<u8>, Seq<u8>)> {
    let p = spec_split(id, 58);
    if p.len() >= 3 {
        Some((p[0], p[1], spec_join(p.skip(2), 58)))
    } else {
        None
    }
}

/// Parses a synthesized record identity back into its three components.
pub fn parse_record_id(id: &str) -> (r: Option<(String, String, String)>)
    ensures
        match r {
            Some(t) => spec_parse_record_id(id.spec_bytes()) == Some(
                (encode_utf8(t.0@), encode_utf8(t.1@), encode_utf8(t.2@)),
            ),
            None => spec_parse_record_id(id.spec_bytes()) is None,
        },
{
    let b = id.as_bytes();
    proof {
        vstd::utf8::encode_utf8_valid_utf8(id@);
        lemma_split_pieces_valid(b@, 58);
    }
    let parts = split_bytes(b, 58);
    if parts.len() < 3 {
        return None;
    }
    let ghost g = spec_split(b@, 58);
    let name = string_of_utf8(parts[0].as_slice());
    let rtype = string_of_utf8(parts[1].as_slice());
    let mut tail: Vec<Vec<u8>> = Vec::new();
    let mut i: usize = 2;
    while i < parts.len()
        invariant
            g == spec_split(b@, 58),
            parts@.len() == g.len(),
            forall|p: int| 0 <= p < parts@.len() ==> #[trigger] parts@[p]@ == g[p],
            2 <= i <= parts@.len(),
            tail@.len() == i - 2,
            forall|p: int| 0 <= p < tail@.len() ==> #[trigger] tail@[p]@ == g[p + 2],
        decreases parts@.len() - i,
    {
        let piece = parts[i].clone();
        tail.push(piece);
        i = i + 1;
    }
    let joined = join_bytes(&tail, 58);
    proof {
        assert(tail@.map_values(|p: Vec<u8>| p@) =~~= g.skip(2));
        assert forall|p: int| 0 <= p < g.skip(2).len() implies valid_utf8(
            #[trigger] g.skip(2)[p],
        ) by {
            assert(g.skip(2)[p] == g[p + 2]);
        }
        lemma_join_pieces_valid(g.skip(2), 58);
    }
    let hash = string_of_utf8(joined.as_slice());
    Some((name, rtype, hash))
}

/// The numeric value of a decimal field, or zero when it is not one.
pub open spec fn u16_or_zero(p: Seq<u8>) -> u16 {
    if is_dec_bytes(p) && dec_val(p) <= u16::MAX {
        dec_val(p) as u16
    } else {
        0u16
    }
}

/// The record data this backend's report stands for.  MX keeps the priority
/// field and the content as the mail server.  SRV content is weight, port
/// and target; a report with fewer pieces falls back to the generic parse,
/// as does every other type.
pub open spec fn spec_crane_data(rt: Seq<u8>, content: Seq<u8>, priority: Option<u16>)
    -> RecordDataView {
    if rt == encode_utf8("MX"@) {
        RecordDataView::MX {
            priority: priority_or(priority, 10),
            mail_server: content,
        }
    } else if rt == encode_utf8("SRV"@) {
        let p = spec_split(content, 32);
        if p.len() >= 3 {
            RecordDataView::SRV {
                priority: priority_or(priority, 0),
                weight: u16_or_zero(p[0]),
                port: u16_or_zero(p[1]),
                target: spec_join(p.skip(2), 32),
            }
        } else {
            spec_from_raw(rt, content)
        }
    } else {
        spec_from_raw(rt, content)
    }
}

/// An optional priority, or its default.
pub open spec fn priority_or(p: Option<u16>, d: u16) -> u16 {
    match p {
        Some(v) => v,
        None => d,
    }
}

/// Converts a report of this backend to the generic record, under the
/// domain it belongs to.
pub fn api_record_to_record(api_record: ApiRecord, domain: &str) -> (r: Record)
    ensures
        r.ttl == api_record.ttl,
        encode_utf8(r.host@) == spec_full_host(
            encode_utf8(api_record.name@),
            domain.spec_bytes(),
        ),
        encode_utf8(r.id@) == spec_record_id(
            encode_utf8(api_record.name@),
            encode_utf8(api_record.record_type@),
            encode_utf8(api_record.content@),
        ),
        r.data@ == spec_crane_data(
            encode_utf8(api_record.record_type@),
            encode_utf8(api_record.content@),
            api_record.priority,
        ),
{
    let host = full_host(api_record.name.as_str(), domain);
    let rt = api_record.record_type.as_str();
    let data: RecordData = if eq_bytes(rt.as_bytes(), "MX".as_bytes()) {
        let priority = match api_record.priority {
            Some(v) => v,
            None => 10,
        };
        RecordData::MX { priority, mail_server: api_record.content.clone() }
    } else if eq_bytes(rt.as_bytes(), "SRV".as_bytes()) {
        let cb = api_record.content.as_str().as_bytes();
        proof {
            vstd::utf8::encode_utf8_valid_utf8(api_record.content@);
            lemma_split_pieces_valid(cb@, 32);
        }
        let parts = split_bytes(cb, 32);
        if parts.len() >= 3 {
            let ghost g = spec_split(cb@, 32);
            let priority = match api_record.priority {
                Some(v) => v,
                None => 0,
            };
            let weight = u16_field_or_zero(parts[0].as_slice());
            let port = u16_field_or_zero(parts[1].as_slice());
            let mut tail: Vec<Vec<u8>> = Vec::new();
            let mut i: usize = 2;
            while i < parts.len()
                invariant
                    g == spec_split(cb@, 32),
                    parts@.len() == g.len(),
                    forall|p: int| 0 <= p < parts@.len() ==> #[trigger] parts@[p]@ == g[p],
                    2 <= i <= parts@.len(),
                    tail@.len() == i - 2,
                    forall|p: int| 0 <= p < tail@.len() ==> #[trigger] tail@[p]@ == g[p + 2],
                decreases parts@.len() - i,
            {
                let piece = parts[i].clone();
                tail.push(piece);
                i = i + 1;
            }
            let joined = join_bytes(&tail, 32);
            proof {
                assert(tail@.map_values(|p: Vec<u8>| p@) =~~= g.skip(2));
                assert forall|p: int| 0 <= p < g.skip(2).len() implies valid_utf8(
                    #[trigger] g.skip(2)[p],
                ) by {
                    assert(g.skip(2)[p] == g[p + 2]);
                }
                lemma_join_pieces_valid(g.skip(2), 32);
            }
            let target = string_of_utf8(joined.as_slice());
            RecordData::SRV { priority, weight, port, target }
        } else {
            RecordData::from_raw(rt, api_record.content.as_str())
        }
    } else {
        RecordData::from_raw(rt, api_record.content.as_str())
    };
    let id = synthesize_record_id(
        api_record.name.as_str(),
        api_record.record_type.as_str(),
        api_record.content.as_str(),
    );
    Record { id, host, data, ttl: api_record.ttl }
}

/// Parses a decimal field, falling back to zero.
fn u16_field_or_zero(p: &[u8]) -> (r: u16)
    ensures
        r == u16_or_zero(p@),
{
    match parse_dec_u16(p) {
        Some(v) => v,
        None => 0,
    }
}

} // verus!
