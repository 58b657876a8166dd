//! The tagged record-data model and the generic record entity.
//!
//! `RecordData` has one variant per supported record shape and an opaque
//! fallback.  `from_raw` never fails: malformed input for a known type falls
//! back to the `Other` variant, keeping the type string and value intact.

use vstd::prelude::*;

verus! {

use vstd::utf8::{encode_utf8, valid_utf8, valid_utf8_concat};
use vstd::string::StringSliceAdditionalSpecFns;
use crate::addr::{
    Ipv4Addr, Ipv6Addr, spec_parse_ipv4, spec_parse_ipv6, spec_ipv4_bytes, spec_ipv6_bytes,
};
use crate::text::{
    spec_split, dec_rep, dec_val, is_dec_bytes, split_bytes, parse_dec_u16, push_dec_u64,
    push_str_bytes, string_of_utf8, lemma_dec_rep_digits, lemma_ascii_bytes_chars,
    is_ascii_bytes, eq_bytes,
};

/// The mathematical model of record data: byte strings in place of `String`,
/// plain numbers in place of address types.
pub enum RecordDataView {
    /// IPv4 host address.
    A { a: u8, b: u8, c: u8, d: u8 },
    /// IPv6 host address.
    AAAA { groups: Seq<u16> },
    /// Canonical name.
    CNAME { name: Seq<u8> },
    /// Mail exchange.
    MX { priority: u16, mail_server: Seq<u8> },
    /// Name server.
    NS { name: Seq<u8> },
    /// Text record.
    TXT { text: Seq<u8> },
    /// Service locator.
    SRV { priority: u16, weight: u16, port: u16, target: Seq<u8> },
    /// Any record shape without a dedicated variant.
    Other { typ: Seq<u8>, value: Seq<u8> },
}

/// DNS record data: one variant per supported shape, and an opaque fallback.
#[derive(Debug, Clone, PartialEq, Eq, Hash)]
pub enum RecordData {
    /// IPv4 host address.
    A(Ipv4Addr),
    /// IPv6 host address.
    AAAA(Ipv6Addr),
    /// Canonical name, stored verbatim.
    CNAME(String),
    /// Mail exchange: preference and host.
    MX {
        /// Preference value; lower is preferred.
        priority: u16,
        /// Mail exchange host.
        mail_server: String,
    },
    /// Name server, stored verbatim.
    NS(String),
    /// Text record, stored verbatim.
    TXT(String),
    /// Service locator (RFC 2782).
    SRV {
        /// Priority; lower is preferred.
        priority: u16,
        /// Weight among equal priorities.
        weight: u16,
        /// TCP or UDP port.
        port: u16,
        /// Target host.
        target: String,
    },
    /// Any record type without a dedicated shape.
    Other {
        /// The type string as given.
        typ: String,
        /// The value as given.
        value: String,
    },
}

impl View for RecordData {
    type V = RecordDataView;

    open spec fn view(&self) -> RecordDataView {
        match self {
            RecordData::A(ip) => RecordDataView::A { a: ip.a, b: ip.b, c: ip.c, d: ip.d },
            RecordData::AAAA(ip) => RecordDataView::AAAA { groups: ip@ },
            RecordData::CNAME(s) => RecordDataView::CNAME { name: encode_utf8(s@) },
            RecordData::MX { priority, mail_server } => RecordDataView::MX {
                priority: *priority,
                mail_server: encode_utf8(mail_server@),
            },
            RecordData::NS(s) => RecordDataView::NS { name: encode_utf8(s@) },
            RecordData::TXT(s) => RecordDataView::TXT { text: encode_utf8(s@) },
            RecordData::SRV { priority, weight, port, target } => RecordDataView::SRV {
                priority: *priority,
                weight: *weight,
                port: *port,
                target: encode_utf8(target@),
            },
            RecordData::Other { typ, value } => RecordDataView::Other {
                typ: encode_utf8(typ@),
                value: encode_utf8(value@),
            },
        }
    }
}

/// The nonempty space-separated fields of a value.
pub open spec fn space_fields(v: Seq<u8>) -> Seq<Seq<u8>> {
    spec_split(v, 32).filter(|p: Seq<u8>| p.len() > 0)
}

/// A field that parses as a 16-bit decimal number.
pub open spec fn u16_field_ok(p: Seq<u8>) -> bool {
    is_dec_bytes(p) && dec_val(p) <= u16::MAX
}

/// Parses a decimal field, with a fallback for anything that is not one.
pub fn u16_field_or_default(p: &[u8], d: u16) -> (r: u16)
    ensures
        r == if is_dec_bytes(p@) && dec_val(p@) <= u16::MAX {
            dec_val(p@) as u16
        } else {
            d
        },
{
    match parse_dec_u16(p) {
        Some(v) => v,
        None => d,
    }
}

/// What `from_raw` builds from a type string and a value, both as bytes.
pub open spec fn spec_from_raw(t: Seq<u8>, v: Seq<u8>) -> RecordDataView {
    if t == encode_utf8("A"@) {
        match spec_parse_ipv4(v) {
            Some(o) => RecordDataView::A { a: o.0, b: o.1, c: o.2, d: o.3 },
            None => RecordDataView::Other { typ: t, value: v },
        }
    } else if t == encode_utf8("AAAA"@) {
        match spec_parse_ipv6(v) {
            Some(groups) => RecordDataView::AAAA { groups },
            None => RecordDataView::Other { typ: t, value: v },
        }
    } else if t == encode_utf8("CNAME"@) {
        RecordDataView::CNAME { name: v }
    } else if t == encode_utf8("NS"@) {
        RecordDataView::NS { name: v }
    } else if t == encode_utf8("TXT"@) {
        RecordDataView::TXT { text: v }
    } else if t == encode_utf8("MX"@) {
        let f = space_fields(v);
        if f.len() == 2 && u16_field_ok(f[0]) {
            RecordDataView::MX { priority: dec_val(f[0]) as u16, mail_server: f[1] }
        } else {
            RecordDataView::Other { typ: t, value: v }
        }
    } else if t == encode_utf8("SRV"@) {
        let f = space_fields(v);
        if f.len() == 4 && u16_field_ok(f[0]) && u16_field_ok(f[1]) && u16_field_ok(f[2]) {
            RecordDataView::SRV {
                priority: dec_val(f[0]) as u16,
                weight: dec_val(f[1]) as u16,
                port: dec_val(f[2]) as u16,
                target: f[3],
            }
        } else {
            RecordDataView::Other { typ: t, value: v }
        }
    } else {
        RecordDataView::Other { typ: t, value: v }
    }
}

/// The canonical type string of record data, as bytes.
pub open spec fn spec_rd_type(d: RecordDataView) -> Seq<u8> {
    match d {
        RecordDataView::A { .. } => encode_utf8("A"@),
        RecordDataView::AAAA { .. } => encode_utf8("AAAA"@),
        RecordDataView::CNAME { .. } => encode_utf8("CNAME"@),
        RecordDataView::MX { .. } => encode_utf8("MX"@),
        RecordDataView::NS { .. } => encode_utf8("NS"@),
        RecordDataView::TXT { .. } => encode_utf8("TXT"@),
        RecordDataView::SRV { .. } => encode_utf8("SRV"@),
        RecordDataView::Other { typ, .. } => typ,
    }
}

/// The generic human-oriented value of record data, as bytes.
pub open spec fn spec_rd_value(d: RecordDataView) -> Seq<u8> {
    match d {
        RecordDataView::A { a, b, c, d } => spec_ipv4_bytes(a, b, c, d),
        RecordDataView::AAAA { groups } => spec_ipv6_bytes(groups),
        RecordDataView::CNAME { name } => name,
        RecordDataView::MX { priority, mail_server } => dec_rep(priority as nat) + seq![32u8]
            + mail_server,
        RecordDataView::NS { name } => name,
        RecordDataView::TXT { text } => text,
        RecordDataView::SRV { priority, weight, port, target } => dec_rep(priority as nat) + seq![
            32u8,
        ] + dec_rep(weight as nat) + seq![32u8] + dec_rep(port as nat) + seq![32u8] + target,
        RecordDataView::Other { value, .. } => value,
    }
}

/// The narrower value some creation endpoints need: the MX preference and
/// the SRV priority travel in fields of their own, so they are left out.
pub open spec fn spec_rd_api_value(d: RecordDataView) -> Seq<u8> {
    match d {
        RecordDataView::MX { mail_server, .. } => mail_server,
        RecordDataView::SRV { weight, port, target, .. } => dec_rep(weight as nat) + seq![32u8]
            + dec_rep(port as nat) + seq![32u8] + target,
        _ => spec_rd_value(d),
    }
}

/// The type string of record data built by `from_raw` is exactly the string
/// it was built from, whichever branch was taken.
pub proof fn lemma_from_raw_type(t: Seq<u8>, v: Seq<u8>)
    ensures
        spec_rd_type(spec_from_raw(t, v)) == t,
{
}

/// Every kept field is one of the original pieces.
proof fn lemma_filter_member(s: Seq<Seq<u8>>, i: int)
    requires
        0 <= i < s.filter(|p: Seq<u8>| p.len() > 0).len(),
    ensures
        exists|j: int|
            0 <= j < s.len() && s.filter(|p: Seq<u8>| p.len() > 0)[i] == #[trigger] s[j],
    decreases s.len(),
{
    reveal(Seq::filter);
    let f = s.filter(|p: Seq<u8>| p.len() > 0);
    if s.len() > 0 {
        let fd = s.drop_last().filter(|p: Seq<u8>| p.len() > 0);
        if i < fd.len() {
            lemma_filter_member(s.drop_last(), i);
            let j = choose|j: int|
                0 <= j < s.drop_last().len() && fd[i] == #[trigger] s.drop_last()[j];
            assert(s[j] == s.drop_last()[j]);
            assert(f[i] == fd[i]);
        } else {
            assert(f[i] == s.last());
            assert(s[s.len() - 1] == s.last());
        }
    }
}

/// Every space-separated field of valid UTF-8 is valid UTF-8.
pub proof fn lemma_space_field_valid(v: Seq<u8>, i: int)
    requires
        valid_utf8(v),
        0 <= i < space_fields(v).len(),
    ensures
        valid_utf8(space_fields(v)[i]),
{
    crate::text::lemma_split_pieces_valid(v, 32);
    lemma_filter_member(spec_split(v, 32), i);
}

/// Keeps the nonempty pieces, mirroring `space_fields`.
fn nonempty_fields(parts: &Vec<Vec<u8>>) -> (r: Vec<Vec<u8>>)
    ensures
        r@.map_values(|p: Vec<u8>| p@) == parts@.map_values(|p: Vec<u8>| p@).filter(
            |p: Seq<u8>| p.len() > 0,
        ),
{
    let ghost g = parts@.map_values(|p: Vec<u8>| p@);
    let mut out: Vec<Vec<u8>> = Vec::new();
    let mut i: usize = 0;
    proof {
        reveal(Seq::filter);
        assert(g.take(0) =~~= Seq::<Seq<u8>>::empty());
        assert(out@.map_values(|p: Vec<u8>| p@) =~~= g.take(0).filter(|p: Seq<u8>| p.len() > 0));
    }
    while i < parts.len()
        invariant
            g == parts@.map_values(|p: Vec<u8>| p@),
            0 <= i <= parts@.len(),
            out@.map_values(|p: Vec<u8>| p@) == g.take(i as int).filter(
                |p: Seq<u8>| p.len() > 0,
            ),
        decreases parts@.len() - i,
    {
        proof {
            assert(g.take(i + 1) =~~= g.take(i as int).push(g[i as int]));
            crate::text::lemma_filter_push(g.take(i as int), |p: Seq<u8>| p.len() > 0, g[i as int]);
        }
        if parts[i].len() > 0 {
            let piece = parts[i].clone();
            out.push(piece);
            proof {
                assert(out@.map_values(|p: Vec<u8>| p@) =~~= g.take(i + 1).filter(
                    |p: Seq<u8>| p.len() > 0,
                ));
            }
        }
        i = i + 1;
    }
    proof {
        assert(g.take(parts@.len() as int) =~~= g);
    }
    out
}

/// Splits a value on spaces and keeps the nonempty fields.
pub fn space_fields_vec(v: &[u8]) -> (r: Vec<Vec<u8>>)
    ensures
        r@.map_values(|p: Vec<u8>| p@) == space_fields(v@),
{
    let parts = split_bytes(v, 32);
    proof {
        assert(parts@.map_values(|p: Vec<u8>| p@) =~~= spec_split(v@, 32));
    }
    nonempty_fields(&parts)
}

impl RecordData {
    /// Builds record data from a type string and a raw value.  Never fails:
    /// a malformed value for a known type, or an unknown type, is wrapped in
    /// the opaque variant with both strings intact.
    pub fn from_raw(typ: &str, value: &str) -> (r: RecordData)
        ensures
            r@ == spec_from_raw(typ.spec_bytes(), value.spec_bytes()),
    {
        let t = typ.as_bytes();
        let v = value.as_bytes();
        if eq_bytes(t, "A".as_bytes()) {
            match Ipv4Addr::parse_bytes(v) {
                Some(ip) => RecordData::A(ip),
                None => RecordData::Other { typ: typ.to_owned(), value: value.to_owned() },
            }
        } else if eq_bytes(t, "AAAA".as_bytes()) {
            match Ipv6Addr::parse_bytes(v) {
                Some(ip) => RecordData::AAAA(ip),
                None => RecordData::Other { typ: typ.to_owned(), value: value.to_owned() },
            }
        } else if eq_bytes(t, "CNAME".as_bytes()) {
            RecordData::CNAME(value.to_owned())
        } else if eq_bytes(t, "NS".as_bytes()) {
            RecordData::NS(value.to_owned())
        } else if eq_bytes(t, "TXT".as_bytes()) {
            RecordData::TXT(value.to_owned())
        } else if eq_bytes(t, "MX".as_bytes()) {
            let fields = space_fields_vec(v);
            if fields.len() == 2 {
                match parse_dec_u16(fields[0].as_slice()) {
                    Some(priority) => {
                        proof {
                            assert(space_fields(v@)[1] == fields@.map_values(
                                |p: Vec<u8>| p@,
                            )[1]);
                        }
                        match crate::text::utf8_to_owned(fields[1].as_slice()) {
                            Some(ms) => RecordData::MX { priority, mail_server: ms },
                            None => {
                                proof {
                                    vstd::utf8::encode_utf8_valid_utf8(value@);
                                    lemma_space_field_valid(v@, 1);
                                }
                                vstd::pervasive::unreached()
                            },
                        }
                    },
                    None => RecordData::Other {
                        typ: typ.to_owned(),
                        value: value.to_owned(),
                    },
                }
            } else {
                RecordData::Other { typ: typ.to_owned(), value: value.to_owned() }
            }
        } else if eq_bytes(t, "SRV".as_bytes()) {
            let fields = space_fields_vec(v);
            if fields.len() == 4 {
                let p0 = parse_dec_u16(fields[0].as_slice());
                let p1 = parse_dec_u16(fields[1].as_slice());
                let p2 = parse_dec_u16(fields[2].as_slice());
                match (p0, p1, p2) {
                    (Some(priority), Some(weight), Some(port)) => {
                        proof {
                            assert(space_fields(v@)[3] == fields@.map_values(
                                |p: Vec<u8>| p@,
                            )[3]);
                        }
                        match crate::text::utf8_to_owned(fields[3].as_slice()) {
                            Some(target) => RecordData::SRV { priority, weight, port, target },
                            None => {
                                proof {
                                    vstd::utf8::encode_utf8_valid_utf8(value@);
                                    lemma_space_field_valid(v@, 3);
                                }
                                vstd::pervasive::unreached()
                            },
                        }
                    },
                    _ => RecordData::Other { typ: typ.to_owned(), value: value.to_owned() },
                }
            } else {
                RecordData::Other { typ: typ.to_owned(), value: value.to_owned() }
            }
        } else {
            RecordData::Other { typ: typ.to_owned(), value: value.to_owned() }
        }
    }

    /// The canonical type string of the active variant; the opaque variant
    /// answers with its stored type.
    pub fn get_type(&self) -> (r: &str)
        ensures
            encode_utf8(r@) == spec_rd_type(self@),
    {
        match self {
            RecordData::A(_) => "A",
            RecordData::AAAA(_) => "AAAA",
            RecordData::CNAME(_) => "CNAME",
            RecordData::MX { .. } => "MX",
            RecordData::NS(_) => "NS",
            RecordData::TXT(_) => "TXT",
            RecordData::SRV { .. } => "SRV",
            RecordData::Other { typ, .. } => typ.as_str(),
        }
    }

    /// The generic human-oriented value: MX spells preference and host, SRV
    /// spells all four fields.
    pub fn get_value(&self) -> (r: String)
        ensures
            encode_utf8(r@) == spec_rd_value(self@),
    {
        match self {
            RecordData::A(ip) => ip.to_text(),
            RecordData::AAAA(ip) => ip.to_text(),
            RecordData::CNAME(s) => s.clone(),
            RecordData::NS(s) => s.clone(),
            RecordData::TXT(s) => s.clone(),
            RecordData::MX { priority, mail_server } => {
                let mut out: Vec<u8> = Vec::new();
                push_dec_u64(&mut out, *priority as u64);
                out.push(32);
                push_str_bytes(&mut out, mail_server.as_str());
                proof {
                    let prefix = dec_rep(*priority as nat) + seq![32u8];
                    lemma_dec_rep_digits(*priority as nat);
                    lemma_ascii_prefix_str_valid(prefix, mail_server@);
                    assert(out@ =~= prefix + encode_utf8(mail_server@));
                }
                string_of_utf8(out.as_slice())
            },
            RecordData::SRV { priority, weight, port, target } => {
                let mut out: Vec<u8> = Vec::new();
                push_dec_u64(&mut out, *priority as u64);
                out.push(32);
                push_dec_u64(&mut out, *weight as u64);
                out.push(32);
                push_dec_u64(&mut out, *port as u64);
                out.push(32);
                push_str_bytes(&mut out, target.as_str());
                proof {
                    let prefix = dec_rep(*priority as nat) + seq![32u8] + dec_rep(
                        *weight as nat,
                    ) + seq![32u8] + dec_rep(*port as nat) + seq![32u8];
                    lemma_dec_rep_digits(*priority as nat);
                    lemma_dec_rep_digits(*weight as nat);
                    lemma_dec_rep_digits(*port as nat);
                    lemma_ascii_prefix_str_valid(prefix, target@);
                    assert(out@ =~= prefix + encode_utf8(target@));
                }
                string_of_utf8(out.as_slice())
            },
            RecordData::Other { value, .. } => value.clone(),
        }
    }

    /// The value in the narrower per-endpoint form: MX without the
    /// preference, SRV without the priority.
    pub fn get_api_value(&self) -> (r: String)
        ensures
            encode_utf8(r@) == spec_rd_api_value(self@),
    {
        match self {
            RecordData::MX { mail_server, .. } => mail_server.clone(),
            RecordData::SRV { weight, port, target, .. } => {
                let mut out: Vec<u8> = Vec::new();
                push_dec_u64(&mut out, *weight as u64);
                out.push(32);
                push_dec_u64(&mut out, *port as u64);
                out.push(32);
                push_str_bytes(&mut out, target.as_str());
                proof {
                    let prefix = dec_rep(*weight as nat) + seq![32u8] + dec_rep(*port as nat)
                        + seq![32u8];
                    lemma_dec_rep_digits(*weight as nat);
                    lemma_dec_rep_digits(*port as nat);
                    lemma_ascii_prefix_str_valid(prefix, target@);
                    assert(out@ =~= prefix + encode_utf8(target@));
                }
                string_of_utf8(out.as_slice())
            },
            _ => self.get_value(),
        }
    }
}

/// An ASCII prefix followed by the bytes of a string is valid UTF-8.
proof fn lemma_ascii_prefix_str_valid(prefix: Seq<u8>, s: Seq<char>)
    requires
        is_ascii_bytes(prefix),
    ensures
        valid_utf8(prefix + encode_utf8(s)),
{
    lemma_ascii_bytes_chars(prefix);
    vstd::utf8::encode_utf8_valid_utf8(s);
    valid_utf8_concat(prefix, encode_utf8(s));
}

/// The generic record entity: identity, owning host, data, and TTL.
#[derive(Debug, Clone, PartialEq, Eq, Hash)]
pub struct Record {
    /// Backend-assigned identity, opaque to this crate.
    pub id: String,
    /// The owner name as the backend reports it.
    pub host: String,
    /// The record data.
    pub data: RecordData,
    /// Time to live in seconds.
    pub ttl: u64,
}

impl Record {
    /// Builds a record from its parts.
    pub fn new(id: String, host: String, data: RecordData, ttl: u64) -> (r: Record)
        ensures
            r.id == id,
            r.host == host,
            r.data == data,
            r.ttl == ttl,
    {
        Record { id, host, data, ttl }
    }
}

/// The owner name of a record: the domain itself for the apex marker `@`,
/// otherwise the name dotted onto the domain.
pub open spec fn spec_full_host(name: Seq<u8>, domain: Seq<u8>) -> Seq<u8> {
    if name == encode_utf8("@"@) {
        domain
    } else {
        name + seq![46u8] + domain
    }
}

/// Joins a relative host onto its domain.
pub fn full_host(name: &str, domain: &str) -> (r: String)
    ensures
        encode_utf8(r@) == spec_full_host(name.spec_bytes(), domain.spec_bytes()),
{
    if eq_bytes(name.as_bytes(), "@".as_bytes()) {
        domain.to_owned()
    } else {
        let mut out: Vec<u8> = Vec::new();
        push_str_bytes(&mut out, name);
        out.push(46);
        push_str_bytes(&mut out, domain);
        proof {
            vstd::utf8::encode_utf8_valid_utf8(name@);
            vstd::utf8::encode_utf8_valid_utf8(domain@);
            lemma_ascii_bytes_chars(seq![46u8]);
            vstd::utf8::valid_utf8_concat(encode_utf8(name@), seq![46u8]);
            vstd::utf8::valid_utf8_concat(encode_utf8(name@) + seq![46u8], encode_utf8(domain@));
            assert(out@ =~= encode_utf8(name@) + seq![46u8] + encode_utf8(domain@));
        }
        string_of_utf8(out.as_slice())
    }
}

} // verus!
