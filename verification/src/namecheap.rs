//! Pure logic of the Namecheap backend.
//!
//! Namecheap's record API is destructive: setting the hosts of a zone
//! replaces all of them.  The logic here plans those replacements — adding a
//! record, removing one by its identity, and finding a freshly created
//! record in the zone's new state — and classifies the numeric error codes
//! of the API into the shared taxonomy.  The XML transport that carries the
//! host lists lives outside the verified library.

use vstd::prelude::*;

verus! {

use vstd::utf8::encode_utf8;
use vstd::string::StringSliceAdditionalSpecFns;
use crate::text::{
    spec_split, spec_join, split_bytes, join_bytes, spec_trim_trailing, trim_trailing,
    lower_bytes, lower_ascii, spec_url_encode, url_encode, string_of_utf8, push_str_bytes,
    lemma_split_pieces_valid, lemma_join_pieces_valid, eq_bytes, lemma_ascii_bytes_chars,
};
use vstd::utf8::valid_utf8;
use crate::types::Environment;
use crate::record::{Record, RecordData, RecordDataView, spec_from_raw, full_host, spec_full_host};

/// An error response of the Namecheap API: its code and message.
#[derive(Debug, Clone, PartialEq, Eq)]
pub struct ApiError {
    /// The numeric error code, as the API spells it.
    pub code: String,
    /// The error message.
    pub message: String,
}

/// Failures of the Namecheap backend, classified from the API's numeric
/// error codes.  Transport failures are the HTTP layer's affair and stay
/// outside this type.
#[derive(Debug, Clone, PartialEq, Eq)]
pub enum NamecheapError {
    /// An API error that maps to no named condition.
    Api(ApiError),
    /// The XML response could not be understood.
    Parse(String),
    /// The domain does not exist or is not served here.
    DomainNotFound,
    /// The credentials or the client address were refused.
    Unauthorized,
    /// The API asked the client to slow down.
    RateLimited,
}

impl NamecheapError {
    /// A short description of the failure.
    pub fn message(&self) -> (r: String)
        ensures
            match self {
                NamecheapError::Api(e) => r@ == e.message@,
                NamecheapError::Parse(m) => r@ == m@,
                NamecheapError::DomainNotFound => r@ == "Domain not found"@,
                NamecheapError::Unauthorized => r@ == "Unauthorized"@,
                NamecheapError::RateLimited => r@ == "Rate limited"@,
            },
    {
        match self {
            NamecheapError::Api(e) => e.message.clone(),
            NamecheapError::Parse(m) => m.clone(),
            NamecheapError::DomainNotFound => "Domain not found".to_owned(),
            NamecheapError::Unauthorized => "Unauthorized".to_owned(),
            NamecheapError::RateLimited => "Rate limited".to_owned(),
        }
    }
}

/// Two different character sequences have different UTF-8 bytes.
proof fn lemma_encode_neq(a: Seq<char>, b: Seq<char>)
    requires
        a != b,
    ensures
        encode_utf8(a) != encode_utf8(b),
{
    if encode_utf8(a) == encode_utf8(b) {
        crate::text::lemma_encode_utf8_injective(a, b);
    }
}

/// The named error codes are pairwise distinct.
proof fn lemma_error_codes_distinct()
    ensures
        encode_utf8("2019166"@) != encode_utf8("1010102"@),
        encode_utf8("2019166"@) != encode_utf8("1011102"@),
        encode_utf8("2019166"@) != encode_utf8("1030408"@),
        encode_utf8("2016166"@) != encode_utf8("1010102"@),
        encode_utf8("2016166"@) != encode_utf8("1011102"@),
        encode_utf8("2016166"@) != encode_utf8("1030408"@),
        encode_utf8("500000"@) != encode_utf8("1010102"@),
        encode_utf8("500000"@) != encode_utf8("1011102"@),
        encode_utf8("500000"@) != encode_utf8("1030408"@),
        encode_utf8("500000"@) != encode_utf8("2019166"@),
        encode_utf8("500000"@) != encode_utf8("2016166"@),
{
    reveal_strlit("1010102");
    reveal_strlit("1011102");
    reveal_strlit("1030408");
    reveal_strlit("2019166");
    reveal_strlit("2016166");
    reveal_strlit("500000");
    assert("2019166"@[0] != "1010102"@[0]);
    assert("2019166"@[0] != "1011102"@[0]);
    assert("2019166"@[0] != "1030408"@[0]);
    assert("2016166"@[0] != "1010102"@[0]);
    assert("2016166"@[0] != "1011102"@[0]);
    assert("2016166"@[0] != "1030408"@[0]);
    assert("500000"@.len() != "1010102"@.len());
    assert("500000"@[0] != "2019166"@[0]);
    assert("500000"@[0] != "2016166"@[0]);
    lemma_encode_neq("2019166"@, "1010102"@);
    lemma_encode_neq("2019166"@, "1011102"@);
    lemma_encode_neq("2019166"@, "1030408"@);
    lemma_encode_neq("2016166"@, "1010102"@);
    lemma_encode_neq("2016166"@, "1011102"@);
    lemma_encode_neq("2016166"@, "1030408"@);
    lemma_encode_neq("500000"@, "1010102"@);
    lemma_encode_neq("500000"@, "1011102"@);
    lemma_encode_neq("500000"@, "1030408"@);
    lemma_encode_neq("500000"@, "2019166"@);
    lemma_encode_neq("500000"@, "2016166"@);
}

/// Classifies one numeric error code with its message.
pub fn classify_error_code(code: &str, message: &str) -> (r: NamecheapError)
    ensures
        (code.spec_bytes() == encode_utf8("1010102"@) || code.spec_bytes() == encode_utf8(
            "1011102"@,
        ) || code.spec_bytes() == encode_utf8("1030408"@)) ==> r == NamecheapError::Unauthorized,
        (code.spec_bytes() == encode_utf8("2019166"@) || code.spec_bytes() == encode_utf8(
            "2016166"@,
        )) ==> r == NamecheapError::DomainNotFound,
        code.spec_bytes() == encode_utf8("500000"@) ==> r == NamecheapError::RateLimited,
        match r {
            NamecheapError::Api(e) => encode_utf8(e.code@) == code.spec_bytes() && encode_utf8(
                e.message@,
            ) == message.spec_bytes(),
            NamecheapError::Unauthorized => code.spec_bytes() == encode_utf8("1010102"@)
                || code.spec_bytes() == encode_utf8("1011102"@) || code.spec_bytes()
                == encode_utf8("1030408"@),
            NamecheapError::DomainNotFound => code.spec_bytes() == encode_utf8("2019166"@)
                || code.spec_bytes() == encode_utf8("2016166"@),
            NamecheapError::RateLimited => code.spec_bytes() == encode_utf8("500000"@),
            _ => false,
        },
{
    proof {
        lemma_error_codes_distinct();
    }
    let c = code.as_bytes();
    if eq_bytes(c, "1010102".as_bytes()) || eq_bytes(c, "1011102".as_bytes()) || eq_bytes(
        c,
        "1030408".as_bytes(),
    ) {
        NamecheapError::Unauthorized
    } else if eq_bytes(c, "2019166".as_bytes()) || eq_bytes(c, "2016166".as_bytes()) {
        NamecheapError::DomainNotFound
    } else if eq_bytes(c, "500000".as_bytes()) {
        NamecheapError::RateLimited
    } else {
        NamecheapError::Api(ApiError { code: code.to_owned(), message: message.to_owned() })
    }
}

/// A DNS host record as the Namecheap API reports it.
#[derive(Debug, PartialEq, Eq)]
pub struct HostRecord {
    /// Unique identity of the host record.
    pub host_id: String,
    /// The hostname relative to the domain, `@` for the apex.
    pub name: String,
    /// Record type mnemonic.
    pub record_type: String,
    /// The record value.
    pub address: String,
    /// MX preference, for MX records only.
    pub mx_pref: Option<u16>,
    /// TTL in seconds.
    pub ttl: u64,
}

impl Clone for HostRecord {
    /// A clone carries the same fields.
    fn clone(&self) -> (r: Self)
        ensures
            r == *self,
    {
        HostRecord {
            host_id: self.host_id.clone(),
            name: self.name.clone(),
            record_type: self.record_type.clone(),
            address: self.address.clone(),
            mx_pref: self.mx_pref,
            ttl: self.ttl,
        }
    }
}

/// The byte-level model of a host record.
pub struct HostRecordView {
    /// Identity bytes.
    pub host_id: Seq<u8>,
    /// Name bytes.
    pub name: Seq<u8>,
    /// Type bytes.
    pub record_type: Seq<u8>,
    /// Value bytes.
    pub address: Seq<u8>,
    /// MX preference.
    pub mx_pref: Option<u16>,
    /// TTL in seconds.
    pub ttl: u64,
}

impl View for HostRecord {
    type V = HostRecordView;

    open spec fn view(&self) -> HostRecordView {
        HostRecordView {
            host_id: encode_utf8(self.host_id@),
            name: encode_utf8(self.name@),
            record_type: encode_utf8(self.record_type@),
            address: encode_utf8(self.address@),
            mx_pref: self.mx_pref,
            ttl: self.ttl,
        }
    }
}

/// Configuration for the Namecheap API client.
#[derive(Debug, Clone)]
pub struct ClientConfig {
    /// API username.
    pub api_user: String,
    /// API key.
    pub api_key: String,
    /// Username for command execution, usually the API username.
    pub username: String,
    /// Client IP address, which must be whitelisted.
    pub client_ip: String,
    /// Target environment.
    pub environment: Environment,
}

impl ClientConfig {
    /// Builds a configuration; the command username is the API username.
    pub fn new(api_user: &str, api_key: &str, client_ip: &str, environment: Environment) -> (r:
        ClientConfig)
        ensures
            r.api_user@ == api_user@,
            r.api_key@ == api_key@,
            r.username@ == api_user@,
            r.client_ip@ == client_ip@,
            r.environment == environment,
    {
        ClientConfig {
            api_user: api_user.to_owned(),
            api_key: api_key.to_owned(),
            username: api_user.to_owned(),
            client_ip: client_ip.to_owned(),
            environment,
        }
    }

    /// A sandbox configuration.
    pub fn sandbox(api_user: &str, api_key: &str, client_ip: &str) -> (r: ClientConfig)
        ensures
            r.api_user@ == api_user@,
            r.api_key@ == api_key@,
            r.username@ == api_user@,
            r.client_ip@ == client_ip@,
            r.environment == Environment::Sandbox,
    {
        ClientConfig::new(api_user, api_key, client_ip, Environment::Sandbox)
    }

    /// A production configuration.
    pub fn production(api_user: &str, api_key: &str, client_ip: &str) -> (r: ClientConfig)
        ensures
            r.api_user@ == api_user@,
            r.api_key@ == api_key@,
            r.username@ == api_user@,
            r.client_ip@ == client_ip@,
            r.environment == Environment::Production,
    {
        ClientConfig::new(api_user, api_key, client_ip, Environment::Production)
    }

    /// The API endpoint for the configured environment.
    pub fn api_url(&self) -> (r: &'static str)
        ensures
            self.environment == Environment::Production ==> r@
                == "https://api.namecheap.com/xml.response"@,
            self.environment == Environment::Sandbox ==> r@
                == "https://api.sandbox.namecheap.com/xml.response"@,
    {
        match self.environment {
            Environment::Production => "https://api.namecheap.com/xml.response",
            Environment::Sandbox => "https://api.sandbox.namecheap.com/xml.response",
        }
    }
}

/// A registry suffix of two parts, on which the registrable name sits one
/// level higher.
pub open spec fn spec_two_part_tld(t: Seq<u8>) -> bool {
    ||| t == encode_utf8("co.uk"@)
    ||| t == encode_utf8("org.uk"@)
    ||| t == encode_utf8("me.uk"@)
    ||| t == encode_utf8("net.uk"@)
    ||| t == encode_utf8("ac.uk"@)
    ||| t == encode_utf8("gov.uk"@)
    ||| t == encode_utf8("ltd.uk"@)
    ||| t == encode_utf8("plc.uk"@)
    ||| t == encode_utf8("com.au"@)
    ||| t == encode_utf8("net.au"@)
    ||| t == encode_utf8("org.au"@)
    ||| t == encode_utf8("edu.au"@)
    ||| t == encode_utf8("gov.au"@)
    ||| t == encode_utf8("asn.au"@)
    ||| t == encode_utf8("id.au"@)
    ||| t == encode_utf8("co.nz"@)
    ||| t == encode_utf8("net.nz"@)
    ||| t == encode_utf8("org.nz"@)
    ||| t == encode_utf8("govt.nz"@)
    ||| t == encode_utf8("ac.nz"@)
    ||| t == encode_utf8("school.nz"@)
    ||| t == encode_utf8("geek.nz"@)
    ||| t == encode_utf8("co.jp"@)
    ||| t == encode_utf8("ne.jp"@)
    ||| t == encode_utf8("or.jp"@)
    ||| t == encode_utf8("ac.jp"@)
    ||| t == encode_utf8("go.jp"@)
    ||| t == encode_utf8("com.cn"@)
    ||| t == encode_utf8("net.cn"@)
    ||| t == encode_utf8("org.cn"@)
    ||| t == encode_utf8("gov.cn"@)
    ||| t == encode_utf8("edu.cn"@)
    ||| t == encode_utf8("com.br"@)
    ||| t == encode_utf8("net.br"@)
    ||| t == encode_utf8("org.br"@)
    ||| t == encode_utf8("gov.br"@)
    ||| t == encode_utf8("edu.br"@)
    ||| t == encode_utf8("co.in"@)
    ||| t == encode_utf8("net.in"@)
    ||| t == encode_utf8("org.in"@)
    ||| t == encode_utf8("gov.in"@)
    ||| t == encode_utf8("ac.in"@)
}

/// How a domain splits into its registrable part and its registry suffix:
/// trailing dots are stripped, a lone part has no split, a known two-part
/// suffix claims the last two parts, and otherwise the last part alone is
/// the suffix.
pub open spec fn spec_split_domain(b: Seq<u8>) -> Option<(Seq<u8>, Seq<u8>)> {
    let parts = spec_split(spec_trim_trailing(b, 46), 46);
    let n = parts.len() as int;
    if n < 2 {
        None
    } else if n >= 3 && spec_two_part_tld(parts[n - 2] + seq![46u8] + parts[n - 1]) {
        Some(
            (spec_join(parts.take(n - 2), 46), parts[n - 2] + seq![46u8] + parts[n - 1]),
        )
    } else {
        Some((spec_join(parts.take(n - 1), 46), parts[n - 1]))
    }
}

/// Splits a domain into its registrable part and its registry suffix, with
/// a fixed list of common two-part suffixes.
pub fn split_domain(domain: &str) -> (r: Option<(String, String)>)
    ensures
        match r {
            Some(t) => spec_split_domain(domain.spec_bytes()) == Some(
                (encode_utf8(t.0@), encode_utf8(t.1@)),
            ),
            None => spec_split_domain(domain.spec_bytes()) is None,
        },
{
    let b = domain.as_bytes();
    proof {
        vstd::utf8::encode_utf8_valid_utf8(domain@);
        lemma_trim_trailing_valid(b@);
    }
    let core = trim_trailing(b, 46);
    proof {
        lemma_split_pieces_valid(core@, 46);
    }
    let parts = split_bytes(core, 46);
    let n = parts.len();
    if n < 2 {
        return None;
    }
    let ghost g = spec_split(core@, 46);
    let mut suffix: Vec<u8> = Vec::new();
    suffix.extend_from_slice(parts[n - 2].as_slice());
    suffix.push(46);
    suffix.extend_from_slice(parts[n - 1].as_slice());
    proof {
        assert(suffix@ =~= g[n - 2] + seq![46u8] + g[n - 1]);
    }
    let two_part = is_two_part_tld(suffix.as_slice());
    let keep: usize = if n >= 3 && two_part {
        n - 2
    } else {
        n - 1
    };
    let mut head: Vec<Vec<u8>> = Vec::new();
    let mut i: usize = 0;
    while i < keep
        invariant
            g == spec_split(core@, 46),
            parts@.len() == g.len(),
            forall|p: int| 0 <= p < parts@.len() ==> #[trigger] parts@[p]@ == g[p],
            0 <= i <= keep <= parts@.len(),
            head@.len() == i,
            forall|p: int| 0 <= p < head@.len() ==> #[trigger] head@[p]@ == g[p],
        decreases keep - i,
    {
        let piece = parts[i].clone();
        head.push(piece);
        i = i + 1;
    }
    let joined = join_bytes(&head, 46);
    proof {
        assert(head@.map_values(|p: Vec<u8>| p@) =~~= g.take(keep as int));
        assert forall|p: int| 0 <= p < g.take(keep as int).len() implies valid_utf8(
            #[trigger] g.take(keep as int)[p],
        ) by {
            assert(g.take(keep as int)[p] == g[p]);
        }
        lemma_join_pieces_valid(g.take(keep as int), 46);
    }
    let sld = string_of_utf8(joined.as_slice());
    let tld: String = if n >= 3 && two_part {
        proof {
            assert(g[n - 2] == parts@[n - 2]@);
            assert(g[n - 1] == parts@[n - 1]@);
            lemma_ascii_bytes_chars(seq![46u8]);
            vstd::utf8::valid_utf8_concat(g[n - 2], seq![46u8]);
            vstd::utf8::valid_utf8_concat(g[n - 2] + seq![46u8], g[n - 1]);
            assert(suffix@ == (g[n - 2] + seq![46u8]) + g[n - 1]);
        }
        string_of_utf8(suffix.as_slice())
    } else {
        string_of_utf8(parts[n - 1].as_slice())
    };
    Some((sld, tld))
}

/// Trimming trailing ASCII bytes keeps a byte string valid UTF-8.
proof fn lemma_trim_trailing_valid(b: Seq<u8>)
    requires
        valid_utf8(b),
    ensures
        valid_utf8(spec_trim_trailing(b, 46)),
    decreases b.len(),
{
    if b.len() > 0 && b.last() == 46 {
        vstd::utf8::utf8_byte_ranges_bitwise(b.last());
        vstd::utf8::is_char_boundary_iff_is_leading_byte(b, b.len() - 1);
        vstd::utf8::valid_utf8_split(b, b.len() - 1);
        assert(b.subrange(0, b.len() - 1) =~= b.drop_last());
        lemma_trim_trailing_valid(b.drop_last());
    }
}

/// Whether a suffix is on the fixed two-part list.
fn is_two_part_tld(t: &[u8]) -> (r: bool)
    ensures
        r == spec_two_part_tld(t@),
{
    eq_bytes(t, "co.uk".as_bytes()) || eq_bytes(t, "org.uk".as_bytes()) || eq_bytes(
        t,
        "me.uk".as_bytes(),
    ) || eq_bytes(t, "net.uk".as_bytes()) || eq_bytes(t, "ac.uk".as_bytes()) || eq_bytes(
        t,
        "gov.uk".as_bytes(),
    ) || eq_bytes(t, "ltd.uk".as_bytes()) || eq_bytes(t, "plc.uk".as_bytes()) || eq_bytes(
        t,
        "com.au".as_bytes(),
    ) || eq_bytes(t, "net.au".as_bytes()) || eq_bytes(t, "org.au".as_bytes()) || eq_bytes(
        t,
        "edu.au".as_bytes(),
    ) || eq_bytes(t, "gov.au".as_bytes()) || eq_bytes(t, "asn.au".as_bytes()) || eq_bytes(
        t,
        "id.au".as_bytes(),
    ) || eq_bytes(t, "co.nz".as_bytes()) || eq_bytes(t, "net.nz".as_bytes()) || eq_bytes(
        t,
        "org.nz".as_bytes(),
    ) || eq_bytes(t, "govt.nz".as_bytes()) || eq_bytes(t, "ac.nz".as_bytes()) || eq_bytes(
        t,
        "school.nz".as_bytes(),
    ) || eq_bytes(t, "geek.nz".as_bytes()) || eq_bytes(t, "co.jp".as_bytes()) || eq_bytes(
        t,
        "ne.jp".as_bytes(),
    ) || eq_bytes(t, "or.jp".as_bytes()) || eq_bytes(t, "ac.jp".as_bytes()) || eq_bytes(
        t,
        "go.jp".as_bytes(),
    ) || eq_bytes(t, "com.cn".as_bytes()) || eq_bytes(t, "net.cn".as_bytes()) || eq_bytes(
        t,
        "org.cn".as_bytes(),
    ) || eq_bytes(t, "gov.cn".as_bytes()) || eq_bytes(t, "edu.cn".as_bytes()) || eq_bytes(
        t,
        "com.br".as_bytes(),
    ) || eq_bytes(t, "net.br".as_bytes()) || eq_bytes(t, "org.br".as_bytes()) || eq_bytes(
        t,
        "gov.br".as_bytes(),
    ) || eq_bytes(t, "edu.br".as_bytes()) || eq_bytes(t, "co.in".as_bytes()) || eq_bytes(
        t,
        "net.in".as_bytes(),
    ) || eq_bytes(t, "org.in".as_bytes()) || eq_bytes(t, "gov.in".as_bytes()) || eq_bytes(
        t,
        "ac.in".as_bytes(),
    )
}

/// The record data a host record stands for: MX keeps the preference field
/// with the address as the mail server; everything else takes the generic
/// parse.
pub open spec fn spec_host_record_data(h: HostRecordView) -> RecordDataView {
    if h.record_type == encode_utf8("MX"@) {
        RecordDataView::MX {
            priority: crate::namecrane::priority_or(h.mx_pref, 10),
            mail_server: h.address,
        }
    } else {
        spec_from_raw(h.record_type, h.address)
    }
}

/// Converts a host record to the generic record, under its domain.
pub fn host_record_to_record(hr: HostRecord, domain: &str) -> (r: Record)
    ensures
        r.id@ == hr.host_id@,
        encode_utf8(r.host@) == spec_full_host(encode_utf8(hr.name@), domain.spec_bytes()),
        r.data@ == spec_host_record_data(hr@),
        r.ttl == hr.ttl,
{
    let host = full_host(hr.name.as_str(), domain);
    let data: RecordData = if eq_bytes(hr.record_type.as_str().as_bytes(), "MX".as_bytes()) {
        let priority = match hr.mx_pref {
            Some(v) => v,
            None => 10,
        };
        RecordData::MX { priority, mail_server: hr.address }
    } else {
        RecordData::from_raw(hr.record_type.as_str(), hr.address.as_str())
    };
    Record { id: hr.host_id, host, data, ttl: hr.ttl }
}

/// The TTL this backend accepts: clamped into its documented range.
pub fn clamp_ttl(ttl: u64) -> (r: u64)
    ensures
        r == if ttl < 60 {
            60u64
        } else if ttl > 60000 {
            60000u64
        } else {
            ttl
        },
{
    if ttl < 60 {
        60
    } else if ttl > 60000 {
        60000
    } else {
        ttl
    }
}

/// The host record that creating `data` at `host` submits: the type and the
/// per-endpoint value of the data, the MX preference when there is one, and
/// the TTL clamped into the backend's range.
pub fn new_host_record(host: &str, data: &RecordData, ttl: u64) -> (r: HostRecord)
    ensures
        r@.host_id == Seq::<u8>::empty(),
        r@.name == encode_utf8(host@),
        r@.record_type == crate::record::spec_rd_type(data@),
        r@.address == crate::record::spec_rd_api_value(data@),
        r@.mx_pref == (match data@ {
            RecordDataView::MX { priority, .. } => Some(priority),
            _ => None::<u16>,
        }),
        r.ttl == if ttl < 60 {
            60u64
        } else if ttl > 60000 {
            60000u64
        } else {
            ttl
        },
{
    let mx_pref = match data {
        RecordData::MX { priority, .. } => Some(*priority),
        _ => None,
    };
    let r = HostRecord {
        host_id: String::new(),
        name: host.to_owned(),
        record_type: data.get_type().to_owned(),
        address: data.get_api_value(),
        mx_pref,
        ttl: clamp_ttl(ttl),
    };
    proof {
        assert(encode_utf8(Seq::<char>::empty()) =~= Seq::<u8>::empty());
    }
    r
}

/// The canonical form in which a created record's value is compared: any
/// trailing dots stripped and ASCII case folded, since the backend may
/// rewrite both.
pub open spec fn spec_canonical_value(v: Seq<u8>) -> Seq<u8> {
    lower_bytes(spec_trim_trailing(v, 46))
}

/// Whether a reported host record matches what was just created.
pub open spec fn spec_created_match(h: HostRecordView, host: Seq<u8>, rt: Seq<u8>, canon: Seq<u8>)
    -> bool {
    h.name == host && h.record_type == rt && spec_canonical_value(h.address) == canon
}

/// The last reported record matching the created one, if any.
pub open spec fn spec_find_created(
    rs: Seq<HostRecordView>,
    host: Seq<u8>,
    rt: Seq<u8>,
    canon: Seq<u8>,
) -> Option<HostRecordView>
    decreases rs.len(),
{
    if rs.len() == 0 {
        None
    } else if spec_created_match(rs.last(), host, rt, canon) {
        Some(rs.last())
    } else {
        spec_find_created(rs.drop_last(), host, rt, canon)
    }
}

/// Finds the record the backend assigned to a fresh creation: the last
/// reported record with the right name and type whose value matches up to
/// trailing dots and ASCII case.
pub fn find_created_record(updated: &Vec<HostRecord>, host: &str, data: &RecordData) -> (r:
    Option<HostRecord>)
    ensures
        match r {
            Some(h) => spec_find_created(
                updated@.map_values(|x: HostRecord| x@),
                encode_utf8(host@),
                crate::record::spec_rd_type(data@),
                spec_canonical_value(crate::record::spec_rd_api_value(data@)),
            ) == Some(h@),
            None => spec_find_created(
                updated@.map_values(|x: HostRecord| x@),
                encode_utf8(host@),
                crate::record::spec_rd_type(data@),
                spec_canonical_value(crate::record::spec_rd_api_value(data@)),
            ) is None,
        },
{
    let ghost g = updated@.map_values(|x: HostRecord| x@);
    let ghost ghost_host = encode_utf8(host@);
    let ghost grt = crate::record::spec_rd_type(data@);
    let ghost gcanon = spec_canonical_value(crate::record::spec_rd_api_value(data@));
    let expected_type = data.get_type();
    let api_value = data.get_api_value();
    let expected_address = lower_ascii(trim_trailing(api_value.as_str().as_bytes(), 46));
    let hb = host.as_bytes();
    let mut i: usize = updated.len();
    proof {
        assert(g.take(i as int) =~~= g);
    }
    while i > 0
        invariant
            g == updated@.map_values(|x: HostRecord| x@),
            ghost_host == encode_utf8(host@),
            grt == crate::record::spec_rd_type(data@),
            gcanon == spec_canonical_value(crate::record::spec_rd_api_value(data@)),
            hb@ == encode_utf8(host@),
            encode_utf8(expected_type@) == grt,
            expected_address@ == gcanon,
            0 <= i <= updated@.len(),
            spec_find_created(g, ghost_host, grt, gcanon) == spec_find_created(
                g.take(i as int),
                ghost_host,
                grt,
                gcanon,
            ),
        decreases i,
    {
        i = i - 1;
        let h = &updated[i];
        let addr_canon = lower_ascii(trim_trailing(h.address.as_str().as_bytes(), 46));
        let matched = eq_bytes(h.name.as_str().as_bytes(), hb) && eq_bytes(
            h.record_type.as_str().as_bytes(),
            expected_type.as_bytes(),
        ) && eq_bytes(addr_canon.as_slice(), expected_address.as_slice());
        proof {
            assert(g.take(i + 1).last() == g[i as int]);
            assert(g.take(i + 1).drop_last() =~~= g.take(i as int));
            assert(g[i as int] == updated@[i as int]@);
            assert(matched == spec_created_match(g[i as int], ghost_host, grt, gcanon));
        }
        if matched {
            return Some(h.clone());
        }
    }
    proof {
        assert(g.take(0) =~~= Seq::<HostRecordView>::empty());
    }
    None
}

/// What deleting a record from the replacement set yields: every record
/// whose identity differs, and whether the identity was present at all.
pub fn filter_out_record(records: Vec<HostRecord>, record_id: &str) -> (r: (Vec<HostRecord>, bool))
    ensures
        r.0@.map_values(|x: HostRecord| x@) == records@.map_values(|x: HostRecord| x@).filter(
            |h: HostRecordView| h.host_id != encode_utf8(record_id@),
        ),
        r.1 == (exists|i: int|
            0 <= i < records@.len() && #[trigger] records@[i]@.host_id == encode_utf8(
                record_id@,
            )),
{
    let ghost g = records@.map_values(|x: HostRecord| x@);
    let ghost pred = |h: HostRecordView| h.host_id != encode_utf8(record_id@);
    let idb = record_id.as_bytes();
    let mut out: Vec<HostRecord> = Vec::new();
    let mut found = false;
    let mut i: usize = 0;
    proof {
        reveal(Seq::filter);
        assert(g.take(0) =~~= Seq::<HostRecordView>::empty());
        assert(out@.map_values(|x: HostRecord| x@) =~~= g.take(0).filter(pred));
    }
    while i < records.len()
        invariant
            g == records@.map_values(|x: HostRecord| x@),
            pred == (|h: HostRecordView| h.host_id != encode_utf8(record_id@)),
            idb@ == encode_utf8(record_id@),
            0 <= i <= records@.len(),
            out@.map_values(|x: HostRecord| x@) == g.take(i as int).filter(pred),
            found == (exists|k: int|
                0 <= k < i && #[trigger] records@[k]@.host_id == encode_utf8(record_id@)),
        decreases records@.len() - i,
    {
        let h = &records[i];
        let is_target = eq_bytes(h.host_id.as_str().as_bytes(), idb);
        proof {
            assert(g.take(i + 1) =~~= g.take(i as int).push(g[i as int]));
            crate::text::lemma_filter_push(g.take(i as int), pred, g[i as int]);
            assert(g[i as int] == records@[i as int]@);
        }
        if is_target {
            found = true;
        } else {
            let kept = h.clone();
            out.push(kept);
            proof {
                assert(out@.map_values(|x: HostRecord| x@) =~~= g.take(i as int).filter(
                    pred,
                ).push(g[i as int]));
            }
        }
        i = i + 1;
    }
    proof {
        assert(g.take(records@.len() as int) =~~= g);
    }
    (out, found)
}

/// A query string from key-value pairs: keys verbatim, values
/// percent-encoded, pairs joined with ampersands.
pub open spec fn spec_query_string(params: Seq<(Seq<u8>, Seq<u8>)>) -> Seq<u8> {
    spec_join(
        params.map_values(|kv: (Seq<u8>, Seq<u8>)| kv.0 + seq![61u8] + spec_url_encode(kv.1)),
        38,
    )
}

/// Builds the query string of a request: `key=value` pairs joined with
/// `&`, each value percent-encoded.
pub fn build_query_string(params: &Vec<(String, String)>) -> (r: String)
    ensures
        encode_utf8(r@) == spec_query_string(
            params@.map_values(|kv: (String, String)| (encode_utf8(kv.0@), encode_utf8(kv.1@))),
        ),
{
    let ghost gp = params@.map_values(
        |kv: (String, String)| (encode_utf8(kv.0@), encode_utf8(kv.1@)),
    );
    let mut pieces: Vec<Vec<u8>> = Vec::new();
    let mut i: usize = 0;
    while i < params.len()
        invariant
            gp == params@.map_values(
                |kv: (String, String)| (encode_utf8(kv.0@), encode_utf8(kv.1@)),
            ),
            0 <= i <= params@.len(),
            pieces@.len() == i,
            forall|p: int|
                0 <= p < i ==> #[trigger] pieces@[p]@ == gp[p].0 + seq![61u8] + spec_url_encode(
                    gp[p].1,
                ),
        decreases params@.len() - i,
    {
        let enc = url_encode(params[i].1.as_str());
        let mut piece: Vec<u8> = Vec::new();
        push_str_bytes(&mut piece, params[i].0.as_str());
        piece.push(61);
        push_str_bytes(&mut piece, enc.as_str());
        proof {
            assert(piece@ =~= gp[i as int].0 + seq![61u8] + spec_url_encode(gp[i as int].1));
        }
        pieces.push(piece);
        i = i + 1;
    }
    let joined = join_bytes(&pieces, 38);
    proof {
        let gpieces = gp.map_values(
            |kv: (Seq<u8>, Seq<u8>)| kv.0 + seq![61u8] + spec_url_encode(kv.1),
        );
        assert(pieces@.map_values(|p: Vec<u8>| p@) =~~= gpieces);
        assert forall|p: int| 0 <= p < gpieces.len() implies valid_utf8(
            #[trigger] gpieces[p],
        ) by {
            let k = gp[p].0;
            let e = spec_url_encode(gp[p].1);
            vstd::utf8::encode_utf8_valid_utf8(params@[p].0@);
            assert(k == encode_utf8(params@[p].0@));
            lemma_ascii_bytes_chars(seq![61u8]);
            crate::text::lemma_url_encode_ascii(gp[p].1);
            lemma_ascii_bytes_chars(e);
            vstd::utf8::valid_utf8_concat(k, seq![61u8]);
            vstd::utf8::valid_utf8_concat(k + seq![61u8], e);
            assert(gpieces[p] == k + seq![61u8] + e);
        }
        lemma_join_pieces_valid(gpieces, 38);
    }
    string_of_utf8(joined.as_slice())
}

} // verus!
