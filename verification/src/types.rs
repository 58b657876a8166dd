//! RFC-compliant DNS value types.
//!
//! This module provides the strictly-sized value types of the DNS data model:
//! - Labels of 1 to 63 bytes (RFC 1035)
//! - Domain names of at most 255 wire-format bytes (RFC 1035)
//! - TTL values of at most `2^31 - 1` seconds (RFC 2181)
//! - Record type and class codes with their mnemonics (RFC 1035)

use vstd::prelude::*;

verus! {

use vstd::utf8::encode_utf8;
use vstd::string::StringSliceAdditionalSpecFns;
use crate::text::{chars_of_bytes, is_ascii_bytes, lemma_ascii_bytes_chars, lower_bytes};
use crate::{MAX_LABEL_LEN, MAX_DOMAIN_LEN, MAX_TTL};

/// API environment for providers that offer both a sandbox and a production
/// endpoint.
#[derive(Debug, Clone, Copy, PartialEq, Eq, Hash, Structural)]
pub enum Environment {
    /// Production environment: changes affect real domains.
    Production,
    /// Sandbox environment: safe for development and testing.
    Sandbox,
}

impl Default for Environment {
    /// The default environment is production.
    fn default() -> (r: Self)
        ensures
            r == Environment::Production,
    {
        Environment::Production
    }
}

impl Environment {
    /// Returns `true` exactly on the production environment.
    pub fn is_production(&self) -> (r: bool)
        ensures
            r == (*self == Environment::Production),
    {
        match self {
            Environment::Production => true,
            Environment::Sandbox => false,
        }
    }

    /// Returns `true` exactly on the sandbox environment.
    pub fn is_sandbox(&self) -> (r: bool)
        ensures
            r == (*self == Environment::Sandbox),
    {
        match self {
            Environment::Production => false,
            Environment::Sandbox => true,
        }
    }

    /// The environment's name in words.
    pub fn as_str(&self) -> (r: &'static str)
        ensures
            *self == Environment::Production ==> r@ == "production"@,
            *self == Environment::Sandbox ==> r@ == "sandbox"@,
    {
        match self {
            Environment::Production => "production",
            Environment::Sandbox => "sandbox",
        }
    }
}

// ---------------------------------------------------------------------------
// Ttl
// ---------------------------------------------------------------------------

/// DNS time-to-live in seconds.
///
/// RFC 2181 requires the top bit to be zero, so the value is at most
/// `2_147_483_647`.  Both a clamping and a strict constructor are offered,
/// because callers rely on both behaviours.
#[derive(Debug, Clone, Copy, PartialEq, Eq, Hash, Structural)]
pub struct Ttl {
    secs: u32,
}

impl View for Ttl {
    type V = u32;

    closed spec fn view(&self) -> u32 {
        self.secs
    }
}

impl Ttl {
    /// Every value of this type is within the RFC bound.
    pub open spec fn wf(&self) -> bool {
        self@ <= MAX_TTL
    }

    /// Clamping constructor: saturates any out-of-range input to the maximum.
    pub fn new(seconds: u32) -> (r: Ttl)
        ensures
            r@ == if seconds > MAX_TTL {
                MAX_TTL
            } else {
                seconds
            },
            r@ <= MAX_TTL,
            r.wf(),
    {
        if seconds > MAX_TTL {
            Ttl { secs: MAX_TTL }
        } else {
            Ttl { secs: seconds }
        }
    }

    /// Clamping constructor under its RFC-facing name.
    pub fn clamp(seconds: u32) -> (r: Ttl)
        ensures
            r@ == if seconds > MAX_TTL {
                MAX_TTL
            } else {
                seconds
            },
            r@ <= MAX_TTL,
            r.wf(),
    {
        Ttl::new(seconds)
    }

    /// Strict constructor: succeeds with the value unchanged exactly when it
    /// is within the RFC bound.
    pub fn try_new(seconds: u32) -> (r: Option<Ttl>)
        ensures
            match r {
                Some(t) => seconds <= MAX_TTL && t@ == seconds && t.wf(),
                None => seconds > MAX_TTL,
            },
    {
        if seconds > MAX_TTL {
            None
        } else {
            Some(Ttl { secs: seconds })
        }
    }

    /// Strict constructor under its RFC-facing name.
    pub fn strict(seconds: u32) -> (r: Option<Ttl>)
        ensures
            match r {
                Some(t) => seconds <= MAX_TTL && t@ == seconds && t.wf(),
                None => seconds > MAX_TTL,
            },
    {
        Ttl::try_new(seconds)
    }

    /// The value in seconds.
    pub fn as_secs(&self) -> (r: u32)
        ensures
            r == self@,
    {
        self.secs
    }

    /// Whether the TTL is zero, meaning the record must not be cached.
    pub fn is_zero(&self) -> (r: bool)
        ensures
            r == (self@ == 0),
    {
        self.secs == 0
    }

    /// A TTL of zero seconds.
    pub fn zero() -> (r: Ttl)
        ensures
            r@ == 0,
    {
        Ttl { secs: 0 }
    }

    /// A TTL of one hour.
    pub fn one_hour() -> (r: Ttl)
        ensures
            r@ == 3600,
    {
        Ttl { secs: 3600 }
    }

    /// A TTL of one day.
    pub fn one_day() -> (r: Ttl)
        ensures
            r@ == 86400,
    {
        Ttl { secs: 86400 }
    }

    /// A TTL of one week.
    pub fn one_week() -> (r: Ttl)
        ensures
            r@ == 604800,
    {
        Ttl { secs: 604800 }
    }

    /// The largest TTL the RFC allows.
    pub fn max_value() -> (r: Ttl)
        ensures
            r@ == MAX_TTL,
    {
        Ttl { secs: MAX_TTL }
    }
}

impl Default for Ttl {
    /// The default TTL is zero.
    fn default() -> (r: Self)
        ensures
            r@ == 0,
    {
        Ttl { secs: 0 }
    }
}

// ---------------------------------------------------------------------------
// RecordType
// ---------------------------------------------------------------------------

/// DNS record type (RFC 1035 and successors): a closed set of mnemonics with
/// their 16-bit codes.
#[derive(Debug, Clone, Copy, PartialEq, Eq, Hash, Structural)]
pub enum RecordType {
    /// Host address.
    A,
    /// Authoritative name server.
    NS,
    /// Canonical name for an alias.
    CNAME,
    /// Start of authority.
    SOA,
    /// Domain name pointer.
    PTR,
    /// Host information.
    HINFO,
    /// Mail exchange.
    MX,
    /// Text strings.
    TXT,
    /// IPv6 host address.
    AAAA,
    /// Server selection.
    SRV,
    /// Delegation signer.
    DS,
    /// DNS public key.
    DNSKEY,
    /// Certification authority authorization.
    CAA,
}

/// The 16-bit code of a record type.
pub open spec fn spec_type_code(t: RecordType) -> u16 {
    match t {
        RecordType::A => 1,
        RecordType::NS => 2,
        RecordType::CNAME => 5,
        RecordType::SOA => 6,
        RecordType::PTR => 12,
        RecordType::HINFO => 13,
        RecordType::MX => 15,
        RecordType::TXT => 16,
        RecordType::AAAA => 28,
        RecordType::SRV => 33,
        RecordType::DS => 43,
        RecordType::DNSKEY => 48,
        RecordType::CAA => 257,
    }
}

/// The record type with a given code, if any.
pub open spec fn spec_type_from_code(c: u16) -> Option<RecordType> {
    if c == 1 {
        Some(RecordType::A)
    } else if c == 2 {
        Some(RecordType::NS)
    } else if c == 5 {
        Some(RecordType::CNAME)
    } else if c == 6 {
        Some(RecordType::SOA)
    } else if c == 12 {
        Some(RecordType::PTR)
    } else if c == 13 {
        Some(RecordType::HINFO)
    } else if c == 15 {
        Some(RecordType::MX)
    } else if c == 16 {
        Some(RecordType::TXT)
    } else if c == 28 {
        Some(RecordType::AAAA)
    } else if c == 33 {
        Some(RecordType::SRV)
    } else if c == 43 {
        Some(RecordType::DS)
    } else if c == 48 {
        Some(RecordType::DNSKEY)
    } else if c == 257 {
        Some(RecordType::CAA)
    } else {
        None
    }
}

/// The canonical upper-case mnemonic of a record type, as UTF-8 bytes.
pub open spec fn spec_type_name(t: RecordType) -> Seq<u8> {
    match t {
        RecordType::A => encode_utf8("A"@),
        RecordType::NS => encode_utf8("NS"@),
        RecordType::CNAME => encode_utf8("CNAME"@),
        RecordType::SOA => encode_utf8("SOA"@),
        RecordType::PTR => encode_utf8("PTR"@),
        RecordType::HINFO => encode_utf8("HINFO"@),
        RecordType::MX => encode_utf8("MX"@),
        RecordType::TXT => encode_utf8("TXT"@),
        RecordType::AAAA => encode_utf8("AAAA"@),
        RecordType::SRV => encode_utf8("SRV"@),
        RecordType::DS => encode_utf8("DS"@),
        RecordType::DNSKEY => encode_utf8("DNSKEY"@),
        RecordType::CAA => encode_utf8("CAA"@),
    }
}

/// The record type whose mnemonic equals `b` up to ASCII case, if any.
pub open spec fn spec_type_from_name(b: Seq<u8>) -> Option<RecordType> {
    if lower_bytes(b) == lower_bytes(spec_type_name(RecordType::A)) {
        Some(RecordType::A)
    } else if lower_bytes(b) == lower_bytes(spec_type_name(RecordType::NS)) {
        Some(RecordType::NS)
    } else if lower_bytes(b) == lower_bytes(spec_type_name(RecordType::CNAME)) {
        Some(RecordType::CNAME)
    } else if lower_bytes(b) == lower_bytes(spec_type_name(RecordType::SOA)) {
        Some(RecordType::SOA)
    } else if lower_bytes(b) == lower_bytes(spec_type_name(RecordType::PTR)) {
        Some(RecordType::PTR)
    } else if lower_bytes(b) == lower_bytes(spec_type_name(RecordType::HINFO)) {
        Some(RecordType::HINFO)
    } else if lower_bytes(b) == lower_bytes(spec_type_name(RecordType::MX)) {
        Some(RecordType::MX)
    } else if lower_bytes(b) == lower_bytes(spec_type_name(RecordType::TXT)) {
        Some(RecordType::TXT)
    } else if lower_bytes(b) == lower_bytes(spec_type_name(RecordType::AAAA)) {
        Some(RecordType::AAAA)
    } else if lower_bytes(b) == lower_bytes(spec_type_name(RecordType::SRV)) {
        Some(RecordType::SRV)
    } else if lower_bytes(b) == lower_bytes(spec_type_name(RecordType::DS)) {
        Some(RecordType::DS)
    } else if lower_bytes(b) == lower_bytes(spec_type_name(RecordType::DNSKEY)) {
        Some(RecordType::DNSKEY)
    } else if lower_bytes(b) == lower_bytes(spec_type_name(RecordType::CAA)) {
        Some(RecordType::CAA)
    } else {
        None
    }
}

impl RecordType {
    /// The record type with the given 16-bit code.
    pub fn from_u16(value: u16) -> (r: Option<RecordType>)
        ensures
            r == spec_type_from_code(value),
    {
        match value {
            1 => Some(RecordType::A),
            2 => Some(RecordType::NS),
            5 => Some(RecordType::CNAME),
            6 => Some(RecordType::SOA),
            12 => Some(RecordType::PTR),
            13 => Some(RecordType::HINFO),
            15 => Some(RecordType::MX),
            16 => Some(RecordType::TXT),
            28 => Some(RecordType::AAAA),
            33 => Some(RecordType::SRV),
            43 => Some(RecordType::DS),
            48 => Some(RecordType::DNSKEY),
            257 => Some(RecordType::CAA),
            _ => None,
        }
    }

    /// The 16-bit code of this record type.
    pub fn as_u16(&self) -> (r: u16)
        ensures
            r == spec_type_code(*self),
    {
        match self {
            RecordType::A => 1,
            RecordType::NS => 2,
            RecordType::CNAME => 5,
            RecordType::SOA => 6,
            RecordType::PTR => 12,
            RecordType::HINFO => 13,
            RecordType::MX => 15,
            RecordType::TXT => 16,
            RecordType::AAAA => 28,
            RecordType::SRV => 33,
            RecordType::DS => 43,
            RecordType::DNSKEY => 48,
            RecordType::CAA => 257,
        }
    }

    /// The record type named by `s`, compared without regard to ASCII case.
    pub fn from_str(s: &str) -> (r: Option<RecordType>)
        ensures
            r == spec_type_from_name(s.spec_bytes()),
    {
        let b = s.as_bytes();
        if crate::text::eq_ignore_ascii_case(b, "A".as_bytes()) {
            Some(RecordType::A)
        } else if crate::text::eq_ignore_ascii_case(b, "NS".as_bytes()) {
            Some(RecordType::NS)
        } else if crate::text::eq_ignore_ascii_case(b, "CNAME".as_bytes()) {
            Some(RecordType::CNAME)
        } else if crate::text::eq_ignore_ascii_case(b, "SOA".as_bytes()) {
            Some(RecordType::SOA)
        } else if crate::text::eq_ignore_ascii_case(b, "PTR".as_bytes()) {
            Some(RecordType::PTR)
        } else if crate::text::eq_ignore_ascii_case(b, "HINFO".as_bytes()) {
            Some(RecordType::HINFO)
        } else if crate::text::eq_ignore_ascii_case(b, "MX".as_bytes()) {
            Some(RecordType::MX)
        } else if crate::text::eq_ignore_ascii_case(b, "TXT".as_bytes()) {
            Some(RecordType::TXT)
        } else if crate::text::eq_ignore_ascii_case(b, "AAAA".as_bytes()) {
            Some(RecordType::AAAA)
        } else if crate::text::eq_ignore_ascii_case(b, "SRV".as_bytes()) {
            Some(RecordType::SRV)
        } else if crate::text::eq_ignore_ascii_case(b, "DS".as_bytes()) {
            Some(RecordType::DS)
        } else if crate::text::eq_ignore_ascii_case(b, "DNSKEY".as_bytes()) {
            Some(RecordType::DNSKEY)
        } else if crate::text::eq_ignore_ascii_case(b, "CAA".as_bytes()) {
            Some(RecordType::CAA)
        } else {
            None
        }
    }

    /// The canonical upper-case mnemonic.
    pub fn as_str(&self) -> (r: &'static str)
        ensures
            encode_utf8(r@) == spec_type_name(*self),
    {
        match self {
            RecordType::A => "A",
            RecordType::NS => "NS",
            RecordType::CNAME => "CNAME",
            RecordType::SOA => "SOA",
            RecordType::PTR => "PTR",
            RecordType::HINFO => "HINFO",
            RecordType::MX => "MX",
            RecordType::TXT => "TXT",
            RecordType::AAAA => "AAAA",
            RecordType::SRV => "SRV",
            RecordType::DS => "DS",
            RecordType::DNSKEY => "DNSKEY",
            RecordType::CAA => "CAA",
        }
    }
}

/// ASCII characters encode one byte per character, to their own codes.
proof fn lemma_ascii_encode_pointwise(cs: Seq<char>)
    requires
        vstd::utf8::is_ascii_chars(cs),
    ensures
        encode_utf8(cs).len() == cs.len(),
        forall|i: int| 0 <= i < cs.len() ==> encode_utf8(cs)[i] == #[trigger] cs[i] as u8,
{
    vstd::utf8::is_ascii_chars_encode_utf8(cs);
}

/// Every record type comes back from its own code and from its own mnemonic.
///
/// This is the mutual-consistency law of the three representations: numeric
/// code, canonical mnemonic, and case-insensitive name lookup.
pub proof fn lemma_record_type_round_trip(t: RecordType)
    ensures
        spec_type_from_code(spec_type_code(t)) == Some(t),
        spec_type_from_name(spec_type_name(t)) == Some(t),
{
    lemma_type_name_mutual_distinct(t);
}

proof fn lemma_type_name_mutual_distinct(t: RecordType)
    ensures
        spec_type_from_name(spec_type_name(t)) == Some(t),
{
    lemma_lower_names_all();
    match t {
        RecordType::A => {
            assert(spec_type_from_name(spec_type_name(RecordType::A)) == Some(RecordType::A));
        },
        RecordType::NS => {
            assert(spec_type_from_name(spec_type_name(RecordType::NS)) == Some(RecordType::NS));
        },
        RecordType::CNAME => {
            assert(spec_type_from_name(spec_type_name(RecordType::CNAME)) == Some(RecordType::CNAME));
        },
        RecordType::SOA => {
            assert(spec_type_from_name(spec_type_name(RecordType::SOA)) == Some(RecordType::SOA));
        },
        RecordType::PTR => {
            assert(spec_type_from_name(spec_type_name(RecordType::PTR)) == Some(RecordType::PTR));
        },
        RecordType::HINFO => {
            assert(spec_type_from_name(spec_type_name(RecordType::HINFO)) == Some(RecordType::HINFO));
        },
        RecordType::MX => {
            assert(spec_type_from_name(spec_type_name(RecordType::MX)) == Some(RecordType::MX));
        },
        RecordType::TXT => {
            assert(spec_type_from_name(spec_type_name(RecordType::TXT)) == Some(RecordType::TXT));
        },
        RecordType::AAAA => {
            assert(lower_bytes(spec_type_name(RecordType::AAAA)).len() == 4);
            assert(lower_bytes(spec_type_name(RecordType::A)).len() == 1);
            assert(lower_bytes(spec_type_name(RecordType::NS)).len() == 2);
            assert(lower_bytes(spec_type_name(RecordType::CNAME)).len() == 5);
            assert(lower_bytes(spec_type_name(RecordType::SOA)).len() == 3);
            assert(lower_bytes(spec_type_name(RecordType::PTR)).len() == 3);
            assert(lower_bytes(spec_type_name(RecordType::HINFO)).len() == 5);
            assert(lower_bytes(spec_type_name(RecordType::MX)).len() == 2);
            assert(lower_bytes(spec_type_name(RecordType::TXT)).len() == 3);
            assert(spec_type_from_name(spec_type_name(RecordType::AAAA)) == Some(RecordType::AAAA));
        },
        RecordType::SRV => {
            assert(spec_type_from_name(spec_type_name(RecordType::SRV)) == Some(RecordType::SRV));
        },
        RecordType::DS => {
            assert(spec_type_from_name(spec_type_name(RecordType::DS)) == Some(RecordType::DS));
        },
        RecordType::DNSKEY => {
            assert(spec_type_from_name(spec_type_name(RecordType::DNSKEY)) == Some(RecordType::DNSKEY));
        },
        RecordType::CAA => {
            assert(spec_type_from_name(spec_type_name(RecordType::CAA)) == Some(RecordType::CAA));
        },
    }
}

/// The lower-case image of every mnemonic, spelled out once.
proof fn lemma_lower_names_all()
    ensures
        lower_bytes(spec_type_name(RecordType::A)) =~= seq![97u8],
        lower_bytes(spec_type_name(RecordType::NS)) =~= seq![110u8, 115u8],
        lower_bytes(spec_type_name(RecordType::CNAME)) =~= seq![99u8, 110u8, 97u8, 109u8, 101u8],
        lower_bytes(spec_type_name(RecordType::SOA)) =~= seq![115u8, 111u8, 97u8],
        lower_bytes(spec_type_name(RecordType::PTR)) =~= seq![112u8, 116u8, 114u8],
        lower_bytes(spec_type_name(RecordType::HINFO)) =~= seq![104u8, 105u8, 110u8, 102u8, 111u8],
        lower_bytes(spec_type_name(RecordType::MX)) =~= seq![109u8, 120u8],
        lower_bytes(spec_type_name(RecordType::TXT)) =~= seq![116u8, 120u8, 116u8],
        lower_bytes(spec_type_name(RecordType::AAAA)) =~= seq![97u8, 97u8, 97u8, 97u8],
        lower_bytes(spec_type_name(RecordType::SRV)) =~= seq![115u8, 114u8, 118u8],
        lower_bytes(spec_type_name(RecordType::DS)) =~= seq![100u8, 115u8],
        lower_bytes(spec_type_name(RecordType::DNSKEY)) =~= seq![
            100u8,
            110u8,
            115u8,
            107u8,
            101u8,
            121u8,
        ],
        lower_bytes(spec_type_name(RecordType::CAA)) =~= seq![99u8, 97u8, 97u8],
{
    reveal_strlit("A");
    reveal_strlit("NS");
    reveal_strlit("CNAME");
    reveal_strlit("SOA");
    reveal_strlit("PTR");
    reveal_strlit("HINFO");
    reveal_strlit("MX");
    reveal_strlit("TXT");
    reveal_strlit("AAAA");
    reveal_strlit("SRV");
    reveal_strlit("DS");
    reveal_strlit("DNSKEY");
    reveal_strlit("CAA");
    assert("A"@.len() == 1);
    assert("A"@[0] == 'A');
    assert("NS"@.len() == 2);
    assert("NS"@[0] == 'N');
    assert("NS"@[1] == 'S');
    assert("CNAME"@.len() == 5);
    assert("CNAME"@[0] == 'C');
    assert("CNAME"@[1] == 'N');
    assert("CNAME"@[2] == 'A');
    assert("CNAME"@[3] == 'M');
    assert("CNAME"@[4] == 'E');
    assert("SOA"@.len() == 3);
    assert("SOA"@[0] == 'S');
    assert("SOA"@[1] == 'O');
    assert("SOA"@[2] == 'A');
    assert("PTR"@.len() == 3);
    assert("PTR"@[0] == 'P');
    assert("PTR"@[1] == 'T');
    assert("PTR"@[2] == 'R');
    assert("HINFO"@.len() == 5);
    assert("HINFO"@[0] == 'H');
    assert("HINFO"@[1] == 'I');
    assert("HINFO"@[2] == 'N');
    assert("HINFO"@[3] == 'F');
    assert("HINFO"@[4] == 'O');
    assert("MX"@.len() == 2);
    assert("MX"@[0] == 'M');
    assert("MX"@[1] == 'X');
    assert("TXT"@.len() == 3);
    assert("TXT"@[0] == 'T');
    assert("TXT"@[1] == 'X');
    assert("TXT"@[2] == 'T');
    assert("AAAA"@.len() == 4);
    assert("AAAA"@[0] == 'A');
    assert("AAAA"@[1] == 'A');
    assert("AAAA"@[2] == 'A');
    assert("AAAA"@[3] == 'A');
    assert("SRV"@.len() == 3);
    assert("SRV"@[0] == 'S');
    assert("SRV"@[1] == 'R');
    assert("SRV"@[2] == 'V');
    assert("DS"@.len() == 2);
    assert("DS"@[0] == 'D');
    assert("DS"@[1] == 'S');
    assert("DNSKEY"@.len() == 6);
    assert("DNSKEY"@[0] == 'D');
    assert("DNSKEY"@[1] == 'N');
    assert("DNSKEY"@[2] == 'S');
    assert("DNSKEY"@[3] == 'K');
    assert("DNSKEY"@[4] == 'E');
    assert("DNSKEY"@[5] == 'Y');
    assert("CAA"@.len() == 3);
    assert("CAA"@[0] == 'C');
    assert("CAA"@[1] == 'A');
    assert("CAA"@[2] == 'A');
    assert('A' as u8 == 65);
    assert('C' as u8 == 67);
    assert('D' as u8 == 68);
    assert('E' as u8 == 69);
    assert('F' as u8 == 70);
    assert('H' as u8 == 72);
    assert('I' as u8 == 73);
    assert('K' as u8 == 75);
    assert('M' as u8 == 77);
    assert('N' as u8 == 78);
    assert('O' as u8 == 79);
    assert('P' as u8 == 80);
    assert('R' as u8 == 82);
    assert('S' as u8 == 83);
    assert('T' as u8 == 84);
    assert('V' as u8 == 86);
    assert('X' as u8 == 88);
    assert('Y' as u8 == 89);
    lemma_ascii_encode_pointwise("A"@);
    lemma_ascii_encode_pointwise("NS"@);
    lemma_ascii_encode_pointwise("CNAME"@);
    lemma_ascii_encode_pointwise("SOA"@);
    lemma_ascii_encode_pointwise("PTR"@);
    lemma_ascii_encode_pointwise("HINFO"@);
    lemma_ascii_encode_pointwise("MX"@);
    lemma_ascii_encode_pointwise("TXT"@);
    lemma_ascii_encode_pointwise("AAAA"@);
    lemma_ascii_encode_pointwise("SRV"@);
    lemma_ascii_encode_pointwise("DS"@);
    lemma_ascii_encode_pointwise("DNSKEY"@);
    lemma_ascii_encode_pointwise("CAA"@);
}

// ---------------------------------------------------------------------------
// RecordClass
// ---------------------------------------------------------------------------

/// DNS record class (RFC 1035): a closed set of four codes.
#[derive(Debug, Clone, Copy, PartialEq, Eq, Hash, Structural)]
pub enum RecordClass {
    /// The Internet.
    IN,
    /// CSNET (obsolete).
    CS,
    /// CHAOS.
    CH,
    /// Hesiod.
    HS,
}

/// The 16-bit code of a record class.
pub open spec fn spec_class_code(c: RecordClass) -> u16 {
    match c {
        RecordClass::IN => 1,
        RecordClass::CS => 2,
        RecordClass::CH => 3,
        RecordClass::HS => 4,
    }
}

/// The record class with a given code, if any.
pub open spec fn spec_class_from_code(v: u16) -> Option<RecordClass> {
    if v == 1 {
        Some(RecordClass::IN)
    } else if v == 2 {
        Some(RecordClass::CS)
    } else if v == 3 {
        Some(RecordClass::CH)
    } else if v == 4 {
        Some(RecordClass::HS)
    } else {
        None
    }
}

impl RecordClass {
    /// The record class with the given 16-bit code.
    pub fn from_u16(value: u16) -> (r: Option<RecordClass>)
        ensures
            r == spec_class_from_code(value),
    {
        match value {
            1 => Some(RecordClass::IN),
            2 => Some(RecordClass::CS),
            3 => Some(RecordClass::CH),
            4 => Some(RecordClass::HS),
            _ => None,
        }
    }

    /// The 16-bit code of this record class.
    pub fn as_u16(&self) -> (r: u16)
        ensures
            r == spec_class_code(*self),
    {
        match self {
            RecordClass::IN => 1,
            RecordClass::CS => 2,
            RecordClass::CH => 3,
            RecordClass::HS => 4,
        }
    }
}

impl Default for RecordClass {
    /// The default class is the Internet.
    fn default() -> (r: Self)
        ensures
            r == RecordClass::IN,
    {
        RecordClass::IN
    }
}

/// Every record class comes back from its own code.
pub proof fn lemma_record_class_round_trip(c: RecordClass)
    ensures
        spec_class_from_code(spec_class_code(c)) == Some(c),
{
}

// ---------------------------------------------------------------------------
// Label
// ---------------------------------------------------------------------------

/// A DNS label: one dot-separated component of a domain name, 1 to 63 bytes
/// (RFC 1035).  A label may hold arbitrary bytes; a UTF-8 view is offered as
/// a convenience.
#[derive(Debug, Clone, PartialEq, Eq, Hash)]
pub struct Label {
    bytes: Vec<u8>,
}

impl View for Label {
    type V = Seq<u8>;

    closed spec fn view(&self) -> Seq<u8> {
        self.bytes@
    }
}

impl Label {
    /// Every constructed label respects the RFC length bounds.
    pub open spec fn wf(&self) -> bool {
        1 <= self@.len() <= MAX_LABEL_LEN
    }

    /// Builds a label from raw bytes; fails exactly when the input is empty
    /// or longer than 63 bytes.
    pub fn new(bytes: &[u8]) -> (r: Option<Label>)
        ensures
            match r {
                Some(l) => 1 <= bytes@.len() <= MAX_LABEL_LEN && l@ == bytes@ && l.wf(),
                None => bytes@.len() == 0 || bytes@.len() > MAX_LABEL_LEN,
            },
    {
        if bytes.len() == 0 || bytes.len() > MAX_LABEL_LEN {
            None
        } else {
            Some(Label { bytes: vstd::slice::slice_to_vec(bytes) })
        }
    }

    /// Builds a label from the UTF-8 bytes of a string.
    pub fn from_str(s: &str) -> (r: Option<Label>)
        ensures
            match r {
                Some(l) => 1 <= s.spec_bytes().len() <= MAX_LABEL_LEN && l@ == s.spec_bytes()
                    && l.wf(),
                None => s.spec_bytes().len() == 0 || s.spec_bytes().len() > MAX_LABEL_LEN,
            },
    {
        Label::new(s.as_bytes())
    }

    /// The raw bytes of the label.
    pub fn as_bytes(&self) -> (r: &[u8])
        ensures
            r@ == self@,
    {
        self.bytes.as_slice()
    }

    /// The length of the label in bytes.
    pub fn len(&self) -> (r: usize)
        ensures
            r == self@.len(),
    {
        self.bytes.len()
    }

    /// Whether the label is empty; false for every well-formed label.
    pub fn is_empty(&self) -> (r: bool)
        ensures
            r == (self@.len() == 0),
    {
        self.bytes.len() == 0
    }

    /// The label as a string slice, when its bytes are valid UTF-8.
    pub fn as_str(&self) -> (r: Option<&str>)
        ensures
            match r {
                Some(s) => vstd::utf8::valid_utf8(self@) && encode_utf8(s@) == self@,
                None => !vstd::utf8::valid_utf8(self@),
            },
    {
        crate::text::utf8_to_str(self.bytes.as_slice())
    }
}

// ---------------------------------------------------------------------------
// DomainName: wire-format codec
// ---------------------------------------------------------------------------

/// Every label is 1 to 63 bytes.
pub open spec fn labels_ok(labels: Seq<Seq<u8>>) -> bool {
    forall|i: int| 0 <= i < labels.len() ==> 1 <= #[trigger] labels[i].len() <= MAX_LABEL_LEN
}

/// The label section of the wire form: each label preceded by its length
/// byte.
pub open spec fn spec_wire_body(labels: Seq<Seq<u8>>) -> Seq<u8>
    decreases labels.len(),
{
    if labels.len() == 0 {
        Seq::empty()
    } else {
        seq![labels[0].len() as u8] + labels[0] + spec_wire_body(labels.drop_first())
    }
}

/// The full wire form: length-prefixed labels, closed by a zero byte.
pub open spec fn spec_wire(labels: Seq<Seq<u8>>) -> Seq<u8> {
    spec_wire_body(labels) + seq![0u8]
}

/// Decodes a wire form into its labels; `None` on any malformation.
pub open spec fn spec_parse_wire(w: Seq<u8>) -> Option<Seq<Seq<u8>>>
    decreases w.len(),
{
    if w.len() == 0 {
        None
    } else if w[0] == 0 {
        if w.len() == 1 {
            Some(Seq::empty())
        } else {
            None
        }
    } else if w[0] <= MAX_LABEL_LEN && 1 + w[0] <= w.len() {
        match spec_parse_wire(w.subrange(1 + w[0], w.len() as int)) {
            Some(rest) => Some(seq![w.subrange(1, 1 + w[0])] + rest),
            None => None,
        }
    } else {
        None
    }
}

/// Strips at most one trailing dot.
pub open spec fn strip_one_dot(b: Seq<u8>) -> Seq<u8> {
    if b.len() > 0 && b.last() == 46 {
        b.drop_last()
    } else {
        b
    }
}

/// What encoding a dotted byte string yields: the wire form, or `None` when
/// a component breaks the label bounds or the total exceeds 255 bytes.  The
/// empty string maps to the root domain.
pub open spec fn dotted_to_wire(b: Seq<u8>) -> Option<Seq<u8>> {
    if b.len() == 0 {
        Some(seq![0u8])
    } else {
        let parts = crate::text::spec_split(strip_one_dot(b), 46);
        if labels_ok(parts) && spec_wire(parts).len() <= MAX_DOMAIN_LEN {
            Some(spec_wire(parts))
        } else {
            None
        }
    }
}

/// Appending one label extends the wire body at its end.
proof fn lemma_wire_body_push(s: Seq<Seq<u8>>, x: Seq<u8>)
    ensures
        spec_wire_body(s.push(x)) == spec_wire_body(s) + seq![x.len() as u8] + x,
    decreases s.len(),
{
    if s.len() == 0 {
        assert(s.push(x)[0] == x);
        assert(s.push(x).drop_first() =~~= Seq::<Seq<u8>>::empty());
        assert(spec_wire_body(Seq::<Seq<u8>>::empty()) == Seq::<u8>::empty());
        assert(spec_wire_body(s.push(x)) == seq![x.len() as u8] + x + Seq::<u8>::empty());
        assert(spec_wire_body(s) == Seq::<u8>::empty());
        assert(spec_wire_body(s.push(x)) =~= spec_wire_body(s) + seq![x.len() as u8] + x);
    } else {
        lemma_wire_body_push(s.drop_first(), x);
        assert(s.push(x)[0] == s[0]);
        assert(s.push(x).drop_first() =~~= s.drop_first().push(x));
        assert(spec_wire_body(s.push(x)) == seq![s[0].len() as u8] + s[0] + spec_wire_body(
            s.drop_first().push(x),
        ));
        assert(spec_wire_body(s.drop_first().push(x)) == spec_wire_body(s.drop_first()) + seq![
            x.len() as u8,
        ] + x);
        assert(spec_wire_body(s) == seq![s[0].len() as u8] + s[0] + spec_wire_body(
            s.drop_first(),
        ));
        assert(spec_wire_body(s.push(x)) =~= spec_wire_body(s) + seq![x.len() as u8] + x);
    }
}

/// A prefix of the labels never yields a longer wire body than all of them.
proof fn lemma_wire_body_take_le(labels: Seq<Seq<u8>>, i: int)
    requires
        0 <= i <= labels.len(),
    ensures
        spec_wire_body(labels.take(i)).len() <= spec_wire_body(labels).len(),
    decreases labels.len() - i,
{
    if i < labels.len() {
        lemma_wire_body_take_le(labels, i + 1);
        assert(labels.take(i + 1) =~~= labels.take(i).push(labels[i]));
        lemma_wire_body_push(labels.take(i), labels[i]);
    } else {
        assert(labels.take(i) =~~= labels);
    }
}

/// Decoding inverts encoding on any sequence of valid labels.
pub proof fn lemma_wire_parse_roundtrip(labels: Seq<Seq<u8>>)
    requires
        labels_ok(labels),
    ensures
        spec_parse_wire(spec_wire(labels)) == Some(labels),
    decreases labels.len(),
{
    let w = spec_wire(labels);
    if labels.len() == 0 {
        assert(w =~= seq![0u8]);
    } else {
        assert(labels_ok(labels.drop_first()));
        lemma_wire_parse_roundtrip(labels.drop_first());
        let n0 = labels[0].len() as u8;
        let tail = spec_wire(labels.drop_first());
        assert(w =~= seq![n0] + labels[0] + tail);
        assert(w[0] == n0);
        assert(1 <= labels[0].len() <= MAX_LABEL_LEN);
        assert(tail.len() >= 1);
        assert(1 + w[0] <= w.len());
        assert(w.subrange(1, 1 + w[0]) =~= labels[0]);
        assert(w.subrange(1 + w[0], w.len() as int) =~= tail);
        assert(spec_parse_wire(w) == Some(
            seq![labels[0]] + spec_parse_wire(tail).unwrap(),
        ));
        assert(seq![labels[0]] + labels.drop_first() =~~= labels);
    }
}

/// What holds of every wire form that decodes: it ends in the terminator,
/// its labels are valid, and re-encoding restores it byte for byte.
pub proof fn lemma_parse_props(w: Seq<u8>)
    requires
        spec_parse_wire(w) is Some,
    ensures
        w.len() >= 1,
        w.last() == 0,
        labels_ok(spec_parse_wire(w).unwrap()),
        spec_wire(spec_parse_wire(w).unwrap()) == w,
    decreases w.len(),
{
    let labels = spec_parse_wire(w).unwrap();
    if w[0] == 0 {
        assert(w.len() == 1);
        assert(labels =~~= Seq::<Seq<u8>>::empty());
        assert(spec_wire(labels) =~= w);
    } else {
        let n0 = w[0];
        let tail = w.subrange(1 + n0, w.len() as int);
        lemma_parse_props(tail);
        let rest = spec_parse_wire(tail).unwrap();
        let l0 = w.subrange(1, 1 + n0);
        assert(labels == seq![l0] + rest);
        assert(labels[0] == l0);
        assert(labels.drop_first() =~~= rest);
        assert forall|i: int| 0 <= i < labels.len() implies 1 <= #[trigger] labels[i].len()
            <= MAX_LABEL_LEN by {
            if i > 0 {
                assert(labels[i] == rest[i - 1]);
            }
        }
        assert(w.last() == tail.last());
        assert(spec_wire_body(labels) == seq![labels[0].len() as u8] + labels[0]
            + spec_wire_body(rest));
        assert(labels[0].len() as u8 == n0);
        assert(spec_wire(rest) == tail);
        assert(w =~= seq![n0] + l0 + tail);
        assert(spec_wire(labels) =~= w);
    }
}

/// Removing a final ASCII byte keeps a byte string valid UTF-8.
proof fn lemma_valid_utf8_drop_last_ascii(b: Seq<u8>)
    requires
        vstd::utf8::valid_utf8(b),
        b.len() > 0,
        b.last() < 128,
    ensures
        vstd::utf8::valid_utf8(b.drop_last()),
{
    vstd::utf8::utf8_byte_ranges_bitwise(b.last());
    vstd::utf8::is_char_boundary_iff_is_leading_byte(b, b.len() - 1);
    vstd::utf8::valid_utf8_split(b, b.len() - 1);
    assert(b.subrange(0, b.len() - 1) =~= b.drop_last());
}

/// A DNS domain name held in its RFC 1035 wire form: length-prefixed labels
/// closed by a zero byte, at most 255 bytes in all.
#[derive(Debug, Clone, PartialEq, Eq, Hash)]
pub struct DomainName {
    wire: Vec<u8>,
}

impl View for DomainName {
    type V = Seq<u8>;

    closed spec fn view(&self) -> Seq<u8> {
        self.wire@
    }
}

impl DomainName {
    /// The labels encoded in the wire form.
    pub open spec fn labels_view(&self) -> Seq<Seq<u8>> {
        spec_parse_wire(self@).unwrap()
    }

    /// The invariant every constructed domain name satisfies: the wire form
    /// decodes, fits the RFC budget, and its dotted spelling is valid UTF-8.
    pub open spec fn wf(&self) -> bool {
        &&& spec_parse_wire(self@) is Some
        &&& self@.len() <= MAX_DOMAIN_LEN
        &&& vstd::utf8::valid_utf8(crate::text::spec_join(self.labels_view(), 46))
    }

    /// The root domain: a single zero byte.
    pub fn root() -> (r: DomainName)
        ensures
            r@ == seq![0u8],
            r.wf(),
            r.labels_view() == Seq::<Seq<u8>>::empty(),
    {
        let mut wire: Vec<u8> = Vec::new();
        wire.push(0);
        proof {
            assert(wire@ =~= seq![0u8]);
            assert(spec_parse_wire(wire@) == Some(Seq::<Seq<u8>>::empty()));
            assert(crate::text::spec_join(Seq::<Seq<u8>>::empty(), 46) =~= Seq::<u8>::empty());
            assert(vstd::utf8::valid_utf8(Seq::<u8>::empty()));
        }
        DomainName { wire }
    }

    /// Parses a dotted name, stripping at most one trailing dot; the empty
    /// string yields the root domain.  Fails exactly when a component breaks
    /// the label bounds or the whole name exceeds the 255-byte wire budget.
    pub fn from_dotted(s: &str) -> (r: Option<DomainName>)
        ensures
            match r {
                Some(d) => dotted_to_wire(s.spec_bytes()) == Some(d@) && d.wf(),
                None => dotted_to_wire(s.spec_bytes()) is None,
            },
    {
        let b = s.as_bytes();
        proof {
            vstd::utf8::encode_utf8_valid_utf8(s@);
        }
        if b.len() == 0 {
            return Some(DomainName::root());
        }
        let core: &[u8] = if b[b.len() - 1] == 46 {
            proof {
                lemma_valid_utf8_drop_last_ascii(b@);
            }
            vstd::slice::slice_subrange(b, 0, b.len() - 1)
        } else {
            b
        };
        proof {
            assert(b@.subrange(0, b@.len() - 1) =~= b@.drop_last());
            assert(core@ == strip_one_dot(s.spec_bytes()));
        }
        let parts = crate::text::split_bytes(core, 46);
        let ghost gparts = crate::text::spec_split(core@, 46);
        let mut wire: Vec<u8> = Vec::new();
        let mut i: usize = 0;
        proof {
            assert(wire@ =~= spec_wire_body(gparts.take(0)));
        }
        while i < parts.len()
            invariant
                s.spec_bytes().len() > 0,
                core@ == strip_one_dot(s.spec_bytes()),
                gparts == crate::text::spec_split(core@, 46),
                vstd::utf8::valid_utf8(core@),
                parts@.len() == gparts.len(),
                forall|p: int| 0 <= p < parts@.len() ==> #[trigger] parts@[p]@ == gparts[p],
                0 <= i <= parts@.len(),
                forall|k: int| 0 <= k < i ==> 1 <= #[trigger] gparts[k].len() <= MAX_LABEL_LEN,
                wire@ == spec_wire_body(gparts.take(i as int)),
                wire@.len() + 1 <= MAX_DOMAIN_LEN,
            decreases parts@.len() - i,
        {
            let part_len = parts[i].len();
            if part_len == 0 || part_len > MAX_LABEL_LEN {
                proof {
                    assert(!labels_ok(gparts));
                }
                return None;
            }
            if wire.len() + 1 + part_len >= MAX_DOMAIN_LEN {
                proof {
                    assert(gparts.take(i + 1) =~~= gparts.take(i as int).push(gparts[i as int]));
                    lemma_wire_body_push(gparts.take(i as int), gparts[i as int]);
                    lemma_wire_body_take_le(gparts, i + 1);
                    assert(spec_wire(gparts).len() > MAX_DOMAIN_LEN);
                }
                return None;
            }
            wire.push(part_len as u8);
            let part = &parts[i];
            wire.extend_from_slice(part.as_slice());
            proof {
                assert(gparts.take(i + 1) =~~= gparts.take(i as int).push(gparts[i as int]));
                lemma_wire_body_push(gparts.take(i as int), gparts[i as int]);
                assert(wire@ =~= spec_wire_body(gparts.take(i + 1)));
            }
            i = i + 1;
        }
        proof {
            assert(gparts.take(i as int) =~~= gparts);
        }
        wire.push(0);
        proof {
            assert(wire@ =~= spec_wire(gparts));
            assert(labels_ok(gparts));
            lemma_wire_parse_roundtrip(gparts);
            crate::text::lemma_join_split(core@, 46);
        }
        Some(DomainName { wire })
    }

    /// The labels of this domain name, root-most last.
    pub fn labels(&self) -> (r: Vec<Vec<u8>>)
        requires
            self.wf(),
        ensures
            r@.len() == self.labels_view().len(),
            forall|i: int| 0 <= i < r@.len() ==> #[trigger] r@[i]@ == self.labels_view()[i],
    {
        let w = self.wire.as_slice();
        let ghost all = self.labels_view();
        proof {
            assert(w@.subrange(0, w@.len() as int) =~= w@);
            assert(all.skip(0) =~~= all);
        }
        let mut out: Vec<Vec<u8>> = Vec::new();
        let mut pos: usize = 0;
        while w[pos] != 0
            invariant
                w@ == self@,
                self.wf(),
                all == self.labels_view(),
                0 <= pos < w@.len(),
                out@.len() <= all.len(),
                forall|i: int| 0 <= i < out@.len() ==> #[trigger] out@[i]@ == all[i],
                spec_parse_wire(w@.subrange(pos as int, w@.len() as int)) == Some(
                    all.skip(out@.len() as int),
                ),
            decreases w@.len() - pos,
        {
            let ghost tail = w@.subrange(pos as int, w@.len() as int);
            let ghost k = out@.len() as int;
            let n = w[pos];
            proof {
                assert(tail[0] == w@[pos as int]);
                assert(tail.subrange(1, 1 + n) =~= w@.subrange(pos + 1, pos + 1 + n));
                assert(tail.subrange(1 + n, tail.len() as int) =~= w@.subrange(
                    pos + 1 + n,
                    w@.len() as int,
                ));
                let rest = spec_parse_wire(tail.subrange(1 + n, tail.len() as int)).unwrap();
                assert(all.skip(k) == seq![tail.subrange(1, 1 + n)] + rest);
                assert(all.skip(k)[0] == tail.subrange(1, 1 + n));
                assert(all[k] == all.skip(k)[0]);
                assert(all.skip(k).drop_first() =~~= all.skip(k + 1));
                assert(rest =~~= all.skip(k + 1));
                lemma_parse_props(tail.subrange(1 + n, tail.len() as int));
            }
            let label = vstd::slice::slice_to_vec(
                vstd::slice::slice_subrange(w, pos + 1, pos + 1 + n as usize),
            );
            out.push(label);
            pos = pos + 1 + n as usize;
        }
        proof {
            let tail = w@.subrange(pos as int, w@.len() as int);
            assert(tail[0] == 0);
            assert(all.skip(out@.len() as int) =~~= Seq::<Seq<u8>>::empty());
            assert(out@.len() == all.len());
        }
        out
    }

    /// The name in dotted notation: the labels joined with dots.
    pub fn to_dotted(&self) -> (r: String)
        requires
            self.wf(),
        ensures
            encode_utf8(r@) == crate::text::spec_join(self.labels_view(), 46),
    {
        let parts = self.labels();
        let joined = crate::text::join_bytes(&parts, 46);
        proof {
            assert(parts@.map_values(|p: Vec<u8>| p@) =~~= self.labels_view());
        }
        match crate::text::utf8_to_owned(joined.as_slice()) {
            Some(s) => s,
            None => vstd::pervasive::unreached(),
        }
    }

    /// The wire-format length in bytes.
    pub fn wire_len(&self) -> (r: usize)
        ensures
            r == self@.len(),
    {
        self.wire.len()
    }

    /// The wire-format bytes.
    pub fn as_wire_bytes(&self) -> (r: &[u8])
        ensures
            r@ == self@,
    {
        self.wire.as_slice()
    }

    /// Whether this is the root domain, whose wire form is the terminator
    /// alone.
    pub fn is_root(&self) -> (r: bool)
        requires
            self.wf(),
        ensures
            r == (self@.len() == 1),
            r == (self.labels_view().len() == 0),
    {
        proof {
            lemma_parse_props(self@);
            if self.labels_view().len() == 0 {
                assert(spec_wire(self.labels_view()) =~= seq![0u8]);
            } else {
                assert(spec_wire_body(self.labels_view()).len() >= 1);
            }
        }
        self.wire.len() == 1
    }
}

impl Default for DomainName {
    /// The default domain name is the root.
    fn default() -> (r: Self)
        ensures
            r@ == seq![0u8],
            r.wf(),
    {
        DomainName::root()
    }
}

/// The wire form of every well-formed domain name ends in the zero
/// terminator and is 1 to 255 bytes long; re-encoding its labels restores
/// it exactly.
pub proof fn lemma_wire_format_valid(d: &DomainName)
    requires
        d.wf(),
    ensures
        1 <= d@.len() <= MAX_DOMAIN_LEN,
        d@.last() == 0,
        labels_ok(d.labels_view()),
        spec_wire(d.labels_view()) == d@,
{
    lemma_parse_props(d@);
}

/// The last byte of a join whose final piece is nonempty.
proof fn lemma_join_last(parts: Seq<Seq<u8>>, sep: u8)
    requires
        parts.len() >= 1,
        parts.last().len() > 0,
    ensures
        crate::text::spec_join(parts, sep).len() > 0,
        crate::text::spec_join(parts, sep).last() == parts.last().last(),
    decreases parts.len(),
{
    if parts.len() == 1 {
    } else {
        lemma_join_last(parts.drop_first(), sep);
        assert(parts.drop_first().last() == parts.last());
        let j = crate::text::spec_join(parts.drop_first(), sep);
        assert(crate::text::spec_join(parts, sep) == parts[0] + seq![sep] + j);
        assert((parts[0] + seq![sep] + j).last() == j.last());
    }
}

/// Round trip: a dotted name made of valid labels within the wire budget
/// encodes, and decoding its wire form spells the same bytes again.
pub proof fn lemma_dotted_round_trip(b: Seq<u8>)
    requires
        b.len() > 0 ==> labels_ok(crate::text::spec_split(b, 46)) && spec_wire(
            crate::text::spec_split(b, 46),
        ).len() <= MAX_DOMAIN_LEN,
    ensures
        dotted_to_wire(b) is Some,
        crate::text::spec_join(spec_parse_wire(dotted_to_wire(b).unwrap()).unwrap(), 46) == b,
{
    if b.len() == 0 {
        assert(dotted_to_wire(b) == Some(seq![0u8]));
        assert(spec_parse_wire(seq![0u8]) == Some(Seq::<Seq<u8>>::empty()));
        assert(crate::text::spec_join(Seq::<Seq<u8>>::empty(), 46) =~= b);
    } else {
        let parts = crate::text::spec_split(b, 46);
        crate::text::lemma_split_shape(b, 46);
        crate::text::lemma_join_split(b, 46);
        lemma_join_last(parts, 46);
        assert(b.last() != 46);
        assert(strip_one_dot(b) == b);
        lemma_wire_parse_roundtrip(parts);
    }
}

/// The same round trip for a dotted name given as characters: the name
/// encodes, and the dotted spelling its wire form decodes to is the very
/// character sequence it came from.
pub proof fn lemma_dotted_round_trip_chars(s: Seq<char>)
    requires
        encode_utf8(s).len() > 0 ==> labels_ok(crate::text::spec_split(encode_utf8(s), 46))
            && spec_wire(crate::text::spec_split(encode_utf8(s), 46)).len() <= MAX_DOMAIN_LEN,
    ensures
        dotted_to_wire(encode_utf8(s)) is Some,
        vstd::utf8::decode_utf8(
            crate::text::spec_join(
                spec_parse_wire(dotted_to_wire(encode_utf8(s)).unwrap()).unwrap(),
                46,
            ),
        ) == s,
{
    lemma_dotted_round_trip(encode_utf8(s));
    vstd::utf8::encode_utf8_decode_utf8(s);
}

// ---------------------------------------------------------------------------
// Typed record payloads over DomainName
// ---------------------------------------------------------------------------

/// MX record data with a typed exchange name (RFC 1035): the preference and
/// the mail exchange host.
#[derive(Debug, Clone, PartialEq, Eq, Hash)]
pub struct MxData {
    /// Preference value; lower is more preferred.
    pub priority: u16,
    /// Mail exchange host.
    pub exchange: DomainName,
}

impl MxData {
    /// Builds MX data from its parts.
    pub fn new(priority: u16, exchange: DomainName) -> (r: MxData)
        ensures
            r.priority == priority,
            r.exchange == exchange,
    {
        MxData { priority, exchange }
    }
}

/// SRV record data with typed fields (RFC 2782).
#[derive(Debug, Clone, PartialEq, Eq, Hash)]
pub struct SrvData {
    /// Priority; lower is more preferred.
    pub priority: u16,
    /// Weight for load balancing among equal priorities.
    pub weight: u16,
    /// TCP or UDP port number.
    pub port: u16,
    /// Target host providing the service.
    pub target: DomainName,
}

impl SrvData {
    /// Builds SRV data from its parts.
    pub fn new(priority: u16, weight: u16, port: u16, target: DomainName) -> (r: SrvData)
        ensures
            r.priority == priority,
            r.weight == weight,
            r.port == port,
            r.target == target,
    {
        SrvData { priority, weight, port, target }
    }
}

/// SOA record data (RFC 1035): zone authority and timing values.
#[derive(Debug, Clone, PartialEq, Eq, Hash)]
pub struct SoaData {
    /// Primary name server for the zone.
    pub mname: DomainName,
    /// Mailbox of the responsible person, encoded as a domain name.
    pub rname: DomainName,
    /// Serial number, the zone version.
    pub serial: u32,
    /// Refresh interval in seconds.
    pub refresh: u32,
    /// Retry interval in seconds.
    pub retry: u32,
    /// Expire time in seconds.
    pub expire: u32,
    /// Minimum TTL in seconds.
    pub minimum: u32,
}

} // verus!
