//! Tests for the core DNS value types: labels, domain names, TTLs, and the
//! record type and class codes.

use manydns::types::{DomainName, Environment, Label, RecordClass, RecordType, Ttl};
use manydns::{MAX_DOMAIN_LEN, MAX_LABEL_LEN, MAX_TTL};

#[test]
fn test_label_creation() {
    let label = Label::from_str("example").unwrap();
    assert_eq!(label.len(), 7);
    assert_eq!(label.as_str(), Some("example"));

    // Too long
    let long = "a".repeat(64);
    assert!(Label::from_str(&long).is_none());

    // Max length is OK
    let max = "a".repeat(63);
    assert!(Label::from_str(&max).is_some());
}

#[test]
fn test_label_bytes_roundtrip() {
    // A label holds its bytes exactly, for every length in bounds.
    for n in 1..=MAX_LABEL_LEN {
        let bytes = vec![0x61u8; n];
        let label = Label::new(&bytes).unwrap();
        assert_eq!(label.as_bytes(), &bytes[..]);
        assert_eq!(label.len(), n);
        assert!(!label.is_empty());
    }
}

#[test]
fn test_label_rejects_empty_and_too_long() {
    assert!(Label::new(&[]).is_none());
    assert!(Label::new(&[0u8; 64]).is_none());
    assert!(Label::new(&[0u8; 100]).is_none());
}

#[test]
fn test_label_arbitrary_bytes() {
    // Labels may hold arbitrary bytes; only length is constrained.
    let bytes = vec![0xffu8, 0x00, 0x7f];
    let label = Label::new(&bytes).unwrap();
    assert_eq!(label.as_bytes(), &bytes[..]);
    // The UTF-8 view fails gracefully on such bytes.
    assert!(label.as_str().is_none());
}

#[test]
fn test_domain_name_creation() {
    let domain = DomainName::from_dotted("example.com").unwrap();
    assert_eq!(domain.to_dotted(), "example.com");

    let domain = DomainName::from_dotted("sub.example.com").unwrap();
    assert_eq!(domain.to_dotted(), "sub.example.com");

    // Root domain
    let root = DomainName::from_dotted("").unwrap();
    assert!(root.is_root());
}

#[test]
fn test_domain_name_wire_format() {
    let domain = DomainName::from_dotted("example.com").unwrap();
    let wire = domain.as_wire_bytes();
    // length byte, "example", length byte, "com", terminator
    assert_eq!(wire.len(), 1 + 7 + 1 + 3 + 1);
    assert_eq!(wire[0], 7);
    assert_eq!(&wire[1..8], b"example");
    assert_eq!(wire[8], 3);
    assert_eq!(&wire[9..12], b"com");
    assert_eq!(*wire.last().unwrap(), 0);
    assert_eq!(domain.wire_len(), wire.len());
    assert!(wire.len() <= MAX_DOMAIN_LEN);
}

#[test]
fn test_domain_name_trailing_dot() {
    // One trailing dot is stripped.
    let domain = DomainName::from_dotted("example.com.").unwrap();
    assert_eq!(domain.to_dotted(), "example.com");
}

#[test]
fn test_domain_name_label_too_long() {
    // A 64-byte label fails regardless of the overall length.
    let s = format!("{}.com", "a".repeat(64));
    assert!(DomainName::from_dotted(&s).is_none());
}

#[test]
fn test_domain_name_total_too_long() {
    // Four labels of 63 bytes each exceed the 255-byte wire budget even
    // though each label alone is valid.
    let l = "a".repeat(63);
    let s = format!("{l}.{l}.{l}.{l}");
    assert!(DomainName::from_dotted(&s).is_none());
}

#[test]
fn test_domain_name_at_budget() {
    // Three 63-byte labels and one 61-byte label give exactly 255 wire
    // bytes: four length bytes, 250 label bytes, and the terminator.  One
    // more label byte pushes past the budget.
    let l = "a".repeat(63);
    let last = "a".repeat(61);
    let s = format!("{l}.{l}.{l}.{last}");
    let d = DomainName::from_dotted(&s).unwrap();
    assert_eq!(d.wire_len(), 255);
    let too_long = format!("{l}.{l}.{l}.{}", "a".repeat(62));
    assert!(DomainName::from_dotted(&too_long).is_none());
}

#[test]
fn test_domain_name_empty_label() {
    assert!(DomainName::from_dotted("a..b").is_none());
    assert!(DomainName::from_dotted(".").is_none());
}

#[test]
fn test_domain_name_default_is_root() {
    let d = DomainName::default();
    assert!(d.is_root());
    assert_eq!(d.as_wire_bytes(), &[0u8]);
    assert_eq!(d.to_dotted(), "");
}

#[test]
fn test_domain_name_labels() {
    let d = DomainName::from_dotted("www.example.com").unwrap();
    let labels = d.labels();
    assert_eq!(labels.len(), 3);
    assert_eq!(labels[0], b"www");
    assert_eq!(labels[1], b"example");
    assert_eq!(labels[2], b"com");
}

#[test]
fn test_ttl_clamping() {
    let ttl = Ttl::new(u32::MAX);
    assert_eq!(ttl.as_secs(), MAX_TTL);

    let ttl = Ttl::new(3600);
    assert_eq!(ttl.as_secs(), 3600);

    // The RFC-facing name behaves the same.
    assert_eq!(Ttl::clamp(u32::MAX).as_secs(), MAX_TTL);
    assert_eq!(Ttl::clamp(MAX_TTL).as_secs(), MAX_TTL);
    assert_eq!(Ttl::clamp(0).as_secs(), 0);
}

#[test]
fn test_ttl_strict() {
    // Every value above the RFC maximum is rejected, never adjusted.
    assert!(Ttl::try_new(MAX_TTL + 1).is_none());
    assert!(Ttl::try_new(u32::MAX).is_none());
    assert!(Ttl::strict(MAX_TTL + 1).is_none());
    // Every value within the bound comes back unchanged.
    assert_eq!(Ttl::try_new(MAX_TTL).unwrap().as_secs(), MAX_TTL);
    assert_eq!(Ttl::try_new(0).unwrap().as_secs(), 0);
    assert_eq!(Ttl::strict(12345).unwrap().as_secs(), 12345);
}

#[test]
fn test_ttl_constants() {
    assert_eq!(Ttl::zero().as_secs(), 0);
    assert!(Ttl::zero().is_zero());
    assert_eq!(Ttl::one_hour().as_secs(), 3600);
    assert_eq!(Ttl::one_day().as_secs(), 86400);
    assert_eq!(Ttl::one_week().as_secs(), 604800);
    assert_eq!(Ttl::max_value().as_secs(), 2_147_483_647);
    assert_eq!(Ttl::default().as_secs(), 0);
}

#[test]
fn test_record_type_roundtrip() {
    assert_eq!(RecordType::from_u16(1), Some(RecordType::A));
    assert_eq!(RecordType::A.as_u16(), 1);
    assert_eq!(RecordType::A.as_str(), "A");
}

#[test]
fn test_record_type_all_codes() {
    let all = [
        (RecordType::A, 1u16, "A"),
        (RecordType::NS, 2, "NS"),
        (RecordType::CNAME, 5, "CNAME"),
        (RecordType::SOA, 6, "SOA"),
        (RecordType::PTR, 12, "PTR"),
        (RecordType::HINFO, 13, "HINFO"),
        (RecordType::MX, 15, "MX"),
        (RecordType::TXT, 16, "TXT"),
        (RecordType::AAAA, 28, "AAAA"),
        (RecordType::SRV, 33, "SRV"),
        (RecordType::DS, 43, "DS"),
        (RecordType::DNSKEY, 48, "DNSKEY"),
        (RecordType::CAA, 257, "CAA"),
    ];
    for (t, code, name) in all {
        // Every member comes back from its own code and its own name.
        assert_eq!(RecordType::from_u16(t.as_u16()), Some(t));
        assert_eq!(RecordType::from_str(t.as_str()), Some(t));
        assert_eq!(t.as_u16(), code);
        assert_eq!(t.as_str(), name);
    }
    assert_eq!(RecordType::from_u16(3), None);
    assert_eq!(RecordType::from_u16(0), None);
}

#[test]
fn test_record_type_case_insensitive() {
    assert_eq!(RecordType::from_str("cname"), Some(RecordType::CNAME));
    assert_eq!(RecordType::from_str("Mx"), Some(RecordType::MX));
    assert_eq!(RecordType::from_str("aaaa"), Some(RecordType::AAAA));
    assert_eq!(RecordType::from_str("bogus"), None);
    assert_eq!(RecordType::from_str(""), None);
}

#[test]
fn test_record_class_roundtrip() {
    let all = [
        (RecordClass::IN, 1u16),
        (RecordClass::CS, 2),
        (RecordClass::CH, 3),
        (RecordClass::HS, 4),
    ];
    for (c, code) in all {
        assert_eq!(RecordClass::from_u16(c.as_u16()), Some(c));
        assert_eq!(c.as_u16(), code);
    }
    assert_eq!(RecordClass::from_u16(5), None);
    assert_eq!(RecordClass::default(), RecordClass::IN);
}

#[test]
fn test_environment() {
    let env = Environment::Production;
    assert!(env.is_production());
    assert!(!env.is_sandbox());
    let env = Environment::Sandbox;
    assert!(env.is_sandbox());
    assert!(!env.is_production());
    assert!(Environment::default().is_production());
    assert_eq!(Environment::Production.as_str(), "production");
    assert_eq!(Environment::Sandbox.as_str(), "sandbox");
}

#[test]
fn test_ttl_is_copy() {
    fn assert_copy<T: Copy>() {}
    assert_copy::<Ttl>();
    assert_copy::<RecordType>();
    assert_copy::<RecordClass>();
}
