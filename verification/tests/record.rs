//! Tests for the tagged record-data model and the generic record.

use manydns::addr::{Ipv4Addr, Ipv6Addr};
use manydns::record::{Record, RecordData};

#[test]
fn test_from_raw_a() {
    let data = RecordData::from_raw("A", "192.0.2.1");
    assert_eq!(data.get_type(), "A");
    assert_eq!(data, RecordData::A(Ipv4Addr::new(192, 0, 2, 1)));
    assert_eq!(data.get_value(), "192.0.2.1");
}

#[test]
fn test_from_raw_a_invalid_falls_back() {
    let data = RecordData::from_raw("A", "not an ip");
    assert_eq!(
        data,
        RecordData::Other { typ: "A".to_string(), value: "not an ip".to_string() }
    );
    assert_eq!(data.get_type(), "A");
    // Octets above 255 and superfluous leading zeros are rejected too.
    assert!(matches!(RecordData::from_raw("A", "1.2.3.256"), RecordData::Other { .. }));
    assert!(matches!(RecordData::from_raw("A", "01.2.3.4"), RecordData::Other { .. }));
    assert!(matches!(RecordData::from_raw("A", "1.2.3"), RecordData::Other { .. }));
}

#[test]
fn test_from_raw_aaaa() {
    let data = RecordData::from_raw("AAAA", "2001:db8:0:0:0:0:0:1");
    assert_eq!(
        data,
        RecordData::AAAA(Ipv6Addr::new(0x2001, 0xdb8, 0, 0, 0, 0, 0, 1))
    );
    assert_eq!(data.get_type(), "AAAA");
    assert_eq!(data.get_value(), "2001:db8:0:0:0:0:0:1");
}

#[test]
fn test_from_raw_aaaa_elision() {
    // One `::` stands for the missing zero groups.
    assert_eq!(
        RecordData::from_raw("AAAA", "2001:db8::1"),
        RecordData::AAAA(Ipv6Addr::new(0x2001, 0xdb8, 0, 0, 0, 0, 0, 1))
    );
    assert_eq!(
        RecordData::from_raw("AAAA", "::1"),
        RecordData::AAAA(Ipv6Addr::new(0, 0, 0, 0, 0, 0, 0, 1))
    );
    assert_eq!(
        RecordData::from_raw("AAAA", "::"),
        RecordData::AAAA(Ipv6Addr::new(0, 0, 0, 0, 0, 0, 0, 0))
    );
    assert_eq!(
        RecordData::from_raw("AAAA", "fe80::"),
        RecordData::AAAA(Ipv6Addr::new(0xfe80, 0, 0, 0, 0, 0, 0, 0))
    );
    // Malformed addresses fall back to the opaque variant.
    assert!(matches!(RecordData::from_raw("AAAA", "1:2:3"), RecordData::Other { .. }));
    assert!(matches!(RecordData::from_raw("AAAA", "1::2::3"), RecordData::Other { .. }));
    assert!(matches!(RecordData::from_raw("AAAA", ":::"), RecordData::Other { .. }));
}

#[test]
fn test_from_raw_cname_ns_txt() {
    assert_eq!(
        RecordData::from_raw("CNAME", "example.com"),
        RecordData::CNAME("example.com".to_string())
    );
    assert_eq!(
        RecordData::from_raw("NS", "ns1.example.com"),
        RecordData::NS("ns1.example.com".to_string())
    );
    assert_eq!(
        RecordData::from_raw("TXT", "v=spf1 -all"),
        RecordData::TXT("v=spf1 -all".to_string())
    );
}

#[test]
fn test_from_raw_mx() {
    let data = RecordData::from_raw("MX", "10 mail.example.com");
    assert_eq!(
        data,
        RecordData::MX { priority: 10, mail_server: "mail.example.com".to_string() }
    );
    assert_eq!(data.get_value(), "10 mail.example.com");
    assert_eq!(data.get_api_value(), "mail.example.com");
}

#[test]
fn test_from_raw_mx_malformed() {
    // Not two fields, or no numeric preference: the opaque variant keeps
    // everything.
    assert!(matches!(RecordData::from_raw("MX", "mail.example.com"), RecordData::Other { .. }));
    assert!(matches!(
        RecordData::from_raw("MX", "ten mail.example.com"),
        RecordData::Other { .. }
    ));
    assert!(matches!(
        RecordData::from_raw("MX", "10 mail.example.com extra"),
        RecordData::Other { .. }
    ));
    assert!(matches!(
        RecordData::from_raw("MX", "99999 mail.example.com"),
        RecordData::Other { .. }
    ));
}

#[test]
fn test_from_raw_srv() {
    let data = RecordData::from_raw("SRV", "10 5 5060 sip.example.com");
    assert_eq!(
        data,
        RecordData::SRV {
            priority: 10,
            weight: 5,
            port: 5060,
            target: "sip.example.com".to_string()
        }
    );
    assert_eq!(data.get_value(), "10 5 5060 sip.example.com");
    assert_eq!(data.get_api_value(), "5 5060 sip.example.com");
}

#[test]
fn test_from_raw_srv_malformed() {
    assert!(matches!(RecordData::from_raw("SRV", "10 5 sip.example.com"), RecordData::Other { .. }));
    assert!(matches!(RecordData::from_raw("SRV", "a b c d"), RecordData::Other { .. }));
}

#[test]
fn test_from_raw_unknown_type_preserves_data() {
    let data = RecordData::from_raw("CAA", "0 issue \"ca.example.net\"");
    assert_eq!(
        data,
        RecordData::Other {
            typ: "CAA".to_string(),
            value: "0 issue \"ca.example.net\"".to_string()
        }
    );
    assert_eq!(data.get_type(), "CAA");
    assert_eq!(data.get_value(), "0 issue \"ca.example.net\"");
}

#[test]
fn test_get_type_matches_variant() {
    assert_eq!(RecordData::from_raw("A", "1.2.3.4").get_type(), "A");
    assert_eq!(RecordData::from_raw("AAAA", "::1").get_type(), "AAAA");
    assert_eq!(RecordData::from_raw("CNAME", "x").get_type(), "CNAME");
    assert_eq!(RecordData::from_raw("NS", "x").get_type(), "NS");
    assert_eq!(RecordData::from_raw("TXT", "x").get_type(), "TXT");
    assert_eq!(RecordData::from_raw("MX", "1 x").get_type(), "MX");
    assert_eq!(RecordData::from_raw("SRV", "1 2 3 x").get_type(), "SRV");
    // The type string always equals the string the data was built from,
    // whichever branch was taken.
    assert_eq!(RecordData::from_raw("WEIRD", "v").get_type(), "WEIRD");
    assert_eq!(RecordData::from_raw("mx", "1 x").get_type(), "mx");
}

#[test]
fn test_ipv6_render_uncompressed() {
    let ip = Ipv6Addr::new(0x2001, 0xdb8, 0, 0, 0, 0, 0, 1);
    assert_eq!(ip.to_text(), "2001:db8:0:0:0:0:0:1");
    // The rendered form parses back to the same address.
    assert_eq!(Ipv6Addr::parse(&ip.to_text()), Some(ip));
}

#[test]
fn test_ipv4_parse_and_render() {
    let ip = Ipv4Addr::parse("203.0.113.7").unwrap();
    assert_eq!((ip.a, ip.b, ip.c, ip.d), (203, 0, 113, 7));
    assert_eq!(ip.to_text(), "203.0.113.7");
    assert!(Ipv4Addr::parse("203.0.113").is_none());
    assert!(Ipv4Addr::parse("203.0.113.777").is_none());
    assert!(Ipv4Addr::parse("").is_none());
}

#[test]
fn test_record_construction() {
    let rec = Record::new(
        "id-1".to_string(),
        "www.example.com".to_string(),
        RecordData::from_raw("A", "192.0.2.1"),
        300,
    );
    assert_eq!(rec.id, "id-1");
    assert_eq!(rec.host, "www.example.com");
    assert_eq!(rec.ttl, 300);
    assert_eq!(rec.data.get_type(), "A");
}

#[test]
fn test_ipv4_render_parse_round_trip() {
    // Rendering and parsing give the octets back, across the value range.
    for (a, b, c, d) in [(0, 0, 0, 0), (255, 255, 255, 255), (192, 0, 2, 1), (10, 0, 0, 7)] {
        let ip = Ipv4Addr::new(a, b, c, d);
        assert_eq!(Ipv4Addr::parse(&ip.to_text()), Some(ip));
    }
}

#[test]
fn test_ipv6_render_parse_round_trip() {
    let cases = [
        Ipv6Addr::new(0, 0, 0, 0, 0, 0, 0, 0),
        Ipv6Addr::new(0xffff, 0xffff, 0xffff, 0xffff, 0xffff, 0xffff, 0xffff, 0xffff),
        Ipv6Addr::new(0x2001, 0xdb8, 0, 0, 0, 0, 0, 1),
        Ipv6Addr::new(0xfe80, 0, 0, 0, 0x1234, 0, 0, 0xabcd),
    ];
    for ip in cases {
        assert_eq!(Ipv6Addr::parse(&ip.to_text()), Some(ip.clone()));
    }
}

#[test]
fn test_mx_priority_bounds() {
    // The largest preference that fits parses; one past it falls back.
    assert_eq!(
        RecordData::from_raw("MX", "65535 mail.example.com"),
        RecordData::MX { priority: 65535, mail_server: "mail.example.com".to_string() }
    );
    assert!(matches!(
        RecordData::from_raw("MX", "65536 mail.example.com"),
        RecordData::Other { .. }
    ));
}
