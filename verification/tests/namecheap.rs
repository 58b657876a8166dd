//! Tests for the Namecheap backend logic: domain splitting, host-record
//! conversion, the destructive update plans, and error classification.

use manydns::namecheap::{
    build_query_string, classify_error_code, clamp_ttl, filter_out_record, find_created_record,
    host_record_to_record, new_host_record, split_domain, ClientConfig, HostRecord,
    NamecheapError,
};
use manydns::record::RecordData;

/// The XML body the API sends when it rate-limits a client.
fn mock_rate_limited_response() -> String {
    "<?xml version=\"1.0\" encoding=\"UTF-8\"?>\n<ApiResponse Status=\"ERROR\">\n  <Errors>\n    <Error Number=\"500000\">Too many requests</Error>\n  </Errors>\n</ApiResponse>".to_string()
}

#[test]
fn test_rate_limit_xml_detection() {
    // Test that the rate limit XML produces the correct error code
    let xml = mock_rate_limited_response();
    assert!(xml.contains("500000"));
    assert!(xml.contains("Too many requests"));
}

#[test]
fn test_delete_record_uses_single_fetch() {
    // Deleting plans the replacement set from one fetched list: the filter
    // reports in one pass both the remaining records and whether the
    // identity was present, so no second fetch is needed.
    let records = vec![
        HostRecord {
            host_id: "1".to_string(),
            name: "@".to_string(),
            record_type: "A".to_string(),
            address: "1.2.3.4".to_string(),
            mx_pref: None,
            ttl: 300,
        },
        HostRecord {
            host_id: "2".to_string(),
            name: "www".to_string(),
            record_type: "A".to_string(),
            address: "5.6.7.8".to_string(),
            mx_pref: None,
            ttl: 300,
        },
    ];
    let (remaining, found) = filter_out_record(records.clone(), "2");
    assert!(found);
    assert_eq!(remaining.len(), 1);
    assert_eq!(remaining[0].host_id, "1");
    let (untouched, found) = filter_out_record(records, "99");
    assert!(!found);
    assert_eq!(untouched.len(), 2);
}

#[test]
fn test_rate_limit_error_classification() {
    let err = classify_error_code("500000", "Too many requests");
    assert_eq!(err, NamecheapError::RateLimited);
    assert_eq!(err.message(), "Rate limited");
}

#[test]
fn test_error_code_tables() {
    assert_eq!(classify_error_code("1010102", "x"), NamecheapError::Unauthorized);
    assert_eq!(classify_error_code("1011102", "x"), NamecheapError::Unauthorized);
    assert_eq!(classify_error_code("1030408", "x"), NamecheapError::Unauthorized);
    assert_eq!(classify_error_code("2019166", "x"), NamecheapError::DomainNotFound);
    assert_eq!(classify_error_code("2016166", "x"), NamecheapError::DomainNotFound);
    match classify_error_code("9999999", "something else") {
        NamecheapError::Api(e) => {
            assert_eq!(e.code, "9999999");
            assert_eq!(e.message, "something else");
        }
        other => panic!("expected the pass-through arm, got {:?}", other),
    }
}

#[test]
fn test_namecheap_error_messages() {
    assert_eq!(NamecheapError::RateLimited.message(), "Rate limited");
    assert_eq!(NamecheapError::DomainNotFound.message(), "Domain not found");
    assert_eq!(NamecheapError::Unauthorized.message(), "Unauthorized");
}

#[test]
fn test_split_domain() {
    assert_eq!(
        split_domain("example.com"),
        Some(("example".to_string(), "com".to_string()))
    );
    assert_eq!(
        split_domain("sub.example.com"),
        Some(("sub.example".to_string(), "com".to_string()))
    );
    assert_eq!(
        split_domain("example.co.uk"),
        Some(("example".to_string(), "co.uk".to_string()))
    );
    assert_eq!(
        split_domain("sub.example.co.uk"),
        Some(("sub.example".to_string(), "co.uk".to_string()))
    );
    assert_eq!(split_domain("com"), None);
}

#[test]
fn test_host_record_to_record() {
    let hr = HostRecord {
        host_id: "123".to_string(),
        name: "www".to_string(),
        record_type: "A".to_string(),
        address: "1.2.3.4".to_string(),
        mx_pref: None,
        ttl: 3600,
    };

    let record = host_record_to_record(hr, "example.com");
    assert_eq!(record.id, "123");
    assert_eq!(record.host, "www.example.com");
    assert_eq!(record.data, RecordData::from_raw("A", "1.2.3.4"));
    assert_eq!(record.ttl, 3600);
}

#[test]
fn test_host_record_apex() {
    let hr = HostRecord {
        host_id: "456".to_string(),
        name: "@".to_string(),
        record_type: "A".to_string(),
        address: "1.2.3.4".to_string(),
        mx_pref: None,
        ttl: 1800,
    };

    let record = host_record_to_record(hr, "example.com");
    assert_eq!(record.host, "example.com");
}

#[test]
fn test_host_record_mx() {
    let hr = HostRecord {
        host_id: "789".to_string(),
        name: "@".to_string(),
        record_type: "MX".to_string(),
        address: "mail.example.com".to_string(),
        mx_pref: Some(10),
        ttl: 3600,
    };

    let record = host_record_to_record(hr, "example.com");
    assert_eq!(
        record.data,
        RecordData::MX {
            priority: 10,
            mail_server: "mail.example.com".to_string()
        }
    );
}

#[test]
fn test_client_config_urls() {
    let sandbox = ClientConfig::sandbox("user", "key", "1.2.3.4");
    assert_eq!(
        sandbox.api_url(),
        "https://api.sandbox.namecheap.com/xml.response"
    );
    assert!(sandbox.environment.is_sandbox());

    let prod = ClientConfig::production("user", "key", "1.2.3.4");
    assert_eq!(prod.api_url(), "https://api.namecheap.com/xml.response");
    assert!(prod.environment.is_production());
}

#[test]
fn test_host_record_fields_public() {
    let record = HostRecord {
        host_id: "1".to_string(),
        name: "@".to_string(),
        record_type: "A".to_string(),
        address: "1.2.3.4".to_string(),
        mx_pref: None,
        ttl: 300,
    };

    assert_eq!(record.host_id, "1");
    assert_eq!(record.name, "@");
    assert_eq!(record.record_type, "A");
    assert_eq!(record.address, "1.2.3.4");
    assert_eq!(record.ttl, 300);
}

#[test]
fn test_new_host_record_clamps_ttl() {
    let data = RecordData::from_raw("A", "1.2.3.4");
    let hr = new_host_record("www", &data, 5);
    assert_eq!(hr.ttl, 60);
    assert_eq!(hr.name, "www");
    assert_eq!(hr.record_type, "A");
    assert_eq!(hr.address, "1.2.3.4");
    assert_eq!(hr.mx_pref, None);
    assert_eq!(new_host_record("www", &data, 100_000).ttl, 60000);
    assert_eq!(clamp_ttl(300), 300);

    let mx = RecordData::from_raw("MX", "10 mail.example.com");
    let hr = new_host_record("@", &mx, 300);
    assert_eq!(hr.mx_pref, Some(10));
    // The address the API receives excludes the preference.
    assert_eq!(hr.address, "mail.example.com");
}

#[test]
fn test_find_created_record_matches_rewrites() {
    // The backend may strip trailing dots and fold case in what it echoes
    // back; the search still finds the created record, preferring the last
    // match.
    let created = RecordData::from_raw("CNAME", "Target.Example.com.");
    let updated = vec![
        HostRecord {
            host_id: "1".to_string(),
            name: "a".to_string(),
            record_type: "CNAME".to_string(),
            address: "other.example.com".to_string(),
            mx_pref: None,
            ttl: 300,
        },
        HostRecord {
            host_id: "2".to_string(),
            name: "www".to_string(),
            record_type: "CNAME".to_string(),
            address: "target.example.com".to_string(),
            mx_pref: None,
            ttl: 300,
        },
    ];
    let found = find_created_record(&updated, "www", &created).unwrap();
    assert_eq!(found.host_id, "2");
    assert!(find_created_record(&updated, "missing", &created).is_none());
}

#[test]
fn test_build_query_string_encodes_values() {
    let params = vec![
        ("SLD".to_string(), "example".to_string()),
        ("Address1".to_string(), "2001:db8::1".to_string()),
    ];
    // Keys go verbatim; values are percent-encoded, so the colons of an
    // IPv6 value do not survive unescaped.
    assert_eq!(
        build_query_string(&params),
        "SLD=example&Address1=2001%3Adb8%3A%3A1"
    );
}
