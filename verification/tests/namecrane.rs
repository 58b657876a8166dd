//! Tests for the CraneDNS backend logic: synthesized record identities and
//! record conversion.

use manydns::namecrane::{
    api_record_to_record, content_hash, parse_record_id, synthesize_record_id, ApiRecord,
    ClientConfig,
};
use manydns::record::RecordData;
use manydns::types::Environment;

#[test]
fn test_synthesize_and_parse_record_id() {
    let id = synthesize_record_id("www", "A", "192.168.1.1");
    let (name, rtype, hash) = parse_record_id(&id).unwrap();
    assert_eq!(name, "www");
    assert_eq!(rtype, "A");
    assert_eq!(hash.len(), 8);
}

#[test]
fn test_content_hash_consistency() {
    let hash1 = content_hash("192.168.1.1");
    let hash2 = content_hash("192.168.1.1");
    assert_eq!(hash1, hash2);

    let hash3 = content_hash("192.168.1.2");
    assert_ne!(hash1, hash3);
}

#[test]
fn test_parse_invalid_record_id() {
    assert!(parse_record_id("invalid").is_none());
    assert!(parse_record_id("only:two").is_none());
}

#[test]
fn test_api_record_to_record_apex() {
    let api = ApiRecord {
        name: "@".to_string(),
        record_type: "A".to_string(),
        content: "1.2.3.4".to_string(),
        ttl: 300,
        priority: None,
    };
    let record = api_record_to_record(api, "example.com");
    assert_eq!(record.host, "example.com");
}

#[test]
fn test_api_record_to_record_subdomain() {
    let api = ApiRecord {
        name: "www".to_string(),
        record_type: "A".to_string(),
        content: "1.2.3.4".to_string(),
        ttl: 300,
        priority: None,
    };
    let record = api_record_to_record(api, "example.com");
    assert_eq!(record.host, "www.example.com");
}

#[test]
fn test_api_record_mx_priority_field() {
    let api = ApiRecord {
        name: "@".to_string(),
        record_type: "MX".to_string(),
        content: "mail.example.com".to_string(),
        ttl: 3600,
        priority: Some(20),
    };
    let record = api_record_to_record(api, "example.com");
    assert_eq!(
        record.data,
        RecordData::MX { priority: 20, mail_server: "mail.example.com".to_string() }
    );
}

#[test]
fn test_api_record_srv_content() {
    // SRV content is weight, port and target; the priority travels in its
    // own field.
    let api = ApiRecord {
        name: "_sip._tcp".to_string(),
        record_type: "SRV".to_string(),
        content: "5 5060 sip.example.com".to_string(),
        ttl: 3600,
        priority: Some(10),
    };
    let record = api_record_to_record(api, "example.com");
    assert_eq!(
        record.data,
        RecordData::SRV {
            priority: 10,
            weight: 5,
            port: 5060,
            target: "sip.example.com".to_string()
        }
    );
}

#[test]
fn test_client_config_environments() {
    let sandbox = ClientConfig::sandbox("key", "example.org");
    assert_eq!(sandbox.environment, Environment::Sandbox);
    assert_eq!(
        sandbox.api_url(),
        "https://namecrane.org/index.php?m=cranedns&action=api"
    );
    let prod = ClientConfig::production("key", "example.com");
    assert_eq!(prod.environment, Environment::Production);
    assert_eq!(
        prod.api_url(),
        "https://namecrane.com/index.php?m=cranedns&action=api"
    );
}

#[test]
fn test_record_id_hash_is_hex_of_content() {
    // The identity's last component is the hash of the content; it would
    // differ for a record with different content.
    let id_a = synthesize_record_id("www", "A", "1.2.3.4");
    let id_b = synthesize_record_id("www", "A", "1.2.3.5");
    let (_, _, hash_a) = parse_record_id(&id_a).unwrap();
    let (_, _, hash_b) = parse_record_id(&id_b).unwrap();
    assert_ne!(hash_a, hash_b);
    assert_eq!(hash_a, content_hash("1.2.3.4"));
}
