//! Tests for the remaining backend logic: Hetzner RRSets, Technitium typed
//! data, DNSPod code tables, Cloudflare conversions, and Tencent value
//! normalization.

use manydns::record::RecordData;

// ---------------------------------------------------------------------------
// Hetzner
// ---------------------------------------------------------------------------

use manydns::hetzner::{
    format_txt_value, format_value_for_api, is_supported_record_type, make_record_id,
    parse_record_id, rrset_to_records, RRSet, RecordValue,
};

#[test]
fn hetzner_test_format_txt_value() {
    assert_eq!(format_txt_value("hello"), "\"hello\"");
    assert_eq!(format_txt_value("\"quoted\""), "\"quoted\"");
    assert_eq!(format_txt_value(""), "\"\"");
    let formatted = format_txt_value("v=spf1 -all");
    assert!(formatted.starts_with('"'));
    assert!(formatted.ends_with('"'));
    assert!(formatted.len() >= 2);
}

#[test]
fn hetzner_test_format_value_for_api() {
    let txt = RecordData::from_raw("TXT", "v=spf1 -all");
    assert_eq!(format_value_for_api(&txt), "\"v=spf1 -all\"");
    let a = RecordData::from_raw("A", "1.2.3.4");
    assert_eq!(format_value_for_api(&a), "1.2.3.4");
}

#[test]
fn hetzner_test_record_id_roundtrip() {
    let id = make_record_id("www", "A", "1.2.3.4");
    assert_eq!(id, "www/A/1.2.3.4");
    let (name, typ, value) = parse_record_id(&id).unwrap();
    assert_eq!(name, "www");
    assert_eq!(typ, "A");
    assert_eq!(value, "1.2.3.4");
    // A value holding slashes survives as the final component.
    let (_, _, v) = parse_record_id("www/TXT/a/b/c").unwrap();
    assert_eq!(v, "a/b/c");
    assert!(parse_record_id("no-slashes").is_none());
    assert!(parse_record_id("one/slash").is_none());
}

#[test]
fn hetzner_test_supported_types() {
    assert!(is_supported_record_type("A"));
    assert!(is_supported_record_type("TLSA"));
    assert!(is_supported_record_type("SVCB"));
    assert!(!is_supported_record_type("DNSKEY"));
    assert!(!is_supported_record_type("a"));
}

#[test]
fn hetzner_test_rrset_to_records() {
    let rrset = RRSet {
        id: "www/A".to_string(),
        name: "www".to_string(),
        typ: "A".to_string(),
        ttl: None,
        records: vec![RecordValue::new("1.2.3.4"), RecordValue::new("5.6.7.8")],
        zone: 42,
    };
    let records = rrset_to_records(&rrset, 3600);
    assert_eq!(records.len(), 2);
    assert_eq!(records[0].id, "www/A/1.2.3.4");
    assert_eq!(records[0].host, "www");
    assert_eq!(records[0].ttl, 3600);
    assert_eq!(records[0].data, RecordData::from_raw("A", "1.2.3.4"));
    assert_eq!(records[1].id, "www/A/5.6.7.8");

    let with_ttl = RRSet { ttl: Some(60), ..rrset };
    assert_eq!(rrset_to_records(&with_ttl, 3600)[0].ttl, 60);
}

#[test]
fn hetzner_test_record_value_comment() {
    let v = RecordValue::new("1.2.3.4");
    assert_eq!(v.comment, None);
    let v = RecordValue::with_comment("1.2.3.4", "home");
    assert_eq!(v.comment.as_deref(), Some("home"));
}

// ---------------------------------------------------------------------------
// Technitium
// ---------------------------------------------------------------------------

use manydns::technitium::{
    calculate_hash, classify_error_message, record_data_to_params, to_generic_record,
    ApiError, ApiResponse, ApiStatus, EmptyApiResponse, RecordParams,
};
use manydns::technitium::RecordData as TechRecordData;
use manydns::technitium::DnsRecord as TechDnsRecord;

#[test]
fn technitium_test_classify_error_message() {
    assert_eq!(
        classify_error_message("Access was not authorized for this token"),
        ApiError::Unauthorized
    );
    assert_eq!(classify_error_message("UNAUTHORIZED"), ApiError::Unauthorized);
    assert_eq!(classify_error_message("Zone was not found"), ApiError::NotFound);
    assert_eq!(classify_error_message("record does not exist"), ApiError::NotFound);
    assert_eq!(classify_error_message("No such zone"), ApiError::NotFound);
    assert_eq!(
        classify_error_message("Invalid domain name given"),
        ApiError::InvalidDomainName
    );
    assert_eq!(
        classify_error_message("something else broke"),
        ApiError::ApiStatus("something else broke".to_string())
    );
}

#[test]
fn technitium_test_into_result() {
    let ok: ApiResponse<u32> = ApiResponse {
        status: ApiStatus::Success,
        error_message: None,
        response: Some(7),
    };
    assert_eq!(ok.into_result(), Ok(7));

    let missing: ApiResponse<u32> = ApiResponse {
        status: ApiStatus::Success,
        error_message: None,
        response: None,
    };
    assert!(missing.into_result().is_err());

    let bad_token: ApiResponse<u32> = ApiResponse {
        status: ApiStatus::InvalidToken,
        error_message: None,
        response: None,
    };
    assert_eq!(bad_token.into_result(), Err(ApiError::InvalidToken));

    let err: ApiResponse<u32> = ApiResponse {
        status: ApiStatus::Error,
        error_message: Some("zone was not found".to_string()),
        response: None,
    };
    assert_eq!(err.into_result(), Err(ApiError::NotFound));

    let empty = EmptyApiResponse { status: ApiStatus::Success, error_message: None };
    assert!(empty.into_result().is_ok());
    let two_factor = EmptyApiResponse {
        status: ApiStatus::TwoFactorRequired,
        error_message: None,
    };
    assert_eq!(two_factor.into_result(), Err(ApiError::TwoFactorRequired));
}

#[test]
fn technitium_test_to_value_string() {
    let mx = TechRecordData::MX { preference: 10, exchange: "mail.example.com".to_string() };
    assert_eq!(mx.to_value_string(), "10 mail.example.com");
    let srv = TechRecordData::SRV {
        priority: 1,
        weight: 2,
        port: 8080,
        target: "svc.example.com".to_string(),
    };
    assert_eq!(srv.to_value_string(), "1 2 8080 svc.example.com");
    let caa = TechRecordData::CAA {
        flags: 0,
        tag: "issue".to_string(),
        value: "ca.example.net".to_string(),
    };
    assert_eq!(caa.to_value_string(), "0 issue \"ca.example.net\"");
    let ds = TechRecordData::DS {
        key_tag: 12345,
        algorithm: "ECDSAP256SHA256".to_string(),
        digest_type: "SHA256".to_string(),
        digest: "abcdef".to_string(),
    };
    assert_eq!(ds.to_value_string(), "12345 ECDSAP256SHA256 SHA256 abcdef");
}

#[test]
fn technitium_test_to_params() {
    let a = TechRecordData::A { ip_address: "1.2.3.4".to_string() };
    assert_eq!(a.to_params(), RecordParams::A { ip_address: "1.2.3.4".to_string() });
    let other = TechRecordData::Other("raw value".to_string());
    assert_eq!(other.to_params(), RecordParams::Other { value: "raw value".to_string() });
}

#[test]
fn technitium_test_record_data_to_params() {
    let data = manydns::record::RecordData::from_raw("MX", "10 mail.example.com");
    assert_eq!(
        record_data_to_params(&data),
        RecordParams::MX { preference: 10, exchange: "mail.example.com".to_string() }
    );
    let a = manydns::record::RecordData::from_raw("A", "1.2.3.4");
    assert_eq!(
        record_data_to_params(&a),
        RecordParams::A { ip_address: "1.2.3.4".to_string() }
    );
}

#[test]
fn technitium_test_calculate_hash_consistency() {
    assert_eq!(calculate_hash("1.2.3.4"), calculate_hash("1.2.3.4"));
    assert_ne!(calculate_hash("1.2.3.4"), calculate_hash("1.2.3.5"));
}

#[test]
fn technitium_test_to_generic_record() {
    let rec = TechDnsRecord {
        disabled: false,
        name: "www.example.com".to_string(),
        record_type: "A".to_string(),
        ttl: 300,
        rdata: TechRecordData::A { ip_address: "1.2.3.4".to_string() },
    };
    let generic = to_generic_record(rec);
    assert_eq!(generic.host, "www.example.com");
    assert_eq!(generic.ttl, 300);
    assert_eq!(generic.data, manydns::record::RecordData::from_raw("A", "1.2.3.4"));
    // The identity is name, type, and the value hash, joined by colons.
    assert!(generic.id.starts_with("www.example.com:A:"));
}

// ---------------------------------------------------------------------------
// DNSPod
// ---------------------------------------------------------------------------

use manydns::dnspod::{
    classify_record_create, classify_record_retrieve, classify_zone_create,
    classify_zone_retrieve, record_from_api, DnspodError, Domain, Status,
};
use manydns::dnspod::ClientConfig as DnspodClientConfig;
use manydns::dnspod::DnsRecord as DnspodDnsRecord;
use manydns::errors::{CreateRecordError, CreateZoneError, RetrieveRecordError,
    RetrieveZoneError};
use manydns::text::url_encode;
use manydns::errors::{
    create_record_error_from_status, create_zone_error_from_status,
    delete_record_error_from_status, retrieve_zone_error_from_status, DeleteRecordError,
};

fn err() -> DnspodError {
    DnspodError::Api(Status {
        code: "99".to_string(),
        message: "other".to_string(),
        created_at: None,
    })
}

#[test]
fn dnspod_test_user_agent_format() {
    let config = DnspodClientConfig::new("My DDNS Client", "1.0.0", "dev@example.com");
    assert_eq!(config.user_agent(), "My DDNS Client/1.0.0 (dev@example.com)");
}

#[test]
fn dnspod_test_domain_get_ttl() {
    let mut d = Domain {
        id: "1".to_string(),
        name: "example.com".to_string(),
        punycode: None,
        grade: None,
        status: None,
        records: None,
        ttl: Some("600".to_string()),
        owner: None,
    };
    assert_eq!(d.get_ttl(), 600);
    d.ttl = Some("junk".to_string());
    assert_eq!(d.get_ttl(), 600);
    d.ttl = None;
    assert_eq!(d.get_ttl(), 600);
    d.ttl = Some("86400".to_string());
    assert_eq!(d.get_ttl(), 86400);
}

#[test]
fn dnspod_test_record_defaults() {
    let rec = DnspodDnsRecord {
        id: "10".to_string(),
        name: "www".to_string(),
        line: None,
        record_type: None,
        ttl: None,
        value: "1.2.3.4".to_string(),
        mx: None,
        enabled: None,
        status: None,
        remark: None,
    };
    assert_eq!(rec.get_type(), "A");
    assert_eq!(rec.get_ttl(600), 600);
    let generic = record_from_api(&rec, 600);
    assert_eq!(generic.id, "10");
    assert_eq!(generic.host, "www");
    assert_eq!(generic.ttl, 600);
    assert_eq!(generic.data, manydns::record::RecordData::from_raw("A", "1.2.3.4"));
}

#[test]
fn dnspod_test_error_code_tables() {
    assert_eq!(
        classify_zone_retrieve("-1", err()),
        RetrieveZoneError::Unauthorized
    );
    assert_eq!(classify_zone_retrieve("6", err()), RetrieveZoneError::NotFound);
    assert!(matches!(
        classify_zone_retrieve("99", err()),
        RetrieveZoneError::Custom(_)
    ));
    assert_eq!(
        classify_zone_create("11", err()),
        CreateZoneError::InvalidDomainName
    );
    assert_eq!(
        classify_record_retrieve("8", err()),
        RetrieveRecordError::NotFound
    );
    assert_eq!(
        classify_record_create("27", err()),
        CreateRecordError::UnsupportedType
    );
    assert_eq!(
        classify_record_create("34", err()),
        CreateRecordError::InvalidRecord
    );
    assert_eq!(
        classify_record_create("21", err()),
        CreateRecordError::Unauthorized
    );
}

// ---------------------------------------------------------------------------
// Cloudflare
// ---------------------------------------------------------------------------

use manydns::cloudflare::{
    CreateRecordRequest, CreateRequestError, DnsRecordWithZone, SrvData,
};
use manydns::cloudflare::DnsRecord as CfDnsRecord;

fn record(record_type: &str, content: &str) -> CfDnsRecord {
    CfDnsRecord {
        id: "rec1".to_string(),
        zone_id: None,
        zone_name: None,
        name: "www.example.com".to_string(),
        record_type: record_type.to_string(),
        content: content.to_string(),
        proxied: false,
        ttl: 300,
        priority: None,
        comment: None,
        data: None,
    }
}

#[test]
fn cloudflare_test_try_into_record_subdomain() {
    let rec = record("A", "1.2.3.4");
    let converted = DnsRecordWithZone::new(&rec, "example.com").try_into_record().unwrap();
    assert_eq!(converted.host, "www");
    assert_eq!(converted.id, "rec1");
    assert_eq!(converted.ttl, 300);
    assert_eq!(converted.data, RecordData::from_raw("A", "1.2.3.4"));
}

#[test]
fn cloudflare_test_try_into_record_apex_and_foreign() {
    let mut rec = record("A", "1.2.3.4");
    rec.name = "example.com".to_string();
    let converted = DnsRecordWithZone::new(&rec, "example.com").try_into_record().unwrap();
    assert_eq!(converted.host, "@");
    rec.name = "other.net".to_string();
    let converted = DnsRecordWithZone::new(&rec, "example.com").try_into_record().unwrap();
    assert_eq!(converted.host, "other.net");
}

#[test]
fn cloudflare_test_try_into_record_failures() {
    let rec = record("A", "bogus");
    let e = DnsRecordWithZone::new(&rec, "example.com").try_into_record().unwrap_err();
    assert_eq!(e.record_type, "A");
    assert_eq!(e.reason, "invalid IPv4 address");
    let rec = record("LOC", "whatever");
    let e = DnsRecordWithZone::new(&rec, "example.com").try_into_record().unwrap_err();
    assert_eq!(e.reason, "unsupported record type");
    let rec = record("SRV", "too short");
    let e = DnsRecordWithZone::new(&rec, "example.com").try_into_record().unwrap_err();
    assert_eq!(e.record_type, "SRV");
}

#[test]
fn cloudflare_test_try_into_record_srv_data() {
    let mut rec = record("SRV", "");
    rec.data = Some(SrvData {
        service: None,
        proto: None,
        name: None,
        priority: Some(10),
        weight: Some(5),
        port: Some(5060),
        target: Some("sip.example.com".to_string()),
    });
    let converted = DnsRecordWithZone::new(&rec, "example.com").try_into_record().unwrap();
    assert_eq!(
        converted.data,
        RecordData::SRV {
            priority: 10,
            weight: 5,
            port: 5060,
            target: "sip.example.com".to_string()
        }
    );
}

#[test]
fn cloudflare_test_from_record_data() {
    let data = RecordData::from_raw("MX", "10 mail.example.com");
    let req = CreateRecordRequest::from_record_data("@", &data, 0, "example.com").unwrap();
    assert_eq!(req.record_type, "MX");
    assert_eq!(req.name, "example.com");
    assert_eq!(req.content, "mail.example.com");
    assert_eq!(req.priority, Some(10));
    assert_eq!(req.ttl, 1);
    assert_eq!(req.proxied, Some(false));

    let data = RecordData::from_raw("A", "1.2.3.4");
    let req = CreateRecordRequest::from_record_data("www", &data, 300, "example.com")
        .unwrap();
    assert_eq!(req.name, "www.example.com");
    assert_eq!(req.content, "1.2.3.4");
    assert_eq!(req.ttl, 300);

    let data = RecordData::from_raw("CAA", "0 issue \"ca\"");
    assert_eq!(
        CreateRecordRequest::from_record_data("www", &data, 300, "example.com"),
        Err(CreateRequestError::UnsupportedType)
    );
}

#[test]
fn cloudflare_test_from_record_data_srv() {
    let data = RecordData::from_raw("SRV", "10 5 5060 sip.example.com");
    let req = CreateRecordRequest::from_record_data(
        "_sip._tcp",
        &data,
        300,
        "example.com",
    )
    .unwrap();
    // The content excludes the priority, which travels separately.
    assert_eq!(req.content, "5 5060 sip.example.com");
    assert_eq!(req.priority, Some(10));
    let srv = req.data.unwrap();
    assert_eq!(srv.priority, Some(10));
    assert_eq!(srv.weight, Some(5));
    assert_eq!(srv.port, Some(5060));
    assert_eq!(srv.target.as_deref(), Some("sip.example.com"));
}

// ---------------------------------------------------------------------------
// Tencent
// ---------------------------------------------------------------------------

use manydns::tencent::{
    get_record_value, parse_record_data, record_from_list_item, RecordListItem,
};

#[test]
fn tencent_test_parse_record_data_normalizes() {
    // Trailing dots vanish from name-valued records.
    assert_eq!(
        parse_record_data("CNAME", "target.example.com.", None),
        Some(RecordData::CNAME("target.example.com".to_string()))
    );
    assert_eq!(
        parse_record_data("MX", "mail.example.com.", Some(20)),
        Some(RecordData::MX { priority: 20, mail_server: "mail.example.com".to_string() })
    );
    // TXT values lose one pair of surrounding quotes.
    assert_eq!(
        parse_record_data("TXT", "\"v=spf1 -all\"", None),
        Some(RecordData::TXT("v=spf1 -all".to_string()))
    );
    // SRV values split into four fields, the target undotted.
    assert_eq!(
        parse_record_data("SRV", "10 5 5060 sip.example.com.", None),
        Some(RecordData::SRV {
            priority: 10,
            weight: 5,
            port: 5060,
            target: "sip.example.com".to_string()
        })
    );
    assert_eq!(parse_record_data("SRV", "10 5", None), None);
    assert_eq!(parse_record_data("A", "not-an-ip", None), None);
    // Unknown types are kept opaque.
    assert_eq!(
        parse_record_data("CAA", "0 issue \"ca\"", None),
        Some(RecordData::Other { typ: "CAA".to_string(), value: "0 issue \"ca\"".to_string() })
    );
}

#[test]
fn tencent_test_get_record_value_mx_excludes_priority() {
    let mx = RecordData::from_raw("MX", "10 mail.example.com");
    assert_eq!(get_record_value(&mx), "mail.example.com");
    let a = RecordData::from_raw("A", "1.2.3.4");
    assert_eq!(get_record_value(&a), "1.2.3.4");
}

#[test]
fn tencent_test_record_from_list_item() {
    let item = RecordListItem {
        record_id: 4242,
        name: "www".to_string(),
        record_type: "A".to_string(),
        value: "1.2.3.4".to_string(),
        ttl: 600,
        line: "default".to_string(),
        status: "ENABLE".to_string(),
        mx: None,
    };
    let rec = record_from_list_item(&item).unwrap();
    assert_eq!(rec.id, "4242");
    assert_eq!(rec.host, "www");
    assert_eq!(rec.ttl, 600);
    assert_eq!(rec.data, RecordData::from_raw("A", "1.2.3.4"));

    let bad = RecordListItem { value: "bogus".to_string(), ..item };
    let e = record_from_list_item(&bad).unwrap_err();
    assert_eq!(e.record_type, "A");
}

#[test]
fn test_http_status_classifiers() {
    assert_eq!(
        retrieve_zone_error_from_status(404, "x"),
        RetrieveZoneError::NotFound
    );
    assert_eq!(
        retrieve_zone_error_from_status(401, "x"),
        RetrieveZoneError::Unauthorized
    );
    assert_eq!(
        retrieve_zone_error_from_status(403, "x"),
        RetrieveZoneError::Unauthorized
    );
    assert_eq!(
        retrieve_zone_error_from_status(500, "x"),
        RetrieveZoneError::Custom("x")
    );
    assert_eq!(
        create_zone_error_from_status(422, "x"),
        CreateZoneError::InvalidDomainName
    );
    assert_eq!(
        create_record_error_from_status(422, "x"),
        CreateRecordError::InvalidRecord
    );
    assert_eq!(
        delete_record_error_from_status(404, "x"),
        DeleteRecordError::NotFound
    );
}

#[test]
fn test_url_encode() {
    assert_eq!(url_encode("abc-XYZ_0.~"), "abc-XYZ_0.~");
    assert_eq!(url_encode("a b"), "a%20b");
    assert_eq!(url_encode("2001:db8::1"), "2001%3Adb8%3A%3A1");
    assert_eq!(url_encode("100%"), "100%25");
}

#[test]
fn test_record_data_shared_across_backends() {
    // One record model serves every backend: the same value parses the
    // same way wherever it came from.
    let data = RecordData::from_raw("TXT", "hello world");
    assert_eq!(data.get_value(), "hello world");
    assert_eq!(data.get_api_value(), "hello world");
}
