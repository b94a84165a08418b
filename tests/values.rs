use std::collections::HashMap;

use cert_agent::config::Config;
use cert_agent::decimal::{parse_u64, to_decimal};
use cert_agent::error::CertAgentError;
use cert_agent::manager::renewal_plan;
use cert_agent::profile::{
    ca_subject_entries, leaf_serial, san_entries, subject_entries, IssuedCertificate, SanEntry,
};
use cert_agent::record::{
    event_payload, expiry_at, is_expiring, record_key, renewal_request, revoke_event_data, CertificateRecord,
    CertificateRequest, EVENT_CHANNEL, INDEX_KEY, RECORD_TTL_SECONDS,
};
use cert_agent::rpc::{is_watched, list_status_filter, renewal_validity, revoke_reply, status_reply};
use cert_agent::watcher::renewal_event;
use cert_agent::status::{cert_status_to_proto, proto_to_cert_status, CertStatus};

fn pairs(v: &[(&str, &str)]) -> Vec<(String, String)> {
    v.iter().map(|(k, x)| (k.to_string(), x.to_string())).collect()
}

fn rec(status: CertStatus, expires_at: i64) -> CertificateRecord {
    CertificateRecord {
        certificate_id: "id".to_string(),
        common_name: "cn".to_string(),
        dns_names: vec!["a".to_string()],
        ip_addresses: vec!["10.0.0.1".to_string()],
        status,
        expires_at,
        issued_at: 0,
        metadata: HashMap::new(),
    }
}

#[test]
fn status_codes() {
    assert_eq!(cert_status_to_proto("active"), 1);
    assert_eq!(cert_status_to_proto("expired"), 2);
    assert_eq!(cert_status_to_proto("revoked"), 3);
    assert_eq!(cert_status_to_proto("pending"), 4);
    assert_eq!(cert_status_to_proto(""), 0);
    assert_eq!(cert_status_to_proto("Active"), 0);
    assert_eq!(proto_to_cert_status(&1), "active");
    assert_eq!(proto_to_cert_status(&3), "revoked");
    assert_eq!(proto_to_cert_status(&4), "pending");
    assert_eq!(proto_to_cert_status(&9), "unspecified");
    for s in [CertStatus::Active, CertStatus::Expired, CertStatus::Revoked, CertStatus::Pending] {
        assert_eq!(CertStatus::parse(s.as_str()), Some(s));
    }
    assert_eq!(CertStatus::parse("gone"), None);
}

#[test]
fn event_texts() {
    assert_eq!(event_payload("issued", "abc"), "issued:abc");
    assert_eq!(record_key("abc"), "cert:abc");
    assert_eq!(INDEX_KEY, "certs:all");
    assert_eq!(EVENT_CHANNEL, "cert_events");
    assert_eq!(RECORD_TTL_SECONDS, 365 * 24 * 60 * 60);
    assert_eq!(revoke_event_data("abc", Some("why")), "abc:why");
    assert_eq!(revoke_event_data("abc", None), "abc");
    assert_eq!(
        CertAgentError::CertificateNotFound("x".to_string()).message(),
        "Certificate not found: x"
    );
}

#[test]
fn expiry_predicate() {
    let now = 1000;
    assert!(is_expiring(&rec(CertStatus::Active, now + 86400), now, 1));
    assert!(!is_expiring(&rec(CertStatus::Active, now + 86401), now, 1));
    assert!(!is_expiring(&rec(CertStatus::Active, now), now, 1));
    assert!(!is_expiring(&rec(CertStatus::Pending, now + 10), now, 1));
    assert!(is_expiring(&rec(CertStatus::Active, i64::MAX), i64::MIN + 1, u32::MAX) == false);
}

#[test]
fn config_defaults_and_layers() {
    let d = Config::load(&vec![]).unwrap();
    assert_eq!(d.grpc.bind_address, "0.0.0.0:50051");
    assert_eq!(d.grpc.max_message_size, 4194304);
    assert_eq!(d.redis.url, "redis://localhost:6379");
    assert_eq!(d.redis.max_connections, 10);
    assert_eq!(d.certificate.default_validity_days, 365);
    assert_eq!(d.certificate.renewal_threshold_days, 30);
    assert_eq!(d.certificate.key_size, 2048);
    assert_eq!(d.certificate.signature_algorithm, "sha256");
    assert_eq!(d.watcher.check_interval_seconds, 3600);
    assert_eq!(d.watcher.max_concurrent_renewals, 10);
    let c = Config::load(&pairs(&[
        ("redis.url", "redis://a:1"),
        ("watcher.max_concurrent_renewals", "2"),
        ("redis.url", "redis://b:2"),
        ("grpc.tls.cert_file", "c.pem"),
    ]))
    .unwrap();
    assert_eq!(c.redis.url, "redis://b:2");
    assert_eq!(c.watcher.max_concurrent_renewals, 2);
    let tls = c.grpc.tls.unwrap();
    assert_eq!(tls.cert_file, "c.pem");
    assert_eq!(tls.key_file, "");
}

#[test]
fn config_rejects_bad_settings() {
    assert!(matches!(Config::load(&pairs(&[("nope", "1")])), Err(CertAgentError::Config(_))));
    assert!(Config::load(&pairs(&[("redis.max_connections", "4294967296")])).is_err());
    assert!(Config::load(&pairs(&[("certificate.key_size", "12a")])).is_err());
    assert!(Config::load(&pairs(&[("certificate.key_size", "")])).is_err());
    assert_eq!(
        Config::load(&pairs(&[("redis.max_connections", "4294967295")])).unwrap().redis.max_connections,
        u32::MAX
    );
}

#[test]
fn decimal_text_and_parse() {
    assert_eq!(to_decimal(0), "0");
    assert_eq!(to_decimal(1234567), "1234567");
    assert_eq!(to_decimal(u64::MAX), "18446744073709551615");
    assert_eq!(parse_u64("18446744073709551615"), Some(u64::MAX));
    assert_eq!(parse_u64("18446744073709551616"), None);
    assert_eq!(parse_u64("007"), Some(7));
    assert_eq!(parse_u64("-1"), None);
}

#[test]
fn subject_and_sans() {
    let req = CertificateRequest {
        common_name: "svc".to_string(),
        dns_names: vec!["svc.test".to_string(), "*.svc.test".to_string()],
        ip_addresses: vec!["10.0.0.1".to_string()],
        validity_days: 30,
        organization: Some("Org".to_string()),
        organizational_unit: Some(String::new()),
        country: Some("US".to_string()),
        state: None,
        locality: Some("Town".to_string()),
        metadata: HashMap::new(),
    };
    let subject: Vec<(String, String)> =
        subject_entries(&req).into_iter().map(|e| (e.field, e.value)).collect();
    assert_eq!(subject, pairs(&[("CN", "svc"), ("O", "Org"), ("C", "US"), ("L", "Town")]));
    let sans = san_entries(&req.dns_names, &req.ip_addresses);
    let texts: Vec<String> = sans
        .into_iter()
        .map(|e| match e {
            SanEntry::Dns(s) => format!("DNS:{}", s),
            SanEntry::Ip(s) => format!("IP:{}", s),
        })
        .collect();
    assert_eq!(texts, vec!["DNS:svc.test", "DNS:*.svc.test", "IP:10.0.0.1"]);
    let ca: Vec<(String, String)> =
        ca_subject_entries().into_iter().map(|e| (e.field, e.value)).collect();
    assert_eq!(ca, pairs(&[("CN", "Cert Agent CA"), ("O", "Cert Agent"), ("C", "US")]));
    assert_eq!(leaf_serial(0), 1);
    assert_eq!(leaf_serial(77), 77);
}

#[test]
fn renewal_request_drops_subject_parts() {
    let r = rec(CertStatus::Active, 5);
    let req = renewal_request(&r, 9);
    assert_eq!(req.common_name, "cn");
    assert_eq!(req.dns_names, vec!["a".to_string()]);
    assert_eq!(req.validity_days, 9);
    assert!(req.organization.is_none() && req.locality.is_none());
    let issued = IssuedCertificate::from_record(&r, "C".to_string(), "K".to_string(), "CA".to_string());
    assert_eq!(issued.status, "active");
    assert_eq!(issued.expires_at, 5);
}

#[test]
fn rpc_helpers() {
    assert_eq!(renewal_validity(0), None);
    assert_eq!(renewal_validity(-3), None);
    assert_eq!(renewal_validity(12), Some(12));
    assert_eq!(list_status_filter(0), None);
    assert_eq!(list_status_filter(3), Some("revoked".to_string()));
    let ok = revoke_reply(&Ok(()));
    assert!(ok.success);
    assert_eq!(ok.message, "Certificate revoked successfully");
    let bad = revoke_reply(&Err(CertAgentError::Redis("down".to_string())));
    assert!(!bad.success);
    assert_eq!(bad.message, "Failed to revoke certificate: Redis error: down");
    let ids = vec!["a".to_string(), "b".to_string()];
    assert!(is_watched(&ids, "b"));
    assert!(!is_watched(&ids, "c"));
    assert!(is_watched(&vec![], "c"));
}

#[test]
fn renewal_plan_decisions() {
    assert!(matches!(renewal_plan(None, "x", None, 365), Err(CertAgentError::CertificateNotFound(_))));
    let expired = rec(CertStatus::Expired, 5);
    match renewal_plan(Some(&expired), "id", None, 365) {
        Err(CertAgentError::Certificate(m)) => assert_eq!(m, "Cannot renew certificate with status: expired"),
        _ => panic!("expected a status conflict"),
    }
    let active = rec(CertStatus::Active, 5);
    assert_eq!(renewal_plan(Some(&active), "id", None, 365).unwrap().validity_days, 365);
    let req = renewal_plan(Some(&active), "id", Some(10), 365).unwrap();
    assert_eq!(req.validity_days, 10);
    assert_eq!(req.ip_addresses, vec!["10.0.0.1".to_string()]);
}

#[test]
fn status_reply_and_expiry() {
    match status_reply(None, "abc") {
        Err(CertAgentError::CertificateNotFound(id)) => assert_eq!(id, "abc"),
        _ => panic!("expected not found"),
    }
    let r = status_reply(Some(rec(CertStatus::Active, 7)), "id").unwrap();
    assert_eq!(r.expires_at, 7);
    assert_eq!(expiry_at(100, 2).unwrap(), 100 + 2 * 86400);
    assert!(matches!(expiry_at(i64::MAX, 1), Err(CertAgentError::InvalidRequest(_))));
}

#[test]
fn renewal_event_texts() {
    let ok: Result<String, CertAgentError> = Ok("new".to_string());
    assert_eq!(renewal_event("old", &ok), ("auto_renewed".to_string(), "new".to_string()));
    let bad: Result<String, CertAgentError> = Err(CertAgentError::Redis("down".to_string()));
    assert_eq!(
        renewal_event("old", &bad),
        ("renewal_failed".to_string(), "old:Redis error: down".to_string())
    );
}
