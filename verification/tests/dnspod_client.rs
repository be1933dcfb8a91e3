use ring::{digest, hmac};
use webgateway::dnsprovider::dnspod::{
    authorization, canonical_request, error_message, find_record, plan_modify, same_text,
    string_to_sign, timestamp_text, DNSPod, DNSPodRecord, ModifyPlan,
};
use webgateway::utils::bytes_to_hex;

fn record(id: u64, hostname: &str, record_type: &str, value: &str) -> DNSPodRecord {
    DNSPodRecord {
        id,
        domain: "example.com".to_string(),
        hostname: hostname.to_string(),
        record_type: record_type.to_string(),
        record_value: value.to_string(),
    }
}

fn records() -> Vec<DNSPodRecord> {
    vec![
        record(1, "www", "A", "192.0.2.1"),
        record(2, "www", "AAAA", "2001:db8::1"),
        record(3, "_acme-challenge", "TXT", "token"),
        record(4, "www", "A", "192.0.2.2"),
    ]
}

#[test]
fn texts_are_compared() {
    assert!(same_text("", ""));
    assert!(same_text("www", "www"));
    assert!(!same_text("www", "wwx"));
    assert!(!same_text("www", "ww"));
    assert!(same_text("\u{9ed8}\u{8ba4}", "\u{9ed8}\u{8ba4}"));
}

#[test]
fn first_record_of_host_and_type_is_found() {
    let list = records();
    assert_eq!(find_record(&list, "www", "A"), Some(0));
    assert_eq!(find_record(&list, "www", "AAAA"), Some(1));
    assert_eq!(find_record(&list, "_acme-challenge", "TXT"), Some(2));
    assert_eq!(find_record(&list, "www", "TXT"), None);
    assert_eq!(find_record(&list, "mail", "A"), None);
    assert_eq!(find_record(&Vec::new(), "www", "A"), None);
}

#[test]
fn modification_is_planned() {
    let list = records();
    assert_eq!(plan_modify(&list, "www", "A", "192.0.2.1"), ModifyPlan::Unchanged(0));
    assert_eq!(plan_modify(&list, "www", "A", "192.0.2.2"), ModifyPlan::Modify(0));
    assert_eq!(plan_modify(&list, "_acme-challenge", "TXT", "other"), ModifyPlan::Modify(2));
    assert_eq!(plan_modify(&list, "mail", "MX", "x"), ModifyPlan::NotFound);
}

#[test]
fn error_of_the_service_is_written_out() {
    assert_eq!(
        error_message("req-1", "AuthFailure", "signature expired"),
        "Request id: req-1, error code: AuthFailure, message: signature expired"
    );
}

#[test]
fn seconds_are_written_in_decimal() {
    assert_eq!(timestamp_text(0), "0");
    assert_eq!(timestamp_text(7), "7");
    assert_eq!(timestamp_text(1431648000), "1431648000");
    assert_eq!(timestamp_text(-1), "-1");
    assert_eq!(timestamp_text(i64::MAX), "9223372036854775807");
    assert_eq!(timestamp_text(i64::MIN), "-9223372036854775808");
}

#[test]
fn parts_of_the_signature_are_laid_out() {
    assert_eq!(
        canonical_request("abc"),
        "POST\n/\n\ncontent-type:application/json\nhost:dnspod.tencentcloudapi.com\n\ncontent-type;host\nabc"
    );
    assert_eq!(
        string_to_sign(1431648000, "2015-05-15", "def"),
        "TC3-HMAC-SHA256\n1431648000\n2015-05-15/dnspod/tc3_request\ndef"
    );
    assert_eq!(
        authorization("kid", "2015-05-15", "0a"),
        "TC3-HMAC-SHA256 Credential=kid/2015-05-15/dnspod/tc3_request, SignedHeaders=content-type;host, Signature=0a"
    );
}

fn mac(key: &[u8], data: &[u8]) -> Vec<u8> {
    hmac::sign(&hmac::Key::new(hmac::HMAC_SHA256, key), data).as_ref().to_vec()
}

#[test]
fn request_is_signed_with_the_key_of_the_day() {
    let client = DNSPod::new("kid", "s3cret");
    let content = br#"{"Domain":"example.com"}"#;
    let value = client.authorize_on(1431648000, "2015-05-15", content).unwrap();

    let key = mac(&mac(&mac(b"TC3s3cret", b"2015-05-15"), b"dnspod"), b"tc3_request");
    let content_digest = bytes_to_hex(digest::digest(&digest::SHA256, content).as_ref());
    let request = canonical_request(&content_digest);
    let request_digest = bytes_to_hex(digest::digest(&digest::SHA256, request.as_bytes()).as_ref());
    let to_sign = string_to_sign(1431648000, "2015-05-15", &request_digest);
    let signature = bytes_to_hex(&mac(&key, to_sign.as_bytes()));
    assert_eq!(value, authorization("kid", "2015-05-15", &signature));
    assert_eq!(signature.len(), 64);
}

#[test]
fn digest_of_nothing_is_the_known_one() {
    // the signature of an empty request rests on the digest of no bytes
    let empty = bytes_to_hex(digest::digest(&digest::SHA256, b"").as_ref());
    assert_eq!(empty, "e3b0c44298fc1c149afbf4c8996fb92427ae41e4649b934ca495991b7852b855");
    let a = DNSPod::new("kid", "s3cret").authorize_on(0, "1970-01-01", b"").unwrap();
    let b = DNSPod::new("kid", "s3cret").authorize_on(0, "1970-01-01", b"x").unwrap();
    let c = DNSPod::new("kid", "other").authorize_on(0, "1970-01-01", b"").unwrap();
    assert_ne!(a, b);
    assert_ne!(a, c);
}

#[test]
fn date_of_the_moment_is_in_the_scope() {
    let client = DNSPod::new("kid", "s3cret");
    let value = client.authorize(1431648000, b"{}").unwrap();
    assert!(value.starts_with("TC3-HMAC-SHA256 Credential=kid/2015-05-15/dnspod/tc3_request, "));
    assert_eq!(Some(value), client.authorize_on(1431648000, "2015-05-15", b"{}"));
    let epoch = client.authorize(0, b"{}").unwrap();
    assert!(epoch.contains("Credential=kid/1970-01-01/"));
    // a moment that has no date
    assert_eq!(client.authorize(i64::MAX, b"{}"), None);
}
