use webgateway::dashboard::response::AppError;
use webgateway::dnsprovider::base::BaseRecord;
use webgateway::dnsprovider::dnspod::{DNSPod, DNSPodRecord, DEFAULT_USER_AGENT};
use webgateway::shared::default::{
    default_dashboard_api_port, default_dashboard_database_max_connections,
    default_website_config_timeout,
};
use webgateway::shared::logger::{Level, LoggerConfig};
use webgateway::shared::mnt_protocols::MNT_PATH;
use webgateway::shared::models::dns::{
    DNSProviderKind, DNSProviderTencentConfig, DNSProviderType as ApiProviderType,
};
use webgateway::shared::models::dnsprovider::{
    DNSProviderType, DatabaseDNSProviderKind, DatabaseDNSProviderTencent,
};
use webgateway::shared::models::websites::{DatabaseWebsiteConfig, DatabaseWebsiteRequestIp};

#[test]
fn defaults() {
    assert_eq!(default_website_config_timeout(), 10);
    assert_eq!(default_dashboard_api_port(), 3000);
    assert_eq!(default_dashboard_database_max_connections(), 10);
    assert_eq!(DatabaseWebsiteRequestIp::default(), DatabaseWebsiteRequestIp::Raw);
    assert_eq!(DatabaseWebsiteConfig::default().get_request_ip, DatabaseWebsiteRequestIp::Raw);
    assert_eq!(MNT_PATH, "/tmp/webgateway-mnt.sock");
}

#[test]
fn logger_config_is_built_step_by_step() {
    let c = LoggerConfig::default();
    assert_eq!(c.level, Level::INFO);
    assert!(!c.file_log);
    assert_eq!(c.filename_suffix, "");
    assert_eq!(c.logs_dir, "./logs");
    let c = c
        .with_level(Level::DEBUG)
        .with_file_log(true)
        .with_filename_suffix("gateway")
        .with_logs_dir("/var/log/gw");
    assert_eq!(c.level, Level::DEBUG);
    assert!(c.file_log);
    assert_eq!(c.filename_suffix, "gateway");
    assert_eq!(c.logs_dir, "/var/log/gw");
    assert_eq!(c.file_suffix(), "gateway.log");
}

#[test]
fn provider_kinds_name_their_type() {
    let kind = DNSProviderKind::Tencent(DNSProviderTencentConfig {
        secret_id: "id".to_string(),
        secret_key: "key".to_string(),
    });
    assert_eq!(kind.get_type(), ApiProviderType::TENCENT);
    let kind = DatabaseDNSProviderKind::TENCENT(DatabaseDNSProviderTencent {
        secret_id: "AKIDexample".to_string(),
        secret_key: "0123456789".to_string(),
    });
    assert_eq!(kind.get_type(), DNSProviderType::TENCENT);
    assert_eq!(kind.get_type().name(), "TENCENT");
    match kind.remove_sensitive_info() {
        DatabaseDNSProviderKind::TENCENT(p) => {
            assert_eq!(p.secret_id, "AK*****le");
            assert_eq!(p.secret_key, "01****89");
        }
    }
}

#[test]
fn dnspod_client_and_record() {
    let c = DNSPod::new("kid", "s3cret");
    assert_eq!(c.key_id, "kid");
    assert_eq!(c.secret, "s3cret");
    assert_eq!(c.user_agent, DEFAULT_USER_AGENT);
    let c = DNSPod::new_with_user_agent("kid", "s3cret", "agent/1");
    assert_eq!(c.user_agent, "agent/1");
    let r = DNSPodRecord {
        id: 9,
        domain: "example.com".to_string(),
        hostname: "www".to_string(),
        record_type: "A".to_string(),
        record_value: "192.0.2.1".to_string(),
    };
    assert_eq!(r.id(), 9);
    assert_eq!(r.domain(), "example.com");
    assert_eq!(r.hostname(), "www");
    assert_eq!(r.record_type(), "A");
    assert_eq!(r.record_value(), "192.0.2.1");
}

#[test]
fn errors_have_their_status_and_message() {
    let cases = [
        (AppError::BadRequest("no".to_string()), 400, "no"),
        (AppError::Unauthorized, 401, "Unauthorized"),
        (AppError::Forbidden, 403, "Forbidden"),
        (AppError::NotFound("gone".to_string()), 404, "gone"),
        (AppError::Internal("db down".to_string()), 500, "Internal server error: db down"),
    ];
    for (e, status, message) in cases {
        assert_eq!(e.status(), status);
        assert_eq!(e.message(), message);
    }
}
