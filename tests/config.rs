use kiro_rs::config::{
    default_export_format, default_system_version, parse_port, Config, EnvOverrides, ExportFormat,
    TlsBackend,
};
use kiro_rs::text::{contains_text, int_to_text, uint_to_text};

fn no_env() -> EnvOverrides {
    EnvOverrides {
        host: None,
        port: None,
        region: None,
        kiro_version: None,
        machine_id: None,
        api_key: None,
        system_version: None,
        node_version: None,
        count_tokens_api_url: None,
        count_tokens_api_key: None,
        count_tokens_auth_type: None,
        proxy_url: None,
        proxy_username: None,
        proxy_password: None,
        admin_api_key: None,
        database_url: None,
        fallback_database_url: None,
        tls_backend: None,
    }
}

#[test]
fn defaults() {
    let c = Config::default();
    assert_eq!(c.host, "0.0.0.0");
    assert_eq!(c.port, 8990);
    assert_eq!(c.region, "us-east-1");
    assert_eq!(c.kiro_version, "0.8.0");
    assert_eq!(c.node_version, "22.21.1");
    assert_eq!(c.api_key.as_deref(), Some("sk-kiro-rs-default-key"));
    assert_eq!(c.count_tokens_auth_type, "x-api-key");
    assert_eq!(c.tls_backend, TlsBackend::Rustls);
    assert!(c.database_url.is_none());
    assert!(c.system_version == "darwin#24.6.0" || c.system_version == "win32#10.0.22631");
    assert_eq!(Config::default_config_path(), "config.json");
    assert_eq!(default_export_format(), ExportFormat::Json);
    assert_eq!(TlsBackend::default(), TlsBackend::Rustls);
}

#[test]
fn system_version_is_one_of_two() {
    for _ in 0..50 {
        let v = default_system_version();
        assert!(v == "darwin#24.6.0" || v == "win32#10.0.22631");
    }
}

#[test]
fn ports_parse_like_std() {
    for s in ["8080", "+80", "0", "65535", "65536", "", "+", "8a", "-1", "99999999999", "007"] {
        assert_eq!(parse_port(s), s.parse::<u16>().ok(), "{}", s);
    }
}

#[test]
fn env_overrides_apply() {
    let mut c = Config::default();
    let mut env = no_env();
    env.host = Some("127.0.0.1".to_string());
    env.port = Some("9000".to_string());
    env.admin_api_key = Some("adm".to_string());
    env.fallback_database_url = Some("postgres://x".to_string());
    env.tls_backend = Some("native-tls".to_string());
    c.apply_env(env);
    assert_eq!(c.host, "127.0.0.1");
    assert_eq!(c.port, 9000);
    assert_eq!(c.admin_api_key.as_deref(), Some("adm"));
    assert_eq!(c.database_url.as_deref(), Some("postgres://x"));
    assert_eq!(c.tls_backend, TlsBackend::NativeTls);
    assert_eq!(c.region, "us-east-1");
}

#[test]
fn bad_env_values_are_ignored() {
    let mut c = Config::default();
    let mut env = no_env();
    env.port = Some("http".to_string());
    env.tls_backend = Some("openssl".to_string());
    env.database_url = Some("postgres://a".to_string());
    env.fallback_database_url = Some("postgres://b".to_string());
    c.apply_env(env);
    assert_eq!(c.port, 8990);
    assert_eq!(c.tls_backend, TlsBackend::Rustls);
    assert_eq!(c.database_url.as_deref(), Some("postgres://a"));
}

#[test]
fn integers_as_text() {
    assert_eq!(int_to_text(0), "0");
    assert_eq!(int_to_text(-42), "-42");
    assert_eq!(int_to_text(i64::MIN), i64::MIN.to_string());
    assert_eq!(uint_to_text(u64::MAX), u64::MAX.to_string());
}

#[test]
fn substring_search() {
    assert!(contains_text("凭据不存在: 3", "不存在"));
    assert!(contains_text("abc", ""));
    assert!(!contains_text("ab", "abc"));
    assert!(!contains_text("timeou", "timeout"));
}
