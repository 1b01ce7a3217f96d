use fluxgate::config::{load_config, parse_port, split_downstream_urls, ConfigError, Settings};
use fluxgate::text::{remove_all, same_text, starts_with, trim, trim_end_matches_char, trim_start_matches};

#[test]
fn ports_parse_like_u16_from_str() {
    assert_eq!(parse_port("8443"), Some(8443));
    assert_eq!(parse_port("+80"), Some(80));
    assert_eq!(parse_port("0065535"), Some(65535));
    assert_eq!(parse_port("65536"), None);
    assert_eq!(parse_port("99999999999999999999"), None);
    assert_eq!(parse_port(""), None);
    assert_eq!(parse_port("+"), None);
    assert_eq!(parse_port("-1"), None);
    assert_eq!(parse_port(" 80"), None);
    assert_eq!(parse_port("8a"), None);
    for s in ["0", "1", "443", "+0", "65535", "++1", "1+"] {
        assert_eq!(parse_port(s), s.parse::<u16>().ok());
    }
}

#[test]
fn downstream_list_is_split_and_trimmed() {
    assert_eq!(split_downstream_urls(" http://a , http://b,,c "), vec!["http://a", "http://b", "", "c"]);
    assert_eq!(split_downstream_urls(""), vec![""]);
    assert_eq!(split_downstream_urls(","), vec!["", ""]);
}

fn full() -> Settings {
    Settings {
        redis_url: Some("redis://r".to_string()),
        database_url: Some("postgres://d".to_string()),
        tls_cert_path: Some("c.pem".to_string()),
        tls_key_path: Some("k.pem".to_string()),
        public_port: None,
        admin_port: None,
        downstream_ai_urls: Some("http://x".to_string()),
        cluster_domain: None,
    }
}

#[test]
fn defaults_fill_optional_settings() {
    let c = load_config(full()).unwrap();
    assert_eq!(c.public_port, 8443);
    assert_eq!(c.admin_port, 9090);
    assert_eq!(c.cluster_domain, "api.fluxgate.local");
    assert_eq!(c.downstream_urls, vec!["http://x"]);
    assert_eq!(c.redis_url, "redis://r");
}

#[test]
fn required_settings_are_checked_in_order() {
    let mut s = full();
    s.redis_url = None;
    s.database_url = None;
    assert_eq!(load_config(s).unwrap_err(), ConfigError::MissingRedisUrl);
    let mut s = full();
    s.database_url = None;
    assert_eq!(load_config(s).unwrap_err(), ConfigError::MissingDatabaseUrl);
    let mut s = full();
    s.tls_cert_path = None;
    assert_eq!(load_config(s).unwrap_err(), ConfigError::MissingTlsCertPath);
    let mut s = full();
    s.tls_key_path = None;
    assert_eq!(load_config(s).unwrap_err(), ConfigError::MissingTlsKeyPath);
    let mut s = full();
    s.public_port = Some("http".to_string());
    assert_eq!(load_config(s).unwrap_err(), ConfigError::InvalidPublicPort);
    let mut s = full();
    s.admin_port = Some("70000".to_string());
    assert_eq!(load_config(s).unwrap_err(), ConfigError::InvalidAdminPort);
    let mut s = full();
    s.downstream_ai_urls = None;
    assert_eq!(load_config(s).unwrap_err(), ConfigError::MissingDownstreamUrls);
    assert_eq!(ConfigError::MissingRedisUrl.message(), "Missing REDIS_URL");
    assert_eq!(ConfigError::MissingDownstreamUrls.message(), "Missing DOWNSTREAM_AI_URLS");
}

#[test]
fn explicit_settings_are_used() {
    let mut s = full();
    s.public_port = Some("443".to_string());
    s.admin_port = Some("+9000".to_string());
    s.cluster_domain = Some("gw.internal".to_string());
    s.downstream_ai_urls = Some("a, b".to_string());
    let c = load_config(s).unwrap();
    assert_eq!((c.public_port, c.admin_port), (443, 9000));
    assert_eq!(c.cluster_domain, "gw.internal");
    assert_eq!(c.downstream_urls, vec!["a", "b"]);
}

#[test]
fn text_helpers_match_std() {
    for s in ["", "  a b  ", "\u{2003}x\u{85}", "\t\n", "abc", " \u{200b}x"] {
        assert_eq!(trim(s), s.trim());
    }
    assert_eq!(trim_start_matches("ababc", "ab"), "ababc".trim_start_matches("ab"));
    assert_eq!(trim_end_matches_char("a.b..", '.'), "a.b");
    assert_eq!(remove_all("xaxbx", "x"), "xaxbx".replace("x", ""));
    assert_eq!(remove_all("aaa", "aa"), "aaa".replace("aa", ""));
    assert!(starts_with("héllo", "hé"));
    assert!(!starts_with("h", "hé"));
    assert!(same_text("é", "é"));
    assert!(!same_text("e", "é"));
}
