//! Tests for the text utilities, address handling and configuration.

use mayl::addr::extract_domain_from_addr;
use mayl::addr::extract_token;
use mayl::config::env_or;
use mayl::config::env_parse_u16;
use mayl::config::env_parse_u64;
use mayl::config::split_commas;
use mayl::config::Config;
use mayl::text::parse_u64;
use mayl::text::str_lt;
use mayl::text::trim;
use mayl::trusted::now_millis;

#[test]
fn test_env_helpers() {
    let env: Vec<(String, String)> = Vec::new();
    assert_eq!(env_or(&env, "MAYL_TEST_NONEXISTENT_KEY", "fallback"), "fallback");
    assert_eq!(env_parse_u16(&env, "MAYL_TEST_NONEXISTENT_KEY", 42), 42);
}

#[test]
fn test_extract_domain_from_addr() {
    assert_eq!(
        extract_domain_from_addr("user@example.com"),
        Some("example.com".into())
    );
    assert_eq!(
        extract_domain_from_addr("Name <user@example.com>"),
        Some("example.com".into())
    );
    assert_eq!(
        extract_domain_from_addr("User <USER@Example.COM>"),
        Some("example.com".into())
    );
    assert_eq!(extract_domain_from_addr("nope"), None);
}

#[test]
fn test_extract_token() {
    assert!(extract_token(None).is_none());
    assert_eq!(extract_token(Some("Bearer my-token")).unwrap(), "my-token");
    assert_eq!(extract_token(Some("raw-token")).unwrap(), "raw-token");
}

#[test]
fn extract_token_requires_exact_prefix() {
    // a value that merely starts with the word is kept whole
    assert_eq!(extract_token(Some("Bearerx")).unwrap(), "Bearerx");
    assert_eq!(extract_token(Some("Bearer ")).unwrap(), "");
    assert_eq!(extract_token(Some("")).unwrap(), "");
}

#[test]
fn test_now_millis() {
    let ms = now_millis();
    assert!(ms > 1_700_000_000_000);
}

#[test]
fn extract_domain_edge_cases() {
    assert_eq!(extract_domain_from_addr("Name <broken"), None);
    assert_eq!(extract_domain_from_addr("a@b@c"), Some("b".into()));
    assert_eq!(extract_domain_from_addr(""), None);
}

#[test]
fn parse_u64_cases() {
    assert_eq!(parse_u64("0"), Some(0));
    assert_eq!(parse_u64("42"), Some(42));
    assert_eq!(parse_u64("+42"), Some(42));
    assert_eq!(parse_u64("18446744073709551615"), Some(u64::MAX));
    assert_eq!(parse_u64("18446744073709551616"), None);
    assert_eq!(parse_u64(""), None);
    assert_eq!(parse_u64("+"), None);
    assert_eq!(parse_u64("12a"), None);
    assert_eq!(parse_u64("-1"), None);
}

#[test]
fn trim_and_compare() {
    assert_eq!(trim("  example.com \t"), "example.com");
    assert_eq!(trim(""), "");
    assert_eq!(trim(" \n "), "");
    assert!(str_lt("alpha.org", "beta.org"));
    assert!(!str_lt("beta.org", "alpha.org"));
    assert!(!str_lt("beta.org", "beta.org"));
    assert!(str_lt("a", "ab"));
}

#[test]
fn split_commas_trims_entries() {
    let parts = split_commas(" a.com , b.org ,, c.net");
    assert_eq!(parts, vec!["a.com", "b.org", "", "c.net"]);
}

#[test]
fn config_load_defaults_and_overrides() {
    let empty: Vec<(String, String)> = Vec::new();
    let c = Config::load(&empty);
    assert_eq!(c.smtp_host, "localhost");
    assert_eq!(c.smtp_port, 1025);
    assert_eq!(c.server_host, "0.0.0.0");
    assert_eq!(c.server_port, 8080);
    assert_eq!(c.queue_poll_seconds, 5);
    assert_eq!(c.archive_max_rows, 100_000);
    assert_eq!(c.archive_cull_interval_seconds, 600);
    assert_eq!(c.db_path, "mayl.db");
    assert!(c.seed_domains.is_empty());

    let env: Vec<(String, String)> = vec![
        ("MAYL_SMTP_HOST".to_string(), "smtp.test".to_string()),
        ("MAYL_SMTP_PORT".to_string(), "2525".to_string()),
        ("MAYL_SERVER_PORT".to_string(), "70000".to_string()),
        ("MAYL_ARCHIVE_MAX_ROWS".to_string(), "2".to_string()),
        ("MAYL_DOMAINS".to_string(), "a.com, b.org".to_string()),
    ];
    let c = Config::load(&env);
    assert_eq!(c.smtp_host, "smtp.test");
    assert_eq!(c.smtp_port, 2525);
    // a value that does not fit in a port number falls back to the default
    assert_eq!(c.server_port, 8080);
    assert_eq!(c.archive_max_rows, 2);
    assert_eq!(c.seed_domains, vec!["a.com", "b.org"]);
}

#[test]
fn env_parse_u64_falls_back_on_garbage() {
    let env: Vec<(String, String)> = vec![
        ("K".to_string(), "not-a-number".to_string()),
        ("N".to_string(), "7".to_string()),
    ];
    assert_eq!(env_parse_u64(&env, "K", 9), 9);
    assert_eq!(env_parse_u64(&env, "N", 9), 7);
}
