use std::time::Duration;

use jwksproxy::config::{parse_duration, Config, ConfigError, KeyAgeSetting};
use jwksproxy::text::{parse_u64, trim_whitespace, white_space};

fn string_setting(table: &toml::Table, name: &str) -> Option<String> {
    table.get(name).and_then(|value| value.as_str()).map(String::from)
}

/// Reads a configuration file the way the service does: each setting that
/// is present is handed over, the rest are left to the defaults.
fn config_from_toml(text: &str) -> Result<Config, ConfigError> {
    let table: toml::Table = toml::from_str(text).unwrap();
    let max_key_age = table.get("max_key_age").map(|value| match value {
        toml::Value::Integer(secs) => KeyAgeSetting::Seconds(u64::try_from(*secs).unwrap()),
        toml::Value::String(text) => KeyAgeSetting::Text(text.clone()),
        other => panic!("unexpected max_key_age {other:?}"),
    });
    Config::from_settings(
        string_setting(&table, "bind_address"),
        string_setting(&table, "origin"),
        string_setting(&table, "kubernetes_api_endpoint")
            .or_else(|| string_setting(&table, "kubernets_api_endpoint")),
        max_key_age,
        table.get("emit_x5c").and_then(|value| value.as_bool()),
    )
}

#[test]
fn parses_minimal_config() {
    let config: Config = config_from_toml("").unwrap();

    config.validate().unwrap();
    assert_eq!(config.bind_address, "0.0.0.0:8080");
    assert_eq!(config.origin, "localhost:8080");
    assert_eq!(config.issuer(), "https://localhost:8080");
    assert_eq!(config.jwks_uri(), "https://localhost:8080/jwks.json");
    assert_eq!(config.kubernetes_api_endpoint, "kubernetes.default.svc");
    assert_eq!(
        config.cluster_openid_config_endpoint(),
        "https://kubernetes.default.svc/.well-known/openid-configuration"
    );
    assert_eq!(Duration::from_secs(config.max_key_age_secs), Duration::from_secs(3600));
}

#[test]
fn derives_cluster_openid_config_endpoint_from_kubernetes_api_endpoint() {
    let config: Config = config_from_toml(
        r#"
kubernetes_api_endpoint = "api.example.com:6443"
"#,
    )
    .unwrap();

    config.validate().unwrap();
    assert_eq!(
        config.cluster_openid_config_endpoint(),
        "https://api.example.com:6443/.well-known/openid-configuration"
    );
}

#[test]
fn rejects_kubernetes_api_endpoint_with_scheme() {
    let config: Config = config_from_toml(
        r#"
kubernetes_api_endpoint = "https://api.example.com:6443"
"#,
    )
    .unwrap();

    let error = config.validate().unwrap_err();
    assert_eq!(
        error.message(),
        "kubernetes_api_endpoint must be a host name, optionally with a port"
    );
}

#[test]
fn derives_jwks_uri_from_origin() {
    let config: Config = config_from_toml(
        r#"
origin = "issuer.example.com"
"#,
    )
    .unwrap();

    config.validate().unwrap();
    assert_eq!(config.jwks_uri(), "https://issuer.example.com/jwks.json");
}

#[test]
fn derives_issuer_from_origin() {
    let config: Config = config_from_toml(
        r#"
origin = "issuer.example.com"
"#,
    )
    .unwrap();

    config.validate().unwrap();
    assert_eq!(config.issuer(), "https://issuer.example.com");
}

#[test]
fn rejects_origin_with_scheme() {
    let config: Config = config_from_toml(
        r#"
origin = "https://issuer.example.com"
"#,
    )
    .unwrap();

    let error = config.validate().unwrap_err();
    assert_eq!(error.message(), "origin must be a host name, optionally with a port");
}

#[test]
fn parses_max_key_age_duration() {
    let config: Config = config_from_toml(
        r#"
max_key_age = "15m"
"#,
    )
    .unwrap();

    config.validate().unwrap();
    assert_eq!(Duration::from_secs(config.max_key_age_secs), Duration::from_secs(15 * 60));
}

#[test]
fn rejects_zero_max_key_age() {
    let config: Config = config_from_toml(
        r#"
max_key_age = "0s"
"#,
    )
    .unwrap();

    let error = config.validate().unwrap_err();
    assert_eq!(error.message(), "max_key_age must be greater than zero");
}

fn settings(
    bind_address: &str,
    origin: &str,
    kubernetes_api_endpoint: &str,
    max_key_age_secs: u64,
) -> Config {
    Config::from_settings(
        Some(bind_address.to_string()),
        Some(origin.to_string()),
        Some(kubernetes_api_endpoint.to_string()),
        Some(KeyAgeSetting::Seconds(max_key_age_secs)),
        None,
    )
    .unwrap()
}

#[test]
fn accepts_integer_seconds_for_max_key_age() {
    let config = config_from_toml("max_key_age = 90\n").unwrap();
    assert_eq!(config.max_key_age_secs, 90);
    config.validate().unwrap();
}

#[test]
fn accepts_the_misspelled_endpoint_name() {
    let config = config_from_toml("kubernets_api_endpoint = \"api.internal:443\"\n").unwrap();
    assert_eq!(config.kubernetes_api_endpoint, "api.internal:443");
}

#[test]
fn emit_x5c_defaults_to_false() {
    assert!(!config_from_toml("").unwrap().emit_x5c);
    assert!(config_from_toml("emit_x5c = true\n").unwrap().emit_x5c);
}

#[test]
fn rejects_each_broken_rule_with_its_message() {
    let cases = [
        (settings("", "a", "b", 1), "bind_address must not be empty"),
        (settings("x", "", "b", 1), "origin must not be empty"),
        (settings("x", "a/b", "b", 1), "origin must be a host name, optionally with a port"),
        (settings("x", "a?b", "b", 1), "origin must be a host name, optionally with a port"),
        (settings("x", "a#b", "b", 1), "origin must be a host name, optionally with a port"),
        (settings("x", "a", "", 1), "kubernetes_api_endpoint must not be empty"),
        (settings("x", "a", "b", 0), "max_key_age must be greater than zero"),
        (
            settings("x", "a", "b/c", 1),
            "kubernetes_api_endpoint must be a host name, optionally with a port",
        ),
    ];
    for (config, message) in cases {
        assert_eq!(config.validate().unwrap_err().message(), message);
    }
}

#[test]
fn checks_rules_in_order() {
    // An empty origin is reported before the zero key age and the bad endpoint.
    let config = settings("x", "", "http://b", 0);
    assert!(matches!(config.validate(), Err(ConfigError::EmptyOrigin)));
    let config = settings("x", "a", "http://b", 0);
    assert!(matches!(config.validate(), Err(ConfigError::ZeroMaxKeyAge)));
}

#[test]
fn default_settings_validate() {
    let config = Config::from_settings(None, None, None, None, None).unwrap();
    assert!(config.validate().is_ok());
    assert_eq!(config.max_key_age_secs, 3600);
}

#[test]
fn jwks_uri_extends_issuer() {
    let config = settings("x", "keys.example.org:8443", "b", 1);
    assert_eq!(config.jwks_uri(), format!("{}/jwks.json", config.issuer()));
}

#[test]
fn discovery_document_carries_identity_provider_metadata() {
    let config = settings("x", "keys.example.org", "b", 1);
    let document = config.openid_configuration();
    assert_eq!(document.issuer, "https://keys.example.org");
    assert_eq!(document.jwks_uri, "https://keys.example.org/jwks.json");
    assert_eq!(document.response_types_supported, vec!["id_token".to_string()]);
    assert_eq!(document.subject_types_supported, vec!["public".to_string()]);
    assert_eq!(document.id_token_signing_alg_values_supported, vec!["RS256".to_string()]);
}

#[test]
fn parses_duration_units() {
    assert_eq!(parse_duration("45").unwrap(), 45);
    assert_eq!(parse_duration("45s").unwrap(), 45);
    assert_eq!(parse_duration("15m").unwrap(), 900);
    assert_eq!(parse_duration("2h").unwrap(), 7200);
    assert_eq!(parse_duration("1d").unwrap(), 86400);
    assert_eq!(parse_duration("+3m").unwrap(), 180);
    assert_eq!(parse_duration("007s").unwrap(), 7);
}

#[test]
fn duration_ignores_surrounding_whitespace() {
    assert_eq!(parse_duration(" \t2h\n").unwrap(), parse_duration("2h").unwrap());
    assert_eq!(
        parse_duration("  1w ").unwrap_err().message(),
        parse_duration("1w").unwrap_err().message()
    );
}

#[test]
fn reports_duration_faults() {
    assert_eq!(parse_duration("abc").unwrap_err().message(), "invalid duration 'abc'");
    assert_eq!(parse_duration("").unwrap_err().message(), "invalid duration ''");
    assert_eq!(parse_duration("1 m").unwrap_err().message(), "invalid duration '1 m'");
    assert_eq!(parse_duration("-5s").unwrap_err().message(), "invalid duration '-5s'");
    assert_eq!(
        parse_duration(" 10min ").unwrap_err().message(),
        "unsupported duration unit 'min' in '10min'"
    );
    assert_eq!(
        parse_duration("18446744073709551615d").unwrap_err().message(),
        "duration '18446744073709551615d' is too large"
    );
    assert_eq!(
        parse_duration("18446744073709551616").unwrap_err().message(),
        "invalid duration '18446744073709551616'"
    );
    assert_eq!(parse_duration("18446744073709551615").unwrap(), u64::MAX);
}

#[test]
fn parse_u64_agrees_with_the_standard_parser() {
    let samples = [
        "", "+", "-", "0", "+0", "-0", "42", "+42", "-42", "007", " 1", "1 ", "1_000", "٣",
        "18446744073709551615", "18446744073709551616", "99999999999999999999999",
    ];
    for sample in samples {
        assert_eq!(parse_u64(sample), sample.parse::<u64>().ok(), "{sample:?}");
    }
}

#[test]
fn white_space_agrees_with_the_standard_library() {
    for code in 0..=0x10FFFFu32 {
        if let Some(c) = char::from_u32(code) {
            assert_eq!(white_space(c), c.is_whitespace(), "{code:#x}");
        }
    }
}

#[test]
fn trims_like_the_standard_library() {
    for sample in ["", "  ", " a ", "\u{3000}b\u{2029}", "\ta b\n", "x"] {
        assert_eq!(trim_whitespace(sample), sample.trim());
    }
}
