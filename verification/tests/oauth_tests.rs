use anchor::{build_authorization_url, join_scopes, normalize_code, Config, ConfigError};

fn key() -> Vec<u8> {
    vec![7u8; 64]
}

fn config() -> Config {
    Config::new(
        "my-client-id".to_string(),
        "my-client-secret".to_string(),
        Some("https://example.net/callback".to_string()),
        key(),
    )
    .unwrap()
}

#[test]
fn normalize_code_strips_surrounding_whitespace() {
    assert_eq!(normalize_code("abc123 \n"), "abc123");
    assert_eq!(normalize_code("\t abc123"), "abc123");
    assert_eq!(normalize_code("abc123"), "abc123");
}

#[test]
fn normalize_code_keeps_inner_whitespace() {
    assert_eq!(normalize_code(" a b "), "a b");
}

#[test]
fn normalize_code_of_blank_is_empty() {
    assert_eq!(normalize_code(""), "");
    assert_eq!(normalize_code(" \r\n\t "), "");
}

#[test]
fn join_scopes_uses_commas_in_order() {
    let scopes = vec!["write:repo_hook".to_string(), "public_repo".to_string()];
    assert_eq!(join_scopes(&scopes), "write:repo_hook,public_repo");
    assert_eq!(join_scopes(&vec!["public_repo".to_string()]), "public_repo");
    assert_eq!(join_scopes(&Vec::new()), "");
}

#[test]
fn config_requires_client_id() {
    let r = Config::new(String::new(), "s".to_string(), None, key());
    assert!(matches!(r, Err(ConfigError::MissingClientId)));
}

#[test]
fn config_requires_client_secret() {
    let r = Config::new("id".to_string(), String::new(), None, key());
    assert!(matches!(r, Err(ConfigError::MissingClientSecret)));
}

#[test]
fn config_requires_long_signing_key() {
    let r = Config::new("id".to_string(), "s".to_string(), None, vec![7u8; 63]);
    assert!(matches!(r, Err(ConfigError::SigningKeyTooShort)));
}

#[test]
fn config_accepts_full_settings() {
    let c = config();
    assert_eq!(c.client_id, "my-client-id");
    assert_eq!(c.redirect_uri.as_deref(), Some("https://example.net/callback"));
}

#[test]
fn authorization_url_carries_the_request() {
    let scopes = vec!["write:repo_hook".to_string(), "public_repo".to_string()];
    let url = build_authorization_url(&config(), &scopes).unwrap();
    assert!(url.starts_with("https://github.com/login/oauth/authorize?"));
    assert!(url.contains("response_type=code"));
    assert!(url.contains("client_id=my-client-id"));
    assert!(url.contains("redirect_uri=https%3A%2F%2Fexample.net%2Fcallback"));
    assert!(url.contains("scope=write%3Arepo_hook%2Cpublic_repo"));
}

#[test]
fn authorization_url_without_client_id_is_refused() {
    let c = Config {
        client_id: String::new(),
        client_secret: "s".to_string(),
        redirect_uri: None,
        signing_key: key(),
    };
    let r = build_authorization_url(&c, &vec!["public_repo".to_string()]);
    assert!(matches!(r, Err(ConfigError::MissingClientId)));
}
