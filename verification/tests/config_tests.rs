use solraiser::api::{health_response, page_is_empty, PaginationParams};
use solraiser::config::{parse_u16_str, parse_u64_str, resolve_start_slot, Config, ConfigError};
use solraiser::error::{validate_transaction_signature, AppError};

#[test]
fn parse_u64_accepts_plain_and_signed_decimals() {
    assert_eq!(parse_u64_str("123"), Some(123));
    assert_eq!(parse_u64_str("+42"), Some(42));
    assert_eq!(parse_u64_str("0"), Some(0));
    assert_eq!(parse_u64_str("18446744073709551615"), Some(u64::MAX));
}

#[test]
fn parse_u64_rejects_malformed_and_out_of_range_input() {
    assert_eq!(parse_u64_str(""), None);
    assert_eq!(parse_u64_str("+"), None);
    assert_eq!(parse_u64_str("-1"), None);
    assert_eq!(parse_u64_str("12a"), None);
    assert_eq!(parse_u64_str(" 12"), None);
    assert_eq!(parse_u64_str("18446744073709551616"), None);
    assert_eq!(parse_u64_str("99999999999999999999999"), None);
}

#[test]
fn parse_u16_bounds_the_port_range() {
    assert_eq!(parse_u16_str("5000"), Some(5000));
    assert_eq!(parse_u16_str("0"), Some(0));
    assert_eq!(parse_u16_str("65535"), Some(65535));
    assert_eq!(parse_u16_str("65536"), None);
    assert_eq!(parse_u16_str("port"), None);
}

#[test]
fn config_requires_the_database_url() {
    let r = Config::build(None, None, None, None, None, None);
    assert!(matches!(r, Err(ConfigError::MissingDatabaseUrl)));
}

#[test]
fn config_applies_defaults_for_absent_settings() {
    let c = Config::build(
        Some("postgres://localhost/solraiser".to_string()),
        None,
        None,
        None,
        None,
        None,
    )
    .expect("a database URL alone suffices");
    assert_eq!(c.database_url, "postgres://localhost/solraiser");
    assert_eq!(c.solana_rpc_url, "https://api.mainnet-beta.solana.com");
    assert_eq!(c.server_host, "0.0.0.0");
    assert_eq!(c.server_port, 5000);
    assert_eq!(c.program_id, "62NbBCCxPfR83xtgw3AaxKGHyyDdxobrcCGzA7s7LFie");
    assert_eq!(c.start_slot, None);
}

#[test]
fn config_takes_explicit_settings_over_defaults() {
    let c = Config::build(
        Some("postgres://db".to_string()),
        Some("https://rpc.example".to_string()),
        Some("127.0.0.1".to_string()),
        Some("8080".to_string()),
        Some("MyProgram1111111111111111111111111111111111".to_string()),
        Some("123456".to_string()),
    )
    .unwrap();
    assert_eq!(c.solana_rpc_url, "https://rpc.example");
    assert_eq!(c.server_host, "127.0.0.1");
    assert_eq!(c.server_port, 8080);
    assert_eq!(c.program_id, "MyProgram1111111111111111111111111111111111");
    assert_eq!(c.start_slot, Some(123456));
}

#[test]
fn config_rejects_an_invalid_port() {
    let r = Config::build(
        Some("postgres://db".to_string()),
        None,
        None,
        Some("not-a-port".to_string()),
        None,
        None,
    );
    assert!(matches!(r, Err(ConfigError::InvalidServerPort)));
}

#[test]
fn config_ignores_an_unparsable_start_slot() {
    let c = Config::build(
        Some("postgres://db".to_string()),
        None,
        None,
        None,
        None,
        Some("soon".to_string()),
    )
    .unwrap();
    assert_eq!(c.start_slot, None);
}

#[test]
fn start_slot_resolution_prefers_config_then_store_then_zero() {
    assert_eq!(resolve_start_slot(Some(77), Some(200)), 77);
    assert_eq!(resolve_start_slot(None, Some(200)), 200);
    assert_eq!(resolve_start_slot(None, None), 0);
}

#[test]
fn empty_signature_is_a_bad_request() {
    match validate_transaction_signature(&String::new()) {
        Err(AppError::BadRequest(m)) => {
            assert_eq!(m, "Transaction signature cannot be empty")
        }
        _ => panic!("an empty signature must be rejected as a bad request"),
    }
    assert!(validate_transaction_signature(&"5igNature".to_string()).is_ok());
}

#[test]
fn error_status_codes_follow_the_taxonomy() {
    let bad = AppError::BadRequest("x".to_string());
    let server = AppError::InternalServerError("y".to_string());
    assert_eq!(bad.status_code(), 400);
    assert_eq!(server.status_code(), 500);
    assert_eq!(bad.message().as_str(), "x");
}

#[test]
fn health_answer_is_healthy_with_the_given_stamp() {
    let h = health_response(1_700_000_000);
    assert_eq!(h.status, "healthy");
    assert_eq!(h.timestamp, 1_700_000_000);
}

#[test]
fn empty_pages_are_reported_as_such() {
    assert!(page_is_empty(0));
    assert!(!page_is_empty(3));
    let p = PaginationParams { limit: 10, offset: 20 };
    assert_eq!(p.limit, 10);
    assert_eq!(p.offset, 20);
}
