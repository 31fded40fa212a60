use sol_usd_minter::address::Address;
use sol_usd_minter::config::{
    expand_home, Config, ConfigError, EnvValues, EnvVar, PriceSource, TokenCreatedLog,
    DEFAULT_PRICE_API_URL, DEFAULT_PRICE_POLL_INTERVAL_SEC,
};
use sol_usd_minter::minter::TokenCreated;
use solana_pubkey::Pubkey;

const ORACLE_PROGRAM: &str = "24UJLhNSDEwFrziTkshg6Rt18K7H3RczKXR8fNpQ8xa3";
const MINTER_PROGRAM: &str = "DXm5uV6Zh3HZshCSUtfoodGDuyDrKnzmP3Nq29PTmYrU";
const ORACLE_STATE: &str = "2qTPCfB4yVywxyVWbsR4LxmgZSschrBVMre5kfeLRSxv";

fn full_values() -> EnvValues {
    EnvValues {
        solana_rpc_http: Some("http://localhost:8899".to_string()),
        solana_rpc_ws: Some("ws://localhost:8900".to_string()),
        oracle_program_id: Some(ORACLE_PROGRAM.to_string()),
        oracle_state_pubkey: Some(ORACLE_STATE.to_string()),
        minter_program_id: Some(MINTER_PROGRAM.to_string()),
        backend_keypair_path: Some("~/.config/solana/id.json".to_string()),
        price_poll_interval_sec: None,
        mock_price: None,
        price_api_url: None,
        home: Some("/home/q".to_string()),
    }
}

fn key(s: &str) -> Address {
    Address::new(s.parse::<Pubkey>().unwrap().to_bytes())
}

#[test]
fn settings_from_variables() {
    let c = Config::from_values(&full_values()).unwrap();
    assert_eq!(c.rpc_http, "http://localhost:8899");
    assert_eq!(c.rpc_ws, "ws://localhost:8900");
    assert_eq!(c.oracle_program_id, key(ORACLE_PROGRAM));
    assert_eq!(c.oracle_state, key(ORACLE_STATE));
    assert_eq!(c.minter_program_id, key(MINTER_PROGRAM));
    assert_eq!(c.backend_keypair_path, "/home/q/.config/solana/id.json");
    assert_eq!(c.price_poll_interval_secs, DEFAULT_PRICE_POLL_INTERVAL_SEC);
    assert_eq!(c.mock_price, None);
    assert_eq!(c.price_api_url, None);
}

#[test]
fn optional_settings() {
    let mut v = full_values();
    v.price_poll_interval_sec = Some("30".to_string());
    v.mock_price = Some("150000000".to_string());
    v.price_api_url = Some("http://feed".to_string());
    let c = Config::from_values(&v).unwrap();
    assert_eq!(c.price_poll_interval_secs, 30);
    assert_eq!(c.mock_price, Some(150_000_000));
    assert_eq!(c.price_api_url.as_deref(), Some("http://feed"));
    v.price_poll_interval_sec = Some("soon".to_string());
    v.mock_price = Some("-3".to_string());
    let c = Config::from_values(&v).unwrap();
    assert_eq!(c.price_poll_interval_secs, 600);
    assert_eq!(c.mock_price, None);
}

#[test]
fn missing_and_invalid_variables() {
    let mut v = full_values();
    v.solana_rpc_http = None;
    assert_eq!(Config::from_values(&v).unwrap_err(), ConfigError::Missing(EnvVar::SolanaRpcHttp));
    let mut v = full_values();
    v.oracle_state_pubkey = Some("not-a-key".to_string());
    v.minter_program_id = None;
    assert_eq!(Config::from_values(&v).unwrap_err(), ConfigError::InvalidAddress(EnvVar::OracleStatePubkey));
    let mut v = full_values();
    v.minter_program_id = None;
    assert_eq!(Config::from_values(&v).unwrap_err(), ConfigError::Missing(EnvVar::MinterProgramId));
    let mut v = full_values();
    v.backend_keypair_path = None;
    assert_eq!(Config::from_values(&v).unwrap_err(), ConfigError::Missing(EnvVar::BackendKeypairPath));
    assert_eq!(EnvVar::OracleProgramId.missing_message(), "ORACLE_PROGRAM_ID is required");
    assert_eq!(EnvVar::SolanaRpcWs.name(), "SOLANA_RPC_WS");
}

#[test]
fn home_expansion() {
    let home = Some("/root".to_string());
    assert_eq!(expand_home(&"~/k.json".to_string(), &home), "/root/k.json");
    assert_eq!(expand_home(&"~/k.json".to_string(), &None), "~/k.json");
    assert_eq!(expand_home(&"/abs/k.json".to_string(), &home), "/abs/k.json");
    assert_eq!(expand_home(&"~k.json".to_string(), &home), "~k.json");
    assert_eq!(expand_home(&"~/é/k".to_string(), &home), "/root/é/k");
}

#[test]
fn price_source_choice() {
    let mut c = Config::from_values(&full_values()).unwrap();
    match PriceSource::from_config(&c) {
        PriceSource::Http { url } => assert_eq!(url, DEFAULT_PRICE_API_URL),
        other => panic!("unexpected {:?}", other),
    }
    c.price_api_url = Some("http://feed".to_string());
    match PriceSource::from_config(&c) {
        PriceSource::Http { url } => assert_eq!(url, "http://feed"),
        other => panic!("unexpected {:?}", other),
    }
    c.mock_price = Some(77);
    assert!(matches!(PriceSource::from_config(&c), PriceSource::Mock(77)));
}

#[test]
fn token_created_log_line() {
    let creator = key(ORACLE_PROGRAM);
    let mint = key(MINTER_PROGRAM);
    let ev = TokenCreated {
        creator,
        mint,
        decimals: 6,
        initial_supply: 1_000_000_000_000,
        fee_lamports: 10_000_000_000,
        sol_usd_price: 100,
        slot: 42,
    };
    let log = TokenCreatedLog::from_event(&ev, "sig".to_string());
    assert_eq!(log.creator, ORACLE_PROGRAM);
    assert_eq!(log.mint, MINTER_PROGRAM);
    assert_eq!(log.fee_lamports, 10_000_000_000);
    assert_eq!(log.slot, 42);
    assert_eq!(log.signature, "sig");
}
