use vstd::prelude::*;
use vstd::string::{StrSliceExecFns, StringExecFns};
use vstd::utf8::encode_utf8;
use crate::address::Address;
use crate::decimal::{parse_u64, parse_u64_result};
use crate::minter::TokenCreated;
use solana_pubkey::Pubkey;

verus! {

/// Seconds between price polls when none is configured.
pub const DEFAULT_PRICE_POLL_INTERVAL_SEC: u64 = 600;

/// Price feed used when no other is configured.
pub const DEFAULT_PRICE_API_URL: &'static str = "https://api.binance.com/api/v3/ticker/price?symbol=SOLUSDT";

/// The address written as base58 text, or `None` where the text is not one.
pub uninterp spec fn spec_parse_address(text: Seq<char>) -> Option<Seq<u8>>;

/// The base58 text of an address.
pub uninterp spec fn spec_address_text(bytes: Seq<u8>) -> Seq<char>;

/// Longest base58 text of an address, in bytes.
pub const MAX_ADDRESS_TEXT_LEN: usize = 44;

/// Calls `<solana_pubkey::Pubkey as FromStr>::from_str`.
///
/// Claims: the result is the named decoding of the text, and a text longer
/// than 44 bytes is refused (the source checks this first).
#[verifier::external_body]
fn parse_address(text: &str) -> (r: Option<Address>)
    ensures
        match r {
            Some(a) => spec_parse_address(text@) == Some(a@),
            None => spec_parse_address(text@) is None,
        },
        encode_utf8(text@).len() > MAX_ADDRESS_TEXT_LEN ==> r is None,
{
    match text.parse::<Pubkey>() {
        Ok(key) => Some(Address { bytes: key.to_bytes() }),
        Err(_) => None,
    }
}

/// Calls `<solana_pubkey::Pubkey as Display>::fmt` through `to_string`.
///
/// Claims only that the text is the named base58 text of the address bytes.
#[verifier::external_body]
fn address_text(a: &Address) -> (r: String)
    ensures
        r@ == spec_address_text(a@),
{
    Pubkey::new_from_array(a.bytes).to_string()
}

/// The settings a backend variable stands for.
#[derive(Clone, Copy, Debug, PartialEq, Eq)]
pub enum EnvVar {
    SolanaRpcHttp,
    SolanaRpcWs,
    OracleProgramId,
    OracleStatePubkey,
    MinterProgramId,
    BackendKeypairPath,
}

impl EnvVar {
    /// The name of the environment variable.
    pub fn name(&self) -> (s: &'static str)
        ensures
            s@ == match *self {
                EnvVar::SolanaRpcHttp => "SOLANA_RPC_HTTP"@,
                EnvVar::SolanaRpcWs => "SOLANA_RPC_WS"@,
                EnvVar::OracleProgramId => "ORACLE_PROGRAM_ID"@,
                EnvVar::OracleStatePubkey => "ORACLE_STATE_PUBKEY"@,
                EnvVar::MinterProgramId => "MINTER_PROGRAM_ID"@,
                EnvVar::BackendKeypairPath => "BACKEND_KEYPAIR_PATH"@,
            },
    {
        match self {
            EnvVar::SolanaRpcHttp => "SOLANA_RPC_HTTP",
            EnvVar::SolanaRpcWs => "SOLANA_RPC_WS",
            EnvVar::OracleProgramId => "ORACLE_PROGRAM_ID",
            EnvVar::OracleStatePubkey => "ORACLE_STATE_PUBKEY",
            EnvVar::MinterProgramId => "MINTER_PROGRAM_ID",
            EnvVar::BackendKeypairPath => "BACKEND_KEYPAIR_PATH",
        }
    }

    /// The message given when the variable is missing.
    pub fn missing_message(&self) -> (s: &'static str)
        ensures
            s@ == match *self {
                EnvVar::SolanaRpcHttp => "SOLANA_RPC_HTTP env var is required"@,
                EnvVar::SolanaRpcWs => "SOLANA_RPC_WS env var is required"@,
                EnvVar::OracleProgramId => "ORACLE_PROGRAM_ID is required"@,
                EnvVar::OracleStatePubkey => "ORACLE_STATE_PUBKEY"@,
                EnvVar::MinterProgramId => "MINTER_PROGRAM_ID is required"@,
                EnvVar::BackendKeypairPath => "BACKEND_KEYPAIR_PATH is required"@,
            },
    {
        match self {
            EnvVar::SolanaRpcHttp => "SOLANA_RPC_HTTP env var is required",
            EnvVar::SolanaRpcWs => "SOLANA_RPC_WS env var is required",
            EnvVar::OracleProgramId => "ORACLE_PROGRAM_ID is required",
            EnvVar::OracleStatePubkey => "ORACLE_STATE_PUBKEY",
            EnvVar::MinterProgramId => "MINTER_PROGRAM_ID is required",
            EnvVar::BackendKeypairPath => "BACKEND_KEYPAIR_PATH is required",
        }
    }
}

/// Why the backend settings were refused.
#[derive(Clone, Copy, Debug, PartialEq, Eq)]
pub enum ConfigError {
    /// A required variable is not set (or not valid text).
    Missing(EnvVar),
    /// A variable that names an address is not base58 text of one.
    InvalidAddress(EnvVar),
}

/// The raw values of the backend's environment variables, as read.
#[derive(Clone, Debug)]
pub struct EnvValues {
    pub solana_rpc_http: Option<String>,
    pub solana_rpc_ws: Option<String>,
    pub oracle_program_id: Option<String>,
    pub oracle_state_pubkey: Option<String>,
    pub minter_program_id: Option<String>,
    pub backend_keypair_path: Option<String>,
    pub price_poll_interval_sec: Option<String>,
    pub mock_price: Option<String>,
    pub price_api_url: Option<String>,
    pub home: Option<String>,
}

/// The backend's settings.
#[derive(Clone, Debug)]
pub struct Config {
    pub rpc_http: String,
    pub rpc_ws: String,
    pub oracle_program_id: Address,
    pub oracle_state: Address,
    pub minter_program_id: Address,
    pub backend_keypair_path: String,
    pub price_poll_interval_secs: u64,
    pub mock_price: Option<u64>,
    pub price_api_url: Option<String>,
}

/// The text of an optional variable.
pub open spec fn opt_text(v: Option<String>) -> Option<Seq<char>> {
    match v {
        Some(s) => Some(s@),
        None => None,
    }
}

/// A path with a leading `~/` replaced by the home directory, where one is known.
pub open spec fn expanded_path(path: Seq<char>, home: Option<Seq<char>>) -> Seq<char> {
    if path.len() >= 2 && path[0] == '~' && path[1] == '/' && home is Some {
        home->Some_0 + seq!['/'] + path.skip(2)
    } else {
        path
    }
}

/// The poll interval given by the variable's text, or the default where it is
/// missing or not a number.
pub open spec fn poll_interval(v: Option<Seq<char>>) -> u64 {
    match v {
        Some(t) => match parse_u64_result(encode_utf8(t)) {
            Some(n) => n,
            None => DEFAULT_PRICE_POLL_INTERVAL_SEC,
        },
        None => DEFAULT_PRICE_POLL_INTERVAL_SEC,
    }
}

/// The mock price given by the variable's text, where it is a number.
pub open spec fn mock_price_of(v: Option<Seq<char>>) -> Option<u64> {
    match v {
        Some(t) => parse_u64_result(encode_utf8(t)),
        None => None,
    }
}

/// Which error, if any, the settings are refused with: the variables are
/// taken in order, and an address variable is parsed as soon as it is read.
pub open spec fn config_error(v: EnvValues) -> Option<ConfigError> {
    if v.solana_rpc_http is None {
        Some(ConfigError::Missing(EnvVar::SolanaRpcHttp))
    } else if v.solana_rpc_ws is None {
        Some(ConfigError::Missing(EnvVar::SolanaRpcWs))
    } else if v.oracle_program_id is None {
        Some(ConfigError::Missing(EnvVar::OracleProgramId))
    } else if spec_parse_address(v.oracle_program_id->Some_0@) is None {
        Some(ConfigError::InvalidAddress(EnvVar::OracleProgramId))
    } else if v.oracle_state_pubkey is None {
        Some(ConfigError::Missing(EnvVar::OracleStatePubkey))
    } else if spec_parse_address(v.oracle_state_pubkey->Some_0@) is None {
        Some(ConfigError::InvalidAddress(EnvVar::OracleStatePubkey))
    } else if v.minter_program_id is None {
        Some(ConfigError::Missing(EnvVar::MinterProgramId))
    } else if spec_parse_address(v.minter_program_id->Some_0@) is None {
        Some(ConfigError::InvalidAddress(EnvVar::MinterProgramId))
    } else if v.backend_keypair_path is None {
        Some(ConfigError::Missing(EnvVar::BackendKeypairPath))
    } else {
        None
    }
}

/// Whether `c` holds the settings that the variables give.
pub open spec fn config_matches(c: Config, v: EnvValues) -> bool {
    &&& c.rpc_http@ == v.solana_rpc_http->Some_0@
    &&& c.rpc_ws@ == v.solana_rpc_ws->Some_0@
    &&& spec_parse_address(v.oracle_program_id->Some_0@) == Some(c.oracle_program_id@)
    &&& spec_parse_address(v.oracle_state_pubkey->Some_0@) == Some(c.oracle_state@)
    &&& spec_parse_address(v.minter_program_id->Some_0@) == Some(c.minter_program_id@)
    &&& c.backend_keypair_path@ == expanded_path(v.backend_keypair_path->Some_0@, opt_text(v.home))
    &&& c.price_poll_interval_secs == poll_interval(opt_text(v.price_poll_interval_sec))
    &&& c.mock_price == mock_price_of(opt_text(v.mock_price))
    &&& opt_text(c.price_api_url) == opt_text(v.price_api_url)
}

/// A copy of a text.
fn copy_string(s: &String) -> (r: String)
    ensures
        r@ == s@,
{
    s.clone()
}

/// A copy of an optional text.
fn copy_opt_string(s: &Option<String>) -> (r: Option<String>)
    ensures
        opt_text(r) == opt_text(*s),
{
    match s {
        Some(t) => Some(t.clone()),
        None => None,
    }
}

/// Replaces a leading `~/` of a path with the home directory, where one is known.
pub fn expand_home(path: &String, home: &Option<String>) -> (r: String)
    ensures
        r@ == expanded_path(path@, opt_text(*home)),
{
    let p = path.as_str();
    let n = p.unicode_len();
    if n >= 2 && p.get_char(0) == '~' && p.get_char(1) == '/' {
        match home {
            Some(h) => {
                let mut out = String::from_str(h.as_str());
                out.append("/");
                out.append(p.substring_char(2, n));
                proof {
                    reveal_strlit("/");
                }
                assert(out@ =~= expanded_path(path@, opt_text(*home)));
                out
            },
            None => copy_string(path),
        }
    } else {
        copy_string(path)
    }
}

/// Parses an optional number.
fn parse_opt_u64(v: &Option<String>) -> (r: Option<u64>)
    ensures
        r == mock_price_of(opt_text(*v)),
{
    match v {
        Some(t) => parse_u64(t.as_str()),
        None => None,
    }
}

/// Reads an address variable: missing or invalid text is an error.
fn address_var(v: &Option<String>, var: EnvVar) -> (r: Result<Address, ConfigError>)
    ensures
        v is None ==> r == Err::<Address, ConfigError>(ConfigError::Missing(var)),
        v is Some ==> match spec_parse_address(v->Some_0@) {
            Some(a) => r matches Ok(x) && x@ == a,
            None => r == Err::<Address, ConfigError>(ConfigError::InvalidAddress(var)),
        },
{
    match v {
        Some(t) => match parse_address(t.as_str()) {
            Some(a) => Ok(a),
            None => Err(ConfigError::InvalidAddress(var)),
        },
        None => Err(ConfigError::Missing(var)),
    }
}

impl Config {
    /// Builds the settings from the variables' values.
    pub fn from_values(v: &EnvValues) -> (r: Result<Config, ConfigError>)
        ensures
            match config_error(*v) {
                Some(e) => r == Err::<Config, ConfigError>(e),
                None => r matches Ok(c) && config_matches(c, *v),
            },
            v.solana_rpc_http is None ==> r == Err::<Config, ConfigError>(ConfigError::Missing(EnvVar::SolanaRpcHttp)),
            v.solana_rpc_http is Some && v.solana_rpc_ws is None ==> r == Err::<Config, ConfigError>(
                ConfigError::Missing(EnvVar::SolanaRpcWs),
            ),
            r is Ok ==> v.solana_rpc_http is Some && v.solana_rpc_ws is Some && v.oracle_program_id is Some
                && v.oracle_state_pubkey is Some && v.minter_program_id is Some && v.backend_keypair_path is Some,
            r matches Ok(c) ==> {
                &&& c.rpc_http@ == v.solana_rpc_http->Some_0@
                &&& c.rpc_ws@ == v.solana_rpc_ws->Some_0@
                &&& spec_parse_address(v.oracle_program_id->Some_0@) == Some(c.oracle_program_id@)
                &&& spec_parse_address(v.oracle_state_pubkey->Some_0@) == Some(c.oracle_state@)
                &&& spec_parse_address(v.minter_program_id->Some_0@) == Some(c.minter_program_id@)
                &&& opt_text(c.price_api_url) == opt_text(v.price_api_url)
            },
    {
        let rpc_http = match &v.solana_rpc_http {
            Some(s) => copy_string(s),
            None => return Err(ConfigError::Missing(EnvVar::SolanaRpcHttp)),
        };
        let rpc_ws = match &v.solana_rpc_ws {
            Some(s) => copy_string(s),
            None => return Err(ConfigError::Missing(EnvVar::SolanaRpcWs)),
        };
        let oracle_program_id = address_var(&v.oracle_program_id, EnvVar::OracleProgramId)?;
        let oracle_state = address_var(&v.oracle_state_pubkey, EnvVar::OracleStatePubkey)?;
        let minter_program_id = address_var(&v.minter_program_id, EnvVar::MinterProgramId)?;
        let backend_keypair_path = match &v.backend_keypair_path {
            Some(p) => expand_home(p, &v.home),
            None => return Err(ConfigError::Missing(EnvVar::BackendKeypairPath)),
        };
        let price_poll_interval_secs = match parse_opt_u64(&v.price_poll_interval_sec) {
            Some(n) => n,
            None => DEFAULT_PRICE_POLL_INTERVAL_SEC,
        };
        let mock_price = parse_opt_u64(&v.mock_price);
        let price_api_url = copy_opt_string(&v.price_api_url);
        Ok(Config {
            rpc_http,
            rpc_ws,
            oracle_program_id,
            oracle_state,
            minter_program_id,
            backend_keypair_path,
            price_poll_interval_secs,
            mock_price,
            price_api_url,
        })
    }
}

/// Where prices come from.
#[derive(Clone, Debug)]
pub enum PriceSource {
    /// A fixed price.
    Mock(u64),
    /// A price feed answering `{"price": "<decimal text>"}`.
    Http { url: String },
}

impl PriceSource {
    /// A configured mock price wins; otherwise the configured feed, or the default feed.
    pub fn from_config(cfg: &Config) -> (r: PriceSource)
        ensures
            cfg.mock_price is Some ==> r == PriceSource::Mock(cfg.mock_price->Some_0),
            cfg.mock_price is None && cfg.price_api_url is Some ==> (r matches PriceSource::Http { url }
                && url@ == cfg.price_api_url->Some_0@),
            cfg.mock_price is None && cfg.price_api_url is None ==> (r matches PriceSource::Http { url }
                && url@ == DEFAULT_PRICE_API_URL@),
    {
        if let Some(mock) = cfg.mock_price {
            PriceSource::Mock(mock)
        } else if let Some(url) = &cfg.price_api_url {
            PriceSource::Http { url: copy_string(url) }
        } else {
            PriceSource::Http { url: String::from_str(DEFAULT_PRICE_API_URL) }
        }
    }
}

/// A token creation as the backend logs it.
#[derive(Clone, Debug, PartialEq, Eq)]
pub struct TokenCreatedLog {
    pub creator: String,
    pub mint: String,
    pub decimals: u8,
    pub initial_supply: u64,
    pub fee_lamports: u64,
    pub sol_usd_price: u64,
    pub slot: u64,
    pub signature: String,
}

impl TokenCreatedLog {
    /// The log line of a creation record seen in the transaction `signature`.
    pub fn from_event(ev: &TokenCreated, signature: String) -> (r: TokenCreatedLog)
        ensures
            r.creator@ == spec_address_text(ev.creator@),
            r.mint@ == spec_address_text(ev.mint@),
            r.decimals == ev.decimals,
            r.initial_supply == ev.initial_supply,
            r.fee_lamports == ev.fee_lamports,
            r.sol_usd_price == ev.sol_usd_price,
            r.slot == ev.slot,
            r.signature@ == signature@,
    {
        TokenCreatedLog {
            creator: address_text(&ev.creator),
            mint: address_text(&ev.mint),
            decimals: ev.decimals,
            initial_supply: ev.initial_supply,
            fee_lamports: ev.fee_lamports,
            sol_usd_price: ev.sol_usd_price,
            slot: ev.slot,
            signature,
        }
    }
}

/// Every required variable is required, in order: the settings are refused
/// with the first required variable that is missing (address variables are
/// also refused when they are not an address), and accepted settings hold each
/// variable's own text: the HTTP endpoint is `SOLANA_RPC_HTTP`, the websocket
/// endpoint is `SOLANA_RPC_WS`, each address is the one its variable names.
pub proof fn lemma_config_requires_each_variable(v: EnvValues, c: Config)
    ensures
        v.solana_rpc_http is None ==> config_error(v) == Some(ConfigError::Missing(EnvVar::SolanaRpcHttp)),
        v.solana_rpc_http is Some && v.solana_rpc_ws is None ==> config_error(v) == Some(
            ConfigError::Missing(EnvVar::SolanaRpcWs),
        ),
        v.solana_rpc_http is Some && v.solana_rpc_ws is Some && v.oracle_program_id is None ==> config_error(v)
            == Some(ConfigError::Missing(EnvVar::OracleProgramId)),
        config_error(v) is None ==> v.solana_rpc_http is Some && v.solana_rpc_ws is Some
            && v.oracle_program_id is Some && v.oracle_state_pubkey is Some && v.minter_program_id is Some
            && v.backend_keypair_path is Some,
        config_error(v) is None && config_matches(c, v) ==> {
            &&& c.rpc_http@ == v.solana_rpc_http->Some_0@
            &&& c.rpc_ws@ == v.solana_rpc_ws->Some_0@
            &&& spec_parse_address(v.oracle_program_id->Some_0@) == Some(c.oracle_program_id@)
            &&& spec_parse_address(v.oracle_state_pubkey->Some_0@) == Some(c.oracle_state@)
            &&& spec_parse_address(v.minter_program_id->Some_0@) == Some(c.minter_program_id@)
            &&& (v.price_api_url is Some ==> c.price_api_url is Some
                && c.price_api_url->Some_0@ == v.price_api_url->Some_0@)
            &&& (v.price_api_url is None ==> c.price_api_url is None)
            &&& (v.price_poll_interval_sec is None ==> c.price_poll_interval_secs == 600)
            &&& (v.mock_price is None ==> c.mock_price is None)
            &&& (v.backend_keypair_path->Some_0@.len() >= 2 && v.backend_keypair_path->Some_0@[0] == '~'
                && v.backend_keypair_path->Some_0@[1] == '/' && v.home is Some
                ==> c.backend_keypair_path@ == v.home->Some_0@ + seq!['/']
                + v.backend_keypair_path->Some_0@.skip(2))
            &&& (!(v.backend_keypair_path->Some_0@.len() >= 2 && v.backend_keypair_path->Some_0@[0] == '~')
                ==> c.backend_keypair_path@ == v.backend_keypair_path->Some_0@)
        },
{
}

} // verus!
