//! The configuration of the service and its defaults.

use crate::models::Double;
use crate::text::{number_text, parse_u16, u16_value, written_numbers_are_read_back};
use vstd::prelude::*;

verus! {

/// The parameters of the random walk of one symbol.
#[derive(Clone, Debug)]
pub struct SymbolConfig {
    pub name: String,
    pub initial_price: Double,
    pub drift: Double,
    pub volatility: Double,
    pub spread: Double,
}

/// The configuration of the service.
#[derive(Clone, Debug)]
pub struct AppConfig {
    /// HTTP listen port. Overridden by the environment variable PORT.
    pub port: u16,
    /// Tick generation interval in milliseconds.
    pub tick_interval_ms: u64,
    /// How often the inserter flushes on a timer (seconds).
    pub db_flush_interval_secs: u64,
    /// Maximum trades buffered before a forced flush.
    pub db_insert_buffer_size: usize,
    /// Number of raw ticks kept in memory per symbol.
    pub tick_history_size: usize,
    /// Broadcast channel capacity for the feed.
    pub ws_broadcast_capacity: usize,
    /// How often to poll for 1h/24h price changes (seconds).
    pub change_poll_interval_secs: u64,
    /// Seconds since the last Pong before a feed client is forcibly closed.
    pub ws_heartbeat_timeout_secs: u64,
    /// Seconds between Ping frames sent to idle feed clients.
    pub ws_ping_interval_secs: u64,
    /// Sustained requests per second per IP.
    pub rate_limit_per_second: u64,
    /// Burst allowance above the sustained rate.
    pub rate_limit_burst: u32,
    /// Trading pairs to simulate.
    pub symbols: Vec<SymbolConfig>,
}

/// The double-precision number 150.
pub const SOL_PRICE: u64 = 0x4062_C000_0000_0000;

/// The double-precision number 0.0001.
pub const DRIFT: u64 = 0x3F1A_36E2_EB1C_432D;

/// The double-precision number 0.002.
pub const SOL_VOLATILITY: u64 = 0x3F60_624D_D2F1_A9FC;

/// The double-precision number 0.01.
pub const SOL_SPREAD: u64 = 0x3F84_7AE1_47AE_147B;

/// The double-precision number 65000.
pub const BTC_PRICE: u64 = 0x40EF_BD00_0000_0000;

/// The double-precision number 0.001.
pub const BTC_VOLATILITY: u64 = 0x3F50_624D_D2F1_A9FC;

/// The double-precision number 10.
pub const BTC_SPREAD: u64 = 0x4024_0000_0000_0000;

/// The symbol has this name and these parameters.
pub open spec fn is_symbol(
    symbol: SymbolConfig,
    name: Seq<char>,
    initial_price: u64,
    drift: u64,
    volatility: u64,
    spread: u64,
) -> bool {
    &&& symbol.name@ == name
    &&& symbol.initial_price.bits == initial_price
    &&& symbol.drift.bits == drift
    &&& symbol.volatility.bits == volatility
    &&& symbol.spread.bits == spread
}

/// The configuration is the built-in one.
pub open spec fn is_default(c: AppConfig) -> bool {
    &&& c.port == 8080
    &&& c.tick_interval_ms == 10
    &&& c.db_flush_interval_secs == 1
    &&& c.db_insert_buffer_size == 1_000
    &&& c.tick_history_size == 1_200
    &&& c.ws_broadcast_capacity == 128
    &&& c.change_poll_interval_secs == 5
    &&& c.ws_heartbeat_timeout_secs == 60
    &&& c.ws_ping_interval_secs == 20
    &&& c.rate_limit_per_second == 100
    &&& c.rate_limit_burst == 50
    &&& c.symbols@.len() == 2
    &&& is_symbol(c.symbols@[0], "SOL/USDC"@, SOL_PRICE, DRIFT, SOL_VOLATILITY, SOL_SPREAD)
    &&& is_symbol(c.symbols@[1], "BTC/USDC"@, BTC_PRICE, DRIFT, BTC_VOLATILITY, BTC_SPREAD)
}

fn symbol_config(name: &str, initial_price: u64, drift: u64, volatility: u64, spread: u64) -> (r:
    SymbolConfig)
    ensures
        is_symbol(r, name@, initial_price, drift, volatility, spread),
{
    SymbolConfig {
        name: name.to_string(),
        initial_price: Double { bits: initial_price },
        drift: Double { bits: drift },
        volatility: Double { bits: volatility },
        spread: Double { bits: spread },
    }
}

impl Default for AppConfig {
    fn default() -> (r: AppConfig)
        ensures
            is_default(r),
    {
        let mut symbols: Vec<SymbolConfig> = Vec::new();
        symbols.push(symbol_config("SOL/USDC", SOL_PRICE, DRIFT, SOL_VOLATILITY, SOL_SPREAD));
        symbols.push(symbol_config("BTC/USDC", BTC_PRICE, DRIFT, BTC_VOLATILITY, BTC_SPREAD));
        AppConfig {
            port: 8080,
            tick_interval_ms: 10,
            db_flush_interval_secs: 1,
            db_insert_buffer_size: 1_000,
            tick_history_size: 1_200,
            ws_broadcast_capacity: 128,
            change_poll_interval_secs: 5,
            ws_heartbeat_timeout_secs: 60,
            ws_ping_interval_secs: 20,
            rate_limit_per_second: 100,
            rate_limit_burst: 50,
            symbols,
        }
    }
}

/// The port that a variable asks for, where it holds one.
pub open spec fn port_override(variable: Option<String>, port: u16) -> u16 {
    match variable {
        Some(text) => match u16_value(text@) {
            Some(p) => p,
            None => port,
        },
        None => port,
    }
}

impl AppConfig {
    /// The configuration from what the file held, if it could be read, and from the PORT
    /// variable, if it was set. Without a file the defaults apply; a variable that is no
    /// port number is ignored.
    pub fn load(file: Option<AppConfig>, port_variable: Option<String>) -> (r: AppConfig)
        ensures
            match file {
                Some(config) => r == (AppConfig {
                    port: port_override(port_variable, config.port),
                    ..config
                }),
                None => exists|base: AppConfig|
                    #[trigger] is_default(base) && r == (AppConfig {
                        port: port_override(port_variable, base.port),
                        ..base
                    }),
            },
    {
        let mut config = match file {
            Some(config) => config,
            None => AppConfig::default(),
        };
        let ghost base = config;
        if let Some(text) = &port_variable {
            if let Some(port) = parse_u16(text.as_str()) {
                config.port = port;
            }
        }
        assert(file is None ==> is_default(base));
        config
    }

    /// Ticks per second at the configured interval; as many as can be told where the
    /// interval is 0.
    pub fn nominal_tps(&self) -> (r: u32)
        ensures
            r == (if self.tick_interval_ms == 0 {
                u32::MAX
            } else {
                (1000u64 / self.tick_interval_ms) as u32
            }),
    {
        if self.tick_interval_ms == 0 {
            u32::MAX
        } else {
            (1000 / self.tick_interval_ms) as u32
        }
    }
}

/// A variable that writes a port number sets the port to that number; any other, and none at
/// all, leaves it.
pub proof fn ports_are_overridden(variable: String, n: u16, port: u16)
    ensures
        variable@ == number_text(n as nat) ==> port_override(Some(variable), port) == n,
        u16_value(variable@) is None ==> port_override(Some(variable), port) == port,
        u16_value(variable@) matches Some(p) ==> port_override(Some(variable), port) == p,
        port_override(None, port) == port,
{
    written_numbers_are_read_back(n as nat);
}

} // verus!
