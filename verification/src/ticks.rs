use vstd::prelude::*;

verus! {

/// Which of the three subscription modes a tick was delivered in.
#[derive(Debug, Clone, Copy, PartialEq, Eq, Structural)]
pub enum TickMode {
    Ltp,
    Quote,
    Full,
}

/// Open, high, low and close of the day, in paise.
#[derive(Debug, Clone, Copy, PartialEq, Eq, Structural)]
pub struct Ohlc {
    pub open: i32,
    pub high: i32,
    pub low: i32,
    pub close: i32,
}

/// One rung of the order book: resting quantity, price in paise, order count.
#[derive(Debug, Clone, Copy, PartialEq, Eq, Structural)]
pub struct DepthLevel {
    pub quantity: u32,
    pub price: i32,
    pub orders: u16,
}

/// Five levels of bids and five of offers, best first.
#[derive(Debug, Clone, Copy, PartialEq, Eq)]
pub struct MarketDepth {
    pub buy: [DepthLevel; 5],
    pub sell: [DepthLevel; 5],
}

/// The exact quotient `num / den`.
#[derive(Debug, Clone, Copy, PartialEq, Eq, Structural)]
pub struct Ratio {
    pub num: i64,
    pub den: i64,
}

/// A change of `delta` units over `dt_ns` nanoseconds.
#[derive(Debug, Clone, Copy, PartialEq, Eq, Structural)]
pub struct Rate {
    pub delta: i64,
    pub dt_ns: u64,
}

/// One market-data update for one instrument.
///
/// Every price is in paise. `change` is a ratio of prices; timestamps from
/// the exchange are UNIX seconds; `received_ns` is UNIX nanoseconds at
/// receipt.
#[derive(Debug, Clone, Copy, PartialEq, Eq)]
pub struct Tick {
    pub instrument_token: i32,
    pub mode: TickMode,
    pub last_price: i32,
    pub last_quantity: Option<u32>,
    pub average_traded_price: Option<i32>,
    pub volume_traded: Option<u32>,
    pub total_buy_quantity: Option<u32>,
    pub total_sell_quantity: Option<u32>,
    pub ohlc: Option<Ohlc>,
    pub change: Option<Ratio>,
    pub last_trade_time: Option<u32>,
    pub open_interest: Option<u32>,
    pub oi_day_high: Option<u32>,
    pub oi_day_low: Option<u32>,
    pub exchange_timestamp: Option<u32>,
    pub depth: Option<MarketDepth>,
    pub received_ns: u64,
}

impl Tick {
    /// The tick that carries a last traded price and nothing else.
    pub open spec fn ltp(instrument_token: i32, last_price: i32, received_ns: u64) -> Tick {
        Tick {
            instrument_token,
            mode: TickMode::Ltp,
            last_price,
            last_quantity: None,
            average_traded_price: None,
            volume_traded: None,
            total_buy_quantity: None,
            total_sell_quantity: None,
            ohlc: None,
            change: None,
            last_trade_time: None,
            open_interest: None,
            oi_day_high: None,
            oi_day_low: None,
            exchange_timestamp: None,
            depth: None,
            received_ns,
        }
    }

    pub fn new_ltp(instrument_token: i32, last_price: i32, received_ns: u64) -> (tick: Tick)
        ensures
            tick == Tick::ltp(instrument_token, last_price, received_ns),
    {
        Tick {
            instrument_token,
            mode: TickMode::Ltp,
            last_price,
            last_quantity: None,
            average_traded_price: None,
            volume_traded: None,
            total_buy_quantity: None,
            total_sell_quantity: None,
            ohlc: None,
            change: None,
            last_trade_time: None,
            open_interest: None,
            oi_day_high: None,
            oi_day_low: None,
            exchange_timestamp: None,
            depth: None,
            received_ns,
        }
    }
}

/// What is known of an instrument before any tick arrives. It does not
/// change once seeded.
#[derive(Debug, Clone, PartialEq, Eq)]
pub struct TokenMeta {
    pub instrument_token: i32,
    pub tradingsymbol: String,
    pub instrument_type: String,
    /// Expiry as `YYYY-MM-DD`, for options and futures.
    pub expiry: Option<String>,
    /// Strike in whole rupees, as the catalog keeps it.
    pub strike: Option<i64>,
}

/// A `TokenMeta` with its strings as sequences of characters.
pub struct TokenMetaView {
    pub instrument_token: i32,
    pub tradingsymbol: Seq<char>,
    pub instrument_type: Seq<char>,
    pub expiry: Option<Seq<char>>,
    pub strike: Option<i64>,
}

/// The characters of an optional string.
pub open spec fn opt_chars(s: Option<String>) -> Option<Seq<char>> {
    match s {
        Some(text) => Some(text@),
        None => None,
    }
}

impl View for TokenMeta {
    type V = TokenMetaView;

    open spec fn view(&self) -> TokenMetaView {
        TokenMetaView {
            instrument_token: self.instrument_token,
            tradingsymbol: self.tradingsymbol@,
            instrument_type: self.instrument_type@,
            expiry: opt_chars(self.expiry),
            strike: self.strike,
        }
    }
}

impl TokenMeta {
    pub fn new(
        instrument_token: i32,
        tradingsymbol: String,
        instrument_type: String,
        expiry: Option<String>,
        strike: Option<i64>,
    ) -> (meta: TokenMeta)
        ensures
            meta == (TokenMeta { instrument_token, tradingsymbol, instrument_type, expiry, strike }),
    {
        TokenMeta { instrument_token, tradingsymbol, instrument_type, expiry, strike }
    }

    /// The placeholder for an instrument that was never seeded: no symbol,
    /// and `UNKNOWN` for its type.
    pub open spec fn unknown(instrument_token: i32) -> TokenMetaView {
        TokenMetaView {
            instrument_token,
            tradingsymbol: Seq::empty(),
            instrument_type: "UNKNOWN"@,
            expiry: None,
            strike: None,
        }
    }

    /// The placeholder for an instrument that was never seeded.
    pub fn placeholder(instrument_token: i32) -> (meta: TokenMeta)
        ensures
            meta@ == TokenMeta::unknown(instrument_token),
    {
        TokenMeta {
            instrument_token,
            tradingsymbol: String::new(),
            instrument_type: "UNKNOWN".to_owned(),
            expiry: None,
            strike: None,
        }
    }
}

/// Metrics kept per instrument and brought up to date with every tick.
///
/// Bid, ask and spread are in paise. `spread_bps` is the quotient of
/// `spread * 10000` by the last price. A rate of a price is in paise over
/// nanoseconds, a rate of open interest or volume in contracts over
/// nanoseconds.
#[derive(Debug, Clone, Copy, PartialEq, Eq)]
pub struct DerivedMetrics {
    pub best_bid: Option<i32>,
    pub best_ask: Option<i32>,
    pub spread: Option<i64>,
    pub spread_bps: Option<Ratio>,
    pub price_roc_per_s: Option<Rate>,
    pub oi_roc_per_s: Option<Rate>,
    pub vol_roc_per_s: Option<Rate>,
}

impl DerivedMetrics {
    /// No metric known.
    pub open spec fn none() -> DerivedMetrics {
        DerivedMetrics {
            best_bid: None,
            best_ask: None,
            spread: None,
            spread_bps: None,
            price_roc_per_s: None,
            oi_roc_per_s: None,
            vol_roc_per_s: None,
        }
    }
}

impl Default for DerivedMetrics {
    fn default() -> (d: DerivedMetrics)
        ensures
            d == DerivedMetrics::none(),
    {
        DerivedMetrics {
            best_bid: None,
            best_ask: None,
            spread: None,
            spread_bps: None,
            price_roc_per_s: None,
            oi_roc_per_s: None,
            vol_roc_per_s: None,
        }
    }
}

/// All that is kept for one instrument.
#[derive(Debug, Clone, PartialEq, Eq)]
pub struct TokenState {
    pub meta: TokenMeta,
    pub last_tick: Option<Tick>,
    pub derived: DerivedMetrics,
}

/// A `TokenState` with the strings of its metadata as sequences of characters.
pub struct TokenStateView {
    pub meta: TokenMetaView,
    pub last_tick: Option<Tick>,
    pub derived: DerivedMetrics,
}

impl View for TokenState {
    type V = TokenStateView;

    open spec fn view(&self) -> TokenStateView {
        TokenStateView { meta: self.meta@, last_tick: self.last_tick, derived: self.derived }
    }
}

impl TokenState {
    /// The state of an instrument of which only `meta` is known.
    pub open spec fn seeded(meta: TokenMetaView) -> TokenStateView {
        TokenStateView { meta, last_tick: None, derived: DerivedMetrics::none() }
    }

    pub fn new(meta: TokenMeta) -> (state: TokenState)
        ensures
            state.meta == meta,
            state@ == TokenState::seeded(meta@),
    {
        TokenState { meta, last_tick: None, derived: DerivedMetrics::default() }
    }
}

} // verus!
