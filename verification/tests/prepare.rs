use ro_soku::args::{MarketType, ParsedArgs};
use ro_soku::error::ExchangeError;
use ro_soku::exchange::binance::Binance;
use ro_soku::exchange::bitbank::Bitbank;
use ro_soku::exchange::bitmex::Bitmex;
use ro_soku::exchange::bybit::Bybit;
use ro_soku::exchange::okx::Okx;
use ro_soku::exchange::Exchange;
use ro_soku::format::{FormatType, JsonKeyManager};
use ro_soku::order::Order;
use ro_soku::pick::Pick;
use ro_soku::unit::{DurationAndUnit, TermUnit};

fn args(symbol: &str, type_: MarketType, interval: DurationAndUnit) -> ParsedArgs {
    ParsedArgs {
        exchange: Exchange::Binance(Binance::new()),
        symbol: symbol.to_string(),
        type_,
        past: false,
        range: None,
        term_start: Some(1672531200000),
        term_end: Some(1672617600000),
        interval,
        pick: vec![],
        order: Order::Asc,
        output: FormatType::Raw,
    }
}

#[test]
fn binance_prepare_builds_spot_request() {
    let mut binance = Binance::new();
    let a = args("BTC/USDT", MarketType::Spot, DurationAndUnit(15, TermUnit::Min));
    binance.prepare(&a).unwrap();
    assert_eq!(binance.endpoint, "https://data-api.binance.vision/api/v3/klines");
    assert_eq!(
        binance.params,
        vec![
            ("symbol".to_string(), "BTCUSDT".to_string()),
            ("interval".to_string(), "15m".to_string()),
            ("startTime".to_string(), "1672531200000".to_string()),
            ("endTime".to_string(), "1672617600000".to_string()),
            ("limit".to_string(), "1000".to_string()),
        ]
    );
}

#[test]
fn binance_prepare_builds_perpetual_request() {
    let mut binance = Binance::new();
    let a = args("BTC/USDT", MarketType::Perpetual, DurationAndUnit(1, TermUnit::Hour));
    binance.prepare(&a).unwrap();
    assert_eq!(binance.endpoint, "https://fapi.binance.com/fapi/v1/klines");
    assert_eq!(binance.params[4], ("limit".to_string(), "1500".to_string()));
}

#[test]
fn bybit_prepare_builds_request() {
    let mut bybit = Bybit::new();
    let a = args("ETH/USDT", MarketType::Perpetual, DurationAndUnit(4, TermUnit::Hour));
    bybit.prepare(&a).unwrap();
    assert_eq!(
        bybit.params,
        vec![
            ("category".to_string(), "linear".to_string()),
            ("symbol".to_string(), "ETHUSDT".to_string()),
            ("interval".to_string(), "240".to_string()),
            ("start".to_string(), "1672531200000".to_string()),
            ("end".to_string(), "1672617600000".to_string()),
            ("limit".to_string(), "200".to_string()),
        ]
    );
}

#[test]
fn okx_prepare_appends_swap_suffix() {
    let mut okx = Okx::new();
    let a = args("BTC/USDT", MarketType::Perpetual, DurationAndUnit(15, TermUnit::Min));
    okx.prepare(&a).unwrap();
    assert_eq!(okx.params[0], ("instId".to_string(), "BTC-USDT-SWAP".to_string()));
    assert_eq!(okx.params[1], ("bar".to_string(), "15m".to_string()));
    assert_eq!(okx.params[2], ("before".to_string(), "1672531200000".to_string()));
    assert_eq!(okx.params[3], ("after".to_string(), "1672617600000".to_string()));
}

#[test]
fn bitmex_prepare_uses_rfc3339_terms() {
    let mut bitmex = Bitmex::new();
    let a = args("BTC/USD", MarketType::Perpetual, DurationAndUnit(1, TermUnit::Min));
    bitmex.prepare(&a).unwrap();
    assert_eq!(bitmex.params[0], ("binSize".to_string(), "1m".to_string()));
    assert_eq!(bitmex.params[1], ("symbol".to_string(), "XBTUSD".to_string()));
    assert_eq!(
        bitmex.params[2],
        (
            "columns".to_string(),
            "timestamp,open,high,low,close,volume".to_string()
        )
    );
    assert_eq!(bitmex.params[3], ("count".to_string(), "1000".to_string()));
    assert_eq!(
        bitmex.params[4],
        ("startTime".to_string(), "2023-01-01T00:00:00+00:00".to_string())
    );
}

#[test]
fn bitmex_prepare_rejects_spot() {
    let mut bitmex = Bitmex::new();
    let a = args("BTC/USD", MarketType::Spot, DurationAndUnit(1, TermUnit::Min));
    assert_eq!(bitmex.prepare(&a), Err(ExchangeError::UnsupportedMarketType));
}

#[test]
fn bitbank_prepare_builds_bucket_url() {
    let mut bitbank = Bitbank::new();
    let a = args("BTC/JPY", MarketType::Spot, DurationAndUnit(15, TermUnit::Min));
    bitbank.prepare(&a).unwrap();
    assert_eq!(
        bitbank.endpoint,
        "https://public.bitbank.cc/btc_jpy/candlestick/15min/20230101"
    );
}

#[test]
fn bitbank_prepare_rejects_perpetual() {
    let mut bitbank = Bitbank::new();
    let a = args("BTC/JPY", MarketType::Perpetual, DurationAndUnit(15, TermUnit::Min));
    assert_eq!(bitbank.prepare(&a), Err(ExchangeError::UnsupportedMarketType));
}

#[test]
fn json_key_manager_tracks_keys() {
    let mut keys = JsonKeyManager::new();
    assert!(!keys.unixtime);
    keys.used(Pick::T);
    assert!(keys.unixtime);
    keys.used(Pick::V);
    assert!(keys.v);
    assert!(!keys.o);
}

#[test]
fn bitbank_prepare_error_precedence() {
    // A rejected interval is reported before a malformed symbol.
    let mut bitbank = Bitbank::new();
    let a = args("BTCJPY", MarketType::Spot, DurationAndUnit(3, TermUnit::Month));
    match bitbank.prepare(&a) {
        Err(ExchangeError::RemoteInterval(list)) => assert_eq!(list.len(), 11),
        other => panic!("expected a rejected interval, got {:?}", other),
    }
    // With a valid interval the malformed symbol is reported.
    let a = args("BTCJPY", MarketType::Spot, DurationAndUnit(15, TermUnit::Min));
    assert!(matches!(bitbank.prepare(&a), Err(ExchangeError::Config(_))));
}
