use ro_soku::args::{Cli, Commands, MarketType, ParsedArgs};
use ro_soku::exchange::binance::Binance;
use ro_soku::exchange::{Exchange, ExchangeChoices};
use ro_soku::format::FormatType;
use ro_soku::order::Order;
use ro_soku::unit::{DurationAndUnit, TermUnit};

fn base_args(term_start: Option<i64>, term_end: Option<i64>) -> ParsedArgs {
    ParsedArgs {
        exchange: Exchange::Binance(Binance::new()),
        symbol: String::new(),
        type_: MarketType::Spot,
        past: false,
        range: None,
        term_start,
        term_end,
        interval: DurationAndUnit(1, TermUnit::Min),
        pick: vec![],
        order: Order::Asc,
        output: FormatType::Json,
    }
}

#[test]
fn test_parse_terms_unixtime() {
    let term = "1144937572000".to_string();
    let expected = Some(1144937572000);
    assert_eq!(ParsedArgs::parse_terms(term).unwrap(), expected);
}

#[test]
fn test_parse_terms_rfc3339() {
    assert_eq!(
        ParsedArgs::parse_terms("2021-03-06T07:52:00+09:00".to_string()).unwrap(),
        Some(1614984720000)
    );
    assert_eq!(
        ParsedArgs::parse_terms("2021-03-05T22:52:00Z".to_string()).unwrap(),
        Some(1614984720000)
    );
    assert_eq!(
        ParsedArgs::parse_terms("2021-03-05T22:52:00+00:00".to_string()).unwrap(),
        Some(1614984720000)
    );
}

#[test]
fn test_parse_terms_bad_input() {
    assert!(ParsedArgs::parse_terms("not a time".to_string()).is_err());
}

#[test]
fn test_check_term_relations() {
    assert!(base_args(Some(1000000000000), Some(1144937572000)).check_term_relations().is_ok());
    assert!(base_args(Some(1000000000000), Some(1000000000000)).check_term_relations().is_ok());
    assert!(base_args(Some(1144937572000), Some(1000000000000)).check_term_relations().is_err());
    assert!(base_args(None, None).check_term_relations().is_ok());
}

#[test]
fn test_fit_to_term_args_past() {
    let mut args = base_args(None, None);
    args.past = true;
    args.range = Some(DurationAndUnit(1, TermUnit::Day));

    let now: i64 = 1683209584353;
    let args = args.fit_to_term_args(now);

    let expected_start_time = (now / 1000 - 86400) * 1000;
    let expected_end_time = (now / 1000) * 1000;

    assert_eq!(args.term_start.unwrap(), expected_start_time);
    assert_eq!(args.term_end.unwrap(), expected_end_time);
}

#[test]
fn test_fit_to_term_args_terms() {
    let args = base_args(Some(946684800000), Some(946771200000));
    let args = args.fit_to_term_args(1683209584353);

    let expected_start_time = 946684800000;
    let expected_end_time = 946771200000;

    assert_eq!(args.term_start.unwrap(), expected_start_time);
    assert_eq!(args.term_end.unwrap(), expected_end_time);
}

#[test]
fn test_fit_to_term_args_end_now() {
    let args = base_args(Some(946684800000), Some(9000000000000000000));
    let now: i64 = 1683209584353;
    let args = args.fit_to_term_args(now);

    let expected_start_time = 946684800000;
    let expected_end_time = now;

    assert_eq!(args.term_start.unwrap(), expected_start_time);
    assert_eq!(args.term_end.unwrap(), expected_end_time);
}

fn base_cli() -> Cli {
    Cli {
        command: None::<Commands>,
        exchange: ExchangeChoices::Binance,
        symbol: "BTC/USDT".to_string(),
        type_: MarketType::Spot,
        past: Some(false),
        range: None,
        term_start: Some("946684800000".to_string()),
        term_end: Some("946771200000".to_string()),
        interval: "15min".to_string(),
        pick: vec![],
        order: Order::Asc,
        format: FormatType::Raw,
    }
}

#[test]
fn test_valdate_ok() {
    assert!(base_cli().valdate().is_ok());
}

#[test]
fn test_valdate_collects_errors() {
    let mut cli = base_cli();
    cli.symbol = "btcusdt".to_string();
    let msg = cli.valdate().unwrap_err();
    assert_eq!(
        msg,
        "Failed to parse arguments due to 1 error(s)\n  - Symbol pair must be in uppercase or number and contain `/`."
    );
}

#[test]
fn test_valdate_conflicting_options() {
    let mut cli = base_cli();
    cli.past = Some(true);
    cli.range = Some("1day".to_string());
    let msg = cli.valdate().unwrap_err();
    assert!(msg.starts_with("Failed to parse arguments due to 2 error(s)"));
}

#[test]
fn test_parsed_args_new() {
    let cli = base_cli();
    let parsed = ParsedArgs::new(cli, Exchange::Binance(Binance::new())).unwrap();
    assert_eq!(parsed.term_start, Some(946684800000));
    assert_eq!(parsed.term_end, Some(946771200000));
    assert_eq!(parsed.interval, DurationAndUnit(15, TermUnit::Min));
    assert_eq!(parsed.symbol, "BTC/USDT".to_string());
}
