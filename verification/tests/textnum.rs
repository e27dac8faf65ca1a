use ro_soku::error::{join_strings, ExchangeError, ExchangeResponseError};
use ro_soku::exchange::{split_symbol, KlineNumber};
use ro_soku::pick::Pick;
use ro_soku::text::{i64_to_dec, parse_i64, parse_u64, str_contains, trim_ascii, u64_to_dec};
use ro_soku::unit::{parse_duration_and_unit, DurationAndUnit, ParseDurationAndUnitError, TermUnit};
use std::str::FromStr;

#[test]
fn test_to_msec() {
    let cases: Vec<(&str, i64)> = vec![
        ("1sec", 1000),
        ("1min", 60000),
        ("15min", 900000),
        ("30min", 1800000),
        ("1hour", 3600000),
        ("6hour", 21600000),
        ("1day", 86400000),
        ("1week", 604800000),
        ("1month", 18144000000),
    ];
    for (input, expected) in cases {
        let d = parse_duration_and_unit(input).unwrap();
        assert_eq!(d.to_msec(), expected);
    }
}

#[test]
fn test_parse_duration_and_unit() {
    assert_eq!(parse_duration_and_unit("15min").unwrap(), DurationAndUnit(15, TermUnit::Min));
    assert_eq!(parse_duration_and_unit("1month").unwrap(), DurationAndUnit(1, TermUnit::Month));
    assert!(matches!(
        parse_duration_and_unit("min"),
        Err(ParseDurationAndUnitError::InvalidFormat(_))
    ));
    assert!(matches!(
        parse_duration_and_unit("300min"),
        Err(ParseDurationAndUnitError::ParseIntError(_))
    ));
    assert!(matches!(
        parse_duration_and_unit("15lightyear"),
        Err(ParseDurationAndUnitError::UnknownUnit(_))
    ));
}

#[test]
fn test_past_duration_msec() {
    let d = parse_duration_and_unit("1month").unwrap();
    assert_eq!(d.past_duration_msec(), 2592000000);
}

#[test]
fn test_decimal_round_trips() {
    assert_eq!(u64_to_dec(0), "0".to_string());
    assert_eq!(u64_to_dec(1500), "1500".to_string());
    assert_eq!(i64_to_dec(-42), "-42".to_string());
    assert_eq!(parse_u64("1144937572000"), Some(1144937572000));
    assert_eq!(parse_u64(""), None);
    assert_eq!(parse_u64("12a"), None);
    assert_eq!(parse_i64("-5"), Some(-5));
    assert_eq!(parse_i64("9223372036854775808"), None);
    assert_eq!(parse_i64("-9223372036854775808"), Some(i64::MIN));
}

#[test]
fn test_trim_and_contains() {
    assert_eq!(trim_ascii("  min \t"), "min");
    assert_eq!(trim_ascii(""), "");
    assert!(str_contains("Parameter bar error", "bar"));
    assert!(!str_contains("Parameter error", "bar"));
}

#[test]
fn test_split_symbol() {
    assert_eq!(
        split_symbol("ETH/BNB"),
        Some(("ETH".to_string(), "BNB".to_string()))
    );
    assert_eq!(split_symbol("ETHBNB"), None);
    assert_eq!(
        split_symbol("A/B/C"),
        Some(("A".to_string(), "B/C".to_string()))
    );
}

#[test]
fn test_kline_number_as_string() {
    assert_eq!(KlineNumber::Unixtime(1682325360000).as_string(), "1682325360000".to_string());
    assert_eq!(KlineNumber::Ohlcv("27376.9".to_string()).as_string(), "27376.9".to_string());
}

#[test]
fn test_pick_up() {
    let data = vec![
        ro_soku::exchange::Kline {
            unixtime_msec: 1682325360000,
            o: "27376.90000000".to_string(),
            h: "27387.04000000".to_string(),
            l: "27339.35000000".to_string(),
            c: "27340.27000000".to_string(),
            v: "48.78558000".to_string(),
        },
        ro_soku::exchange::Kline {
            unixtime_msec: 1682325540000,
            o: "27340.08000000".to_string(),
            h: "27366.68000000".to_string(),
            l: "27333.62000000".to_string(),
            c: "27348.14000000".to_string(),
            v: "55.99021000".to_string(),
        },
    ];
    let picks = vec![Pick::V, Pick::T, Pick::V];
    let rows = Pick::up(data, &picks);
    assert_eq!(rows.len(), 2);
    assert_eq!(
        rows[0],
        vec![
            (Pick::V, KlineNumber::Ohlcv("48.78558000".to_string())),
            (Pick::T, KlineNumber::Unixtime(1682325360000)),
            (Pick::V, KlineNumber::Ohlcv("48.78558000".to_string())),
        ]
    );
    assert_eq!(rows[1][1], (Pick::T, KlineNumber::Unixtime(1682325540000)));
}

#[test]
fn test_error_constructors_and_messages() {
    assert_eq!(ExchangeResponseError::symbol(), ExchangeError::RemoteSymbol);
    assert_eq!(ExchangeResponseError::too_many_requests(), ExchangeError::RateLimited);
    assert_eq!(ExchangeResponseError::no_support_type(), ExchangeError::UnsupportedMarketType);
    assert_eq!(
        ExchangeResponseError::wrap_error("boom".to_string()),
        ExchangeError::Remote("boom".to_string())
    );
    assert_eq!(ExchangeResponseError::unknown(), ExchangeError::UnrecognizedFault);
    let err = ExchangeResponseError::interval(vec!["1m".to_string(), "5m".to_string()]);
    assert_eq!(
        err.message(),
        "The specified interval of candlestick does not exist in this exchange.\nPossible values:\n  1m, 5m"
    );
    assert_eq!(
        ExchangeError::RemoteSymbol.message(),
        "The specified symbol pair does not exist in this exchange."
    );
}

#[test]
fn test_join_strings() {
    assert_eq!(join_strings(&vec![], ", "), "".to_string());
    assert_eq!(join_strings(&vec!["a".to_string()], ", "), "a".to_string());
    assert_eq!(
        join_strings(&vec!["a".to_string(), "b".to_string(), "c".to_string()], ", "),
        "a, b, c".to_string()
    );
}

#[test]
fn test_from_str() {
    assert_eq!(
        DurationAndUnit::from_str("30min").unwrap(),
        DurationAndUnit(30, TermUnit::Min)
    );
    assert!(DurationAndUnit::from_str("nonsense").is_err());
}
