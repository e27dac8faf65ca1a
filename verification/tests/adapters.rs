use ro_soku::error::ExchangeError;
use ro_soku::exchange::binance::Binance;
use ro_soku::exchange::bitbank::Bitbank;
use ro_soku::exchange::bitmex::Bitmex;
use ro_soku::exchange::bybit::Bybit;
use ro_soku::exchange::kraken::Kraken;
use ro_soku::exchange::okx::Okx;
use ro_soku::exchange::Kline;
use ro_soku::unit::parse_duration_and_unit;

fn k(ts: i64, o: &str, h: &str, l: &str, c: &str, v: &str) -> Kline {
    Kline {
        unixtime_msec: ts,
        o: o.to_string(),
        h: h.to_string(),
        l: l.to_string(),
        c: c.to_string(),
        v: v.to_string(),
    }
}

#[test]
fn test_fit_symbol_to_req() {
    let binance = Binance::new();
    assert_eq!(binance.fit_symbol_to_req("ETH/BNB").unwrap(), "ETHBNB".to_string());
    assert!(binance.fit_symbol_to_req("ETHBNB").is_err());
}

#[test]
fn test_fit_interval_to_req() {
    let binance = Binance::new();
    let d = parse_duration_and_unit("15min").unwrap();
    assert_eq!(binance.fit_interval_to_req(&d).unwrap(), "15m".to_string());
    let d = parse_duration_and_unit("1month").unwrap();
    assert_eq!(binance.fit_interval_to_req(&d).unwrap(), "1M".to_string());
}

#[test]
fn binance_test_parse_as_kline() {
    let binance = Binance::new();

    let input = r#"
    [
        [
            1619563200000,
            "0.00001394",
            "0.00001427",
            "0.00001363",
            "0.00001420",
            "592238.00000000"
        ],
        [
            1619563260000,
            "0.00001420",
            "0.00001428",
            "0.00001394",
            "0.00001410",
            "428141.00000000"
        ]
    ]"#
    .to_string();

    let result = binance.parse_as_kline(input).unwrap();
    let expected = vec![
        k(1619563200000, "0.00001394", "0.00001427", "0.00001363", "0.00001420", "592238.00000000"),
        k(1619563260000, "0.00001420", "0.00001428", "0.00001394", "0.00001410", "428141.00000000"),
    ];

    assert_eq!(result, expected);
}

#[test]
fn binance_test_classify() {
    let list = vec!["1m".to_string()];
    assert!(Binance::check_response_error("[]", list.clone()).is_ok());
    assert_eq!(
        Binance::check_response_error(r#"{"code":-1003,"msg":"x"}"#, list.clone()),
        Err(ExchangeError::RateLimited)
    );
    assert_eq!(
        Binance::check_response_error(r#"{"code":-1121,"msg":"x"}"#, list.clone()),
        Err(ExchangeError::RemoteSymbol)
    );
    assert_eq!(
        Binance::check_response_error(r#"{"code":-1120,"msg":"x"}"#, list.clone()),
        Err(ExchangeError::RemoteInterval(list.clone()))
    );
    assert_eq!(
        Binance::check_response_error(r#"{"code":-9999,"msg":"odd"}"#, list),
        Err(ExchangeError::Remote("odd".to_string()))
    );
}

#[test]
fn test_fit_interval_to_req_ok() {
    let bitbank = Bitbank::new();
    let duration_and_unit = parse_duration_and_unit("15min").unwrap();
    assert_eq!(bitbank.fit_interval_to_req(&duration_and_unit).unwrap(), "15min".to_string());
}

#[test]
fn test_fit_interval_to_req_err() {
    let bitbank = Bitbank::new();
    let duration_and_unit = parse_duration_and_unit("3month").unwrap();
    assert!(bitbank.fit_interval_to_req(&duration_and_unit).is_err());
}

#[test]
fn bitbank_test_fit_symbol() {
    let bitbank = Bitbank::new();
    assert_eq!(bitbank.fit_symbol_to_req("BTC/JPY").unwrap(), "btc_jpy".to_string());
}

#[test]
fn test_calculate_date() {
    assert_eq!(Bitbank::calculate_date(1672516800000, "1min"), "20221231".to_string());
    assert_eq!(Bitbank::calculate_date(1672516800000, "4hour"), "2022".to_string());
}

#[test]
fn bitbank_test_parse_as_kline() {
    let bitbank = Bitbank::new();

    let input = r#"
    {
        "success": 1,
        "data": {
          "candlestick": [
            {
              "type": "1month",
              "ohlcv": [
                [
                  "2176084",
                  "3110953",
                  "2168036",
                  "3014463",
                  "8628.4802",
                  1672531200000
                ],
                [
                  "3014445",
                  "3406656",
                  "2830100",
                  "3158202",
                  "7460.3227",
                  1675209600000
                ]
              ]
            }
          ],
          "timestamp": 1683209584353
        }
    }"#
    .to_string();
    let result = bitbank.parse_as_kline(input).unwrap();
    let expected = vec![
        k(1672531200000, "2176084", "3110953", "2168036", "3014463", "8628.4802"),
        k(1675209600000, "3014445", "3406656", "2830100", "3158202", "7460.3227"),
    ];

    assert_eq!(result, expected);
}

#[test]
fn test_remove_unnecessary_raws() {
    let rows = vec![
        k(1672516800000, "0", "0", "0", "0", "0"),
        k(1672531200000, "0", "0", "0", "0", "0"),
        k(1672545600000, "0", "0", "0", "0", "0"),
    ];

    assert_eq!(
        Bitbank::remove_unnecessary_raws(vec![], 0, 0),
        vec![]
    );
    assert_eq!(
        Bitbank::remove_unnecessary_raws(rows.clone(), 1672516800001, 1672545600000),
        rows[1..3].to_vec()
    );
    assert_eq!(
        Bitbank::remove_unnecessary_raws(rows.clone(), 1672516800000, 1672545599999),
        rows[0..2].to_vec()
    );
}

#[test]
fn trim_overfetch_keeps_inner_row() {
    let t0: i64 = 1672516800000;
    let t1: i64 = 1672531200000;
    let t2: i64 = 1672545600000;
    let rows = vec![
        k(t0, "0", "0", "0", "0", "0"),
        k(t1, "0", "0", "0", "0", "0"),
        k(t2, "0", "0", "0", "0", "0"),
    ];
    let trimmed = Bitbank::remove_unnecessary_raws(rows, t0 + 1, t2 - 1);
    assert_eq!(trimmed.len(), 1);
    assert_eq!(trimmed[0].unixtime_msec, t1);
}

#[test]
fn bitmex_test_fit_symbol_to_req() {
    let bitmex = Bitmex::new();
    assert_eq!(bitmex.fit_symbol_to_req("BTC/USDT").unwrap(), "XBTUSDT".to_string());
    assert_eq!(bitmex.fit_symbol_to_req("MARUMO/JPY").unwrap(), "MARUMOJPY".to_string());
}

#[test]
fn bitmex_test_parse_as_kline() {
    let bitmex = Bitmex::new();

    let input = r#"
    [
        {
            "symbol": "ETHUSD",
            "timestamp": "2023-05-02T15:20:00.000Z",
            "open": 1860.25,
            "high": 1860.95,
            "low": 1860,
            "close": 1860.55,
            "volume": 2304
        },
        {
            "symbol": "ETHUSD",
            "timestamp": "2023-05-02T15:21:00.000Z",
            "open": 1860.55,
            "high": 1861.95,
            "low": 1860.4,
            "close": 1860.55,
            "volume": 1723
        }
    ]"#
    .to_string();
    let result = bitmex.parse_as_kline(input).unwrap();
    let expected = vec![
        k(1683040800000, "1860.25", "1860.95", "1860", "1860.55", "2304"),
        k(1683040860000, "1860.55", "1861.95", "1860.4", "1860.55", "1723"),
    ];

    assert_eq!(result, expected);
}

#[test]
fn bitmex_test_classify() {
    let list = vec!["1m".to_string()];
    assert!(Bitmex::check_response_error("[]", list.clone()).is_ok());
    assert_eq!(
        Bitmex::check_response_error(
            r#"{"error":{"message":"Invalid binSize","name":"HTTPError"}}"#,
            list.clone()
        ),
        Err(ExchangeError::RemoteInterval(list))
    );
}

#[test]
fn bybit_test_fit_interval_to_req() {
    let bybit = Bybit::new();
    assert_eq!(
        bybit.fit_interval_to_req(&parse_duration_and_unit("1min").unwrap()).unwrap(),
        "1".to_string()
    );
    assert_eq!(
        bybit.fit_interval_to_req(&parse_duration_and_unit("15min").unwrap()).unwrap(),
        "15".to_string()
    );
    assert_eq!(
        bybit.fit_interval_to_req(&parse_duration_and_unit("4hour").unwrap()).unwrap(),
        "240".to_string()
    );
    assert!(bybit.fit_interval_to_req(&parse_duration_and_unit("1sec").unwrap()).is_err());
    assert!(bybit.fit_interval_to_req(&parse_duration_and_unit("3day").unwrap()).is_err());
    assert!(bybit.fit_interval_to_req(&parse_duration_and_unit("2week").unwrap()).is_err());
    assert!(bybit.fit_interval_to_req(&parse_duration_and_unit("4month").unwrap()).is_err());
    assert_eq!(
        bybit.fit_interval_to_req(&parse_duration_and_unit("1day").unwrap()).unwrap(),
        "D".to_string()
    );
}

#[test]
fn bybit_test_parse_as_kline() {
    let bybit = Bybit::new();

    let input = r#"
    {
        "retCode": 0,
        "retMsg": "OK",
        "result": {
            "category": "spot",
            "symbol": "BTCUSDT",
            "list": [
                [
                    "1682922600000",
                    "28555.21",
                    "28560.56",
                    "28548.75",
                    "28548.76",
                    "13.05842",
                    "372910.44913563"
                ],
                [
                    "1682921700000",
                    "28505.02",
                    "28555.21",
                    "28487.31",
                    "28555.21",
                    "31.123026",
                    "887365.25928333"
                ]
            ]
        },
        "retExtInfo": {},
        "time": 1682922881591
    }"#
    .to_string();
    let result = bybit.parse_as_kline(input).unwrap();
    let expected = vec![
        k(1682922600000, "28555.21", "28560.56", "28548.75", "28548.76", "13.05842"),
        k(1682921700000, "28505.02", "28555.21", "28487.31", "28555.21", "31.123026"),
    ];

    assert_eq!(result, expected);
}

#[test]
fn bybit_test_classify() {
    let list = vec!["1".to_string()];
    let ok = r#"{"retCode":0,"retMsg":"OK","result":{}}"#;
    assert!(Bybit::check_response_error(ok, list.clone()).is_ok());
    assert_eq!(
        Bybit::check_response_error(
            r#"{"retCode":10001,"retMsg":"Invalid period!","result":{}}"#,
            list.clone()
        ),
        Err(ExchangeError::RemoteInterval(list.clone()))
    );
    assert_eq!(
        Bybit::check_response_error(
            r#"{"retCode":10001,"retMsg":"Not supported symbols","result":{}}"#,
            list.clone()
        ),
        Err(ExchangeError::RemoteSymbol)
    );
    assert_eq!(
        Bybit::check_response_error(
            r#"{"retCode":10002,"retMsg":"throttled","result":{}}"#,
            list
        ),
        Err(ExchangeError::RateLimited)
    );
}

#[test]
fn okx_test_fit_symbol_and_interval() {
    let okx = Okx::new();
    assert_eq!(okx.fit_symbol_to_req("BTC/USDT").unwrap(), "BTC-USDT".to_string());
    assert_eq!(
        okx.fit_interval_to_req(&parse_duration_and_unit("15min").unwrap()).unwrap(),
        "15m".to_string()
    );
    assert!(okx.fit_interval_to_req(&parse_duration_and_unit("1day").unwrap()).is_err());
}

#[test]
fn okx_test_parse_as_kline() {
    let okx = Okx::new();

    let input = r#"
    {
        "code": "0",
        "msg": "",
        "data": [
          [
            "1683040920000",
            "28547.9",
            "28563.3",
            "28499.9",
            "28501.2",
            "20.39751017",
            "582029.970323109",
            "582029.970323109",
            "1"
          ],
          [
            "1683040860000",
            "28543.2",
            "28597.2",
            "28539.5",
            "28547.9",
            "45.63491347",
            "1304118.941650916",
            "1304118.941650916",
            "1"
          ]
        ]
    }"#
    .to_string();
    let result = okx.parse_as_kline(input).unwrap();
    let expected = vec![
        k(1683040920000, "28547.9", "28563.3", "28499.9", "28501.2", "20.39751017"),
        k(1683040860000, "28543.2", "28597.2", "28539.5", "28547.9", "45.63491347"),
    ];

    assert_eq!(result, expected);
}

#[test]
fn okx_test_classify() {
    let list = vec!["15m".to_string()];
    assert!(Okx::check_response_error(r#"{"code":"0","msg":"","data":[]}"#, list.clone()).is_ok());
    assert_eq!(
        Okx::check_response_error(r#"{"code":"50011","msg":"slow down","data":[]}"#, list.clone()),
        Err(ExchangeError::RateLimited)
    );
    assert_eq!(
        Okx::check_response_error(
            r#"{"code":"51000","msg":"Parameter bar error","data":[]}"#,
            list.clone()
        ),
        Err(ExchangeError::RemoteInterval(list.clone()))
    );
    assert_eq!(
        Okx::check_response_error(r#"{"code":"51001","msg":"no instrument","data":[]}"#, list),
        Err(ExchangeError::RemoteSymbol)
    );
}

#[test]
fn kraken_test_fit_symbol_to_req() {
    let kraken = Kraken::new();
    assert_eq!(kraken.fit_symbol_to_req("BTC/USDT").unwrap(), "XBTUSDT".to_string());
    assert_eq!(kraken.fit_symbol_to_req("MARUMO/JPY").unwrap(), "MARUMOJPY".to_string());
    assert_eq!(kraken.fit_symbol_to_req("DOGE/USD").unwrap(), "XDGUSD".to_string());
}

#[test]
fn kraken_test_fit_interval_to_req() {
    let kraken = Kraken::new();
    assert!(kraken.fit_interval_to_req(&parse_duration_and_unit("1sec").unwrap()).is_err());
    assert_eq!(
        kraken.fit_interval_to_req(&parse_duration_and_unit("15min").unwrap()).unwrap(),
        "15".to_string()
    );
    assert_eq!(
        kraken.fit_interval_to_req(&parse_duration_and_unit("4hour").unwrap()).unwrap(),
        "240".to_string()
    );
    assert_eq!(
        kraken.fit_interval_to_req(&parse_duration_and_unit("1week").unwrap()).unwrap(),
        "10080".to_string()
    );
    assert!(kraken.fit_interval_to_req(&parse_duration_and_unit("2month").unwrap()).is_err());
}

#[test]
fn kraken_test_parse_as_kline() {
    let kraken = Kraken::new();
    let input = r#"
    {
        "error": [],
        "result": {
            "XXBTZUSD": [
                [1688671200, "30306.1", "30306.2", "30305.7", "30305.7", "30306.1"],
                [1688671260, "30304.5", "30304.5", "30300.0", "30300.0", "30304.5"]
            ],
            "last": 1688672160
        }
    }"#
    .to_string();
    let result = kraken.parse_as_kline(input).unwrap();
    assert_eq!(result.len(), 2);
    assert_eq!(result[0].unixtime_msec, 1688671200000);
    assert_eq!(result[0].o, "30306.1");
    assert_eq!(result[1].unixtime_msec, 1688671260000);
}

#[test]
fn parse_shape_faults_are_reported() {
    // A response that does not match the expected schema is a fault, never
    // an empty success.
    let list_like = r#"{"a": 1}"#.to_string();
    assert_eq!(
        Binance::new().parse_as_kline(list_like),
        Err(ExchangeError::ShapeFault)
    );
    let row_too_short = r#"[[1619563200000, "1"]]"#.to_string();
    assert_eq!(
        Binance::new().parse_as_kline(row_too_short),
        Err(ExchangeError::ShapeFault)
    );
    let not_json = "candles: none".to_string();
    assert_eq!(
        Binance::new().parse_as_kline(not_json),
        Err(ExchangeError::ShapeFault)
    );
    let missing_list = r#"{"retCode":0,"retMsg":"OK","result":{}}"#.to_string();
    assert_eq!(
        Bybit::new().parse_as_kline(missing_list),
        Err(ExchangeError::ShapeFault)
    );
    let bad_timestamp = r#"[{"timestamp":"not a time","open":1,"high":1,"low":1,"close":1,"volume":1}]"#
        .to_string();
    assert_eq!(
        Bitmex::new().parse_as_kline(bad_timestamp),
        Err(ExchangeError::ShapeFault)
    );
}

#[test]
fn empty_pages_parse_to_no_rows() {
    assert_eq!(Binance::new().parse_as_kline("[]".to_string()).unwrap(), vec![]);
    assert_eq!(
        Okx::new()
            .parse_as_kline(r#"{"code":"0","msg":"","data":[]}"#.to_string())
            .unwrap(),
        vec![]
    );
}
