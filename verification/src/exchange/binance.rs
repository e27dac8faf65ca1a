use vstd::prelude::*;

use crate::args::{MarketType, ParsedArgs};
use crate::error::{ExchangeError, ExchangeResponseError};
use crate::exchange::{has_separator, malformed_symbol_error, split_symbol, symbol_base, symbol_quote, Kline};
use crate::jsontree::{decode_json, obj_get, obj_lookup, JsonTree};
use crate::text::{dec_of, dec_of_int, i64_to_dec, int_val, is_int_str, parse_i64, u64_to_dec};
use crate::unit::{DurationAndUnit, TermUnit};

verus! {

/// The Binance adapter: request parameters, market type and endpoint are
/// rebuilt by `prepare` for every page.
#[derive(Debug)]
pub struct Binance {
    pub params: Vec<(String, String)>,
    pub market_type: MarketType,
    pub endpoint: String,
}

/// Binance's native symbol: base and quote concatenated.
pub open spec fn binance_symbol(s: Seq<char>) -> Seq<char> {
    symbol_base(s) + symbol_quote(s)
}

/// Binance's interval suffix letter; months are uppercase to keep them
/// apart from minutes.
pub open spec fn binance_unit_char(u: TermUnit) -> char {
    match u {
        TermUnit::Sec => 's',
        TermUnit::Min => 'm',
        TermUnit::Hour => 'h',
        TermUnit::Day => 'd',
        TermUnit::Week => 'w',
        TermUnit::Month => 'M',
    }
}

/// Binance's native interval token: the count, then the suffix letter.
pub open spec fn binance_interval(d: DurationAndUnit) -> Seq<char> {
    dec_of(d.0 as int) + seq![binance_unit_char(d.1)]
}

/// One Binance row: an array whose first six cells are the open time as a
/// JSON integer and the prices and volume as strings.
pub open spec fn binance_row_kline(row: Seq<JsonTree>) -> Option<Kline> {
    if row.len() >= 6 {
        match (row[0], row[1], row[2], row[3], row[4], row[5]) {
            (
                JsonTree::Num(ts),
                JsonTree::Text(o),
                JsonTree::Text(h),
                JsonTree::Text(l),
                JsonTree::Text(c),
                JsonTree::Text(v),
            ) => {
                if is_int_str(ts@) && i64::MIN <= int_val(ts@) <= i64::MAX {
                    Some(
                        Kline {
                            unixtime_msec: int_val(ts@) as i64,
                            o,
                            h,
                            l,
                            c,
                            v,
                        },
                    )
                } else {
                    None
                }
            },
            _ => None,
        }
    } else {
        None
    }
}

/// The rows of a Binance response: every element must be an array shaped as
/// `binance_row_kline` asks.
pub open spec fn binance_rows_klines(rows: Seq<JsonTree>) -> Option<Seq<Kline>>
    decreases rows.len(),
{
    if rows.len() == 0 {
        Some(Seq::empty())
    } else {
        match binance_rows_klines(rows.drop_last()) {
            Some(init) => match rows.last() {
                JsonTree::Arr(cells) => match binance_row_kline(cells@) {
                    Some(k) => Some(init.push(k)),
                    None => None,
                },
                _ => None,
            },
            None => None,
        }
    }
}

/// A whole Binance response body: an array of rows.
pub open spec fn binance_klines_of(tree: JsonTree) -> Option<Seq<Kline>> {
    match tree {
        JsonTree::Arr(rows) => binance_rows_klines(rows@),
        _ => None,
    }
}

/// The canonical error a decoded Binance response maps to: a body carrying
/// the error envelope is classified by its code; any other body passes.
pub open spec fn binance_error_of(tree: JsonTree, valid_intervals: Vec<String>) -> Result<
    (),
    ExchangeError,
> {
    match tree {
        JsonTree::Obj(entries) => match (obj_lookup(entries@, "code"@), obj_lookup(
            entries@,
            "msg"@,
        )) {
            (Some(JsonTree::Num(code)), Some(JsonTree::Text(msg))) => {
                if is_int_str(code@) && -0x8000_0000 <= int_val(code@) < 0x8000_0000 {
                    if int_val(code@) == -1003 {
                        Err(ExchangeError::RateLimited)
                    } else if int_val(code@) == -1120 {
                        Err(ExchangeError::RemoteInterval(valid_intervals))
                    } else if int_val(code@) == -1121 {
                        Err(ExchangeError::RemoteSymbol)
                    } else {
                        Err(ExchangeError::Remote(msg))
                    }
                } else {
                    Ok(())
                }
            },
            _ => Ok(()),
        },
        _ => Ok(()),
    }
}

impl Binance {
    /// A fresh adapter for the spot market with nothing prepared.
    pub fn new() -> (r: Self)
        ensures
            r.params@.len() == 0,
            r.market_type == MarketType::Spot,
            r.endpoint@.len() == 0,
    {
        Binance { params: Vec::new(), market_type: MarketType::Spot, endpoint: String::new() }
    }

    /// Builds the request for the current window: symbol, interval, term
    /// ends and page limit as query parameters, against the spot or
    /// perpetual endpoint; only a malformed symbol is rejected.
    pub fn prepare(&mut self, args: &ParsedArgs) -> (r: Result<(), ExchangeError>)
        requires
            old(self).params@.len() >= 0,
            args.term_start is Some,
            args.term_end is Some,
        ensures
            r is Ok <==> has_separator(args.symbol@),
            r is Err ==> *final(self) == *old(self) && r->Err_0 is Config,
            r is Ok ==> {
                &&& final(self).market_type == args.type_
                &&& final(self).endpoint@ == (if args.type_ == MarketType::Spot {
                    "https://data-api.binance.vision/api/v3/klines"@
                } else {
                    "https://fapi.binance.com/fapi/v1/klines"@
                })
                &&& final(self).params@.len() == 5
                &&& final(self).params@[0].0@ == "symbol"@
                &&& final(self).params@[0].1@ == binance_symbol(args.symbol@)
                &&& final(self).params@[1].0@ == "interval"@
                &&& final(self).params@[1].1@ == binance_interval(args.interval)
                &&& final(self).params@[2].0@ == "startTime"@
                &&& final(self).params@[2].1@ == dec_of_int(args.term_start->0 as int)
                &&& final(self).params@[3].0@ == "endTime"@
                &&& final(self).params@[3].1@ == dec_of_int(args.term_end->0 as int)
                &&& final(self).params@[4].0@ == "limit"@
                &&& final(self).params@[4].1@ == (if args.type_ == MarketType::Spot {
                    "1000"@
                } else {
                    "1500"@
                })
            },
    {
        let symbol = match self.fit_symbol_to_req(args.symbol.as_str()) {
            Ok(s) => s,
            Err(e) => { return Err(e); },
        };
        let interval = match self.fit_interval_to_req(&args.interval) {
            Ok(i) => i,
            Err(e) => { return Err(e); },
        };
        let start = match args.term_start {
            Some(t) => t,
            None => 0,
        };
        let end = match args.term_end {
            Some(t) => t,
            None => 0,
        };
        let mut params: Vec<(String, String)> = Vec::new();
        params.push(("symbol".to_owned(), symbol));
        params.push(("interval".to_owned(), interval));
        params.push(("startTime".to_owned(), i64_to_dec(start)));
        params.push(("endTime".to_owned(), i64_to_dec(end)));
        match args.type_ {
            MarketType::Spot => params.push(("limit".to_owned(), "1000".to_owned())),
            MarketType::Perpetual => params.push(("limit".to_owned(), "1500".to_owned())),
        }
        self.params = params;
        match args.type_ {
            MarketType::Spot => {
                self.market_type = MarketType::Spot;
                self.endpoint = "https://data-api.binance.vision/api/v3/klines".to_owned();
            },
            MarketType::Perpetual => {
                self.market_type = MarketType::Perpetual;
                self.endpoint = "https://fapi.binance.com/fapi/v1/klines".to_owned();
            },
        }
        Ok(())
    }

    /// Translates a canonical `BASE/QUOTE` symbol into Binance's native
    /// form; a symbol without the separator is rejected.
    pub fn fit_symbol_to_req(&self, symbol: &str) -> (r: Result<String, ExchangeError>)
        ensures
            r is Ok <==> has_separator(symbol@),
            r matches Ok(t) ==> t@ == binance_symbol(symbol@),
            r matches Err(e) ==> e matches ExchangeError::Config(m) && m@
                == "The symbol pair provided is incorrectly formatted."@,
    {
        match split_symbol(symbol) {
            Some((base, quote)) => {
                let joined = base.concat(quote.as_str());
                Ok(joined)
            },
            None => Err(malformed_symbol_error()),
        }
    }

    /// Translates a canonical interval into Binance's native token; every
    /// interval has one.
    pub fn fit_interval_to_req(&self, interval: &DurationAndUnit) -> (r: Result<
        String,
        ExchangeError,
    >)
        ensures
            r matches Ok(t) && t@ == binance_interval(*interval),
    {
        let count = u64_to_dec(interval.0 as u64);
        let suffix = match interval.1 {
            TermUnit::Sec => "s",
            TermUnit::Min => "m",
            TermUnit::Hour => "h",
            TermUnit::Day => "d",
            TermUnit::Week => "w",
            TermUnit::Month => "M",
        };
        proof {
            reveal_strlit("s");
            reveal_strlit("m");
            reveal_strlit("h");
            reveal_strlit("d");
            reveal_strlit("w");
            reveal_strlit("M");
            assert(suffix@ =~= seq![binance_unit_char(interval.1)]);
        }
        Ok(count.concat(suffix))
    }

    /// Reads a decoded response for Binance's error envelope and classifies
    /// its code: throttling, a rejected interval (carrying the accepted
    /// tokens), a rejected symbol, or a passthrough message.
    pub fn classify_tree(tree: &JsonTree, valid_intervals: Vec<String>) -> (r: Result<
        (),
        ExchangeError,
    >)
        ensures
            r == binance_error_of(*tree, valid_intervals),
    {
        let entries = match tree {
            JsonTree::Obj(entries) => entries,
            _ => { return Ok(()); },
        };
        let code = match obj_get(entries, "code") {
            Some(JsonTree::Num(code)) => code,
            _ => { return Ok(()); },
        };
        let msg = match obj_get(entries, "msg") {
            Some(JsonTree::Text(msg)) => msg,
            _ => { return Ok(()); },
        };
        let code_val = match parse_i64(code.as_str()) {
            Some(v) => v,
            None => { return Ok(()); },
        };
        if code_val < -0x8000_0000 || code_val >= 0x8000_0000 {
            return Ok(());
        }
        if code_val == -1003 {
            Err(ExchangeResponseError::too_many_requests())
        } else if code_val == -1120 {
            Err(ExchangeResponseError::interval(valid_intervals))
        } else if code_val == -1121 {
            Err(ExchangeResponseError::symbol())
        } else {
            Err(ExchangeResponseError::wrap_error(msg.clone()))
        }
    }

    /// Inspects a raw response body for Binance's error envelope; a body
    /// that is not JSON, or that holds no envelope, passes. What came back
    /// is classified by `classify_tree`, whatever it holds.
    pub fn check_response_error(body: &str, valid_intervals: Vec<String>) -> (r: Result<
        (),
        ExchangeError,
    >)
        ensures
            r matches Err(e) ==> (e is RateLimited || e is RemoteInterval || e is RemoteSymbol
                || e is Remote),
            crate::jsontree::json_of(body@) is None ==> r is Ok,
            crate::jsontree::json_of(body@) matches Some(t) ==> r == binance_error_of(
                t,
                valid_intervals,
            ),
    {
        match decode_json(body) {
            Some(tree) => Binance::classify_tree(&tree, valid_intervals),
            None => Ok(()),
        }
    }

    /// Reads one decoded row into a candlestick.
    fn row_kline(cells: &Vec<JsonTree>) -> (r: Option<Kline>)
        ensures
            r == binance_row_kline(cells@),
    {
        if cells.len() < 6 {
            return None;
        }
        let ts = match &cells[0] {
            JsonTree::Num(ts) => ts,
            _ => { return None; },
        };
        let o = match &cells[1] {
            JsonTree::Text(o) => o,
            _ => { return None; },
        };
        let h = match &cells[2] {
            JsonTree::Text(h) => h,
            _ => { return None; },
        };
        let l = match &cells[3] {
            JsonTree::Text(l) => l,
            _ => { return None; },
        };
        let c = match &cells[4] {
            JsonTree::Text(c) => c,
            _ => { return None; },
        };
        let v = match &cells[5] {
            JsonTree::Text(v) => v,
            _ => { return None; },
        };
        let unixtime_msec = match parse_i64(ts.as_str()) {
            Some(t) => t,
            None => { return None; },
        };
        Some(
            Kline {
                unixtime_msec,
                o: o.clone(),
                h: h.clone(),
                l: l.clone(),
                c: c.clone(),
                v: v.clone(),
            },
        )
    }

    /// Extracts the candlesticks from a decoded Binance response; any
    /// departure from the expected shape is a fault, never an empty result.
    pub fn klines_from_tree(tree: &JsonTree) -> (r: Result<Vec<Kline>, ExchangeError>)
        ensures
            r matches Ok(ks) ==> binance_klines_of(*tree) == Some(ks@),
            r is Err <==> binance_klines_of(*tree) is None,
            r matches Err(e) ==> e == ExchangeError::ShapeFault,
    {
        let rows = match tree {
            JsonTree::Arr(rows) => rows,
            _ => { return Err(ExchangeError::ShapeFault); },
        };
        let n = rows.len();
        let mut out: Vec<Kline> = Vec::new();
        let mut i: usize = 0;
        while i < n
            invariant
                n == rows@.len(),
                0 <= i <= n,
                binance_klines_of(*tree) == binance_rows_klines(rows@),
                binance_rows_klines(rows@.subrange(0, i as int)) == Some(out@),
            decreases n - i,
        {
            let cells = match &rows[i] {
                JsonTree::Arr(cells) => cells,
                _ => {
                    proof {
                        lemma_binance_rows_prefix_fault(rows@, i as int);
                    }
                    return Err(ExchangeError::ShapeFault);
                },
            };
            let k = match Binance::row_kline(cells) {
                Some(k) => k,
                None => {
                    proof {
                        lemma_binance_rows_prefix_fault(rows@, i as int);
                    }
                    return Err(ExchangeError::ShapeFault);
                },
            };
            out.push(k);
            i = i + 1;
            proof {
                assert(rows@.subrange(0, i as int).drop_last() =~= rows@.subrange(0, i as int - 1));
                assert(rows@.subrange(0, i as int).last() == rows@[i as int - 1]);
            }
        }
        proof {
            assert(rows@.subrange(0, n as int) =~= rows@);
        }
        Ok(out)
    }

    /// Parses a raw Binance response body into candlesticks.
    pub fn parse_as_kline(&self, data: String) -> (r: Result<Vec<Kline>, ExchangeError>)
        ensures
            r matches Err(e) ==> e == ExchangeError::ShapeFault,
            crate::jsontree::json_of(data@) is None ==> r is Err,
            crate::jsontree::json_of(data@) matches Some(t) ==> {
                &&& (r matches Ok(ks) ==> binance_klines_of(t) == Some(ks@))
                &&& (r is Err <==> binance_klines_of(t) is None)
            },
    {
        match decode_json(data.as_str()) {
            Some(tree) => Binance::klines_from_tree(&tree),
            None => Err(ExchangeError::ShapeFault),
        }
    }
}

/// A shape fault in one row spoils the whole response.
proof fn lemma_binance_rows_prefix_fault(rows: Seq<JsonTree>, i: int)
    requires
        0 <= i < rows.len(),
        !(rows[i] matches JsonTree::Arr(cells) && binance_row_kline(cells@) is Some),
    ensures
        binance_rows_klines(rows) is None,
    decreases rows.len() - i,
{
    if i == rows.len() - 1 {
        assert(rows.last() == rows[i]);
    } else {
        assert(rows.drop_last()[i] == rows[i]);
        lemma_binance_rows_prefix_fault(rows.drop_last(), i);
    }
}

} // verus!
