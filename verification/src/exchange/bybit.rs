use vstd::prelude::*;

use crate::args::{MarketType, ParsedArgs};
use crate::error::{ExchangeError, ExchangeResponseError};
use crate::exchange::{has_separator, malformed_symbol_error, split_symbol, symbol_base, symbol_quote, Kline};
use crate::jsontree::{decode_json, obj_get, obj_lookup, JsonTree};
use crate::text::{dec_of, dec_of_int, i64_to_dec, int_val, is_int_str, parse_i64, str_eq, u64_to_dec};
use crate::unit::{DurationAndUnit, TermUnit};

verus! {

/// The Bybit adapter: request parameters, market type and endpoint are
/// rebuilt by `prepare` for every page.
#[derive(Debug)]
pub struct Bybit {
    pub params: Vec<(String, String)>,
    pub market_type: MarketType,
    pub endpoint: String,
    pub limit: i32,
}

/// Bybit's native symbol: base and quote concatenated.
pub open spec fn bybit_symbol(s: Seq<char>) -> Seq<char> {
    symbol_base(s) + symbol_quote(s)
}

/// Bybit's native interval token, where one exists: minutes as a bare
/// count, hours as minutes, and single days, weeks and months as letters.
pub open spec fn bybit_interval(d: DurationAndUnit) -> Option<Seq<char>> {
    match d.1 {
        TermUnit::Sec => None,
        TermUnit::Min => Some(dec_of(d.0 as int)),
        TermUnit::Hour => Some(dec_of(d.0 as int * 60)),
        TermUnit::Day => if d.0 == 1 {
            Some("D"@)
        } else {
            None
        },
        TermUnit::Week => if d.0 == 1 {
            Some("W"@)
        } else {
            None
        },
        TermUnit::Month => if d.0 == 1 {
            Some("M"@)
        } else {
            None
        },
    }
}

/// One Bybit row: an array whose first six cells are strings, the first a
/// decimal timestamp.
pub open spec fn bybit_row_kline(row: Seq<JsonTree>) -> Option<Kline> {
    if row.len() >= 6 {
        match (row[0], row[1], row[2], row[3], row[4], row[5]) {
            (
                JsonTree::Text(ts),
                JsonTree::Text(o),
                JsonTree::Text(h),
                JsonTree::Text(l),
                JsonTree::Text(c),
                JsonTree::Text(v),
            ) => {
                if is_int_str(ts@) && i64::MIN <= int_val(ts@) <= i64::MAX {
                    Some(Kline { unixtime_msec: int_val(ts@) as i64, o, h, l, c, v })
                } else {
                    None
                }
            },
            _ => None,
        }
    } else {
        None
    }
}

/// The rows of a Bybit response list.
pub open spec fn bybit_rows_klines(rows: Seq<JsonTree>) -> Option<Seq<Kline>>
    decreases rows.len(),
{
    if rows.len() == 0 {
        Some(Seq::empty())
    } else {
        match bybit_rows_klines(rows.drop_last()) {
            Some(init) => match rows.last() {
                JsonTree::Arr(cells) => match bybit_row_kline(cells@) {
                    Some(k) => Some(init.push(k)),
                    None => None,
                },
                _ => None,
            },
            None => None,
        }
    }
}

/// A whole Bybit response body: an object whose `result.list` holds the
/// rows.
pub open spec fn bybit_klines_of(tree: JsonTree) -> Option<Seq<Kline>> {
    match tree {
        JsonTree::Obj(entries) => match obj_lookup(entries@, "result"@) {
            Some(JsonTree::Obj(result)) => match obj_lookup(result@, "list"@) {
                Some(JsonTree::Arr(rows)) => bybit_rows_klines(rows@),
                _ => None,
            },
            _ => None,
        },
        _ => None,
    }
}

/// The canonical error a decoded Bybit response maps to: the envelope's
/// return code decides, zero passing; a body without the envelope's shape
/// is itself a fault.
pub open spec fn bybit_error_of(tree: JsonTree, valid_intervals: Vec<String>) -> Result<
    (),
    ExchangeError,
> {
    match tree {
        JsonTree::Obj(entries) => match (obj_lookup(entries@, "retCode"@), obj_lookup(
            entries@,
            "retMsg"@,
        )) {
            (Some(JsonTree::Num(code)), Some(JsonTree::Text(msg))) => {
                if is_int_str(code@) && i64::MIN <= int_val(code@) <= i64::MAX {
                    if int_val(code@) == 0 {
                        Ok(())
                    } else if int_val(code@) == 10001 {
                        if msg@ == "Invalid period!"@ {
                            Err(ExchangeError::RemoteInterval(valid_intervals))
                        } else if msg@ == "Not supported symbols"@ {
                            Err(ExchangeError::RemoteSymbol)
                        } else {
                            Err(ExchangeError::UnrecognizedFault)
                        }
                    } else if int_val(code@) == 10002 {
                        Err(ExchangeError::RateLimited)
                    } else {
                        Err(ExchangeError::Remote(msg))
                    }
                } else {
                    Err(ExchangeError::ShapeFault)
                }
            },
            _ => Err(ExchangeError::ShapeFault),
        },
        _ => Err(ExchangeError::ShapeFault),
    }
}

impl Bybit {
    /// A fresh adapter for the spot market with nothing prepared.
    pub fn new() -> (r: Self)
        ensures
            r.params@.len() == 0,
            r.market_type == MarketType::Spot,
            r.endpoint@ == "https://api.bybit.com/v5/market/kline"@,
            r.limit == 200,
    {
        Bybit {
            params: Vec::new(),
            market_type: MarketType::Spot,
            endpoint: "https://api.bybit.com/v5/market/kline".to_owned(),
            limit: 200,
        }
    }

    /// Builds the request for the current window: the market category,
    /// symbol, interval, term ends and page limit as query parameters.
    pub fn prepare(&mut self, args: &ParsedArgs) -> (r: Result<(), ExchangeError>)
        requires
            args.term_start is Some,
            args.term_end is Some,
        ensures
            r is Ok <==> has_separator(args.symbol@) && bybit_interval(args.interval) is Some,
            r is Err ==> *final(self) == *old(self) && r->Err_0 is Config,
            r is Ok ==> {
                &&& final(self).market_type == args.type_
                &&& final(self).endpoint == old(self).endpoint
                &&& final(self).limit == old(self).limit
                &&& final(self).params@.len() == 6
                &&& final(self).params@[0].0@ == "category"@
                &&& final(self).params@[0].1@ == (if args.type_ == MarketType::Spot {
                    "spot"@
                } else {
                    "linear"@
                })
                &&& final(self).params@[1].0@ == "symbol"@
                &&& final(self).params@[1].1@ == bybit_symbol(args.symbol@)
                &&& final(self).params@[2].0@ == "interval"@
                &&& bybit_interval(args.interval) == Some(final(self).params@[2].1@)
                &&& final(self).params@[3].0@ == "start"@
                &&& final(self).params@[3].1@ == dec_of_int(args.term_start->0 as int)
                &&& final(self).params@[4].0@ == "end"@
                &&& final(self).params@[4].1@ == dec_of_int(args.term_end->0 as int)
                &&& final(self).params@[5].0@ == "limit"@
                &&& final(self).params@[5].1@ == dec_of_int(old(self).limit as int)
            },
    {
        let symbol = match self.fit_symbol_to_req(args.symbol.as_str()) {
            Ok(s) => s,
            Err(e) => { return Err(e); },
        };
        let interval = match self.fit_interval_to_req(&args.interval) {
            Ok(i) => i,
            Err(e) => { return Err(e); },
        };
        let start = match args.term_start {
            Some(t) => t,
            None => 0,
        };
        let end = match args.term_end {
            Some(t) => t,
            None => 0,
        };
        let category = match args.type_ {
            MarketType::Spot => "spot".to_owned(),
            MarketType::Perpetual => "linear".to_owned(),
        };
        let mut params: Vec<(String, String)> = Vec::new();
        params.push(("category".to_owned(), category));
        params.push(("symbol".to_owned(), symbol));
        params.push(("interval".to_owned(), interval));
        params.push(("start".to_owned(), i64_to_dec(start)));
        params.push(("end".to_owned(), i64_to_dec(end)));
        params.push(("limit".to_owned(), i64_to_dec(self.limit as i64)));
        self.params = params;
        match args.type_ {
            MarketType::Spot => self.market_type = MarketType::Spot,
            MarketType::Perpetual => self.market_type = MarketType::Perpetual,
        }
        Ok(())
    }

    /// Translates a canonical `BASE/QUOTE` symbol into Bybit's native form;
    /// a symbol without the separator is rejected.
    pub fn fit_symbol_to_req(&self, symbol: &str) -> (r: Result<String, ExchangeError>)
        ensures
            r is Ok <==> has_separator(symbol@),
            r matches Ok(t) ==> t@ == bybit_symbol(symbol@),
            r matches Err(e) ==> e matches ExchangeError::Config(m) && m@
                == "The symbol pair provided is incorrectly formatted."@,
    {
        match split_symbol(symbol) {
            Some((base, quote)) => Ok(base.concat(quote.as_str())),
            None => Err(malformed_symbol_error()),
        }
    }

    /// Translates a canonical interval into Bybit's native token; seconds
    /// and multi-unit days, weeks and months have none and are rejected.
    pub fn fit_interval_to_req(&self, interval: &DurationAndUnit) -> (r: Result<
        String,
        ExchangeError,
    >)
        ensures
            r is Ok <==> bybit_interval(*interval) is Some,
            r matches Ok(t) ==> bybit_interval(*interval) == Some(t@),
            r matches Err(e) ==> e is Config,
    {
        match interval.1 {
            TermUnit::Sec => Err(
                ExchangeError::Config("Bybit does not support candlestick of seconds".to_owned()),
            ),
            TermUnit::Min => Ok(u64_to_dec(interval.0 as u64)),
            TermUnit::Hour => Ok(u64_to_dec(interval.0 as u64 * 60)),
            TermUnit::Day => {
                if interval.0 != 1 {
                    Err(
                        ExchangeError::Config(
                            "warn: In Bybit, when using `day` units, only `1` number can be used. Continue processing as `1day`.".to_owned(),
                        ),
                    )
                } else {
                    Ok("D".to_owned())
                }
            },
            TermUnit::Week => {
                if interval.0 != 1 {
                    Err(
                        ExchangeError::Config(
                            "warn: In Bybit, when using `week` units, only `1` number can be used. Continue processing as `week`.".to_owned(),
                        ),
                    )
                } else {
                    Ok("W".to_owned())
                }
            },
            TermUnit::Month => {
                if interval.0 != 1 {
                    Err(
                        ExchangeError::Config(
                            "warn: In Bybit, when using `1month` units, only `1` number can be used. Continue processing as `1month`.".to_owned(),
                        ),
                    )
                } else {
                    Ok("M".to_owned())
                }
            },
        }
    }

    /// Classifies a decoded Bybit response by its return code: zero passes;
    /// a rejected interval or symbol, throttling, and passthrough messages
    /// map to their canonical kinds; a body without the envelope's shape is
    /// a fault.
    pub fn classify_tree(tree: &JsonTree, valid_intervals: Vec<String>) -> (r: Result<
        (),
        ExchangeError,
    >)
        ensures
            r == bybit_error_of(*tree, valid_intervals),
    {
        let entries = match tree {
            JsonTree::Obj(entries) => entries,
            _ => { return Err(ExchangeError::ShapeFault); },
        };
        let code = match obj_get(entries, "retCode") {
            Some(JsonTree::Num(code)) => code,
            _ => { return Err(ExchangeError::ShapeFault); },
        };
        let msg = match obj_get(entries, "retMsg") {
            Some(JsonTree::Text(msg)) => msg,
            _ => { return Err(ExchangeError::ShapeFault); },
        };
        let code_val = match parse_i64(code.as_str()) {
            Some(v) => v,
            None => { return Err(ExchangeError::ShapeFault); },
        };
        proof {
            reveal_strlit("Invalid period!");
            reveal_strlit("Not supported symbols");
            assert("Invalid period!"@ != "Not supported symbols"@) by {
                assert("Invalid period!"@.len() == 15);
                assert("Not supported symbols"@.len() == 21);
            }
        }
        if code_val == 0 {
            Ok(())
        } else if code_val == 10001 {
            if str_eq(msg.as_str(), "Invalid period!") {
                Err(ExchangeResponseError::interval(valid_intervals))
            } else if str_eq(msg.as_str(), "Not supported symbols") {
                Err(ExchangeResponseError::symbol())
            } else {
                Err(ExchangeResponseError::unknown())
            }
        } else if code_val == 10002 {
            Err(ExchangeResponseError::too_many_requests())
        } else {
            Err(ExchangeResponseError::wrap_error(msg.clone()))
        }
    }

    /// Inspects a raw response body for Bybit's envelope; what came back is
    /// classified by `classify_tree`, whatever it holds.
    pub fn check_response_error(body: &str, valid_intervals: Vec<String>) -> (r: Result<
        (),
        ExchangeError,
    >)
        ensures
            r matches Err(e) ==> (e is RateLimited || e is RemoteInterval || e is RemoteSymbol
                || e is Remote || e is UnrecognizedFault || e is ShapeFault),
            crate::jsontree::json_of(body@) is None ==> r == Result::<(), ExchangeError>::Err(
                ExchangeError::ShapeFault,
            ),
            crate::jsontree::json_of(body@) matches Some(t) ==> r == bybit_error_of(
                t,
                valid_intervals,
            ),
    {
        match decode_json(body) {
            Some(tree) => Bybit::classify_tree(&tree, valid_intervals),
            None => Err(ExchangeError::ShapeFault),
        }
    }

    /// Reads one decoded row into a candlestick.
    fn row_kline(cells: &Vec<JsonTree>) -> (r: Option<Kline>)
        ensures
            r == bybit_row_kline(cells@),
    {
        if cells.len() < 6 {
            return None;
        }
        let ts = match &cells[0] {
            JsonTree::Text(ts) => ts,
            _ => { return None; },
        };
        let o = match &cells[1] {
            JsonTree::Text(o) => o,
            _ => { return None; },
        };
        let h = match &cells[2] {
            JsonTree::Text(h) => h,
            _ => { return None; },
        };
        let l = match &cells[3] {
            JsonTree::Text(l) => l,
            _ => { return None; },
        };
        let c = match &cells[4] {
            JsonTree::Text(c) => c,
            _ => { return None; },
        };
        let v = match &cells[5] {
            JsonTree::Text(v) => v,
            _ => { return None; },
        };
        let unixtime_msec = match parse_i64(ts.as_str()) {
            Some(t) => t,
            None => { return None; },
        };
        Some(
            Kline {
                unixtime_msec,
                o: o.clone(),
                h: h.clone(),
                l: l.clone(),
                c: c.clone(),
                v: v.clone(),
            },
        )
    }

    /// Extracts the candlesticks from a decoded Bybit response; any
    /// departure from the expected shape is a fault, never an empty result.
    pub fn klines_from_tree(tree: &JsonTree) -> (r: Result<Vec<Kline>, ExchangeError>)
        ensures
            r matches Ok(ks) ==> bybit_klines_of(*tree) == Some(ks@),
            r is Err <==> bybit_klines_of(*tree) is None,
            r matches Err(e) ==> e == ExchangeError::ShapeFault,
    {
        let entries = match tree {
            JsonTree::Obj(entries) => entries,
            _ => { return Err(ExchangeError::ShapeFault); },
        };
        let result = match obj_get(entries, "result") {
            Some(JsonTree::Obj(result)) => result,
            _ => { return Err(ExchangeError::ShapeFault); },
        };
        let rows = match obj_get(result, "list") {
            Some(JsonTree::Arr(rows)) => rows,
            _ => { return Err(ExchangeError::ShapeFault); },
        };
        let n = rows.len();
        let mut out: Vec<Kline> = Vec::new();
        let mut i: usize = 0;
        while i < n
            invariant
                n == rows@.len(),
                0 <= i <= n,
                bybit_klines_of(*tree) == bybit_rows_klines(rows@),
                bybit_rows_klines(rows@.subrange(0, i as int)) == Some(out@),
            decreases n - i,
        {
            let cells = match &rows[i] {
                JsonTree::Arr(cells) => cells,
                _ => {
                    proof {
                        lemma_bybit_rows_prefix_fault(rows@, i as int);
                    }
                    return Err(ExchangeError::ShapeFault);
                },
            };
            let k = match Bybit::row_kline(cells) {
                Some(k) => k,
                None => {
                    proof {
                        lemma_bybit_rows_prefix_fault(rows@, i as int);
                    }
                    return Err(ExchangeError::ShapeFault);
                },
            };
            out.push(k);
            i = i + 1;
            proof {
                assert(rows@.subrange(0, i as int).drop_last() =~= rows@.subrange(0, i as int - 1));
                assert(rows@.subrange(0, i as int).last() == rows@[i as int - 1]);
            }
        }
        proof {
            assert(rows@.subrange(0, n as int) =~= rows@);
        }
        Ok(out)
    }

    /// Parses a raw Bybit response body into candlesticks.
    pub fn parse_as_kline(&self, data: String) -> (r: Result<Vec<Kline>, ExchangeError>)
        ensures
            r matches Err(e) ==> e == ExchangeError::ShapeFault,
            crate::jsontree::json_of(data@) is None ==> r is Err,
            crate::jsontree::json_of(data@) matches Some(t) ==> {
                &&& (r matches Ok(ks) ==> bybit_klines_of(t) == Some(ks@))
                &&& (r is Err <==> bybit_klines_of(t) is None)
            },
    {
        match decode_json(data.as_str()) {
            Some(tree) => Bybit::klines_from_tree(&tree),
            None => Err(ExchangeError::ShapeFault),
        }
    }
}

/// A shape fault in one row spoils the whole response.
proof fn lemma_bybit_rows_prefix_fault(rows: Seq<JsonTree>, i: int)
    requires
        0 <= i < rows.len(),
        !(rows[i] matches JsonTree::Arr(cells) && bybit_row_kline(cells@) is Some),
    ensures
        bybit_rows_klines(rows) is None,
    decreases rows.len() - i,
{
    if i == rows.len() - 1 {
        assert(rows.last() == rows[i]);
    } else {
        assert(rows.drop_last()[i] == rows[i]);
        lemma_bybit_rows_prefix_fault(rows.drop_last(), i);
    }
}

} // verus!
