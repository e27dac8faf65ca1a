use vstd::prelude::*;

use crate::args::{MarketType, ParsedArgs};
use crate::error::{ExchangeError, ExchangeResponseError};
use crate::exchange::{has_separator, malformed_symbol_error, split_symbol, symbol_base, symbol_quote, Kline};
use crate::jsontree::{decode_json, obj_get, obj_lookup, JsonTree};
use crate::text::{contains_seq, dec_of, dec_of_int, i64_to_dec, int_val, is_int_str, parse_i64, str_contains, str_eq, u64_to_dec};
use crate::unit::{DurationAndUnit, TermUnit};

verus! {

/// The OKX adapter: request parameters, market type and endpoint are
/// rebuilt by `prepare` for every page.
#[derive(Debug)]
pub struct Okx {
    pub params: Vec<(String, String)>,
    pub market_type: MarketType,
    pub endpoint: String,
    pub limit: i32,
}

/// OKX's native symbol: base and quote joined with a hyphen.
pub open spec fn okx_symbol(s: Seq<char>) -> Seq<char> {
    symbol_base(s) + "-"@ + symbol_quote(s)
}

/// OKX's native interval token, where one exists: only minutes and hours,
/// as a count with a suffix letter.
pub open spec fn okx_interval(d: DurationAndUnit) -> Option<Seq<char>> {
    match d.1 {
        TermUnit::Min => Some(dec_of(d.0 as int) + seq!['m']),
        TermUnit::Hour => Some(dec_of(d.0 as int) + seq!['h']),
        _ => None,
    }
}

/// One OKX row: an array whose first six cells are strings, the first a
/// decimal timestamp.
pub open spec fn okx_row_kline(row: Seq<JsonTree>) -> Option<Kline> {
    if row.len() >= 6 {
        match (row[0], row[1], row[2], row[3], row[4], row[5]) {
            (
                JsonTree::Text(ts),
                JsonTree::Text(o),
                JsonTree::Text(h),
                JsonTree::Text(l),
                JsonTree::Text(c),
                JsonTree::Text(v),
            ) => {
                if is_int_str(ts@) && i64::MIN <= int_val(ts@) <= i64::MAX {
                    Some(Kline { unixtime_msec: int_val(ts@) as i64, o, h, l, c, v })
                } else {
                    None
                }
            },
            _ => None,
        }
    } else {
        None
    }
}

/// The rows of an OKX response.
pub open spec fn okx_rows_klines(rows: Seq<JsonTree>) -> Option<Seq<Kline>>
    decreases rows.len(),
{
    if rows.len() == 0 {
        Some(Seq::empty())
    } else {
        match okx_rows_klines(rows.drop_last()) {
            Some(init) => match rows.last() {
                JsonTree::Arr(cells) => match okx_row_kline(cells@) {
                    Some(k) => Some(init.push(k)),
                    None => None,
                },
                _ => None,
            },
            None => None,
        }
    }
}

/// A whole OKX response body: an object whose `data` holds the rows.
pub open spec fn okx_klines_of(tree: JsonTree) -> Option<Seq<Kline>> {
    match tree {
        JsonTree::Obj(entries) => match obj_lookup(entries@, "data"@) {
            Some(JsonTree::Arr(rows)) => okx_rows_klines(rows@),
            _ => None,
        },
        _ => None,
    }
}

/// The canonical error a decoded OKX response maps to: the envelope's code
/// string decides, `"0"` passing; a body without the envelope's shape is
/// itself a fault.
pub open spec fn okx_error_of(tree: JsonTree, valid_intervals: Vec<String>) -> Result<
    (),
    ExchangeError,
> {
    match tree {
        JsonTree::Obj(entries) => match (obj_lookup(entries@, "code"@), obj_lookup(
            entries@,
            "msg"@,
        )) {
            (Some(JsonTree::Text(code)), Some(JsonTree::Text(msg))) => {
                if code@ == "0"@ {
                    Ok(())
                } else if code@ == "50011"@ {
                    Err(ExchangeError::RateLimited)
                } else if code@ == "51000"@ {
                    if contains_seq(msg@, "bar"@) {
                        Err(ExchangeError::RemoteInterval(valid_intervals))
                    } else {
                        Err(ExchangeError::UnrecognizedFault)
                    }
                } else if code@ == "51001"@ {
                    Err(ExchangeError::RemoteSymbol)
                } else {
                    Err(ExchangeError::Remote(msg))
                }
            },
            _ => Err(ExchangeError::ShapeFault),
        },
        _ => Err(ExchangeError::ShapeFault),
    }
}

impl Okx {
    /// A fresh adapter for the spot market with nothing prepared.
    pub fn new() -> (r: Self)
        ensures
            r.params@.len() == 0,
            r.market_type == MarketType::Spot,
            r.endpoint@ == "https://www.okx.com/api/v5/market/history-candles"@,
            r.limit == 300,
    {
        Okx {
            params: Vec::new(),
            market_type: MarketType::Spot,
            endpoint: "https://www.okx.com/api/v5/market/history-candles".to_owned(),
            limit: 300,
        }
    }

    /// Builds the request for the current window: the instrument (with a
    /// SWAP suffix on the perpetual market), the bar token, and the
    /// window's ends as the cursor parameters, whose names bound the
    /// opposite sides of their English meaning.
    pub fn prepare(&mut self, args: &ParsedArgs) -> (r: Result<(), ExchangeError>)
        requires
            args.term_start is Some,
            args.term_end is Some,
        ensures
            r is Ok <==> has_separator(args.symbol@) && okx_interval(args.interval) is Some,
            r is Err ==> *final(self) == *old(self) && r->Err_0 is Config,
            r is Ok ==> {
                &&& final(self).market_type == args.type_
                &&& final(self).endpoint == old(self).endpoint
                &&& final(self).limit == old(self).limit
                &&& final(self).params@.len() == 5
                &&& final(self).params@[0].0@ == "instId"@
                &&& final(self).params@[0].1@ == (if args.type_ == MarketType::Spot {
                    okx_symbol(args.symbol@)
                } else {
                    okx_symbol(args.symbol@) + "-SWAP"@
                })
                &&& final(self).params@[1].0@ == "bar"@
                &&& okx_interval(args.interval) == Some(final(self).params@[1].1@)
                &&& final(self).params@[2].0@ == "before"@
                &&& final(self).params@[2].1@ == dec_of_int(args.term_start->0 as int)
                &&& final(self).params@[3].0@ == "after"@
                &&& final(self).params@[3].1@ == dec_of_int(args.term_end->0 as int)
                &&& final(self).params@[4].0@ == "limit"@
                &&& final(self).params@[4].1@ == dec_of_int(old(self).limit as int)
            },
    {
        let symbol = match self.fit_symbol_to_req(args.symbol.as_str()) {
            Ok(s) => s,
            Err(e) => { return Err(e); },
        };
        let inst_id = match args.type_ {
            MarketType::Spot => symbol,
            MarketType::Perpetual => {
                let mut t = symbol;
                t.append("-SWAP");
                t
            },
        };
        let interval = match self.fit_interval_to_req(&args.interval) {
            Ok(i) => i,
            Err(e) => { return Err(e); },
        };
        let start = match args.term_start {
            Some(t) => t,
            None => 0,
        };
        let end = match args.term_end {
            Some(t) => t,
            None => 0,
        };
        let mut params: Vec<(String, String)> = Vec::new();
        params.push(("instId".to_owned(), inst_id));
        params.push(("bar".to_owned(), interval));
        params.push(("before".to_owned(), i64_to_dec(start)));
        params.push(("after".to_owned(), i64_to_dec(end)));
        params.push(("limit".to_owned(), i64_to_dec(self.limit as i64)));
        self.params = params;
        match args.type_ {
            MarketType::Spot => self.market_type = MarketType::Spot,
            MarketType::Perpetual => self.market_type = MarketType::Perpetual,
        }
        Ok(())
    }

    /// Translates a canonical `BASE/QUOTE` symbol into OKX's native form; a
    /// symbol without the separator is rejected.
    pub fn fit_symbol_to_req(&self, symbol: &str) -> (r: Result<String, ExchangeError>)
        ensures
            r is Ok <==> has_separator(symbol@),
            r matches Ok(t) ==> t@ == okx_symbol(symbol@),
            r matches Err(e) ==> e matches ExchangeError::Config(m) && m@
                == "The symbol pair provided is incorrectly formatted."@,
    {
        match split_symbol(symbol) {
            Some((base, quote)) => {
                let mut t = base;
                t.append("-");
                t.append(quote.as_str());
                proof {
                    reveal_strlit("-");
                }
                Ok(t)
            },
            None => Err(malformed_symbol_error()),
        }
    }

    /// Translates a canonical interval into OKX's native token; only minute
    /// and hour candlesticks exist, everything else is rejected.
    pub fn fit_interval_to_req(&self, interval: &DurationAndUnit) -> (r: Result<
        String,
        ExchangeError,
    >)
        ensures
            r is Ok <==> okx_interval(*interval) is Some,
            r matches Ok(t) ==> okx_interval(*interval) == Some(t@),
            r matches Err(e) ==> e is Config,
    {
        match interval.1 {
            TermUnit::Sec => Err(
                ExchangeError::Config("OKX does not support candlestick of seconds".to_owned()),
            ),
            TermUnit::Min => {
                let mut t = u64_to_dec(interval.0 as u64);
                t.append("m");
                proof {
                    reveal_strlit("m");
                    assert(t@ =~= dec_of(interval.0 as int) + seq!['m']);
                }
                Ok(t)
            },
            TermUnit::Hour => {
                let mut t = u64_to_dec(interval.0 as u64);
                t.append("h");
                proof {
                    reveal_strlit("h");
                    assert(t@ =~= dec_of(interval.0 as int) + seq!['h']);
                }
                Ok(t)
            },
            TermUnit::Day => Err(
                ExchangeError::Config("OKX does not support candlestick of days".to_owned()),
            ),
            TermUnit::Week => Err(
                ExchangeError::Config("OKX does not support candlestick of weeks".to_owned()),
            ),
            TermUnit::Month => Err(
                ExchangeError::Config("OKX does not support candlestick of months".to_owned()),
            ),
        }
    }

    /// Classifies a decoded OKX response by its code string: `"0"` passes;
    /// throttling, a rejected symbol, and — where the generic bad-request
    /// message names the `bar` parameter — a rejected interval map to their
    /// canonical kinds; a body without the envelope's shape is a fault.
    pub fn classify_tree(tree: &JsonTree, valid_intervals: Vec<String>) -> (r: Result<
        (),
        ExchangeError,
    >)
        ensures
            r == okx_error_of(*tree, valid_intervals),
    {
        let entries = match tree {
            JsonTree::Obj(entries) => entries,
            _ => { return Err(ExchangeError::ShapeFault); },
        };
        let code = match obj_get(entries, "code") {
            Some(JsonTree::Text(code)) => code,
            _ => { return Err(ExchangeError::ShapeFault); },
        };
        let msg = match obj_get(entries, "msg") {
            Some(JsonTree::Text(msg)) => msg,
            _ => { return Err(ExchangeError::ShapeFault); },
        };
        proof {
            reveal_strlit("0");
            reveal_strlit("50011");
            reveal_strlit("51000");
            reveal_strlit("51001");
            assert("0"@.len() == 1 && "50011"@.len() == 5 && "51000"@.len() == 5 && "51001"@.len()
                == 5);
            assert("50011"@ != "51000"@ && "50011"@ != "51001"@) by {
                assert("50011"@[1] == '0' && "51000"@[1] == '1' && "51001"@[1] == '1');
            }
            assert("51000"@ != "51001"@) by {
                assert("51000"@[4] == '0' && "51001"@[4] == '1');
            }
        }
        if str_eq(code.as_str(), "0") {
            Ok(())
        } else if str_eq(code.as_str(), "50011") {
            Err(ExchangeResponseError::too_many_requests())
        } else if str_eq(code.as_str(), "51000") {
            if str_contains(msg.as_str(), "bar") {
                Err(ExchangeResponseError::interval(valid_intervals))
            } else {
                Err(ExchangeResponseError::unknown())
            }
        } else if str_eq(code.as_str(), "51001") {
            Err(ExchangeResponseError::symbol())
        } else {
            Err(ExchangeResponseError::wrap_error(msg.clone()))
        }
    }

    /// Inspects a raw response body for OKX's envelope; what came back is
    /// classified by `classify_tree`, whatever it holds.
    pub fn check_response_error(body: &str, valid_intervals: Vec<String>) -> (r: Result<
        (),
        ExchangeError,
    >)
        ensures
            r matches Err(e) ==> (e is RateLimited || e is RemoteInterval || e is RemoteSymbol
                || e is Remote || e is UnrecognizedFault || e is ShapeFault),
            crate::jsontree::json_of(body@) is None ==> r == Result::<(), ExchangeError>::Err(
                ExchangeError::ShapeFault,
            ),
            crate::jsontree::json_of(body@) matches Some(t) ==> r == okx_error_of(
                t,
                valid_intervals,
            ),
    {
        match decode_json(body) {
            Some(tree) => Okx::classify_tree(&tree, valid_intervals),
            None => Err(ExchangeError::ShapeFault),
        }
    }

    /// Reads one decoded row into a candlestick.
    fn row_kline(cells: &Vec<JsonTree>) -> (r: Option<Kline>)
        ensures
            r == okx_row_kline(cells@),
    {
        if cells.len() < 6 {
            return None;
        }
        let ts = match &cells[0] {
            JsonTree::Text(ts) => ts,
            _ => { return None; },
        };
        let o = match &cells[1] {
            JsonTree::Text(o) => o,
            _ => { return None; },
        };
        let h = match &cells[2] {
            JsonTree::Text(h) => h,
            _ => { return None; },
        };
        let l = match &cells[3] {
            JsonTree::Text(l) => l,
            _ => { return None; },
        };
        let c = match &cells[4] {
            JsonTree::Text(c) => c,
            _ => { return None; },
        };
        let v = match &cells[5] {
            JsonTree::Text(v) => v,
            _ => { return None; },
        };
        let unixtime_msec = match parse_i64(ts.as_str()) {
            Some(t) => t,
            None => { return None; },
        };
        Some(
            Kline {
                unixtime_msec,
                o: o.clone(),
                h: h.clone(),
                l: l.clone(),
                c: c.clone(),
                v: v.clone(),
            },
        )
    }

    /// Extracts the candlesticks from a decoded OKX response; any departure
    /// from the expected shape is a fault, never an empty result.
    pub fn klines_from_tree(tree: &JsonTree) -> (r: Result<Vec<Kline>, ExchangeError>)
        ensures
            r matches Ok(ks) ==> okx_klines_of(*tree) == Some(ks@),
            r is Err <==> okx_klines_of(*tree) is None,
            r matches Err(e) ==> e == ExchangeError::ShapeFault,
    {
        let entries = match tree {
            JsonTree::Obj(entries) => entries,
            _ => { return Err(ExchangeError::ShapeFault); },
        };
        let rows = match obj_get(entries, "data") {
            Some(JsonTree::Arr(rows)) => rows,
            _ => { return Err(ExchangeError::ShapeFault); },
        };
        let n = rows.len();
        let mut out: Vec<Kline> = Vec::new();
        let mut i: usize = 0;
        while i < n
            invariant
                n == rows@.len(),
                0 <= i <= n,
                okx_klines_of(*tree) == okx_rows_klines(rows@),
                okx_rows_klines(rows@.subrange(0, i as int)) == Some(out@),
            decreases n - i,
        {
            let cells = match &rows[i] {
                JsonTree::Arr(cells) => cells,
                _ => {
                    proof {
                        lemma_okx_rows_prefix_fault(rows@, i as int);
                    }
                    return Err(ExchangeError::ShapeFault);
                },
            };
            let k = match Okx::row_kline(cells) {
                Some(k) => k,
                None => {
                    proof {
                        lemma_okx_rows_prefix_fault(rows@, i as int);
                    }
                    return Err(ExchangeError::ShapeFault);
                },
            };
            out.push(k);
            i = i + 1;
            proof {
                assert(rows@.subrange(0, i as int).drop_last() =~= rows@.subrange(0, i as int - 1));
                assert(rows@.subrange(0, i as int).last() == rows@[i as int - 1]);
            }
        }
        proof {
            assert(rows@.subrange(0, n as int) =~= rows@);
        }
        Ok(out)
    }

    /// Parses a raw OKX response body into candlesticks.
    pub fn parse_as_kline(&self, data: String) -> (r: Result<Vec<Kline>, ExchangeError>)
        ensures
            r matches Err(e) ==> e == ExchangeError::ShapeFault,
            crate::jsontree::json_of(data@) is None ==> r is Err,
            crate::jsontree::json_of(data@) matches Some(t) ==> {
                &&& (r matches Ok(ks) ==> okx_klines_of(t) == Some(ks@))
                &&& (r is Err <==> okx_klines_of(t) is None)
            },
    {
        match decode_json(data.as_str()) {
            Some(tree) => Okx::klines_from_tree(&tree),
            None => Err(ExchangeError::ShapeFault),
        }
    }
}

/// A shape fault in one row spoils the whole response.
proof fn lemma_okx_rows_prefix_fault(rows: Seq<JsonTree>, i: int)
    requires
        0 <= i < rows.len(),
        !(rows[i] matches JsonTree::Arr(cells) && okx_row_kline(cells@) is Some),
    ensures
        okx_rows_klines(rows) is None,
    decreases rows.len() - i,
{
    if i == rows.len() - 1 {
        assert(rows.last() == rows[i]);
    } else {
        assert(rows.drop_last()[i] == rows[i]);
        lemma_okx_rows_prefix_fault(rows.drop_last(), i);
    }
}

} // verus!
