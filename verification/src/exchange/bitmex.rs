use vstd::prelude::*;

use crate::args::{MarketType, ParsedArgs};
use crate::error::{ExchangeError, ExchangeResponseError};
use crate::exchange::{has_separator, malformed_symbol_error, split_symbol, symbol_base, symbol_quote, Kline};
use crate::jsontree::{decode_json, obj_get, obj_lookup, JsonTree};
use crate::text::{contains_seq, dec_of, str_contains, str_eq, u64_to_dec};
use crate::text::{dec_of_int, i64_to_dec};
use crate::timestamp::{max_civil_ms, rfc3339_ms_of, rfc3339_of, rfc3339_to_unixtime, unixtime_to_rfc3339};
use crate::unit::{DurationAndUnit, TermUnit};

verus! {

/// The BitMEX adapter: request parameters and endpoint are rebuilt by
/// `prepare` for every page; only the perpetual market is served.
#[derive(Debug)]
pub struct Bitmex {
    pub params: Vec<(String, String)>,
    pub market_type: MarketType,
    pub endpoint: String,
    pub limit: i32,
}

/// BitMEX's alias table: Bitcoin trades under its older ticker.
pub open spec fn bitmex_alias(part: Seq<char>) -> Seq<char> {
    if part == "BTC"@ {
        "XBT"@
    } else {
        part
    }
}

/// BitMEX's native symbol: both parts pass the alias table, then are
/// concatenated.
pub open spec fn bitmex_symbol(s: Seq<char>) -> Seq<char> {
    bitmex_alias(symbol_base(s)) + bitmex_alias(symbol_quote(s))
}

/// BitMEX's interval suffix letter: the lowercase initial of the unit.
pub open spec fn bitmex_unit_char(u: TermUnit) -> char {
    match u {
        TermUnit::Sec => 's',
        TermUnit::Min => 'm',
        TermUnit::Hour => 'h',
        TermUnit::Day => 'd',
        TermUnit::Week => 'w',
        TermUnit::Month => 'm',
    }
}

/// BitMEX's native interval token: the count, then the suffix letter.
pub open spec fn bitmex_interval(d: DurationAndUnit) -> Seq<char> {
    dec_of(d.0 as int) + seq![bitmex_unit_char(d.1)]
}

/// One BitMEX row: an object with an RFC 3339 `timestamp` and numeric
/// price and volume fields.
pub open spec fn bitmex_row_kline(row: Seq<(String, JsonTree)>) -> Option<Kline> {
    match (
        obj_lookup(row, "timestamp"@),
        obj_lookup(row, "open"@),
        obj_lookup(row, "high"@),
        obj_lookup(row, "low"@),
        obj_lookup(row, "close"@),
        obj_lookup(row, "volume"@),
    ) {
        (
            Some(JsonTree::Text(ts)),
            Some(JsonTree::Num(o)),
            Some(JsonTree::Num(h)),
            Some(JsonTree::Num(l)),
            Some(JsonTree::Num(c)),
            Some(JsonTree::Num(v)),
        ) => {
            match rfc3339_ms_of(ts@) {
                Some(ms) => if i64::MIN <= ms <= i64::MAX {
                    Some(Kline { unixtime_msec: ms as i64, o, h, l, c, v })
                } else {
                    None
                },
                None => None,
            }
        },
        _ => None,
    }
}

/// The rows of a BitMEX response.
pub open spec fn bitmex_rows_klines(rows: Seq<JsonTree>) -> Option<Seq<Kline>>
    decreases rows.len(),
{
    if rows.len() == 0 {
        Some(Seq::empty())
    } else {
        match bitmex_rows_klines(rows.drop_last()) {
            Some(init) => match rows.last() {
                JsonTree::Obj(fields) => match bitmex_row_kline(fields@) {
                    Some(k) => Some(init.push(k)),
                    None => None,
                },
                _ => None,
            },
            None => None,
        }
    }
}

/// A whole BitMEX response body: an array of row objects.
pub open spec fn bitmex_klines_of(tree: JsonTree) -> Option<Seq<Kline>> {
    match tree {
        JsonTree::Arr(rows) => bitmex_rows_klines(rows@),
        _ => None,
    }
}

/// The canonical error a decoded BitMEX response maps to: an error
/// envelope whose message names the `binSize` parameter is a rejected
/// interval, any other envelope message passes through; a body without the
/// envelope passes.
pub open spec fn bitmex_error_of(tree: JsonTree, valid_intervals: Vec<String>) -> Result<
    (),
    ExchangeError,
> {
    match tree {
        JsonTree::Obj(entries) => match obj_lookup(entries@, "error"@) {
            Some(JsonTree::Obj(err)) => {
                match (obj_lookup(err@, "message"@), obj_lookup(err@, "name"@)) {
                    (Some(JsonTree::Text(msg)), Some(JsonTree::Text(_))) => {
                        if contains_seq(msg@, "binSize"@) {
                            Err(ExchangeError::RemoteInterval(valid_intervals))
                        } else {
                            Err(ExchangeError::Remote(msg))
                        }
                    },
                    _ => Ok(()),
                }
            },
            _ => Ok(()),
        },
        _ => Ok(()),
    }
}

impl Bitmex {
    /// A fresh adapter for the perpetual market with nothing prepared.
    pub fn new() -> (r: Self)
        ensures
            r.params@.len() == 0,
            r.market_type == MarketType::Perpetual,
            r.endpoint@ == "https://www.bitmex.com/api/v1/trade/bucketed"@,
            r.limit == 1000,
    {
        Bitmex {
            params: Vec::new(),
            market_type: MarketType::Perpetual,
            endpoint: "https://www.bitmex.com/api/v1/trade/bucketed".to_owned(),
            limit: 1000,
        }
    }

    /// Builds the request for the current window: the bucket size, symbol,
    /// fixed column list, page count and the term ends as RFC 3339
    /// timestamps; the spot market is not served.
    pub fn prepare(&mut self, args: &ParsedArgs) -> (r: Result<(), ExchangeError>)
        requires
            args.term_start is Some,
            args.term_end is Some,
            0 <= args.term_start->0 < max_civil_ms(),
            0 <= args.term_end->0 < max_civil_ms(),
        ensures
            r is Ok <==> args.type_ == MarketType::Perpetual && has_separator(args.symbol@),
            r is Err ==> *final(self) == *old(self),
            args.type_ == MarketType::Spot ==> r == Result::<(), ExchangeError>::Err(
                ExchangeError::UnsupportedMarketType,
            ),
            args.type_ == MarketType::Perpetual && !has_separator(args.symbol@) ==> (r matches Err(
                e,
            ) && e matches ExchangeError::Config(m) && m@
                == "The symbol pair provided is incorrectly formatted."@),
            r is Ok ==> {
                &&& final(self).market_type == old(self).market_type
                &&& final(self).endpoint == old(self).endpoint
                &&& final(self).limit == old(self).limit
                &&& final(self).params@.len() == 6
                &&& final(self).params@[0].0@ == "binSize"@
                &&& final(self).params@[0].1@ == bitmex_interval(args.interval)
                &&& final(self).params@[1].0@ == "symbol"@
                &&& final(self).params@[1].1@ == bitmex_symbol(args.symbol@)
                &&& final(self).params@[2].0@ == "columns"@
                &&& final(self).params@[2].1@ == "timestamp,open,high,low,close,volume"@
                &&& final(self).params@[3].0@ == "count"@
                &&& final(self).params@[3].1@ == dec_of_int(old(self).limit as int)
                &&& final(self).params@[4].0@ == "startTime"@
                &&& final(self).params@[4].1@ == rfc3339_of(args.term_start->0 as int)
                &&& final(self).params@[5].0@ == "endTime"@
                &&& final(self).params@[5].1@ == rfc3339_of(args.term_end->0 as int)
            },
    {
        match args.type_ {
            MarketType::Spot => { return Err(ExchangeResponseError::no_support_type()); },
            MarketType::Perpetual => {},
        }
        let interval = match self.fit_interval_to_req(&args.interval) {
            Ok(i) => i,
            Err(e) => { return Err(e); },
        };
        let symbol = match self.fit_symbol_to_req(args.symbol.as_str()) {
            Ok(s) => s,
            Err(e) => { return Err(e); },
        };
        let start = match args.term_start {
            Some(t) => t,
            None => 0,
        };
        let end = match args.term_end {
            Some(t) => t,
            None => 0,
        };
        let mut params: Vec<(String, String)> = Vec::new();
        params.push(("binSize".to_owned(), interval));
        params.push(("symbol".to_owned(), symbol));
        params.push(("columns".to_owned(), "timestamp,open,high,low,close,volume".to_owned()));
        params.push(("count".to_owned(), i64_to_dec(self.limit as i64)));
        params.push(("startTime".to_owned(), unixtime_to_rfc3339(start)));
        params.push(("endTime".to_owned(), unixtime_to_rfc3339(end)));
        self.params = params;
        Ok(())
    }

    /// Translates a canonical `BASE/QUOTE` symbol into BitMEX's native
    /// form, applying the alias table; a symbol without the separator is
    /// rejected.
    pub fn fit_symbol_to_req(&self, symbol: &str) -> (r: Result<String, ExchangeError>)
        ensures
            r is Ok <==> has_separator(symbol@),
            r matches Ok(t) ==> t@ == bitmex_symbol(symbol@),
            r matches Err(e) ==> e matches ExchangeError::Config(m) && m@
                == "The symbol pair provided is incorrectly formatted."@,
    {
        match split_symbol(symbol) {
            Some((base, quote)) => {
                let base = if str_eq(base.as_str(), "BTC") {
                    "XBT".to_owned()
                } else {
                    base
                };
                let quote = if str_eq(quote.as_str(), "BTC") {
                    "XBT".to_owned()
                } else {
                    quote
                };
                Ok(base.concat(quote.as_str()))
            },
            None => Err(malformed_symbol_error()),
        }
    }

    /// Translates a canonical interval into BitMEX's native token; every
    /// interval has one.
    pub fn fit_interval_to_req(&self, interval: &DurationAndUnit) -> (r: Result<
        String,
        ExchangeError,
    >)
        ensures
            r matches Ok(t) && t@ == bitmex_interval(*interval),
    {
        let count = u64_to_dec(interval.0 as u64);
        let suffix = match interval.1 {
            TermUnit::Sec => "s",
            TermUnit::Min => "m",
            TermUnit::Hour => "h",
            TermUnit::Day => "d",
            TermUnit::Week => "w",
            TermUnit::Month => "m",
        };
        proof {
            reveal_strlit("s");
            reveal_strlit("m");
            reveal_strlit("h");
            reveal_strlit("d");
            reveal_strlit("w");
            assert(suffix@ =~= seq![bitmex_unit_char(interval.1)]);
        }
        Ok(count.concat(suffix))
    }

    /// Classifies a decoded BitMEX response: a body carrying the error
    /// envelope whose message names the `binSize` parameter is a rejected
    /// interval, any other envelope message passes through; a body without
    /// the envelope passes.
    pub fn classify_tree(tree: &JsonTree, valid_intervals: Vec<String>) -> (r: Result<
        (),
        ExchangeError,
    >)
        ensures
            r == bitmex_error_of(*tree, valid_intervals),
    {
        let entries = match tree {
            JsonTree::Obj(entries) => entries,
            _ => { return Ok(()); },
        };
        let err = match obj_get(entries, "error") {
            Some(JsonTree::Obj(err)) => err,
            _ => { return Ok(()); },
        };
        let msg = match obj_get(err, "message") {
            Some(JsonTree::Text(msg)) => msg,
            _ => { return Ok(()); },
        };
        match obj_get(err, "name") {
            Some(JsonTree::Text(_)) => {},
            _ => { return Ok(()); },
        }
        if str_contains(msg.as_str(), "binSize") {
            Err(ExchangeResponseError::interval(valid_intervals))
        } else {
            Err(ExchangeResponseError::wrap_error(msg.clone()))
        }
    }

    /// Inspects a raw response body for BitMEX's envelope; what came back
    /// is classified by `classify_tree`, whatever it holds.
    pub fn check_response_error(body: &str, valid_intervals: Vec<String>) -> (r: Result<
        (),
        ExchangeError,
    >)
        ensures
            r matches Err(e) ==> (e is RemoteInterval || e is Remote),
            crate::jsontree::json_of(body@) is None ==> r is Ok,
            crate::jsontree::json_of(body@) matches Some(t) ==> r == bitmex_error_of(
                t,
                valid_intervals,
            ),
    {
        match decode_json(body) {
            Some(tree) => Bitmex::classify_tree(&tree, valid_intervals),
            None => Ok(()),
        }
    }

    /// Reads one decoded row object into a candlestick.
    fn row_kline(fields: &Vec<(String, JsonTree)>) -> (r: Option<Kline>)
        ensures
            r == bitmex_row_kline(fields@),
    {
        let ts = match obj_get(fields, "timestamp") {
            Some(JsonTree::Text(ts)) => ts,
            _ => { return None; },
        };
        let o = match obj_get(fields, "open") {
            Some(JsonTree::Num(o)) => o,
            _ => { return None; },
        };
        let h = match obj_get(fields, "high") {
            Some(JsonTree::Num(h)) => h,
            _ => { return None; },
        };
        let l = match obj_get(fields, "low") {
            Some(JsonTree::Num(l)) => l,
            _ => { return None; },
        };
        let c = match obj_get(fields, "close") {
            Some(JsonTree::Num(c)) => c,
            _ => { return None; },
        };
        let v = match obj_get(fields, "volume") {
            Some(JsonTree::Num(v)) => v,
            _ => { return None; },
        };
        let unixtime_msec = match rfc3339_to_unixtime(ts.as_str()) {
            Some(ms) => ms,
            None => { return None; },
        };
        Some(
            Kline {
                unixtime_msec,
                o: o.clone(),
                h: h.clone(),
                l: l.clone(),
                c: c.clone(),
                v: v.clone(),
            },
        )
    }

    /// Extracts the candlesticks from a decoded BitMEX response; any
    /// departure from the expected shape is a fault, never an empty result.
    pub fn klines_from_tree(tree: &JsonTree) -> (r: Result<Vec<Kline>, ExchangeError>)
        ensures
            r matches Ok(ks) ==> bitmex_klines_of(*tree) == Some(ks@),
            r is Err <==> bitmex_klines_of(*tree) is None,
            r matches Err(e) ==> e == ExchangeError::ShapeFault,
    {
        let rows = match tree {
            JsonTree::Arr(rows) => rows,
            _ => { return Err(ExchangeError::ShapeFault); },
        };
        let n = rows.len();
        let mut out: Vec<Kline> = Vec::new();
        let mut i: usize = 0;
        while i < n
            invariant
                n == rows@.len(),
                0 <= i <= n,
                bitmex_klines_of(*tree) == bitmex_rows_klines(rows@),
                bitmex_rows_klines(rows@.subrange(0, i as int)) == Some(out@),
            decreases n - i,
        {
            let fields = match &rows[i] {
                JsonTree::Obj(fields) => fields,
                _ => {
                    proof {
                        lemma_bitmex_rows_prefix_fault(rows@, i as int);
                    }
                    return Err(ExchangeError::ShapeFault);
                },
            };
            let k = match Bitmex::row_kline(fields) {
                Some(k) => k,
                None => {
                    proof {
                        lemma_bitmex_rows_prefix_fault(rows@, i as int);
                    }
                    return Err(ExchangeError::ShapeFault);
                },
            };
            out.push(k);
            i = i + 1;
            proof {
                assert(rows@.subrange(0, i as int).drop_last() =~= rows@.subrange(0, i as int - 1));
                assert(rows@.subrange(0, i as int).last() == rows@[i as int - 1]);
            }
        }
        proof {
            assert(rows@.subrange(0, n as int) =~= rows@);
        }
        Ok(out)
    }

    /// Parses a raw BitMEX response body into candlesticks.
    pub fn parse_as_kline(&self, data: String) -> (r: Result<Vec<Kline>, ExchangeError>)
        ensures
            r matches Err(e) ==> e == ExchangeError::ShapeFault,
            crate::jsontree::json_of(data@) is None ==> r is Err,
            crate::jsontree::json_of(data@) matches Some(t) ==> {
                &&& (r matches Ok(ks) ==> bitmex_klines_of(t) == Some(ks@))
                &&& (r is Err <==> bitmex_klines_of(t) is None)
            },
    {
        match decode_json(data.as_str()) {
            Some(tree) => Bitmex::klines_from_tree(&tree),
            None => Err(ExchangeError::ShapeFault),
        }
    }
}

/// A shape fault in one row spoils the whole response.
proof fn lemma_bitmex_rows_prefix_fault(rows: Seq<JsonTree>, i: int)
    requires
        0 <= i < rows.len(),
        !(rows[i] matches JsonTree::Obj(fields) && bitmex_row_kline(fields@) is Some),
    ensures
        bitmex_rows_klines(rows) is None,
    decreases rows.len() - i,
{
    if i == rows.len() - 1 {
        assert(rows.last() == rows[i]);
    } else {
        assert(rows.drop_last()[i] == rows[i]);
        lemma_bitmex_rows_prefix_fault(rows.drop_last(), i);
    }
}

} // verus!
