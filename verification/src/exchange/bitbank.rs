use vstd::prelude::*;

use crate::args::{MarketType, ParsedArgs};
use crate::error::{ExchangeError, ExchangeResponseError};
use crate::exchange::{has_separator, malformed_symbol_error, split_symbol, symbol_base, symbol_quote, Kline};
use crate::jsontree::{decode_json, obj_get, obj_lookup, JsonTree};
use crate::text::{dec_of, int_val, is_int_str, lower_of, lowercase, parse_i64, str_eq, u64_to_dec, u64_to_dec_pad2};
use crate::timestamp::{max_civil_ms, utc_date_of, utc_ymd};
use crate::unit::{DurationAndUnit, TermUnit};

verus! {

/// The bitbank adapter. Its endpoint is path-templated per pair, interval
/// and date, and serves whole day or year buckets, so fetched rows must be
/// trimmed to the requested window afterwards.
#[derive(Debug)]
pub struct Bitbank {
    pub market_type: MarketType,
    pub endpoint: String,
}

/// bitbank's native symbol: both parts lowercased and joined with an
/// underscore.
pub open spec fn bitbank_symbol(s: Seq<char>) -> Seq<char> {
    lower_of(symbol_base(s)) + "_"@ + lower_of(symbol_quote(s))
}

/// The written-out unit name of bitbank's interval tokens.
pub open spec fn bitbank_unit_name(u: TermUnit) -> Seq<char> {
    match u {
        TermUnit::Sec => "sec"@,
        TermUnit::Min => "min"@,
        TermUnit::Hour => "hour"@,
        TermUnit::Day => "day"@,
        TermUnit::Week => "week"@,
        TermUnit::Month => "month"@,
    }
}

/// bitbank's candidate interval token: the count, then the unit name.
pub open spec fn bitbank_token(d: DurationAndUnit) -> Seq<char> {
    dec_of(d.0 as int) + bitbank_unit_name(d.1)
}

/// The fixed list of interval tokens bitbank accepts.
pub open spec fn bitbank_interval_tokens() -> Seq<Seq<char>> {
    seq![
        "1min"@,
        "5min"@,
        "15min"@,
        "30min"@,
        "1hour"@,
        "4hour"@,
        "8hour"@,
        "12hour"@,
        "1day"@,
        "1week"@,
        "1month"@,
    ]
}

/// The tokens whose buckets span one day; the rest span one year.
pub open spec fn bitbank_daily(tok: Seq<char>) -> bool {
    tok == "1min"@ || tok == "5min"@ || tok == "15min"@ || tok == "30min"@ || tok == "1hour"@
}

/// A number left-padded with zeros to two digits.
pub open spec fn pad2(n: int) -> Seq<char> {
    if n < 10 {
        seq!['0'] + dec_of(n)
    } else {
        dec_of(n)
    }
}

/// The date path segment of a bitbank request: `YYYYMMDD` for day buckets,
/// `YYYY` for year buckets.
pub open spec fn bitbank_date_token(ms: int, tok: Seq<char>) -> Seq<char> {
    if bitbank_daily(tok) {
        dec_of(utc_date_of(ms).0) + pad2(utc_date_of(ms).1) + pad2(utc_date_of(ms).2)
    } else {
        dec_of(utc_date_of(ms).0)
    }
}

/// One bitbank row: an array `[o, h, l, c, v, time]`, the prices strings
/// and the time a JSON integer.
pub open spec fn bitbank_row_kline(row: Seq<JsonTree>) -> Option<Kline> {
    if row.len() >= 6 {
        match (row[0], row[1], row[2], row[3], row[4], row[5]) {
            (
                JsonTree::Text(o),
                JsonTree::Text(h),
                JsonTree::Text(l),
                JsonTree::Text(c),
                JsonTree::Text(v),
                JsonTree::Num(ts),
            ) => {
                if is_int_str(ts@) && i64::MIN <= int_val(ts@) <= i64::MAX {
                    Some(Kline { unixtime_msec: int_val(ts@) as i64, o, h, l, c, v })
                } else {
                    None
                }
            },
            _ => None,
        }
    } else {
        None
    }
}

/// The rows of one bitbank bucket.
pub open spec fn bitbank_rows_klines(rows: Seq<JsonTree>) -> Option<Seq<Kline>>
    decreases rows.len(),
{
    if rows.len() == 0 {
        Some(Seq::empty())
    } else {
        match bitbank_rows_klines(rows.drop_last()) {
            Some(init) => match rows.last() {
                JsonTree::Arr(cells) => match bitbank_row_kline(cells@) {
                    Some(k) => Some(init.push(k)),
                    None => None,
                },
                _ => None,
            },
            None => None,
        }
    }
}

/// A whole bitbank response body: `data.candlestick[0].ohlcv` holds the
/// rows.
pub open spec fn bitbank_klines_of(tree: JsonTree) -> Option<Seq<Kline>> {
    match tree {
        JsonTree::Obj(entries) => match obj_lookup(entries@, "data"@) {
            Some(JsonTree::Obj(data)) => match obj_lookup(data@, "candlestick"@) {
                Some(JsonTree::Arr(buckets)) => if buckets@.len() >= 1 {
                    match buckets@[0] {
                        JsonTree::Obj(bucket) => match obj_lookup(bucket@, "ohlcv"@) {
                            Some(JsonTree::Arr(rows)) => bitbank_rows_klines(rows@),
                            _ => None,
                        },
                        _ => None,
                    }
                } else {
                    None
                },
                _ => None,
            },
            _ => None,
        },
        _ => None,
    }
}

/// Rows with the leading ones before `t` removed.
pub open spec fn rows_not_before(rows: Seq<Kline>, t: int) -> Seq<Kline>
    decreases rows.len(),
{
    if rows.len() == 0 {
        rows
    } else if rows.last().unixtime_msec >= t {
        rows_not_before(rows.drop_last(), t).push(rows.last())
    } else {
        rows_not_before(rows.drop_last(), t)
    }
}

/// Rows with the trailing ones after `t` removed.
pub open spec fn rows_not_after(rows: Seq<Kline>, t: int) -> Seq<Kline>
    decreases rows.len(),
{
    if rows.len() == 0 {
        rows
    } else if rows.last().unixtime_msec <= t {
        rows_not_after(rows.drop_last(), t).push(rows.last())
    } else {
        rows_not_after(rows.drop_last(), t)
    }
}

/// The overfetch trim: rows before the window's start are discarded when
/// the first row overshoots it, rows after its end when the last row does.
pub open spec fn trimmed_overfetch(rows: Seq<Kline>, start: int, end: int) -> Seq<Kline> {
    let a = if rows.len() > 0 && rows[0].unixtime_msec < start {
        rows_not_before(rows, start)
    } else {
        rows
    };
    if rows.len() > 0 && end < rows.last().unixtime_msec {
        rows_not_after(a, end)
    } else {
        a
    }
}

/// The canonical error a decoded bitbank response maps to: an error code
/// inside `data` decides; a body without the envelope's shape is itself a
/// fault, and an envelope without a code passes.
pub open spec fn bitbank_error_of(tree: JsonTree) -> Result<(), ExchangeError> {
    match tree {
        JsonTree::Obj(entries) => match (obj_lookup(entries@, "success"@), obj_lookup(
            entries@,
            "data"@,
        )) {
            (Some(JsonTree::Num(success)), Some(JsonTree::Obj(data))) => {
                if is_int_str(success@) && -0x8000_0000 <= int_val(success@) < 0x8000_0000 {
                    match obj_lookup(data@, "code"@) {
                        Some(JsonTree::Num(code)) => {
                            if is_int_str(code@) && -0x8000_0000 <= int_val(code@)
                                < 0x8000_0000 {
                                if int_val(code@) == 10000 {
                                    Err(ExchangeError::RemoteSymbol)
                                } else if int_val(code@) == 10009 {
                                    Err(ExchangeError::RateLimited)
                                } else {
                                    Err(ExchangeError::UnrecognizedFault)
                                }
                            } else {
                                Err(ExchangeError::ShapeFault)
                            }
                        },
                        Some(_) => Err(ExchangeError::ShapeFault),
                        None => Ok(()),
                    }
                } else {
                    Err(ExchangeError::ShapeFault)
                }
            },
            _ => Err(ExchangeError::ShapeFault),
        },
        _ => Err(ExchangeError::ShapeFault),
    }
}

impl Bitbank {
    /// A fresh adapter for the spot market holding the path template.
    pub fn new() -> (r: Self)
        ensures
            r.market_type == MarketType::Spot,
            r.endpoint@ == "https://public.bitbank.cc/{pair}/candlestick/{candle_type}/{date}"@,
    {
        Bitbank {
            market_type: MarketType::Spot,
            endpoint: "https://public.bitbank.cc/{pair}/candlestick/{candle_type}/{date}".to_owned(),
        }
    }

    /// Builds the per-request URL for the bucket that holds the window's
    /// start; the perpetual market is not served, and the interval is
    /// validated locally against the fixed token list.
    pub fn prepare(&mut self, args: &ParsedArgs) -> (r: Result<(), ExchangeError>)
        requires
            args.term_start is Some,
            0 <= args.term_start->0 < max_civil_ms(),
        ensures
            r is Ok <==> args.type_ == MarketType::Spot && bitbank_interval_tokens().contains(
                bitbank_token(args.interval),
            ) && has_separator(args.symbol@),
            r is Err ==> *final(self) == *old(self),
            args.type_ == MarketType::Perpetual ==> r == Result::<(), ExchangeError>::Err(
                ExchangeError::UnsupportedMarketType,
            ),
            args.type_ == MarketType::Spot && !bitbank_interval_tokens().contains(
                bitbank_token(args.interval),
            ) ==> (r matches Err(e) && e matches ExchangeError::RemoteInterval(v)
                && v@.map_values(|s: String| s@) == bitbank_interval_tokens()),
            args.type_ == MarketType::Spot && bitbank_interval_tokens().contains(
                bitbank_token(args.interval),
            ) && !has_separator(args.symbol@) ==> (r matches Err(e) && e
                matches ExchangeError::Config(m) && m@
                == "The symbol pair provided is incorrectly formatted."@),
            r is Ok ==> {
                &&& final(self).market_type == old(self).market_type
                &&& final(self).endpoint@ == "https://public.bitbank.cc/"@ + bitbank_symbol(
                    args.symbol@,
                ) + "/candlestick/"@ + bitbank_token(args.interval) + "/"@ + bitbank_date_token(
                    args.term_start->0 as int,
                    bitbank_token(args.interval),
                )
            },
    {
        match args.type_ {
            MarketType::Perpetual => { return Err(ExchangeResponseError::no_support_type()); },
            MarketType::Spot => {},
        }
        let interval = match self.fit_interval_to_req(&args.interval) {
            Ok(i) => i,
            Err(e) => { return Err(e); },
        };
        let symbol = match self.fit_symbol_to_req(args.symbol.as_str()) {
            Ok(s) => s,
            Err(e) => { return Err(e); },
        };
        let start = match args.term_start {
            Some(t) => t,
            None => 0,
        };
        let date = Bitbank::calculate_date(start, interval.as_str());
        self.endpoint = self.make_url(symbol, interval.as_str(), date);
        Ok(())
    }

    /// Translates a canonical `BASE/QUOTE` symbol into bitbank's native
    /// form; a symbol without the separator is rejected.
    pub fn fit_symbol_to_req(&self, symbol: &str) -> (r: Result<String, ExchangeError>)
        ensures
            r is Ok <==> has_separator(symbol@),
            r matches Ok(t) ==> t@ == bitbank_symbol(symbol@),
            r matches Err(e) ==> e matches ExchangeError::Config(m) && m@
                == "The symbol pair provided is incorrectly formatted."@,
    {
        match split_symbol(symbol) {
            Some((base, quote)) => {
                let mut t = lowercase(base.as_str());
                t.append("_");
                let lq = lowercase(quote.as_str());
                t.append(lq.as_str());
                proof {
                    reveal_strlit("_");
                }
                Ok(t)
            },
            None => Err(malformed_symbol_error()),
        }
    }

    /// The interval tokens bitbank accepts, in its documented order.
    pub fn intervals() -> (r: Vec<String>)
        ensures
            r@.map_values(|s: String| s@) == bitbank_interval_tokens(),
    {
        let mut v: Vec<String> = Vec::new();
        v.push("1min".to_owned());
        v.push("5min".to_owned());
        v.push("15min".to_owned());
        v.push("30min".to_owned());
        v.push("1hour".to_owned());
        v.push("4hour".to_owned());
        v.push("8hour".to_owned());
        v.push("12hour".to_owned());
        v.push("1day".to_owned());
        v.push("1week".to_owned());
        v.push("1month".to_owned());
        proof {
            assert(v@.map_values(|s: String| s@) =~= bitbank_interval_tokens());
        }
        v
    }

    /// Translates a canonical interval into bitbank's native token by
    /// validating it against the fixed list; a token outside the list is a
    /// rejected interval and carries the accepted tokens.
    pub fn fit_interval_to_req(&self, interval: &DurationAndUnit) -> (r: Result<
        String,
        ExchangeError,
    >)
        ensures
            r is Ok <==> bitbank_interval_tokens().contains(bitbank_token(*interval)),
            r matches Ok(t) ==> t@ == bitbank_token(*interval),
            r matches Err(e) ==> e matches ExchangeError::RemoteInterval(v) && v@.map_values(
                |s: String| s@,
            ) == bitbank_interval_tokens(),
    {
        let mut token = u64_to_dec(interval.0 as u64);
        let unit_name = match interval.1 {
            TermUnit::Sec => "sec",
            TermUnit::Min => "min",
            TermUnit::Hour => "hour",
            TermUnit::Day => "day",
            TermUnit::Week => "week",
            TermUnit::Month => "month",
        };
        token.append(unit_name);
        let list = Bitbank::intervals();
        let n = list.len();
        let mut i: usize = 0;
        while i < n
            invariant
                n == list@.len(),
                0 <= i <= n,
                token@ == bitbank_token(*interval),
                list@.map_values(|s: String| s@) == bitbank_interval_tokens(),
                forall|k: int| 0 <= k < i ==> #[trigger] list@[k]@ != token@,
            decreases n - i,
        {
            if str_eq(list[i].as_str(), token.as_str()) {
                proof {
                    assert(bitbank_interval_tokens()[i as int] == list@[i as int]@);
                    assert(bitbank_interval_tokens().contains(bitbank_token(*interval)));
                }
                return Ok(token);
            }
            i = i + 1;
        }
        proof {
            assert forall|k: int|
                0 <= k < bitbank_interval_tokens().len() implies #[trigger] bitbank_interval_tokens()[k]
                != bitbank_token(*interval) by {
                assert(bitbank_interval_tokens()[k] == list@[k]@);
            }
        }
        Err(ExchangeResponseError::interval(list))
    }

    /// The date path segment for the bucket that holds `term_start`:
    /// `YYYYMMDD` where the interval's bucket is a day, `YYYY` where it is
    /// a year. Only validated interval tokens reach this point.
    pub fn calculate_date(term_start: i64, interval: &str) -> (r: String)
        requires
            0 <= term_start < max_civil_ms(),
            bitbank_interval_tokens().contains(interval@),
        ensures
            r@ == bitbank_date_token(term_start as int, interval@),
    {
        let (y, m, d) = utc_ymd(term_start);
        let daily = str_eq(interval, "1min") || str_eq(interval, "5min") || str_eq(
            interval,
            "15min",
        ) || str_eq(interval, "30min") || str_eq(interval, "1hour");
        let mut out = u64_to_dec(y as u64);
        if daily {
            let mm = u64_to_dec_pad2(m as u64);
            let dd = u64_to_dec_pad2(d as u64);
            out.append(mm.as_str());
            out.append(dd.as_str());
        }
        out
    }

    /// The per-request URL: the path template with the pair, the interval
    /// token and the date segment filled in.
    pub fn make_url(&self, symbol: String, interval: &str, date: String) -> (r: String)
        ensures
            r@ == "https://public.bitbank.cc/"@ + symbol@ + "/candlestick/"@ + interval@ + "/"@
                + date@,
    {
        let mut url = "https://public.bitbank.cc/".to_owned();
        url.append(symbol.as_str());
        url.append("/candlestick/");
        url.append(interval);
        url.append("/");
        url.append(date.as_str());
        url
    }

    /// Classifies a decoded bitbank response: an error code inside `data`
    /// names a rejected symbol, throttling, or an unrecognized fault; a
    /// body without the envelope's shape is itself a fault.
    pub fn classify_tree(tree: &JsonTree) -> (r: Result<(), ExchangeError>)
        ensures
            r == bitbank_error_of(*tree),
    {
        let entries = match tree {
            JsonTree::Obj(entries) => entries,
            _ => { return Err(ExchangeError::ShapeFault); },
        };
        let success = match obj_get(entries, "success") {
            Some(JsonTree::Num(success)) => success,
            _ => { return Err(ExchangeError::ShapeFault); },
        };
        let data = match obj_get(entries, "data") {
            Some(JsonTree::Obj(data)) => data,
            _ => { return Err(ExchangeError::ShapeFault); },
        };
        match parse_i64(success.as_str()) {
            Some(v) => {
                if v < -0x8000_0000 || v >= 0x8000_0000 {
                    return Err(ExchangeError::ShapeFault);
                }
            },
            None => { return Err(ExchangeError::ShapeFault); },
        }
        let code = match obj_get(data, "code") {
            Some(JsonTree::Num(code)) => code,
            Some(_) => { return Err(ExchangeError::ShapeFault); },
            None => { return Ok(()); },
        };
        let code_val = match parse_i64(code.as_str()) {
            Some(v) => v,
            None => { return Err(ExchangeError::ShapeFault); },
        };
        if code_val < -0x8000_0000 || code_val >= 0x8000_0000 {
            return Err(ExchangeError::ShapeFault);
        }
        if code_val == 10000 {
            Err(ExchangeResponseError::symbol())
        } else if code_val == 10009 {
            Err(ExchangeResponseError::too_many_requests())
        } else {
            Err(ExchangeResponseError::unknown())
        }
    }

    /// Inspects a raw response body for bitbank's envelope; what came back
    /// is classified by `classify_tree`, whatever it holds.
    pub fn check_response_error(body: &str) -> (r: Result<(), ExchangeError>)
        ensures
            r matches Err(e) ==> (e is RateLimited || e is RemoteSymbol || e is UnrecognizedFault
                || e is ShapeFault),
            crate::jsontree::json_of(body@) is None ==> r == Result::<(), ExchangeError>::Err(
                ExchangeError::ShapeFault,
            ),
            crate::jsontree::json_of(body@) matches Some(t) ==> r == bitbank_error_of(t),
    {
        match decode_json(body) {
            Some(tree) => Bitbank::classify_tree(&tree),
            None => Err(ExchangeError::ShapeFault),
        }
    }

    /// Reads one decoded row into a candlestick.
    fn row_kline(cells: &Vec<JsonTree>) -> (r: Option<Kline>)
        ensures
            r == bitbank_row_kline(cells@),
    {
        if cells.len() < 6 {
            return None;
        }
        let o = match &cells[0] {
            JsonTree::Text(o) => o,
            _ => { return None; },
        };
        let h = match &cells[1] {
            JsonTree::Text(h) => h,
            _ => { return None; },
        };
        let l = match &cells[2] {
            JsonTree::Text(l) => l,
            _ => { return None; },
        };
        let c = match &cells[3] {
            JsonTree::Text(c) => c,
            _ => { return None; },
        };
        let v = match &cells[4] {
            JsonTree::Text(v) => v,
            _ => { return None; },
        };
        let ts = match &cells[5] {
            JsonTree::Num(ts) => ts,
            _ => { return None; },
        };
        let unixtime_msec = match parse_i64(ts.as_str()) {
            Some(t) => t,
            None => { return None; },
        };
        Some(
            Kline {
                unixtime_msec,
                o: o.clone(),
                h: h.clone(),
                l: l.clone(),
                c: c.clone(),
                v: v.clone(),
            },
        )
    }

    /// Extracts the candlesticks from a decoded bitbank response; any
    /// departure from the expected shape is a fault, never an empty result.
    pub fn klines_from_tree(tree: &JsonTree) -> (r: Result<Vec<Kline>, ExchangeError>)
        ensures
            r matches Ok(ks) ==> bitbank_klines_of(*tree) == Some(ks@),
            r is Err <==> bitbank_klines_of(*tree) is None,
            r matches Err(e) ==> e == ExchangeError::ShapeFault,
    {
        let entries = match tree {
            JsonTree::Obj(entries) => entries,
            _ => { return Err(ExchangeError::ShapeFault); },
        };
        let data = match obj_get(entries, "data") {
            Some(JsonTree::Obj(data)) => data,
            _ => { return Err(ExchangeError::ShapeFault); },
        };
        let buckets = match obj_get(data, "candlestick") {
            Some(JsonTree::Arr(buckets)) => buckets,
            _ => { return Err(ExchangeError::ShapeFault); },
        };
        if buckets.len() == 0 {
            return Err(ExchangeError::ShapeFault);
        }
        let bucket = match &buckets[0] {
            JsonTree::Obj(bucket) => bucket,
            _ => { return Err(ExchangeError::ShapeFault); },
        };
        let rows = match obj_get(bucket, "ohlcv") {
            Some(JsonTree::Arr(rows)) => rows,
            _ => { return Err(ExchangeError::ShapeFault); },
        };
        let n = rows.len();
        let mut out: Vec<Kline> = Vec::new();
        let mut i: usize = 0;
        while i < n
            invariant
                n == rows@.len(),
                0 <= i <= n,
                bitbank_klines_of(*tree) == bitbank_rows_klines(rows@),
                bitbank_rows_klines(rows@.subrange(0, i as int)) == Some(out@),
            decreases n - i,
        {
            let cells = match &rows[i] {
                JsonTree::Arr(cells) => cells,
                _ => {
                    proof {
                        lemma_bitbank_rows_prefix_fault(rows@, i as int);
                    }
                    return Err(ExchangeError::ShapeFault);
                },
            };
            let k = match Bitbank::row_kline(cells) {
                Some(k) => k,
                None => {
                    proof {
                        lemma_bitbank_rows_prefix_fault(rows@, i as int);
                    }
                    return Err(ExchangeError::ShapeFault);
                },
            };
            out.push(k);
            i = i + 1;
            proof {
                assert(rows@.subrange(0, i as int).drop_last() =~= rows@.subrange(0, i as int - 1));
                assert(rows@.subrange(0, i as int).last() == rows@[i as int - 1]);
            }
        }
        proof {
            assert(rows@.subrange(0, n as int) =~= rows@);
        }
        Ok(out)
    }

    /// Parses a raw bitbank response body into candlesticks.
    pub fn parse_as_kline(&self, data: String) -> (r: Result<Vec<Kline>, ExchangeError>)
        ensures
            r matches Err(e) ==> e == ExchangeError::ShapeFault,
            crate::jsontree::json_of(data@) is None ==> r is Err,
            crate::jsontree::json_of(data@) matches Some(t) ==> {
                &&& (r matches Ok(ks) ==> bitbank_klines_of(t) == Some(ks@))
                &&& (r is Err <==> bitbank_klines_of(t) is None)
            },
    {
        match decode_json(data.as_str()) {
            Some(tree) => Bitbank::klines_from_tree(&tree),
            None => Err(ExchangeError::ShapeFault),
        }
    }

    /// Keeps the rows at or after `t`.
    fn keep_at_or_after(rows: Vec<Kline>, t: i64) -> (r: Vec<Kline>)
        ensures
            r@ == rows_not_before(rows@, t as int),
    {
        let n = rows.len();
        let mut out: Vec<Kline> = Vec::new();
        let mut i: usize = 0;
        while i < n
            invariant
                n == rows@.len(),
                0 <= i <= n,
                out@ == rows_not_before(rows@.subrange(0, i as int), t as int),
            decreases n - i,
        {
            let ghost prefix = rows@.subrange(0, i as int);
            if rows[i].unixtime_msec >= t {
                out.push(rows[i].clone());
            }
            i = i + 1;
            proof {
                assert(rows@.subrange(0, i as int).drop_last() =~= prefix);
                assert(rows@.subrange(0, i as int).last() == rows@[i as int - 1]);
            }
        }
        proof {
            assert(rows@.subrange(0, n as int) =~= rows@);
        }
        out
    }

    /// Keeps the rows at or before `t`.
    fn keep_at_or_before(rows: Vec<Kline>, t: i64) -> (r: Vec<Kline>)
        ensures
            r@ == rows_not_after(rows@, t as int),
    {
        let n = rows.len();
        let mut out: Vec<Kline> = Vec::new();
        let mut i: usize = 0;
        while i < n
            invariant
                n == rows@.len(),
                0 <= i <= n,
                out@ == rows_not_after(rows@.subrange(0, i as int), t as int),
            decreases n - i,
        {
            let ghost prefix = rows@.subrange(0, i as int);
            if rows[i].unixtime_msec <= t {
                out.push(rows[i].clone());
            }
            i = i + 1;
            proof {
                assert(rows@.subrange(0, i as int).drop_last() =~= prefix);
                assert(rows@.subrange(0, i as int).last() == rows@[i as int - 1]);
            }
        }
        proof {
            assert(rows@.subrange(0, n as int) =~= rows@);
        }
        out
    }

    /// Trims an overfetched bucket to the requested window: leading rows
    /// before `term_start` and trailing rows after `term_end` are
    /// discarded, and only when the bucket actually overshoots that side.
    pub fn remove_unnecessary_raws(raws: Vec<Kline>, term_start: i64, term_end: i64) -> (r: Vec<
        Kline,
    >)
        ensures
            r@ == trimmed_overfetch(raws@, term_start as int, term_end as int),
    {
        if raws.len() == 0 {
            return raws;
        }
        let first_ts = raws[0].unixtime_msec;
        let latest_ts = raws[raws.len() - 1].unixtime_msec;
        let ghost orig = raws@;
        let mut result = raws;
        if first_ts < term_start {
            result = Bitbank::keep_at_or_after(result, term_start);
        }
        if term_end < latest_ts {
            result = Bitbank::keep_at_or_before(result, term_end);
        }
        result
    }
}

/// A shape fault in one row spoils the whole response.
proof fn lemma_bitbank_rows_prefix_fault(rows: Seq<JsonTree>, i: int)
    requires
        0 <= i < rows.len(),
        !(rows[i] matches JsonTree::Arr(cells) && bitbank_row_kline(cells@) is Some),
    ensures
        bitbank_rows_klines(rows) is None,
    decreases rows.len() - i,
{
    if i == rows.len() - 1 {
        assert(rows.last() == rows[i]);
    } else {
        assert(rows.drop_last()[i] == rows[i]);
        lemma_bitbank_rows_prefix_fault(rows.drop_last(), i);
    }
}

} // verus!
