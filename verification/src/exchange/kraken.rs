use vstd::prelude::*;

use crate::error::ExchangeError;
use crate::exchange::{has_separator, malformed_symbol_error, split_symbol, symbol_base, symbol_quote, Kline};
use crate::jsontree::{decode_json, obj_get, obj_lookup, JsonTree};
use crate::text::{int_val, is_int_str, parse_i64, str_eq, u64_to_dec};
use crate::unit::{DurationAndUnit, TermUnit};

verus! {

/// The Kraken adapter. Kraken's `since` cursor does not behave as its
/// documentation promises, so the exchange is not wired into the command
/// surface; the pure request and response logic is kept here.
#[derive(Debug)]
pub struct Kraken {
    pub endpoint: String,
    /// Kraken takes no page-size parameter; up to 720 rows after `since`
    /// come back.
    pub _limit: i32,
}

/// Kraken's alias table for tickers that trade under another name.
pub open spec fn kraken_alias(part: Seq<char>) -> Seq<char> {
    if part == "LUNC"@ {
        "LUNA"@
    } else if part == "LUNA"@ {
        "LUNA2"@
    } else if part == "REP"@ {
        "REPV2"@
    } else if part == "REPV1"@ {
        "REP"@
    } else if part == "USTC"@ {
        "UST"@
    } else if part == "BTC"@ {
        "XBT"@
    } else if part == "DOGE"@ {
        "XDG"@
    } else {
        part
    }
}

/// Kraken's native symbol: both parts pass the alias table, then are
/// concatenated.
pub open spec fn kraken_symbol(s: Seq<char>) -> Seq<char> {
    kraken_alias(symbol_base(s)) + kraken_alias(symbol_quote(s))
}

/// Kraken's native interval, where one exists: whole minutes.
pub open spec fn kraken_interval(d: DurationAndUnit) -> Option<int> {
    match d.1 {
        TermUnit::Sec => None,
        TermUnit::Min => Some(d.0 as int),
        TermUnit::Hour => Some(d.0 as int * 60),
        TermUnit::Day => Some(d.0 as int * 60 * 24),
        TermUnit::Week => Some(d.0 as int * 60 * 24 * 7),
        TermUnit::Month => None,
    }
}

/// One Kraken row: an array whose first cell is the bucket time in whole
/// seconds as a JSON integer and whose next five cells are strings.
pub open spec fn kraken_row_kline(row: Seq<JsonTree>) -> Option<Kline> {
    if row.len() >= 6 {
        match (row[0], row[1], row[2], row[3], row[4], row[5]) {
            (
                JsonTree::Num(ts),
                JsonTree::Text(o),
                JsonTree::Text(h),
                JsonTree::Text(l),
                JsonTree::Text(c),
                JsonTree::Text(v),
            ) => {
                if is_int_str(ts@) && i64::MIN <= int_val(ts@) * 1000 <= i64::MAX {
                    Some(Kline { unixtime_msec: (int_val(ts@) * 1000) as i64, o, h, l, c, v })
                } else {
                    None
                }
            },
            _ => None,
        }
    } else {
        None
    }
}

/// The rows of a Kraken bucket.
pub open spec fn kraken_rows_klines(rows: Seq<JsonTree>) -> Option<Seq<Kline>>
    decreases rows.len(),
{
    if rows.len() == 0 {
        Some(Seq::empty())
    } else {
        match kraken_rows_klines(rows.drop_last()) {
            Some(init) => match rows.last() {
                JsonTree::Arr(cells) => match kraken_row_kline(cells@) {
                    Some(k) => Some(init.push(k)),
                    None => None,
                },
                _ => None,
            },
            None => None,
        }
    }
}

/// The value of the first entry of Kraken's result map that is not the
/// `last` cursor; the map is keyed dynamically by the requested symbol.
pub open spec fn kraken_payload(entries: Seq<(String, JsonTree)>) -> Option<JsonTree>
    decreases entries.len(),
{
    if entries.len() == 0 {
        None
    } else if entries[0].0@ == "last"@ {
        kraken_payload(entries.drop_first())
    } else {
        Some(entries[0].1)
    }
}

/// A whole Kraken response body: an object whose `result` map holds the
/// rows under the symbol's own key, beside the `last` cursor.
pub open spec fn kraken_klines_of(tree: JsonTree) -> Option<Seq<Kline>> {
    match tree {
        JsonTree::Obj(entries) => match obj_lookup(entries@, "result"@) {
            Some(JsonTree::Obj(result)) => match kraken_payload(result@) {
                Some(JsonTree::Arr(rows)) => kraken_rows_klines(rows@),
                _ => None,
            },
            _ => None,
        },
        _ => None,
    }
}

/// A payload lookup skips over `last` entries.
proof fn lemma_kraken_payload_skip(entries: Seq<(String, JsonTree)>, i: int)
    requires
        0 <= i <= entries.len(),
        forall|k: int| 0 <= k < i ==> (#[trigger] entries[k]).0@ == "last"@,
    ensures
        kraken_payload(entries) == kraken_payload(entries.skip(i)),
    decreases i,
{
    if i == 0 {
        assert(entries.skip(0) =~= entries);
    } else {
        assert(entries[0].0@ == "last"@);
        assert(forall|k: int|
            0 <= k < i - 1 ==> (#[trigger] entries.drop_first()[k]).0@ == "last"@);
        lemma_kraken_payload_skip(entries.drop_first(), i - 1);
        assert(entries.drop_first().skip(i - 1) =~= entries.skip(i));
    }
}

impl Kraken {
    /// A fresh adapter with the public OHLC endpoint.
    pub fn new() -> (r: Self)
        ensures
            r.endpoint@ == "https://api.kraken.com/0/public/OHLC"@,
            r._limit == 720,
    {
        Kraken { endpoint: "https://api.kraken.com/0/public/OHLC".to_owned(), _limit: 720 }
    }

    /// Translates a canonical `BASE/QUOTE` symbol into Kraken's native
    /// form, applying the alias table; a symbol without the separator is
    /// rejected.
    pub fn fit_symbol_to_req(&self, symbol: &str) -> (r: Result<String, ExchangeError>)
        ensures
            r is Ok <==> has_separator(symbol@),
            r matches Ok(t) ==> t@ == kraken_symbol(symbol@),
            r matches Err(e) ==> e matches ExchangeError::Config(m) && m@
                == "The symbol pair provided is incorrectly formatted."@,
    {
        match split_symbol(symbol) {
            Some((base, quote)) => {
                let base = Kraken::alias(base);
                let quote = Kraken::alias(quote);
                Ok(base.concat(quote.as_str()))
            },
            None => Err(malformed_symbol_error()),
        }
    }

    /// Applies the alias table to one symbol part.
    fn alias(part: String) -> (r: String)
        ensures
            r@ == kraken_alias(part@),
    {
        if str_eq(part.as_str(), "LUNC") {
            "LUNA".to_owned()
        } else if str_eq(part.as_str(), "LUNA") {
            "LUNA2".to_owned()
        } else if str_eq(part.as_str(), "REP") {
            "REPV2".to_owned()
        } else if str_eq(part.as_str(), "REPV1") {
            "REP".to_owned()
        } else if str_eq(part.as_str(), "USTC") {
            "UST".to_owned()
        } else if str_eq(part.as_str(), "BTC") {
            "XBT".to_owned()
        } else if str_eq(part.as_str(), "DOGE") {
            "XDG".to_owned()
        } else {
            part
        }
    }

    /// Translates a canonical interval into Kraken's native whole-minute
    /// count; seconds and months have none and are rejected.
    pub fn fit_interval_to_req(&self, interval: &DurationAndUnit) -> (r: Result<
        String,
        ExchangeError,
    >)
        ensures
            r is Ok <==> kraken_interval(*interval) is Some,
            r matches Ok(t) ==> kraken_interval(*interval) is Some && t@ == crate::text::dec_of(
                kraken_interval(*interval)->0,
            ),
            r matches Err(e) ==> e is Config,
    {
        match interval.1 {
            TermUnit::Sec => Err(
                ExchangeError::Config("Kraken does not support candlestick of seconds".to_owned()),
            ),
            TermUnit::Min => Ok(u64_to_dec(interval.0 as u64)),
            TermUnit::Hour => Ok(u64_to_dec(interval.0 as u64 * 60)),
            TermUnit::Day => Ok(u64_to_dec(interval.0 as u64 * 60 * 24)),
            TermUnit::Week => Ok(u64_to_dec(interval.0 as u64 * 60 * 24 * 7)),
            TermUnit::Month => Err(
                ExchangeError::Config("Kraken does not support candlestick of months".to_owned()),
            ),
        }
    }

    /// Finds the rows under the symbol's own key: the first entry of the
    /// result map that is not the `last` cursor.
    fn payload<'a>(entries: &'a Vec<(String, JsonTree)>) -> (r: Option<&'a JsonTree>)
        ensures
            match r {
                Some(t) => kraken_payload(entries@) == Some(*t),
                None => kraken_payload(entries@) is None,
            },
    {
        let n = entries.len();
        let mut i: usize = 0;
        while i < n
            invariant
                n == entries@.len(),
                0 <= i <= n,
                forall|k: int| 0 <= k < i ==> (#[trigger] entries@[k]).0@ == "last"@,
            decreases n - i,
        {
            if !str_eq(entries[i].0.as_str(), "last") {
                proof {
                    lemma_kraken_payload_skip(entries@, i as int);
                    assert(entries@.skip(i as int)[0] == entries@[i as int]);
                }
                return Some(&entries[i].1);
            }
            i = i + 1;
        }
        proof {
            lemma_kraken_payload_skip(entries@, n as int);
            assert(entries@.skip(n as int) =~= Seq::<(String, JsonTree)>::empty());
        }
        None
    }

    /// Reads one decoded row into a candlestick; Kraken's bucket times are
    /// whole seconds.
    fn row_kline(cells: &Vec<JsonTree>) -> (r: Option<Kline>)
        ensures
            r == kraken_row_kline(cells@),
    {
        if cells.len() < 6 {
            return None;
        }
        let ts = match &cells[0] {
            JsonTree::Num(ts) => ts,
            _ => { return None; },
        };
        let o = match &cells[1] {
            JsonTree::Text(o) => o,
            _ => { return None; },
        };
        let h = match &cells[2] {
            JsonTree::Text(h) => h,
            _ => { return None; },
        };
        let l = match &cells[3] {
            JsonTree::Text(l) => l,
            _ => { return None; },
        };
        let c = match &cells[4] {
            JsonTree::Text(c) => c,
            _ => { return None; },
        };
        let v = match &cells[5] {
            JsonTree::Text(v) => v,
            _ => { return None; },
        };
        let secs = match parse_i64(ts.as_str()) {
            Some(t) => t,
            None => { return None; },
        };
        if secs < -9223372036854775 || secs > 9223372036854775 {
            return None;
        }
        Some(
            Kline {
                unixtime_msec: secs * 1000,
                o: o.clone(),
                h: h.clone(),
                l: l.clone(),
                c: c.clone(),
                v: v.clone(),
            },
        )
    }

    /// Extracts the candlesticks from a decoded Kraken response; any
    /// departure from the expected shape is a fault, never an empty result.
    pub fn klines_from_tree(tree: &JsonTree) -> (r: Result<Vec<Kline>, ExchangeError>)
        ensures
            r matches Ok(ks) ==> kraken_klines_of(*tree) == Some(ks@),
            r is Err <==> kraken_klines_of(*tree) is None,
            r matches Err(e) ==> e == ExchangeError::ShapeFault,
    {
        let entries = match tree {
            JsonTree::Obj(entries) => entries,
            _ => { return Err(ExchangeError::ShapeFault); },
        };
        let result = match obj_get(entries, "result") {
            Some(JsonTree::Obj(result)) => result,
            _ => { return Err(ExchangeError::ShapeFault); },
        };
        let rows = match Kraken::payload(result) {
            Some(JsonTree::Arr(rows)) => rows,
            _ => { return Err(ExchangeError::ShapeFault); },
        };
        let n = rows.len();
        let mut out: Vec<Kline> = Vec::new();
        let mut i: usize = 0;
        while i < n
            invariant
                n == rows@.len(),
                0 <= i <= n,
                kraken_klines_of(*tree) == kraken_rows_klines(rows@),
                kraken_rows_klines(rows@.subrange(0, i as int)) == Some(out@),
            decreases n - i,
        {
            let cells = match &rows[i] {
                JsonTree::Arr(cells) => cells,
                _ => {
                    proof {
                        lemma_kraken_rows_prefix_fault(rows@, i as int);
                    }
                    return Err(ExchangeError::ShapeFault);
                },
            };
            let k = match Kraken::row_kline(cells) {
                Some(k) => k,
                None => {
                    proof {
                        lemma_kraken_rows_prefix_fault(rows@, i as int);
                    }
                    return Err(ExchangeError::ShapeFault);
                },
            };
            out.push(k);
            i = i + 1;
            proof {
                assert(rows@.subrange(0, i as int).drop_last() =~= rows@.subrange(0, i as int - 1));
                assert(rows@.subrange(0, i as int).last() == rows@[i as int - 1]);
            }
        }
        proof {
            assert(rows@.subrange(0, n as int) =~= rows@);
        }
        Ok(out)
    }

    /// Parses a raw Kraken response body into candlesticks.
    pub fn parse_as_kline(&self, data: String) -> (r: Result<Vec<Kline>, ExchangeError>)
        ensures
            r matches Err(e) ==> e == ExchangeError::ShapeFault,
            crate::jsontree::json_of(data@) is None ==> r is Err,
            crate::jsontree::json_of(data@) matches Some(t) ==> {
                &&& (r matches Ok(ks) ==> kraken_klines_of(t) == Some(ks@))
                &&& (r is Err <==> kraken_klines_of(t) is None)
            },
    {
        match decode_json(data.as_str()) {
            Some(tree) => Kraken::klines_from_tree(&tree),
            None => Err(ExchangeError::ShapeFault),
        }
    }
}

/// A shape fault in one row spoils the whole response.
proof fn lemma_kraken_rows_prefix_fault(rows: Seq<JsonTree>, i: int)
    requires
        0 <= i < rows.len(),
        !(rows[i] matches JsonTree::Arr(cells) && kraken_row_kline(cells@) is Some),
    ensures
        kraken_rows_klines(rows) is None,
    decreases rows.len() - i,
{
    if i == rows.len() - 1 {
        assert(rows.last() == rows[i]);
    } else {
        assert(rows.drop_last()[i] == rows[i]);
        lemma_kraken_rows_prefix_fault(rows.drop_last(), i);
    }
}

} // verus!
