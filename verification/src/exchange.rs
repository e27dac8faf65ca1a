use vstd::prelude::*;

pub mod binance;
pub mod bitbank;
pub mod bitmex;
pub mod bybit;
pub mod kraken;
pub mod okx;

use crate::error::ExchangeError;
use crate::order::Order;
use crate::text::{dec_of_int, i64_to_dec};

verus! {

/// The exchanges the tool can talk to.
#[derive(Debug, Clone, Copy, PartialEq, Eq, Structural)]
pub enum ExchangeChoices {
    Binance,
    Bitbank,
    Bitmex,
    Bybit,
    Okx,
}

impl ExchangeChoices {
    /// The exchange's display name.
    pub fn name(&self) -> (r: String)
        ensures
            *self == ExchangeChoices::Binance ==> r@ == "Binance"@,
            *self == ExchangeChoices::Bitbank ==> r@ == "bitbank"@,
            *self == ExchangeChoices::Bitmex ==> r@ == "BitMEX"@,
            *self == ExchangeChoices::Bybit ==> r@ == "Bybit"@,
            *self == ExchangeChoices::Okx ==> r@ == "OKX"@,
    {
        match self {
            ExchangeChoices::Binance => "Binance".to_owned(),
            ExchangeChoices::Bitbank => "bitbank".to_owned(),
            ExchangeChoices::Bitmex => "BitMEX".to_owned(),
            ExchangeChoices::Bybit => "Bybit".to_owned(),
            ExchangeChoices::Okx => "OKX".to_owned(),
        }
    }
}

/// One OHLCV candlestick row. The timestamp is milliseconds since the epoch;
/// the price and volume fields keep the textual rendering the exchange
/// delivered, so that no numeric precision is gained or lost here.
#[derive(Debug, PartialEq)]
pub struct Kline {
    pub unixtime_msec: i64,
    pub o: String,
    pub h: String,
    pub l: String,
    pub c: String,
    pub v: String,
}

impl Clone for Kline {
    fn clone(&self) -> (r: Self)
        ensures
            r == *self,
    {
        Kline {
            unixtime_msec: self.unixtime_msec,
            o: self.o.clone(),
            h: self.h.clone(),
            l: self.l.clone(),
            c: self.c.clone(),
            v: self.v.clone(),
        }
    }
}

/// One field of a row: either the timestamp or one of the textual
/// price/volume values.
#[derive(Debug, Clone, PartialEq)]
pub enum KlineNumber {
    Unixtime(i64),
    Ohlcv(String),
}

impl KlineNumber {
    /// The field as text: timestamps in decimal, other values unchanged.
    pub fn as_string(&self) -> (r: String)
        ensures
            self matches KlineNumber::Unixtime(n) ==> r@ == dec_of_int(*n as int),
            self matches KlineNumber::Ohlcv(s) ==> r@ == s@,
    {
        match self {
            KlineNumber::Unixtime(n) => i64_to_dec(*n),
            KlineNumber::Ohlcv(s) => s.clone(),
        }
    }
}

/// One concrete adapter, ready to drive a retrieval.
#[derive(Debug)]
pub enum Exchange {
    Binance(crate::exchange::binance::Binance),
    Bitbank(crate::exchange::bitbank::Bitbank),
    Bitmex(crate::exchange::bitmex::Bitmex),
    Bybit(crate::exchange::bybit::Bybit),
    Okx(crate::exchange::okx::Okx),
}

/// The caller's requested time range; both ends inclusive.
#[derive(Debug, Clone, Copy, PartialEq, Eq, Structural)]
pub struct RequestWindow {
    pub start: i64,
    pub end: i64,
}

/// Largest timestamp magnitude the engine reasons about; leaves room for
/// widening a window and advancing it by one interval without overflow.
pub open spec fn ts_bound() -> int {
    0x4000_0000_0000_0000
}

/// Largest interval length in milliseconds (see `DurationAndUnit::to_msec`).
pub open spec fn step_bound() -> int {
    0x10_0000_0000_0000
}

/// The time ordering read off a page's first two rows.
pub open spec fn page_order(first: Kline, second: Kline) -> Order {
    if first.unixtime_msec < second.unixtime_msec {
        Order::Asc
    } else {
        Order::Desc
    }
}

/// Determines a page's time ordering by comparing its first two rows.
pub fn determine_sort_order(first: &Kline, second: &Kline) -> (r: Order)
    ensures
        r == page_order(*first, *second),
{
    if first.unixtime_msec < second.unixtime_msec {
        Order::Asc
    } else {
        Order::Desc
    }
}

/// How one page narrows the window, per the pagination algorithm: fewer
/// than two rows exhaust the window; otherwise the boundary on the side of
/// travel advances one interval past the page's last row, and crossing the
/// opposite edge is conclusive.
pub open spec fn next_window_spec(w: RequestWindow, page: Seq<Kline>, step: int) -> Option<
    RequestWindow,
> {
    if page.len() < 2 {
        None
    } else if page_order(page[0], page[1]) == Order::Asc {
        if page.last().unixtime_msec + step > w.end {
            None
        } else {
            Some(RequestWindow { start: (page.last().unixtime_msec + step) as i64, end: w.end })
        }
    } else {
        if page.last().unixtime_msec - step < w.start {
            None
        } else {
            Some(RequestWindow { start: w.start, end: (page.last().unixtime_msec - step) as i64 })
        }
    }
}

/// Decides whether another page must be fetched after `page`, and with which
/// narrowed window. `None` means the retrieval stops here.
pub fn next_window(w: &RequestWindow, page: &Vec<Kline>, step_msec: i64) -> (r: Option<
    RequestWindow,
>)
    requires
        0 < step_msec <= step_bound(),
        forall|i: int|
            0 <= i < page@.len() ==> -ts_bound() <= (#[trigger] page@[i]).unixtime_msec
                <= ts_bound(),
    ensures
        r == next_window_spec(*w, page@, step_msec as int),
{
    if page.len() < 2 {
        return None;
    }
    let order = determine_sort_order(&page[0], &page[1]);
    let last_ts = page[page.len() - 1].unixtime_msec;
    match order {
        Order::Asc => {
            let ns = last_ts + step_msec;
            if w.end < ns {
                None
            } else {
                Some(RequestWindow { start: ns, end: w.end })
            }
        },
        Order::Desc => {
            let ne = last_ts - step_msec;
            if ne < w.start {
                None
            } else {
                Some(RequestWindow { start: w.start, end: ne })
            }
        },
    }
}

// ---------------------------------------------------------------------------
// Canonical symbols
// ---------------------------------------------------------------------------

/// Whether a canonical symbol holds its `/` separator.
pub open spec fn has_separator(s: Seq<char>) -> bool {
    crate::text::char_idx(s, '/') < s.len()
}

/// The part before the first separator.
pub open spec fn symbol_base(s: Seq<char>) -> Seq<char> {
    s.subrange(0, crate::text::char_idx(s, '/'))
}

/// The part after the first separator.
pub open spec fn symbol_quote(s: Seq<char>) -> Seq<char> {
    s.subrange(crate::text::char_idx(s, '/') + 1, s.len() as int)
}

/// Splits a canonical `BASE/QUOTE` symbol at its first separator.
pub fn split_symbol(symbol: &str) -> (r: Option<(String, String)>)
    ensures
        r is Some <==> has_separator(symbol@),
        r matches Some(p) ==> p.0@ == symbol_base(symbol@) && p.1@ == symbol_quote(symbol@),
{
    let n = symbol.unicode_len();
    let i = crate::text::find_char(symbol, '/');
    if i == n {
        None
    } else {
        let base = symbol.substring_char(0, i).to_owned();
        let quote = symbol.substring_char(i + 1, n).to_owned();
        Some((base, quote))
    }
}

/// The error for a symbol without its separator.
pub fn malformed_symbol_error() -> (r: ExchangeError)
    ensures
        r matches ExchangeError::Config(m) && m@
            == "The symbol pair provided is incorrectly formatted."@,
{
    ExchangeError::Config("The symbol pair provided is incorrectly formatted.".to_owned())
}

// ---------------------------------------------------------------------------
// Ordered row tables
// ---------------------------------------------------------------------------

/// Rows in ascending time order with at least `step` between neighbours.
pub open spec fn stepped_rows(rows: Seq<Kline>, step: int) -> bool {
    forall|i: int|
        0 <= i < rows.len() - 1 ==> (#[trigger] rows[i]).unixtime_msec + step <= rows[i
            + 1].unixtime_msec
}

/// Every row's timestamp lies in `[lo, hi]`.
pub open spec fn rows_within(rows: Seq<Kline>, lo: int, hi: int) -> bool {
    forall|i: int| 0 <= i < rows.len() ==> lo <= (#[trigger] rows[i]).unixtime_msec <= hi
}

/// In a stepped table, any earlier row is at least `step` older.
pub proof fn lemma_stepped_le(rows: Seq<Kline>, step: int, i: int, j: int)
    requires
        stepped_rows(rows, step),
        step >= 0,
        0 <= i <= j < rows.len(),
    ensures
        i < j ==> rows[i].unixtime_msec + step <= rows[j].unixtime_msec,
        rows[i].unixtime_msec <= rows[j].unixtime_msec,
    decreases j - i,
{
    if i < j {
        lemma_stepped_le(rows, step, i, j - 1);
    }
}

/// Index of the first row at or after time `t`, or the length.
#[verifier::opaque]
pub open spec fn first_at_or_after(rows: Seq<Kline>, t: int) -> int
    decreases rows.len(),
{
    if rows.len() == 0 {
        0
    } else if rows[0].unixtime_msec >= t {
        0
    } else {
        1 + first_at_or_after(rows.drop_first(), t)
    }
}

/// Index of the first row strictly after time `t`, or the length.
#[verifier::opaque]
pub open spec fn first_after(rows: Seq<Kline>, t: int) -> int
    decreases rows.len(),
{
    if rows.len() == 0 {
        0
    } else if rows[0].unixtime_msec > t {
        0
    } else {
        1 + first_after(rows.drop_first(), t)
    }
}

/// Any index with only earlier rows before it and a row at or after `t` (or
/// the end) at it is `first_at_or_after`.
pub proof fn lemma_first_at_or_after_unique(rows: Seq<Kline>, t: int, e: int)
    requires
        0 <= e <= rows.len(),
        forall|k: int| 0 <= k < e ==> (#[trigger] rows[k]).unixtime_msec < t,
        e == rows.len() || rows[e].unixtime_msec >= t,
    ensures
        first_at_or_after(rows, t) == e,
    decreases rows.len(),
{
    reveal(first_at_or_after);
    if rows.len() == 0 {
    } else if e == 0 {
    } else {
        assert(forall|k: int|
            0 <= k < e - 1 ==> (#[trigger] rows.drop_first()[k]).unixtime_msec < t);
        if e - 1 < rows.drop_first().len() {
            assert(rows.drop_first()[e - 1] == rows[e]);
        }
        lemma_first_at_or_after_unique(rows.drop_first(), t, e - 1);
    }
}

/// Any index with only rows at or before `t` before it and a later row (or
/// the end) at it is `first_after`.
pub proof fn lemma_first_after_unique(rows: Seq<Kline>, t: int, e: int)
    requires
        0 <= e <= rows.len(),
        forall|k: int| 0 <= k < e ==> (#[trigger] rows[k]).unixtime_msec <= t,
        e == rows.len() || rows[e].unixtime_msec > t,
    ensures
        first_after(rows, t) == e,
    decreases rows.len(),
{
    reveal(first_after);
    if rows.len() == 0 {
    } else if e == 0 {
    } else {
        assert(forall|k: int|
            0 <= k < e - 1 ==> (#[trigger] rows.drop_first()[k]).unixtime_msec <= t);
        if e - 1 < rows.drop_first().len() {
            assert(rows.drop_first()[e - 1] == rows[e]);
        }
        lemma_first_after_unique(rows.drop_first(), t, e - 1);
    }
}

// ---------------------------------------------------------------------------
// A deterministic mock exchange
// ---------------------------------------------------------------------------

/// A deterministic stand-in for an exchange: a fixed ascending table of
/// rows, a page-size limit, a result ordering, and optionally a request
/// number at which the fetch reports throttling.
#[derive(Debug)]
pub struct MockExchange {
    pub rows: Vec<Kline>,
    pub limit: usize,
    pub descending: bool,
    pub fail_on_request: Option<u64>,
}

impl MockExchange {
    /// Well-formed for an engine step of `step` milliseconds: the page size
    /// allows direction detection, rows are spaced by at least one
    /// interval, and timestamps stay within the engine's bounds.
    pub open spec fn wf(&self, step: int) -> bool {
        &&& self.limit >= 2
        &&& stepped_rows(self.rows@, step)
        &&& forall|i: int|
            0 <= i < self.rows@.len() ==> -ts_bound() <= (#[trigger] self.rows@[i]).unixtime_msec
                <= ts_bound()
    }
}

/// One page as a mock exchange serves it: up to `limit` rows with
/// timestamps in `[lo, hi]` — the earliest of them in ascending order, or
/// the latest of them in descending order.
fn mock_page(rows: &Vec<Kline>, limit: usize, descending: bool, lo: i64, hi: i64) -> (r: Vec<Kline>)
    requires
        stepped_rows(rows@, 1),
        lo <= hi,
        limit >= 1,
    ensures
        ({
            let a = first_at_or_after(rows@, lo as int);
            let b = first_after(rows@, hi as int);
            &&& a <= b
            &&& if descending {
                r@ == rows@.subrange(
                    if b - limit >= a {
                        b - limit
                    } else {
                        a
                    },
                    b,
                ).reverse()
            } else {
                r@ == rows@.subrange(
                    a,
                    if a + limit <= b {
                        a + limit
                    } else {
                        b
                    },
                )
            }
        }),
{
    proof {
        lemma_mock_page_bounds(rows@, lo as int, hi as int);
    }
    if !descending {
        mock_page_asc(rows, limit, lo, hi)
    } else {
        mock_page_desc(rows, limit, lo, hi)
    }
}

/// The ascending half of `mock_page`: the earliest `limit` rows in range.
fn mock_page_asc(rows: &Vec<Kline>, limit: usize, lo: i64, hi: i64) -> (r: Vec<Kline>)
    requires
        stepped_rows(rows@, 1),
        lo <= hi,
        limit >= 1,
    ensures
        ({
            let a = first_at_or_after(rows@, lo as int);
            let b = first_after(rows@, hi as int);
            r@ == rows@.subrange(
                a,
                if a + limit <= b {
                    a + limit
                } else {
                    b
                },
            )
        }),
{
    let n = rows.len();
    let ghost a = first_at_or_after(rows@, lo as int);
    let ghost b = first_after(rows@, hi as int);
    proof {
        lemma_mock_page_bounds(rows@, lo as int, hi as int);
    }
    {
        let mut i: usize = 0;
        loop
            invariant
                n == rows@.len(),
                0 <= i <= n,
                forall|k: int| 0 <= k < i ==> (#[trigger] rows@[k]).unixtime_msec < lo,
            ensures
                0 <= i <= n,
                forall|k: int| 0 <= k < i ==> (#[trigger] rows@[k]).unixtime_msec < lo,
                i == n || rows@[i as int].unixtime_msec >= lo,
            decreases n - i,
        {
            if i == n {
                break ;
            }
            if rows[i].unixtime_msec >= lo {
                break ;
            }
            i = i + 1;
        }
        proof {
            lemma_first_at_or_after_unique(rows@, lo as int, i as int);
        }
        let mut out: Vec<Kline> = Vec::new();
        loop
            invariant
                n == rows@.len(),
                stepped_rows(rows@, 1),
                lo <= hi,
                a == first_at_or_after(rows@, lo as int),
                b == first_after(rows@, hi as int),
                0 <= a <= i <= n,
                i <= a + limit,
                out@ == rows@.subrange(a, i as int),
                forall|k: int| 0 <= k < i ==> (#[trigger] rows@[k]).unixtime_msec <= hi,
            ensures
                out@ == rows@.subrange(
                    a,
                    if a + limit <= b {
                        a + limit
                    } else {
                        b
                    },
                ),
            decreases n - i,
        {
            if i == n {
                proof {
                    lemma_first_after_unique(rows@, hi as int, n as int);
                }
                break ;
            }
            if rows[i].unixtime_msec > hi {
                proof {
                    lemma_first_after_unique(rows@, hi as int, i as int);
                }
                break ;
            }
            if out.len() == limit {
                proof {
                    assert(b >= i) by {
                        lemma_first_after_props(rows@, hi as int);
                        if b < i {
                            assert(rows@[b].unixtime_msec <= hi);
                        }
                    }
                }
                break ;
            }
            out.push(rows[i].clone());
            i = i + 1;
            proof {
                assert(out@ =~= rows@.subrange(a, i as int));
            }
        }
        out
    }
}

/// The descending half of `mock_page`: the latest `limit` rows in range,
/// most recent first.
#[verifier::rlimit(100)]
#[verifier::spinoff_prover]
fn mock_page_desc(rows: &Vec<Kline>, limit: usize, lo: i64, hi: i64) -> (r: Vec<Kline>)
    requires
        stepped_rows(rows@, 1),
        lo <= hi,
        limit >= 1,
    ensures
        ({
            let a = first_at_or_after(rows@, lo as int);
            let b = first_after(rows@, hi as int);
            r@ == rows@.subrange(
                if b - limit >= a {
                    b - limit
                } else {
                    a
                },
                b,
            ).reverse()
        }),
{
    let n = rows.len();
    let ghost a = first_at_or_after(rows@, lo as int);
    let ghost b = first_after(rows@, hi as int);
    proof {
        lemma_mock_page_bounds(rows@, lo as int, hi as int);
        lemma_first_at_or_after_props(rows@, lo as int);
        lemma_first_after_props(rows@, hi as int);
    }
    {
        let mut j: usize = n;
        loop
            invariant
                n == rows@.len(),
                stepped_rows(rows@, 1),
                0 <= j <= n,
                forall|k: int| j <= k < n ==> (#[trigger] rows@[k]).unixtime_msec > hi,
            ensures
                0 <= j <= n,
                forall|k: int| j <= k < n ==> (#[trigger] rows@[k]).unixtime_msec > hi,
                j == 0 || rows@[j - 1].unixtime_msec <= hi,
            decreases j,
        {
            if j == 0 {
                break ;
            }
            if rows[j - 1].unixtime_msec <= hi {
                break ;
            }
            j = j - 1;
        }
        proof {
            assert forall|k: int| 0 <= k < j implies (#[trigger] rows@[k]).unixtime_msec <= hi by {
                lemma_stepped_le(rows@, 1, k, j - 1);
            }
            lemma_first_after_unique(rows@, hi as int, j as int);
        }
        let mut out: Vec<Kline> = Vec::new();
        let mut k: usize = j;
        loop
            invariant
                n == rows@.len(),
                stepped_rows(rows@, 1),
                lo <= hi,
                a == first_at_or_after(rows@, lo as int),
                b == first_after(rows@, hi as int),
                b == j as int,
                0 <= a <= b,
                0 <= k <= j <= n,
                j - limit <= k,
                out@ == rows@.subrange(k as int, j as int).reverse(),
                forall|t: int| k <= t < j ==> (#[trigger] rows@[t]).unixtime_msec >= lo,
                forall|t: int| j <= t < n ==> (#[trigger] rows@[t]).unixtime_msec > hi,
            ensures
                out@ == rows@.subrange(
                    if b - limit >= a {
                        b - limit
                    } else {
                        a
                    },
                    b,
                ).reverse(),
            decreases k,
        {
            if k == 0 {
                proof {
                    if j > 0 {
                        lemma_first_at_or_after_unique(rows@, lo as int, 0);
                    }
                }
                break ;
            }
            if rows[k - 1].unixtime_msec < lo {
                proof {
                    assert forall|t: int| 0 <= t < k implies (
                    #[trigger] rows@[t]).unixtime_msec < lo by {
                        lemma_stepped_le(rows@, 1, t, k - 1);
                    }
                    if k < j {
                        lemma_first_at_or_after_unique(rows@, lo as int, k as int);
                    } else {
                        if (j as int) < n {
                            assert(rows@[j as int].unixtime_msec > hi);
                        }
                        lemma_first_at_or_after_unique(rows@, lo as int, j as int);
                    }
                }
                break ;
            }
            if out.len() == limit {
                proof {
                    assert(k == j - limit);
                    assert(a <= k) by {
                        lemma_first_at_or_after_props(rows@, lo as int);
                        if a > k {
                            assert(rows@[k as int].unixtime_msec < lo);
                        }
                    }
                }
                break ;
            }
            out.push(rows[k - 1].clone());
            k = k - 1;
            proof {
                assert(out@ =~= rows@.subrange(k as int, j as int).reverse());
            }
        }
        out
    }
}

/// The basic facts about `first_at_or_after`: rows before it are earlier
/// than `t`, the row at it (if any) is not.
pub proof fn lemma_first_at_or_after_props(rows: Seq<Kline>, t: int)
    ensures
        0 <= first_at_or_after(rows, t) <= rows.len(),
        forall|k: int|
            0 <= k < first_at_or_after(rows, t) ==> (#[trigger] rows[k]).unixtime_msec < t,
        first_at_or_after(rows, t) < rows.len() ==> rows[first_at_or_after(
            rows,
            t,
        )].unixtime_msec >= t,
    decreases rows.len(),
{
    reveal(first_at_or_after);
    if rows.len() > 0 && rows[0].unixtime_msec < t {
        lemma_first_at_or_after_props(rows.drop_first(), t);
        assert forall|k: int| 0 <= k < first_at_or_after(rows, t) implies (
        #[trigger] rows[k]).unixtime_msec < t by {
            if k > 0 {
                assert(rows.drop_first()[k - 1] == rows[k]);
            }
        }
        if first_at_or_after(rows, t) < rows.len() {
            assert(rows.drop_first()[first_at_or_after(rows.drop_first(), t)] == rows[
            first_at_or_after(rows, t)]);
        }
    }
}

/// The basic facts about `first_after`: rows before it are at or before
/// `t`, the row at it (if any) is later.
pub proof fn lemma_first_after_props(rows: Seq<Kline>, t: int)
    ensures
        0 <= first_after(rows, t) <= rows.len(),
        forall|k: int| 0 <= k < first_after(rows, t) ==> (#[trigger] rows[k]).unixtime_msec <= t,
        first_after(rows, t) < rows.len() ==> rows[first_after(rows, t)].unixtime_msec > t,
    decreases rows.len(),
{
    reveal(first_after);
    if rows.len() > 0 && rows[0].unixtime_msec <= t {
        lemma_first_after_props(rows.drop_first(), t);
        assert forall|k: int| 0 <= k < first_after(rows, t) implies (
        #[trigger] rows[k]).unixtime_msec <= t by {
            if k > 0 {
                assert(rows.drop_first()[k - 1] == rows[k]);
            }
        }
        if first_after(rows, t) < rows.len() {
            assert(rows.drop_first()[first_after(rows.drop_first(), t)] == rows[first_after(
                rows,
                t,
            )]);
        }
    }
}

// ---------------------------------------------------------------------------
// Running the engine against a mock exchange
// ---------------------------------------------------------------------------

/// Number of fetches a forward (ascending) run makes over the remaining
/// rows: pages of `limit` rows advance the window; a final page that leaves
/// the next boundary inside the window costs one further, empty request.
#[verifier::opaque]
pub open spec fn asc_requests(rows: Seq<Kline>, w_end: int, limit: int, step: int) -> int
    decreases rows.len(),
{
    if rows.len() <= 1 || limit < 2 {
        1
    } else if rows.len() <= limit {
        if rows.last().unixtime_msec + step > w_end {
            1
        } else {
            2
        }
    } else {
        1 + asc_requests(rows.skip(limit), w_end, limit, step)
    }
}

/// Number of fetches a backward (descending) run makes over the remaining
/// rows; the mirror image of `asc_requests`.
#[verifier::opaque]
pub open spec fn desc_requests(rows: Seq<Kline>, w_start: int, limit: int, step: int) -> int
    decreases rows.len(),
{
    if rows.len() <= 1 || limit < 2 {
        1
    } else if rows.len() <= limit {
        if rows[0].unixtime_msec - step < w_start {
            1
        } else {
            2
        }
    } else {
        1 + desc_requests(rows.take(rows.len() - limit), w_start, limit, step)
    }
}

/// How many fetches a run against the mock makes in all.
pub open spec fn mock_request_total(src: MockExchange, w: RequestWindow, step: int) -> int {
    if src.descending {
        desc_requests(src.rows@, w.start as int, src.limit as int, step)
    } else {
        asc_requests(src.rows@, w.end as int, src.limit as int, step)
    }
}

/// The rows a complete run against the mock returns: every row of the
/// table, in the order the pages deliver them.
pub open spec fn mock_retrieval_rows(src: MockExchange) -> Seq<Kline> {
    if src.descending {
        src.rows@.reverse()
    } else {
        src.rows@
    }
}

/// A run makes at least one fetch and at most two more than half the rows.
proof fn lemma_asc_requests_bounds(rows: Seq<Kline>, w_end: int, limit: int, step: int)
    ensures
        1 <= asc_requests(rows, w_end, limit, step) <= rows.len() / 2 + 2,
    decreases rows.len(),
{
    reveal(asc_requests);
    if !(rows.len() <= 1 || limit < 2) && rows.len() > limit {
        lemma_asc_requests_bounds(rows.skip(limit), w_end, limit, step);
    }
}

proof fn lemma_desc_requests_bounds(rows: Seq<Kline>, w_start: int, limit: int, step: int)
    ensures
        1 <= desc_requests(rows, w_start, limit, step) <= rows.len() / 2 + 2,
    decreases rows.len(),
{
    reveal(desc_requests);
    if !(rows.len() <= 1 || limit < 2) && rows.len() > limit {
        lemma_desc_requests_bounds(rows.take(rows.len() - limit), w_start, limit, step);
    }
}

/// Runs the pagination engine to completion against a mock exchange: each
/// iteration widens the current window by one millisecond on each side,
/// fetches a page, and narrows the window one interval past the page's last
/// row, until the window is exhausted or its far edge is crossed.
///
/// Because the result is pinned to `mock_retrieval_rows`, a function of the
/// inputs alone, re-running the same call against the same mock data always
/// yields the same rows. A failing fetch aborts the whole call: no rows
/// from earlier pages survive.
pub fn retrieve_mock(src: &MockExchange, window: &RequestWindow, step_msec: i64) -> (r: Result<
    (Vec<Kline>, u64),
    ExchangeError,
>)
    requires
        2 <= step_msec <= step_bound(),
        src.wf(step_msec as int),
        -ts_bound() < window.start as int,
        window.start <= window.end,
        (window.end as int) < ts_bound(),
        rows_within(src.rows@, window.start as int, window.end as int),
    ensures
        ({
            let total = mock_request_total(*src, *window, step_msec as int);
            &&& (r is Ok <==> (src.fail_on_request matches Some(k) ==> k == 0 || k > total))
            &&& (r matches Ok(p) ==> p.0@ == mock_retrieval_rows(*src) && p.1 == total)
            &&& (r matches Err(e) ==> e == ExchangeError::RateLimited)
        }),
{
    if src.descending {
        retrieve_mock_desc(src, window, step_msec)
    } else {
        retrieve_mock_asc(src, window, step_msec)
    }
}

/// The forward run: the mock serves ascending pages, so the engine raises
/// the window's start.
#[verifier::rlimit(100)]
#[verifier::spinoff_prover]

/// In the forward run, the unfetched rows are exactly those the widened
/// request window selects.
proof fn lemma_asc_page_bounds(rows: Seq<Kline>, step: int, idx: int, cur_start: int, w_end: int)
    requires
        stepped_rows(rows, step),
        step >= 2,
        0 <= idx <= rows.len(),
        forall|k: int| idx <= k < rows.len() ==> cur_start <= (#[trigger] rows[k]).unixtime_msec,
        forall|k: int| 0 <= k < idx ==> (#[trigger] rows[k]).unixtime_msec <= cur_start - step,
        forall|k: int| 0 <= k < rows.len() ==> (#[trigger] rows[k]).unixtime_msec <= w_end,
    ensures
        first_at_or_after(rows, cur_start - 1) == idx,
        first_after(rows, w_end + 1) == rows.len(),
{
    assert forall|k: int| 0 <= k < idx implies (#[trigger] rows[k]).unixtime_msec < cur_start
        - 1 by {}
    lemma_first_at_or_after_unique(rows, cur_start - 1, idx);
    lemma_first_after_unique(rows, w_end + 1, rows.len() as int);
}

/// Advancing the window one interval past a full page costs one request and
/// moves the fetched/unfetched frontier to the end of the page.
proof fn lemma_asc_advance(rows: Seq<Kline>, step: int, w_end: int, limit: int, idx: int, took: int)
    requires
        stepped_rows(rows, step),
        step >= 2,
        limit >= 2,
        0 <= idx,
        2 <= took,
        idx + took <= rows.len(),
        took == if idx + limit <= rows.len() {
            limit
        } else {
            rows.len() - idx
        },
        rows[idx + took - 1].unixtime_msec + step <= w_end,
    ensures
        asc_requests(rows.skip(idx), w_end, limit, step) == 1 + asc_requests(
            rows.skip(idx + took),
            w_end,
            limit,
            step,
        ),
        forall|k: int|
            idx + took <= k < rows.len() ==> rows[idx + took - 1].unixtime_msec + step <= (
            #[trigger] rows[k]).unixtime_msec,
        forall|k: int|
            0 <= k < idx + took ==> (#[trigger] rows[k]).unixtime_msec <= rows[idx + took
                - 1].unixtime_msec,
{
    reveal(asc_requests);
    let rest = rows.skip(idx);
    if took == limit && idx + took < rows.len() {
        assert(rest.len() > limit);
        assert(rest.skip(limit) =~= rows.skip(idx + took));
    } else {
        assert(idx + took == rows.len());
        assert(rest.len() == took);
        assert(rest.last() == rows[idx + took - 1]);
        assert(rows.skip(idx + took) =~= Seq::<Kline>::empty());
        assert(asc_requests(rows.skip(idx + took), w_end, limit, step) == 1);
        assert(asc_requests(rest, w_end, limit, step) == 2);
    }
    assert forall|k: int| idx + took <= k < rows.len() implies rows[idx + took
        - 1].unixtime_msec + step <= (#[trigger] rows[k]).unixtime_msec by {
        lemma_stepped_le(rows, step, idx + took - 1, k);
    }
    assert forall|k: int| 0 <= k < idx + took implies (#[trigger] rows[k]).unixtime_msec <= rows[idx
        + took - 1].unixtime_msec by {
        lemma_stepped_le(rows, step, k, idx + took - 1);
    }
}

/// A page whose next boundary would cross the window's end is the last one:
/// no rows can remain beyond it.
proof fn lemma_asc_stop(rows: Seq<Kline>, step: int, w_end: int, limit: int, idx: int, took: int)
    requires
        stepped_rows(rows, step),
        step >= 2,
        limit >= 2,
        0 <= idx,
        2 <= took,
        idx + took <= rows.len(),
        took == if idx + limit <= rows.len() {
            limit
        } else {
            rows.len() - idx
        },
        rows[idx + took - 1].unixtime_msec + step > w_end,
        forall|k: int| 0 <= k < rows.len() ==> (#[trigger] rows[k]).unixtime_msec <= w_end,
    ensures
        idx + took == rows.len(),
        asc_requests(rows.skip(idx), w_end, limit, step) == 1,
{
    reveal(asc_requests);
    if idx + took < rows.len() {
        lemma_stepped_le(rows, step, idx + took - 1, idx + took);
    }
    let rest = rows.skip(idx);
    assert(rest.len() == took);
    assert(rest.last() == rows[idx + took - 1]);
}

fn retrieve_mock_asc(src: &MockExchange, window: &RequestWindow, step_msec: i64) -> (r: Result<
    (Vec<Kline>, u64),
    ExchangeError,
>)
    requires
        2 <= step_msec <= step_bound(),
        src.wf(step_msec as int),
        !src.descending,
        -ts_bound() < window.start as int,
        window.start <= window.end,
        (window.end as int) < ts_bound(),
        rows_within(src.rows@, window.start as int, window.end as int),
    ensures
        ({
            let total = asc_requests(src.rows@, window.end as int, src.limit as int,
            step_msec as int);
            &&& (r is Ok <==> (src.fail_on_request matches Some(k) ==> k == 0 || k > total))
            &&& (r matches Ok(p) ==> p.0@ == src.rows@ && p.1 == total)
            &&& (r matches Err(e) ==> e == ExchangeError::RateLimited)
        }),
{
    let ghost total = asc_requests(src.rows@, window.end as int, src.limit as int, step_msec as int);
    let n = src.rows.len();
    proof {
        assert(src.rows@.skip(0) =~= src.rows@);
        lemma_asc_requests_bounds(src.rows@, window.end as int, src.limit as int, step_msec as int);
    }
    let mut acc: Vec<Kline> = Vec::new();
    let mut reqs: u64 = 0;
    let mut idx: usize = 0;
    let mut cur_start: i64 = window.start;
    loop
        invariant
            2 <= step_msec <= step_bound(),
            src.wf(step_msec as int),
            -ts_bound() < window.start as int,
            window.start <= window.end,
            (window.end as int) < ts_bound(),
            rows_within(src.rows@, window.start as int, window.end as int),
            total == asc_requests(src.rows@, window.end as int, src.limit as int,
            step_msec as int),
            n == src.rows@.len(),
            0 <= idx <= n,
            acc@ == src.rows@.subrange(0, idx as int),
            window.start <= cur_start <= window.end,
            forall|k: int|
                idx <= k < n ==> cur_start as int <= (#[trigger] src.rows@[k]).unixtime_msec,
            forall|k: int|
                0 <= k < idx ==> (#[trigger] src.rows@[k]).unixtime_msec <= cur_start as int
                    - step_msec,
            total == reqs + asc_requests(src.rows@.skip(idx as int), window.end as int,
            src.limit as int, step_msec as int),
            1 <= total <= n / 2 + 2,
            0 <= reqs <= total,
            src.fail_on_request matches Some(k) ==> k == 0 || k > reqs,
        decreases n - idx,
    {
        proof {
            lemma_asc_requests_bounds(src.rows@.skip(idx as int), window.end as int,
            src.limit as int, step_msec as int);
        }
        let req_no = reqs + 1;
        if let Some(k) = src.fail_on_request {
            if k == req_no {
                return Err(ExchangeError::RateLimited);
            }
        }
        reqs = req_no;
        let page = mock_page(&src.rows, src.limit, false, cur_start - 1, window.end + 1);
        let ghost rest = src.rows@.skip(idx as int);
        proof {
            lemma_stepped_implies_sorted(src.rows@, step_msec as int);
            lemma_asc_page_bounds(src.rows@, step_msec as int, idx as int, cur_start as int,
            window.end as int);
            assert(page@ == src.rows@.subrange(
                idx as int,
                if idx + src.limit <= n {
                    idx + src.limit
                } else {
                    n as int
                },
            ));
        }
        let took = page.len();
        let mut page = page;
        acc.append(&mut page);
        proof {
            assert(acc@ =~= src.rows@.subrange(0, idx as int + took as int));
            assert(rest.len() == n - idx);
        }
        if took < 2 {
            proof {
                reveal(asc_requests);
                assert(n - idx <= 1);
                assert(acc@ =~= src.rows@);
                assert(asc_requests(rest, window.end as int, src.limit as int, step_msec as int)
                    == 1);
            }
            return Ok((acc, reqs));
        }
        let last_ts = acc[acc.len() - 1].unixtime_msec;
        proof {
            assert(acc@.last() == src.rows@[idx + took - 1]);
        }
        let ns = last_ts + step_msec;
        if window.end < ns {
            proof {
                lemma_asc_stop(src.rows@, step_msec as int, window.end as int, src.limit as int,
                idx as int, took as int);
                assert(acc@ =~= src.rows@);
            }
            return Ok((acc, reqs));
        }
        proof {
            lemma_asc_advance(src.rows@, step_msec as int, window.end as int, src.limit as int,
            idx as int, took as int);
        }
        idx = idx + took;
        cur_start = ns;
    }
}

/// Rows spaced by a positive step are strictly sorted.
proof fn lemma_stepped_implies_sorted(rows: Seq<Kline>, step: int)
    requires
        stepped_rows(rows, step),
        step >= 1,
    ensures
        stepped_rows(rows, 1),
{
}

/// The backward run: the mock serves descending pages, so the engine lowers
/// the window's end.
#[verifier::rlimit(100)]
#[verifier::spinoff_prover]
fn retrieve_mock_desc(src: &MockExchange, window: &RequestWindow, step_msec: i64) -> (r: Result<
    (Vec<Kline>, u64),
    ExchangeError,
>)
    requires
        2 <= step_msec <= step_bound(),
        src.wf(step_msec as int),
        src.descending,
        -ts_bound() < window.start as int,
        window.start <= window.end,
        (window.end as int) < ts_bound(),
        rows_within(src.rows@, window.start as int, window.end as int),
    ensures
        ({
            let total = desc_requests(src.rows@, window.start as int, src.limit as int,
            step_msec as int);
            &&& (r is Ok <==> (src.fail_on_request matches Some(k) ==> k == 0 || k > total))
            &&& (r matches Ok(p) ==> p.0@ == src.rows@.reverse() && p.1 == total)
            &&& (r matches Err(e) ==> e == ExchangeError::RateLimited)
        }),
{
    let ghost total = desc_requests(src.rows@, window.start as int, src.limit as int,
    step_msec as int);
    let n = src.rows.len();
    proof {
        assert(src.rows@.take(n as int) =~= src.rows@);
        lemma_desc_requests_bounds(src.rows@, window.start as int, src.limit as int,
        step_msec as int);
    }
    let mut acc: Vec<Kline> = Vec::new();
    let mut reqs: u64 = 0;
    let mut hi_idx: usize = n;
    let mut cur_end: i64 = window.end;
    loop
        invariant
            2 <= step_msec <= step_bound(),
            src.wf(step_msec as int),
            src.descending,
            -ts_bound() < window.start as int,
            window.start <= window.end,
            (window.end as int) < ts_bound(),
            rows_within(src.rows@, window.start as int, window.end as int),
            total == desc_requests(src.rows@, window.start as int, src.limit as int,
            step_msec as int),
            n == src.rows@.len(),
            0 <= hi_idx <= n,
            acc@ == src.rows@.subrange(hi_idx as int, n as int).reverse(),
            window.start <= cur_end <= window.end,
            forall|k: int|
                0 <= k < hi_idx ==> (#[trigger] src.rows@[k]).unixtime_msec <= cur_end as int,
            forall|k: int|
                hi_idx <= k < n ==> cur_end as int + step_msec <= (
                #[trigger] src.rows@[k]).unixtime_msec,
            total == reqs + desc_requests(src.rows@.take(hi_idx as int), window.start as int,
            src.limit as int, step_msec as int),
            1 <= total <= n / 2 + 2,
            0 <= reqs <= total,
            src.fail_on_request matches Some(k) ==> k == 0 || k > reqs,
        decreases hi_idx,
    {
        proof {
            lemma_desc_requests_bounds(src.rows@.take(hi_idx as int), window.start as int,
            src.limit as int, step_msec as int);
        }
        let req_no = reqs + 1;
        if let Some(k) = src.fail_on_request {
            if k == req_no {
                return Err(ExchangeError::RateLimited);
            }
        }
        reqs = req_no;
        let page = mock_page(&src.rows, src.limit, true, window.start - 1, cur_end + 1);
        let ghost rest = src.rows@.take(hi_idx as int);
        let ghost lo_idx = if hi_idx as int - src.limit as int >= 0 {
            hi_idx as int - src.limit as int
        } else {
            0
        };
        proof {
            lemma_stepped_implies_sorted(src.rows@, step_msec as int);
            lemma_first_at_or_after_unique(src.rows@, window.start as int - 1, 0);
            assert forall|k: int| hi_idx <= k < n implies (
            #[trigger] src.rows@[k]).unixtime_msec > cur_end as int + 1 by {}
            lemma_first_after_unique(src.rows@, cur_end as int + 1, hi_idx as int);
            assert(page@ == src.rows@.subrange(lo_idx, hi_idx as int).reverse());
        }
        let took = page.len();
        let ghost old_acc = acc@;
        let mut page = page;
        acc.append(&mut page);
        proof {
            assert(page@.len() == 0);
            assert(src.rows@.subrange(lo_idx, hi_idx as int).reverse().len() == hi_idx - lo_idx);
            assert(acc@ =~= src.rows@.subrange(lo_idx, n as int).reverse());
            assert(rest.len() == hi_idx);
        }
        if took < 2 {
            proof {
                reveal(desc_requests);
                assert(hi_idx - lo_idx <= 1);
                assert(lo_idx == 0);
                assert(acc@ =~= src.rows@.reverse());
                assert(desc_requests(rest, window.start as int, src.limit as int,
                step_msec as int) == 1);
            }
            return Ok((acc, reqs));
        }
        let last_ts = acc[acc.len() - 1].unixtime_msec;
        proof {
            assert(acc@.last() == src.rows@.subrange(lo_idx, n as int).reverse().last());
            assert(acc@.last() == src.rows@[lo_idx]);
        }
        let ne = last_ts - step_msec;
        if ne < window.start {
            proof {
                assert(lo_idx == 0) by {
                    if lo_idx > 0 {
                        lemma_stepped_le(src.rows@, step_msec as int, lo_idx - 1, lo_idx);
                        assert(src.rows@[lo_idx - 1].unixtime_msec >= window.start as int);
                    }
                }
                reveal(desc_requests);
                assert(acc@ =~= src.rows@.reverse());
                assert(rest.len() == hi_idx == took);
                assert(rest[0] == src.rows@[0]);
                assert(rest[0].unixtime_msec - step_msec < window.start as int);
                assert(desc_requests(rest, window.start as int, src.limit as int,
                step_msec as int) == 1);
            }
            return Ok((acc, reqs));
        }
        proof {
            reveal(desc_requests);
            let limit = src.limit as int;
            if took == limit && lo_idx > 0 {
                assert(rest.len() > limit);
                assert(desc_requests(rest, window.start as int, limit, step_msec as int) == 1
                    + desc_requests(rest.take(rest.len() - limit), window.start as int, limit,
                step_msec as int));
                assert(rest.take(rest.len() - limit) =~= src.rows@.take(lo_idx));
            } else {
                assert(lo_idx == 0);
                assert(rest.len() == took);
                assert(2 <= rest.len() <= limit);
                assert(rest[0] == src.rows@[0]);
                assert(rest[0].unixtime_msec - step_msec >= window.start as int);
                assert(desc_requests(rest, window.start as int, limit, step_msec as int) == 2);
                assert(src.rows@.take(0) =~= Seq::<Kline>::empty());
                assert(desc_requests(src.rows@.take(0), window.start as int, limit, step_msec as int)
                    == 1);
            }
            assert forall|k: int| 0 <= k < lo_idx implies (
            #[trigger] src.rows@[k]).unixtime_msec <= ne as int by {
                lemma_stepped_le(src.rows@, step_msec as int, k, lo_idx);
            }
            assert forall|k: int| lo_idx <= k < n implies ne as int + step_msec <= (
            #[trigger] src.rows@[k]).unixtime_msec by {
                lemma_stepped_le(src.rows@, step_msec as int, lo_idx, k);
            }
        }
        hi_idx = if hi_idx > src.limit {
            hi_idx - src.limit
        } else {
            0
        };
        cur_end = ne;
    }
}

/// Coverage: a complete retrieval returns every row the mock data defines
/// inside the window, each exactly once, and no two returned rows share a
/// timestamp. `retrieve_mock` pins its rows to `mock_retrieval_rows`, so
/// this law speaks of every complete run.
pub proof fn lemma_mock_retrieval_coverage(src: MockExchange, w: RequestWindow, step: int)
    requires
        2 <= step,
        src.wf(step),
        rows_within(src.rows@, w.start as int, w.end as int),
    ensures
        mock_retrieval_rows(src).len() == src.rows@.len(),
        forall|r: Kline| mock_retrieval_rows(src).contains(r) <==> src.rows@.contains(r),
        forall|i: int, j: int|
            0 <= i < j < mock_retrieval_rows(src).len() ==> (#[trigger] mock_retrieval_rows(
                src,
            )[i]).unixtime_msec != (#[trigger] mock_retrieval_rows(src)[j]).unixtime_msec,
{
    let res = mock_retrieval_rows(src);
    let n = src.rows@.len() as int;
    if src.descending {
        assert forall|r: Kline| res.contains(r) implies src.rows@.contains(r) by {
            let i = choose|i: int| 0 <= i < res.len() && res[i] == r;
            assert(src.rows@[n - 1 - i] == r);
        }
        assert forall|r: Kline| src.rows@.contains(r) implies res.contains(r) by {
            let i = choose|i: int| 0 <= i < src.rows@.len() && src.rows@[i] == r;
            assert(res[n - 1 - i] == r);
        }
        assert forall|i: int, j: int| 0 <= i < j < res.len() implies (
        #[trigger] res[i]).unixtime_msec != (#[trigger] res[j]).unixtime_msec by {
            lemma_stepped_le(src.rows@, step, n - 1 - j, n - 1 - i);
        }
    } else {
        assert forall|i: int, j: int| 0 <= i < j < res.len() implies (
        #[trigger] res[i]).unixtime_msec != (#[trigger] res[j]).unixtime_msec by {
            lemma_stepped_le(src.rows@, step, i, j);
        }
    }
}

/// Idempotence: the rows and the request count of a complete run are
/// functions of the mock data, the window and the interval alone, so
/// re-running the same call against the same mock data yields the same
/// rows. `retrieve_mock` pins its result to these functions.
pub proof fn lemma_mock_retrieval_idempotent(
    src1: MockExchange,
    src2: MockExchange,
    w1: RequestWindow,
    w2: RequestWindow,
    step1: int,
    step2: int,
)
    requires
        src1.rows@ == src2.rows@,
        src1.limit == src2.limit,
        src1.descending == src2.descending,
        w1 == w2,
        step1 == step2,
    ensures
        mock_retrieval_rows(src1) == mock_retrieval_rows(src2),
        mock_request_total(src1, w1, step1) == mock_request_total(src2, w2, step2),
{
}

/// With `lo <= hi + 1`, the window's lower boundary index cannot pass its
/// upper one.
proof fn lemma_mock_page_bounds(rows: Seq<Kline>, lo: int, hi: int)
    requires
        lo <= hi + 1,
    ensures
        first_at_or_after(rows, lo) <= first_after(rows, hi),
{
    lemma_first_at_or_after_props(rows, lo);
    lemma_first_after_props(rows, hi);
    let a = first_at_or_after(rows, lo);
    let b = first_after(rows, hi);
    if a > b {
        assert(rows[b].unixtime_msec < lo);
        assert(rows[b].unixtime_msec > hi);
    }
}

} // verus!
