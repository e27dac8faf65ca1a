use vstd::prelude::*;

use crate::exchange::{Kline, KlineNumber};
use crate::types::Row;

verus! {

/// The fields of a candlestick a caller can select for output.
#[derive(Debug, Clone, Copy, PartialEq, Eq, Hash, Structural)]
pub enum Pick {
    T,
    O,
    H,
    L,
    C,
    V,
}

/// The field of `k` that `p` selects.
pub open spec fn picked_field(k: Kline, p: Pick) -> KlineNumber {
    match p {
        Pick::T => KlineNumber::Unixtime(k.unixtime_msec),
        Pick::O => KlineNumber::Ohlcv(k.o),
        Pick::H => KlineNumber::Ohlcv(k.h),
        Pick::L => KlineNumber::Ohlcv(k.l),
        Pick::C => KlineNumber::Ohlcv(k.c),
        Pick::V => KlineNumber::Ohlcv(k.v),
    }
}

/// The output row of one candlestick: the picked fields, in pick order.
pub open spec fn picked_row(k: Kline, picks: Seq<Pick>) -> Seq<(Pick, KlineNumber)> {
    picks.map_values(|p: Pick| (p, picked_field(k, p)))
}

impl Pick {
    /// Projects the picked fields out of each row, in the order given;
    /// picks may repeat and may come in any order.
    pub fn up(data: Vec<Kline>, pick: &Vec<Pick>) -> (r: Vec<Row>)
        ensures
            r@.len() == data@.len(),
            forall|i: int| 0 <= i < data@.len() ==> #[trigger] r@[i]@ == picked_row(data@[i], pick@),
    {
        let n = data.len();
        let m = pick.len();
        let mut result: Vec<Row> = Vec::new();
        let mut i: usize = 0;
        while i < n
            invariant
                n == data@.len(),
                m == pick@.len(),
                0 <= i <= n,
                result@.len() == i,
                forall|q: int|
                    0 <= q < i ==> #[trigger] result@[q]@ == picked_row(data@[q], pick@),
            decreases n - i,
        {
            let mut row: Row = Vec::new();
            let mut j: usize = 0;
            while j < m
                invariant
                    n == data@.len(),
                    m == pick@.len(),
                    0 <= i < n,
                    0 <= j <= m,
                    row@ == picked_row(data@[i as int], pick@.subrange(0, j as int)),
                decreases m - j,
            {
                let d = &data[i];
                let entry = match pick[j] {
                    Pick::T => (Pick::T, KlineNumber::Unixtime(d.unixtime_msec)),
                    Pick::O => (Pick::O, KlineNumber::Ohlcv(d.o.clone())),
                    Pick::H => (Pick::H, KlineNumber::Ohlcv(d.h.clone())),
                    Pick::L => (Pick::L, KlineNumber::Ohlcv(d.l.clone())),
                    Pick::C => (Pick::C, KlineNumber::Ohlcv(d.c.clone())),
                    Pick::V => (Pick::V, KlineNumber::Ohlcv(d.v.clone())),
                };
                row.push(entry);
                j = j + 1;
                proof {
                    assert(row@ =~= picked_row(data@[i as int], pick@.subrange(0, j as int)));
                }
            }
            proof {
                assert(pick@.subrange(0, m as int) =~= pick@);
            }
            result.push(row);
            i = i + 1;
        }
        result
    }
}

} // verus!
