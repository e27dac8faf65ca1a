use vstd::prelude::*;

use vstd::multiset::Multiset;

use crate::exchange::Kline;

verus! {

broadcast use vstd::seq_lib::group_to_multiset_ensures;

/// Chronological ordering of a sequence of rows.
#[derive(Debug, Clone, Copy, PartialEq, Eq, Structural)]
pub enum Order {
    Asc,
    Desc,
}

/// Rows in non-decreasing timestamp order.
pub open spec fn sorted_asc_rows(rows: Seq<Kline>) -> bool {
    forall|i: int|
        0 <= i < rows.len() - 1 ==> (#[trigger] rows[i]).unixtime_msec <= rows[i
            + 1].unixtime_msec
}

/// Rows in non-increasing timestamp order.
pub open spec fn sorted_desc_rows(rows: Seq<Kline>) -> bool {
    forall|i: int|
        0 <= i < rows.len() - 1 ==> (#[trigger] rows[i]).unixtime_msec >= rows[i
            + 1].unixtime_msec
}

impl Order {
    /// Sorts rows by timestamp for the final output: the same rows come
    /// back, in the chosen chronological order.
    pub fn sort(data: Vec<Kline>, order: &Self) -> (r: Vec<Kline>)
        ensures
            r@.to_multiset() == data@.to_multiset(),
            r@.len() == data@.len(),
            *order == Order::Asc ==> sorted_asc_rows(r@),
            *order == Order::Desc ==> sorted_desc_rows(r@),
    {
        let ghost orig = data@;
        let mut src = data;
        let mut out: Vec<Kline> = Vec::new();
        loop
            invariant
                sorted_asc_rows(out@),
                out@.to_multiset().add(src@.to_multiset()) == orig.to_multiset(),
                out@.len() + src@.len() == orig.len(),
                forall|i: int, j: int|
                    0 <= i < out@.len() && 0 <= j < src@.len() ==> (
                    #[trigger] out@[i]).unixtime_msec <= (#[trigger] src@[j]).unixtime_msec,
            ensures
                sorted_asc_rows(out@),
                out@.to_multiset() == orig.to_multiset(),
                out@.len() == orig.len(),
            decreases src@.len(),
        {
            if src.len() == 0 {
                proof {
                    assert(src@.to_multiset() =~= Multiset::<Kline>::empty());
                    assert(out@.to_multiset() =~= orig.to_multiset());
                }
                break ;
            }
            let n = src.len();
            let mut m: usize = 0;
            let mut i: usize = 1;
            while i < n
                invariant
                    n == src@.len(),
                    0 <= m < i <= n,
                    forall|k: int|
                        0 <= k < i ==> src@[m as int].unixtime_msec <= (
                        #[trigger] src@[k]).unixtime_msec,
                decreases n - i,
            {
                if src[i].unixtime_msec < src[m].unixtime_msec {
                    m = i;
                }
                i = i + 1;
            }
            let picked = src.remove(m);
            let ghost old_out = out@;
            out.push(picked);
            proof {
                assert(out@.to_multiset().add(src@.to_multiset()) =~= orig.to_multiset());
                assert forall|i2: int, j2: int|
                    0 <= i2 < out@.len() && 0 <= j2 < src@.len() implies (
                #[trigger] out@[i2]).unixtime_msec <= (#[trigger] src@[j2]).unixtime_msec by {
                    if j2 < m {
                    } else {
                    }
                }
            }
        }
        match order {
            Order::Asc => out,
            Order::Desc => {
                let n = out.len();
                let mut rev: Vec<Kline> = Vec::new();
                let mut i: usize = n;
                while i > 0
                    invariant
                        n == out@.len(),
                        0 <= i <= n,
                        rev@ == out@.subrange(i as int, n as int).reverse(),
                    decreases i,
                {
                    i = i - 1;
                    rev.push(out[i].clone());
                    proof {
                        assert(rev@ =~= out@.subrange(i as int, n as int).reverse());
                    }
                }
                proof {
                    assert(out@.subrange(0, n as int) =~= out@);
                    assert(rev@ =~= out@.reverse());
                    out@.lemma_reverse_to_multiset();
                    assert forall|k: int|
                        0 <= k < rev@.len() - 1 implies (#[trigger] rev@[k]).unixtime_msec
                        >= rev@[k + 1].unixtime_msec by {
                        assert(rev@[k] == out@[n - 1 - k]);
                        assert(rev@[k + 1] == out@[n - 2 - k]);
                    }
                }
                rev
            },
        }
    }
}

} // verus!
