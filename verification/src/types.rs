use vstd::prelude::*;

use crate::exchange::KlineNumber;
use crate::pick::Pick;

verus! {

/// One output row: the picked fields of a candlestick, in pick order.
pub type Row = Vec<(Pick, KlineNumber)>;

} // verus!
