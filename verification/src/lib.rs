//! A batch retrieval engine for historical OHLCV candlesticks from several
//! cryptocurrency exchanges' REST interfaces.
//!
//! The core is the pagination engine in [`exchange`]: given a request
//! window, it drives an adapter through repeated prepare/fetch/parse/trim
//! cycles, narrowing the window one interval past each page's last row,
//! until the window is exhausted or its far edge is crossed. Each exchange
//! adapter translates the canonical symbol and interval vocabulary into its
//! own, builds the per-page request, classifies the exchange's error
//! envelope into the canonical kinds of [`error`], and extracts rows from
//! its response shape.
//!
//! Network transport, command-line parsing and text rendering live outside
//! this crate; everything here works on plain values and is verified.

pub mod args;
pub mod error;
pub mod exchange;
pub mod format;
pub mod formatter;
pub mod guide;
pub mod jsontree;
pub mod order;
pub mod output;
pub mod pick;
pub mod text;
pub mod timestamp;
pub mod types;
pub mod unit;
