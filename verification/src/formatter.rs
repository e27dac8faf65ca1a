use vstd::prelude::*;

verus! {

/// An output format selection; a second spelling of the formats beside the
/// one in `format`.
#[derive(Debug, Clone, Copy, PartialEq, Eq, Structural)]
pub enum FormatType {
    Json,
    Csv,
    Tsv,
    Raw,
}

} // verus!
