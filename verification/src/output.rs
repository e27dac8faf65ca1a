use vstd::prelude::*;

verus! {

/// The kinds of output the tool can emit.
#[derive(Debug, Clone, Copy, PartialEq, Eq, Structural)]
pub enum OutputKind {
    Raw,
    Csv,
    Tsv,
    Json,
}

} // verus!
