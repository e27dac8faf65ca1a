use vstd::prelude::*;

use crate::pick::Pick;

verus! {

/// The output format of the final rendering.
#[derive(Debug, Clone, Copy, PartialEq, Eq, Structural)]
pub enum FormatType {
    Raw,
    Csv,
    Tsv,
    Json,
}

/// Tracks which keys of one JSON object have been written, since duplicate
/// keys are not allowed there.
#[derive(Debug, Clone, Copy, PartialEq, Eq, Structural)]
pub struct JsonKeyManager {
    pub unixtime: bool,
    pub o: bool,
    pub h: bool,
    pub l: bool,
    pub c: bool,
    pub v: bool,
}

impl JsonKeyManager {
    /// A manager with no key written yet.
    pub fn new() -> (r: Self)
        ensures
            r == (JsonKeyManager { unixtime: false, o: false, h: false, l: false, c: false, v: false }),
    {
        JsonKeyManager { unixtime: false, o: false, h: false, l: false, c: false, v: false }
    }

    /// Marks the key of `which` as written.
    pub fn used(&mut self, which: Pick)
        ensures
            *final(self) == (match which {
                Pick::T => JsonKeyManager { unixtime: true, ..*old(self) },
                Pick::O => JsonKeyManager { o: true, ..*old(self) },
                Pick::H => JsonKeyManager { h: true, ..*old(self) },
                Pick::L => JsonKeyManager { l: true, ..*old(self) },
                Pick::C => JsonKeyManager { c: true, ..*old(self) },
                Pick::V => JsonKeyManager { v: true, ..*old(self) },
            }),
    {
        match which {
            Pick::T => self.unixtime = true,
            Pick::O => self.o = true,
            Pick::H => self.h = true,
            Pick::L => self.l = true,
            Pick::C => self.c = true,
            Pick::V => self.v = true,
        }
    }
}

} // verus!
