use vstd::prelude::*;

verus! {

/// A command line assembled by the interactive wizard: the rendered command
/// text and the argument pairs it was built from.
#[derive(Debug, Clone, PartialEq)]
pub struct CommandSet {
    pub command: String,
    pub args: Vec<(String, String)>,
}

} // verus!
