use vstd::prelude::*;

verus! {

/// What the highlighter needs to know about the open file: its
/// extension, which picks the syntax grammar.
#[derive(Clone, Debug)]
pub struct Settings {
    pub extension: String,
}

} // verus!
