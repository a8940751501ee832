use vstd::prelude::*;

verus! {

/// The editor-level mode, including the `:` command line that the
/// command-input collaborator owns.  Exactly one is active at a time.
#[derive(Clone, Copy, Debug, PartialEq, Eq, Structural)]
pub enum Mode {
    Insert,
    Normal,
    Command,
}

} // verus!
