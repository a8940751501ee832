use vstd::prelude::*;

verus! {

/// The `:` command input modal of the hotkey layer: whether it is open,
/// and what has been typed into it.
pub struct CommandInput {
    pub open: bool,
    pub input: String,
}

impl Default for CommandInput {
    /// A closed modal with nothing typed.
    fn default() -> (r: Self)
        ensures
            r.open == false,
            r.input@ == Seq::<char>::empty(),
    {
        CommandInput { open: false, input: String::new() }
    }
}

impl CommandInput {
    /// Open the modal and clear any previous input.
    pub fn open(&mut self)
        ensures
            final(self).open == true,
            final(self).input@ == Seq::<char>::empty(),
    {
        self.open = true;
        self.input = String::new();
    }

    /// Close the modal; the input stays.
    pub fn close(&mut self)
        ensures
            final(self).open == false,
            final(self).input == old(self).input,
    {
        self.open = false;
    }
}

} // verus!
