use vstd::prelude::*;

verus! {

/// Which directory the system terminal should open in.  Launching the
/// terminal itself is the host's job: `toggle` only decides the
/// directory, handing back the remembered one if there is one.
pub struct Terminal {
    last_opened_directory: Option<String>,
}

impl Terminal {
    /// The remembered directory, as the contracts see it.
    pub closed spec fn spec_directory(&self) -> Option<Seq<char>> {
        match self.last_opened_directory {
            Some(d) => Some(d@),
            None => None,
        }
    }

    /// Ask for the terminal: the result is the directory it should open
    /// in, or nothing when the host should fall back to its working
    /// directory.  The remembered directory stays.
    pub fn toggle(&mut self) -> (r: Option<String>)
        ensures
            final(self).spec_directory() == old(self).spec_directory(),
            old(self).spec_directory() is None <==> r is None,
            r matches Some(d) ==> old(self).spec_directory() == Some(d@),
    {
        match &self.last_opened_directory {
            Some(d) => Some(d.clone()),
            None => None,
        }
    }

    /// Remember the directory the next terminal should open in.
    pub fn set_directory(&mut self, directory: String)
        ensures
            final(self).spec_directory() == Some(directory@),
    {
        self.last_opened_directory = Some(directory);
    }
}

impl Default for Terminal {
    /// No directory remembered yet.
    fn default() -> (r: Self)
        ensures
            r.spec_directory() is None,
    {
        Terminal { last_opened_directory: None }
    }
}

} // verus!
