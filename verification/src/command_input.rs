use vstd::prelude::*;

verus! {

use vstd::string::StringExecFns;
use crate::chars::{chars_of, range_eq_str};
use crate::classify::{is_space, is_space_char};

/// `s` without its leading whitespace.
pub open spec fn trim_left(s: Seq<char>) -> Seq<char>
    decreases s.len(),
{
    if s.len() > 0 && is_space_char(s[0]) {
        trim_left(s.skip(1))
    } else {
        s
    }
}

/// `s` without its trailing whitespace.
pub open spec fn trim_right(s: Seq<char>) -> Seq<char>
    decreases s.len(),
{
    if s.len() > 0 && is_space_char(s.last()) {
        trim_right(s.drop_last())
    } else {
        s
    }
}

/// `s` without leading and trailing whitespace.
pub open spec fn trimmed(s: Seq<char>) -> Seq<char> {
    trim_right(trim_left(s))
}

/// The editor command a `:`-line input names: the trimmed input is
/// looked up in the fixed command table.
pub open spec fn process_command_spec(input: Seq<char>) -> Option<Seq<char>> {
    let t = trimmed(input);
    if t.len() == 0 {
        None
    } else if t == "w"@ || t == "write"@ {
        Some("Save File"@)
    } else if t == "q"@ || t == "quit"@ {
        Some("Quit"@)
    } else if t == "wq"@ {
        Some("Save and Quit"@)
    } else if t == "e"@ || t == "edit"@ {
        Some("Open File"@)
    } else if t == "new"@ {
        Some("New File"@)
    } else {
        None
    }
}

/// The `:` command input bar: whether it is open, and what has been
/// typed into it.
pub struct CommandInput {
    pub open: bool,
    pub input: String,
}

impl Default for CommandInput {
    /// A closed bar with nothing typed.
    fn default() -> (r: Self)
        ensures
            r.open == false,
            r.input@ == Seq::<char>::empty(),
    {
        CommandInput { open: false, input: String::new() }
    }
}

impl CommandInput {
    /// Open the bar, forgetting any previous input.
    pub fn open(&mut self)
        ensures
            final(self).open == true,
            final(self).input@ == Seq::<char>::empty(),
    {
        self.open = true;
        self.input = String::new();
    }

    /// Close the bar; the input stays.
    pub fn close(&mut self)
        ensures
            final(self).open == false,
            final(self).input == old(self).input,
    {
        self.open = false;
    }

    /// Interpret the typed text as an editor command and return the
    /// command's name, or nothing for an unknown or empty command.
    pub fn process_command(&self) -> (r: Option<String>)
        ensures
            r is Some <==> process_command_spec(self.input@) is Some,
            r matches Some(v) ==> process_command_spec(self.input@) == Some(v@),
    {
        let v = chars_of(self.input.as_str());
        let ghost s = v@;
        let n = v.len();
        let mut i: usize = 0;
        proof {
            assert(s.skip(0) =~= s);
        }
        while i < n && is_space(v[i])
            invariant
                i <= n == s.len(),
                s == v@,
                trim_left(s) == trim_left(s.skip(i as int)),
            decreases n - i,
        {
            proof {
                assert(s.skip(i as int).skip(1) =~= s.skip(i as int + 1));
            }
            i = i + 1;
        }
        proof {
            if i < n {
                assert(trim_left(s.skip(i as int)) == s.skip(i as int));
            } else {
                assert(s.skip(i as int) =~= Seq::<char>::empty());
            }
        }
        let mut j: usize = n;
        while j > i && is_space(v[j - 1])
            invariant
                i <= j <= n == s.len(),
                s == v@,
                trim_left(s) == s.skip(i as int),
                trim_right(s.skip(i as int)) == trim_right(s.subrange(i as int, j as int)),
            decreases j,
        {
            proof {
                assert(s.subrange(i as int, j as int).drop_last() =~= s.subrange(
                    i as int,
                    j as int - 1,
                ));
                assert(s.subrange(i as int, j as int).last() == s[j - 1]);
            }
            j = j - 1;
        }
        proof {
            if j > i {
                assert(s.subrange(i as int, j as int).last() == s[j - 1]);
                assert(trim_right(s.subrange(i as int, j as int)) == s.subrange(i as int, j as int));
            } else {
                assert(s.subrange(i as int, j as int) =~= Seq::<char>::empty());
            }
            assert(trimmed(s) == s.subrange(i as int, j as int));
        }
        if j == i {
            return None;
        }
        if range_eq_str(&v, i, j, "w") || range_eq_str(&v, i, j, "write") {
            Some(String::from_str("Save File"))
        } else if range_eq_str(&v, i, j, "q") || range_eq_str(&v, i, j, "quit") {
            Some(String::from_str("Quit"))
        } else if range_eq_str(&v, i, j, "wq") {
            Some(String::from_str("Save and Quit"))
        } else if range_eq_str(&v, i, j, "e") || range_eq_str(&v, i, j, "edit") {
            Some(String::from_str("Open File"))
        } else if range_eq_str(&v, i, j, "new") {
            Some(String::from_str("New File"))
        } else {
            None
        }
    }
}

} // verus!
