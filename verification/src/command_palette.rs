use vstd::prelude::*;

verus! {

use vstd::string::{StrSliceExecFns, StringExecFns};
use crate::chars::chars_of;
use crate::text_search::{contains_sub, contains_sub_spec, lowercase, lower_of};

/// One entry of the command palette: a command's name and what it does.
#[derive(Clone, Debug)]
pub struct Command {
    pub name: String,
    pub description: String,
}

/// A command as the contracts see it: the name and description texts.
pub open spec fn cmd_view(c: Command) -> (Seq<char>, Seq<char>) {
    (c.name@, c.description@)
}

/// A command table as the contracts see it, entry by entry.
pub open spec fn views_of(s: Seq<Command>) -> Seq<(Seq<char>, Seq<char>)>
    decreases s.len(),
{
    if s.len() == 0 {
        Seq::empty()
    } else {
        views_of(s.drop_last()).push(cmd_view(s.last()))
    }
}

/// The palette's fixed command table.
pub open spec fn default_palette() -> Seq<(Seq<char>, Seq<char>)> {
    seq![
        ("Theme"@, "Open theme settings"@),
        ("Settings"@, "Open editor settings"@),
        ("Open File"@, "Open an existing file"@),
        ("Open Folder"@, "Open a folder in file tree"@),
        ("Save File"@, "Save the current file"@),
        ("Quit"@, "Exit the editor"@),
        ("New File"@, "Create a new file"@),
        ("Save As"@, "Save the current file with a new name"@),
        ("Toggle Terminal"@, "Open system terminal"@),
        ("Find and Replace"@, "Search and replace text in editor"@),
    ]
}

/// A command passes the filter when its case-folded name contains the
/// case-folded input.
pub open spec fn palette_keeps(name: Seq<char>, input: Seq<char>) -> bool {
    contains_sub_spec(lower_of(name), lower_of(input))
}

/// The commands whose names pass the filter, in their table order.
pub open spec fn palette_filter(cmds: Seq<(Seq<char>, Seq<char>)>, input: Seq<char>) -> Seq<
    (Seq<char>, Seq<char>),
>
    decreases cmds.len(),
{
    if cmds.len() == 0 {
        Seq::empty()
    } else if palette_keeps(cmds.last().0, input) {
        palette_filter(cmds.drop_last(), input).push(cmds.last())
    } else {
        palette_filter(cmds.drop_last(), input)
    }
}

/// The overlay command palette: its open state, the typed filter, the
/// fixed command table, and the commands that currently pass the
/// filter.
pub struct CommandPalette {
    pub open: bool,
    pub input: String,
    pub commands: Vec<Command>,
    pub filtered_commands: Vec<Command>,
}

impl CommandPalette {
    /// The command table, as the contracts see it.
    pub open spec fn spec_commands(&self) -> Seq<(Seq<char>, Seq<char>)> {
        views_of(self.commands@)
    }

    /// The filtered commands, as the contracts see them.
    pub open spec fn spec_filtered(&self) -> Seq<(Seq<char>, Seq<char>)> {
        views_of(self.filtered_commands@)
    }

    /// Open or close the palette; opening clears the filter and shows
    /// the whole table.
    pub fn toggle(&mut self)
        ensures
            final(self).open == !old(self).open,
            final(self).spec_commands() == old(self).spec_commands(),
            final(self).open ==> final(self).input@ == Seq::<char>::empty()
                && final(self).spec_filtered() == old(self).spec_commands(),
            !final(self).open ==> final(self).input == old(self).input
                && final(self).spec_filtered() == old(self).spec_filtered(),
    {
        self.open = !self.open;
        if self.open {
            self.input = String::new();
            self.filtered_commands = clone_commands(&self.commands);
        }
    }

    /// Close the palette, clearing the filter and the filtered list.
    pub fn close(&mut self)
        ensures
            final(self).open == false,
            final(self).input@ == Seq::<char>::empty(),
            final(self).spec_filtered() == Seq::<(Seq<char>, Seq<char>)>::empty(),
            final(self).spec_commands() == old(self).spec_commands(),
    {
        self.open = false;
        self.input = String::new();
        self.filtered_commands = Vec::new();
    }

    /// Re-filter the table against the typed input: an empty input
    /// shows everything, otherwise a command stays when its case-folded
    /// name contains the case-folded input.
    pub fn filter_commands(&mut self)
        ensures
            final(self).open == old(self).open,
            final(self).input == old(self).input,
            final(self).spec_commands() == old(self).spec_commands(),
            old(self).input@.len() == 0 ==> final(self).spec_filtered() == old(
                self,
            ).spec_commands(),
            old(self).input@.len() > 0 ==> final(self).spec_filtered() == palette_filter(
                old(self).spec_commands(),
                old(self).input@,
            ),
    {
        if self.input.as_str().unicode_len() == 0 {
            self.filtered_commands = clone_commands(&self.commands);
            return ;
        }
        let lowered_input = lowercase(self.input.as_str());
        let needle = chars_of(lowered_input.as_str());
        let mut out: Vec<Command> = Vec::new();
        let n = self.commands.len();
        let mut i: usize = 0;
        while i < n
            invariant
                i <= n == self.commands@.len(),
                self == old(self),
                needle@ == lower_of(self.input@),
                views_of(out@) == palette_filter(
                    views_of(self.commands@.take(i as int)),
                    self.input@,
                ),
            decreases n - i,
        {
            let lowered_name = lowercase(self.commands[i].name.as_str());
            let hay = chars_of(lowered_name.as_str());
            let ghost prev = out@;
            proof {
                lemma_views_take_step(self.commands@, i as int);
                let cs = views_of(self.commands@.take(i + 1));
                assert(cs.drop_last() =~= views_of(self.commands@.take(i as int)));
                assert(cs.last() == cmd_view(self.commands@[i as int]));
            }
            if contains_sub(&hay, &needle) {
                let c = &self.commands[i];
                out.push(Command { name: c.name.clone(), description: c.description.clone() });
                proof {
                    assert(out@.drop_last() =~= prev);
                    assert(cmd_view(out@.last()) == cmd_view(self.commands@[i as int]));
                }
            }
            i = i + 1;
        }
        proof {
            assert(self.commands@.take(n as int) =~= self.commands@);
        }
        self.filtered_commands = out;
    }
}

/// One more table entry makes one more view entry.
proof fn lemma_views_take_step(s: Seq<Command>, i: int)
    requires
        0 <= i < s.len(),
    ensures
        views_of(s.take(i + 1)) == views_of(s.take(i)).push(cmd_view(s[i])),
{
    assert(s.take(i + 1).drop_last() =~= s.take(i));
    assert(s.take(i + 1).last() == s[i]);
}

/// A fresh palette: closed, no filter, the fixed table shown in full.
impl Default for CommandPalette {
    fn default() -> (r: Self)
        ensures
            r.open == false,
            r.input@ == Seq::<char>::empty(),
            r.spec_commands() == default_palette(),
            r.spec_filtered() == default_palette(),
    {
        let mut commands: Vec<Command> = Vec::new();
        proof {
            assert(views_of(commands@) =~= Seq::<(Seq<char>, Seq<char>)>::empty());
        }
        push_cmd(&mut commands, "Theme", "Open theme settings");
        push_cmd(&mut commands, "Settings", "Open editor settings");
        push_cmd(&mut commands, "Open File", "Open an existing file");
        push_cmd(&mut commands, "Open Folder", "Open a folder in file tree");
        push_cmd(&mut commands, "Save File", "Save the current file");
        push_cmd(&mut commands, "Quit", "Exit the editor");
        push_cmd(&mut commands, "New File", "Create a new file");
        push_cmd(&mut commands, "Save As", "Save the current file with a new name");
        push_cmd(&mut commands, "Toggle Terminal", "Open system terminal");
        push_cmd(&mut commands, "Find and Replace", "Search and replace text in editor");
        let filtered = clone_commands(&commands);
        proof {
            assert(views_of(commands@) =~= default_palette());
        }
        CommandPalette { open: false, input: String::new(), commands, filtered_commands: filtered }
    }
}

/// Append one command to the table.
fn push_cmd(v: &mut Vec<Command>, name: &str, description: &str)
    ensures
        views_of(final(v)@) == views_of(old(v)@).push((name@, description@)),
{
    v.push(Command { name: String::from_str(name), description: String::from_str(description) });
    proof {
        assert(v@.drop_last() =~= old(v)@);
        assert(cmd_view(v@.last()) == (name@, description@));
    }
}

/// Copy a command table entry by entry.
fn clone_commands(v: &Vec<Command>) -> (r: Vec<Command>)
    ensures
        views_of(r@) == views_of(v@),
{
    let mut out: Vec<Command> = Vec::new();
    let n = v.len();
    let mut i: usize = 0;
    proof {
        assert(views_of(out@) =~= views_of(v@.take(0)));
    }
    while i < n
        invariant
            i <= n == v@.len(),
            views_of(out@) == views_of(v@.take(i as int)),
        decreases n - i,
    {
        let c = &v[i];
        let ghost prev = out@;
        out.push(Command { name: c.name.clone(), description: c.description.clone() });
        proof {
            lemma_views_take_step(v@, i as int);
            assert(out@.drop_last() =~= prev);
            assert(cmd_view(out@.last()) == cmd_view(v@[i as int]));
        }
        i = i + 1;
    }
    proof {
        assert(v@.take(n as int) =~= v@);
    }
    out
}

} // verus!
