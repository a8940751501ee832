use vstd::prelude::*;

verus! {

use vstd::string::{StrSliceExecFns, StringExecFns};
use crate::chars::{chars_of, clone_usizes};
use crate::find_replace::{match_positions, replace_all_spec, splice};
use crate::text_search::find_occurrences;
use crate::text_search::lowercase;

/// Whether `replace_next` has a current match whose range fits the text.
pub open spec fn replace_next_ok(fr: FindReplace, t: Seq<char>) -> bool {
    &&& fr.matches@.len() > 0
    &&& fr.current_match < fr.matches@.len()
    &&& fr.matches@[fr.current_match as int] + fr.find_text@.len() <= t.len()
}

/// The text `replace_next` produces: the current match spliced out for
/// the replacement.
pub open spec fn replace_next_text(fr: FindReplace, t: Seq<char>) -> Seq<char> {
    splice(
        t,
        fr.matches@[fr.current_match as int] as int,
        fr.find_text@.len() as int,
        fr.replace_text@,
    )
}

/// The match positions after `replace_next` ran on text `t`.
pub open spec fn replace_next_matches(fr: FindReplace, t: Seq<char>) -> Seq<int> {
    match_positions(fr.find_text@, replace_next_text(fr, t), fr.case_sensitive)
}

/// Find and replace of the hotkey layer: a find pattern, a replacement,
/// a case-sensitivity toggle, and the match positions of the last search
/// with the index of the current one.
pub struct FindReplace {
    pub open: bool,
    pub find_text: String,
    pub replace_text: String,
    pub case_sensitive: bool,
    pub match_count: usize,
    pub current_match: usize,
    pub matches: Vec<usize>,
}

impl Default for FindReplace {
    /// A closed panel with empty pattern and no matches.
    fn default() -> (r: Self)
        ensures
            r.open == false,
            r.find_text@ == Seq::<char>::empty(),
            r.replace_text@ == Seq::<char>::empty(),
            r.case_sensitive == false,
            r.match_count == 0,
            r.current_match == 0,
            r.matches@ == Seq::<usize>::empty(),
    {
        FindReplace {
            open: false,
            find_text: String::new(),
            replace_text: String::new(),
            case_sensitive: false,
            match_count: 0,
            current_match: 0,
            matches: Vec::new(),
        }
    }
}

impl FindReplace {
    /// Open or close the panel; opening it forgets previous matches.
    pub fn toggle(&mut self)
        ensures
            final(self).open == !old(self).open,
            final(self).find_text == old(self).find_text,
            final(self).replace_text == old(self).replace_text,
            final(self).case_sensitive == old(self).case_sensitive,
            final(self).open ==> final(self).match_count == 0 && final(self).current_match == 0
                && final(self).matches@ == Seq::<usize>::empty(),
            !final(self).open ==> final(self).match_count == old(self).match_count && final(self).current_match == old(self).current_match && final(self).matches == old(self).matches,
    {
        self.open = !self.open;
        if self.open {
            self.match_count = 0;
            self.current_match = 0;
            self.matches = Vec::new();
        }
    }

    /// Find every match of the pattern in `text` (case-folded unless
    /// case-sensitive), store the positions, and return a copy of them.
    pub fn find_matches(&mut self, text: &str) -> (r: Vec<usize>)
        ensures
            final(self).matches@.map_values(|v: usize| v as int) == match_positions(
                old(self).find_text@,
                text@,
                old(self).case_sensitive,
            ),
            r@ == final(self).matches@,
            old(self).find_text@.len() == 0 ==> final(self).match_count == old(self).match_count,
            old(self).find_text@.len() > 0 ==> final(self).match_count == final(self).matches@.len(),
            final(self).open == old(self).open,
            final(self).find_text == old(self).find_text,
            final(self).replace_text == old(self).replace_text,
            final(self).case_sensitive == old(self).case_sensitive,
            final(self).current_match == old(self).current_match,
    {
        if self.find_text.as_str().unicode_len() == 0 {
            self.matches = Vec::new();
            proof {
                assert(Seq::<usize>::empty().map_values(|v: usize| v as int) =~= Seq::<
                    int,
                >::empty());
            }
            return Vec::new();
        }
        let hay: Vec<char> = if self.case_sensitive {
            chars_of(text)
        } else {
            let lowered = lowercase(text);
            chars_of(lowered.as_str())
        };
        let needle: Vec<char> = if self.case_sensitive {
            chars_of(self.find_text.as_str())
        } else {
            let lowered = lowercase(self.find_text.as_str());
            chars_of(lowered.as_str())
        };
        let found = find_occurrences(&hay, &needle);
        let r = clone_usizes(&found);
        self.match_count = found.len();
        self.matches = found;
        r
    }

    /// Step to the next match, wrapping around, and put the cursor on
    /// it; with no matches nothing happens.
    pub fn go_to_next_match(&mut self, cursor_pos: &mut usize)
        ensures
            old(self).matches@.len() == 0 ==> *final(self) == *old(self) && *final(cursor_pos)
                == *old(cursor_pos),
            old(self).matches@.len() > 0 ==> *final(cursor_pos) == final(self).matches@[final(self).current_match as int],
            old(self).matches@.len() > 0 ==> final(self).current_match as int == (old(self).current_match + 1) % (old(self).matches@.len() as int),
            final(self).matches == old(self).matches,
            final(self).open == old(self).open,
            final(self).find_text == old(self).find_text,
            final(self).replace_text == old(self).replace_text,
            final(self).case_sensitive == old(self).case_sensitive,
            final(self).match_count == old(self).match_count,
    {
        let len = self.matches.len();
        if len > 0 {
            let c0 = self.current_match % len;
            let next: usize = if c0 + 1 == len {
                0
            } else {
                c0 + 1
            };
            proof {
                assert(next as int == (self.current_match + 1) % (len as int))
                    by (nonlinear_arith)
                    requires
                        len > 0,
                        c0 == self.current_match as int % (len as int),
                        next as int == if c0 + 1 == len {
                            0int
                        } else {
                            c0 + 1
                        },
                ;
            }
            self.current_match = next;
            *cursor_pos = self.matches[next];
        }
    }

    /// Step to the previous match, wrapping around, and put the cursor
    /// on it; with no matches nothing happens.
    pub fn go_to_prev_match(&mut self, cursor_pos: &mut usize)
        ensures
            old(self).matches@.len() == 0 ==> *final(self) == *old(self) && *final(cursor_pos)
                == *old(cursor_pos),
            old(self).matches@.len() > 0 && final(self).current_match < final(self).matches@.len()
                ==> *final(cursor_pos) == final(self).matches@[final(self).current_match as int],
            old(self).matches@.len() > 0 && final(self).current_match >= final(self).matches@.len() ==> *final(cursor_pos) == *old(cursor_pos),
            old(self).matches@.len() > 0 ==> final(self).current_match as int == (if old(self).current_match == 0 {
                old(self).matches@.len() - 1
            } else {
                old(self).current_match - 1
            }),
            final(self).matches == old(self).matches,
            final(self).open == old(self).open,
            final(self).find_text == old(self).find_text,
            final(self).replace_text == old(self).replace_text,
            final(self).case_sensitive == old(self).case_sensitive,
            final(self).match_count == old(self).match_count,
    {
        let len = self.matches.len();
        if len > 0 {
            if self.current_match == 0 {
                self.current_match = len - 1;
            } else {
                self.current_match = self.current_match - 1;
            }
            if self.current_match < len {
                *cursor_pos = self.matches[self.current_match];
            }
        }
    }

    /// Replace the current match with the replacement text, then search
    /// the new text again and clamp the current index.  Nothing happens
    /// (and `false` comes back) when there is no current match or its
    /// range does not fit the text.
    pub fn replace_next(&mut self, text: &mut String) -> (r: bool)
        ensures
            r == replace_next_ok(*old(self), old(text)@),
            !replace_next_ok(*old(self), old(text)@) ==> *final(self) == *old(self) && final(text)@
                == old(text)@,
            replace_next_ok(*old(self), old(text)@) ==> final(text)@ == replace_next_text(
                *old(self),
                old(text)@,
            ),
            replace_next_ok(*old(self), old(text)@) ==> final(self).matches@.map_values(
                |v: usize| v as int,
            ) == replace_next_matches(*old(self), old(text)@),
            replace_next_ok(*old(self), old(text)@) && old(self).find_text@.len() > 0 ==> final(self).match_count == final(self).matches@.len(),
            replace_next_ok(*old(self), old(text)@) && old(self).find_text@.len() == 0 ==> final(self).match_count == old(self).match_count,
            replace_next_ok(*old(self), old(text)@) ==> final(self).current_match as int == (if old(self).current_match >= replace_next_matches(*old(self), old(text)@).len()
                && replace_next_matches(*old(self), old(text)@).len() > 0 {
                replace_next_matches(*old(self), old(text)@).len() - 1
            } else {
                old(self).current_match as int
            }),
            final(self).open == old(self).open,
            final(self).find_text == old(self).find_text,
            final(self).replace_text == old(self).replace_text,
            final(self).case_sensitive == old(self).case_sensitive,
    {
        let n = text.as_str().unicode_len();
        if self.matches.len() == 0 || self.current_match >= self.matches.len() {
            return false;
        }
        let pos = self.matches[self.current_match];
        let flen = self.find_text.as_str().unicode_len();
        if pos > n || flen > n - pos {
            return false;
        }
        let end = pos + flen;
        let prefix = text.as_str().substring_char(0, pos);
        let mut out = String::from_str(prefix);
        out.append(self.replace_text.as_str());
        let suffix = text.as_str().substring_char(end, n);
        out.append(suffix);
        *text = out;
        let _ = self.find_matches(text.as_str());
        if self.current_match >= self.matches.len() && self.matches.len() > 0 {
            self.current_match = self.matches.len() - 1;
        }
        true
    }

    /// Replace every stored match, rightmost first, clear the match
    /// state, and return how many positions were processed; an empty
    /// pattern does nothing.
    pub fn replace_all(&mut self, text: &mut String) -> (r: usize)
        ensures
            old(self).find_text@.len() == 0 ==> r == 0 && *final(self) == *old(self) && final(text)@
                == old(text)@,
            old(self).find_text@.len() > 0 ==> r == old(self).matches@.len() && final(text)@
                == replace_all_spec(
                old(text)@,
                old(self).matches@.map_values(|v: usize| v as int),
                old(self).find_text@.len() as int,
                old(self).replace_text@,
            ) && final(self).matches@ == Seq::<usize>::empty() && final(self).match_count == 0
                && final(self).current_match == 0 && final(self).open == old(self).open && final(self).find_text == old(self).find_text && final(self).replace_text == old(self).replace_text && final(self).case_sensitive == old(self).case_sensitive,
    {
        if self.find_text.as_str().unicode_len() == 0 {
            return 0;
        }
        let cnt = self.matches.len();
        let flen = self.find_text.as_str().unicode_len();
        let ghost t0 = text@;
        let ghost ps = self.matches@.map_values(|v: usize| v as int);
        let mut i = cnt;
        proof {
            assert(ps.take(cnt as int) =~= ps);
        }
        while i > 0
            invariant
                i <= cnt == self.matches@.len(),
                ps == self.matches@.map_values(|v: usize| v as int),
                flen == self.find_text@.len(),
                self == old(self),
                replace_all_spec(t0, ps, flen as int, self.replace_text@) == replace_all_spec(
                    text@,
                    ps.take(i as int),
                    flen as int,
                    self.replace_text@,
                ),
            decreases i,
        {
            let pos = self.matches[i - 1];
            let n = text.as_str().unicode_len();
            proof {
                assert(ps.take(i as int).last() == pos as int);
                assert(ps.take(i as int).drop_last() =~= ps.take(i as int - 1));
            }
            if pos <= n && flen <= n - pos {
                let end = pos + flen;
                let prefix = text.as_str().substring_char(0, pos);
                let mut out = String::from_str(prefix);
                out.append(self.replace_text.as_str());
                let suffix = text.as_str().substring_char(end, n);
                out.append(suffix);
                *text = out;
            }
            i = i - 1;
        }
        proof {
            assert(ps.take(0) =~= Seq::<int>::empty());
        }
        self.matches = Vec::new();
        self.match_count = 0;
        self.current_match = 0;
        cnt
    }

    /// The (start, end) ranges of every match, for highlighting; the
    /// end saturates rather than overflow.
    pub fn get_highlight_ranges(&self) -> (r: Vec<(usize, usize)>)
        ensures
            self.find_text@.len() == 0 ==> r@.len() == 0,
            self.find_text@.len() > 0 ==> r@.len() == self.matches@.len() && forall|i: int|
                0 <= i < r@.len() ==> r@[i].0 == self.matches@[i] && r@[i].1 as int == (if self.matches@[i]
                    + self.find_text@.len() <= usize::MAX {
                    self.matches@[i] + self.find_text@.len()
                } else {
                    usize::MAX as int
                }),
    {
        let mut out: Vec<(usize, usize)> = Vec::new();
        let flen = self.find_text.as_str().unicode_len();
        if flen == 0 {
            return out;
        }
        let n = self.matches.len();
        let mut i: usize = 0;
        while i < n
            invariant
                i <= n == self.matches@.len(),
                flen == self.find_text@.len(),
                r_ranges_ok(out@, self.matches@, flen as int, i as int),
            decreases n - i,
        {
            let pos = self.matches[i];
            let end: usize = if flen <= usize::MAX - pos {
                pos + flen
            } else {
                usize::MAX
            };
            out.push((pos, end));
            i = i + 1;
        }
        out
    }

    /// The (start, end) range of the current match, if there is one; the
    /// end saturates rather than overflow.
    pub fn get_current_match_range(&self) -> (r: Option<(usize, usize)>)
        ensures
            (self.matches@.len() == 0 || self.current_match >= self.matches@.len()) <==> r is None,
            r matches Some(range) ==> range.0 == self.matches@[self.current_match as int]
                && range.1 as int == (if self.matches@[self.current_match as int]
                + self.find_text@.len() <= usize::MAX {
                self.matches@[self.current_match as int] + self.find_text@.len()
            } else {
                usize::MAX as int
            }),
    {
        if self.matches.len() == 0 || self.current_match >= self.matches.len() {
            return None;
        }
        let pos = self.matches[self.current_match];
        let flen = self.find_text.as_str().unicode_len();
        let end: usize = if flen <= usize::MAX - pos {
            pos + flen
        } else {
            usize::MAX
        };
        Some((pos, end))
    }
}

/// The first `i` highlight ranges are correct.
pub open spec fn r_ranges_ok(out: Seq<(usize, usize)>, ms: Seq<usize>, flen: int, i: int) -> bool {
    out.len() == i && i <= ms.len() && forall|k: int|
        0 <= k < i ==> out[k].0 == ms[k] && out[k].1 as int == (if ms[k] + flen <= usize::MAX {
            ms[k] + flen
        } else {
            usize::MAX as int
        })
}

} // verus!
