use vstd::prelude::*;

verus! {

use vstd::string::{StrSliceExecFns, StringExecFns};
use crate::chars::{chars_of, clone_usizes, dec_str_of, usize_to_string};
use crate::text_search::{lowercase, lower_of, occurrences, find_occurrences};

/// Positions at which the find pattern matches the text: literal
/// positions when the search is case-sensitive, positions in the
/// lowercase folding of the text otherwise; an empty pattern matches
/// nowhere.
pub open spec fn match_positions(find: Seq<char>, text: Seq<char>, cs: bool) -> Seq<int> {
    if find.len() == 0 {
        Seq::empty()
    } else if cs {
        occurrences(text, find)
    } else {
        occurrences(lower_of(text), lower_of(find))
    }
}

/// The text with the `flen` characters at `p` replaced by `rep`.
pub open spec fn splice(t: Seq<char>, p: int, flen: int, rep: Seq<char>) -> Seq<char> {
    t.subrange(0, p) + rep + t.subrange(p + flen, t.len() as int)
}

/// The text after replacing at each stored position, rightmost first; a
/// position whose range does not fit the current text is skipped.
pub open spec fn replace_all_spec(t: Seq<char>, ps: Seq<int>, flen: int, rep: Seq<char>) -> Seq<
    char,
>
    decreases ps.len(),
{
    if ps.len() == 0 {
        t
    } else {
        let p = ps.last();
        let t1 = if 0 <= p && p + flen <= t.len() {
            splice(t, p, flen, rep)
        } else {
            t
        };
        replace_all_spec(t1, ps.drop_last(), flen, rep)
    }
}

/// Whether `replace_next` has a current match whose range fits the text.
pub open spec fn replace_next_ok(fr: FindReplace, t: Seq<char>) -> bool {
    &&& fr.matches@.len() > 0
    &&& fr.current_match < fr.matches@.len()
    &&& fr.matches@[fr.current_match as int] + fr.find_text@.len() <= t.len()
}

/// The text `replace_next` produces: the current match spliced out for
/// the replacement.
pub open spec fn replace_next_text(fr: FindReplace, t: Seq<char>) -> Seq<char> {
    splice(
        t,
        fr.matches@[fr.current_match as int] as int,
        fr.find_text@.len() as int,
        fr.replace_text@,
    )
}

/// The match positions after `replace_next` ran on text `t`.
pub open spec fn replace_next_matches(fr: FindReplace, t: Seq<char>) -> Seq<int> {
    match_positions(fr.find_text@, replace_next_text(fr, t), fr.case_sensitive)
}

/// In-editor find and replace: a find pattern, a replacement, a
/// case-sensitivity toggle, and the match positions of the last search
/// with the index of the current one.
pub struct FindReplace {
    pub open: bool,
    pub find_text: String,
    pub replace_text: String,
    pub case_sensitive: bool,
    pub match_count: usize,
    pub current_match: usize,
    pub matches: Vec<usize>,
}

impl Default for FindReplace {
    /// A closed panel with empty pattern and no matches.
    fn default() -> (r: Self)
        ensures
            r.open == false,
            r.find_text@ == Seq::<char>::empty(),
            r.replace_text@ == Seq::<char>::empty(),
            r.case_sensitive == false,
            r.match_count == 0,
            r.current_match == 0,
            r.matches@ == Seq::<usize>::empty(),
    {
        FindReplace {
            open: false,
            find_text: String::new(),
            replace_text: String::new(),
            case_sensitive: false,
            match_count: 0,
            current_match: 0,
            matches: Vec::new(),
        }
    }
}

impl FindReplace {
    /// Open or close the panel; opening it forgets previous matches.
    pub fn toggle(&mut self)
        ensures
            final(self).open == !old(self).open,
            final(self).find_text == old(self).find_text,
            final(self).replace_text == old(self).replace_text,
            final(self).case_sensitive == old(self).case_sensitive,
            final(self).open ==> final(self).match_count == 0 && final(self).current_match == 0
                && final(self).matches@ == Seq::<usize>::empty(),
            !final(self).open ==> final(self).match_count == old(self).match_count && final(self).current_match == old(self).current_match && final(self).matches == old(self).matches,
    {
        self.open = !self.open;
        if self.open {
            self.match_count = 0;
            self.current_match = 0;
            self.matches = Vec::new();
        }
    }

    /// Close the panel; everything else stays.
    pub fn close(&mut self)
        ensures
            final(self).open == false,
            final(self).find_text == old(self).find_text,
            final(self).replace_text == old(self).replace_text,
            final(self).case_sensitive == old(self).case_sensitive,
            final(self).match_count == old(self).match_count,
            final(self).current_match == old(self).current_match,
            final(self).matches == old(self).matches,
    {
        self.open = false;
    }

    /// Find every match of the pattern in `text` (case-folded unless
    /// case-sensitive), store the positions, and return a copy of them.
    pub fn find_matches(&mut self, text: &str) -> (r: Vec<usize>)
        ensures
            final(self).matches@.map_values(|v: usize| v as int) == match_positions(
                old(self).find_text@,
                text@,
                old(self).case_sensitive,
            ),
            r@ == final(self).matches@,
            final(self).match_count == final(self).matches@.len(),
            final(self).open == old(self).open,
            final(self).find_text == old(self).find_text,
            final(self).replace_text == old(self).replace_text,
            final(self).case_sensitive == old(self).case_sensitive,
            final(self).current_match == old(self).current_match,
    {
        if self.find_text.as_str().unicode_len() == 0 {
            self.matches = Vec::new();
            self.match_count = 0;
            proof {
                assert(Seq::<usize>::empty().map_values(|v: usize| v as int) =~= Seq::<
                    int,
                >::empty());
            }
            return Vec::new();
        }
        let hay: Vec<char> = if self.case_sensitive {
            chars_of(text)
        } else {
            let lowered = lowercase(text);
            chars_of(lowered.as_str())
        };
        let needle: Vec<char> = if self.case_sensitive {
            chars_of(self.find_text.as_str())
        } else {
            let lowered = lowercase(self.find_text.as_str());
            chars_of(lowered.as_str())
        };
        let found = find_occurrences(&hay, &needle);
        let r = clone_usizes(&found);
        self.match_count = found.len();
        self.matches = found;
        r
    }

    /// Step to the next match, wrapping around; with no matches nothing
    /// happens.
    pub fn go_to_next_match(&mut self)
        ensures
            old(self).matches@.len() == 0 ==> *final(self) == *old(self),
            old(self).matches@.len() > 0 ==> final(self).current_match as int == (old(self).current_match + 1) % (old(self).matches@.len() as int),
            final(self).matches == old(self).matches,
            final(self).open == old(self).open,
            final(self).find_text == old(self).find_text,
            final(self).replace_text == old(self).replace_text,
            final(self).case_sensitive == old(self).case_sensitive,
            final(self).match_count == old(self).match_count,
    {
        let len = self.matches.len();
        if len > 0 {
            let c0 = self.current_match % len;
            let next: usize = if c0 + 1 == len {
                0
            } else {
                c0 + 1
            };
            proof {
                assert(next as int == (self.current_match + 1) % (len as int))
                    by (nonlinear_arith)
                    requires
                        len > 0,
                        c0 == self.current_match as int % (len as int),
                        next as int == if c0 + 1 == len {
                            0int
                        } else {
                            c0 + 1
                        },
                ;
            }
            self.current_match = next;
        }
    }

    /// Step to the previous match, wrapping around; with no matches
    /// nothing happens.
    pub fn go_to_prev_match(&mut self)
        ensures
            old(self).matches@.len() == 0 ==> *final(self) == *old(self),
            old(self).matches@.len() > 0 ==> final(self).current_match as int == (if old(self).current_match == 0 {
                old(self).matches@.len() - 1
            } else {
                old(self).current_match - 1
            }),
            final(self).matches == old(self).matches,
            final(self).open == old(self).open,
            final(self).find_text == old(self).find_text,
            final(self).replace_text == old(self).replace_text,
            final(self).case_sensitive == old(self).case_sensitive,
            final(self).match_count == old(self).match_count,
    {
        let len = self.matches.len();
        if len > 0 {
            if self.current_match == 0 {
                self.current_match = len - 1;
            } else {
                self.current_match = self.current_match - 1;
            }
        }
    }

    /// Replace the current match with the replacement text, then search
    /// the new text again and clamp the current index.  Nothing happens
    /// (and `false` comes back) when there is no current match or its
    /// range does not fit the text.
    pub fn replace_next(&mut self, text: &mut String) -> (r: bool)
        ensures
            r == replace_next_ok(*old(self), old(text)@),
            !replace_next_ok(*old(self), old(text)@) ==> *final(self) == *old(self) && final(text)@
                == old(text)@,
            replace_next_ok(*old(self), old(text)@) ==> final(text)@ == replace_next_text(
                *old(self),
                old(text)@,
            ),
            replace_next_ok(*old(self), old(text)@) ==> final(self).matches@.map_values(
                |v: usize| v as int,
            ) == replace_next_matches(*old(self), old(text)@),
            replace_next_ok(*old(self), old(text)@) ==> final(self).match_count == final(self).matches@.len(),
            replace_next_ok(*old(self), old(text)@) ==> final(self).current_match as int == (if old(self).current_match >= replace_next_matches(*old(self), old(text)@).len()
                && replace_next_matches(*old(self), old(text)@).len() > 0 {
                replace_next_matches(*old(self), old(text)@).len() - 1
            } else {
                old(self).current_match as int
            }),
            final(self).open == old(self).open,
            final(self).find_text == old(self).find_text,
            final(self).replace_text == old(self).replace_text,
            final(self).case_sensitive == old(self).case_sensitive,
    {
        let n = text.as_str().unicode_len();
        if self.matches.len() == 0 || self.current_match >= self.matches.len() {
            return false;
        }
        let pos = self.matches[self.current_match];
        let flen = self.find_text.as_str().unicode_len();
        if pos > n || flen > n - pos {
            return false;
        }
        let end = pos + flen;
        let prefix = text.as_str().substring_char(0, pos);
        let mut out = String::from_str(prefix);
        out.append(self.replace_text.as_str());
        let suffix = text.as_str().substring_char(end, n);
        out.append(suffix);
        *text = out;
        let _ = self.find_matches(text.as_str());
        if self.current_match >= self.matches.len() && self.matches.len() > 0 {
            self.current_match = self.matches.len() - 1;
        }
        true
    }

    /// Replace every stored match, rightmost first, clear the match
    /// state, and return how many positions were processed; an empty
    /// pattern does nothing.
    pub fn replace_all(&mut self, text: &mut String) -> (r: usize)
        ensures
            old(self).find_text@.len() == 0 ==> r == 0 && *final(self) == *old(self) && final(text)@
                == old(text)@,
            old(self).find_text@.len() > 0 ==> r == old(self).matches@.len() && final(text)@
                == replace_all_spec(
                old(text)@,
                old(self).matches@.map_values(|v: usize| v as int),
                old(self).find_text@.len() as int,
                old(self).replace_text@,
            ) && final(self).matches@ == Seq::<usize>::empty() && final(self).match_count == 0
                && final(self).current_match == 0 && final(self).open == old(self).open && final(self).find_text == old(self).find_text && final(self).replace_text == old(self).replace_text && final(self).case_sensitive == old(self).case_sensitive,
    {
        if self.find_text.as_str().unicode_len() == 0 {
            return 0;
        }
        let cnt = self.matches.len();
        let flen = self.find_text.as_str().unicode_len();
        let ghost t0 = text@;
        let ghost ps = self.matches@.map_values(|v: usize| v as int);
        let mut i = cnt;
        proof {
            assert(ps.take(cnt as int) =~= ps);
        }
        while i > 0
            invariant
                i <= cnt == self.matches@.len(),
                ps == self.matches@.map_values(|v: usize| v as int),
                flen == self.find_text@.len(),
                self == old(self),
                replace_all_spec(t0, ps, flen as int, self.replace_text@) == replace_all_spec(
                    text@,
                    ps.take(i as int),
                    flen as int,
                    self.replace_text@,
                ),
            decreases i,
        {
            let pos = self.matches[i - 1];
            let n = text.as_str().unicode_len();
            proof {
                assert(ps.take(i as int).last() == pos as int);
                assert(ps.take(i as int).drop_last() =~= ps.take(i as int - 1));
            }
            if pos <= n && flen <= n - pos {
                let end = pos + flen;
                let prefix = text.as_str().substring_char(0, pos);
                let mut out = String::from_str(prefix);
                out.append(self.replace_text.as_str());
                let suffix = text.as_str().substring_char(end, n);
                out.append(suffix);
                *text = out;
            }
            i = i - 1;
        }
        proof {
            assert(ps.take(0) =~= Seq::<int>::empty());
        }
        self.matches = Vec::new();
        self.match_count = 0;
        self.current_match = 0;
        cnt
    }

    /// The match counter the panel shows: nothing for an empty pattern,
    /// the 1-based current match over the match count otherwise, or a
    /// note that nothing matched.
    pub fn match_status(&self) -> (r: String)
        requires
            self.current_match < usize::MAX,
        ensures
            self.find_text@.len() == 0 ==> r@ == Seq::<char>::empty(),
            self.find_text@.len() > 0 && self.match_count > 0 ==> r@ == dec_str_of(
                self.current_match + 1,
            ) + " of "@ + dec_str_of(self.match_count as int),
            self.find_text@.len() > 0 && self.match_count == 0 ==> r@ == "No matches"@,
    {
        if self.find_text.as_str().unicode_len() == 0 {
            String::new()
        } else if self.match_count > 0 {
            let a = usize_to_string(self.current_match + 1);
            let b = a.concat(" of ");
            b.concat(usize_to_string(self.match_count).as_str())
        } else {
            String::from_str("No matches")
        }
    }
}

} // verus!
