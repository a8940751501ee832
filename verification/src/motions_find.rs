use vstd::prelude::*;

verus! {

use crate::chars::chars_of;
use crate::vim_mode::{CharSearchDirection, CharSearchType, VimState};

// ------------------------------------------------------------------
// Single-character search (`f`, `F`, `t`, `T`, repeated by `;`/`,`).
// ------------------------------------------------------------------

/// Position of the `n`-th occurrence of `t` at or after `from`, scanning
/// forward, if there are that many.
pub open spec fn find_fwd(s: Seq<char>, from: int, t: char, n: int) -> Option<int>
    decreases s.len() - from,
{
    if n <= 0 || from < 0 || from >= s.len() {
        None
    } else if s[from] == t {
        if n == 1 {
            Some(from)
        } else {
            find_fwd(s, from + 1, t, n - 1)
        }
    } else {
        find_fwd(s, from + 1, t, n)
    }
}

/// Position of the `n`-th occurrence of `t` at or before `from`, scanning
/// backward, if there are that many.
pub open spec fn find_back(s: Seq<char>, from: int, t: char, n: int) -> Option<int>
    decreases from,
{
    if n <= 0 || from < 0 || from >= s.len() {
        None
    } else if s[from] == t && n == 1 {
        Some(from)
    } else if from == 0 {
        None
    } else if s[from] == t {
        find_back(s, from - 1, t, n - 1)
    } else {
        find_back(s, from - 1, t, n)
    }
}

/// Outcome of one character search from cursor `p`: the new cursor
/// offset and whether the search succeeded.  The scan starts on the
/// position adjacent to the cursor; `To` lands on the match, `Before`
/// lands one short of it in the direction of travel (and leaves the
/// cursor alone when there is no room); a failed search moves nothing.
pub open spec fn find_char_spec(
    s: Seq<char>,
    p: int,
    target: char,
    dir: CharSearchDirection,
    kind: CharSearchType,
    count: int,
) -> (int, bool) {
    match dir {
        CharSearchDirection::Forward => match find_fwd(s, p + 1, target, count) {
            Some(j) => (
                if kind == CharSearchType::To {
                    j
                } else {
                    j - 1
                },
                true,
            ),
            None => (p, false),
        },
        CharSearchDirection::Backward => {
            if p == 0 {
                (p, false)
            } else {
                match find_back(s, p - 1, target, count) {
                    Some(j) => (
                        if kind == CharSearchType::To {
                            j
                        } else if j + 1 < s.len() {
                            j + 1
                        } else {
                            p
                        },
                        true,
                    ),
                    None => (p, false),
                }
            }
        },
    }
}

impl VimState {
    /// Search for the `count`-th occurrence of `target` from the cursor,
    /// move per `search_type`, and on success remember the search for
    /// `;`/`,`; a failed search changes neither cursor nor memory.
    pub fn find_char(
        &mut self,
        text: &str,
        cursor_pos: &mut usize,
        target: char,
        direction: CharSearchDirection,
        search_type: CharSearchType,
        count: usize,
    )
        requires
            *old(cursor_pos) <= text@.len(),
        ensures
            ({
                let r = find_char_spec(
                    text@,
                    *old(cursor_pos) as int,
                    target,
                    direction,
                    search_type,
                    count as int,
                );
                *final(cursor_pos) as int == r.0 && final(self).last_char_search == (if r.1 {
                    Some((target, direction, search_type))
                } else {
                    old(self).last_char_search
                })
            }),
            *final(cursor_pos) <= text@.len(),
            final(self).mode == old(self).mode,
            final(self).count_buffer == old(self).count_buffer,
            final(self).pending == old(self).pending,
    {
        let chars = chars_of(text);
        let ghost s = chars@;
        let n = chars.len();
        let p = *cursor_pos;
        match direction {
            CharSearchDirection::Forward => {
                if p >= n || count == 0 {
                    return ;
                }
                let mut j = p + 1;
                let mut rem = count;
                while j < n
                    invariant
                        p + 1 <= j <= n == s.len(),
                        s == chars@,
                        s == text@,
                        direction == CharSearchDirection::Forward,
                        count >= 1,
                        p == *old(cursor_pos),
                        *cursor_pos == p,
                        self.mode == old(self).mode,
                        self.count_buffer == old(self).count_buffer,
                        self.pending == old(self).pending,
                        self.last_char_search == old(self).last_char_search,
                        1 <= rem <= count,
                        find_fwd(s, p + 1, target, count as int) == find_fwd(
                            s,
                            j as int,
                            target,
                            rem as int,
                        ),
                    decreases n - j,
                {
                    if chars[j] == target {
                        if rem == 1 {
                            proof {
                                assert(find_fwd(s, j as int, target, 1int) == Some(j as int));
                            }
                            match search_type {
                                CharSearchType::To => {
                                    *cursor_pos = j;
                                },
                                CharSearchType::Before => {
                                    *cursor_pos = j - 1;
                                },
                            }
                            self.last_char_search = Some((target, direction, search_type));
                            return ;
                        }
                        rem = rem - 1;
                    }
                    j = j + 1;
                }
            },
            CharSearchDirection::Backward => {
                if p == 0 || count == 0 {
                    return ;
                }
                let mut j = p;
                let mut rem = count;
                while j > 0
                    invariant
                        0 <= j <= p <= n == s.len(),
                        s == chars@,
                        s == text@,
                        direction == CharSearchDirection::Backward,
                        count >= 1,
                        p == *old(cursor_pos),
                        *cursor_pos == p,
                        self.mode == old(self).mode,
                        self.count_buffer == old(self).count_buffer,
                        self.pending == old(self).pending,
                        self.last_char_search == old(self).last_char_search,
                        p >= 1,
                        1 <= rem <= count,
                        j > 0 ==> find_back(s, p - 1, target, count as int) == find_back(
                            s,
                            j - 1,
                            target,
                            rem as int,
                        ),
                        j == 0 ==> find_back(s, p - 1, target, count as int) is None,
                    decreases j,
                {
                    let idx = j - 1;
                    if chars[idx] == target {
                        if rem == 1 {
                            proof {
                                assert(find_back(s, idx as int, target, 1int) == Some(idx as int));
                            }
                            match search_type {
                                CharSearchType::To => {
                                    *cursor_pos = idx;
                                },
                                CharSearchType::Before => {
                                    if idx + 1 < n {
                                        *cursor_pos = idx + 1;
                                    }
                                },
                            }
                            self.last_char_search = Some((target, direction, search_type));
                            return ;
                        }
                        rem = rem - 1;
                    }
                    j = j - 1;
                }
            },
        }
    }
}

} // verus!
