use vstd::prelude::*;

verus! {

use crate::chars::chars_of;
use crate::classify::{is_space, is_space_char};
use crate::lines::{
    line_count,
    line_end_from,
    line_of,
    nth_line_start,
    scan_line_col,
    line_starts,
    lemma_line_structure,
    lemma_line_end_nth,
    lemma_nth_line_start_bounds,
    lemma_line_end_from_bounds,
};
use crate::vim_mode::VimState;

// ------------------------------------------------------------------
// Paragraph motions (`{` and `}`), over whole lines.  A line is blank
// when it holds nothing but whitespace.
// ------------------------------------------------------------------

/// Line `i` holds only whitespace (an empty line is blank).
pub open spec fn line_blank(s: Seq<char>, i: int) -> bool {
    forall|j: int|
        nth_line_start(s, i) <= j < line_end_from(s, nth_line_start(s, i)) ==> is_space_char(s[j])
}

/// First line at or after `i` that is not blank, or the line count.
pub open spec fn next_nonblank(s: Seq<char>, i: int) -> int
    decreases line_count(s) - i,
{
    if i < 0 || i >= line_count(s) {
        line_count(s) as int
    } else if !line_blank(s, i) {
        i
    } else {
        next_nonblank(s, i + 1)
    }
}

/// First line at or after `i` that is blank, or the line count.
pub open spec fn next_blank(s: Seq<char>, i: int) -> int
    decreases line_count(s) - i,
{
    if i < 0 || i >= line_count(s) {
        line_count(s) as int
    } else if line_blank(s, i) {
        i
    } else {
        next_blank(s, i + 1)
    }
}

/// Scan upward from line `i` while lines are blank, stopping on the
/// first non-blank line or at line 0.
pub open spec fn prev_nonblank(s: Seq<char>, i: int) -> int
    decreases i,
{
    if i <= 0 {
        0
    } else if line_blank(s, i) {
        prev_nonblank(s, i - 1)
    } else {
        i
    }
}

/// Scan upward from line `i` while lines are not blank, stopping on the
/// first blank line or at line 0.
pub open spec fn prev_blank(s: Seq<char>, i: int) -> int
    decreases i,
{
    if i <= 0 {
        0
    } else if !line_blank(s, i) {
        prev_blank(s, i - 1)
    } else {
        i
    }
}

/// One `}` step: skip any blank lines under the cursor, then the
/// non-blank run, landing at column 0 of the first blank line that
/// follows the paragraph, or at the end of the buffer when none does.
pub open spec fn para_forward_once_spec(s: Seq<char>, p: int) -> int {
    let l0 = line_of(s, p) as int;
    let l1 = next_nonblank(s, l0);
    let l2 = next_blank(s, l1);
    if l2 < line_count(s) {
        nth_line_start(s, l2)
    } else {
        s.len() as int
    }
}

/// `n` `}` steps.
pub open spec fn para_forward_n(s: Seq<char>, p: int, n: int) -> int
    decreases n,
{
    if n <= 0 {
        p
    } else {
        para_forward_once_spec(s, para_forward_n(s, p, n - 1))
    }
}

/// One `{` step: from the line above the cursor, retreat past blank
/// lines, then past the non-blank run, landing at column 0 of the first
/// line of that paragraph, or at offset 0.
pub open spec fn para_backward_once_spec(s: Seq<char>, p: int) -> int {
    let l0 = line_of(s, p) as int;
    if l0 == 0 {
        0
    } else {
        let l1 = prev_nonblank(s, l0 - 1);
        let l2 = prev_blank(s, l1);
        let l3 = if line_blank(s, l2) && l2 + 1 < line_count(s) {
            l2 + 1
        } else {
            l2
        };
        nth_line_start(s, l3)
    }
}

/// `n` `{` steps.
pub open spec fn para_backward_n(s: Seq<char>, p: int, n: int) -> int
    decreases n,
{
    if n <= 0 {
        p
    } else {
        para_backward_once_spec(s, para_backward_n(s, p, n - 1))
    }
}

/// Whether line `i` is blank, read off the precomputed line starts.
fn line_blank_exec(chars: &Vec<char>, starts: &Vec<usize>, i: usize) -> (r: bool)
    requires
        starts@.len() == line_count(chars@),
        forall|k: int| 0 <= k < starts@.len() ==> starts@[k] == nth_line_start(chars@, k),
        i < starts@.len(),
    ensures
        r == line_blank(chars@, i as int),
{
    let ghost s = chars@;
    let n = chars.len();
    let len_s = starts.len();
    let st = starts[i];
    proof {
        lemma_line_end_nth(s, i as int);
        lemma_nth_line_start_bounds(s, i as int);
        lemma_line_end_from_bounds(s, nth_line_start(s, i as int));
    }
    let e: usize = if i + 1 < len_s {
        starts[i + 1] - 1
    } else {
        n
    };
    let mut j = st;
    while j < e
        invariant
            st <= j <= e <= n == s.len(),
            s == chars@,
            st == nth_line_start(s, i as int),
            e == line_end_from(s, st as int),
            forall|k: int| st <= k < j ==> is_space_char(s[k]),
        decreases e - j,
    {
        if !is_space(chars[j]) {
            return false;
        }
        j = j + 1;
    }
    true
}

impl VimState {
    /// One `}` step.
    pub fn move_paragraph_forward_once(&self, text: &str, cursor_pos: &mut usize)
        requires
            *old(cursor_pos) <= text@.len(),
        ensures
            *final(cursor_pos) as int == para_forward_once_spec(text@, *old(cursor_pos) as int),
            *final(cursor_pos) <= text@.len(),
    {
        let chars = chars_of(text);
        let ghost s = chars@;
        let n = chars.len();
        let p = *cursor_pos;
        proof {
            lemma_line_structure(s, p as int);
        }
        let (l0, _) = scan_line_col(&chars, p);
        let starts = line_starts(&chars);
        let cnt = starts.len();
        let mut l = l0;
        while l < cnt && line_blank_exec(&chars, &starts, l)
            invariant
                l0 <= l <= cnt,
                s == chars@,
                cnt == line_count(s),
                starts@.len() == line_count(s),
                forall|k: int| 0 <= k < starts@.len() ==> starts@[k] == nth_line_start(s, k),
                next_nonblank(s, l0 as int) == next_nonblank(s, l as int),
            decreases cnt - l,
        {
            l = l + 1;
        }
        let ghost l1 = l as int;
        while l < cnt && !line_blank_exec(&chars, &starts, l)
            invariant
                l1 <= l <= cnt,
                s == chars@,
                cnt == line_count(s),
                starts@.len() == line_count(s),
                forall|k: int| 0 <= k < starts@.len() ==> starts@[k] == nth_line_start(s, k),
                next_blank(s, l1) == next_blank(s, l as int),
            decreases cnt - l,
        {
            l = l + 1;
        }
        if l < cnt {
            proof {
                lemma_nth_line_start_bounds(s, l as int);
            }
            *cursor_pos = starts[l];
        } else {
            *cursor_pos = n;
        }
    }

    /// `}`: `count` paragraph-forward steps.
    pub fn move_paragraph_forward(&self, text: &str, cursor_pos: &mut usize, count: usize)
        requires
            *old(cursor_pos) <= text@.len(),
        ensures
            *final(cursor_pos) as int == para_forward_n(
                text@,
                *old(cursor_pos) as int,
                count as int,
            ),
            *final(cursor_pos) <= text@.len(),
    {
        let ghost p0 = *cursor_pos as int;
        let mut i: usize = 0;
        while i < count
            invariant
                i <= count,
                *cursor_pos as int == para_forward_n(text@, p0, i as int),
                *cursor_pos <= text@.len(),
            decreases count - i,
        {
            self.move_paragraph_forward_once(text, cursor_pos);
            i = i + 1;
        }
    }

    /// One `{` step.
    pub fn move_paragraph_backward_once(&self, text: &str, cursor_pos: &mut usize)
        requires
            *old(cursor_pos) <= text@.len(),
        ensures
            *final(cursor_pos) as int == para_backward_once_spec(text@, *old(cursor_pos) as int),
            *final(cursor_pos) <= text@.len(),
    {
        let chars = chars_of(text);
        let ghost s = chars@;
        let p = *cursor_pos;
        proof {
            lemma_line_structure(s, p as int);
        }
        let (l0, _) = scan_line_col(&chars, p);
        if l0 == 0 {
            *cursor_pos = 0;
            return ;
        }
        let starts = line_starts(&chars);
        let cnt = starts.len();
        let mut l = l0 - 1;
        while l > 0 && line_blank_exec(&chars, &starts, l)
            invariant
                0 <= l <= l0 - 1 < cnt,
                s == chars@,
                cnt == line_count(s),
                starts@.len() == line_count(s),
                forall|k: int| 0 <= k < starts@.len() ==> starts@[k] == nth_line_start(s, k),
                prev_nonblank(s, l0 as int - 1) == prev_nonblank(s, l as int),
            decreases l,
        {
            l = l - 1;
        }
        let ghost l1 = l as int;
        while l > 0 && !line_blank_exec(&chars, &starts, l)
            invariant
                0 <= l <= l1 < cnt,
                s == chars@,
                cnt == line_count(s),
                starts@.len() == line_count(s),
                forall|k: int| 0 <= k < starts@.len() ==> starts@[k] == nth_line_start(s, k),
                prev_blank(s, l1) == prev_blank(s, l as int),
            decreases l,
        {
            l = l - 1;
        }
        if line_blank_exec(&chars, &starts, l) && l + 1 < cnt {
            l = l + 1;
        }
        proof {
            lemma_nth_line_start_bounds(s, l as int);
        }
        *cursor_pos = starts[l];
    }

    /// `{`: `count` paragraph-backward steps.
    pub fn move_paragraph_backward(&self, text: &str, cursor_pos: &mut usize, count: usize)
        requires
            *old(cursor_pos) <= text@.len(),
        ensures
            *final(cursor_pos) as int == para_backward_n(
                text@,
                *old(cursor_pos) as int,
                count as int,
            ),
            *final(cursor_pos) <= text@.len(),
    {
        let ghost p0 = *cursor_pos as int;
        let mut i: usize = 0;
        while i < count
            invariant
                i <= count,
                *cursor_pos as int == para_backward_n(text@, p0, i as int),
                *cursor_pos <= text@.len(),
            decreases count - i,
        {
            self.move_paragraph_backward_once(text, cursor_pos);
            i = i + 1;
        }
    }
}

} // verus!
