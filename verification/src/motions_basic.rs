use vstd::prelude::*;

verus! {

use vstd::string::StrSliceExecFns;
use crate::chars::chars_of;
use crate::classify::{is_space, is_space_char};
use crate::lines::{
    col_of,
    line_count,
    line_end_from,
    line_of,
    line_start_of,
    nth_line_start,
    offset_to_line_col,
    offset_to_line_col_spec,
    line_col_to_offset,
    line_col_to_offset_spec,
    scan_line_col,
    line_starts,
    lemma_line_structure,
    lemma_line_end_nth,
    lemma_nth_line_start_bounds,
    lemma_line_end_from_bounds,
};
use crate::vim_mode::VimState;

// ------------------------------------------------------------------
// Horizontal motions.
// ------------------------------------------------------------------

/// One step left, clamped at the start of the buffer.
pub open spec fn left_step(p: int) -> int {
    if p > 0 {
        p - 1
    } else {
        0
    }
}

/// `n` single steps left.
pub open spec fn left_n(p: int, n: int) -> int
    decreases n,
{
    if n <= 0 {
        p
    } else {
        left_step(left_n(p, n - 1))
    }
}

/// One step right, clamped at the end-of-buffer sentinel position.
pub open spec fn right_step(len: int, p: int) -> int {
    if p < len {
        p + 1
    } else {
        p
    }
}

/// `n` single steps right.
pub open spec fn right_n(len: int, p: int, n: int) -> int
    decreases n,
{
    if n <= 0 {
        p
    } else {
        right_step(len, right_n(len, p, n - 1))
    }
}

proof fn lemma_left_n_closed(p: int, n: int)
    requires
        p >= 0,
        n >= 0,
    ensures
        left_n(p, n) == if p >= n {
            p - n
        } else {
            0
        },
    decreases n,
{
    if n > 0 {
        lemma_left_n_closed(p, n - 1);
    }
}

proof fn lemma_right_n_closed(len: int, p: int, n: int)
    requires
        0 <= p <= len,
        n >= 0,
    ensures
        right_n(len, p, n) == if p + n <= len {
            p + n
        } else {
            len
        },
    decreases n,
{
    if n > 0 {
        lemma_right_n_closed(len, p, n - 1);
    }
}

// ------------------------------------------------------------------
// Vertical motions.
// ------------------------------------------------------------------

/// Where a downward move of `n` lines lands: the line index moves down
/// `n`, clamped to the last line, and the *source* column is re-applied,
/// clamped to the target line's length.
pub open spec fn down_spec(s: Seq<char>, p: int, n: int) -> int {
    let l = line_of(s, p) as int;
    let c = col_of(s, p);
    let tl = if l + n < line_count(s) {
        l + n
    } else {
        line_count(s) as int - 1
    };
    line_col_to_offset_spec(s, tl, c)
}

/// Where an upward move of `n` lines lands.
pub open spec fn up_spec(s: Seq<char>, p: int, n: int) -> int {
    let l = line_of(s, p) as int;
    let c = col_of(s, p);
    let tl = if n < l {
        l - n
    } else {
        0
    };
    line_col_to_offset_spec(s, tl, c)
}

impl VimState {
    /// The (line, column) address of `pos` in `text`.
    pub fn get_line_and_column(&self, text: &str, pos: usize) -> (r: (usize, usize))
        ensures
            (r.0 as int, r.1 as int) == offset_to_line_col_spec(text@, pos as int),
    {
        offset_to_line_col(text, pos)
    }

    /// The offset of the (line, col) address in `text`, the column clamped
    /// to the line's length.
    pub fn get_position_from_line_col(&self, text: &str, line: usize, col: usize) -> (r: usize)
        ensures
            r as int == line_col_to_offset_spec(text@, line as int, col as int),
            r <= text@.len(),
    {
        line_col_to_offset(text, line, col)
    }

    /// `h`: `count` characters left, clamped at offset 0.
    pub fn move_left(&self, text: &str, cursor_pos: &mut usize, count: usize)
        ensures
            *final(cursor_pos) as int == left_n(*old(cursor_pos) as int, count as int),
            *final(cursor_pos) as int == if *old(cursor_pos) >= count {
                *old(cursor_pos) - count
            } else {
                0
            },
            *final(cursor_pos) <= *old(cursor_pos),
    {
        proof {
            lemma_left_n_closed(*old(cursor_pos) as int, count as int);
        }
        if *cursor_pos >= count {
            *cursor_pos = *cursor_pos - count;
        } else {
            *cursor_pos = 0;
        }
    }

    /// `l`: `count` characters right, clamped at the end-of-buffer
    /// sentinel position (one past the last character).
    pub fn move_right(&self, text: &str, cursor_pos: &mut usize, count: usize)
        requires
            *old(cursor_pos) <= text@.len(),
        ensures
            *final(cursor_pos) as int == right_n(
                text@.len() as int,
                *old(cursor_pos) as int,
                count as int,
            ),
            *final(cursor_pos) as int == if *old(cursor_pos) + count <= text@.len() {
                *old(cursor_pos) + count
            } else {
                text@.len() as int
            },
            *final(cursor_pos) <= text@.len(),
    {
        proof {
            lemma_right_n_closed(text@.len() as int, *old(cursor_pos) as int, count as int);
        }
        let n = text.unicode_len();
        if count <= n - *cursor_pos {
            *cursor_pos = *cursor_pos + count;
        } else {
            *cursor_pos = n;
        }
    }

    /// `j`: `count` lines down in one jump, re-applying the source column.
    pub fn move_down(&self, text: &str, cursor_pos: &mut usize, count: usize)
        requires
            *old(cursor_pos) <= text@.len(),
        ensures
            *final(cursor_pos) as int == down_spec(text@, *old(cursor_pos) as int, count as int),
            *final(cursor_pos) <= text@.len(),
    {
        let chars = chars_of(text);
        let ghost s = chars@;
        let p = *cursor_pos;
        proof {
            lemma_line_structure(s, p as int);
        }
        let (line, start) = scan_line_col(&chars, p);
        let col = p - start;
        let starts = line_starts(&chars);
        let last = starts.len() - 1;
        let tl: usize = if count >= last - line {
            last
        } else {
            line + count
        };
        *cursor_pos = self.offset_of_line_col(&chars, &starts, tl, col);
    }

    /// `k`: `count` lines up in one jump, re-applying the source column.
    pub fn move_up(&self, text: &str, cursor_pos: &mut usize, count: usize)
        requires
            *old(cursor_pos) <= text@.len(),
        ensures
            *final(cursor_pos) as int == up_spec(text@, *old(cursor_pos) as int, count as int),
            *final(cursor_pos) <= text@.len(),
    {
        let chars = chars_of(text);
        let ghost s = chars@;
        let p = *cursor_pos;
        proof {
            lemma_line_structure(s, p as int);
        }
        let (line, start) = scan_line_col(&chars, p);
        let col = p - start;
        let starts = line_starts(&chars);
        let tl: usize = if count < line {
            line - count
        } else {
            0
        };
        *cursor_pos = self.offset_of_line_col(&chars, &starts, tl, col);
    }

    /// Shared tail of the vertical moves: the offset of (line, col) with
    /// the column clamped, read off the precomputed line starts.
    fn offset_of_line_col(&self, chars: &Vec<char>, starts: &Vec<usize>, line: usize, col: usize)
        -> (r: usize)
        requires
            starts@.len() == line_count(chars@),
            forall|k: int| 0 <= k < starts@.len() ==> starts@[k] == nth_line_start(chars@, k),
            line < starts@.len(),
        ensures
            r as int == line_col_to_offset_spec(chars@, line as int, col as int),
            r <= chars@.len(),
    {
        let ghost s = chars@;
        let n = chars.len();
        let len_s = starts.len();
        let st = starts[line];
        proof {
            lemma_line_end_nth(s, line as int);
            lemma_nth_line_start_bounds(s, line as int);
            lemma_nth_line_start_bounds(s, line as int + 1);
            lemma_line_end_from_bounds(s, nth_line_start(s, line as int));
        }
        let e: usize = if line + 1 < len_s {
            starts[line + 1] - 1
        } else {
            n
        };
        let ll = e - st;
        if col <= ll {
            st + col
        } else {
            st + ll
        }
    }

    /// `0`: the start of the current line.
    pub fn move_line_start(&self, text: &str, cursor_pos: &mut usize)
        requires
            *old(cursor_pos) <= text@.len(),
        ensures
            *final(cursor_pos) as int == line_start_of(text@, *old(cursor_pos) as int),
            *final(cursor_pos) <= *old(cursor_pos),
    {
        let chars = chars_of(text);
        proof {
            lemma_line_structure(chars@, *old(cursor_pos) as int);
        }
        let (_, start) = scan_line_col(&chars, *cursor_pos);
        *cursor_pos = start;
    }

    /// `$`: the last character of the current line, or the line start
    /// when the line is empty.
    pub fn move_line_end(&self, text: &str, cursor_pos: &mut usize)
        requires
            *old(cursor_pos) <= text@.len(),
        ensures
            *final(cursor_pos) as int == line_end_pos_spec(text@, *old(cursor_pos) as int),
            *final(cursor_pos) <= text@.len(),
    {
        let chars = chars_of(text);
        let ghost s = chars@;
        let n = chars.len();
        let p = *cursor_pos;
        proof {
            lemma_line_structure(s, p as int);
        }
        let (_, start) = scan_line_col(&chars, p);
        let mut j = start;
        while j < n && chars[j] != '\n'
            invariant
                start <= j <= n == s.len(),
                s == chars@,
                line_end_from(s, start as int) == line_end_from(s, j as int),
            decreases n - j,
        {
            j = j + 1;
        }
        if j > start {
            *cursor_pos = j - 1;
        } else {
            *cursor_pos = start;
        }
    }

    /// `^`: the first non-whitespace character of the current line, or
    /// the line start when the line is blank.
    pub fn move_first_non_blank(&self, text: &str, cursor_pos: &mut usize)
        requires
            *old(cursor_pos) <= text@.len(),
        ensures
            *final(cursor_pos) as int == first_non_blank_spec(text@, *old(cursor_pos) as int),
            *final(cursor_pos) <= text@.len(),
    {
        let chars = chars_of(text);
        let ghost s = chars@;
        let n = chars.len();
        let p = *cursor_pos;
        proof {
            lemma_line_structure(s, p as int);
        }
        let (_, start) = scan_line_col(&chars, p);
        let mut j = start;
        while j < n && chars[j] != '\n'
            invariant
                start <= j <= n == s.len(),
                s == chars@,
                s == text@,
                p == *old(cursor_pos),
                p <= s.len(),
                start as int == line_start_of(s, p as int),
                first_nonblank_in(s, start as int) == first_nonblank_in(s, j as int),
            decreases n - j,
        {
            if !is_space(chars[j]) {
                proof {
                    assert(first_nonblank_in(s, j as int) == Some(j as int));
                }
                *cursor_pos = j;
                return ;
            }
            proof {
                assert(first_nonblank_in(s, j as int) == first_nonblank_in(s, j + 1));
            }
            j = j + 1;
        }
        *cursor_pos = start;
    }

    /// `G` and `nG`: column 0 of the requested 1-based line, clamped to
    /// the last line; the sentinel `usize::MAX` requests the last line.
    pub fn move_to_line(&self, text: &str, cursor_pos: &mut usize, line: usize)
        ensures
            *final(cursor_pos) as int == to_line_spec(text@, line as int),
            *final(cursor_pos) <= text@.len(),
    {
        let chars = chars_of(text);
        let ghost s = chars@;
        let starts = line_starts(&chars);
        let last = starts.len() - 1;
        let tl: usize = if line == usize::MAX {
            last
        } else {
            let lz: usize = if line == 0 {
                0
            } else {
                line - 1
            };
            if lz > last {
                last
            } else {
                lz
            }
        };
        proof {
            lemma_nth_line_start_bounds(s, tl as int);
        }
        *cursor_pos = starts[tl];
    }
}

/// Where `$` lands: one before the end of the current line, or the line
/// start for an empty line.
pub open spec fn line_end_pos_spec(s: Seq<char>, p: int) -> int {
    let st = line_start_of(s, p);
    let e = line_end_from(s, st);
    if e > st {
        e - 1
    } else {
        st
    }
}

/// First non-whitespace position on the line from `j` on, stopping at
/// the line's end.
pub open spec fn first_nonblank_in(s: Seq<char>, j: int) -> Option<int>
    decreases s.len() - j,
{
    if j < 0 || j >= s.len() || s[j] == '\n' {
        None
    } else if !is_space_char(s[j]) {
        Some(j)
    } else {
        first_nonblank_in(s, j + 1)
    }
}

/// Where `^` lands: the first non-blank character of the current line,
/// or the line start when the line is blank.
pub open spec fn first_non_blank_spec(s: Seq<char>, p: int) -> int {
    let st = line_start_of(s, p);
    match first_nonblank_in(s, st) {
        Some(q) => q,
        None => st,
    }
}

/// Where `G`/`nG` lands: column 0 of the requested 1-based line, clamped
/// to the last line; `usize::MAX` stands for the last line.
pub open spec fn to_line_spec(s: Seq<char>, line: int) -> int {
    let last = line_count(s) as int - 1;
    let tl = if line == usize::MAX as int {
        last
    } else if line <= 0 {
        0
    } else if line - 1 > last {
        last
    } else {
        line - 1
    };
    nth_line_start(s, tl)
}

} // verus!
