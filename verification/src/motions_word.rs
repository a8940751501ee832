use vstd::prelude::*;

verus! {

use crate::chars::chars_of;
use crate::classify::{class, class_of, is_space, is_space_char, RunKind};
use crate::vim_mode::VimState;

// ------------------------------------------------------------------
// Runs of characters of one kind.
// ------------------------------------------------------------------

/// First position at or after `p` whose character is not of kind `k`
/// (or the end of the text): the end of the run of kind `k` at `p`.
pub open spec fn run_end(s: Seq<char>, p: int, k: RunKind, big: bool) -> int
    decreases s.len() - p,
{
    if p < 0 || p >= s.len() {
        p
    } else if class_of(s[p], big) != k {
        p
    } else {
        run_end(s, p + 1, k, big)
    }
}

/// Last position at or before `p` that still belongs to the run of kind
/// `k` covering `p`: the start of that run.
pub open spec fn run_start(s: Seq<char>, p: int, k: RunKind, big: bool) -> int
    decreases p,
{
    if p <= 0 {
        0
    } else if class_of(s[p - 1], big) == k {
        run_start(s, p - 1, k, big)
    } else {
        p
    }
}

/// Skip whitespace leftwards from `p`, stopping on the first
/// non-whitespace character or at 0.
pub open spec fn skip_space_back(s: Seq<char>, p: int) -> int
    decreases p,
{
    if p <= 0 {
        0
    } else if is_space_char(s[p]) {
        skip_space_back(s, p - 1)
    } else {
        p
    }
}

pub proof fn lemma_run_end_bounds(s: Seq<char>, p: int, k: RunKind, big: bool)
    requires
        0 <= p <= s.len(),
    ensures
        p <= run_end(s, p, k, big) <= s.len(),
    decreases s.len() - p,
{
    if p < s.len() && class_of(s[p], big) == k {
        lemma_run_end_bounds(s, p + 1, k, big);
    }
}

pub proof fn lemma_run_start_bounds(s: Seq<char>, p: int, k: RunKind, big: bool)
    requires
        0 <= p,
    ensures
        0 <= run_start(s, p, k, big) <= p,
    decreases p,
{
    if p > 0 && class_of(s[p - 1], big) == k {
        lemma_run_start_bounds(s, p - 1, k, big);
    }
}

pub proof fn lemma_skip_space_back_bounds(s: Seq<char>, p: int)
    requires
        0 <= p,
    ensures
        0 <= skip_space_back(s, p) <= p,
    decreases p,
{
    if p > 0 && is_space_char(s[p]) {
        lemma_skip_space_back_bounds(s, p - 1);
    }
}

// ------------------------------------------------------------------
// Word motion specifications (`w`/`W`, `e`/`E`, `b`/`B`).
// ------------------------------------------------------------------

/// One `w`/`W` step: skip the rest of the run under the cursor (unless
/// the cursor is on whitespace), then skip whitespace; at or past the
/// end of the text nothing moves.
pub open spec fn word_forward_once_spec(s: Seq<char>, p: int, big: bool) -> int {
    if p >= s.len() {
        p
    } else {
        let k = class_of(s[p], big);
        let q = if k != RunKind::Space {
            run_end(s, p, k, big)
        } else {
            p
        };
        run_end(s, q, RunKind::Space, big)
    }
}

/// `n` `w`/`W` steps.
pub open spec fn word_forward_n(s: Seq<char>, p: int, n: int, big: bool) -> int
    decreases n,
{
    if n <= 0 {
        p
    } else {
        word_forward_once_spec(s, word_forward_n(s, p, n - 1, big), big)
    }
}

/// One `e`/`E` step: advance at least one character, skip whitespace,
/// then stop on the last character of the run now under the cursor;
/// when only whitespace remains, stop on the last character of the text.
pub open spec fn word_end_once_spec(s: Seq<char>, p: int, big: bool) -> int {
    if p >= s.len() {
        p
    } else {
        let p1 = if p < s.len() - 1 {
            p + 1
        } else {
            p
        };
        let q = run_end(s, p1, RunKind::Space, big);
        if q >= s.len() {
            s.len() - 1
        } else {
            run_end(s, q, class_of(s[q], big), big) - 1
        }
    }
}

/// `n` `e`/`E` steps.
pub open spec fn word_end_n(s: Seq<char>, p: int, n: int, big: bool) -> int
    decreases n,
{
    if n <= 0 {
        p
    } else {
        word_end_once_spec(s, word_end_n(s, p, n - 1, big), big)
    }
}

/// One `b`/`B` step: retreat at least one character, skip whitespace
/// backwards, then retreat to the start of the run now under the
/// cursor; at offset 0 nothing moves.
pub open spec fn word_backward_once_spec(s: Seq<char>, p: int, big: bool) -> int {
    if p <= 0 {
        0
    } else {
        let q = skip_space_back(s, p - 1);
        if q == 0 {
            0
        } else {
            run_start(s, q, class_of(s[q], big), big)
        }
    }
}

/// `n` `b`/`B` steps.
pub open spec fn word_backward_n(s: Seq<char>, p: int, n: int, big: bool) -> int
    decreases n,
{
    if n <= 0 {
        p
    } else {
        word_backward_once_spec(s, word_backward_n(s, p, n - 1, big), big)
    }
}

impl VimState {
    /// One `w` (or `W`, with `big_word`) step.
    pub fn move_word_forward_once(&self, text: &str, cursor_pos: &mut usize, big_word: bool)
        requires
            *old(cursor_pos) <= text@.len(),
        ensures
            *final(cursor_pos) as int == word_forward_once_spec(
                text@,
                *old(cursor_pos) as int,
                big_word,
            ),
            *final(cursor_pos) <= text@.len(),
    {
        let chars = chars_of(text);
        let ghost s = chars@;
        let n = chars.len();
        let p = *cursor_pos;
        if p >= n {
            return ;
        }
        let mut pos = p;
        let k = class(chars[p], big_word);
        if k != RunKind::Space {
            while pos < n && class(chars[pos], big_word) == k
                invariant
                    p <= pos <= n == s.len(),
                    s == chars@,
                    run_end(s, p as int, k, big_word) == run_end(s, pos as int, k, big_word),
                decreases n - pos,
            {
                pos = pos + 1;
            }
        }
        let ghost q = pos as int;
        let mut j = pos;
        while j < n && is_space(chars[j])
            invariant
                q <= j <= n == s.len(),
                s == chars@,
                run_end(s, q, RunKind::Space, big_word) == run_end(
                    s,
                    j as int,
                    RunKind::Space,
                    big_word,
                ),
            decreases n - j,
        {
            j = j + 1;
        }
        *cursor_pos = j;
    }

    /// `w`/`W`: `count` word-forward steps; steps at the end of the
    /// buffer are no-ops.
    pub fn move_word_forward(&self, text: &str, cursor_pos: &mut usize, count: usize, big_word: bool)
        requires
            *old(cursor_pos) <= text@.len(),
        ensures
            *final(cursor_pos) as int == word_forward_n(
                text@,
                *old(cursor_pos) as int,
                count as int,
                big_word,
            ),
            *final(cursor_pos) <= text@.len(),
    {
        let ghost p0 = *cursor_pos as int;
        let mut i: usize = 0;
        while i < count
            invariant
                i <= count,
                *cursor_pos as int == word_forward_n(text@, p0, i as int, big_word),
                *cursor_pos <= text@.len(),
            decreases count - i,
        {
            self.move_word_forward_once(text, cursor_pos, big_word);
            i = i + 1;
        }
    }

    /// One `e` (or `E`) step.
    pub fn move_word_end_once(&self, text: &str, cursor_pos: &mut usize, big_word: bool)
        requires
            *old(cursor_pos) <= text@.len(),
        ensures
            *final(cursor_pos) as int == word_end_once_spec(
                text@,
                *old(cursor_pos) as int,
                big_word,
            ),
            *final(cursor_pos) <= text@.len(),
    {
        let chars = chars_of(text);
        let ghost s = chars@;
        let n = chars.len();
        let p = *cursor_pos;
        if p >= n {
            return ;
        }
        let mut pos = p;
        if pos < n - 1 {
            pos = pos + 1;
        }
        let ghost p1 = pos as int;
        while pos < n && is_space(chars[pos])
            invariant
                p1 <= pos <= n == s.len(),
                s == chars@,
                run_end(s, p1, RunKind::Space, big_word) == run_end(
                    s,
                    pos as int,
                    RunKind::Space,
                    big_word,
                ),
            decreases n - pos,
        {
            pos = pos + 1;
        }
        if pos >= n {
            *cursor_pos = n - 1;
            return ;
        }
        let k = class(chars[pos], big_word);
        let ghost q = pos as int;
        proof {
            assert(run_end(s, q, k, big_word) == run_end(s, q + 1, k, big_word));
        }
        while pos < n - 1 && class(chars[pos + 1], big_word) == k
            invariant
                q <= pos < n == s.len(),
                s == chars@,
                class_of(s[pos as int], big_word) == k,
                run_end(s, q, k, big_word) == run_end(s, pos + 1, k, big_word),
            decreases n - pos,
        {
            pos = pos + 1;
        }
        proof {
            lemma_run_end_bounds(s, q, k, big_word);
        }
        *cursor_pos = pos;
    }

    /// `e`/`E`: `count` word-end steps.
    pub fn move_word_end(&self, text: &str, cursor_pos: &mut usize, count: usize, big_word: bool)
        requires
            *old(cursor_pos) <= text@.len(),
        ensures
            *final(cursor_pos) as int == word_end_n(
                text@,
                *old(cursor_pos) as int,
                count as int,
                big_word,
            ),
            *final(cursor_pos) <= text@.len(),
    {
        let ghost p0 = *cursor_pos as int;
        let mut i: usize = 0;
        while i < count
            invariant
                i <= count,
                *cursor_pos as int == word_end_n(text@, p0, i as int, big_word),
                *cursor_pos <= text@.len(),
            decreases count - i,
        {
            self.move_word_end_once(text, cursor_pos, big_word);
            i = i + 1;
        }
    }

    /// One `b` (or `B`) step.
    pub fn move_word_backward_once(&self, text: &str, cursor_pos: &mut usize, big_word: bool)
        requires
            *old(cursor_pos) <= text@.len(),
        ensures
            *final(cursor_pos) as int == word_backward_once_spec(
                text@,
                *old(cursor_pos) as int,
                big_word,
            ),
            *final(cursor_pos) <= *old(cursor_pos),
    {
        let chars = chars_of(text);
        let ghost s = chars@;
        let n = chars.len();
        let p = *cursor_pos;
        if p == 0 {
            return ;
        }
        let mut pos = p - 1;
        while pos > 0 && is_space(chars[pos])
            invariant
                0 <= pos <= p - 1 < n == s.len(),
                s == chars@,
                skip_space_back(s, (p - 1) as int) == skip_space_back(s, pos as int),
            decreases pos,
        {
            pos = pos - 1;
        }
        if pos == 0 {
            *cursor_pos = 0;
            return ;
        }
        let k = class(chars[pos], big_word);
        let ghost q = pos as int;
        while pos > 0 && class(chars[pos - 1], big_word) == k
            invariant
                0 <= pos <= q < n == s.len(),
                s == chars@,
                run_start(s, q, k, big_word) == run_start(s, pos as int, k, big_word),
            decreases pos,
        {
            pos = pos - 1;
        }
        *cursor_pos = pos;
    }

    /// `b`/`B`: `count` word-backward steps.
    pub fn move_word_backward(
        &self,
        text: &str,
        cursor_pos: &mut usize,
        count: usize,
        big_word: bool,
    )
        requires
            *old(cursor_pos) <= text@.len(),
        ensures
            *final(cursor_pos) as int == word_backward_n(
                text@,
                *old(cursor_pos) as int,
                count as int,
                big_word,
            ),
            *final(cursor_pos) <= text@.len(),
    {
        let ghost p0 = *cursor_pos as int;
        let mut i: usize = 0;
        while i < count
            invariant
                i <= count,
                *cursor_pos as int == word_backward_n(text@, p0, i as int, big_word),
                *cursor_pos <= text@.len(),
            decreases count - i,
        {
            self.move_word_backward_once(text, cursor_pos, big_word);
            i = i + 1;
        }
    }
}

} // verus!
