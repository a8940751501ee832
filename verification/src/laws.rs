use vstd::prelude::*;

verus! {

use crate::classify::{class_of, RunKind};
use crate::lines::{col_of, line_count, line_of, line_col_to_offset_spec};
use crate::motions_basic::{down_spec, up_spec};
use crate::motions_word::{run_end, word_forward_once_spec};

// ------------------------------------------------------------------
// Laws relating the motions to their single steps.
// ------------------------------------------------------------------

/// One line down, clamped to the last line: the line-index step that
/// `j` takes.
pub open spec fn down_line_step(l: int, last: int) -> int {
    if l + 1 <= last {
        l + 1
    } else {
        last
    }
}

/// `n` single line-steps down.
pub open spec fn down_line_n(l: int, last: int, n: int) -> int
    decreases n,
{
    if n <= 0 {
        l
    } else {
        down_line_step(down_line_n(l, last, n - 1), last)
    }
}

/// One line up, clamped to line 0.
pub open spec fn up_line_step(l: int) -> int {
    if l >= 1 {
        l - 1
    } else {
        0
    }
}

/// `n` single line-steps up.
pub open spec fn up_line_n(l: int, n: int) -> int
    decreases n,
{
    if n <= 0 {
        l
    } else {
        up_line_step(up_line_n(l, n - 1))
    }
}

proof fn lemma_down_line_n_closed(l: int, last: int, n: int)
    requires
        0 <= l <= last,
        n >= 0,
    ensures
        down_line_n(l, last, n) == if l + n <= last {
            l + n
        } else {
            last
        },
    decreases n,
{
    if n > 0 {
        lemma_down_line_n_closed(l, last, n - 1);
    }
}

proof fn lemma_up_line_n_closed(l: int, n: int)
    requires
        0 <= l,
        n >= 0,
    ensures
        up_line_n(l, n) == if n <= l {
            l - n
        } else {
            0
        },
    decreases n,
{
    if n > 0 {
        lemma_up_line_n_closed(l, n - 1);
    }
}

/// Count composition for the vertical motions.  A count-`n` downward
/// move is `n` single line-steps — provided every step re-applies the
/// *source* column, not the previous step's clamped column: the landing
/// offset is the address (single-line-step applied `n` times, source
/// column) with the column clamped only at the target line.
pub proof fn lemma_down_count_composition(s: Seq<char>, p: int, n: int)
    requires
        0 <= p <= s.len(),
        n >= 0,
    ensures
        down_spec(s, p, n) == line_col_to_offset_spec(
            s,
            down_line_n(line_of(s, p) as int, line_count(s) as int - 1, n),
            col_of(s, p),
        ),
{
    crate::lines::lemma_line_structure(s, p);
    lemma_down_line_n_closed(line_of(s, p) as int, line_count(s) as int - 1, n);
}

/// Count composition for the upward motion, under the same reading.
pub proof fn lemma_up_count_composition(s: Seq<char>, p: int, n: int)
    requires
        0 <= p <= s.len(),
        n >= 0,
    ensures
        up_spec(s, p, n) == line_col_to_offset_spec(
            s,
            up_line_n(line_of(s, p) as int, n),
            col_of(s, p),
        ),
{
    lemma_up_line_n_closed(line_of(s, p) as int, n);
}

proof fn lemma_run_end_saturates(s: Seq<char>, p: int, k: RunKind, big: bool)
    requires
        0 <= p <= s.len(),
        forall|j: int| p <= j < s.len() ==> class_of(s[j], big) == k,
    ensures
        run_end(s, p, k, big) == s.len(),
    decreases s.len() - p,
{
    if p < s.len() {
        lemma_run_end_saturates(s, p + 1, k, big);
    }
}

/// Word-motion idempotence at the end of the buffer.  When the cursor
/// stands inside the final word of a buffer whose last character ends
/// that word (no trailing whitespace), one word-forward step lands at
/// the end-of-buffer sentinel offset `len`; and a word-forward step
/// taken at that offset moves nothing.
pub proof fn lemma_word_forward_last_word(s: Seq<char>, p: int, big: bool)
    requires
        0 <= p < s.len(),
        class_of(s[p], big) != RunKind::Space,
        forall|j: int| p <= j < s.len() ==> class_of(s[j], big) == class_of(s[p], big),
    ensures
        word_forward_once_spec(s, p, big) == s.len(),
        word_forward_once_spec(s, s.len() as int, big) == s.len(),
{
    lemma_run_end_saturates(s, p, class_of(s[p], big), big);
}

} // verus!
