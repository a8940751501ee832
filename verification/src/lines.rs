use vstd::prelude::*;

verus! {

use crate::chars::chars_of;

// ------------------------------------------------------------------
// The line model.
//
// A text is a sequence of characters; its lines are the segments
// between `'\n'` characters.  A text always has one line more than it
// has newlines: the character after the last newline starts the final
// (possibly empty) line.  Offsets are character indices in `[0, len]`;
// the offset `len` is the sentinel position one past the last
// character.
// ------------------------------------------------------------------

/// Number of newline characters in `s`.
pub open spec fn nl_count(s: Seq<char>) -> nat
    decreases s.len(),
{
    if s.len() == 0 {
        0
    } else {
        nl_count(s.drop_last()) + if s.last() == '\n' {
            1nat
        } else {
            0nat
        }
    }
}

/// Number of lines of `s`: one more than its newline count.
pub open spec fn line_count(s: Seq<char>) -> nat {
    nl_count(s) + 1
}

/// Index of the line that offset `p` falls on, for `0 <= p <= s.len()`.
pub open spec fn line_of(s: Seq<char>, p: int) -> nat {
    nl_count(s.take(p))
}

/// Start offset of the line containing offset `p`.
pub open spec fn line_start_of(s: Seq<char>, p: int) -> int
    decreases p,
{
    if p <= 0 {
        0
    } else if s[p - 1] == '\n' {
        p
    } else {
        line_start_of(s, p - 1)
    }
}

/// Column of offset `p`: its distance from the start of its line.
pub open spec fn col_of(s: Seq<char>, p: int) -> int {
    p - line_start_of(s, p)
}

/// Offset of the first newline at or after `j`, or the end of the text.
pub open spec fn line_end_from(s: Seq<char>, j: int) -> int
    decreases s.len() - j,
{
    if j < 0 || j >= s.len() {
        s.len() as int
    } else if s[j] == '\n' {
        j
    } else {
        line_end_from(s, j + 1)
    }
}

/// Start offset of line `i`; past the last line this saturates to the
/// end of the text.
pub open spec fn nth_line_start(s: Seq<char>, i: int) -> int
    decreases i,
{
    if i <= 0 {
        0
    } else {
        let e = line_end_from(s, nth_line_start(s, i - 1));
        if e < s.len() {
            e + 1
        } else {
            s.len() as int
        }
    }
}

/// Character length of line `i`, its newline not counted.
pub open spec fn line_len(s: Seq<char>, i: int) -> int {
    line_end_from(s, nth_line_start(s, i)) - nth_line_start(s, i)
}

/// The (line, column) address of offset `o`.  An offset past the end of
/// the text degenerates to the last line, column 0.
pub open spec fn offset_to_line_col_spec(s: Seq<char>, o: int) -> (int, int) {
    if o <= s.len() {
        (line_of(s, o) as int, col_of(s, o))
    } else {
        (line_of(s, s.len() as int) as int, 0)
    }
}

/// The offset of address (line, col): the start of that line plus the
/// column, the column clamped to the line's length.  Past the last line
/// this is the end of the text.
pub open spec fn line_col_to_offset_spec(s: Seq<char>, line: int, col: int) -> int {
    let st = nth_line_start(s, line);
    let ll = line_len(s, line);
    st + if col <= ll {
        col
    } else {
        ll
    }
}

// ------------------------------------------------------------------
// Lemmas about the line model.
// ------------------------------------------------------------------

/// Counting newlines one character at a time.
pub proof fn lemma_nl_take_step(s: Seq<char>, i: int)
    requires
        0 <= i < s.len(),
    ensures
        nl_count(s.take(i + 1)) == nl_count(s.take(i)) + if s[i] == '\n' {
            1int
        } else {
            0int
        },
{
    let t = s.take(i + 1);
    assert(t.drop_last() =~= s.take(i));
    assert(t.last() == s[i]);
}

/// A prefix never has more newlines than the whole text.
pub proof fn lemma_nl_prefix(s: Seq<char>, p: int)
    requires
        0 <= p <= s.len(),
    ensures
        nl_count(s.take(p)) <= nl_count(s),
    decreases s.len() - p,
{
    if p == s.len() {
        assert(s.take(p) =~= s);
    } else {
        lemma_nl_take_step(s, p);
        lemma_nl_prefix(s, p + 1);
    }
}

/// Newlines do not change over a newline-free stretch.
pub proof fn lemma_nl_flat(s: Seq<char>, a: int, b: int)
    requires
        0 <= a <= b <= s.len(),
        forall|k: int| a <= k < b ==> s[k] != '\n',
    ensures
        nl_count(s.take(b)) == nl_count(s.take(a)),
    decreases b - a,
{
    if a < b {
        lemma_nl_take_step(s, b - 1);
        lemma_nl_flat(s, a, b - 1);
    }
}

/// Where `line_end_from` lands: at or after `j`, at a newline or the end
/// of the text, with nothing but non-newlines before it.
pub proof fn lemma_line_end_from_bounds(s: Seq<char>, j: int)
    requires
        0 <= j <= s.len(),
    ensures
        j <= line_end_from(s, j) <= s.len(),
        forall|k: int| j <= k < line_end_from(s, j) ==> s[k] != '\n',
        line_end_from(s, j) == s.len() || s[line_end_from(s, j)] == '\n',
    decreases s.len() - j,
{
    if j < s.len() && s[j] != '\n' {
        lemma_line_end_from_bounds(s, j + 1);
    }
}

/// `line_end_from` is the same from anywhere inside a newline-free stretch.
pub proof fn lemma_line_end_from_through(s: Seq<char>, j: int, q: int)
    requires
        0 <= j <= q <= s.len(),
        forall|k: int| j <= k < q ==> s[k] != '\n',
    ensures
        line_end_from(s, j) == line_end_from(s, q),
    decreases q - j,
{
    if j < q {
        lemma_line_end_from_through(s, j + 1, q);
    }
}

/// The shape of the line containing offset `p`: its start lies at or
/// before `p`, just after a newline (or at 0), no newline stands between
/// the start and `p`, and the start is exactly the start of line number
/// `line_of(s, p)`.
pub proof fn lemma_line_structure(s: Seq<char>, p: int)
    requires
        0 <= p <= s.len(),
    ensures
        0 <= line_start_of(s, p) <= p,
        line_start_of(s, p) == 0 || s[line_start_of(s, p) - 1] == '\n',
        forall|j: int| line_start_of(s, p) <= j < p ==> s[j] != '\n',
        nth_line_start(s, line_of(s, p) as int) == line_start_of(s, p),
        line_of(s, p) < line_count(s),
    decreases p,
{
    lemma_nl_prefix(s, p);
    if p == 0 {
        assert(s.take(0) =~= Seq::<char>::empty());
    } else {
        lemma_line_structure(s, p - 1);
        lemma_nl_take_step(s, p - 1);
        let st = line_start_of(s, p - 1);
        if s[p - 1] == '\n' {
            let l = line_of(s, p - 1);
            lemma_line_end_from_through(s, st, p - 1);
            assert(line_end_from(s, p - 1) == p - 1);
            assert(line_of(s, p) == l + 1);
            assert(nth_line_start(s, l + 1int) == p);
        } else {
            assert(line_start_of(s, p) == st);
        }
    }
}

/// Line starts never leave the text.
pub proof fn lemma_nth_line_start_bounds(s: Seq<char>, i: int)
    ensures
        0 <= nth_line_start(s, i) <= s.len(),
    decreases i,
{
    if i > 0 {
        lemma_nth_line_start_bounds(s, i - 1);
        lemma_line_end_from_bounds(s, nth_line_start(s, i - 1));
    }
}

/// Once a line start has saturated to the end of the text, it stays there.
pub proof fn lemma_nth_saturate(s: Seq<char>, i: int, j: int)
    requires
        0 <= i <= j,
        nth_line_start(s, i) == s.len(),
    ensures
        nth_line_start(s, j) == s.len(),
    decreases j - i,
{
    if i < j {
        lemma_nth_saturate(s, i, j - 1);
    }
}

/// The start of line `i` lies on line `i`, at column 0.
pub proof fn lemma_line_of_nth(s: Seq<char>, i: int)
    requires
        0 <= i < line_count(s),
    ensures
        line_of(s, nth_line_start(s, i)) == i,
        line_start_of(s, nth_line_start(s, i)) == nth_line_start(s, i),
        0 <= nth_line_start(s, i) <= s.len(),
    decreases i,
{
    lemma_nth_line_start_bounds(s, i);
    if i == 0 {
        assert(s.take(0) =~= Seq::<char>::empty());
    } else {
        lemma_line_of_nth(s, i - 1);
        let st = nth_line_start(s, i - 1);
        let e = line_end_from(s, st);
        lemma_line_end_from_bounds(s, st);
        lemma_nl_flat(s, st, e);
        if e < s.len() {
            lemma_nl_take_step(s, e);
            assert(nth_line_start(s, i) == e + 1);
            assert(line_of(s, e + 1) == i);
        } else {
            assert(s.take(s.len() as int) =~= s);
            assert(nl_count(s) == i - 1);
            assert(false);
        }
    }
}

/// The end of line `i`: one before the next line's start, or the end of
/// the text for the last line.
pub proof fn lemma_line_end_nth(s: Seq<char>, i: int)
    requires
        0 <= i < line_count(s),
    ensures
        i + 1 < line_count(s) ==> line_end_from(s, nth_line_start(s, i)) == nth_line_start(
            s,
            i + 1,
        ) - 1,
        i + 1 == line_count(s) ==> line_end_from(s, nth_line_start(s, i)) == s.len(),
        i + 1 < line_count(s) ==> nth_line_start(s, i) < nth_line_start(s, i + 1),
{
    let st = nth_line_start(s, i);
    let e = line_end_from(s, st);
    lemma_line_of_nth(s, i);
    lemma_line_end_from_bounds(s, st);
    lemma_nl_flat(s, st, e);
    if e < s.len() {
        lemma_nl_take_step(s, e);
        lemma_nl_prefix(s, e + 1);
        assert(nl_count(s.take(e + 1)) == i + 1);
        assert(i + 1 < line_count(s));
        assert(nth_line_start(s, i + 1) == e + 1);
    } else {
        assert(s.take(s.len() as int) =~= s);
        assert(nl_count(s) == i);
    }
}

/// Round trip of the address translation: translating an offset to a
/// (line, column) address and back returns the same offset, for every
/// offset inside the text.
pub proof fn lemma_address_round_trip(s: Seq<char>, p: int)
    requires
        0 <= p <= s.len(),
    ensures
        line_col_to_offset_spec(
            s,
            offset_to_line_col_spec(s, p).0,
            offset_to_line_col_spec(s, p).1,
        ) == p,
{
    lemma_line_structure(s, p);
    let st = line_start_of(s, p);
    lemma_line_end_from_through(s, st, p);
    lemma_line_end_from_bounds(s, p);
}

// ------------------------------------------------------------------
// Executable address translation.
// ------------------------------------------------------------------

/// Line index and line start of offset `p`, found by one scan.
pub(crate) fn scan_line_col(chars: &Vec<char>, p: usize) -> (r: (usize, usize))
    requires
        p <= chars@.len(),
    ensures
        r.0 == line_of(chars@, p as int),
        r.1 == line_start_of(chars@, p as int),
{
    let ghost s = chars@;
    let mut i: usize = 0;
    let mut line: usize = 0;
    let mut start: usize = 0;
    proof {
        assert(s.take(0) =~= Seq::<char>::empty());
    }
    while i < p
        invariant
            i <= p <= s.len(),
            s == chars@,
            line == line_of(s, i as int),
            start == line_start_of(s, i as int),
            line <= i,
            start <= i,
        decreases p - i,
    {
        proof {
            lemma_nl_take_step(s, i as int);
        }
        if chars[i] == '\n' {
            line = line + 1;
            start = i + 1;
        }
        i = i + 1;
    }
    (line, start)
}

/// The starts of all lines of the text, in order.
pub(crate) fn line_starts(chars: &Vec<char>) -> (r: Vec<usize>)
    ensures
        r@.len() == line_count(chars@),
        forall|k: int| 0 <= k < r@.len() ==> r@[k] == nth_line_start(chars@, k),
{
    let ghost s = chars@;
    let n = chars.len();
    let mut v: Vec<usize> = Vec::new();
    v.push(0);
    let mut i: usize = 0;
    proof {
        assert(s.take(0) =~= Seq::<char>::empty());
    }
    while i < n
        invariant
            i <= n == s.len(),
            s == chars@,
            v@.len() == line_of(s, i as int) + 1,
            forall|k: int| 0 <= k < v@.len() ==> v@[k] == nth_line_start(s, k),
        decreases n - i,
    {
        proof {
            lemma_nl_take_step(s, i as int);
            lemma_line_structure(s, i + 1);
        }
        if chars[i] == '\n' {
            v.push(i + 1);
        }
        i = i + 1;
    }
    proof {
        assert(s.take(n as int) =~= s);
    }
    v
}

/// Convert a linear character offset into a zero-based (line, column)
/// pair.  An offset past the end of the text yields the last line with
/// column 0.
pub fn offset_to_line_col(text: &str, offset: usize) -> (r: (usize, usize))
    ensures
        (r.0 as int, r.1 as int) == offset_to_line_col_spec(text@, offset as int),
{
    let chars = chars_of(text);
    let n = chars.len();
    if offset <= n {
        let (line, start) = scan_line_col(&chars, offset);
        proof {
            lemma_line_structure(chars@, offset as int);
        }
        (line, offset - start)
    } else {
        let (line, _) = scan_line_col(&chars, n);
        (line, 0)
    }
}

/// Convert a zero-based (line, column) pair into a character offset; the
/// column is clamped to the line's length, and a line past the end of
/// the text yields the offset of the end of the text.
pub fn line_col_to_offset(text: &str, line: usize, col: usize) -> (r: usize)
    ensures
        r as int == line_col_to_offset_spec(text@, line as int, col as int),
        r <= text@.len(),
{
    let chars = chars_of(text);
    let ghost s = chars@;
    let n = chars.len();
    let starts = line_starts(&chars);
    if line >= starts.len() {
        proof {
            lemma_line_end_nth(s, line_count(s) as int - 1);
            assert(nth_line_start(s, line_count(s) as int) == s.len());
            lemma_nth_saturate(s, line_count(s) as int, line as int);
            assert(line_end_from(s, s.len() as int) == s.len());
        }
        return n;
    }
    let st = starts[line];
    proof {
        lemma_line_end_nth(s, line as int);
        lemma_nth_line_start_bounds(s, line as int);
        lemma_nth_line_start_bounds(s, line as int + 1);
    }
    let e: usize = if line + 1 < starts.len() {
        starts[line + 1] - 1
    } else {
        n
    };
    let ll = e - st;
    if col <= ll {
        st + col
    } else {
        st + ll
    }
}

} // verus!
