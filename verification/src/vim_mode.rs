use vstd::prelude::*;

verus! {

use vstd::string::{StrSliceExecFns, StringExecFns};

/// The two modes the motion engine itself owns.  The `:` command line is
/// a separate collaborator; the engine only recognises the edge into it.
#[derive(Clone, Copy, Debug, PartialEq, Eq, Structural)]
pub enum VimMode {
    Normal,
    Insert,
}

/// Direction of a single-character search (`f`/`t` forward, `F`/`T`
/// backward).
#[derive(Clone, Copy, Debug, PartialEq, Eq, Structural)]
pub enum CharSearchDirection {
    Forward,
    Backward,
}

/// Kind of a single-character search: land on the match (`f`/`F`) or one
/// character short of it in the direction of travel (`t`/`T`).
#[derive(Clone, Copy, Debug, PartialEq, Eq, Structural)]
pub enum CharSearchType {
    To,
    Before,
}

/// A multi-key command waiting for its completion: after `f`, `F`, `t` or
/// `T` the engine waits for the target character.
#[derive(Clone, Copy, Debug, PartialEq, Eq, Structural)]
pub enum Pending {
    Idle,
    CharSearch(CharSearchDirection, CharSearchType),
}

/// One input token handed to the engine by its host: the Escape key, or a
/// typed character.
#[derive(Clone, Copy, Debug, PartialEq, Eq, Structural)]
pub enum VimEvent {
    Escape,
    Char(char),
}

/// The modal state of one open document: the mode, the pending repeat
/// count, the memory of the last completed character search, and the key
/// still waiting for its completion.
pub struct VimState {
    pub mode: VimMode,
    pub count_buffer: String,
    pub last_char_search: Option<(char, CharSearchDirection, CharSearchType)>,
    pub pending: Pending,
}

impl Default for VimState {
    /// A fresh engine: Normal mode, no pending count, no search memory.
    fn default() -> (r: Self)
        ensures
            r.mode == VimMode::Normal,
            r.count_buffer@ == Seq::<char>::empty(),
            r.last_char_search is None,
            r.pending == Pending::Idle,
    {
        VimState {
            mode: VimMode::Normal,
            count_buffer: String::new(),
            last_char_search: None,
            pending: Pending::Idle,
        }
    }
}

/// The ten decimal digits.
pub open spec fn is_digit(c: char) -> bool {
    c == '0' || c == '1' || c == '2' || c == '3' || c == '4' || c == '5' || c == '6' || c == '7'
        || c == '8' || c == '9'
}

/// Value of one decimal digit.
pub open spec fn digit_val(c: char) -> int {
    if c == '0' {
        0
    } else if c == '1' {
        1
    } else if c == '2' {
        2
    } else if c == '3' {
        3
    } else if c == '4' {
        4
    } else if c == '5' {
        5
    } else if c == '6' {
        6
    } else if c == '7' {
        7
    } else if c == '8' {
        8
    } else {
        9
    }
}

/// Value of a string of decimal digits, most significant first.
pub open spec fn digits_val(s: Seq<char>) -> int
    decreases s.len(),
{
    if s.len() == 0 {
        0
    } else {
        digits_val(s.drop_last()) * 10 + digit_val(s.last())
    }
}

pub open spec fn all_digits(s: Seq<char>) -> bool {
    forall|i: int| 0 <= i < s.len() ==> is_digit(s[i])
}

/// The repeat count a pending-count buffer stands for: the parsed value
/// when the buffer is a representable string of digits, and the default
/// count 1 otherwise (in particular when the buffer is empty).
pub open spec fn count_of(s: Seq<char>) -> int {
    if s.len() > 0 && all_digits(s) && digits_val(s) <= usize::MAX {
        digits_val(s)
    } else {
        1
    }
}

proof fn lemma_digits_val_nonneg(s: Seq<char>)
    ensures
        digits_val(s) >= 0,
    decreases s.len(),
{
    if s.len() > 0 {
        lemma_digits_val_nonneg(s.drop_last());
    }
}

proof fn lemma_digits_take_step(s: Seq<char>, i: int)
    requires
        0 <= i < s.len(),
    ensures
        digits_val(s.take(i + 1)) == digits_val(s.take(i)) * 10 + digit_val(s[i]),
{
    let t = s.take(i + 1);
    assert(t.drop_last() =~= s.take(i));
    assert(t.last() == s[i]);
}

/// Once some prefix of a digit string is too large for `usize`, the whole
/// string is too.
proof fn lemma_digits_grow(s: Seq<char>, a: int, b: int)
    requires
        0 <= a <= b <= s.len(),
    ensures
        digits_val(s.take(a)) <= digits_val(s.take(b)),
    decreases b - a,
{
    if a < b {
        lemma_digits_grow(s, a, b - 1);
        lemma_digits_take_step(s, b - 1);
        lemma_digits_val_nonneg(s.take(b - 1));
    }
}

impl VimState {
    /// Parse the pending-count buffer: a representable all-digit buffer
    /// yields its decimal value, anything else (the empty buffer above
    /// all) yields the default count 1.
    pub fn get_count(&self) -> (r: usize)
        ensures
            r as int == count_of(self.count_buffer@),
    {
        let s = self.count_buffer.as_str();
        let ghost sq = s@;
        let n = s.unicode_len();
        if n == 0 {
            return 1;
        }
        let mut i: usize = 0;
        let mut acc: usize = 0;
        proof {
            assert(sq.take(0) =~= Seq::<char>::empty());
        }
        while i < n
            invariant
                i <= n == sq.len(),
                sq == s@,
                s@ == self.count_buffer@,
                forall|j: int| 0 <= j < i ==> is_digit(sq[j]),
                acc as int == digits_val(sq.take(i as int)),
            decreases n - i,
        {
            let c = s.get_char(i);
            let d: usize = if c == '0' {
                0
            } else if c == '1' {
                1
            } else if c == '2' {
                2
            } else if c == '3' {
                3
            } else if c == '4' {
                4
            } else if c == '5' {
                5
            } else if c == '6' {
                6
            } else if c == '7' {
                7
            } else if c == '8' {
                8
            } else if c == '9' {
                9
            } else {
                return 1;
            };
            proof {
                lemma_digits_take_step(sq, i as int);
            }
            if acc > (usize::MAX - d) / 10 {
                proof {
                    lemma_digits_grow(sq, i + 1, n as int);
                    assert(sq.take(n as int) =~= sq);
                    assert(acc * 10 + d > usize::MAX) by (nonlinear_arith)
                        requires
                            acc > (usize::MAX - d) / 10,
                            d <= 9,
                    ;
                }
                return 1;
            }
            proof {
                assert(acc * 10 + d <= usize::MAX) by (nonlinear_arith)
                    requires
                        acc <= (usize::MAX - d) / 10,
                        d <= 9,
                ;
            }
            acc = acc * 10 + d;
            i = i + 1;
        }
        proof {
            assert(sq.take(n as int) =~= sq);
        }
        acc
    }

    /// The status line the host shows: the mode's name, with the pending
    /// count appended in Normal mode while one is being typed.
    pub fn get_mode_string(&self) -> (r: String)
        ensures
            self.mode == VimMode::Normal && self.count_buffer@.len() == 0 ==> r@ == "NORMAL"@,
            self.mode == VimMode::Normal && self.count_buffer@.len() > 0 ==> r@ == "NORMAL - "@
                + self.count_buffer@,
            self.mode == VimMode::Insert ==> r@ == "INSERT"@,
    {
        match self.mode {
            VimMode::Normal => {
                if self.count_buffer.as_str().unicode_len() == 0 {
                    String::from_str("NORMAL")
                } else {
                    let s = String::from_str("NORMAL - ");
                    s.concat(self.count_buffer.as_str())
                }
            },
            VimMode::Insert => String::from_str("INSERT"),
        }
    }
}

/// Append one typed digit to the pending-count buffer.
pub(crate) fn push_digit(buf: &mut String, c: char)
    requires
        is_digit(c),
    ensures
        final(buf)@ == old(buf)@.push(c),
{
    let lit: &str = if c == '0' {
        "0"
    } else if c == '1' {
        "1"
    } else if c == '2' {
        "2"
    } else if c == '3' {
        "3"
    } else if c == '4' {
        "4"
    } else if c == '5' {
        "5"
    } else if c == '6' {
        "6"
    } else if c == '7' {
        "7"
    } else if c == '8' {
        "8"
    } else {
        "9"
    };
    proof {
        reveal_strlit("0");
        reveal_strlit("1");
        reveal_strlit("2");
        reveal_strlit("3");
        reveal_strlit("4");
        reveal_strlit("5");
        reveal_strlit("6");
        reveal_strlit("7");
        reveal_strlit("8");
        reveal_strlit("9");
    }
    buf.append(lit);
    proof {
        assert(buf@ =~= old(buf)@.push(c));
    }
}

} // verus!
