use vstd::prelude::*;

verus! {

use crate::chars::chars_of;

/// A single file entry produced by scanning a directory: its path and
/// the name shown in the finder list.
#[derive(Debug, Clone)]
pub struct FileEntry {
    pub path: String,
    pub display_name: String,
}

/// The scoring state after reading the first `i` characters of the
/// candidate: the score so far and how much of the pattern has been
/// matched.  Each pattern character is matched greedily against the
/// first remaining candidate character equal to it; a match scores 100,
/// plus 50 when the character right before it matched the previous
/// pattern character, plus 30 when it starts the candidate or follows
/// `/`, `_` or `.`.
pub open spec fn fuzzy_state(text: Seq<char>, pat: Seq<char>, i: int) -> (int, int)
    decreases i,
{
    if i <= 0 {
        (0, 0)
    } else {
        let prev = fuzzy_state(text, pat, i - 1);
        let sc = prev.0;
        let pi = prev.1;
        if pi < pat.len() && text[i - 1] == pat[pi] {
            let s1 = sc + 100 + if pi > 0 && i - 1 > 0 && text[i - 2] == pat[pi - 1] {
                50int
            } else {
                0int
            };
            let s2 = s1 + if i - 1 == 0 || text[i - 2] == '/' || text[i - 2] == '_' || text[i - 2]
                == '.' {
                30int
            } else {
                0int
            };
            (s2, pi + 1)
        } else {
            (sc, pi)
        }
    }
}

/// The fuzzy score of a candidate against a pattern: the greedy match
/// score when the whole pattern was consumed, 0 when it was not, and 1
/// for the empty pattern.
pub open spec fn fuzzy_match_spec(text: Seq<char>, pat: Seq<char>) -> int {
    if pat.len() == 0 {
        1
    } else {
        let st = fuzzy_state(text, pat, text.len() as int);
        if st.1 == pat.len() {
            st.0
        } else {
            0
        }
    }
}

proof fn lemma_fuzzy_state_bounds(text: Seq<char>, pat: Seq<char>, i: int)
    requires
        0 <= i,
    ensures
        0 <= fuzzy_state(text, pat, i).0 <= 180 * i,
        0 <= fuzzy_state(text, pat, i).1 <= pat.len(),
        fuzzy_state(text, pat, i).1 <= i,
    decreases i,
{
    if i > 0 {
        lemma_fuzzy_state_bounds(text, pat, i - 1);
    }
}

/// The fuzzy score of a candidate against a pattern.
pub fn fuzzy_match(text: &str, pattern: &str) -> (r: i32)
    requires
        text@.len() <= 10000000,
    ensures
        r as int == fuzzy_match_spec(text@, pattern@),
{
    let pat = chars_of(pattern);
    let m = pat.len();
    if m == 0 {
        return 1;
    }
    let txt = chars_of(text);
    let n = txt.len();
    let mut score: i32 = 0;
    let mut pi: usize = 0;
    let mut i: usize = 0;
    while i < n
        invariant
            i <= n == txt@.len(),
            txt@ == text@,
            pat@ == pattern@,
            m == pat@.len(),
            n <= 10000000,
            (score as int, pi as int) == fuzzy_state(text@, pattern@, i as int),
            0 <= score as int <= 180 * i as int,
            pi <= m,
        decreases n - i,
    {
        proof {
            lemma_fuzzy_state_bounds(text@, pattern@, i + 1);
        }
        if pi < m && txt[i] == pat[pi] {
            score = score + 100;
            if pi > 0 && i > 0 && txt[i - 1] == pat[pi - 1] {
                score = score + 50;
            }
            if i == 0 || txt[i - 1] == '/' || txt[i - 1] == '_' || txt[i - 1] == '.' {
                score = score + 30;
            }
            pi = pi + 1;
        }
        i = i + 1;
    }
    if pi == m {
        score
    } else {
        0
    }
}

} // verus!
