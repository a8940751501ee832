use vstd::prelude::*;

verus! {

use vstd::string::StrSliceExecFns;

/// What `str::to_lowercase` returns for each character sequence.  The
/// Unicode case-folding tables are far too large to write out, so the
/// result is only given this name.
pub uninterp spec fn lower_of(s: Seq<char>) -> Seq<char>;

/// Relies on `str::to_lowercase`: the Unicode lowercase equivalent of
/// `s`, a function of the characters alone.
#[verifier::external_body]
pub fn lowercase(s: &str) -> (r: String)
    ensures
        r@ == lower_of(s@),
{
    s.to_lowercase()
}

/// The needle occurs in the haystack at position `p`.
pub open spec fn occurs_at(hay: Seq<char>, needle: Seq<char>, p: int) -> bool {
    0 <= p && p + needle.len() <= hay.len() && hay.subrange(p, p + needle.len()) == needle
}

/// All positions at or after `j` where the needle occurs, in increasing
/// order; an empty needle is taken to occur nowhere.
pub open spec fn occurrences_from(hay: Seq<char>, needle: Seq<char>, j: int) -> Seq<int>
    decreases hay.len() - j,
{
    if needle.len() == 0 || j < 0 || j + needle.len() > hay.len() {
        Seq::empty()
    } else {
        (if occurs_at(hay, needle, j) {
            seq![j]
        } else {
            Seq::empty()
        }) + occurrences_from(hay, needle, j + 1)
    }
}

/// All positions where the needle occurs in the haystack (overlapping
/// occurrences included), in increasing order.
pub open spec fn occurrences(hay: Seq<char>, needle: Seq<char>) -> Seq<int> {
    occurrences_from(hay, needle, 0)
}

/// Whether the needle matches `hay` at position `p` (executable).
fn matches_at(hay: &Vec<char>, needle: &Vec<char>, p: usize) -> (r: bool)
    requires
        p + needle@.len() <= hay@.len(),
    ensures
        r == occurs_at(hay@, needle@, p as int),
{
    let m = needle.len();
    let n = hay.len();
    let mut i: usize = 0;
    while i < m
        invariant
            i <= m == needle@.len(),
            p + m <= hay@.len(),
            n == hay@.len(),
            forall|k: int| 0 <= k < i ==> hay@[p + k] == needle@[k],
        decreases m - i,
    {
        if hay[p + i] != needle[i] {
            proof {
                assert(hay@.subrange(p as int, p + needle@.len())[i as int] == hay@[p + i]);
            }
            return false;
        }
        i = i + 1;
    }
    proof {
        assert(hay@.subrange(p as int, p + needle@.len()) =~= needle@);
    }
    true
}

/// Every position where the needle occurs in the haystack, in
/// increasing order; overlapping occurrences are all reported.
pub fn find_occurrences(hay: &Vec<char>, needle: &Vec<char>) -> (r: Vec<usize>)
    ensures
        r@.map_values(|v: usize| v as int) == occurrences(hay@, needle@),
{
    let mut out: Vec<usize> = Vec::new();
    let m = needle.len();
    let n = hay.len();
    if m == 0 || m > n {
        proof {
            assert(out@.map_values(|v: usize| v as int) =~= occurrences(hay@, needle@));
        }
        return out;
    }
    let mut j: usize = 0;
    while j <= n - m
        invariant
            0 < m <= n == hay@.len(),
            m == needle@.len(),
            j <= n - m + 1,
            occurrences(hay@, needle@) =~= out@.map_values(|v: usize| v as int)
                + occurrences_from(hay@, needle@, j as int),
        decreases n - j,
    {
        if matches_at(hay, needle, j) {
            out.push(j);
            proof {
                assert(out@.map_values(|v: usize| v as int) =~= out@.drop_last().map_values(
                    |v: usize| v as int,
                ).push(j as int));
            }
        }
        j = j + 1;
    }
    proof {
        assert(out@.map_values(|v: usize| v as int) =~= occurrences(hay@, needle@));
    }
    out
}

/// Whether the needle occurs anywhere in the haystack; the empty needle
/// is contained in everything.
pub open spec fn contains_sub_spec(hay: Seq<char>, needle: Seq<char>) -> bool {
    needle.len() == 0 || exists|p: int| occurs_at(hay, needle, p)
}

proof fn lemma_occurrences_complete(hay: Seq<char>, needle: Seq<char>, j: int, p: int)
    requires
        needle.len() > 0,
        j <= p,
        occurs_at(hay, needle, p),
        0 <= j,
    ensures
        occurrences_from(hay, needle, j).len() > 0,
    decreases p - j,
{
    if j < p {
        lemma_occurrences_complete(hay, needle, j + 1, p);
    }
}

/// Whether the needle occurs anywhere in the haystack.
pub fn contains_sub(hay: &Vec<char>, needle: &Vec<char>) -> (r: bool)
    ensures
        r == contains_sub_spec(hay@, needle@),
{
    if needle.len() == 0 {
        return true;
    }
    let occ = find_occurrences(hay, needle);
    if occ.len() > 0 {
        proof {
            let oc = occurrences(hay@, needle@);
            assert(oc[0] == occ@.map_values(|v: usize| v as int)[0]);
            assert(oc.contains(oc[0]));
            lemma_occurrences_member(hay@, needle@, 0, oc[0]);
        }
        true
    } else {
        proof {
            if contains_sub_spec(hay@, needle@) {
                let p = choose|p: int| occurs_at(hay@, needle@, p);
                lemma_occurrences_complete(hay@, needle@, 0, p);
            }
        }
        false
    }
}

/// Every reported position is a real occurrence.
pub proof fn lemma_occurrences_member(hay: Seq<char>, needle: Seq<char>, j: int, p: int)
    requires
        occurrences_from(hay, needle, j).contains(p),
    ensures
        occurs_at(hay, needle, p),
        p >= j,
    decreases hay.len() - j,
{
    if needle.len() == 0 || j < 0 || j + needle.len() > hay.len() {
    } else {
        if occurs_at(hay, needle, j) && p == j {
        } else {
            assert(occurrences_from(hay, needle, j + 1).contains(p));
            lemma_occurrences_member(hay, needle, j + 1, p);
        }
    }
}

} // verus!
