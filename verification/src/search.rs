use vstd::prelude::*;

verus! {

use vstd::string::StrSliceExecFns;
use fuzzy_matcher::FuzzyMatcher;
use crate::chars::chars_of;
use crate::lines::{
    line_count,
    line_end_from,
    nth_line_start,
    line_starts,
    lemma_line_end_nth,
    lemma_nth_line_start_bounds,
    lemma_line_end_from_bounds,
};
use crate::text_search::{contains_sub, contains_sub_spec, lowercase, lower_of};

/// One matching line of one file: its 1-based line number and its text.
#[derive(Debug, Clone)]
pub struct SearchMatch {
    pub line_number: usize,
    pub line_content: String,
}

/// Every match found in one file.
#[derive(Debug, Clone)]
pub struct SearchResult {
    pub path: String,
    pub file_name: String,
    pub matches: Vec<SearchMatch>,
}

/// The text of line `i` of `s`.
pub open spec fn line_text(s: Seq<char>, i: int) -> Seq<char> {
    s.subrange(nth_line_start(s, i), line_end_from(s, nth_line_start(s, i)))
}

/// Line `i` matches the query when its case-folded text contains the
/// case-folded query.
pub open spec fn line_matches(s: Seq<char>, i: int, q: Seq<char>) -> bool {
    contains_sub_spec(lower_of(line_text(s, i)), lower_of(q))
}

/// The matching lines of `s` from line `i` on, as (1-based line number,
/// line text) pairs.
pub open spec fn matching_lines_from(s: Seq<char>, q: Seq<char>, i: int) -> Seq<(int, Seq<char>)>
    decreases line_count(s) - i,
{
    if i < 0 || i >= line_count(s) {
        Seq::empty()
    } else if line_matches(s, i, q) {
        seq![(i + 1, line_text(s, i))] + matching_lines_from(s, q, i + 1)
    } else {
        matching_lines_from(s, q, i + 1)
    }
}

/// A search match as the contracts see it.
pub open spec fn match_view(m: SearchMatch) -> (int, Seq<char>) {
    (m.line_number as int, m.line_content@)
}

/// A list of search matches as the contracts see it.
pub open spec fn match_views(s: Seq<SearchMatch>) -> Seq<(int, Seq<char>)>
    decreases s.len(),
{
    if s.len() == 0 {
        Seq::empty()
    } else {
        match_views(s.drop_last()).push(match_view(s.last()))
    }
}

/// Scan one file's content for lines whose case-folded text contains
/// the case-folded query, reporting each with its 1-based line number.
pub fn search_content(content: &str, query: &str) -> (r: Vec<SearchMatch>)
    ensures
        match_views(r@) == matching_lines_from(content@, query@, 0),
{
    let chars = chars_of(content);
    let ghost s = chars@;
    let n = chars.len();
    let query_lower = lowercase(query);
    let needle = chars_of(query_lower.as_str());
    let starts = line_starts(&chars);
    let cnt = starts.len();
    let mut out: Vec<SearchMatch> = Vec::new();
    let mut i: usize = 0;
    proof {
        assert(match_views(out@) =~= Seq::<(int, Seq<char>)>::empty());
        assert(match_views(out@) + matching_lines_from(s, query@, 0) =~= matching_lines_from(
            s,
            query@,
            0,
        ));
    }
    while i < cnt
        invariant
            i <= cnt == line_count(s),
            s == chars@,
            s == content@,
            n == s.len(),
            starts@.len() == line_count(s),
            forall|k: int| 0 <= k < starts@.len() ==> starts@[k] == nth_line_start(s, k),
            needle@ == lower_of(query@),
            matching_lines_from(s, query@, 0) =~= match_views(out@) + matching_lines_from(
                s,
                query@,
                i as int,
            ),
        decreases cnt - i,
    {
        let st = starts[i];
        proof {
            lemma_line_end_nth(s, i as int);
            lemma_nth_line_start_bounds(s, i as int);
            lemma_line_end_from_bounds(s, nth_line_start(s, i as int));
        }
        let e: usize = if i + 1 < cnt {
            starts[i + 1] - 1
        } else {
            n
        };
        let line_str = content.substring_char(st, e);
        let line_lower = lowercase(line_str);
        let hay = chars_of(line_lower.as_str());
        if contains_sub(&hay, &needle) {
            let ghost prev = out@;
            out.push(SearchMatch { line_number: i + 1, line_content: line_str.to_owned() });
            proof {
                assert(out@.drop_last() =~= prev);
                assert(match_view(out@.last()) == (i + 1, line_text(s, i as int)));
                assert(match_views(out@) =~= match_views(prev).push((i + 1, line_text(s, i as int))));
            }
        }
        i = i + 1;
    }
    proof {
        assert(match_views(out@) + matching_lines_from(s, query@, cnt as int) =~= match_views(out@));
    }
    out
}

// ------------------------------------------------------------------
// Fuzzy file finding over an indexed file list.
// ------------------------------------------------------------------

/// What `SkimMatcherV2::fuzzy_match` (with the default configuration)
/// returns for a candidate and a pattern: a score when the pattern
/// fuzzy-matches the candidate.  The scoring algorithm is far too large
/// to write out, so the result is only given this name.
pub uninterp spec fn skim_of(choice: Seq<char>, pattern: Seq<char>) -> Option<i64>;

/// Relies on fuzzy_matcher's `SkimMatcherV2::fuzzy_match` under the
/// default configuration: the score depends on the candidate and the
/// pattern alone.
#[verifier::external_body]
fn skim_score(choice: &str, pattern: &str) -> (r: Option<i64>)
    ensures
        r == skim_of(choice@, pattern@),
{
    fuzzy_matcher::skim::SkimMatcherV2::default().fuzzy_match(choice, pattern)
}

/// A scored file entry as the contracts see it: score, display name,
/// path.
pub open spec fn entry_view(e: (i64, String, String)) -> (int, Seq<char>, Seq<char>) {
    (e.0 as int, e.1@, e.2@)
}

/// A list of scored entries as the contracts see it.
pub open spec fn entry_views(s: Seq<(i64, String, String)>) -> Seq<(int, Seq<char>, Seq<char>)>
    decreases s.len(),
{
    if s.len() == 0 {
        Seq::empty()
    } else {
        entry_views(s.drop_last()).push(entry_view(s.last()))
    }
}

/// The entries of the file list that the pattern fuzzy-matches, each
/// with its score, in list order.
pub open spec fn scored_views(files: Seq<(String, String)>, q: Seq<char>) -> Seq<
    (int, Seq<char>, Seq<char>),
>
    decreases files.len(),
{
    if files.len() == 0 {
        Seq::empty()
    } else {
        scored_views(files.drop_last(), q) + match skim_of(files.last().0@, q) {
            Some(sc) => seq![(sc as int, files.last().0@, files.last().1@)],
            None => Seq::empty(),
        }
    }
}

/// Scores never go up along the list.
pub open spec fn sorted_desc(s: Seq<(int, Seq<char>, Seq<char>)>) -> bool {
    forall|i: int, j: int| 0 <= i < j < s.len() ==> s[i].0 >= s[j].0
}

proof fn lemma_entry_views_index(s: Seq<(i64, String, String)>, k: int)
    requires
        0 <= k < s.len(),
    ensures
        entry_views(s).len() == s.len(),
        entry_views(s)[k] == entry_view(s[k]),
    decreases s.len(),
{
    lemma_entry_views_len(s);
    if k < s.len() - 1 {
        lemma_entry_views_index(s.drop_last(), k);
    }
}

proof fn lemma_entry_views_len(s: Seq<(i64, String, String)>)
    ensures
        entry_views(s).len() == s.len(),
    decreases s.len(),
{
    if s.len() > 0 {
        lemma_entry_views_len(s.drop_last());
    }
}

/// Dropping entry `k` of the list drops entry `k` of its view.
proof fn lemma_entry_views_remove(s: Seq<(i64, String, String)>, k: int)
    requires
        0 <= k < s.len(),
    ensures
        entry_views(s.remove(k)) == entry_views(s).remove(k),
    decreases s.len(),
{
    lemma_entry_views_len(s);
    lemma_entry_views_index(s, k);
    if k == s.len() - 1 {
        assert(s.remove(k) =~= s.drop_last());
        assert(entry_views(s).remove(k) =~= entry_views(s.drop_last()));
    } else {
        assert(s.remove(k).drop_last() =~= s.drop_last().remove(k));
        assert(s.remove(k).last() == s.last());
        lemma_entry_views_remove(s.drop_last(), k);
        assert(entry_views(s.remove(k)) == entry_views(s.drop_last()).remove(k).push(
            entry_view(s.last()),
        ));
        assert(entry_views(s.drop_last()).remove(k).push(entry_view(s.last())) =~= entry_views(
            s,
        ).remove(k));
    }
}

/// Sort a scored list by score, highest first: the result holds the
/// same entries (as a multiset of views).
fn sort_by_score_desc(v: Vec<(i64, String, String)>) -> (r: Vec<(i64, String, String)>)
    ensures
        entry_views(r@).to_multiset() == entry_views(v@).to_multiset(),
        sorted_desc(entry_views(r@)),
        r@.len() == v@.len(),
{
    broadcast use vstd::seq_lib::group_to_multiset_ensures;

    let mut rest = v;
    let mut out: Vec<(i64, String, String)> = Vec::new();
    proof {
        lemma_entry_views_len(v@);
        assert(entry_views(out@) =~= Seq::<(int, Seq<char>, Seq<char>)>::empty());
        assert(entry_views(out@).to_multiset().add(entry_views(rest@).to_multiset()) =~= entry_views(
            v@,
        ).to_multiset());
    }
    while rest.len() > 0
        invariant
            entry_views(out@).to_multiset().add(entry_views(rest@).to_multiset()) == entry_views(
                v@,
            ).to_multiset(),
            sorted_desc(entry_views(out@)),
            forall|a: int, b: int|
                0 <= a < entry_views(out@).len() && 0 <= b < entry_views(rest@).len() ==> entry_views(
                    out@,
                )[a].0 >= entry_views(rest@)[b].0,
            out@.len() + rest@.len() == v@.len(),
        decreases rest@.len(),
    {
        let n = rest.len();
        proof {
            lemma_entry_views_len(rest@);
        }
        let mut m: usize = 0;
        let mut i: usize = 1;
        while i < n
            invariant
                m < i <= n == rest@.len(),
                forall|j: int| 0 <= j < i ==> rest@[m as int].0 >= rest@[j].0,
            decreases n - i,
        {
            if rest[i].0 > rest[m].0 {
                m = i;
            }
            i = i + 1;
        }
        let ghost prev_rest = rest@;
        let ghost prev_out = out@;
        let e = rest.remove(m);
        out.push(e);
        proof {
            broadcast use vstd::seq_lib::group_to_multiset_ensures;

            lemma_entry_views_len(prev_rest);
            lemma_entry_views_remove(prev_rest, m as int);
            lemma_entry_views_index(prev_rest, m as int);
            assert(out@.drop_last() =~= prev_out);
            assert(entry_views(out@) == entry_views(prev_out).push(entry_view(e)));
            assert(entry_views(prev_rest)[m as int] == entry_view(e));
            assert(entry_views(rest@) == entry_views(prev_rest).remove(m as int));
            assert(entry_views(prev_rest).remove(m as int).to_multiset() == entry_views(
                prev_rest,
            ).to_multiset().remove(entry_views(prev_rest)[m as int]));
            assert(entry_views(out@).to_multiset() == entry_views(prev_out).to_multiset().insert(
                entry_view(e),
            ));
            assert(entry_views(prev_rest).contains(entry_view(e)));
            assert(entry_views(prev_rest).to_multiset().count(entry_view(e)) >= 1);
            assert(entry_views(out@).to_multiset().add(entry_views(rest@).to_multiset())
                =~= entry_views(prev_out).to_multiset().add(entry_views(prev_rest).to_multiset()));
            // the picked entry is a maximum of the rest, so order is kept
            assert forall|a: int, b: int|
                0 <= a < entry_views(out@).len() && 0 <= b < entry_views(rest@).len() implies
                entry_views(out@)[a].0 >= entry_views(rest@)[b].0 by {
                lemma_entry_views_len(rest@);
                lemma_entry_views_len(out@);
                lemma_entry_views_index(out@, a);
                lemma_entry_views_index(rest@, b);
                lemma_entry_views_len(prev_out);
                if a < prev_out.len() {
                    lemma_entry_views_index(prev_out, a);
                }
                assert(rest@[b] == prev_rest.remove(m as int)[b]);
                if b < m {
                    assert(prev_rest.remove(m as int)[b] == prev_rest[b]);
                } else {
                    assert(prev_rest.remove(m as int)[b] == prev_rest[b + 1]);
                }
            }
            assert(sorted_desc(entry_views(out@))) by {
                lemma_entry_views_len(out@);
                assert forall|a: int, b: int|
                    0 <= a < b < entry_views(out@).len() implies entry_views(out@)[a].0
                    >= entry_views(out@)[b].0 by {
                    lemma_entry_views_index(out@, a);
                    lemma_entry_views_index(out@, b);
                    lemma_entry_views_len(prev_out);
                    if b < prev_out.len() {
                        lemma_entry_views_index(prev_out, a);
                        lemma_entry_views_index(prev_out, b);
                    } else {
                        if a < prev_out.len() {
                            lemma_entry_views_index(prev_out, a);
                            lemma_entry_views_index(prev_rest, m as int);
                        }
                    }
                }
            }
        }
    }
    proof {
        assert(entry_views(rest@) =~= Seq::<(int, Seq<char>, Seq<char>)>::empty());
        assert(entry_views(out@).to_multiset().add(entry_views(rest@).to_multiset()) =~= entry_views(
            out@,
        ).to_multiset());
        lemma_entry_views_len(out@);
    }
    out
}

/// Fuzzy-find over an indexed list of (display name, path) entries:
/// score each entry whose display name the query fuzzy-matches, order
/// them best first, and keep at most `max_results`.
pub fn fuzzy_find_files(query: &str, files: &Vec<(String, String)>, max_results: usize) -> (r: Vec<
    (i64, String, String),
>)
    ensures
        sorted_desc(entry_views(r@)),
        r@.len() == if scored_views(files@, query@).len() <= max_results {
            scored_views(files@, query@).len() as int
        } else {
            max_results as int
        },
        exists|full: Seq<(int, Seq<char>, Seq<char>)>|
            full.to_multiset() == scored_views(files@, query@).to_multiset() && sorted_desc(full)
                && #[trigger] full.take(r@.len() as int) == entry_views(r@),
{
    let mut scored: Vec<(i64, String, String)> = Vec::new();
    let n = files.len();
    let mut i: usize = 0;
    proof {
        assert(entry_views(scored@) =~= scored_views(files@.take(0), query@));
    }
    while i < n
        invariant
            i <= n == files@.len(),
            entry_views(scored@) == scored_views(files@.take(i as int), query@),
        decreases n - i,
    {
        proof {
            assert(files@.take(i + 1).drop_last() =~= files@.take(i as int));
            assert(files@.take(i + 1).last() == files@[i as int]);
        }
        let display = &files[i].0;
        match skim_score(display.as_str(), query) {
            Some(sc) => {
                let ghost prev = scored@;
                scored.push((sc, display.clone(), files[i].1.clone()));
                proof {
                    assert(scored@.drop_last() =~= prev);
                    assert(entry_views(scored@) == entry_views(prev).push(entry_view(scored@.last())));
                    assert(entry_views(scored@) =~= scored_views(files@.take(i + 1), query@));
                }
            },
            None => {
                proof {
                    assert(entry_views(scored@) =~= scored_views(files@.take(i + 1), query@));
                }
            },
        }
        i = i + 1;
    }
    proof {
        assert(files@.take(n as int) =~= files@);
    }
    proof {
        lemma_entry_views_len(scored@);
    }
    let mut sorted = sort_by_score_desc(scored);
    let ghost full = entry_views(sorted@);
    let keep: usize = if sorted.len() <= max_results {
        sorted.len()
    } else {
        max_results
    };
    proof {
        lemma_entry_views_len(sorted@);
    }
    let ghost pre = sorted@;
    sorted.truncate(keep);
    proof {
        assert(sorted@ =~= pre.take(keep as int));
        lemma_entry_views_take(pre, keep as int);
        assert(full.take(sorted@.len() as int) == entry_views(sorted@));
    }
    sorted
}

/// The view of a truncated list is the truncated view.
proof fn lemma_entry_views_take(s: Seq<(i64, String, String)>, k: int)
    requires
        0 <= k <= s.len(),
    ensures
        entry_views(s.take(k)) == entry_views(s).take(k),
    decreases s.len() - k,
{
    lemma_entry_views_len(s);
    if k == s.len() {
        assert(s.take(k) =~= s);
        assert(entry_views(s).take(k) =~= entry_views(s));
    } else {
        lemma_entry_views_take(s, k + 1);
        assert(s.take(k + 1).drop_last() =~= s.take(k));
        assert(s.take(k + 1).last() == s[k]);
        assert(entry_views(s.take(k + 1)).drop_last() =~= entry_views(s).take(k + 1).drop_last());
        assert(entry_views(s).take(k + 1).drop_last() =~= entry_views(s).take(k));
    }
}

} // verus!
