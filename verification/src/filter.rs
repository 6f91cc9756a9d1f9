//! Ranking table rows by how well they match a query, and finding what to
//! highlight.
use vstd::prelude::*;
use crate::dynamic_resource::lower_text;
use crate::list::{lemma_positions, lemma_positions_step, lemma_take_all, positions};
use crate::sort::{key_less, stable_sort, stably_sorted, SortKey};
use crate::text::{
    bytes_of_char, char_bytes, chars_contain, chars_of, has_prefix, has_substring,
    lemma_text_bytes_add, lower_ascii, lower_char, matches_at, occurs_at, same, text_bytes,
};

verus! {

broadcast use lemma_take_all;

// ---------------------------------------------------------------------------
// Ranking
// ---------------------------------------------------------------------------

/// How well a row matches a query.
#[derive(Debug, Clone, Copy)]
pub struct FuzzyScore {
    pub score: i32,
    /// Whether some cell begins with the query.
    pub is_exact: bool,
}

/// How well a cell matches a query: 100 where they are the same, 80 where the
/// cell begins with the query, 50 where it holds it elsewhere, else 0.
pub open spec fn cell_score(cell: Seq<char>, query: Seq<char>) -> int {
    if cell == query {
        100
    } else if has_prefix(cell, query) {
        80
    } else if has_substring(cell, query) {
        50
    } else {
        0
    }
}

/// The best score of the first cells of a row, all in lower case.
pub open spec fn best_score(row: Seq<String>, n: int, query: Seq<char>) -> int
    decreases n,
{
    if n <= 0 {
        0
    } else {
        let rest = best_score(row, n - 1, query);
        let score = cell_score(lower_ascii(row[n - 1]@), query);
        if score > rest {
            score
        } else {
            rest
        }
    }
}

/// How well a row matches a query in lower case.
pub open spec fn row_score(row: Seq<String>, query: Seq<char>) -> int {
    best_score(row, row.len() as int, query)
}

/// The test whether a row matches a query at all.
pub open spec fn row_hits(query: Seq<char>) -> spec_fn(Vec<String>) -> bool {
    |row: Vec<String>| row_score(row@, query) > 0
}

/// The score of a row.
pub open spec fn score_of(row: Seq<String>, query: Seq<char>) -> FuzzyScore {
    FuzzyScore {
        score: row_score(row, query) as i32,
        is_exact: row_score(row, query) >= 80,
    }
}

/// The rows that match a query, with their scores, in the order of the table.
pub open spec fn hits(rows: Seq<Vec<String>>, query: Seq<char>) -> Seq<(usize, FuzzyScore)> {
    positions(rows, row_hits(query)).map_values(
        |i: int| (i as usize, score_of(rows[i]@, query)),
    )
}

/// Hits go by their score, the best first.
impl SortKey for (usize, FuzzyScore) {
    open spec fn sort_key(&self) -> Seq<int> {
        seq![-(self.1.score as int)]
    }

    fn precedes(&self, other: &Self) -> (r: bool) {
        proof {
            let a = self.sort_key();
            let b = other.sort_key();
            assert(a.skip(1) =~= Seq::empty());
            assert(b.skip(1) =~= Seq::empty());
            reveal_with_fuel(key_less, 2);
        }
        self.1.score > other.1.score
    }
}

/// The best score is that of no match or of one of the three kinds of match.
pub proof fn lemma_best_score(row: Seq<String>, n: int, query: Seq<char>)
    ensures
        ({
            let best = best_score(row, n, query);
            best == 0 || best == 50 || best == 80 || best == 100
        }),
    decreases n,
{
    if n > 0 {
        lemma_best_score(row, n - 1, query);
    }
}

/// The score of a cell in lower case.
fn score_cell(cell: &str, query: &str) -> (r: i32)
    ensures
        r == cell_score(cell@, query@),
{
    let hay = chars_of(cell);
    let needle = chars_of(query);
    if same(cell, query) {
        100
    } else if matches_at(&hay, &needle, 0) {
        80
    } else if chars_contain(&hay, &needle) {
        50
    } else {
        0
    }
}

/// The best score of a row's cells.
pub(crate) fn score_row(row: &Vec<String>, query: &str) -> (r: i32)
    ensures
        r == row_score(row@, query@),
        0 <= r <= 100,
{
    let mut best: i32 = 0;
    let mut i: usize = 0;
    while i < row.len()
        invariant
            i <= row@.len(),
            0 <= best <= 100,
            best == best_score(row@, i as int, query@),
        decreases row@.len() - i,
    {
        let score: i32 = score_cell(lower_text(row[i].as_str()).as_str(), query);
        if score > best {
            best = score;
        }
        i += 1;
    }
    best
}

/// The rows that match a query without regard to ASCII case, each with its
/// position and score, the best first; rows with the same score keep their
/// order. An empty query matches no row.
pub fn filter_and_rank(rows: &[Vec<String>], query: &str) -> (r: Vec<(usize, FuzzyScore)>)
    ensures
        query@.len() == 0 ==> r@.len() == 0,
        query@.len() > 0 ==> stably_sorted(hits(rows@, lower_ascii(query@)), r@),
{
    let mut results: Vec<(usize, FuzzyScore)> = Vec::new();
    if query.is_empty() {
        return results;
    }
    let wanted = lower_text(query);
    let ghost q = lower_ascii(query@);
    let mut i: usize = 0;
    proof {
        assert(results@ =~= hits(rows@.take(0), q));
    }
    while i < rows.len()
        invariant
            i <= rows@.len(),
            wanted@ == q,
            results@ == hits(rows@.take(i as int), q),
        decreases rows@.len() - i,
    {
        let ghost before = results@;
        let score: i32 = score_row(&rows[i], wanted.as_str());
        proof {
            lemma_positions_step(rows@, i as int, row_hits(q));
            lemma_positions(rows@.take(i as int), row_hits(q));
            let ps = positions(rows@.take(i as int), row_hits(q));
            let shown = |k: int| (k as usize, score_of(rows@.take(i as int)[k]@, q));
            let shown_next = |k: int| (k as usize, score_of(rows@.take(i + 1)[k]@, q));
            assert(ps.map_values(shown) =~= ps.map_values(shown_next)) by {
                assert forall|k: int| 0 <= k < ps.len() implies shown(#[trigger] ps[k])
                    == shown_next(ps[k]) by {
                    assert(rows@.take(i as int)[ps[k]] == rows@.take(i + 1)[ps[k]]);
                }
            }
            assert(ps.push(i as int).map_values(shown_next) =~= ps.map_values(shown_next).push(
                shown_next(i as int),
            ));
            assert(rows@.take(i + 1)[i as int] == rows@[i as int]);
        }
        if score > 0 {
            results.push((i, FuzzyScore { score, is_exact: score >= 80 }));
        }
        proof {
            assert(results@ =~= hits(rows@.take(i + 1), q));
        }
        i += 1;
    }
    stable_sort(&mut results);
    results
}

/// A row of a higher score comes before every row of a lower one.
pub proof fn law_better_matches_first(
    rows: Seq<Vec<String>>,
    query: Seq<char>,
    ranked: Seq<(usize, FuzzyScore)>,
    i: int,
    j: int,
)
    requires
        stably_sorted(hits(rows, query), ranked),
        0 <= i < ranked.len(),
        0 <= j < ranked.len(),
        ranked[i].1.score > ranked[j].1.score,
    ensures
        i < j,
{
    if j < i {
        let a = ranked[i].sort_key();
        let b = ranked[j].sort_key();
        assert(key_less(a, b)) by {
            reveal_with_fuel(key_less, 2);
        }
    }
}

// ---------------------------------------------------------------------------
// Highlighting
// ---------------------------------------------------------------------------

/// Where a text that follows `at` bytes holds a query: the bytes from which and
/// to which each occurrence stands, each behind the one before it.
pub open spec fn match_ranges(s: Seq<char>, query: Seq<char>, at: nat) -> Seq<(int, int)>
    decreases s.len(),
{
    if query.len() == 0 || s.len() < query.len() {
        Seq::empty()
    } else if occurs_at(s, query, 0) {
        seq![(at as int, (at + text_bytes(query)) as int)] + match_ranges(
            s.skip(query.len() as int),
            query,
            at + text_bytes(query),
        )
    } else {
        match_ranges(s.skip(1), query, at + char_bytes(s[0]))
    }
}

/// Lowering keeps the number of bytes.
proof fn lemma_lower_bytes(s: Seq<char>)
    ensures
        text_bytes(lower_ascii(s)) == text_bytes(s),
    decreases s.len(),
{
    if s.len() > 0 {
        lemma_lower_bytes(s.drop_last());
        assert(lower_ascii(s).drop_last() =~= lower_ascii(s.drop_last()));
        assert(lower_ascii(s).last() == lower_char(s.last()));
    }
}

/// The pairs of positions as integers.
pub open spec fn ranges_view(s: Seq<(usize, usize)>) -> Seq<(int, int)> {
    s.map_values(|p: (usize, usize)| (p.0 as int, p.1 as int))
}

/// Counts the bytes of a query that is no longer than a text that fits.
fn bytes_of(v: &Vec<char>) -> (r: usize)
    requires
        text_bytes(v@) <= usize::MAX,
    ensures
        r == text_bytes(v@),
{
    let mut n: usize = 0;
    let mut i: usize = 0;
    while i < v.len()
        invariant
            i <= v@.len(),
            text_bytes(v@) <= usize::MAX,
            n == text_bytes(v@.take(i as int)),
        decreases v@.len() - i,
    {
        proof {
            assert(v@.take(i + 1).drop_last() =~= v@.take(i as int));
            assert(v@ =~= v@.take(i + 1) + v@.skip(i + 1));
            lemma_text_bytes_add(v@.take(i + 1), v@.skip(i + 1));
        }
        n = n + bytes_of_char(v[i]);
        i += 1;
    }
    n
}

/// The byte ranges in which a text holds a query, without regard to ASCII case.
/// An empty query is found nowhere.
pub fn find_match_ranges(text: &str, query: &str) -> (r: Vec<(usize, usize)>)
    requires
        text_bytes(text@) <= usize::MAX,
        text_bytes(query@) <= usize::MAX,
    ensures
        ranges_view(r@) == match_ranges(lower_ascii(text@), lower_ascii(query@), 0),
{
    let hay = chars_of(lower_text(text).as_str());
    let needle = chars_of(lower_text(query).as_str());
    let mut out: Vec<(usize, usize)> = Vec::new();
    proof {
        lemma_lower_bytes(text@);
        lemma_lower_bytes(query@);
        assert(ranges_view(out@) =~= Seq::empty());
    }
    if needle.len() == 0 {
        return out;
    }
    let width: usize = bytes_of(&needle);
    let size: usize = hay.len();
    let mut i: usize = 0;
    let mut at: usize = 0;
    proof {
        assert(hay@.skip(0) =~= hay@);
        assert(ranges_view(out@) + match_ranges(hay@, needle@, 0) =~= match_ranges(
            hay@,
            needle@,
            0,
        ));
    }
    while i < size
        invariant
            i <= size == hay@.len(),
            needle@.len() > 0,
            width == text_bytes(needle@),
            text_bytes(hay@) <= usize::MAX,
            at == text_bytes(hay@.take(i as int)),
            ranges_view(out@) + match_ranges(hay@.skip(i as int), needle@, at as nat)
                == match_ranges(hay@, needle@, 0),
        decreases size - i,
    {
        let ghost rest = hay@.skip(i as int);
        let ghost before = ranges_view(out@);
        if matches_at(&hay, &needle, i) {
            proof {
                let n = needle@.len() as int;
                assert(occurs_at(rest, needle@, 0)) by {
                    assert(rest.subrange(0, n) =~= hay@.subrange(i as int, i + n));
                }
                assert(hay@.subrange(i as int, i + n) =~= needle@);
                assert(hay@.take(i + n) =~= hay@.take(i as int) + needle@);
                lemma_text_bytes_add(hay@.take(i as int), needle@);
                assert(hay@ =~= hay@.take(i + n) + hay@.skip(i + n));
                lemma_text_bytes_add(hay@.take(i + n), hay@.skip(i + n));
                assert(rest.skip(n) =~= hay@.skip(i + n));
            }
            let end: usize = at + width;
            out.push((at, end));
            proof {
                let n = needle@.len() as int;
                let tail = match_ranges(hay@.skip(i + n), needle@, end as nat);
                assert(ranges_view(out@) =~= before.push((at as int, end as int)));
                assert(ranges_view(out@) + tail =~= before + (seq![(at as int, end as int)]
                    + tail));
            }
            i = i + needle.len();
            at = end;
        } else {
            proof {
                if rest.len() >= needle@.len() {
                    assert(!occurs_at(rest, needle@, 0)) by {
                        let n = needle@.len() as int;
                        if occurs_at(rest, needle@, 0) {
                            assert(rest.subrange(0, n) =~= hay@.subrange(i as int, i + n));
                        }
                    }
                }
                assert(hay@.take(i + 1).drop_last() =~= hay@.take(i as int));
                assert(hay@ =~= hay@.take(i + 1) + hay@.skip(i + 1));
                lemma_text_bytes_add(hay@.take(i + 1), hay@.skip(i + 1));
                assert(rest.skip(1) =~= hay@.skip(i + 1));
                if rest.len() < needle@.len() {
                    assert(match_ranges(rest.skip(1), needle@, at as nat + char_bytes(rest[0]))
                        =~= Seq::empty());
                }
            }
            at = at + bytes_of_char(hay[i]);
            i += 1;
        }
    }
    proof {
        assert(match_ranges(hay@.skip(i as int), needle@, at as nat) =~= Seq::empty());
        assert(ranges_view(out@) + Seq::<(int, int)>::empty() =~= ranges_view(out@));
    }
    out
}

/// What is highlighted lies within the text, is as long as the query, and no
/// two places overlap; they stand in ascending order.
pub proof fn law_ranges_are_disjoint(s: Seq<char>, query: Seq<char>, at: nat)
    ensures
        ({
            let ranges = match_ranges(s, query, at);
            &&& forall|k: int|
                0 <= k < ranges.len() ==> at <= (#[trigger] ranges[k]).0 && ranges[k].1 <= at
                    + text_bytes(s)
            &&& forall|k: int|
                0 <= k < ranges.len() ==> (#[trigger] ranges[k]).1 == ranges[k].0 + text_bytes(
                    query,
                )
            &&& forall|k: int, l: int|
                0 <= k < l < ranges.len() ==> (#[trigger] ranges[k]).1 <= (#[trigger] ranges[l]).0
        }),
    decreases s.len(),
{
    let ranges = match_ranges(s, query, at);
    if query.len() == 0 || s.len() < query.len() {
    } else if occurs_at(s, query, 0) {
        let n = query.len() as int;
        let width = text_bytes(query);
        let tail = match_ranges(s.skip(n), query, at + width);
        law_ranges_are_disjoint(s.skip(n), query, at + width);
        assert(s.take(n) =~= query) by {
            assert(s.subrange(0, n) =~= s.take(n));
        }
        assert(s =~= query + s.skip(n));
        lemma_text_bytes_add(query, s.skip(n));
        assert forall|k: int| 0 <= k < ranges.len() implies at <= (#[trigger] ranges[k]).0
            && ranges[k].1 <= at + text_bytes(s) && ranges[k].1 == ranges[k].0 + width by {
            if k > 0 {
                assert(ranges[k] == tail[k - 1]);
            }
        }
        assert forall|k: int, l: int| 0 <= k < l < ranges.len() implies (#[trigger] ranges[k]).1
            <= (#[trigger] ranges[l]).0 by {
            assert(ranges[l] == tail[l - 1]);
            if k > 0 {
                assert(ranges[k] == tail[k - 1]);
            }
        }
    } else {
        law_ranges_are_disjoint(s.skip(1), query, at + char_bytes(s[0]));
        assert(s =~= s.take(1) + s.skip(1));
        lemma_text_bytes_add(s.take(1), s.skip(1));
        assert(text_bytes(s.take(1)) == char_bytes(s[0])) by {
            assert(s.take(1).drop_last() =~= Seq::empty());
            assert(text_bytes(Seq::empty()) == 0);
        }
        assert(ranges == match_ranges(s.skip(1), query, at + char_bytes(s[0])));
        assert(text_bytes(s) == char_bytes(s[0]) + text_bytes(s.skip(1)));
    }
}

/// Every occurrence of a query that is not empty is highlighted at least in part:
/// it overlaps a highlighted place.
pub proof fn law_every_occurrence_highlighted(s: Seq<char>, query: Seq<char>, at: nat, i: int)
    requires
        query.len() > 0,
        occurs_at(s, query, i),
    ensures
        ({
            let from = at + text_bytes(s.take(i));
            exists|k: int|
                0 <= k < match_ranges(s, query, at).len() && (#[trigger] match_ranges(
                    s,
                    query,
                    at,
                )[k]).0 < from + text_bytes(query) && from < match_ranges(s, query, at)[k].1
        }),
    decreases s.len(),
{
    let ranges = match_ranges(s, query, at);
    let n = query.len() as int;
    let width = text_bytes(query);
    let from = at + text_bytes(s.take(i));
    if occurs_at(s, query, 0) {
        assert(s.take(n) =~= query) by {
            assert(s.subrange(0, n) =~= s.take(n));
        }
        if i < n {
            assert(query =~= s.take(i) + query.skip(i));
            lemma_text_bytes_add(s.take(i), query.skip(i));
            lemma_some_bytes(query.skip(i));
            lemma_some_bytes(query);
            assert(ranges[0] == (at as int, (at + width) as int));
        } else {
            let rest = s.skip(n);
            assert(occurs_at(rest, query, i - n)) by {
                assert(rest.subrange(i - n, i) =~= s.subrange(i, i + n));
            }
            law_every_occurrence_highlighted(rest, query, at + width, i - n);
            assert(s.take(i) =~= query + rest.take(i - n));
            lemma_text_bytes_add(query, rest.take(i - n));
            let tail = match_ranges(rest, query, at + width);
            let k = choose|k: int|
                0 <= k < tail.len() && (#[trigger] tail[k]).0 < from + width && from < tail[k].1;
            assert(ranges[k + 1] == tail[k]);
        }
    } else {
        let rest = s.skip(1);
        assert(occurs_at(rest, query, i - 1)) by {
            assert(rest.subrange(i - 1, i - 1 + n) =~= s.subrange(i, i + n));
        }
        law_every_occurrence_highlighted(rest, query, at + char_bytes(s[0]), i - 1);
        assert(s.take(i) =~= s.take(1) + rest.take(i - 1));
        lemma_text_bytes_add(s.take(1), rest.take(i - 1));
        assert(text_bytes(s.take(1)) == char_bytes(s[0])) by {
            assert(s.take(1).drop_last() =~= Seq::empty());
            assert(text_bytes(Seq::empty()) == 0);
        }
    }
}

/// A text that is not empty has bytes.
proof fn lemma_some_bytes(s: Seq<char>)
    requires
        s.len() > 0,
    ensures
        text_bytes(s) > 0,
{
}

} // verus!
