//! Laws of the command line, its suggestions and the search in tables.
use vstd::prelude::*;
use crate::command_mode::{
    accepted, activated, backspaced, can_submit, completed, completed_back, deactivated, empty_line,
    entered, goes_on, newer, next_selected, offered, older, prev_selected, remembered, submitted,
    suggested, suggestions_for, typed, unbrowsed, CommandModel, MAX_SUGGESTIONS,
};
use crate::filter::{best_score, cell_score, hits, row_score, FuzzyScore};
use crate::list::{lemma_positions, lemma_positions_contains, positions};
use crate::resource_registry::{entry_score, found, names_of, ranked, scored, ResourceEntry};
use crate::sort::{lemma_one_number_keys, lemma_sorted_contains, stably_sorted, SortKey};
use crate::text::{
    behind_bytes, char_bytes, has_prefix, has_substring, lower_ascii, lowercase, occurs_at,
    text_bytes,
};

verus! {

// ---------------------------------------------------------------------------
// Scores
// ---------------------------------------------------------------------------

/// A cell scores a hundred if it is the query, eighty if it begins with it, fifty
/// if it holds it elsewhere, and nothing otherwise.
pub proof fn law_cell_scores(cell: Seq<char>, query: Seq<char>)
    ensures
        cell_score(cell, query) == 100 <==> cell == query,
        cell_score(cell, query) == 80 <==> cell != query && has_prefix(cell, query),
        cell_score(cell, query) == 50 <==> !has_prefix(cell, query) && cell != query
            && has_substring(cell, query),
        cell_score(cell, query) > 0 <==> has_substring(cell, query),
        cell_score(cell, query) >= 0,
{
    if cell == query {
        assert(cell.subrange(0, query.len() as int) =~= query);
        assert(occurs_at(cell, query, 0));
    } else if has_prefix(cell, query) {
        assert(occurs_at(cell, query, 0));
    }
}

/// The first cells of a row score what the best of them does.
proof fn lemma_best_score(row: Seq<String>, n: int, query: Seq<char>)
    requires
        0 <= n <= row.len(),
    ensures
        forall|i: int|
            0 <= i < n ==> cell_score(lower_ascii((#[trigger] row[i])@), query) <= best_score(
                row,
                n,
                query,
            ),
        best_score(row, n, query) > 0 ==> exists|i: int|
            0 <= i < n && cell_score(lower_ascii((#[trigger] row[i])@), query) == best_score(
                row,
                n,
                query,
            ),
        best_score(row, n, query) >= 0,
    decreases n,
{
    if n > 0 {
        lemma_best_score(row, n - 1, query);
        law_cell_scores(lower_ascii(row[n - 1]@), query);
        if best_score(row, n, query) > best_score(row, n - 1, query) {
            assert(cell_score(lower_ascii(row[n - 1]@), query) == best_score(row, n, query));
        } else if best_score(row, n, query) > 0 {
            let i = choose|i: int|
                0 <= i < n - 1 && cell_score(lower_ascii((#[trigger] row[i])@), query)
                    == best_score(row, n - 1, query);
            assert(cell_score(lower_ascii(row[i]@), query) == best_score(row, n, query));
        }
    }
}

/// A row scores what the best of its cells does, without regard to case.
pub proof fn law_row_scores_its_best_cell(row: Seq<String>, query: Seq<char>, i: int)
    ensures
        0 <= i < row.len() ==> row_score(row, query) >= cell_score(lower_ascii(row[i]@), query),
        row_score(row, query) > 0 <==> exists|k: int|
            0 <= k < row.len() && has_substring(lower_ascii((#[trigger] row[k])@), query),
        row_score(row, query) == 100 <==> exists|k: int|
            0 <= k < row.len() && lower_ascii((#[trigger] row[k])@) == query,
{
    lemma_best_score(row, row.len() as int, query);
    if row_score(row, query) > 0 {
        let k = choose|k: int|
            0 <= k < row.len() && cell_score(lower_ascii((#[trigger] row[k])@), query)
                == row_score(row, query);
        law_cell_scores(lower_ascii(row[k]@), query);
        assert(has_substring(lower_ascii(row[k]@), query));
    }
    if exists|k: int|
        0 <= k < row.len() && has_substring(lower_ascii((#[trigger] row[k])@), query) {
        let k = choose|k: int|
            0 <= k < row.len() && has_substring(lower_ascii((#[trigger] row[k])@), query);
        law_cell_scores(lower_ascii(row[k]@), query);
    }
    if exists|k: int| 0 <= k < row.len() && lower_ascii((#[trigger] row[k])@) == query {
        let k = choose|k: int| 0 <= k < row.len() && lower_ascii((#[trigger] row[k])@) == query;
        law_cell_scores(lower_ascii(row[k]@), query);
        let b = choose|b: int|
            0 <= b < row.len() && cell_score(lower_ascii((#[trigger] row[b])@), query)
                == row_score(row, query);
        law_cell_scores(lower_ascii(row[b]@), query);
    }
}

/// A row is among the hits exactly if a cell of it holds the query, and with the
/// score of its best cell.
pub proof fn law_hits_are_rows_with_the_query(rows: Seq<Vec<String>>, query: Seq<char>, i: int)
    requires
        rows.len() <= usize::MAX,
        0 <= i < rows.len(),
    ensures
        (exists|k: int|
            0 <= k < rows[i]@.len() && has_substring(
                lower_ascii((#[trigger] rows[i]@[k])@),
                query,
            )) <==> exists|h: int|
            0 <= h < hits(rows, query).len() && (#[trigger] hits(rows, query)[h]).0 == i,
        forall|h: int|
            0 <= h < hits(rows, query).len() && (#[trigger] hits(rows, query)[h]).0 == i ==> hits(
                rows,
                query,
            )[h].1.score == row_score(rows[i]@, query) as i32,
{
    law_row_scores_its_best_cell(rows[i]@, query, 0);
    let keep = crate::filter::row_hits(query);
    let at = positions(rows, keep);
    lemma_positions_contains(rows, keep, i);
    lemma_positions(rows, keep);
    assert(hits(rows, query).len() == at.len());
    if at.contains(i) {
        let h = choose|h: int| 0 <= h < at.len() && at[h] == i;
        assert(hits(rows, query)[h].0 == i);
    }
    assert forall|h: int|
        0 <= h < hits(rows, query).len() && (#[trigger] hits(rows, query)[h]).0 == i implies hits(
        rows,
        query,
    )[h].1.score == row_score(rows[i]@, query) as i32 && at.contains(i) by {
        assert(at[h] < rows.len());
        assert(at[h] == i);
    }
}

/// Ranking keeps the hits: as many, and the same.
pub proof fn law_ranking_keeps_the_hits(
    rows: Seq<Vec<String>>,
    query: Seq<char>,
    sorted: Seq<(usize, FuzzyScore)>,
    hit: (usize, FuzzyScore),
)
    requires
        stably_sorted(hits(rows, query), sorted),
    ensures
        sorted.len() == hits(rows, query).len(),
        sorted.contains(hit) <==> hits(rows, query).contains(hit),
        forall|i: int, j: int|
            0 <= i < j < sorted.len() ==> (#[trigger] sorted[i]).1.score >= (
            #[trigger] sorted[j]).1.score,
{
    lemma_sorted_contains(hits(rows, query), sorted, hit);
    assert forall|i: int, j: int| 0 <= i < j < sorted.len() implies (#[trigger] sorted[i]).1.score
        >= (#[trigger] sorted[j]).1.score by {
        assert(!crate::sort::key_less(sorted[j].sort_key(), sorted[i].sort_key()));
        lemma_one_number_keys(sorted[j].sort_key(), sorted[i].sort_key());
    }
}

// ---------------------------------------------------------------------------
// Suggestions
// ---------------------------------------------------------------------------

/// A resource matches by its plural, its singular or a short name, without regard
/// to case: best where one of them is what is typed.
pub proof fn law_resources_match_by_any_name(e: ResourceEntry, query: Seq<char>)
    ensures
        entry_score(e, query) == 100 <==> lower_ascii(e.resource@) == query || lower_ascii(
            e.singular_name@,
        ) == query || exists|k: int|
            0 <= k < e.short_names@.len() && lower_ascii((#[trigger] e.short_names@[k])@)
                == query,
        has_substring(lower_ascii(e.resource@), query) || has_substring(
            lower_ascii(e.singular_name@),
            query,
        ) ==> entry_score(e, query) > 0,
{
    let names = names_of(e);
    law_row_scores_its_best_cell(names, query, 0);
    assert(names[0] == e.resource && names[1] == e.singular_name);
    if entry_score(e, query) == 100 {
        let k = choose|k: int|
            0 <= k < names.len() && lower_ascii((#[trigger] names[k])@) == query;
        if k >= 2 {
            assert(names[k] == e.short_names@[k - 2]);
            assert(lower_ascii(e.short_names@[k - 2]@) == query);
        }
    }
    if exists|k: int|
        0 <= k < e.short_names@.len() && lower_ascii((#[trigger] e.short_names@[k])@) == query {
        let k = choose|k: int|
            0 <= k < e.short_names@.len() && lower_ascii((#[trigger] e.short_names@[k])@)
                == query;
        assert(names[k + 2] == e.short_names@[k]);
        assert(lower_ascii(names[k + 2]@) == query);
    }
}

/// Better matches are suggested before worse ones.
pub proof fn law_better_suggestions_first(
    entries: Seq<ResourceEntry>,
    query: Seq<char>,
    max: int,
    i: int,
    j: int,
)
    requires
        0 <= max,
        0 <= i < j < found(entries, query, max).len(),
    ensures
        found(entries, query, max)[i].score >= found(entries, query, max)[j].score,
        found(entries, query, max).len() <= max,
{
    let q = lower_ascii(query);
    let all = ranked(entries, q);
    let a = scored(entries, q, 100);
    let b = scored(entries, q, 80);
    let c = scored(entries, q, 50);
    assert(found(entries, query, max)[i] == all[i] && found(entries, query, max)[j] == all[j]);
    assert forall|k: int| 0 <= k < all.len() implies (#[trigger] all[k]).score == if k < a.len() {
        100int
    } else if k < a.len() + b.len() {
        80
    } else {
        50
    } by {
        if k < a.len() {
            assert(all[k] == a[k]);
        } else if k < a.len() + b.len() {
            assert(all[k] == b[k - a.len()]);
        } else {
            assert(all[k] == c[k - a.len() - b.len()]);
        }
    }
}

/// The suggestions for what is typed show the resources that match, by their
/// plural; nothing is suggested where nothing is typed.
pub proof fn law_suggestions_show_resources(entries: Seq<ResourceEntry>, lower: Seq<char>, i: int)
    ensures
        lower.len() == 0 ==> suggestions_for(entries, lower).len() == 0,
        0 <= i < suggestions_for(entries, lower).len() ==> {
            let s = suggestions_for(entries, lower)[i];
            let m = found(entries, lower, MAX_SUGGESTIONS as int)[i];
            &&& s.display == entries[m.entry_idx as int].resource@
            &&& s.score == m.score && s.entry_idx == m.entry_idx
            &&& s.namespaced == entries[m.entry_idx as int].namespaced
            &&& entries[m.entry_idx as int].api_group@.len() == 0 ==> s.api_group == "core"@
            &&& entries[m.entry_idx as int].api_group@.len() > 0 ==> s.api_group
                == entries[m.entry_idx as int].api_group@
            &&& entries[m.entry_idx as int].short_names@.len() == 0 ==> s.hint
                == entries[m.entry_idx as int].singular_name@
        },
        suggestions_for(entries, lower).len() <= 8,
{
    let all = suggestions_for(entries, lower);
    if 0 <= i < all.len() {
        let m = found(entries, lower, MAX_SUGGESTIONS as int)[i];
        assert(all[i] == crate::command_mode::suggestion_of(entries)(m));
    }
}

// ---------------------------------------------------------------------------
// The line
// ---------------------------------------------------------------------------

/// Typing lengthens the line by the character, and suggests for the new line.
pub proof fn law_typing_suggests(m: CommandModel, c: char, entries: Seq<ResourceEntry>)
    ensures
        ({
            let after = typed(m, c, entries);
            &&& after.input == m.input.push(c)
            &&& after.input_lower == lowercase(m.input.push(c))
            &&& after.suggestions == suggestions_for(entries, lowercase(m.input.push(c)))
            &&& after.history == m.history && after.active == m.active
        }),
{
}

/// Removing a character shortens the line by its last, and suggests for what is
/// left; with nothing left nothing is suggested or selected.
pub proof fn law_removing_suggests(m: CommandModel, entries: Seq<ResourceEntry>)
    ensures
        ({
            let after = backspaced(m, entries);
            &&& m.input.len() > 0 ==> after.input == m.input.drop_last()
            &&& m.input.len() == 0 ==> after.input.len() == 0
            &&& after.input.len() == 0 ==> after.suggestions.len() == 0 && after.selected is None
            &&& after.input.len() > 0 ==> after.suggestions == suggestions_for(
                entries,
                lowercase(after.input),
            )
            &&& after.history == m.history
        }),
{
}

/// Selecting goes down through the suggestions and stops at the last; it goes up and
/// past the first to none. The line stays.
pub proof fn law_selecting_goes_through_suggestions(m: CommandModel)
    requires
        m.suggestions.len() > 0,
        m.suggestions.len() <= usize::MAX,
    ensures
        next_selected(m).selected == match m.selected {
            None => Some(0usize),
            Some(i) => if i + 1 < m.suggestions.len() {
                Some((i + 1) as usize)
            } else {
                Some((m.suggestions.len() - 1) as usize)
            },
        },
        prev_selected(m).selected == match m.selected {
            None => None,
            Some(i) => if i > 0 {
                Some((i - 1) as usize)
            } else {
                None
            },
        },
        next_selected(m).input == m.input && prev_selected(m).input == m.input,
        next_selected(m).suggestions == m.suggestions && prev_selected(m).suggestions
            == m.suggestions,
{
}

/// The first completion fills the line with the best suggestion, or going back with
/// the last, and keeps what was typed; further ones go round. The suggestion that
/// fills the line is selected.
pub proof fn law_completion_goes_round(m: CommandModel)
    requires
        0 < m.suggestions.len() <= usize::MAX,
    ensures
        m.tab_prefix is None ==> {
            &&& completed(m).input == m.suggestions[0].display
            &&& completed(m).selected == Some(0usize)
            &&& completed(m).tab_prefix == Some(m.input)
            &&& completed_back(m).input == m.suggestions.last().display
            &&& completed_back(m).selected == Some((m.suggestions.len() - 1) as usize)
            &&& completed_back(m).tab_prefix == Some(m.input)
        },
        m.tab_prefix is Some && m.tab_index + 1 < m.suggestions.len() ==> completed(m).input
            == m.suggestions[m.tab_index + 1].display && completed(m).selected == Some(
            (m.tab_index + 1) as usize,
        ),
        m.tab_prefix is Some && m.tab_index + 1 == m.suggestions.len() ==> completed(m).input
            == m.suggestions[0].display && completed(m).selected == Some(0usize),
        m.tab_prefix is Some && 0 < m.tab_index < m.suggestions.len() ==> completed_back(m).input
            == m.suggestions[m.tab_index - 1].display,
        m.tab_prefix is Some && m.tab_index == 0 ==> completed_back(m).input
            == m.suggestions.last().display,
{
    let n = m.suggestions.len() as int;
    if m.tab_index + 1 < n {
        assert((m.tab_index + 1) % n == m.tab_index + 1) by (nonlinear_arith)
            requires
                0 <= m.tab_index + 1 < n,
        ;
    } else if m.tab_index + 1 == n {
        assert((m.tab_index + 1) % n == 0) by (nonlinear_arith)
            requires
                m.tab_index + 1 == n,
                n > 0,
        ;
    }
}

/// Without suggestions a completion changes nothing.
pub proof fn law_nothing_to_complete(m: CommandModel)
    requires
        m.suggestions.len() == 0,
        m.tab_prefix is None,
    ensures
        completed(m) == m,
        completed_back(m) == m,
{
}

/// Taking a suggestion over puts it into the line, and nothing is selected any
/// more; without a selection nothing changes.
pub proof fn law_taking_over_fills_the_line(m: CommandModel, entries: Seq<ResourceEntry>)
    ensures
        m.selected is Some && m.selected->0 < m.suggestions.len() ==> accepted(m, entries).input
            == m.suggestions[m.selected->0 as int].display && accepted(m, entries).selected is None
            && accepted(m, entries).submitted == m.submitted,
        m.selected is None ==> accepted(m, entries) == m,
{
}

/// Entering submits the selected suggestion, or else what is typed, closes and
/// empties the line; where there is neither, nothing is submitted.
pub proof fn law_entering_submits(m: CommandModel)
    ensures
        m.selected is Some && m.selected->0 < m.suggestions.len() ==> submitted(m).submitted
            == Some(m.suggestions[m.selected->0 as int].display),
        m.selected is None && m.input.len() > 0 ==> submitted(m).submitted == Some(m.input),
        m.selected is None && m.input.len() == 0 ==> submitted(m).submitted == m.submitted
            && submitted(m).history == m.history,
        !submitted(m).active && submitted(m).input.len() == 0 && submitted(m).suggestions.len()
            == 0,
        can_submit(m) <==> m.input.len() > 0 || m.selected is Some,
{
}

/// A command that is not the latest is added to the history; there are fifty at
/// most, and the oldest gives way.
pub proof fn law_history_keeps_fifty(history: Seq<Seq<char>>, command: Seq<char>)
    requires
        history.len() <= 50,
    ensures
        ({
            let after = remembered(history, command);
            &&& after.len() <= 50
            &&& after.len() > 0 && after.last() == command
            &&& history.len() > 0 && history.last() == command ==> after == history
            &&& (history.len() == 0 || history.last() != command) && history.len() < 50 ==> after
                == history.push(command)
            &&& (history.len() == 0 || history.last() != command) && history.len() == 50 ==> after
                == history.skip(1).push(command)
        }),
{
    let after = remembered(history, command);
    if (history.len() == 0 || history.last() != command) && history.len() == 50 {
        assert(after =~= history.skip(1).push(command));
    }
}

/// Going back shows the latest command first, then the ones before, and stays at
/// the first; what was typed is kept.
pub proof fn law_going_back_shows_earlier_commands(
    m: CommandModel,
    entries: Seq<ResourceEntry>,
)
    requires
        0 < m.history.len() <= usize::MAX,
    ensures
        m.history_cursor is None ==> older(m, entries).input == m.history.last() && older(
            m,
            entries,
        ).saved_input == m.input,
        m.history_cursor matches Some(i) ==> 0 < i < m.history.len() ==> older(m, entries).input
            == m.history[i - 1],
        m.history_cursor == Some(0usize) ==> older(m, entries).input == m.input && older(
            m,
            entries,
        ).history_cursor == Some(0usize),
        m.history_cursor matches Some(i) ==> i + 1 < m.history.len() ==> newer(m, entries).input
            == m.history[i + 1],
        m.history_cursor matches Some(i) ==> i + 1 == m.history.len() ==> newer(m, entries).input
            == m.saved_input && newer(m, entries).history_cursor is None,
        m.history_cursor is None ==> newer(m, entries).input == m.input,
        older(m, entries).history == m.history && newer(m, entries).history == m.history,
{
}

/// The line opens empty and without a command from before; it closes empty, and a
/// command that was entered stays until it is taken.
pub proof fn law_line_opens_empty(m: CommandModel)
    ensures
        activated(m).active && activated(m).input.len() == 0 && activated(m).suggestions.len()
            == 0 && activated(m).selected is None && activated(m).submitted is None
            && activated(m).history == m.history && activated(m).history_cursor is None,
        !deactivated(m).active && deactivated(m).input.len() == 0 && deactivated(
            m,
        ).suggestions.len() == 0 && deactivated(m).submitted == m.submitted && deactivated(
            m,
        ).history == m.history,
        unbrowsed(m).history_cursor is None && unbrowsed(m).input == m.input,
{
}

/// What is offered behind the cursor is what the best suggestion has beyond as many
/// bytes as are typed; it is offered only where the suggestion goes on from what is
/// typed, and nothing is selected or being completed.
pub proof fn law_offer_goes_on_from_the_line(m: CommandModel)
    ensures
        goes_on(m, lowercase(m.suggestions[0].display)) ==> m.tab_prefix is None
            && m.selected is None && m.input.len() > 0 && m.suggestions.len() > 0 && has_prefix(
            lowercase(m.suggestions[0].display),
            m.input_lower,
        ) && lowercase(m.suggestions[0].display) != m.input_lower,
        offered(m) matches Some(rest) ==> exists|head: Seq<char>|
            #[trigger] text_bytes(head) == text_bytes(m.input) && m.suggestions[0].display == head
                + rest,
{
    if let Some(rest) = offered(m) {
        lemma_behind_bytes(m.suggestions[0].display, text_bytes(m.input));
    }
}

proof fn lemma_behind_bytes(s: Seq<char>, n: nat)
    ensures
        behind_bytes(s, n) matches Some(rest) ==> exists|head: Seq<char>|
            #[trigger] text_bytes(head) == n && s == head + rest,
    decreases s.len(),
{
    if let Some(rest) = behind_bytes(s, n) {
        if n == 0 {
            let head = Seq::<char>::empty();
            assert(text_bytes(head) == 0);
            assert(s =~= head + rest);
        } else {
            let m = (n - char_bytes(s[0])) as nat;
            lemma_behind_bytes(s.drop_first(), m);
            let tail = choose|tail: Seq<char>|
                #[trigger] text_bytes(tail) == m && s.drop_first() == tail + rest;
            let head = seq![s[0]] + tail;
            crate::text::lemma_text_bytes_add(seq![s[0]], tail);
            assert(seq![s[0]].drop_last() =~= Seq::<char>::empty());
            assert(text_bytes(Seq::<char>::empty()) == 0);
            assert(text_bytes(head) == n);
            assert(s =~= seq![s[0]] + s.drop_first());
            assert(head + rest =~= seq![s[0]] + (tail + rest));
        }
    }
}

/// A new command line is closed and empty, and knows of no command.
pub proof fn law_new_line_is_empty()
    ensures
        !empty_line().active,
        empty_line().input.len() == 0 && empty_line().suggestions.len() == 0,
        empty_line().selected is None && empty_line().submitted is None,
        empty_line().history.len() == 0 && empty_line().history_cursor is None,
        empty_line().tab_prefix is None,
{
}

} // verus!
