//! Laws of the help: what it lists, and where it stands on the screen.
use vstd::prelude::*;
use crate::display::{blank_line, Area, SpanModel};
use crate::help_overlay::{
    category_section, entry_line, footer, header_line, help_frame, help_lines, left_count,
    mode_categories, single_column, two_columns, ActiveMode, CategoryModel, HelpOverlay,
};
use crate::keybinding_registry::{mode_keys, Category, Mode};

verus! {

/// Where each group stands in a column.
proof fn lemma_group_at(cats: Seq<CategoryModel>, i: int) -> (at: int)
    requires
        0 <= i < cats.len(),
    ensures
        0 <= at,
        at + 2 + cats[i].entries.len() <= single_column(cats).len(),
        single_column(cats)[at] == header_line(cats[i].label),
        forall|k: int|
            0 <= k < cats[i].entries.len() ==> #[trigger] single_column(cats)[at + 2 + k]
                == entry_line(cats[i].entries[k]),
    decreases cats.len(),
{
    let rest = cats.drop_last();
    let before = single_column(rest);
    let gap = if cats.len() > 1 {
        seq![blank_line()]
    } else {
        Seq::empty()
    };
    let own = category_section(cats.last());
    let all = single_column(cats);
    assert(all == before + gap + own);
    if i == cats.len() - 1 {
        let at = (before.len() + gap.len()) as int;
        assert(all[at] == own[0]);
        assert forall|k: int| 0 <= k < cats[i].entries.len() implies #[trigger] all[at + 2 + k]
            == entry_line(cats[i].entries[k]) by {
            assert(all[at + 2 + k] == own[2 + k]);
        }
        at
    } else {
        let at = lemma_group_at(rest, i);
        assert(all[at] == before[at]);
        assert forall|k: int| 0 <= k < cats[i].entries.len() implies #[trigger] all[at + 2 + k]
            == entry_line(cats[i].entries[k]) by {
            assert(all[at + 2 + k] == before[at + 2 + k]);
        }
        at
    }
}

/// Every group stands in the column under its heading, and below it each of its keys
/// with what the key does.
pub proof fn law_column_shows_each_group(cats: Seq<CategoryModel>, i: int, k: int)
    requires
        0 <= i < cats.len(),
    ensures
        exists|at: int|
            0 <= at < single_column(cats).len() && (#[trigger] single_column(cats)[at]).len() == 1
                && single_column(cats)[at][0].content == " "@ + cats[i].label + " "@,
        0 <= k < cats[i].entries.len() ==> exists|at: int|
            0 <= at < single_column(cats).len() && shows_key(
                #[trigger] single_column(cats)[at],
                cats[i].entries[k],
            ),
{
    let at = lemma_group_at(cats, i);
    assert(single_column(cats)[at][0].content == " "@ + cats[i].label + " "@);
    if 0 <= k < cats[i].entries.len() {
        let e = cats[i].entries[k];
        assert(single_column(cats)[at + 2 + k] == entry_line(e));
        let line = entry_line(e);
        reveal_strlit("  ");
        assert(line[0].content.subrange(2, 2int + e.0.len()) =~= e.0);
        assert(shows_key(single_column(cats)[at + 2 + k], e));
    }
}

/// Whether a line shows a key and what it does: the key two blanks in, and the rest
/// behind it.
pub open spec fn shows_key(line: Seq<SpanModel>, e: (Seq<char>, Seq<char>)) -> bool {
    &&& line.len() == 2
    &&& line[0].content.len() >= 2 + e.0.len()
    &&& line[0].content.subrange(2, 2int + e.0.len()) == e.0
    &&& line[1].content == e.1
}

/// The help shows each key of its mode.
pub proof fn law_help_shows_each_key(mode: ActiveMode, filtered: bool, i: int, k: int)
    requires
        0 <= i < mode_categories(mode).len(),
        0 <= k < mode_categories(mode)[i].entries.len(),
    ensures
        exists|at: int|
            0 <= at < help_lines(mode, filtered).len() && shows_key(
                #[trigger] help_lines(mode, filtered)[at],
                mode_categories(mode)[i].entries[k],
            ),
{
    let cats = mode_categories(mode);
    law_column_shows_each_group(cats, i, k);
    let at = choose|at: int|
        0 <= at < single_column(cats).len() && shows_key(
            #[trigger] single_column(cats)[at],
            cats[i].entries[k],
        );
    assert(help_lines(mode, filtered)[at] == single_column(cats)[at]);
}

/// In two columns each line begins with that of the left column and ends with that
/// of the right; between them they hold all groups, in order.
pub proof fn law_two_columns_hold_both(cats: Seq<CategoryModel>, width: nat, row: int)
    requires
        cats.len() > 0,
        0 <= left_count(cats) <= cats.len(),
    ensures
        ({
            let left = single_column(cats.take(left_count(cats)));
            let right = single_column(cats.skip(left_count(cats)));
            let all = two_columns(cats, width);
            &&& left.len() <= all.len() && right.len() <= all.len()
            &&& all.len() == left.len() || all.len() == right.len()
            &&& 0 <= row < left.len() ==> all[row].len() >= left[row].len() && all[row].take(
                left[row].len() as int,
            ) == left[row]
            &&& 0 <= row < right.len() ==> all[row].len() >= right[row].len() && all[row].skip(
                all[row].len() - right[row].len(),
            ) == right[row]
            &&& cats.take(left_count(cats)) + cats.skip(left_count(cats)) == cats
        }),
{
    let left = single_column(cats.take(left_count(cats)));
    let right = single_column(cats.skip(left_count(cats)));
    let all = two_columns(cats, width);
    if 0 <= row < left.len() {
        assert(all[row].take(left[row].len() as int) =~= left[row]);
    }
    if 0 <= row < right.len() {
        assert(all[row].skip(all[row].len() - right[row].len()) =~= right[row]);
    }
    assert(cats.take(left_count(cats)) + cats.skip(left_count(cats)) =~= cats);
}

/// The help of a mode begins with the keys of that mode.
pub proof fn law_help_begins_with_its_mode(mode: ActiveMode)
    ensures
        mode is Search ==> mode_categories(mode)[0].label == "Search Mode"@,
        mode is CommandMode ==> mode_categories(mode)[0].label == "Command Mode"@,
        mode is Sidebar ==> mode_categories(mode)[0].label == "Sidebar Navigation"@,
        mode is Top ==> mode_categories(mode)[0].label == "Top — Node Resources"@,
        mode is ResourceTable ==> mode_categories(mode)[0].label == "Navigation"@
            && mode_categories(mode)[1].label == "Resource Actions"@,
{
}

/// The foot of the help says how it closes, and that a filter goes first.
pub proof fn law_foot_says_how_to_close()
    ensures
        footer(true).len() == footer(false).len(),
        footer(true)[1][0].content == "  Press ESC to clear filter, ? to close"@,
        footer(false)[1][0].content == "  Press ESC or ? to close"@,
{
}

/// The help stands in the middle of the screen, shows its lines from the offset on
/// as far as there are any, and marks where there is more above and below.
pub proof fn law_help_marks_what_is_hidden(o: HelpOverlay, area: Area, filtered: bool)
    requires
        area.height >= 7,
        area.width >= 44,
    ensures
        ({
            let f = help_frame(o, area, filtered);
            let room = f.popup.height - 2;
            let left = f.popup.x;
            let right = area.width - f.popup.x - f.popup.width;
            let above = f.popup.y;
            let below = area.height - f.popup.y - f.popup.height;
            &&& 0 <= left <= right <= left + 1
            &&& 0 <= above <= below <= above + 1
            &&& f.scroll <= o.scroll_offset
            &&& f.scroll == o.scroll_offset || f.scroll + room >= f.lines.len()
            &&& f.above is Some <==> f.scroll > 0
            &&& f.below is Some <==> f.scroll + room < f.lines.len()
            &&& f.above matches Some(m) ==> m.y == f.popup.y && m.x == f.popup.x + f.popup.width
                - 1
            &&& f.below matches Some(m) ==> m.y == f.popup.y + f.popup.height - 1 && m.x
                == f.popup.x + f.popup.width - 1
            &&& f.lines.len() + 4 <= area.height ==> room == f.lines.len()
        }),
{
    crate::help_overlay::law_help_fits_screen(o, area, filtered);
}

/// The title names the mode.
pub proof fn law_help_is_titled_by_its_mode(o: HelpOverlay, area: Area, filtered: bool)
    ensures
        ({
            let title = help_frame(o, area, filtered).title;
            &&& o.mode is Sidebar ==> title == " Help — "@ + "Sidebar"@ + " "@
            &&& o.mode is Top ==> title == " Help — "@ + "Top"@ + " "@
            &&& o.mode is Search ==> title == " Help — "@ + "Search"@ + " "@
            &&& o.mode is CommandMode ==> title == " Help — "@ + "Command"@ + " "@
            &&& o.mode matches ActiveMode::ResourceTable(name) ==> title == " Help — "@ + name@
                + " "@
        }),
{
}

/// The keys of the editor tell how to save and how to leave; those of the logs how to
/// follow them; those of the table how to quit.
pub proof fn law_modes_tell_their_keys()
    ensures
        exists|i: int|
            0 <= i < mode_keys(Mode::ListView).len() && (#[trigger] mode_keys(
                Mode::ListView,
            )[i]).key == "q"@ && mode_keys(Mode::ListView)[i].description == "Quit"@,
        exists|i: int|
            0 <= i < mode_keys(Mode::EditorNormal).len() && (#[trigger] mode_keys(
                Mode::EditorNormal,
            )[i]).key == ":w"@ && mode_keys(Mode::EditorNormal)[i].category == Category::Actions,
        exists|i: int|
            0 <= i < mode_keys(Mode::LogViewer).len() && (#[trigger] mode_keys(
                Mode::LogViewer,
            )[i]).key == "f"@ && mode_keys(Mode::LogViewer)[i].category == Category::Actions,
        mode_keys(Mode::EditorInsert).last().key == "ESC"@,
        mode_keys(Mode::PortForwardManager).last().key == "Ctrl+c"@,
{
    assert(mode_keys(Mode::ListView)[22].key == "q"@);
    assert(mode_keys(Mode::EditorNormal)[18].key == ":w"@);
    assert(mode_keys(Mode::LogViewer)[4].key == "f"@);
}

} // verus!
