//! Laws of the keys: what each does to what is seen and selected.
use vstd::prelude::*;
use crate::app::{
    help_limit, help_line_count, node_closed, parent_row, row_count, step, top_line_count,
    ActivePanel, AppModel, ResourceView,
};
use crate::event::{key_event, AppEvent, KeyCode, KeyPress};
use crate::tree::{
    children, children_end, hidden, lemma_children_end, lemma_visible_upto, visible,
    visible_upto, KindModel, NodeModel,
};

verus! {

/// Whether keys act on the sidebar and the table: no search is typed, and no help
/// is shown.
pub open spec fn acts_on_panels(m: AppModel) -> bool {
    !m.mode.search_active && !m.mode.show_help
}

/// Whether keys act on the sidebar.
pub open spec fn acts_on_sidebar(m: AppModel) -> bool {
    acts_on_panels(m) && m.mode.active_panel == ActivePanel::Sidebar
}

/// Whether keys act on the table of resources.
pub open spec fn acts_on_table(m: AppModel) -> bool {
    acts_on_panels(m) && m.mode.active_panel == ActivePanel::Center && m.mode.active_tab != 1
}

/// Whether keys act on the Top tab.
pub open spec fn acts_on_top(m: AppModel) -> bool {
    acts_on_panels(m) && m.mode.active_panel == ActivePanel::Center && m.mode.active_tab == 1
}

// ---------------------------------------------------------------------------
// Moving
// ---------------------------------------------------------------------------

/// After End no row lies below the cursor, and none of the Top tab's lines below
/// the first that is shown.
pub proof fn law_end_leaves_nothing_below(m: AppModel)
    ensures
        acts_on_sidebar(m) && visible(m.tree).len() > 0 ==> step(m, AppEvent::End).pos.tree_cursor
            + 1 == visible(m.tree).len(),
        acts_on_table(m) && row_count(m) > 0 ==> step(m, AppEvent::End).pos.table_cursor + 1
            == row_count(m),
        acts_on_table(m) && row_count(m) == 0 ==> step(m, AppEvent::End).pos.table_cursor == 0,
        acts_on_top(m) ==> step(m, AppEvent::End).pos.table_scroll_offset + 1 == top_line_count(m),
{
}

/// After Home no row lies above the cursor, and the first row is shown.
pub proof fn law_home_leaves_nothing_above(m: AppModel)
    ensures
        acts_on_sidebar(m) ==> step(m, AppEvent::Home).pos.tree_cursor == 0 && step(
            m,
            AppEvent::Home,
        ).pos.sidebar_scroll_offset == 0,
        acts_on_table(m) ==> step(m, AppEvent::Home).pos.table_cursor == 0 && step(
            m,
            AppEvent::Home,
        ).pos.table_scroll_offset == 0,
        acts_on_top(m) ==> step(m, AppEvent::Home).pos.table_scroll_offset == 0,
{
}

/// Whether an event is a step down.
pub open spec fn goes_down(evt: AppEvent) -> bool {
    evt == AppEvent::Down || evt == AppEvent::ArrowDown
}

/// Whether an event is a step up.
pub open spec fn goes_up(evt: AppEvent) -> bool {
    evt == AppEvent::Up || evt == AppEvent::ArrowUp
}

/// A step down goes to the next row where there is one, and stays otherwise.
pub proof fn law_down_goes_to_the_next_row(m: AppModel, evt: AppEvent)
    requires
        goes_down(evt),
    ensures
        acts_on_sidebar(m) && m.pos.tree_cursor + 1 < visible(m.tree).len() ==> step(
            m,
            evt,
        ).pos.tree_cursor == m.pos.tree_cursor + 1,
        acts_on_sidebar(m) && m.pos.tree_cursor + 1 >= visible(m.tree).len() ==> step(
            m,
            evt,
        ).pos.tree_cursor == m.pos.tree_cursor,
        acts_on_table(m) && m.pos.table_cursor + 1 < row_count(m) ==> step(m, evt).pos.table_cursor
            == m.pos.table_cursor + 1,
        acts_on_table(m) && m.pos.table_cursor + 1 >= row_count(m) ==> step(
            m,
            evt,
        ).pos.table_cursor == m.pos.table_cursor,
        acts_on_top(m) && m.pos.table_scroll_offset + 1 < top_line_count(m) ==> step(
            m,
            evt,
        ).pos.table_scroll_offset == m.pos.table_scroll_offset + 1,
        acts_on_top(m) && m.pos.table_scroll_offset + 1 >= top_line_count(m) ==> step(
            m,
            evt,
        ).pos.table_scroll_offset == m.pos.table_scroll_offset,
{
}

/// A step up goes to the row before where there is one, and stays otherwise.
pub proof fn law_up_goes_to_the_row_before(m: AppModel, evt: AppEvent)
    requires
        goes_up(evt),
    ensures
        acts_on_sidebar(m) && m.pos.tree_cursor > 0 ==> step(m, evt).pos.tree_cursor + 1
            == m.pos.tree_cursor,
        acts_on_sidebar(m) && m.pos.tree_cursor == 0 ==> step(m, evt).pos.tree_cursor == 0,
        acts_on_table(m) && m.pos.table_cursor > 0 ==> step(m, evt).pos.table_cursor + 1
            == m.pos.table_cursor,
        acts_on_table(m) && m.pos.table_cursor == 0 ==> step(m, evt).pos.table_cursor == 0,
        acts_on_top(m) && m.pos.table_scroll_offset > 0 ==> step(m, evt).pos.table_scroll_offset
            + 1 == m.pos.table_scroll_offset,
        acts_on_top(m) && m.pos.table_scroll_offset == 0 ==> step(m, evt).pos.table_scroll_offset
            == 0,
{
}

/// Whether a number is half a page: half of what is shown, and at least one.
pub open spec fn is_half_page(jump: nat, shown: nat) -> bool {
    if shown >= 2 {
        2 * jump == shown || 2 * jump + 1 == shown
    } else {
        jump == 1
    }
}

/// A page down goes half a page on, or to the last row where that is nearer.
pub proof fn law_page_down_goes_half_a_page(m: AppModel, jump: nat)
    ensures
        acts_on_sidebar(m) && is_half_page(jump, m.size.sidebar_page_size) && m.pos.tree_cursor
            + jump < visible(m.tree).len() ==> step(m, AppEvent::PageDown).pos.tree_cursor
            == m.pos.tree_cursor + jump,
        acts_on_sidebar(m) && is_half_page(jump, m.size.sidebar_page_size) && m.pos.tree_cursor
            + jump >= visible(m.tree).len() > 0 ==> step(m, AppEvent::PageDown).pos.tree_cursor
            + 1 == visible(m.tree).len(),
        acts_on_table(m) && is_half_page(jump, m.size.page_size) && m.pos.table_cursor + jump
            < row_count(m) ==> step(m, AppEvent::PageDown).pos.table_cursor == m.pos.table_cursor
            + jump,
        acts_on_table(m) && is_half_page(jump, m.size.page_size) && m.pos.table_cursor + jump
            >= row_count(m) > 0 ==> step(m, AppEvent::PageDown).pos.table_cursor + 1 == row_count(
            m,
        ),
        acts_on_table(m) && row_count(m) == 0 ==> step(m, AppEvent::PageDown).pos.table_cursor
            == m.pos.table_cursor,
        acts_on_top(m) && is_half_page(jump, m.size.page_size) && m.pos.table_scroll_offset + jump
            < top_line_count(m) ==> step(m, AppEvent::PageDown).pos.table_scroll_offset
            == m.pos.table_scroll_offset + jump,
        acts_on_top(m) && is_half_page(jump, m.size.page_size) && m.pos.table_scroll_offset + jump
            >= top_line_count(m) ==> step(m, AppEvent::PageDown).pos.table_scroll_offset + 1
            == top_line_count(m),
{
}

/// A page up goes half a page back, or to the first row where that is nearer.
pub proof fn law_page_up_goes_half_a_page(m: AppModel, jump: nat)
    ensures
        acts_on_sidebar(m) && is_half_page(jump, m.size.sidebar_page_size) ==> step(
            m,
            AppEvent::PageUp,
        ).pos.tree_cursor == if m.pos.tree_cursor >= jump {
            m.pos.tree_cursor - jump
        } else {
            0
        },
        acts_on_table(m) && is_half_page(jump, m.size.page_size) ==> step(
            m,
            AppEvent::PageUp,
        ).pos.table_cursor == if m.pos.table_cursor >= jump {
            m.pos.table_cursor - jump
        } else {
            0
        },
        acts_on_top(m) && is_half_page(jump, m.size.page_size) ==> step(
            m,
            AppEvent::PageUp,
        ).pos.table_scroll_offset == if m.pos.table_scroll_offset >= jump {
            m.pos.table_scroll_offset - jump
        } else {
            0
        },
{
}

/// Whether an event moves a cursor or scrolls.
pub open spec fn is_move(evt: AppEvent) -> bool {
    ||| goes_up(evt)
    ||| goes_down(evt)
    ||| evt == AppEvent::PageUp
    ||| evt == AppEvent::PageDown
    ||| evt == AppEvent::Home
    ||| evt == AppEvent::End
}

/// Moving in one panel leaves the other where it is; the Top tab has no cursor.
/// No row above the cursor is scrolled to beyond it.
pub proof fn law_moves_stay_in_their_panel(m: AppModel, evt: AppEvent)
    requires
        is_move(evt),
    ensures
        acts_on_sidebar(m) ==> step(m, evt).pos.table_cursor == m.pos.table_cursor && step(
            m,
            evt,
        ).pos.table_scroll_offset == m.pos.table_scroll_offset,
        acts_on_table(m) || acts_on_top(m) ==> step(m, evt).pos.tree_cursor == m.pos.tree_cursor
            && step(m, evt).pos.sidebar_scroll_offset == m.pos.sidebar_scroll_offset,
        acts_on_top(m) ==> step(m, evt).pos.table_cursor == m.pos.table_cursor,
        acts_on_sidebar(m) ==> step(m, evt).pos.sidebar_scroll_offset <= step(
            m,
            evt,
        ).pos.tree_cursor && step(m, evt).pos.sidebar_scroll_offset
            <= m.pos.sidebar_scroll_offset,
        acts_on_table(m) ==> step(m, evt).pos.table_scroll_offset <= step(m, evt).pos.table_cursor
            && step(m, evt).pos.table_scroll_offset <= m.pos.table_scroll_offset,
{
}

// ---------------------------------------------------------------------------
// Choosing what is shown
// ---------------------------------------------------------------------------

/// A letter shows its resource type, from the table only: pods, deployments,
/// services, config maps or nodes. A change starts at the first row and asks for a
/// fetch; any other letter, and the type that is shown already, change nothing.
pub proof fn law_letters_choose_the_view(m: AppModel, c: char)
    requires
        acts_on_panels(m),
    ensures
        ({
            let after = step(m, AppEvent::ResourceType(c));
            let choice = if c == 'p' {
                Some(ResourceView::Pods)
            } else if c == 'd' {
                Some(ResourceView::Deployments)
            } else if c == 's' {
                Some(ResourceView::Services)
            } else if c == 'c' {
                Some(ResourceView::ConfigMaps)
            } else if c == 'n' {
                Some(ResourceView::Nodes)
            } else {
                None
            };
            if m.mode.active_panel == ActivePanel::Center && choice is Some && choice->0
                != m.mode.resource_view {
                &&& after.mode.resource_view == choice->0
                &&& after.pos.table_cursor == 0 && after.pos.table_scroll_offset == 0
                &&& after.fetch.needs_refresh && !after.fetch.is_fetching
                &&& after.fetch.fetch_generation == m.fetch.fetch_generation + 1
                &&& after.chosen == m.chosen && after.tree == m.tree
            } else {
                after == m
            }
        }),
{
}

/// Tab and its counterpart go to the other panel and change nothing else.
pub proof fn law_panel_keys_go_to_the_other_panel(m: AppModel, evt: AppEvent)
    requires
        acts_on_panels(m),
        evt == AppEvent::NextPanel || evt == AppEvent::PrevPanel,
    ensures
        step(m, evt).mode.active_panel != m.mode.active_panel,
        step(m, evt).pos == m.pos && step(m, evt).chosen == m.chosen && step(m, evt).tree
            == m.tree && step(m, evt).fetch == m.fetch,
{
}

/// A digit shows the tab of its number where there is one, from its first row
/// on; it changes nothing else.
pub proof fn law_digits_choose_the_tab(m: AppModel, n: usize)
    requires
        acts_on_panels(m),
    ensures
        ({
            let after = step(m, AppEvent::Tab(n));
            &&& 1 <= n <= m.data.tabs.len() ==> after.mode.active_tab + 1 == n
            &&& !(1 <= n <= m.data.tabs.len()) ==> after == m
            &&& after.mode.active_tab != m.mode.active_tab ==> after.pos.table_cursor == 0
                && after.pos.table_scroll_offset == 0
            &&& after.mode.active_panel == m.mode.active_panel && after.chosen == m.chosen
                && after.tree == m.tree && after.fetch == m.fetch
        }),
{
}

/// Refresh asks for a fetch at once: the one under way does not count any more.
pub proof fn law_refresh_asks_for_a_fetch(m: AppModel)
    requires
        acts_on_panels(m),
    ensures
        step(m, AppEvent::Refresh).fetch.needs_refresh,
        !step(m, AppEvent::Refresh).fetch.is_fetching,
        step(m, AppEvent::Refresh).fetch.fetch_generation == m.fetch.fetch_generation + 1,
        step(m, AppEvent::Refresh).pos == m.pos && step(m, AppEvent::Refresh).mode == m.mode,
{
}

/// Quit stops the dashboard; time that passes, and keys without a meaning, change
/// nothing.
pub proof fn law_quit_stops(m: AppModel, c: char)
    requires
        acts_on_panels(m),
    ensures
        !step(m, AppEvent::Quit).mode.running,
        step(m, AppEvent::Tick) == m,
        step(m, AppEvent::Nothing) == m,
        step(m, AppEvent::CharInput(c)) == m,
        step(m, AppEvent::Backspace) == m,
{
}

// ---------------------------------------------------------------------------
// Searching
// ---------------------------------------------------------------------------

/// A search starts empty, in the table, at its first row.
pub proof fn law_search_starts_empty(m: AppModel)
    requires
        acts_on_panels(m),
    ensures
        ({
            let after = step(m, AppEvent::Search);
            &&& after.mode.search_active
            &&& after.mode.search_query matches Some(q) && q.len() == 0
            &&& after.mode.active_panel == ActivePanel::Center
            &&& after.pos.table_cursor == 0 && after.pos.table_scroll_offset == 0
        }),
{
}

/// The character that a key types into a search: also where the key has a meaning
/// outside of it.
pub open spec fn types(evt: AppEvent, c: char) -> bool {
    ||| evt == AppEvent::CharInput(c)
    ||| evt == AppEvent::ResourceType(c)
    ||| evt == AppEvent::Quit && c == 'q'
    ||| evt == AppEvent::Help && c == '?'
    ||| evt == AppEvent::Left && c == 'h'
    ||| evt == AppEvent::Right && c == 'l'
    ||| evt == AppEvent::Up && c == 'k'
    ||| evt == AppEvent::Down && c == 'j'
    ||| evt == AppEvent::Refresh && c == 'r'
    ||| evt == AppEvent::Search && c == '/'
}

/// What is typed into a search stands at its end, the search goes on, and the
/// table is at its first row.
pub proof fn law_typing_lengthens_the_query(m: AppModel, evt: AppEvent, c: char)
    requires
        m.mode.search_active,
        types(evt, c),
    ensures
        ({
            let after = step(m, evt);
            &&& after.mode.search_active
            &&& after.mode.search_query is Some
            &&& after.mode.search_query->0.last() == c
            &&& after.mode.search_query->0.drop_last() == match m.mode.search_query {
                Some(q) => q,
                None => Seq::empty(),
            }
            &&& after.pos.table_cursor == 0 && after.pos.table_scroll_offset == 0
            &&& after.mode.running == m.mode.running && after.chosen == m.chosen && after.fetch
                == m.fetch
        }),
{
    let q = match m.mode.search_query {
        Some(q) => q,
        None => Seq::empty(),
    };
    assert(q.push(c).drop_last() =~= q);
    assert(seq![c].drop_last() =~= Seq::<char>::empty());
}

/// Backspace takes the last character off a search; without any left there is no
/// search text.
pub proof fn law_backspace_shortens_the_query(m: AppModel)
    requires
        m.mode.search_active,
    ensures
        ({
            let after = step(m, AppEvent::Backspace);
            &&& after.mode.search_active
            &&& match m.mode.search_query {
                Some(q) => if q.len() > 1 {
                    after.mode.search_query == Some(q.drop_last())
                } else {
                    after.mode.search_query is None
                },
                None => after.mode.search_query is None,
            }
            &&& after.pos.table_cursor == 0 && after.pos.table_scroll_offset == 0
        }),
{
}

/// Enter ends the typing and keeps the search as a filter; an empty one is none.
/// Changing panels ends it and drops it.
pub proof fn law_enter_keeps_the_filter(m: AppModel, evt: AppEvent)
    requires
        m.mode.search_active,
    ensures
        ({
            let after = step(m, AppEvent::Enter);
            &&& !after.mode.search_active
            &&& match m.mode.search_query {
                Some(q) => if q.len() > 0 {
                    after.mode.search_query == Some(q)
                } else {
                    after.mode.search_query is None
                },
                None => after.mode.search_query is None,
            }
            &&& after.chosen == m.chosen && after.tree == m.tree
        }),
        evt == AppEvent::NextPanel || evt == AppEvent::PrevPanel ==> !step(
            m,
            evt,
        ).mode.search_active && step(m, evt).mode.search_query is None && step(
            m,
            evt,
        ).mode.active_panel != m.mode.active_panel,
{
}

/// Outside of a search, Escape drops the filter and goes to the first row; without
/// one it changes nothing.
pub proof fn law_escape_drops_the_filter(m: AppModel)
    requires
        acts_on_panels(m),
    ensures
        match m.mode.search_query {
            Some(q) => if q.len() > 0 {
                &&& step(m, AppEvent::Escape).mode.search_query is None
                &&& step(m, AppEvent::Escape).pos.table_cursor == 0
                &&& step(m, AppEvent::Escape).pos.table_scroll_offset == 0
            } else {
                step(m, AppEvent::Escape) == m
            },
            None => step(m, AppEvent::Escape) == m,
        },
{
}

// ---------------------------------------------------------------------------
// Help
// ---------------------------------------------------------------------------

/// The help opens at its first line.
pub proof fn law_help_opens_at_its_start(m: AppModel)
    requires
        acts_on_panels(m),
    ensures
        step(m, AppEvent::Help).mode.show_help,
        step(m, AppEvent::Help).mode.help_scroll_offset == 0,
        step(m, AppEvent::Help).pos == m.pos && step(m, AppEvent::Help).chosen == m.chosen,
{
}

/// While help is shown, its key, Quit, Enter and Escape close it, and nothing else
/// does. The dashboard behind it stays as it is, whatever the key.
pub proof fn law_help_closes_by_its_keys(m: AppModel, evt: AppEvent)
    requires
        m.mode.show_help,
        !m.mode.search_active,
        evt != AppEvent::ForceQuit,
    ensures
        step(m, evt).mode.show_help <==> !(evt == AppEvent::Help || evt == AppEvent::Quit || evt
            == AppEvent::Enter || evt == AppEvent::Escape),
        step(m, evt).mode.running == m.mode.running,
        step(m, evt).mode.active_panel == m.mode.active_panel,
        step(m, evt).mode.active_tab == m.mode.active_tab,
        step(m, evt).mode.resource_view == m.mode.resource_view,
        step(m, evt).mode.search_query == m.mode.search_query,
        step(m, evt).pos == m.pos && step(m, evt).chosen == m.chosen && step(m, evt).tree
            == m.tree && step(m, evt).fetch == m.fetch,
{
}

/// While help is shown, keys scroll it: by a line or half a page, to its start or
/// its end, and not past them.
pub proof fn law_keys_scroll_the_help(m: AppModel, evt: AppEvent, jump: nat)
    requires
        m.mode.show_help,
        !m.mode.search_active,
        m.mode.help_scroll_offset <= help_limit(m),
    ensures
        ({
            let at = m.mode.help_scroll_offset;
            let after = step(m, evt).mode.help_scroll_offset;
            &&& goes_down(evt) ==> after == if at < help_limit(m) {
                at + 1
            } else {
                at
            }
            &&& goes_up(evt) ==> after == if at > 0 {
                at - 1
            } else {
                0
            }
            &&& evt == AppEvent::Home ==> after == 0
            &&& evt == AppEvent::End ==> after == help_limit(m)
            &&& evt == AppEvent::PageDown && is_half_page(jump, m.size.page_size) && jump
                < 0x1_0000 ==> after == if at + jump < help_limit(m) {
                at + jump
            } else {
                help_limit(m)
            }
            &&& evt == AppEvent::PageUp && is_half_page(jump, m.size.page_size) && jump
                < 0x1_0000 ==> after == if at >= jump {
                at - jump
            } else {
                0
            }
        }),
{
}

/// At the end of the help its last line is the last that is shown, where not all
/// lines are.
pub proof fn law_help_ends_at_its_last_line(m: AppModel)
    ensures
        m.size.help_viewport_height <= help_line_count(m) ==> help_limit(m)
            + m.size.help_viewport_height == help_line_count(m),
        m.size.help_viewport_height > help_line_count(m) ==> help_limit(m) == 0,
{
}

// ---------------------------------------------------------------------------
// The sidebar
// ---------------------------------------------------------------------------

/// Whether a node stands below another: all nodes from the other on are deeper.
pub open spec fn stands_below(tree: Seq<NodeModel>, i: int, above: int) -> bool {
    0 <= above < i && forall|k: int| above < k <= i ==> (#[trigger] tree[k]).depth
        > tree[above].depth
}

/// The rows of the sidebar are the nodes that do not stand below a closed one, from
/// top to bottom, each once.
pub proof fn law_rows_are_not_below_closed_nodes(tree: Seq<NodeModel>, i: int)
    requires
        0 <= i < tree.len(),
    ensures
        visible(tree).contains(i) <==> forall|j: int| #[trigger]
            stands_below(tree, i, j) ==> tree[j].expanded,
        forall|a: int, b: int|
            0 <= a < b < visible(tree).len() ==> 0 <= #[trigger] visible(tree)[a]
                < #[trigger] visible(tree)[b] < tree.len(),
{
    lemma_visible_upto(tree, tree.len() as int);
    lemma_shown(tree, i, tree.len() as int);
    if hidden(tree, i) {
        let j = choose|j: int| #[trigger] crate::tree::covers(tree, j, i + 1) && j < i;
        assert(stands_below(tree, i, j));
    }
    if !(forall|j: int| #[trigger] stands_below(tree, i, j) ==> tree[j].expanded) {
        let j = choose|j: int| #[trigger] stands_below(tree, i, j) && !tree[j].expanded;
        assert(crate::tree::covers(tree, j, i + 1));
    }
    assert forall|a: int, b: int| 0 <= a < b < visible(tree).len() implies 0 <= #[trigger] visible(
        tree,
    )[a] < #[trigger] visible(tree)[b] < tree.len() by {}
}

/// A node is among the first rows exactly if it is not hidden.
proof fn lemma_shown(tree: Seq<NodeModel>, i: int, n: int)
    requires
        0 <= i < tree.len(),
        0 <= n <= tree.len(),
    ensures
        visible_upto(tree, n).contains(i) <==> i < n && !hidden(tree, i),
    decreases n,
{
    if n > 0 {
        lemma_shown(tree, i, n - 1);
        let before = visible_upto(tree, n - 1);
        let now = visible_upto(tree, n);
        if !hidden(tree, n - 1) {
            assert(now[before.len() as int] == n - 1);
            if before.contains(i) {
                let k = choose|k: int| 0 <= k < before.len() && before[k] == i;
                assert(now[k] == i);
            }
            if now.contains(i) && i != n - 1 {
                let k = choose|k: int| 0 <= k < now.len() && now[k] == i;
                assert(before[k] == i);
            }
        }
    }
}

/// Whether the sidebar's cursor stands on a node of a tree, and keys act on it.
pub open spec fn stands_on(m: AppModel, idx: int) -> bool {
    &&& acts_on_sidebar(m)
    &&& m.pos.tree_cursor < visible(m.tree).len()
    &&& visible(m.tree)[m.pos.tree_cursor as int] == idx
}

/// Enter on a namespace selects it and its cluster, or all namespaces of it; the
/// table starts at its first row and a fetch is asked for.
pub proof fn law_enter_selects_the_namespace(
    m: AppModel,
    idx: int,
    cluster: Seq<char>,
    namespace: Seq<char>,
)
    requires
        stands_on(m, idx),
        m.tree[idx].kind == (KindModel::Namespace { cluster, namespace }),
    ensures
        ({
            let after = step(m, AppEvent::Enter);
            &&& after.chosen.selected_cluster == Some(cluster)
            &&& namespace != "All Namespaces"@ ==> after.chosen.selected_namespace == Some(
                namespace,
            )
            &&& namespace == "All Namespaces"@ ==> after.chosen.selected_namespace is None
            &&& after.tree == m.tree && after.pos.tree_cursor == m.pos.tree_cursor
            &&& after.pos.table_cursor == 0 && after.pos.table_scroll_offset == 0
            &&& after.fetch.needs_refresh && !after.fetch.is_fetching
            &&& after.fetch.fetch_generation == m.fetch.fetch_generation + 1
        }),
{
}

/// Enter on a closed cluster selects it with all its namespaces; the table starts
/// at its first row and a fetch is asked for.
pub proof fn law_enter_selects_the_cluster(m: AppModel, idx: int, name: Seq<char>)
    requires
        stands_on(m, idx),
        m.tree[idx].kind == KindModel::Cluster(name),
        !m.tree[idx].expanded,
    ensures
        ({
            let after = step(m, AppEvent::Enter);
            &&& after.chosen.selected_cluster == Some(name)
            &&& after.chosen.selected_namespace is None
            &&& after.pos.table_cursor == 0 && after.pos.table_scroll_offset == 0
            &&& after.fetch.needs_refresh && !after.fetch.is_fetching
            &&& after.fetch.fetch_generation == m.fetch.fetch_generation + 1
        }),
{
}

/// Enter on an open cluster closes it: what stands below it is gone, and no other
/// node. The cluster stays selected if it was, but no single namespace of it.
pub proof fn law_enter_closes_the_cluster(m: AppModel, idx: int, name: Seq<char>)
    requires
        stands_on(m, idx),
        0 <= idx < m.tree.len(),
        m.tree[idx].kind == KindModel::Cluster(name),
        m.tree[idx].expanded,
    ensures
        closes(m, step(m, AppEvent::Enter), idx),
        step(m, AppEvent::Enter).chosen.selected_cluster == m.chosen.selected_cluster,
        m.chosen.selected_cluster == Some(name) ==> step(
            m,
            AppEvent::Enter,
        ).chosen.selected_namespace is None,
        m.chosen.selected_cluster != Some(name) ==> step(
            m,
            AppEvent::Enter,
        ).chosen.selected_namespace == m.chosen.selected_namespace,
        step(m, AppEvent::Enter).fetch == m.fetch,
{
    lemma_closed(m, idx);
}

/// Whether a node was closed: it is closed, its children are to be loaded anew, and
/// the nodes below it are gone. All other nodes are as before, in their order.
pub open spec fn closes(m: AppModel, after: AppModel, idx: int) -> bool {
    &&& idx < after.tree.len()
    &&& !after.tree[idx].expanded && !after.tree[idx].children_loaded
    &&& after.tree[idx].kind == m.tree[idx].kind && after.tree[idx].label == m.tree[idx].label
        && after.tree[idx].depth == m.tree[idx].depth
    &&& idx + 1 < after.tree.len() ==> after.tree[idx + 1].depth <= m.tree[idx].depth
    &&& forall|k: int| 0 <= k < idx ==> #[trigger] after.tree[k] == m.tree[k]
    &&& exists|gone: nat|
        {
            &&& after.tree.len() + gone == m.tree.len()
            &&& forall|k: int|
                idx < k <= idx + gone ==> (#[trigger] m.tree[k]).depth > m.tree[idx].depth
            &&& #[trigger] m.tree.skip(idx + 1 + gone) == after.tree.skip(idx + 1)
        }
}

/// Closing a node closes it.
proof fn lemma_closed(m: AppModel, idx: int)
    requires
        0 <= idx < m.tree.len(),
    ensures
        closes(m, node_closed(m, idx), idx),
{
    let node = m.tree[idx];
    let closed = m.tree.update(
        idx,
        crate::tree::with_loaded(crate::tree::with_expanded(node, false), false),
    );
    lemma_children_end(closed, node.depth, idx + 1);
    let end = children_end(closed, node.depth, idx + 1);
    let after = node_closed(m, idx);
    let gone = (end - idx - 1) as nat;
    assert(after.tree == closed.take(idx + 1) + closed.skip(end));
    assert(m.tree.skip(idx + 1 + gone) =~= after.tree.skip(idx + 1));
    assert forall|k: int| idx < k <= idx + gone implies (#[trigger] m.tree[k]).depth
        > node.depth by {
        assert(closed[k].depth > node.depth);
    }
    if idx + 1 < after.tree.len() {
        assert(after.tree[idx + 1] == closed[end]);
    }
}

/// Left on an open node that can have children closes it.
pub proof fn law_left_closes_an_open_node(m: AppModel, evt: AppEvent, idx: int)
    requires
        stands_on(m, idx),
        0 <= idx < m.tree.len(),
        evt == AppEvent::Left || evt == AppEvent::ArrowLeft,
        m.tree[idx].expanded,
        m.tree[idx].kind is Root || m.tree[idx].kind is Cluster || m.tree[idx].kind is InfraHeader,
    ensures
        closes(m, step(m, evt), idx),
        step(m, evt).chosen == m.chosen && step(m, evt).fetch == m.fetch,
{
    lemma_closed(m, idx);
}

/// Left on a closed node, or one that never has children, goes to its parent: the
/// nearest row above that is less deep. Where there is none it stays.
pub proof fn law_left_goes_to_the_parent(m: AppModel, evt: AppEvent, idx: int)
    requires
        stands_on(m, idx),
        0 <= idx < m.tree.len(),
        evt == AppEvent::Left || evt == AppEvent::ArrowLeft,
        !m.tree[idx].expanded || m.tree[idx].kind is Namespace || m.tree[idx].kind is InfraItem,
    ensures
        ({
            let after = step(m, evt);
            let rows = visible(m.tree);
            let to = after.pos.tree_cursor as int;
            &&& after.tree == m.tree && after.chosen == m.chosen && after.fetch == m.fetch
            &&& to <= m.pos.tree_cursor
            &&& to < m.pos.tree_cursor ==> m.tree[rows[to]].depth < m.tree[idx].depth
            &&& forall|r: int|
                to < r < m.pos.tree_cursor ==> m.tree[#[trigger] rows[r]].depth
                    >= m.tree[idx].depth
            &&& to == m.pos.tree_cursor ==> forall|r: int|
                0 <= r < m.pos.tree_cursor ==> m.tree[#[trigger] rows[r]].depth
                    >= m.tree[idx].depth
        }),
{
    lemma_parent_is_nearest(
        m.tree,
        visible(m.tree),
        m.tree[idx].depth,
        m.pos.tree_cursor as int,
    );
}

/// The row of a parent is the nearest above that is less deep.
proof fn lemma_parent_is_nearest(tree: Seq<NodeModel>, rows: Seq<int>, depth: nat, row: int)
    requires
        0 <= row <= rows.len(),
    ensures
        match parent_row(tree, rows, depth, row) {
            Some(r) => 0 <= r < row && tree[rows[r]].depth < depth && forall|k: int|
                r < k < row ==> tree[#[trigger] rows[k]].depth >= depth,
            None => forall|k: int| 0 <= k < row ==> tree[#[trigger] rows[k]].depth >= depth,
        },
    decreases row,
{
    if row > 0 && tree[rows[row - 1]].depth >= depth {
        lemma_parent_is_nearest(tree, rows, depth, row - 1);
    }
}

/// Right on an open node, or one that never has children, changes nothing. It never
/// selects.
pub proof fn law_right_selects_nothing(m: AppModel, evt: AppEvent, idx: int)
    requires
        stands_on(m, idx),
        evt == AppEvent::Right || evt == AppEvent::ArrowRight,
    ensures
        m.tree[idx].expanded || m.tree[idx].kind is Namespace || m.tree[idx].kind is InfraItem
            ==> step(m, evt) == m,
        step(m, evt).chosen == m.chosen && step(m, evt).fetch == m.fetch && step(m, evt).mode
            == m.mode,
        step(m, evt).pos.table_cursor == m.pos.table_cursor,
{
}

/// Enter on the root opens it if it is closed, and closes it if it is open; no node
/// goes away.
pub proof fn law_enter_toggles_the_root(m: AppModel, idx: int)
    requires
        stands_on(m, idx),
        0 <= idx < m.tree.len(),
        m.tree[idx].kind is Root,
    ensures
        ({
            let after = step(m, AppEvent::Enter);
            &&& after.tree.len() == m.tree.len()
            &&& after.tree[idx].expanded == !m.tree[idx].expanded
            &&& forall|k: int| 0 <= k < m.tree.len() && k != idx ==> #[trigger] after.tree[k]
                == m.tree[k]
            &&& after.chosen == m.chosen && after.fetch == m.fetch && after.pos == m.pos
        }),
{
}

/// Enter on the open infrastructure closes it; on one of its pools it changes
/// nothing, and so it does in the table.
pub proof fn law_enter_closes_the_infrastructure(m: AppModel, idx: int)
    ensures
        stands_on(m, idx) && 0 <= idx < m.tree.len() && m.tree[idx].kind is InfraHeader
            && m.tree[idx].expanded ==> closes(m, step(m, AppEvent::Enter), idx) && step(
            m,
            AppEvent::Enter,
        ).chosen == m.chosen,
        stands_on(m, idx) && m.tree[idx].kind is InfraItem ==> step(m, AppEvent::Enter) == m,
        acts_on_table(m) || acts_on_top(m) ==> step(m, AppEvent::Enter) == m,
{
    if stands_on(m, idx) && 0 <= idx < m.tree.len() {
        lemma_closed(m, idx);
    }
}

// ---------------------------------------------------------------------------
// Keys
// ---------------------------------------------------------------------------

/// A key that is pressed.
pub open spec fn pressed(code: KeyCode, ctrl: bool, shift: bool) -> KeyPress {
    KeyPress { code, ctrl, shift }
}

/// Ctrl+C quits in every mode, and no other key does.
pub proof fn law_only_ctrl_c_forces_quit(key: KeyPress)
    ensures
        key_event(key) == AppEvent::ForceQuit <==> key.ctrl && key.code == KeyCode::Char('c'),
        key_event(key) == AppEvent::Quit <==> !key.ctrl && key.code == KeyCode::Char('q'),
{
}

/// Arrows move by arrow events, with or without Shift; `k`, `j`, `h` and `l` move
/// by events that type in a search.
pub proof fn law_arrows_and_letters_move(shift: bool)
    ensures
        key_event(pressed(KeyCode::Up, false, shift)) == AppEvent::ArrowUp,
        key_event(pressed(KeyCode::Down, false, shift)) == AppEvent::ArrowDown,
        key_event(pressed(KeyCode::Left, false, shift)) == AppEvent::ArrowLeft,
        key_event(pressed(KeyCode::Right, false, shift)) == AppEvent::ArrowRight,
        key_event(pressed(KeyCode::Char('k'), false, shift)) == AppEvent::Up,
        key_event(pressed(KeyCode::Char('j'), false, shift)) == AppEvent::Down,
        key_event(pressed(KeyCode::Char('h'), false, shift)) == AppEvent::Left,
        key_event(pressed(KeyCode::Char('l'), false, shift)) == AppEvent::Right,
{
}

/// Keys with a name make the event of that name, whatever is held down with them.
pub proof fn law_named_keys(ctrl: bool, shift: bool)
    ensures
        key_event(pressed(KeyCode::PageUp, ctrl, shift)) == AppEvent::PageUp,
        key_event(pressed(KeyCode::PageDown, ctrl, shift)) == AppEvent::PageDown,
        key_event(pressed(KeyCode::Home, ctrl, shift)) == AppEvent::Home,
        key_event(pressed(KeyCode::End, ctrl, shift)) == AppEvent::End,
        key_event(pressed(KeyCode::Enter, ctrl, shift)) == AppEvent::Enter,
        key_event(pressed(KeyCode::Backspace, ctrl, shift)) == AppEvent::Backspace,
        key_event(pressed(KeyCode::Esc, ctrl, shift)) == AppEvent::Escape,
        key_event(pressed(KeyCode::Tab, ctrl, false)) == AppEvent::NextPanel,
        key_event(pressed(KeyCode::Tab, ctrl, true)) == AppEvent::PrevPanel,
        key_event(pressed(KeyCode::BackTab, ctrl, shift)) == AppEvent::PrevPanel,
{
}

/// `/`, `?` and `r` search, help and refresh; the letters of resource types choose
/// them; any other character is typed as it is.
pub proof fn law_characters(c: char, shift: bool)
    ensures
        key_event(pressed(KeyCode::Char('/'), false, shift)) == AppEvent::Search,
        key_event(pressed(KeyCode::Char('?'), false, shift)) == AppEvent::Help,
        key_event(pressed(KeyCode::Char('r'), false, shift)) == AppEvent::Refresh,
        c == 'p' || c == 'd' || c == 's' || c == 'c' || c == 'n' ==> key_event(
            pressed(KeyCode::Char(c), false, shift),
        ) == AppEvent::ResourceType(c),
        !(c == 'q' || c == 'k' || c == 'j' || c == 'h' || c == 'l' || c == '/' || c == '?' || c
            == 'r' || c == 'p' || c == 'd' || c == 's' || c == 'c' || c == 'n') ==> key_event(
            pressed(KeyCode::Char(c), false, shift),
        ) == AppEvent::CharInput(c),
{
}

/// Ctrl with a digit from one to nine chooses the tab of that number; Ctrl with an
/// arrow or another character than those with a meaning does nothing.
pub proof fn law_ctrl_digits_choose_tabs(c: char, n: usize, shift: bool)
    ensures
        1 <= n <= 9 && c as u32 == 48 + n ==> key_event(pressed(KeyCode::Char(c), true, shift))
            == AppEvent::Tab(n),
        c != 'c' && c != '/' && c != '?' && !('1' <= c && c <= '9') ==> key_event(
            pressed(KeyCode::Char(c), true, shift),
        ) == AppEvent::Nothing,
        key_event(pressed(KeyCode::Up, true, shift)) == AppEvent::Nothing,
        key_event(pressed(KeyCode::Other, true, shift)) == AppEvent::Nothing,
{
}

/// The help has thirteen lines for the keys that work everywhere and those around
/// them, and more for the keys of the mode: six while searching, five on the Top tab
/// and seven elsewhere.
pub proof fn law_help_has_lines_for_its_mode(m: AppModel)
    ensures
        m.mode.search_active ==> help_line_count(m) == 19,
        !m.mode.search_active && m.mode.active_panel == ActivePanel::Sidebar ==> help_line_count(m)
            == 20,
        !m.mode.search_active && m.mode.active_panel != ActivePanel::Sidebar && m.mode.active_tab
            == 1 ==> help_line_count(m) == 18,
        !m.mode.search_active && m.mode.active_panel != ActivePanel::Sidebar && m.mode.active_tab
            != 1 ==> help_line_count(m) == 20,
{
}

} // verus!
