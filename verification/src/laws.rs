//! Laws of the dashboard's state that hold for every event.
use vstd::prelude::*;
use crate::app::{
    collapsed, configmap_matches, cursor_node, deployment_matches, entered, expanded, help_limit,
    infra_tree_synced, motion_step, moved_down, moved_up, node_closed, node_matches, node_opened,
    other_panel, panel_switched, pod_matches, query_erased, query_typed, row_count,
    service_matches, step, stopped, tree_synced, ActivePanel, AppModel,
};
use crate::event::AppEvent;

verus! {

/// Whether an event only moves a cursor or scrolls.
pub open spec fn only_moves(evt: AppEvent) -> bool {
    match evt {
        AppEvent::Up
        | AppEvent::ArrowUp
        | AppEvent::Down
        | AppEvent::ArrowDown
        | AppEvent::PageUp
        | AppEvent::PageDown
        | AppEvent::Home
        | AppEvent::End => true,
        _ => false,
    }
}

/// A forced quit stops the dashboard in every mode and changes nothing else.
pub proof fn law_force_quit_always_quits(m: AppModel)
    ensures
        step(m, AppEvent::ForceQuit) == stopped(m),
        !step(m, AppEvent::ForceQuit).mode.running,
{
}

/// While a search is typed or help is shown, nothing but a forced quit stops
/// the dashboard.
pub proof fn law_only_force_quit_stops_other_modes(m: AppModel, evt: AppEvent)
    requires
        m.mode.search_active || m.mode.show_help,
        evt != AppEvent::ForceQuit,
    ensures
        step(m, evt).mode.running == m.mode.running,
{
}

/// Search mode and the help overlay are never on at the same time, if they were
/// not before.
pub proof fn law_search_and_help_exclusive(m: AppModel, evt: AppEvent)
    requires
        !(m.mode.search_active && m.mode.show_help),
    ensures
        !(step(m, evt).mode.search_active && step(m, evt).mode.show_help),
{
    lemma_motion_keeps_modes(m, evt);
}

/// Keys that move about change neither search mode nor the help overlay.
proof fn lemma_motion_keeps_modes(m: AppModel, evt: AppEvent)
    ensures
        motion_step(m, evt).mode == m.mode,
{
}

/// Moving a cursor or scrolling changes neither what is selected nor the tree
/// nor the data, and asks for no fetch.
pub proof fn law_moving_selects_nothing(m: AppModel, evt: AppEvent)
    requires
        only_moves(evt),
        !m.mode.search_active,
        !m.mode.show_help,
    ensures
        step(m, evt).chosen == m.chosen,
        step(m, evt).tree == m.tree,
        step(m, evt).data == m.data,
        step(m, evt).fetch == m.fetch,
        step(m, evt).mode == m.mode,
{
}

/// Nothing but Enter changes which cluster and namespace are selected.
pub proof fn law_only_enter_selects(m: AppModel, evt: AppEvent)
    requires
        evt != AppEvent::Enter,
    ensures
        step(m, evt).chosen.selected_cluster == m.chosen.selected_cluster,
        step(m, evt).chosen.selected_namespace == m.chosen.selected_namespace,
{
}

/// No event changes the data: they come from discovery and fetches alone.
pub proof fn law_events_change_no_data(m: AppModel, evt: AppEvent)
    ensures
        step(m, evt).data == m.data,
        step(m, evt).size == m.size,
{
}

/// An event that asks for a fetch starts a new generation and lets go of the
/// fetch that is under way; any other leaves the fetching as it is.
pub proof fn law_navigation_starts_generation(m: AppModel, evt: AppEvent)
    ensures
        step(m, evt).fetch == m.fetch || {
            &&& step(m, evt).fetch.fetch_generation == m.fetch.fetch_generation + 1
            &&& step(m, evt).fetch.needs_refresh
            &&& !step(m, evt).fetch.is_fetching
        },
{
}

/// Changing panels twice leads back.
pub proof fn law_panel_switch_involutive(m: AppModel)
    ensures
        other_panel(other_panel(m.mode.active_panel)) == m.mode.active_panel,
        panel_switched(panel_switched(m)) == m,
{
}

/// Erasing undoes typing: of a query that is not empty, and of none.
pub proof fn law_backspace_undoes_typing(query: Option<Seq<char>>, c: char)
    requires
        query is Some ==> query->0.len() > 0,
    ensures
        query_erased(query_typed(query, c)) == query,
{
    if query is Some {
        assert(query->0.push(c).drop_last() =~= query->0);
    }
}

/// A search that is cancelled leaves no filter behind, and the table at its
/// first row.
pub proof fn law_escape_clears_search(m: AppModel)
    requires
        m.mode.search_active,
    ensures
        !step(m, AppEvent::Escape).mode.search_active,
        step(m, AppEvent::Escape).mode.search_query is None,
        step(m, AppEvent::Escape).pos.table_cursor == 0,
        step(m, AppEvent::Escape).pos.table_scroll_offset == 0,
{
}

/// The help text is never scrolled past its end by a key, if it was not before.
pub proof fn law_help_scroll_bounded(m: AppModel, evt: AppEvent)
    requires
        !m.mode.search_active,
        m.mode.show_help,
        m.mode.help_scroll_offset <= help_limit(m),
    ensures
        step(m, evt).mode.help_scroll_offset <= help_limit(m),
{
}

/// In the sidebar a step up undoes a step down, except at the last row.
pub proof fn law_up_undoes_down(m: AppModel)
    requires
        m.mode.active_panel == ActivePanel::Sidebar,
        m.pos.tree_cursor + 1 < crate::tree::visible(m.tree).len(),
    ensures
        ({
            let down = AppModel { pos: moved_down(m), ..m };
            moved_up(down).tree_cursor == m.pos.tree_cursor
        }),
{
}

/// Whether the table's cursor is on a row, or at the top of an empty table.
pub open spec fn table_cursor_on_row(m: AppModel) -> bool {
    m.pos.table_cursor == 0 || m.pos.table_cursor < row_count(m)
}

/// Closing a node changes neither the table nor its cursor.
proof fn lemma_closing_keeps_table(m: AppModel, idx: int)
    ensures
        row_count(node_closed(m, idx)) == row_count(m),
        node_closed(m, idx).pos.table_cursor == m.pos.table_cursor,
{
}

/// Opening a node and taking in what is known of it changes neither the table
/// nor its cursor.
proof fn lemma_opening_keeps_table(m: AppModel, idx: int)
    ensures
        row_count(node_opened(m, idx)) == row_count(m),
        row_count(tree_synced(m)) == row_count(m),
        row_count(infra_tree_synced(m)) == row_count(m),
        node_opened(m, idx).pos.table_cursor == m.pos.table_cursor,
        tree_synced(m).pos.table_cursor == m.pos.table_cursor,
        infra_tree_synced(m).pos.table_cursor == m.pos.table_cursor,
{
}

/// An empty query lets pass what no query lets pass.
proof fn lemma_empty_query(q: Option<Seq<char>>)
    requires
        q is Some,
        q->0.len() == 0,
    ensures
        pod_matches(q) == pod_matches(None),
        deployment_matches(q) == deployment_matches(None),
        service_matches(q) == service_matches(None),
        configmap_matches(q) == configmap_matches(None),
        node_matches(q) == node_matches(None),
{
    assert(pod_matches(q) =~= pod_matches(None));
    assert(deployment_matches(q) =~= deployment_matches(None));
    assert(service_matches(q) =~= service_matches(None));
    assert(configmap_matches(q) =~= configmap_matches(None));
    assert(node_matches(q) =~= node_matches(None));
}

/// Whatever the event, the table's cursor stays on a row of the table.
#[verifier::rlimit(40)]
pub proof fn law_table_cursor_stays_on_row(m: AppModel, evt: AppEvent)
    requires
        table_cursor_on_row(m),
    ensures
        table_cursor_on_row(step(m, evt)),
{
    let idx = cursor_node(m);
    lemma_closing_keeps_table(m, idx);
    lemma_opening_keeps_table(m, idx);
    let opened = node_opened(m, idx);
    lemma_opening_keeps_table(opened, idx);
    lemma_opening_keeps_table(tree_synced(opened), idx);
    match evt {
        AppEvent::Enter => {
            let q = m.mode.search_query;
            if q is Some && q->0.len() == 0 {
                lemma_empty_query(q);
            }
            assert(table_cursor_on_row(entered(m)));
        },
        AppEvent::Left | AppEvent::ArrowLeft => {
            assert(table_cursor_on_row(collapsed(m)));
        },
        AppEvent::Right | AppEvent::ArrowRight => {
            assert(table_cursor_on_row(expanded(m)));
        },
        _ => {},
    }
}

} // verus!
