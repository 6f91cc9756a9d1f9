//! Laws of the sidebar: its cursor always stands on a visible row.
use vstd::prelude::*;
use crate::app::{
    collapsed, cursor_node, entered, expanded, node_closed, node_opened, parent_row, step,
    tree_synced, AppModel, FetchResult,
};
use crate::data::ClusterSnapshot;
use crate::event::AppEvent;
use crate::infra::{InfraSnapshot, SdiPoolInfo};
use crate::kube_client::DiscoverEvent;
use crate::list::lemma_first_index_props;
use crate::session::{
    discovered, fetched, fresh_cluster_node, fresh_tree, infra_loaded, is_fresh, snapshots_after,
};
use crate::text::texts;
use crate::tree::{
    all_synced, children_end, clamped, cluster_node, cluster_synced, covers, hidden, infra_children,
    infra_header, infra_synced, is_cluster, is_infra_header, is_parent,
    law_clamped_cursor_is_visible, law_first_node_visible, lemma_children_end, lemma_visible_upto,
    namespace_children, visible, visible_upto, with_children, with_expanded, with_loaded,
    without_children, NodeModel, SidebarModel,
};

verus! {

/// Whether nothing stands below a node whose children are not loaded.
pub open spec fn unloaded_are_bare(tree: Seq<NodeModel>) -> bool {
    forall|i: int, j: int|
        0 <= i && j == i + 1 && j < tree.len() && is_parent(#[trigger] tree[i])
            && !tree[i].children_loaded ==> (#[trigger] tree[j]).depth <= tree[i].depth
}

/// Whether the sidebar is in order: its cursor stands on a visible row, and
/// nothing stands below a node whose children are not loaded.
pub open spec fn in_order(s: SidebarModel) -> bool {
    s.cursor < visible(s.tree).len() && unloaded_are_bare(s.tree)
}

/// Whether the sidebar of the dashboard is in order.
pub open spec fn sidebar_in_order(m: AppModel) -> bool {
    in_order(SidebarModel { tree: m.tree, cursor: m.pos.tree_cursor })
}

// ---------------------------------------------------------------------------
// Visible rows
// ---------------------------------------------------------------------------

/// What is visible among the first nodes stands first.
proof fn lemma_visible_prefix(tree: Seq<NodeModel>, k: int, n: int)
    requires
        0 <= k <= n <= tree.len(),
    ensures
        visible_upto(tree, k).len() <= visible_upto(tree, n).len(),
        visible_upto(tree, n).take(visible_upto(tree, k).len() as int) == visible_upto(tree, k),
    decreases n,
{
    let a = visible_upto(tree, k);
    let b = visible_upto(tree, n);
    if k == n {
        assert(b.take(a.len() as int) =~= a);
    } else {
        lemma_visible_prefix(tree, k, n - 1);
        assert(b.take(a.len() as int) =~= visible_upto(tree, n - 1).take(a.len() as int));
    }
}

/// The rows up to that of a visible node are those of the nodes up to it.
pub proof fn lemma_row_of(tree: Seq<NodeModel>, row: int)
    requires
        0 <= row < visible(tree).len(),
    ensures
        0 <= visible(tree)[row] < tree.len(),
        visible_upto(tree, visible(tree)[row] + 1).len() == row + 1,
{
    let n = tree.len() as int;
    lemma_visible_upto(tree, n);
    let v = visible(tree);
    let idx = v[row];
    let a = visible_upto(tree, idx + 1);
    lemma_visible_prefix(tree, idx + 1, n);
    assert(a[a.len() - 1] == idx);
    assert(v.take(a.len() as int)[a.len() - 1] == v[a.len() - 1]);
    let p = a.len() - 1;
    if p < row {
        assert(v[p] < v[row]);
    }
    if row < p {
        assert(v[row] < v[p]);
    }
}

/// Trees that agree on what can hide the first nodes show the same of them.
proof fn lemma_same_prefix(a: Seq<NodeModel>, b: Seq<NodeModel>, n: int)
    requires
        0 <= n <= a.len(),
        n <= b.len(),
        forall|i: int| 0 <= i < n ==> (#[trigger] a[i]).depth == b[i].depth,
        forall|i: int| 0 <= i < n - 1 ==> (#[trigger] a[i]).expanded == b[i].expanded,
    ensures
        visible_upto(a, n) == visible_upto(b, n),
    decreases n,
{
    if n > 0 {
        lemma_same_prefix(a, b, n - 1);
        lemma_same_hidden(a, b, n - 1);
    }
}

/// Whether a node is hidden depends on the nodes up to it alone.
proof fn lemma_same_hidden(a: Seq<NodeModel>, b: Seq<NodeModel>, i: int)
    requires
        0 <= i < a.len(),
        i < b.len(),
        forall|k: int| 0 <= k <= i ==> (#[trigger] a[k]).depth == b[k].depth,
        forall|k: int| 0 <= k < i ==> (#[trigger] a[k]).expanded == b[k].expanded,
    ensures
        hidden(a, i) == hidden(b, i),
{
    if hidden(a, i) {
        let j = choose|j: int| #[trigger] covers(a, j, i + 1) && j < i;
        assert(covers(b, j, i + 1)) by {
            assert(a[j].depth == b[j].depth);
            assert forall|k: int| j < k < i + 1 implies (#[trigger] b[k]).depth > b[j].depth by {
                assert(a[k].depth > a[j].depth);
            }
        }
    }
    if hidden(b, i) {
        let j = choose|j: int| #[trigger] covers(b, j, i + 1) && j < i;
        assert(covers(a, j, i + 1)) by {
            assert(a[j].depth == b[j].depth);
            assert forall|k: int| j < k < i + 1 implies (#[trigger] a[k]).depth > a[j].depth by {
                assert(a[k].depth == b[k].depth);
                assert(b[k].depth > b[j].depth);
            }
        }
    }
}

/// Opening a node hides nothing.
proof fn lemma_opening_shows(tree: Seq<NodeModel>, idx: int, n: int)
    requires
        0 <= idx < tree.len(),
        0 <= n <= tree.len(),
    ensures
        visible_upto(tree.update(idx, with_expanded(tree[idx], true)), n).len() >= visible_upto(
            tree,
            n,
        ).len(),
    decreases n,
{
    let opened = tree.update(idx, with_expanded(tree[idx], true));
    if n > 0 {
        lemma_opening_shows(tree, idx, n - 1);
        if hidden(opened, n - 1) {
            let j = choose|j: int| #[trigger] covers(opened, j, n) && j < n - 1;
            assert(covers(tree, j, n)) by {
                assert forall|k: int| j < k < n implies (#[trigger] tree[k]).depth
                    > tree[j].depth by {
                    assert(opened[k].depth > opened[j].depth);
                }
            }
            assert(hidden(tree, n - 1));
        }
    }
}

/// A tree with leaves filled in below a node.
pub open spec fn filled(tree: Seq<NodeModel>, idx: int, added: Seq<NodeModel>) -> Seq<NodeModel> {
    let t = with_children(tree, idx, added);
    t.update(idx, with_loaded(t[idx], true))
}

/// Whether nodes are closed children of a node.
pub open spec fn are_leaves(tree: Seq<NodeModel>, idx: int, added: Seq<NodeModel>) -> bool {
    forall|k: int|
        0 <= k < added.len() ==> (#[trigger] added[k]).depth == tree[idx].depth + 1 && !is_parent(
            added[k],
        )
}

/// Filling in leaves below a node without children hides no node that was
/// visible.
proof fn lemma_filling_keeps_hidden(
    tree: Seq<NodeModel>,
    idx: int,
    added: Seq<NodeModel>,
    i: int,
)
    requires
        0 <= idx < i < tree.len(),
        are_leaves(tree, idx, added),
        tree[idx + 1].depth <= tree[idx].depth,
    ensures
        hidden(filled(tree, idx, added), i + added.len()) ==> hidden(tree, i),
{
    let n = added.len() as int;
    let t = filled(tree, idx, added);
    assert forall|k: int| idx < k < tree.len() implies t[k + n] == #[trigger] tree[k] by {}
    assert forall|k: int| 0 <= k < n implies t[idx + 1 + k] == #[trigger] added[k] by {}
    if hidden(t, i + n) {
        let j = choose|j: int| #[trigger] covers(t, j, i + n + 1) && j < i + n;
        let next = idx + 1 + n;
        assert(t[next] == tree[idx + 1]);
        if j < idx {
            assert(covers(tree, j, i + 1)) by {
                assert(t[j] == tree[j]);
                assert forall|k: int| j < k < i + 1 implies (#[trigger] tree[k]).depth
                    > tree[j].depth by {
                    if k <= idx {
                        assert(t[k].depth > t[j].depth);
                    } else {
                        assert(t[k + n].depth > t[j].depth);
                    }
                }
            }
        } else if j == idx {
            assert(t[next].depth > t[j].depth);
            assert(false);
        } else if j < next {
            assert(t[j] == added[j - idx - 1]);
            assert(t[next].depth > t[j].depth);
            assert(false);
        } else {
            assert(covers(tree, j - n, i + 1)) by {
                assert(t[j] == tree[j - n]);
                assert forall|k: int| j - n < k < i + 1 implies (#[trigger] tree[k]).depth
                    > tree[j - n].depth by {
                    assert(t[k + n].depth > t[j].depth);
                }
            }
        }
    }
}

/// Filling in leaves below a node without children leaves at least as many rows.
proof fn lemma_filling_shows(tree: Seq<NodeModel>, idx: int, added: Seq<NodeModel>, n: int)
    requires
        0 <= idx < n <= tree.len(),
        are_leaves(tree, idx, added),
        idx + 1 < tree.len() ==> tree[idx + 1].depth <= tree[idx].depth,
    ensures
        visible_upto(filled(tree, idx, added), n + added.len()).len() >= visible_upto(
            tree,
            n,
        ).len(),
    decreases n,
{
    let t = filled(tree, idx, added);
    let size = added.len() as int;
    if n == idx + 1 {
        assert forall|i: int| 0 <= i < n implies (#[trigger] tree[i]).depth == t[i].depth by {}
        assert forall|i: int| 0 <= i < n - 1 implies (#[trigger] tree[i]).expanded
            == t[i].expanded by {}
        lemma_same_prefix(tree, t, n);
        lemma_visible_prefix(t, n, n + size);
    } else {
        lemma_filling_shows(tree, idx, added, n - 1);
        lemma_filling_keeps_hidden(tree, idx, added, n - 1);
    }
}

/// Filling in leaves below a node keeps the sidebar in order.
proof fn lemma_filling(tree: Seq<NodeModel>, idx: int, added: Seq<NodeModel>)
    requires
        0 <= idx < tree.len(),
        are_leaves(tree, idx, added),
        unloaded_are_bare(tree),
        idx + 1 < tree.len() ==> tree[idx + 1].depth <= tree[idx].depth,
    ensures
        visible(filled(tree, idx, added)).len() >= visible(tree).len(),
        unloaded_are_bare(filled(tree, idx, added)),
{
    let t = filled(tree, idx, added);
    let n = added.len() as int;
    lemma_filling_shows(tree, idx, added, tree.len() as int);
    assert(t.len() == tree.len() + n);
    assert forall|i: int, j: int|
        0 <= i && j == i + 1 && j < t.len() && is_parent(#[trigger] t[i])
            && !t[i].children_loaded implies (#[trigger] t[j]).depth <= t[i].depth by {
        if i < idx {
            assert(t[i] == tree[i]);
            assert(t[j].depth == tree[j].depth);
        } else if i == idx {
            assert(t[i].children_loaded);
        } else if i <= idx + n {
            assert(t[i] == added[i - idx - 1]);
        } else {
            assert(t[i] == tree[i - n]);
            assert(t[j] == tree[j - n]);
        }
    }
}

/// Removing the children of a node whose children are loaded, or are not any
/// more, keeps what stands below unloaded nodes.
proof fn lemma_removal(tree: Seq<NodeModel>, idx: int)
    requires
        0 <= idx < tree.len(),
        forall|i: int, j: int|
            0 <= i && i != idx && j == i + 1 && j < tree.len() && is_parent(#[trigger] tree[i])
                && !tree[i].children_loaded ==> (#[trigger] tree[j]).depth <= tree[i].depth,
    ensures
        unloaded_are_bare(without_children(tree, idx)),
        idx + 1 < without_children(tree, idx).len() ==> without_children(tree, idx)[idx + 1].depth
            <= tree[idx].depth,
        without_children(tree, idx).len() > idx,
        without_children(tree, idx)[idx] == tree[idx],
{
    let end = children_end(tree, tree[idx].depth, idx + 1);
    lemma_children_end(tree, tree[idx].depth, idx + 1);
    let bare = without_children(tree, idx);
    if idx + 1 < bare.len() {
        assert(bare[idx + 1] == tree[end]);
    }
    assert forall|i: int, j: int|
        0 <= i && j == i + 1 && j < bare.len() && is_parent(#[trigger] bare[i])
            && !bare[i].children_loaded implies (#[trigger] bare[j]).depth <= bare[i].depth by {
        if i < idx {
            assert(bare[i] == tree[i]);
            assert(bare[j] == tree[j]);
        } else if i == idx {
            assert(bare[j] == bare[idx + 1]);
        } else {
            assert(bare[i] == tree[i - idx - 1 + end]);
            assert(bare[j] == tree[j - idx - 1 + end]);
        }
    }
}

// ---------------------------------------------------------------------------
// Changes of the tree
// ---------------------------------------------------------------------------

/// Taking in the namespaces of a cluster keeps the sidebar in order.
proof fn lemma_cluster_synced(s: SidebarModel, cluster: Seq<char>, namespaces: Seq<Seq<char>>)
    requires
        in_order(s),
    ensures
        in_order(cluster_synced(s, cluster, namespaces)),
{
    let idx = cluster_node(s.tree, cluster);
    lemma_first_index_props(s.tree, is_cluster(cluster));
    let after = cluster_synced(s, cluster, namespaces);
    if idx < s.tree.len() && s.tree[idx].expanded && after != s {
        assert(is_parent(s.tree[idx]));
        let base = if s.tree[idx].children_loaded {
            without_children(s.tree, idx)
        } else {
            s.tree
        };
        if s.tree[idx].children_loaded {
            lemma_removal(s.tree, idx);
            law_clamped_cursor_is_visible(s.cursor, base);
        } else if idx + 1 < s.tree.len() {
            assert(s.tree[idx + 1].depth <= s.tree[idx].depth);
        }
        let added = namespace_children(cluster, namespaces, base[idx].depth + 1);
        assert(are_leaves(base, idx, added));
        assert(after.tree == filled(base, idx, added));
        lemma_filling(base, idx, added);
    }
}

/// Taking in the namespaces of all snapshots keeps the sidebar in order.
pub proof fn law_sync_keeps_order(s: SidebarModel, snapshots: Seq<ClusterSnapshot>)
    requires
        in_order(s),
    ensures
        in_order(all_synced(s, snapshots)),
    decreases snapshots.len(),
{
    if snapshots.len() > 0 {
        law_sync_keeps_order(s, snapshots.drop_last());
        lemma_cluster_synced(
            all_synced(s, snapshots.drop_last()),
            snapshots.last().name@,
            texts(snapshots.last().namespaces@),
        );
    }
}

/// Taking in the pools keeps the sidebar in order.
pub proof fn law_infra_sync_keeps_order(
    tree: Seq<NodeModel>,
    cursor: nat,
    pools: Seq<SdiPoolInfo>,
)
    requires
        in_order(SidebarModel { tree, cursor }),
    ensures
        in_order(SidebarModel { tree: infra_synced(tree, pools), cursor }),
{
    let idx = infra_header(tree);
    lemma_first_index_props(tree, is_infra_header());
    if idx < tree.len() && tree[idx].expanded && !tree[idx].children_loaded {
        assert(is_parent(tree[idx]));
        if idx + 1 < tree.len() {
            assert(tree[idx + 1].depth <= tree[idx].depth);
        }
        let added = infra_children(pools, tree[idx].depth + 1);
        assert(are_leaves(tree, idx, added));
        assert(infra_synced(tree, pools) == filled(tree, idx, added));
        lemma_filling(tree, idx, added);
    }
}

/// Closing a node keeps the sidebar in order.
proof fn lemma_closed(m: AppModel, idx: int)
    requires
        sidebar_in_order(m),
        0 <= idx < m.tree.len(),
    ensures
        sidebar_in_order(node_closed(m, idx)),
{
    let closed = m.tree.update(idx, with_loaded(with_expanded(m.tree[idx], false), false));
    assert forall|i: int, j: int|
        0 <= i && i != idx && j == i + 1 && j < closed.len() && is_parent(#[trigger] closed[i])
            && !closed[i].children_loaded implies (#[trigger] closed[j]).depth
        <= closed[i].depth by {
        assert(closed[i] == m.tree[i]);
        assert(closed[j].depth == m.tree[j].depth);
    }
    lemma_removal(closed, idx);
    law_clamped_cursor_is_visible(m.pos.tree_cursor, without_children(closed, idx));
}

/// Opening a node keeps the sidebar in order.
proof fn lemma_opened(m: AppModel, idx: int)
    requires
        sidebar_in_order(m),
        0 <= idx < m.tree.len(),
    ensures
        sidebar_in_order(node_opened(m, idx)),
{
    let opened = m.tree.update(idx, with_expanded(m.tree[idx], true));
    lemma_opening_shows(m.tree, idx, m.tree.len() as int);
    assert forall|i: int, j: int|
        0 <= i && j == i + 1 && j < opened.len() && is_parent(#[trigger] opened[i])
            && !opened[i].children_loaded implies (#[trigger] opened[j]).depth
        <= opened[i].depth by {
        assert(is_parent(m.tree[i]));
        assert(m.tree[j].depth <= m.tree[i].depth);
    }
}

/// Opening or closing the node under the cursor, which keeps its children,
/// keeps the sidebar in order.
proof fn lemma_toggled(m: AppModel)
    requires
        sidebar_in_order(m),
    ensures
        ({
            let idx = cursor_node(m);
            let node = m.tree[idx];
            sidebar_in_order(
                AppModel { tree: m.tree.update(idx, with_expanded(node, !node.expanded)), ..m },
            )
        }),
{
    let row = m.pos.tree_cursor as int;
    lemma_row_of(m.tree, row);
    let idx = cursor_node(m);
    let node = m.tree[idx];
    let t = m.tree.update(idx, with_expanded(node, !node.expanded));
    lemma_same_prefix(m.tree, t, idx + 1);
    lemma_visible_prefix(t, idx + 1, t.len() as int);
    assert forall|i: int, j: int|
        0 <= i && j == i + 1 && j < t.len() && is_parent(#[trigger] t[i])
            && !t[i].children_loaded implies (#[trigger] t[j]).depth <= t[i].depth by {
        assert(is_parent(m.tree[i]));
        assert(m.tree[j].depth <= m.tree[i].depth);
    }
}

/// The row of a parent is above.
proof fn lemma_parent_row(tree: Seq<NodeModel>, rows: Seq<int>, depth: nat, row: int)
    ensures
        parent_row(tree, rows, depth, row) matches Some(r) ==> 0 <= r < row,
    decreases row,
{
    if row > 0 {
        lemma_parent_row(tree, rows, depth, row - 1);
    }
}

/// Enter keeps the sidebar in order.
proof fn lemma_entered(m: AppModel)
    requires
        sidebar_in_order(m),
    ensures
        sidebar_in_order(entered(m)),
{
    lemma_row_of(m.tree, m.pos.tree_cursor as int);
    let idx = cursor_node(m);
    lemma_toggled(m);
    lemma_closed(m, idx);
    lemma_opened(m, idx);
    let opened = node_opened(m, idx);
    let s = SidebarModel { tree: opened.tree, cursor: opened.pos.tree_cursor };
    law_sync_keeps_order(s, m.data.snapshots);
    law_infra_sync_keeps_order(opened.tree, opened.pos.tree_cursor, m.data.infra.sdi_pools@);
}

/// Right keeps the sidebar in order.
proof fn lemma_expanded(m: AppModel)
    requires
        sidebar_in_order(m),
    ensures
        sidebar_in_order(expanded(m)),
{
    lemma_row_of(m.tree, m.pos.tree_cursor as int);
    let idx = cursor_node(m);
    lemma_opened(m, idx);
    let opened = node_opened(m, idx);
    let s = SidebarModel { tree: opened.tree, cursor: opened.pos.tree_cursor };
    law_sync_keeps_order(s, m.data.snapshots);
    let synced = tree_synced(opened);
    law_infra_sync_keeps_order(synced.tree, synced.pos.tree_cursor, m.data.infra.sdi_pools@);
}

/// Left keeps the sidebar in order.
proof fn lemma_collapsed(m: AppModel)
    requires
        sidebar_in_order(m),
    ensures
        sidebar_in_order(collapsed(m)),
{
    lemma_row_of(m.tree, m.pos.tree_cursor as int);
    let idx = cursor_node(m);
    lemma_closed(m, idx);
    lemma_parent_row(m.tree, visible(m.tree), m.tree[idx].depth, m.pos.tree_cursor as int);
}

/// Whatever the event, the sidebar stays in order: its cursor stands on a
/// visible row before and after.
pub proof fn law_cursor_stays_visible(m: AppModel, evt: AppEvent)
    requires
        sidebar_in_order(m),
    ensures
        sidebar_in_order(step(m, evt)),
{
    lemma_entered(m);
    lemma_expanded(m);
    lemma_collapsed(m);
}

/// A dashboard that was just started has its sidebar in order.
pub proof fn law_fresh_sidebar_in_order(m: AppModel, names: Seq<Seq<char>>, refresh_secs: u64)
    requires
        is_fresh(m, names, refresh_secs),
    ensures
        sidebar_in_order(m),
{
    let t = fresh_tree(names);
    law_first_node_visible(t);
    assert forall|i: int, j: int|
        0 <= i && j == i + 1 && j < t.len() && is_parent(#[trigger] t[i])
            && !t[i].children_loaded implies (#[trigger] t[j]).depth <= t[i].depth by {
        assert(i >= 1);
        assert(t[i] == fresh_cluster_node()(names[i - 1]));
        if j <= names.len() {
            assert(t[j] == fresh_cluster_node()(names[j - 1]));
        }
    }
}

/// What was fetched keeps the sidebar in order.
pub proof fn law_fetch_keeps_order(m: AppModel, result: FetchResult)
    requires
        sidebar_in_order(m),
    ensures
        sidebar_in_order(fetched(m, result)),
{
    law_sync_keeps_order(
        SidebarModel { tree: m.tree, cursor: m.pos.tree_cursor },
        snapshots_after(m, result),
    );
}

/// News from the discovery of clusters keeps the sidebar in order.
pub proof fn law_discovery_keeps_order(m: AppModel, event: DiscoverEvent)
    requires
        sidebar_in_order(m),
    ensures
        sidebar_in_order(discovered(m, event)),
{
    match event {
        DiscoverEvent::Connected(client) => {
            let idx = cluster_node(m.tree, client.name@);
            lemma_first_index_props(m.tree, is_cluster(client.name@));
            if idx < m.tree.len() {
                lemma_opened(m, idx);
            }
        },
        _ => {},
    }
}

/// New data on the infrastructure keep the sidebar in order.
pub proof fn law_infra_load_keeps_order(m: AppModel, infra: InfraSnapshot)
    requires
        sidebar_in_order(m),
    ensures
        sidebar_in_order(infra_loaded(m, infra)),
{
    let idx = infra_header(m.tree);
    lemma_first_index_props(m.tree, is_infra_header());
    if idx < m.tree.len() && m.tree[idx].children_loaded {
        lemma_removal(m.tree, idx);
        let bare = without_children(m.tree, idx);
        let t = bare.update(idx, with_loaded(bare[idx], false));
        let cursor = clamped(m.pos.tree_cursor, bare);
        law_clamped_cursor_is_visible(m.pos.tree_cursor, bare);
        lemma_same_prefix(bare, t, bare.len() as int);
        assert forall|i: int, j: int|
            0 <= i && j == i + 1 && j < t.len() && is_parent(#[trigger] t[i])
                && !t[i].children_loaded implies (#[trigger] t[j]).depth <= t[i].depth by {
            if i == idx {
                assert(t[j].depth == bare[idx + 1].depth);
            } else {
                assert(t[i] == bare[i]);
                assert(t[j].depth == bare[j].depth);
            }
        }
        law_infra_sync_keeps_order(t, cursor, infra.sdi_pools@);
    } else {
        law_infra_sync_keeps_order(m.tree, m.pos.tree_cursor, infra.sdi_pools@);
    }
}

} // verus!
