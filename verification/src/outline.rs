//! Laws of the sidebar's outline: below each open cluster stand its namespaces.
use vstd::prelude::*;
use crate::app::{
    collapsed, cursor_node, entered, expanded, node_closed, node_opened, step, tree_synced,
    AppModel, FetchResult,
};
use crate::data::ClusterSnapshot;
use crate::event::AppEvent;
use crate::infra::{InfraSnapshot, SdiPoolInfo};
use crate::key_laws::stands_on;
use crate::kube_client::DiscoverEvent;
use crate::list::{collect, lemma_first_index, lemma_first_index_props};
use crate::session::{
    discovered, fetched, fresh_cluster_node, fresh_tree, infra_loaded, is_fresh, snapshots_after,
};
use crate::sidebar::{lemma_row_of, sidebar_in_order};
use crate::text::{decimal, texts};
use crate::tree::{
    all_synced, children, children_end, cluster_node, cluster_synced, infra_children, infra_header,
    infra_synced, is_cluster, is_infra_header, lemma_children_end, lemma_collect_names,
    listed_namespaces, namespace_children, with_expanded, with_loaded, without_children, KindModel,
    NodeModel, SidebarModel,
};

verus! {

// ---------------------------------------------------------------------------
// The outline
// ---------------------------------------------------------------------------

/// The depth at which nodes of a kind stand.
pub open spec fn depth_of(kind: KindModel) -> nat {
    match kind {
        KindModel::Root => 0,
        KindModel::Cluster(_) => 1,
        KindModel::Namespace { .. } => 2,
        KindModel::InfraHeader => 0,
        KindModel::InfraItem(_) => 1,
    }
}

/// Whether no namespace has the name of the entry that stands for all of them.
pub open spec fn proper_names(namespaces: Seq<Seq<char>>) -> bool {
    !namespaces.contains("All Namespaces"@)
}

/// Whether nodes are the entries of a cluster's namespaces: one for all of them,
/// then one for each.
pub open spec fn are_entries(below: Seq<NodeModel>, cluster: Seq<char>) -> bool {
    exists|ns: Seq<Seq<char>>|
        proper_names(ns) && below == #[trigger] namespace_children(cluster, ns, 2)
}

/// Whether what stands below a node belongs there: below a cluster its namespaces,
/// and nothing below a node whose children are not loaded.
pub open spec fn belongs_below(node: NodeModel, below: Seq<NodeModel>) -> bool {
    match node.kind {
        KindModel::Cluster(name) => if node.children_loaded {
            are_entries(below, name)
        } else {
            below.len() == 0
        },
        KindModel::InfraHeader => !node.children_loaded ==> below.len() == 0,
        _ => true,
    }
}

/// Whether a tree is tidy: nodes stand at the depth of their kind, no cluster
/// stands in it twice, and below each node stands what belongs there.
pub open spec fn tidy(tree: Seq<NodeModel>) -> bool {
    &&& forall|i: int| 0 <= i < tree.len() ==> (#[trigger] tree[i]).depth == depth_of(tree[i].kind)
    &&& forall|i: int, j: int|
        0 <= i < j < tree.len() && (#[trigger] tree[i]).kind is Cluster ==> tree[i].kind != (
        #[trigger] tree[j]).kind
    &&& forall|i: int|
        0 <= i < tree.len() ==> belongs_below(#[trigger] tree[i], children(tree, i))
}

/// A tree with a node and all that stands below it replaced.
pub open spec fn block_replaced(
    tree: Seq<NodeModel>,
    idx: int,
    node: NodeModel,
    below: Seq<NodeModel>,
) -> Seq<NodeModel> {
    tree.take(idx) + seq![node] + below + tree.skip(
        children_end(tree, tree[idx].depth, idx + 1),
    )
}

/// Nodes that are all deeper, and end where the tree ends or a node is not deeper,
/// are the children of the node before them.
proof fn lemma_children_are(tree: Seq<NodeModel>, i: int, below: Seq<NodeModel>)
    requires
        0 <= i < tree.len(),
        i + 1 + below.len() <= tree.len(),
        forall|k: int|
            0 <= k < below.len() ==> #[trigger] tree[i + 1 + k] == below[k] && below[k].depth
                > tree[i].depth,
        i + 1 + below.len() < tree.len() ==> tree[i + 1 + below.len()].depth <= tree[i].depth,
    ensures
        children(tree, i) == below,
        children_end(tree, tree[i].depth, i + 1) == i + 1 + below.len(),
{
    let depth = tree[i].depth;
    let end = children_end(tree, depth, i + 1);
    lemma_children_end(tree, depth, i + 1);
    if end < i + 1 + below.len() {
        assert(tree[i + 1 + (end - i - 1)].depth > depth);
    }
    if end > i + 1 + below.len() {
        assert(tree[i + 1 + below.len()].depth > depth);
    }
    assert forall|k: int| 0 <= k < below.len() implies children(tree, i)[k] == below[k] by {
        assert(tree[i + 1 + k] == below[k]);
    }
    assert(children(tree, i) =~= below);
}

/// What stands below a cluster of a tidy tree are namespaces of it.
proof fn lemma_below_cluster(tree: Seq<NodeModel>, i: int, k: int)
    requires
        tidy(tree),
        0 <= i < tree.len(),
        tree[i].kind is Cluster,
        i < k < children_end(tree, 1, i + 1),
    ensures
        k < tree.len(),
        tree[k].kind is Namespace,
{
    lemma_children_end(tree, 1, i + 1);
    assert(belongs_below(tree[i], children(tree, i)));
    let below = children(tree, i);
    assert(below.len() > 0);
    let name = tree[i].kind->Cluster_0;
    let ns = choose|ns: Seq<Seq<char>>|
        proper_names(ns) && below == #[trigger] namespace_children(name, ns, 2);
    assert(below[k - i - 1] == tree[k]);
}

/// Where a node that stands outside of a replaced block stands afterwards.
spec fn moved(tree: Seq<NodeModel>, idx: int, below: Seq<NodeModel>, i: int) -> int {
    if i <= idx {
        i
    } else {
        i + below.len() - (children_end(tree, tree[idx].depth, idx + 1) - idx - 1)
    }
}

/// Replacing a block leaves what stands below the other nodes, except below those
/// that the block stands below.
proof fn lemma_other_blocks(
    tree: Seq<NodeModel>,
    idx: int,
    node: NodeModel,
    below: Seq<NodeModel>,
    i: int,
)
    requires
        0 <= idx < tree.len(),
        node.depth == tree[idx].depth,
        0 <= i < tree.len(),
        i < idx ==> children_end(tree, tree[i].depth, i + 1) <= idx,
        i >= idx ==> i >= children_end(tree, tree[idx].depth, idx + 1),
    ensures
        ({
            let t = block_replaced(tree, idx, node, below);
            let p = moved(tree, idx, below, i);
            &&& 0 <= p < t.len()
            &&& t[p] == tree[i]
            &&& children(t, p) == children(tree, i)
        }),
{
    let t = block_replaced(tree, idx, node, below);
    let end = children_end(tree, tree[idx].depth, idx + 1);
    lemma_children_end(tree, tree[idx].depth, idx + 1);
    lemma_children_end(tree, tree[i].depth, i + 1);
    let p = moved(tree, idx, below, i);
    let mine = children(tree, i);
    let last = children_end(tree, tree[i].depth, i + 1);
    let shift = p - i;
    assert forall|k: int| 0 <= k < mine.len() implies #[trigger] t[p + 1 + k] == mine[k]
        && mine[k].depth > t[p].depth by {
        assert(mine[k] == tree[i + 1 + k]);
    }
    if i < idx {
        if last < idx {
            assert(t[last] == tree[last]);
        } else {
            assert(t[idx] == node);
        }
    } else if last < tree.len() {
        assert(t[last + shift] == tree[last]);
    }
    lemma_children_are(t, p, mine);
}

/// Replacing the block of a node that is no namespace by one that belongs there
/// keeps a tree tidy.
#[verifier::rlimit(60)]
#[verifier::spinoff_prover]
proof fn lemma_block_replaced(
    tree: Seq<NodeModel>,
    idx: int,
    node: NodeModel,
    below: Seq<NodeModel>,
)
    requires
        tidy(tree),
        0 <= idx < tree.len(),
        !(tree[idx].kind is Namespace),
        node.depth == tree[idx].depth,
        node.kind == tree[idx].kind,
        forall|k: int|
            0 <= k < below.len() ==> (#[trigger] below[k]).depth == depth_of(below[k].kind)
                && below[k].depth > node.depth && (below[k].kind is Namespace
                || below[k].kind is InfraItem),
        belongs_below(node, below),
    ensures
        tidy(block_replaced(tree, idx, node, below)),
        children(block_replaced(tree, idx, node, below), idx) == below,
{
    let t = block_replaced(tree, idx, node, below);
    let end = children_end(tree, tree[idx].depth, idx + 1);
    lemma_children_end(tree, tree[idx].depth, idx + 1);
    let added = below.len() as int;
    let shift = end - idx - 1 - added;
    assert forall|p: int| 0 <= p < idx implies #[trigger] t[p] == tree[p] by {}
    assert forall|p: int| idx < p <= idx + added implies #[trigger] t[p] == below[p - idx - 1] by {}
    assert forall|p: int| idx + added < p < t.len() implies #[trigger] t[p] == tree[p
        + shift] by {}
    assert(t[idx] == node);
    assert forall|p: int, q: int| 0 <= p < q < t.len() && (#[trigger] t[p]).kind is Cluster implies
        t[p].kind != (#[trigger] t[q]).kind by {
        let i = if p <= idx {
            p
        } else {
            p + shift
        };
        let j = if q <= idx {
            q
        } else {
            q + shift
        };
        assert(t[p].kind == tree[i].kind);
        if !(idx < q <= idx + added) {
            assert(t[q].kind == tree[j].kind);
        }
    }
    assert forall|k: int| 0 <= k < added implies #[trigger] t[idx + 1 + k] == below[k]
        && below[k].depth > t[idx].depth by {}
    if idx + 1 + added < t.len() {
        assert(t[idx + 1 + added] == tree[end]);
    }
    lemma_children_are(t, idx, below);
    assert forall|p: int| 0 <= p < t.len() implies belongs_below(
        #[trigger] t[p],
        children(t, p),
    ) by {
        if p < idx {
            assert(belongs_below(tree[p], children(tree, p)));
            lemma_children_end(tree, tree[p].depth, p + 1);
            let last = children_end(tree, tree[p].depth, p + 1);
            if last <= idx {
                lemma_other_blocks(tree, idx, node, below, p);
            } else if tree[p].kind is Cluster {
                lemma_below_cluster(tree, p, idx);
            } else {
                assert(children(tree, p).len() > 0);
            }
        } else if p > idx + added {
            assert(belongs_below(tree[p + shift], children(tree, p + shift)));
            lemma_other_blocks(tree, idx, node, below, p + shift);
        }
    }
}

/// Opening or closing a node that is no namespace keeps a tree tidy.
proof fn lemma_expansion_tidy(tree: Seq<NodeModel>, idx: int, open: bool)
    requires
        tidy(tree),
        0 <= idx < tree.len(),
        !(tree[idx].kind is Namespace),
    ensures
        tidy(tree.update(idx, with_expanded(tree[idx], open))),
{
    let t = tree.update(idx, with_expanded(tree[idx], open));
    assert forall|i: int, j: int| 0 <= i < j < t.len() && (#[trigger] t[i]).kind is Cluster implies
        t[i].kind != (#[trigger] t[j]).kind by {
        assert(tree[i].kind != tree[j].kind);
    }
    assert forall|i: int| 0 <= i < t.len() implies belongs_below(
        #[trigger] t[i],
        children(t, i),
    ) by {
        let below = children(tree, i);
        assert(belongs_below(tree[i], below));
        lemma_children_end(tree, tree[i].depth, i + 1);
        let last = children_end(tree, tree[i].depth, i + 1);
        let now = t.subrange(i + 1, last);
        assert forall|k: int| 0 <= k < now.len() implies #[trigger] t[i + 1 + k] == now[k]
            && now[k].depth > t[i].depth by {
            assert(tree[i + 1 + k].depth > tree[i].depth);
        }
        lemma_children_are(t, i, now);
        if tree[i].kind is Cluster {
            if i < idx < last {
                lemma_below_cluster(tree, i, idx);
            }
            assert(now =~= below);
        }
    }
}

// ---------------------------------------------------------------------------
// Clusters
// ---------------------------------------------------------------------------

/// The node of a cluster.
pub open spec fn node_named(tree: Seq<NodeModel>, name: Seq<char>) -> Option<NodeModel> {
    let idx = cluster_node(tree, name);
    if idx < tree.len() {
        Some(tree[idx])
    } else {
        None
    }
}

/// What stands below the node of a cluster.
pub open spec fn below_cluster(tree: Seq<NodeModel>, name: Seq<char>) -> Seq<NodeModel> {
    let idx = cluster_node(tree, name);
    if idx < tree.len() {
        children(tree, idx)
    } else {
        Seq::empty()
    }
}

/// In a tidy tree a cluster is found where it stands.
proof fn lemma_found_at(tree: Seq<NodeModel>, i: int, name: Seq<char>)
    requires
        tidy(tree),
        0 <= i < tree.len(),
        tree[i].kind == KindModel::Cluster(name),
    ensures
        cluster_node(tree, name) == i,
{
    assert forall|j: int| 0 <= j < i implies !is_cluster(name)(#[trigger] tree[j]) by {
        if tree[j].kind is Cluster {
            assert(tree[j].kind != tree[i].kind);
        }
    }
    lemma_first_index(tree, i, is_cluster(name));
}

/// Replacing the block of a cluster leaves another cluster of the tree as it is.
proof fn lemma_other_cluster_kept(
    tree: Seq<NodeModel>,
    idx: int,
    node: NodeModel,
    below: Seq<NodeModel>,
    i: int,
    name: Seq<char>,
)
    requires
        tidy(tree),
        tidy(block_replaced(tree, idx, node, below)),
        0 <= idx < tree.len(),
        tree[idx].kind is Cluster,
        node.depth == tree[idx].depth,
        0 <= i < tree.len(),
        i != idx,
        tree[i].kind == KindModel::Cluster(name),
    ensures
        node_named(block_replaced(tree, idx, node, below), name) == Some(tree[i]),
        below_cluster(block_replaced(tree, idx, node, below), name) == children(tree, i),
{
    assert(tree[idx].depth == 1 && tree[i].depth == 1);
    let end = children_end(tree, 1, idx + 1);
    if idx < i && i < end {
        lemma_below_cluster(tree, idx, i);
    }
    if i < idx && children_end(tree, 1, i + 1) > idx {
        lemma_below_cluster(tree, i, idx);
    }
    lemma_other_blocks(tree, idx, node, below, i);
    lemma_found_at(block_replaced(tree, idx, node, below), moved(tree, idx, below, i), name);
}

/// Replacing the block of a cluster brings no other cluster in.
proof fn lemma_no_other_cluster(
    tree: Seq<NodeModel>,
    idx: int,
    node: NodeModel,
    below: Seq<NodeModel>,
    name: Seq<char>,
)
    requires
        0 <= idx < tree.len(),
        forall|i: int| 0 <= i < tree.len() ==> !is_cluster(name)(#[trigger] tree[i]),
        node.kind == tree[idx].kind,
        forall|k: int| 0 <= k < below.len() ==> !((#[trigger] below[k]).kind is Cluster),
    ensures
        node_named(block_replaced(tree, idx, node, below), name) is None,
        below_cluster(block_replaced(tree, idx, node, below), name) == Seq::<NodeModel>::empty(),
{
    let t = block_replaced(tree, idx, node, below);
    let end = children_end(tree, tree[idx].depth, idx + 1);
    let added = below.len() as int;
    lemma_children_end(tree, tree[idx].depth, idx + 1);
    assert forall|p: int| 0 <= p < t.len() implies !is_cluster(name)(#[trigger] t[p]) by {
        if p < idx {
            assert(t[p] == tree[p]);
        } else if p == idx {
            assert(!is_cluster(name)(tree[idx]));
        } else if p > idx + added {
            assert(t[p] == tree[p - added - idx - 1 + end]);
        } else {
            assert(t[p] == below[p - idx - 1]);
        }
    }
    lemma_first_index(t, t.len() as int, is_cluster(name));
}

/// Replacing the block of a cluster leaves the other clusters as they are.
proof fn lemma_other_clusters(
    tree: Seq<NodeModel>,
    idx: int,
    node: NodeModel,
    below: Seq<NodeModel>,
    name: Seq<char>,
)
    requires
        tidy(tree),
        tidy(block_replaced(tree, idx, node, below)),
        0 <= idx < tree.len(),
        tree[idx].kind is Cluster,
        tree[idx].kind != KindModel::Cluster(name),
        node.depth == tree[idx].depth,
        node.kind == tree[idx].kind,
        forall|k: int| 0 <= k < below.len() ==> !((#[trigger] below[k]).kind is Cluster),
    ensures
        node_named(block_replaced(tree, idx, node, below), name) == node_named(tree, name),
        below_cluster(block_replaced(tree, idx, node, below), name) == below_cluster(tree, name),
{
    lemma_first_index_props(tree, is_cluster(name));
    let i = cluster_node(tree, name);
    if i < tree.len() {
        lemma_other_cluster_kept(tree, idx, node, below, i, name);
    } else {
        lemma_no_other_cluster(tree, idx, node, below, name);
    }
}

/// The nodes that are no namespaces.
pub open spec fn no_namespace() -> spec_fn(NodeModel) -> bool {
    |n: NodeModel| !(n.kind is Namespace)
}

/// A node without regard to whether its children are loaded, where it is a
/// cluster's.
pub open spec fn apart_from_loading() -> spec_fn(NodeModel) -> NodeModel {
    |n: NodeModel|
        if n.kind is Cluster {
            with_loaded(n, false)
        } else {
            n
        }
}

/// All nodes but namespaces, in their order, without regard to whether the
/// children of clusters are loaded.
pub open spec fn frame(tree: Seq<NodeModel>) -> Seq<NodeModel> {
    collect(tree, no_namespace(), apart_from_loading())
}

/// The frame of two lists one after the other.
proof fn lemma_frame_add(a: Seq<NodeModel>, b: Seq<NodeModel>)
    ensures
        frame(a + b) == frame(a) + frame(b),
    decreases b.len(),
{
    if b.len() == 0 {
        assert(a + b =~= a);
        assert(frame(a) + frame(b) =~= frame(a));
    } else {
        lemma_frame_add(a, b.drop_last());
        assert((a + b).drop_last() =~= a + b.drop_last());
        assert(frame(a + b) =~= frame(a) + frame(b));
    }
}

/// Namespaces have no frame.
proof fn lemma_no_frame(s: Seq<NodeModel>)
    requires
        forall|k: int| 0 <= k < s.len() ==> (#[trigger] s[k]).kind is Namespace,
    ensures
        frame(s) == Seq::<NodeModel>::empty(),
    decreases s.len(),
{
    if s.len() > 0 {
        lemma_no_frame(s.drop_last());
    }
}

/// Replacing the block of a cluster by one with namespaces below leaves the frame,
/// if the node is the same apart from loading.
proof fn lemma_same_frame(
    tree: Seq<NodeModel>,
    idx: int,
    node: NodeModel,
    below: Seq<NodeModel>,
)
    requires
        tidy(tree),
        0 <= idx < tree.len(),
        tree[idx].kind is Cluster,
        apart_from_loading()(node) == apart_from_loading()(tree[idx]),
        forall|k: int| 0 <= k < below.len() ==> (#[trigger] below[k]).kind is Namespace,
    ensures
        frame(block_replaced(tree, idx, node, below)) == frame(tree),
{
    let end = children_end(tree, tree[idx].depth, idx + 1);
    lemma_children_end(tree, tree[idx].depth, idx + 1);
    let before = tree.take(idx);
    let old_below = tree.subrange(idx + 1, end);
    let after = tree.skip(end);
    assert forall|k: int| 0 <= k < old_below.len() implies (
    #[trigger] old_below[k]).kind is Namespace by {
        lemma_below_cluster(tree, idx, idx + 1 + k);
    }
    assert(node.kind is Cluster);
    assert(tree =~= before + seq![tree[idx]] + old_below + after);
    lemma_frame_add(before + seq![tree[idx]] + old_below, after);
    lemma_frame_add(before + seq![tree[idx]], old_below);
    lemma_frame_add(before, seq![tree[idx]]);
    lemma_frame_add(before + seq![node] + below, after);
    lemma_frame_add(before + seq![node], below);
    lemma_frame_add(before, seq![node]);
    lemma_no_frame(old_below);
    lemma_no_frame(below);
    assert(seq![node].drop_last() =~= Seq::empty());
    assert(seq![tree[idx]].drop_last() =~= Seq::empty());
    assert(frame(seq![node]) =~= frame(seq![tree[idx]]));
}

/// The namespaces that the entries of a cluster list are those that they were made
/// for.
proof fn lemma_entries_list(cluster: Seq<char>, ns: Seq<Seq<char>>, tree: Seq<NodeModel>, i: int)
    requires
        proper_names(ns),
        children(tree, i) == namespace_children(cluster, ns, 2),
    ensures
        listed_namespaces(tree, i) == ns,
{
    let below = children(tree, i);
    assert forall|k: int| 0 <= k < ns.len() implies (#[trigger] ns[k]) != "All Namespaces"@ by {
        assert(ns.contains(ns[k]));
    }
    lemma_collect_names(below, cluster, ns, 2, ns.len() as int);
    assert(below.take(ns.len() as int + 1) =~= below);
    assert(ns.take(ns.len() as int) =~= ns);
}

/// Whether a cluster that is open shows namespaces, and no others.
pub open spec fn shows_namespaces(
    tree: Seq<NodeModel>,
    name: Seq<char>,
    namespaces: Seq<Seq<char>>,
) -> bool {
    match node_named(tree, name) {
        Some(node) => node.expanded ==> node.children_loaded && below_cluster(tree, name)
            == namespace_children(name, namespaces, 2),
        None => true,
    }
}

/// The tree with the namespaces of a cluster put below its node.
pub open spec fn refilled(
    tree: Seq<NodeModel>,
    cluster: Seq<char>,
    namespaces: Seq<Seq<char>>,
) -> Seq<NodeModel> {
    let idx = cluster_node(tree, cluster);
    block_replaced(
        tree,
        idx,
        with_loaded(tree[idx], true),
        namespace_children(cluster, namespaces, 2),
    )
}

/// Whether all clusters but one are the same in two trees, with what stands below
/// them.
pub open spec fn others_kept(a: Seq<NodeModel>, b: Seq<NodeModel>, cluster: Seq<char>) -> bool {
    forall|d: Seq<char>|
        d != cluster ==> (#[trigger] node_named(b, d)) == node_named(a, d) && below_cluster(b, d)
            == below_cluster(a, d)
}

/// Putting the namespaces of a cluster below its node changes nothing else.
proof fn lemma_refilled(tree: Seq<NodeModel>, cluster: Seq<char>, ns: Seq<Seq<char>>)
    requires
        tidy(tree),
        proper_names(ns),
        node_named(tree, cluster) is Some,
    ensures
        tidy(refilled(tree, cluster, ns)),
        frame(refilled(tree, cluster, ns)) == frame(tree),
        node_named(refilled(tree, cluster, ns), cluster) == Some(
            with_loaded(node_named(tree, cluster)->0, true),
        ),
        below_cluster(refilled(tree, cluster, ns), cluster) == namespace_children(cluster, ns, 2),
        others_kept(tree, refilled(tree, cluster, ns), cluster),
{
    let idx = cluster_node(tree, cluster);
    lemma_first_index_props(tree, is_cluster(cluster));
    let node = with_loaded(tree[idx], true);
    let below = namespace_children(cluster, ns, 2);
    let t = refilled(tree, cluster, ns);
    assert(are_entries(below, cluster));
    lemma_block_replaced(tree, idx, node, below);
    lemma_same_frame(tree, idx, node, below);
    assert(t[idx] == node);
    lemma_found_at(t, idx, cluster);
    assert forall|d: Seq<char>| d != cluster implies (#[trigger] node_named(t, d)) == node_named(
        tree,
        d,
    ) && below_cluster(t, d) == below_cluster(tree, d) by {
        lemma_other_clusters(tree, idx, node, below, d);
    }
}

/// Taking in the namespaces of a cluster leaves the tree, or puts them below the
/// cluster's node where it is open.
proof fn lemma_synced_tree(s: SidebarModel, cluster: Seq<char>, ns: Seq<Seq<char>>)
    requires
        tidy(s.tree),
        proper_names(ns),
    ensures
        ({
            let t = cluster_synced(s, cluster, ns).tree;
            ||| t == s.tree && shows_namespaces(t, cluster, ns)
            ||| t == refilled(s.tree, cluster, ns) && node_named(s.tree, cluster) is Some
                && node_named(s.tree, cluster)->0.expanded
        }),
{
    let tree = s.tree;
    let idx = cluster_node(tree, cluster);
    lemma_first_index_props(tree, is_cluster(cluster));
    let t = cluster_synced(s, cluster, ns).tree;
    if idx < tree.len() && tree[idx].expanded {
        let below = children(tree, idx);
        assert(belongs_below(tree[idx], below));
        lemma_children_end(tree, 1, idx + 1);
        if tree[idx].children_loaded {
            let had = choose|had: Seq<Seq<char>>|
                proper_names(had) && below == #[trigger] namespace_children(cluster, had, 2);
            lemma_entries_list(cluster, had, tree, idx);
        }
        if !(tree[idx].children_loaded && listed_namespaces(tree, idx) == ns) {
            assert(t =~= refilled(tree, cluster, ns));
        }
    }
}

/// Taking in the namespaces of a cluster: afterwards it shows them if it is open,
/// and is as before if it is not; the other clusters and all other nodes are as
/// before.
proof fn lemma_one_synced(s: SidebarModel, cluster: Seq<char>, ns: Seq<Seq<char>>)
    requires
        tidy(s.tree),
        proper_names(ns),
    ensures
        ({
            let t = cluster_synced(s, cluster, ns).tree;
            &&& tidy(t)
            &&& frame(t) == frame(s.tree)
            &&& shows_namespaces(t, cluster, ns)
            &&& others_kept(s.tree, t, cluster)
            &&& match node_named(s.tree, cluster) {
                Some(n) => if n.expanded {
                    node_named(t, cluster) is Some && node_named(t, cluster)->0.expanded
                } else {
                    t == s.tree
                },
                None => t == s.tree,
            }
        }),
{
    lemma_synced_tree(s, cluster, ns);
    if node_named(s.tree, cluster) is Some {
        lemma_refilled(s.tree, cluster, ns);
    }
}

// ---------------------------------------------------------------------------
// All snapshots
// ---------------------------------------------------------------------------

/// Whether each snapshot is of another cluster.
pub open spec fn distinct_names(snapshots: Seq<ClusterSnapshot>) -> bool {
    forall|i: int, j: int|
        0 <= i < j < snapshots.len() ==> (#[trigger] snapshots[i]).name@ != (
        #[trigger] snapshots[j]).name@
}

/// Whether no snapshot has a namespace with the name of the entry that stands for
/// all of them.
pub open spec fn proper_namespaces(snapshots: Seq<ClusterSnapshot>) -> bool {
    forall|i: int|
        0 <= i < snapshots.len() ==> proper_names(texts((#[trigger] snapshots[i]).namespaces@))
}

/// Whether some snapshot is of a cluster.
pub open spec fn has_snapshot(snapshots: Seq<ClusterSnapshot>, name: Seq<char>) -> bool {
    exists|i: int| 0 <= i < snapshots.len() && (#[trigger] snapshots[i]).name@ == name
}

/// Taking in the namespaces of all snapshots keeps a tree tidy.
pub proof fn law_sync_keeps_tidy(s: SidebarModel, snapshots: Seq<ClusterSnapshot>)
    requires
        tidy(s.tree),
        proper_namespaces(snapshots),
    ensures
        tidy(all_synced(s, snapshots).tree),
    decreases snapshots.len(),
{
    if snapshots.len() > 0 {
        assert forall|i: int| 0 <= i < snapshots.drop_last().len() implies proper_names(
            texts((#[trigger] snapshots.drop_last()[i]).namespaces@),
        ) by {
            assert(snapshots.drop_last()[i] == snapshots[i]);
        }
        law_sync_keeps_tidy(s, snapshots.drop_last());
        lemma_one_synced(
            all_synced(s, snapshots.drop_last()),
            snapshots.last().name@,
            texts(snapshots.last().namespaces@),
        );
    }
}

/// After the namespaces of all snapshots were taken in, every open cluster that has
/// a snapshot shows the entry for all namespaces and then the snapshot's, one level
/// below and in order. Closed clusters and clusters without a snapshot are as
/// before, with what stands below them, and so are all nodes that are neither
/// clusters nor namespaces; all of them keep their order.
pub proof fn law_sync_shows_namespaces(s: SidebarModel, snapshots: Seq<ClusterSnapshot>)
    requires
        tidy(s.tree),
        proper_namespaces(snapshots),
        distinct_names(snapshots),
    ensures
        ({
            let t = all_synced(s, snapshots).tree;
            &&& forall|i: int|
                0 <= i < snapshots.len() ==> shows_namespaces(
                    t,
                    (#[trigger] snapshots[i]).name@,
                    texts(snapshots[i].namespaces@),
                )
            &&& forall|d: Seq<char>|
                !has_snapshot(snapshots, d) || (node_named(s.tree, d) matches Some(n)
                    && !n.expanded) ==> (#[trigger] node_named(t, d)) == node_named(s.tree, d)
                    && below_cluster(t, d) == below_cluster(s.tree, d)
            &&& forall|d: Seq<char>| #[trigger]
                node_named(t, d) is Some == node_named(s.tree, d) is Some
            &&& forall|d: Seq<char>|
                (#[trigger] node_named(t, d)) is Some ==> node_named(t, d)->0.expanded
                    == node_named(s.tree, d)->0.expanded
            &&& frame(t) == frame(s.tree)
        }),
    decreases snapshots.len(),
{
    if snapshots.len() > 0 {
        let rest = snapshots.drop_last();
        let last = snapshots.last();
        let n = rest.len() as int;
        assert forall|i: int| 0 <= i < n implies #[trigger] rest[i] == snapshots[i] by {}
        assert(last == snapshots[n]);
        law_sync_keeps_tidy(s, rest);
        law_sync_shows_namespaces(s, rest);
        let before = all_synced(s, rest);
        lemma_one_synced(before, last.name@, texts(last.namespaces@));
        let t = all_synced(s, snapshots).tree;
        assert forall|i: int| 0 <= i < snapshots.len() implies shows_namespaces(
            t,
            (#[trigger] snapshots[i]).name@,
            texts(snapshots[i].namespaces@),
        ) by {
            if i < n {
                assert(shows_namespaces(before.tree, rest[i].name@, texts(rest[i].namespaces@)));
                assert(node_named(t, snapshots[i].name@) == node_named(
                    before.tree,
                    snapshots[i].name@,
                ));
            }
        }
        assert forall|d: Seq<char>|
            !has_snapshot(snapshots, d) || (node_named(s.tree, d) matches Some(n)
                && !n.expanded) implies (#[trigger] node_named(t, d)) == node_named(s.tree, d)
            && below_cluster(t, d) == below_cluster(s.tree, d) by {
            if has_snapshot(rest, d) {
                let i = choose|i: int| 0 <= i < rest.len() && (#[trigger] rest[i]).name@ == d;
                assert(snapshots[i].name@ == d);
            }
            assert(node_named(before.tree, d) == node_named(s.tree, d));
            if d == last.name@ {
                assert(has_snapshot(snapshots, d));
            }
        }
    }
}

/// A tree that shows the namespaces of all snapshots stays as it is.
proof fn lemma_nothing_to_sync(s: SidebarModel, snapshots: Seq<ClusterSnapshot>)
    requires
        tidy(s.tree),
        proper_namespaces(snapshots),
        forall|i: int|
            0 <= i < snapshots.len() ==> shows_namespaces(
                s.tree,
                (#[trigger] snapshots[i]).name@,
                texts(snapshots[i].namespaces@),
            ),
    ensures
        all_synced(s, snapshots) == s,
    decreases snapshots.len(),
{
    if snapshots.len() > 0 {
        let rest = snapshots.drop_last();
        let last = snapshots.last();
        assert forall|i: int| 0 <= i < rest.len() implies #[trigger] rest[i] == snapshots[i] by {}
        assert(last == snapshots[rest.len() as int]);
        lemma_nothing_to_sync(s, rest);
        let idx = cluster_node(s.tree, last.name@);
        lemma_first_index_props(s.tree, is_cluster(last.name@));
        if idx < s.tree.len() && s.tree[idx].expanded {
            assert(shows_namespaces(s.tree, last.name@, texts(last.namespaces@)));
            lemma_entries_list(last.name@, texts(last.namespaces@), s.tree, idx);
        }
    }
}

/// Taking in the namespaces of the same snapshots again changes nothing.
pub proof fn law_sync_all_idempotent(s: SidebarModel, snapshots: Seq<ClusterSnapshot>)
    requires
        tidy(s.tree),
        proper_namespaces(snapshots),
        distinct_names(snapshots),
    ensures
        all_synced(all_synced(s, snapshots), snapshots) == all_synced(s, snapshots),
{
    law_sync_keeps_tidy(s, snapshots);
    law_sync_shows_namespaces(s, snapshots);
    lemma_nothing_to_sync(all_synced(s, snapshots), snapshots);
}

// ---------------------------------------------------------------------------
// What keeps the outline
// ---------------------------------------------------------------------------

/// A dashboard that was just started for clusters of different names has a tidy
/// tree.
pub proof fn law_fresh_tree_tidy(m: AppModel, names: Seq<Seq<char>>, refresh_secs: u64)
    requires
        is_fresh(m, names, refresh_secs),
        names.no_duplicates(),
    ensures
        tidy(m.tree),
{
    let t = fresh_tree(names);
    let n = names.len() as int;
    assert(t.len() == n + 2);
    assert(t[0].kind is Root);
    assert(t[n + 1].kind is InfraHeader);
    assert forall|i: int| 1 <= i <= n implies #[trigger] t[i] == fresh_cluster_node()(
        names[i - 1],
    ) by {}
    assert forall|i: int, j: int| 0 <= i < j < t.len() && (#[trigger] t[i]).kind is Cluster implies
        t[i].kind != (#[trigger] t[j]).kind by {
        if j <= n {
            assert(names[i - 1] != names[j - 1]);
        }
    }
    assert forall|i: int| 0 <= i < t.len() implies belongs_below(
        #[trigger] t[i],
        children(t, i),
    ) by {
        if i > 0 {
            lemma_children_are(t, i, Seq::empty());
        }
    }
}

/// Closing a node keeps a tree tidy.
proof fn lemma_closed_tidy(m: AppModel, idx: int)
    requires
        tidy(m.tree),
        0 <= idx < m.tree.len(),
        !(m.tree[idx].kind is Namespace),
    ensures
        tidy(node_closed(m, idx).tree),
{
    let node = with_loaded(with_expanded(m.tree[idx], false), false);
    let closed = m.tree.update(idx, node);
    let depth = m.tree[idx].depth;
    lemma_children_end(m.tree, depth, idx + 1);
    let end = children_end(m.tree, depth, idx + 1);
    let below = closed.subrange(idx + 1, end);
    assert forall|k: int| 0 <= k < below.len() implies #[trigger] closed[idx + 1 + k] == below[k]
        && below[k].depth > closed[idx].depth by {
        assert(m.tree[idx + 1 + k].depth > depth);
    }
    lemma_children_are(closed, idx, below);
    assert(node_closed(m, idx).tree =~= block_replaced(m.tree, idx, node, Seq::empty()));
    lemma_block_replaced(m.tree, idx, node, Seq::empty());
}

/// Taking in the pools keeps a tree tidy.
proof fn lemma_infra_tidy(tree: Seq<NodeModel>, pools: Seq<SdiPoolInfo>)
    requires
        tidy(tree),
    ensures
        tidy(infra_synced(tree, pools)),
{
    let idx = infra_header(tree);
    lemma_first_index_props(tree, is_infra_header());
    if idx < tree.len() && tree[idx].expanded && !tree[idx].children_loaded {
        assert(belongs_below(tree[idx], children(tree, idx)));
        lemma_children_end(tree, 0, idx + 1);
        let node = with_loaded(tree[idx], true);
        let below = infra_children(pools, 1);
        assert(infra_synced(tree, pools) =~= block_replaced(tree, idx, node, below));
        lemma_block_replaced(tree, idx, node, below);
    }
}

/// Enter keeps a tree tidy.
proof fn lemma_entered_tidy(m: AppModel)
    requires
        tidy(m.tree),
        sidebar_in_order(m),
        proper_namespaces(m.data.snapshots),
    ensures
        tidy(entered(m).tree),
{
    lemma_row_of(m.tree, m.pos.tree_cursor as int);
    let idx = cursor_node(m);
    let node = m.tree[idx];
    if !(node.kind is Namespace) {
        lemma_expansion_tidy(m.tree, idx, !node.expanded);
        lemma_expansion_tidy(m.tree, idx, true);
        lemma_closed_tidy(m, idx);
        let opened = node_opened(m, idx);
        let s = SidebarModel { tree: opened.tree, cursor: opened.pos.tree_cursor };
        law_sync_keeps_tidy(s, m.data.snapshots);
        lemma_infra_tidy(opened.tree, m.data.infra.sdi_pools@);
    }
}

/// Right keeps a tree tidy.
proof fn lemma_expanded_tidy(m: AppModel)
    requires
        tidy(m.tree),
        sidebar_in_order(m),
        proper_namespaces(m.data.snapshots),
    ensures
        tidy(expanded(m).tree),
{
    lemma_row_of(m.tree, m.pos.tree_cursor as int);
    let idx = cursor_node(m);
    if !(m.tree[idx].kind is Namespace) {
        lemma_expansion_tidy(m.tree, idx, true);
        let opened = node_opened(m, idx);
        let s = SidebarModel { tree: opened.tree, cursor: opened.pos.tree_cursor };
        law_sync_keeps_tidy(s, m.data.snapshots);
        lemma_infra_tidy(tree_synced(opened).tree, m.data.infra.sdi_pools@);
    }
}

/// Left keeps a tree tidy.
proof fn lemma_collapsed_tidy(m: AppModel)
    requires
        tidy(m.tree),
        sidebar_in_order(m),
    ensures
        tidy(collapsed(m).tree),
{
    lemma_row_of(m.tree, m.pos.tree_cursor as int);
    let idx = cursor_node(m);
    if !(m.tree[idx].kind is Namespace) {
        lemma_closed_tidy(m, idx);
    }
}

/// Whatever the event, a tidy tree stays tidy.
pub proof fn law_events_keep_tidy(m: AppModel, evt: AppEvent)
    requires
        tidy(m.tree),
        sidebar_in_order(m),
        proper_namespaces(m.data.snapshots),
    ensures
        tidy(step(m, evt).tree),
{
    lemma_entered_tidy(m);
    lemma_expanded_tidy(m);
    lemma_collapsed_tidy(m);
}

/// Taking in the pools leaves the clusters as they are, and what stands below them.
proof fn lemma_infra_keeps_cluster(
    tree: Seq<NodeModel>,
    pools: Seq<SdiPoolInfo>,
    i: int,
    name: Seq<char>,
)
    requires
        tidy(tree),
        0 <= i < tree.len(),
        tree[i].kind == KindModel::Cluster(name),
    ensures
        node_named(infra_synced(tree, pools), name) == Some(tree[i]),
        below_cluster(infra_synced(tree, pools), name) == children(tree, i),
{
    let t = infra_synced(tree, pools);
    let idx = infra_header(tree);
    lemma_first_index_props(tree, is_infra_header());
    lemma_infra_tidy(tree, pools);
    if idx < tree.len() && tree[idx].expanded && !tree[idx].children_loaded {
        assert(belongs_below(tree[idx], children(tree, idx)));
        lemma_children_end(tree, 0, idx + 1);
        let node = with_loaded(tree[idx], true);
        let below = infra_children(pools, 1);
        assert(t =~= block_replaced(tree, idx, node, below));
        if i < idx && children_end(tree, 1, i + 1) > idx {
            lemma_below_cluster(tree, i, idx);
        }
        lemma_other_blocks(tree, idx, node, below, i);
        lemma_found_at(t, moved(tree, idx, below, i), name);
    } else {
        lemma_found_at(t, i, name);
    }
}

/// Enter or Right on a closed cluster opens it. If a snapshot of it was fetched, an
/// entry for all namespaces stands right below it, and below that one for each of
/// them, in order.
#[verifier::rlimit(60)]
#[verifier::spinoff_prover]
pub proof fn law_a_closed_cluster_opens(m: AppModel, evt: AppEvent, idx: int, name: Seq<char>)
    requires
        stands_on(m, idx),
        0 <= idx < m.tree.len(),
        m.tree[idx].kind == KindModel::Cluster(name),
        !m.tree[idx].expanded,
        evt == AppEvent::Enter || evt == AppEvent::Right || evt == AppEvent::ArrowRight,
        tidy(m.tree),
        proper_namespaces(m.data.snapshots),
        distinct_names(m.data.snapshots),
    ensures
        exists|p: int|
            {
                &&& 0 <= p < step(m, evt).tree.len()
                &&& (#[trigger] step(m, evt).tree[p]).kind == KindModel::Cluster(name)
                &&& step(m, evt).tree[p].expanded
                &&& forall|i: int|
                    0 <= i < m.data.snapshots.len() && (#[trigger] m.data.snapshots[i]).name@
                        == name ==> lists_below(
                        step(m, evt).tree,
                        p,
                        name,
                        texts(m.data.snapshots[i].namespaces@),
                    )
            },
{
    let opened = node_opened(m, idx);
    let s = SidebarModel { tree: opened.tree, cursor: opened.pos.tree_cursor };
    lemma_expansion_tidy(m.tree, idx, true);
    lemma_found_at(opened.tree, idx, name);
    law_sync_keeps_tidy(s, m.data.snapshots);
    law_sync_shows_namespaces(s, m.data.snapshots);
    let synced = all_synced(s, m.data.snapshots).tree;
    assert(node_named(s.tree, name) is Some);
    assert(node_named(synced, name) is Some && node_named(synced, name)->0.expanded);
    let q = cluster_node(synced, name);
    lemma_first_index_props(synced, is_cluster(name));
    assert(is_cluster(name)(synced[q]));
    lemma_found_at(synced, q, name);
    lemma_infra_keeps_cluster(synced, m.data.infra.sdi_pools@, q, name);
    let t = step(m, evt).tree;
    if evt == AppEvent::Enter {
        assert(t == synced);
    } else {
        assert(t == infra_synced(synced, m.data.infra.sdi_pools@));
    }
    let p = cluster_node(t, name);
    lemma_first_index_props(t, is_cluster(name));
    assert(is_cluster(name)(t[p]));
    assert(t[p].expanded);
    assert forall|i: int|
        0 <= i < m.data.snapshots.len() && (#[trigger] m.data.snapshots[i]).name@
            == name implies lists_below(t, p, name, texts(m.data.snapshots[i].namespaces@)) by {
        let ns = texts(m.data.snapshots[i].namespaces@);
        assert(shows_namespaces(synced, name, ns));
        let below = children(t, p);
        lemma_children_end(t, t[p].depth, p + 1);
        assert(below == namespace_children(name, ns, 2));
        assert(below.len() == ns.len() + 1);
        assert forall|k: int| 0 <= k < below.len() implies #[trigger] t[p + 1 + k]
            == below[k] by {}
        assert(t[p + 1 + 0] == below[0]);
        assert forall|k: int| 0 <= k < ns.len() implies (#[trigger] t[p + 2 + k]).kind
            == (KindModel::Namespace { cluster: name, namespace: ns[k] }) && t[p + 2 + k].label
            == ns[k] && t[p + 2 + k].depth == 2 by {
            assert(t[p + 1 + (k + 1)] == below[k + 1]);
        }
    }
}

/// Whether the namespaces of a cluster stand right below a node, behind an entry for
/// all of them.
pub open spec fn lists_below(
    tree: Seq<NodeModel>,
    p: int,
    cluster: Seq<char>,
    namespaces: Seq<Seq<char>>,
) -> bool {
    &&& p + 1 + namespaces.len() < tree.len()
    &&& tree[p + 1].kind == KindModel::Namespace { cluster, namespace: "All Namespaces"@ }
    &&& tree[p + 1].label == "All Namespaces"@ && tree[p + 1].depth == 2
    &&& forall|k: int|
        0 <= k < namespaces.len() ==> (#[trigger] tree[p + 2 + k]).kind == (KindModel::Namespace {
            cluster,
            namespace: namespaces[k],
        }) && tree[p + 2 + k].label == namespaces[k] && tree[p + 2 + k].depth == 2
    &&& p + 2 + namespaces.len() < tree.len() ==> tree[p + 2 + namespaces.len()].depth < 2
}

/// Enter on the closed infrastructure opens it and lists each pool right below it with
/// its purpose and the number of its machines; where there are none it says so.
pub proof fn law_the_infrastructure_opens(m: AppModel, idx: int)
    requires
        stands_on(m, idx),
        0 <= idx < m.tree.len(),
        m.tree[idx].kind is InfraHeader,
        !m.tree[idx].expanded && !m.tree[idx].children_loaded,
        forall|j: int| 0 <= j < idx ==> !((#[trigger] m.tree[j]).kind is InfraHeader),
    ensures
        ({
            let t = step(m, AppEvent::Enter).tree;
            let pools = m.data.infra.sdi_pools@;
            &&& idx < t.len() && t[idx].expanded && t[idx].kind is InfraHeader
            &&& pools.len() == 0 ==> t.len() == m.tree.len() + 1 && t[idx + 1].label
                == "No SDI data"@
            &&& pools.len() > 0 ==> t.len() == m.tree.len() + pools.len()
            &&& forall|k: int|
                0 <= k < pools.len() ==> (#[trigger] t[idx + 1 + k]).kind
                    == KindModel::InfraItem(pools[k].pool_name@) && t[idx + 1 + k].depth
                    == m.tree[idx].depth + 1 && t[idx + 1 + k].label == pools[k].pool_name@
                    + " ("@ + pools[k].purpose@ + ") — "@ + decimal(pools[k].nodes@.len())
                    + " VMs"@
            &&& step(m, AppEvent::Enter).chosen == m.chosen
        }),
{
    let opened = node_opened(m, idx);
    assert forall|j: int| 0 <= j < idx implies !is_infra_header()(#[trigger] opened.tree[j]) by {
        assert(opened.tree[j] == m.tree[j]);
    }
    lemma_first_index(opened.tree, idx, is_infra_header());
    let t = step(m, AppEvent::Enter).tree;
    let below = infra_children(m.data.infra.sdi_pools@, m.tree[idx].depth + 1);
    assert(t == infra_synced(opened.tree, m.data.infra.sdi_pools@));
    assert forall|k: int| 0 <= k < below.len() implies #[trigger] t[idx + 1 + k] == below[k] by {}
    assert(below.len() > 0);
    assert(t[idx + 1 + 0] == below[0]);
}

/// What was fetched keeps a tree tidy.
pub proof fn law_fetch_keeps_tidy(m: AppModel, result: FetchResult)
    requires
        tidy(m.tree),
        proper_namespaces(snapshots_after(m, result)),
    ensures
        tidy(fetched(m, result).tree),
{
    law_sync_keeps_tidy(
        SidebarModel { tree: m.tree, cursor: m.pos.tree_cursor },
        snapshots_after(m, result),
    );
}

/// News from the discovery of clusters keeps a tree tidy.
pub proof fn law_discovery_keeps_tidy(m: AppModel, event: DiscoverEvent)
    requires
        tidy(m.tree),
    ensures
        tidy(discovered(m, event).tree),
{
    match event {
        DiscoverEvent::Connected(client) => {
            let idx = cluster_node(m.tree, client.name@);
            lemma_first_index_props(m.tree, is_cluster(client.name@));
            if idx < m.tree.len() {
                lemma_expansion_tidy(m.tree, idx, true);
            }
        },
        _ => {},
    }
}

/// New data on the infrastructure keep a tree tidy.
pub proof fn law_infra_load_keeps_tidy(m: AppModel, infra: InfraSnapshot)
    requires
        tidy(m.tree),
    ensures
        tidy(infra_loaded(m, infra).tree),
{
    let idx = infra_header(m.tree);
    lemma_first_index_props(m.tree, is_infra_header());
    if idx < m.tree.len() && m.tree[idx].children_loaded {
        let node = with_loaded(m.tree[idx], false);
        lemma_children_end(m.tree, 0, idx + 1);
        let bare = without_children(m.tree, idx);
        let t = bare.update(idx, with_loaded(bare[idx], false));
        assert(t =~= block_replaced(m.tree, idx, node, Seq::empty()));
        lemma_block_replaced(m.tree, idx, node, Seq::empty());
        lemma_infra_tidy(t, infra.sdi_pools@);
    } else {
        lemma_infra_tidy(m.tree, infra.sdi_pools@);
    }
}

} // verus!
