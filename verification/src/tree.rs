//! The sidebar tree: a list of nodes with depths, some of them collapsed.
use vstd::prelude::*;
use crate::data::ClusterSnapshot;
use crate::infra::SdiPoolInfo;
use crate::list::{
    collect, first_index, lemma_collect_step, lemma_first_index, lemma_first_index_props,
    lemma_take_all,
};
use crate::text::{
    decimal, decimal_usize, lemma_texts_push, same, same_texts, texts,
};

verus! {

broadcast use {lemma_take_all, lemma_texts_push};

/// A node of the sidebar tree.
#[derive(Debug)]
pub struct TreeNode {
    pub label: String,
    pub depth: usize,
    pub expanded: bool,
    pub node_type: NodeType,
    pub children_loaded: bool,
}

/// What a node of the sidebar tree stands for.
#[derive(Debug)]
pub enum NodeType {
    Root,
    Cluster(String),
    Namespace { cluster: String, namespace: String },
    InfraHeader,
    InfraItem(String),
}

// ---------------------------------------------------------------------------
// Model
// ---------------------------------------------------------------------------

/// What a node stands for, as a value.
#[verifier::ext_equal]
pub enum KindModel {
    Root,
    Cluster(Seq<char>),
    Namespace { cluster: Seq<char>, namespace: Seq<char> },
    InfraHeader,
    InfraItem(Seq<char>),
}

/// A node as a value.
#[verifier::ext_equal]
pub struct NodeModel {
    pub label: Seq<char>,
    pub depth: nat,
    pub expanded: bool,
    pub kind: KindModel,
    pub children_loaded: bool,
}

impl View for NodeType {
    type V = KindModel;

    open spec fn view(&self) -> KindModel {
        match *self {
            NodeType::Root => KindModel::Root,
            NodeType::Cluster(name) => KindModel::Cluster(name@),
            NodeType::Namespace { cluster, namespace } => KindModel::Namespace {
                cluster: cluster@,
                namespace: namespace@,
            },
            NodeType::InfraHeader => KindModel::InfraHeader,
            NodeType::InfraItem(name) => KindModel::InfraItem(name@),
        }
    }
}

impl View for TreeNode {
    type V = NodeModel;

    open spec fn view(&self) -> NodeModel {
        NodeModel {
            label: self.label@,
            depth: self.depth as nat,
            expanded: self.expanded,
            kind: self.node_type@,
            children_loaded: self.children_loaded,
        }
    }
}

/// The nodes as values.
pub open spec fn tree_model(tree: Seq<TreeNode>) -> Seq<NodeModel> {
    tree.map_values(|n: TreeNode| n@)
}

/// The nodes of a list with one more, as values.
pub proof fn lemma_tree_push(tree: Seq<TreeNode>, n: TreeNode)
    ensures
        tree_model(tree.push(n)) == tree_model(tree).push(n@),
{
    assert(tree_model(tree.push(n)) =~= tree_model(tree).push(n@));
}

/// Whether a node can get children.
pub open spec fn is_parent(n: NodeModel) -> bool {
    n.kind is Cluster || n.kind is InfraHeader
}

/// Whether the children that a node can get have a depth that a machine can
/// hold.
#[verifier::opaque]
pub open spec fn depths_fit(tree: Seq<NodeModel>) -> bool {
    forall|i: int|
        0 <= i < tree.len() && is_parent(#[trigger] tree[i]) ==> tree[i].depth < usize::MAX
}

// ---------------------------------------------------------------------------
// Visibility
// ---------------------------------------------------------------------------

/// Whether the nodes from behind `j` up to, not including, `i` are all below
/// the collapsed node `j`.
pub open spec fn covers(tree: Seq<NodeModel>, j: int, i: int) -> bool {
    &&& 0 <= j < i <= tree.len()
    &&& !tree[j].expanded
    &&& forall|k: int| j < k < i ==> (#[trigger] tree[k]).depth > tree[j].depth
}

/// Whether a node is below a collapsed one.
pub open spec fn hidden(tree: Seq<NodeModel>, i: int) -> bool {
    exists|j: int| #[trigger] covers(tree, j, i + 1) && j < i
}

/// The positions of the visible nodes among the first `n`.
pub open spec fn visible_upto(tree: Seq<NodeModel>, n: int) -> Seq<int>
    decreases n,
{
    if n <= 0 {
        Seq::empty()
    } else if hidden(tree, n - 1) {
        visible_upto(tree, n - 1)
    } else {
        visible_upto(tree, n - 1).push(n - 1)
    }
}

/// The positions of the visible nodes.
pub open spec fn visible(tree: Seq<NodeModel>) -> Seq<int> {
    visible_upto(tree, tree.len() as int)
}

/// Visible positions are positions, in ascending order, and exactly those of
/// the nodes that are not hidden.
pub proof fn lemma_visible_upto(tree: Seq<NodeModel>, n: int)
    requires
        0 <= n <= tree.len(),
    ensures
        visible_upto(tree, n).len() <= n,
        forall|k: int|
            0 <= k < visible_upto(tree, n).len() ==> 0 <= (#[trigger] visible_upto(tree, n)[k]) < n
                && !hidden(tree, visible_upto(tree, n)[k]),
        forall|a: int, b: int|
            0 <= a < b < visible_upto(tree, n).len() ==> (#[trigger] visible_upto(tree, n)[a])
                < (#[trigger] visible_upto(tree, n)[b]),
        forall|i: int|
            0 <= i < n && !#[trigger] hidden(tree, i) ==> visible_upto(tree, n).contains(i),
    decreases n,
{
    if n > 0 {
        lemma_visible_upto(tree, n - 1);
        let before = visible_upto(tree, n - 1);
        let v = visible_upto(tree, n);
        assert forall|i: int| 0 <= i < n && !#[trigger] hidden(tree, i) implies v.contains(i) by {
            if i < n - 1 {
                assert(before.contains(i));
                let k = choose|k: int| 0 <= k < before.len() && before[k] == i;
                assert(v[k] == i);
            } else {
                assert(v[v.len() - 1] == i);
            }
        }
    }
}

/// Where a scan stands: the depth of the collapsed node that covers the nodes
/// up to the scan's position, where there is one.
spec fn scan_state(tree: Seq<NodeModel>, i: int, skip: Option<usize>) -> bool {
    &&& skip is Some ==> exists|j: int| #[trigger]
        covers(tree, j, i) && tree[j].depth == skip->0 as nat
    &&& forall|j: int| #[trigger]
        covers(tree, j, i) ==> skip is Some && skip->0 as nat <= tree[j].depth
}

proof fn lemma_scan(tree: Seq<NodeModel>, i: int, skip: Option<usize>)
    requires
        0 <= i < tree.len(),
        scan_state(tree, i, skip),
    ensures
        hidden(tree, i) <==> skip is Some && tree[i].depth > skip->0 as nat,
{
    if hidden(tree, i) {
        let j = choose|j: int| #[trigger] covers(tree, j, i + 1) && j < i;
        assert(covers(tree, j, i));
        assert(tree[i].depth > tree[j].depth);
    }
    if skip is Some && tree[i].depth > skip->0 as nat {
        let j = choose|j: int| #[trigger] covers(tree, j, i) && tree[j].depth == skip->0 as nat;
        assert(covers(tree, j, i + 1));
    }
}

proof fn lemma_scan_step(tree: Seq<NodeModel>, i: int, skip: Option<usize>, next: Option<usize>)
    requires
        0 <= i < tree.len(),
        scan_state(tree, i, skip),
        if skip is Some && tree[i].depth > skip->0 as nat {
            next == skip
        } else if !tree[i].expanded {
            next is Some && next->0 as nat == tree[i].depth
        } else {
            next is None
        },
    ensures
        scan_state(tree, i + 1, next),
{
    if skip is Some && tree[i].depth > skip->0 as nat {
        let j = choose|j: int| #[trigger] covers(tree, j, i) && tree[j].depth == skip->0 as nat;
        assert(covers(tree, j, i + 1));
        assert forall|k: int| #[trigger] covers(tree, k, i + 1) implies next is Some
            && next->0 as nat <= tree[k].depth by {
            if k < i {
                assert(covers(tree, k, i));
            }
        }
    } else {
        assert forall|k: int| #[trigger] covers(tree, k, i + 1) implies next is Some
            && next->0 as nat <= tree[k].depth by {
            if k < i {
                assert(covers(tree, k, i));
                assert(tree[i].depth > tree[k].depth);
            }
        }
        if !tree[i].expanded {
            assert(covers(tree, i, i + 1));
        }
    }
}

/// The positions of the visible nodes.
pub fn visible_indices(tree: &Vec<TreeNode>) -> (r: Vec<usize>)
    ensures
        r@.map_values(|i: usize| i as int) == visible(tree_model(tree@)),
        forall|k: int| 0 <= k < r@.len() ==> (#[trigger] r@[k]) < tree@.len(),
{
    let ghost model = tree_model(tree@);
    let mut result: Vec<usize> = Vec::new();
    let mut skip: Option<usize> = None;
    let mut i: usize = 0;
    proof {
        assert(result@.map_values(|i: usize| i as int) =~= visible_upto(model, 0));
    }
    while i < tree.len()
        invariant
            i <= tree@.len(),
            model == tree_model(tree@),
            scan_state(model, i as int, skip),
            result@.map_values(|i: usize| i as int) == visible_upto(model, i as int),
            forall|k: int| 0 <= k < result@.len() ==> (#[trigger] result@[k]) < tree@.len(),
        decreases tree@.len() - i,
    {
        let ghost before = skip;
        let covered = match skip {
            Some(depth) => tree[i].depth > depth,
            None => false,
        };
        proof {
            assert(model[i as int] == tree@[i as int]@);
            lemma_scan(model, i as int, skip);
        }
        if !covered {
            let ghost so_far = result@;
            result.push(i);
            skip = if tree[i].expanded {
                None
            } else {
                Some(tree[i].depth)
            };
            proof {
                assert(result@.map_values(|i: usize| i as int) =~= so_far.map_values(
                    |i: usize| i as int,
                ).push(i as int));
            }
        }
        proof {
            lemma_scan_step(model, i as int, before, skip);
        }
        i += 1;
    }
    result
}

/// The number of visible nodes.
pub fn visible_len(tree: &Vec<TreeNode>) -> (r: usize)
    ensures
        r == visible(tree_model(tree@)).len(),
{
    let ghost model = tree_model(tree@);
    let mut count: usize = 0;
    let mut skip: Option<usize> = None;
    let mut i: usize = 0;
    while i < tree.len()
        invariant
            count <= i <= tree@.len(),
            model == tree_model(tree@),
            scan_state(model, i as int, skip),
            count == visible_upto(model, i as int).len(),
        decreases tree@.len() - i,
    {
        let ghost before = skip;
        let covered = match skip {
            Some(depth) => tree[i].depth > depth,
            None => false,
        };
        proof {
            assert(model[i as int] == tree@[i as int]@);
            lemma_scan(model, i as int, skip);
        }
        if !covered {
            count += 1;
            skip = if tree[i].expanded {
                None
            } else {
                Some(tree[i].depth)
            };
        }
        proof {
            lemma_scan_step(model, i as int, before, skip);
        }
        i += 1;
    }
    count
}

/// The first node of a tree is always visible.
pub proof fn law_first_node_visible(tree: Seq<NodeModel>)
    requires
        tree.len() > 0,
    ensures
        visible(tree).len() > 0,
        visible(tree)[0] == 0,
{
    lemma_visible_upto(tree, tree.len() as int);
    assert(!hidden(tree, 0));
    let v = visible(tree);
    assert(v.contains(0));
    let k = choose|k: int| 0 <= k < v.len() && v[k] == 0;
    if k > 0 {
        assert(v[0] < v[k]);
    }
}

/// With nothing collapsed every node is visible.
pub proof fn law_expanded_tree_shows_all(tree: Seq<NodeModel>)
    requires
        forall|i: int| 0 <= i < tree.len() ==> (#[trigger] tree[i]).expanded,
    ensures
        visible(tree) == Seq::new(tree.len(), |i: int| i),
{
    lemma_all_shown(tree, tree.len() as int);
}

proof fn lemma_all_shown(tree: Seq<NodeModel>, n: int)
    requires
        0 <= n <= tree.len(),
        forall|i: int| 0 <= i < tree.len() ==> (#[trigger] tree[i]).expanded,
    ensures
        visible_upto(tree, n) == Seq::new(n as nat, |i: int| i),
    decreases n,
{
    if n > 0 {
        lemma_all_shown(tree, n - 1);
        assert(!hidden(tree, n - 1));
        assert(visible_upto(tree, n) =~= Seq::new(n as nat, |i: int| i));
    } else {
        assert(visible_upto(tree, n) =~= Seq::new(n as nat, |i: int| i));
    }
}

// ---------------------------------------------------------------------------
// Children
// ---------------------------------------------------------------------------

/// The position, from `from` on, of the first node that is not deeper than a
/// depth.
pub open spec fn children_end(tree: Seq<NodeModel>, depth: nat, from: int) -> int
    decreases tree.len() - from,
{
    if from >= tree.len() || tree[from].depth <= depth {
        from
    } else {
        children_end(tree, depth, from + 1)
    }
}

/// The nodes below a node.
pub open spec fn children(tree: Seq<NodeModel>, idx: int) -> Seq<NodeModel> {
    tree.subrange(idx + 1, children_end(tree, tree[idx].depth, idx + 1))
}

/// The tree without the nodes below a node.
pub open spec fn without_children(tree: Seq<NodeModel>, idx: int) -> Seq<NodeModel> {
    tree.take(idx + 1) + tree.skip(children_end(tree, tree[idx].depth, idx + 1))
}

/// The end of the children is a position behind the start.
pub proof fn lemma_children_end(tree: Seq<NodeModel>, depth: nat, from: int)
    requires
        0 <= from <= tree.len(),
    ensures
        from <= children_end(tree, depth, from) <= tree.len(),
        forall|k: int|
            from <= k < children_end(tree, depth, from) ==> (#[trigger] tree[k]).depth > depth,
        children_end(tree, depth, from) < tree.len() ==> tree[children_end(
            tree,
            depth,
            from,
        )].depth <= depth,
    decreases tree.len() - from,
{
    if from < tree.len() && tree[from].depth > depth {
        lemma_children_end(tree, depth, from + 1);
    }
}

/// A cursor kept within the visible nodes.
pub open spec fn clamped(cursor: nat, tree: Seq<NodeModel>) -> nat {
    let n = visible(tree).len();
    if n > 0 && cursor >= n {
        (n - 1) as nat
    } else {
        cursor
    }
}

/// The position where the children of a node end.
fn find_children_end(tree: &Vec<TreeNode>, idx: usize) -> (r: usize)
    requires
        idx < tree@.len(),
    ensures
        r == children_end(tree_model(tree@), tree@[idx as int].depth as nat, idx + 1),
        idx < r <= tree@.len(),
{
    let ghost model = tree_model(tree@);
    let depth: usize = tree[idx].depth;
    let n: usize = tree.len();
    let mut end: usize = idx + 1;
    while end < n && tree[end].depth > depth
        invariant
            n == tree@.len(),
            idx < end <= tree@.len(),
            model == tree_model(tree@),
            depth == tree@[idx as int].depth,
            children_end(model, depth as nat, end as int) == children_end(
                model,
                depth as nat,
                idx + 1,
            ),
        decreases tree@.len() - end,
    {
        proof {
            assert(model[end as int] == tree@[end as int]@);
        }
        end += 1;
    }
    proof {
        if end < tree@.len() {
            assert(model[end as int] == tree@[end as int]@);
        }
    }
    end
}

/// Removes the nodes below a node.
pub fn drop_children(tree: &mut Vec<TreeNode>, idx: usize)
    requires
        idx < old(tree)@.len(),
    ensures
        tree_model(final(tree)@) == without_children(tree_model(old(tree)@), idx as int),
{
    let end: usize = find_children_end(tree, idx);
    let ghost before = tree@;
    let mut tail = tree.split_off(end);
    tree.truncate(idx + 1);
    tree.append(&mut tail);
    proof {
        let model = tree_model(before);
        assert(model[idx as int] == before[idx as int]@);
        assert(tree_model(tree@) =~= model.take(idx + 1) + model.skip(end as int));
    }
}

/// A tree with nodes put in behind a node.
pub open spec fn with_children(tree: Seq<NodeModel>, idx: int, added: Seq<NodeModel>) -> Seq<
    NodeModel,
> {
    tree.take(idx + 1) + added + tree.skip(idx + 1)
}

/// Puts nodes in behind a node.
pub fn insert_children(tree: &mut Vec<TreeNode>, idx: usize, added: Vec<TreeNode>)
    requires
        idx < old(tree)@.len(),
    ensures
        tree_model(final(tree)@) == with_children(
            tree_model(old(tree)@),
            idx as int,
            tree_model(added@),
        ),
{
    let ghost before = tree@;
    assert(idx < tree.len());
    let mut tail = tree.split_off(idx + 1);
    let mut middle = added;
    tree.append(&mut middle);
    tree.append(&mut tail);
    proof {
        let model = tree_model(before);
        assert(tree_model(tree@) =~= model.take(idx + 1) + tree_model(added@) + model.skip(
            idx + 1,
        ));
    }
}

/// A node opened or closed.
pub open spec fn with_expanded(n: NodeModel, expanded: bool) -> NodeModel {
    NodeModel { expanded, ..n }
}

/// A node with its children marked as loaded or not.
pub open spec fn with_loaded(n: NodeModel, loaded: bool) -> NodeModel {
    NodeModel { children_loaded: loaded, ..n }
}

/// Opens or closes a node.
pub fn set_expanded(tree: &mut Vec<TreeNode>, idx: usize, expanded: bool)
    requires
        idx < old(tree)@.len(),
    ensures
        tree_model(final(tree)@) == tree_model(old(tree)@).update(
            idx as int,
            with_expanded(tree_model(old(tree)@)[idx as int], expanded),
        ),
{
    let ghost before = tree@;
    tree[idx].expanded = expanded;
    proof {
        assert(tree_model(tree@) =~= tree_model(before).update(
            idx as int,
            with_expanded(tree_model(before)[idx as int], expanded),
        ));
    }
}

/// Marks a node's children as loaded or not.
pub fn set_loaded(tree: &mut Vec<TreeNode>, idx: usize, loaded: bool)
    requires
        idx < old(tree)@.len(),
    ensures
        tree_model(final(tree)@) == tree_model(old(tree)@).update(
            idx as int,
            with_loaded(tree_model(old(tree)@)[idx as int], loaded),
        ),
{
    let ghost before = tree@;
    tree[idx].children_loaded = loaded;
    proof {
        assert(tree_model(tree@) =~= tree_model(before).update(
            idx as int,
            with_loaded(tree_model(before)[idx as int], loaded),
        ));
    }
}

// ---------------------------------------------------------------------------
// Infrastructure children
// ---------------------------------------------------------------------------

/// Whether a node is the infrastructure header.
pub open spec fn is_infra_header() -> spec_fn(NodeModel) -> bool {
    |n: NodeModel| n.kind is InfraHeader
}

/// The position of the infrastructure header, or the tree's length.
pub open spec fn infra_header(tree: Seq<NodeModel>) -> int {
    first_index(tree, is_infra_header())
}

/// A closed leaf.
pub open spec fn leaf(label: Seq<char>, depth: nat, kind: KindModel) -> NodeModel {
    NodeModel { label, depth, expanded: false, kind, children_loaded: false }
}

/// The label of a pool: its name, its purpose and its number of machines.
pub open spec fn pool_label(pool: SdiPoolInfo) -> Seq<char> {
    pool.pool_name@ + " ("@ + pool.purpose@ + ") — "@ + decimal(pool.nodes@.len()) + " VMs"@
}

/// The node of a pool.
pub open spec fn pool_node(depth: nat) -> spec_fn(SdiPoolInfo) -> NodeModel {
    |pool: SdiPoolInfo|
        leaf(pool_label(pool), depth, KindModel::InfraItem(pool.pool_name@))
}

/// The children of the infrastructure header: the pools, or a note that there
/// are none.
pub open spec fn infra_children(pools: Seq<SdiPoolInfo>, depth: nat) -> Seq<NodeModel> {
    if pools.len() == 0 {
        seq![leaf("No SDI data"@, depth, KindModel::InfraItem("none"@))]
    } else {
        pools.map_values(pool_node(depth))
    }
}

/// The tree with the infrastructure's children filled in, where the header is
/// open and its children are not loaded yet.
pub open spec fn infra_synced(tree: Seq<NodeModel>, pools: Seq<SdiPoolInfo>) -> Seq<NodeModel> {
    let idx = infra_header(tree);
    if idx < tree.len() && tree[idx].expanded && !tree[idx].children_loaded {
        let filled = with_children(tree, idx, infra_children(pools, tree[idx].depth + 1));
        filled.update(idx, with_loaded(filled[idx], true))
    } else {
        tree
    }
}

/// The position of the infrastructure header.
pub fn find_infra_header(tree: &Vec<TreeNode>) -> (r: Option<usize>)
    ensures
        match r {
            Some(i) => i < tree@.len() && i == infra_header(tree_model(tree@)),
            None => infra_header(tree_model(tree@)) == tree@.len(),
        },
{
    let ghost model = tree_model(tree@);
    let mut i: usize = 0;
    while i < tree.len()
        invariant
            i <= tree@.len(),
            model == tree_model(tree@),
            forall|j: int| 0 <= j < i ==> !is_infra_header()(#[trigger] model[j]),
        decreases tree@.len() - i,
    {
        proof {
            assert(model[i as int] == tree@[i as int]@);
        }
        if let NodeType::InfraHeader = &tree[i].node_type {
            proof {
                lemma_first_index(model, i as int, is_infra_header());
            }
            return Some(i);
        }
        i += 1;
    }
    proof {
        lemma_first_index(model, i as int, is_infra_header());
    }
    None
}

/// Makes the children of the infrastructure header.
fn make_infra_children(pools: &Vec<SdiPoolInfo>, depth: usize) -> (r: Vec<TreeNode>)
    ensures
        tree_model(r@) == infra_children(pools@, depth as nat),
{
    let mut out: Vec<TreeNode> = Vec::new();
    if pools.len() == 0 {
        let none = TreeNode {
            label: "No SDI data".to_owned(),
            depth,
            expanded: false,
            node_type: NodeType::InfraItem("none".to_owned()),
            children_loaded: false,
        };
        out.push(none);
        proof {
            assert(tree_model(out@) =~= infra_children(pools@, depth as nat));
        }
        return out;
    }
    let ghost want = pools@.map_values(pool_node(depth as nat));
    let mut i: usize = 0;
    proof {
        assert(tree_model(out@) =~= want.take(0));
    }
    while i < pools.len()
        invariant
            i <= pools@.len(),
            want == pools@.map_values(pool_node(depth as nat)),
            tree_model(out@) == want.take(i as int),
        decreases pools@.len() - i,
    {
        let pool = &pools[i];
        let mut label = pool.pool_name.clone();
        label.append(" (");
        label.append(pool.purpose.as_str());
        label.append(") — ");
        label.append(decimal_usize(pool.nodes.len()).as_str());
        label.append(" VMs");
        let node = TreeNode {
            label,
            depth,
            expanded: false,
            node_type: NodeType::InfraItem(pool.pool_name.clone()),
            children_loaded: false,
        };
        proof {
            lemma_tree_push(out@, node);
            assert(node@ == want[i as int]);
            assert(want.take(i + 1) =~= want.take(i as int).push(node@));
        }
        out.push(node);
        i += 1;
    }
    proof {
        assert(want.take(pools@.len() as int) =~= want);
    }
    out
}

/// Fills in the children of the infrastructure header where it is open and they
/// are not loaded yet.
pub fn sync_infra(tree: &mut Vec<TreeNode>, pools: &Vec<SdiPoolInfo>)
    requires
        depths_fit(tree_model(old(tree)@)),
    ensures
        tree_model(final(tree)@) == infra_synced(tree_model(old(tree)@), pools@),
{
    let ghost model = tree_model(tree@);
    if let Some(idx) = find_infra_header(tree) {
        proof {
            assert(model[idx as int] == tree@[idx as int]@);
            lemma_first_index_props(model, is_infra_header());
            assert(is_parent(model[idx as int]));
            assert(model[idx as int].depth < usize::MAX) by {
                reveal(depths_fit);
            }
        }
        if tree[idx].expanded && !tree[idx].children_loaded {
            let added = make_infra_children(pools, tree[idx].depth + 1);
            insert_children(tree, idx, added);
            proof {
                assert(tree_model(tree@)[idx as int] == model[idx as int]);
                assert(tree_model(tree@).len() == tree@.len());
            }
            set_loaded(tree, idx, true);
        }
    } else {
        proof {
            assert(model.len() == tree@.len());
        }
    }
}

// ---------------------------------------------------------------------------
// Namespace children
// ---------------------------------------------------------------------------

/// A tree with its cursor.
#[verifier::ext_equal]
pub struct SidebarModel {
    pub tree: Seq<NodeModel>,
    pub cursor: nat,
}

/// Whether a node is that of a cluster.
pub open spec fn is_cluster(name: Seq<char>) -> spec_fn(NodeModel) -> bool {
    |n: NodeModel| n.kind == KindModel::Cluster(name)
}

/// The position of a cluster's node, or the tree's length.
pub open spec fn cluster_node(tree: Seq<NodeModel>, name: Seq<char>) -> int {
    first_index(tree, is_cluster(name))
}

/// Whether a node is that of a single namespace.
pub open spec fn is_single_namespace() -> spec_fn(NodeModel) -> bool {
    |n: NodeModel|
        match n.kind {
            KindModel::Namespace { cluster, namespace } => namespace != "All Namespaces"@,
            _ => false,
        }
}

/// The namespace of a node.
pub open spec fn namespace_in() -> spec_fn(NodeModel) -> Seq<char> {
    |n: NodeModel|
        match n.kind {
            KindModel::Namespace { cluster, namespace } => namespace,
            _ => Seq::empty(),
        }
}

/// The single namespaces listed below a node.
pub open spec fn listed_namespaces(tree: Seq<NodeModel>, idx: int) -> Seq<Seq<char>> {
    collect(children(tree, idx), is_single_namespace(), namespace_in())
}

/// The node of a namespace.
pub open spec fn namespace_node(cluster: Seq<char>, depth: nat) -> spec_fn(Seq<char>) -> NodeModel {
    |ns: Seq<char>| leaf(ns, depth, KindModel::Namespace { cluster, namespace: ns })
}

/// The children of a cluster: one for all namespaces, then one for each.
pub open spec fn namespace_children(
    cluster: Seq<char>,
    namespaces: Seq<Seq<char>>,
    depth: nat,
) -> Seq<NodeModel> {
    (seq!["All Namespaces"@] + namespaces).map_values(namespace_node(cluster, depth))
}

/// A tree with the children of a cluster filled in.
pub open spec fn namespaces_filled(
    tree: Seq<NodeModel>,
    idx: int,
    cluster: Seq<char>,
    namespaces: Seq<Seq<char>>,
) -> Seq<NodeModel> {
    let filled = with_children(
        tree,
        idx,
        namespace_children(cluster, namespaces, tree[idx].depth + 1),
    );
    filled.update(idx, with_loaded(filled[idx], true))
}

/// The sidebar after one cluster's namespaces came in: where the cluster is
/// open, its children are filled in; where they are there already, they are
/// replaced only if the list of namespaces has changed.
pub open spec fn cluster_synced(
    s: SidebarModel,
    cluster: Seq<char>,
    namespaces: Seq<Seq<char>>,
) -> SidebarModel {
    let idx = cluster_node(s.tree, cluster);
    if idx >= s.tree.len() || !s.tree[idx].expanded {
        s
    } else if !s.tree[idx].children_loaded {
        SidebarModel {
            tree: namespaces_filled(s.tree, idx, cluster, namespaces),
            cursor: s.cursor,
        }
    } else if listed_namespaces(s.tree, idx) == namespaces {
        s
    } else {
        let bare = without_children(s.tree, idx);
        SidebarModel {
            tree: namespaces_filled(bare, idx, cluster, namespaces),
            cursor: clamped(s.cursor, bare),
        }
    }
}

/// The sidebar after the namespaces of all snapshots came in, one by one.
pub open spec fn all_synced(s: SidebarModel, snapshots: Seq<ClusterSnapshot>) -> SidebarModel
    decreases snapshots.len(),
{
    if snapshots.len() == 0 {
        s
    } else {
        cluster_synced(
            all_synced(s, snapshots.drop_last()),
            snapshots.last().name@,
            texts(snapshots.last().namespaces@),
        )
    }
}

/// The position of a cluster's node.
pub fn find_cluster(tree: &Vec<TreeNode>, name: &str) -> (r: Option<usize>)
    ensures
        match r {
            Some(i) => i < tree@.len() && i == cluster_node(tree_model(tree@), name@),
            None => cluster_node(tree_model(tree@), name@) == tree@.len(),
        },
{
    let ghost model = tree_model(tree@);
    let mut i: usize = 0;
    while i < tree.len()
        invariant
            i <= tree@.len(),
            model == tree_model(tree@),
            forall|j: int| 0 <= j < i ==> !is_cluster(name@)(#[trigger] model[j]),
        decreases tree@.len() - i,
    {
        proof {
            assert(model[i as int] == tree@[i as int]@);
        }
        if let NodeType::Cluster(c) = &tree[i].node_type {
            if same(c.as_str(), name) {
                proof {
                    lemma_first_index(model, i as int, is_cluster(name@));
                }
                return Some(i);
            }
        }
        i += 1;
    }
    proof {
        lemma_first_index(model, i as int, is_cluster(name@));
    }
    None
}

/// The single namespaces listed below a node.
fn find_listed_namespaces(tree: &Vec<TreeNode>, idx: usize) -> (r: Vec<String>)
    requires
        idx < tree@.len(),
    ensures
        texts(r@) == listed_namespaces(tree_model(tree@), idx as int),
{
    let ghost model = tree_model(tree@);
    let end: usize = find_children_end(tree, idx);
    let ghost below = children(model, idx as int);
    let mut out: Vec<String> = Vec::new();
    let mut i: usize = idx + 1;
    proof {
        assert(model[idx as int] == tree@[idx as int]@);
        assert(below =~= model.subrange(idx + 1, end as int));
        assert(texts(out@) =~= collect(below.take(0), is_single_namespace(), namespace_in()));
    }
    while i < end
        invariant
            idx < i <= end <= tree@.len(),
            model == tree_model(tree@),
            below == model.subrange(idx + 1, end as int),
            texts(out@) == collect(
                below.take(i - idx - 1),
                is_single_namespace(),
                namespace_in(),
            ),
        decreases end - i,
    {
        proof {
            assert(below[i - idx - 1] == tree@[i as int]@);
            lemma_collect_step(below, i - idx - 1, is_single_namespace(), namespace_in());
        }
        if let NodeType::Namespace { cluster: _, namespace } = &tree[i].node_type {
            if !same(namespace.as_str(), "All Namespaces") {
                out.push(namespace.clone());
            }
        }
        i += 1;
    }
    proof {
        assert(below.take(end - idx - 1) =~= below);
    }
    out
}

/// Makes the node of a namespace.
fn make_namespace_node(cluster: &str, namespace: &str, depth: usize) -> (r: TreeNode)
    ensures
        r@ == namespace_node(cluster@, depth as nat)(namespace@),
{
    TreeNode {
        label: namespace.to_owned(),
        depth,
        expanded: false,
        node_type: NodeType::Namespace {
            cluster: cluster.to_owned(),
            namespace: namespace.to_owned(),
        },
        children_loaded: false,
    }
}

/// Makes the children of a cluster.
fn make_namespace_children(cluster: &str, namespaces: &Vec<String>, depth: usize) -> (r: Vec<
    TreeNode,
>)
    ensures
        tree_model(r@) == namespace_children(cluster@, texts(namespaces@), depth as nat),
{
    let ghost want = namespace_children(cluster@, texts(namespaces@), depth as nat);
    let mut out: Vec<TreeNode> = Vec::new();
    let first = make_namespace_node(cluster, "All Namespaces", depth);
    proof {
        lemma_tree_push(out@, first);
        assert(want[0] == first@);
        assert(tree_model(out@.push(first)) =~= want.take(1));
    }
    out.push(first);
    let mut i: usize = 0;
    while i < namespaces.len()
        invariant
            i <= namespaces@.len(),
            want == namespace_children(cluster@, texts(namespaces@), depth as nat),
            want.len() == namespaces@.len() + 1,
            tree_model(out@) == want.take(i + 1),
        decreases namespaces@.len() - i,
    {
        let node = make_namespace_node(cluster, namespaces[i].as_str(), depth);
        proof {
            lemma_tree_push(out@, node);
            assert((seq!["All Namespaces"@] + texts(namespaces@))[i + 1] == namespaces@[i as int]@);
            assert(want[i + 1] == node@);
            assert(want.take(i + 2) =~= want.take(i + 1).push(node@));
        }
        out.push(node);
        i += 1;
    }
    proof {
        assert(want.take(namespaces@.len() as int + 1) =~= want);
    }
    out
}

/// Keeps a cursor within the visible nodes.
pub fn clamp_cursor(tree: &Vec<TreeNode>, cursor: usize) -> (r: usize)
    ensures
        r == clamped(cursor as nat, tree_model(tree@)),
{
    let n: usize = visible_len(tree);
    if n > 0 && cursor >= n {
        n - 1
    } else {
        cursor
    }
}

/// Takes in one cluster's namespaces, and returns the cursor.
pub fn sync_cluster(
    tree: &mut Vec<TreeNode>,
    cursor: usize,
    cluster: &str,
    namespaces: &Vec<String>,
) -> (r: usize)
    requires
        depths_fit(tree_model(old(tree)@)),
    ensures
        (SidebarModel { tree: tree_model(final(tree)@), cursor: r as nat }) == cluster_synced(
            SidebarModel { tree: tree_model(old(tree)@), cursor: cursor as nat },
            cluster@,
            texts(namespaces@),
        ),
        depths_fit(tree_model(final(tree)@)),
{
    let ghost model = tree_model(tree@);
    let mut out: usize = cursor;
    proof {
        assert(model.len() == tree@.len());
    }
    match find_cluster(tree, cluster) {
        None => {},
        Some(idx) => {
            proof {
                assert(model[idx as int] == tree@[idx as int]@);
            }
            if tree[idx].expanded {
                let mut fill = true;
                if tree[idx].children_loaded {
                    let listed = find_listed_namespaces(tree, idx);
                    if same_texts(&listed, namespaces) {
                        fill = false;
                    } else {
                        drop_children(tree, idx);
                        proof {
                            lemma_children_end(model, model[idx as int].depth, idx + 1);
                            assert(tree_model(tree@)[idx as int] == model[idx as int]);
                            assert(tree_model(tree@).len() == tree@.len());
                            assert(tree_model(tree@)[idx as int] == tree@[idx as int]@);
                        }
                        out = clamp_cursor(tree, out);
                    }
                }
                if fill {
                    let ghost base = tree_model(tree@);
                    proof {
                        lemma_depths_kept(model, idx as int, Seq::empty());
                        assert(is_parent(model[idx as int])) by {
                            lemma_first_index_props(model, is_cluster(cluster@));
                        }
                        assert(is_parent(base[idx as int]));
                        assert(base[idx as int].depth < usize::MAX) by {
                            reveal(depths_fit);
                        }
                    }
                    let added = make_namespace_children(cluster, namespaces, tree[idx].depth + 1);
                    let ghost nodes = tree_model(added@);
                    insert_children(tree, idx, added);
                    proof {
                        assert forall|i: int| 0 <= i < nodes.len() implies !is_parent(
                            #[trigger] nodes[i],
                        ) by {}
                        lemma_depths_kept(base, idx as int, nodes);
                        assert(tree_model(tree@)[idx as int] == base[idx as int]);
                        assert(tree_model(tree@).len() == tree@.len());
                    }
                    let ghost filled = tree_model(tree@);
                    set_loaded(tree, idx, true);
                    proof {
                        lemma_update_keeps_depths(
                            filled,
                            idx as int,
                            with_loaded(filled[idx as int], true),
                        );
                    }
                }
            }
        },
    }
    out
}

/// Filling in children and removing them keeps the depths of parents in range.
pub proof fn lemma_depths_kept(tree: Seq<NodeModel>, idx: int, added: Seq<NodeModel>)
    requires
        depths_fit(tree),
        0 <= idx < tree.len(),
        forall|i: int| 0 <= i < added.len() ==> !is_parent(#[trigger] added[i]),
    ensures
        depths_fit(without_children(tree, idx)),
        depths_fit(with_children(tree, idx, added)),
{
    reveal(depths_fit);
    let end = children_end(tree, tree[idx].depth, idx + 1);
    lemma_children_end(tree, tree[idx].depth, idx + 1);
    let a = without_children(tree, idx);
    assert forall|i: int| 0 <= i < a.len() && is_parent(#[trigger] a[i]) implies a[i].depth
        < usize::MAX by {
        if i <= idx {
            assert(a[i] == tree[i]);
        } else {
            assert(a[i] == tree[i - idx - 1 + end]);
        }
    }
    let b = with_children(tree, idx, added);
    assert forall|i: int| 0 <= i < b.len() && is_parent(#[trigger] b[i]) implies b[i].depth
        < usize::MAX by {
        if i <= idx {
            assert(b[i] == tree[i]);
        } else if i <= idx + added.len() {
            assert(b[i] == added[i - idx - 1]);
        } else {
            assert(b[i] == tree[i - added.len()]);
        }
    }
}

/// Closing, opening and marking nodes keeps the depths of parents in range.
pub proof fn lemma_update_keeps_depths(tree: Seq<NodeModel>, idx: int, n: NodeModel)
    requires
        depths_fit(tree),
        0 <= idx < tree.len(),
        n.kind == tree[idx].kind,
        n.depth == tree[idx].depth,
    ensures
        depths_fit(tree.update(idx, n)),
{
    reveal(depths_fit);
    let t = tree.update(idx, n);
    assert forall|i: int| 0 <= i < t.len() && is_parent(#[trigger] t[i]) implies t[i].depth
        < usize::MAX by {
        assert(is_parent(tree[i]) == is_parent(t[i]));
        assert(tree[i].depth == t[i].depth);
    }
}

/// Takes in the namespaces of all snapshots, and returns the cursor.
pub fn sync_all(tree: &mut Vec<TreeNode>, cursor: usize, snapshots: &Vec<ClusterSnapshot>) -> (r:
    usize)
    requires
        depths_fit(tree_model(old(tree)@)),
    ensures
        (SidebarModel { tree: tree_model(final(tree)@), cursor: r as nat }) == all_synced(
            SidebarModel { tree: tree_model(old(tree)@), cursor: cursor as nat },
            snapshots@,
        ),
        depths_fit(tree_model(final(tree)@)),
{
    let ghost start = SidebarModel { tree: tree_model(tree@), cursor: cursor as nat };
    let mut out: usize = cursor;
    let mut i: usize = 0;
    while i < snapshots.len()
        invariant
            i <= snapshots@.len(),
            (SidebarModel { tree: tree_model(tree@), cursor: out as nat }) == all_synced(
                start,
                snapshots@.take(i as int),
            ),
            depths_fit(tree_model(tree@)),
        decreases snapshots@.len() - i,
    {
        out = sync_cluster(tree, out, snapshots[i].name.as_str(), &snapshots[i].namespaces);
        i += 1;
        proof {
            assert(snapshots@.take(i as int).drop_last() =~= snapshots@.take(i - 1));
        }
    }
    out
}

// ---------------------------------------------------------------------------
// Laws
// ---------------------------------------------------------------------------

/// A cursor that is kept within the visible nodes stands on one, in a tree that
/// is not empty.
pub proof fn law_clamped_cursor_is_visible(cursor: nat, tree: Seq<NodeModel>)
    requires
        tree.len() > 0,
    ensures
        clamped(cursor, tree) < visible(tree).len(),
        cursor < visible(tree).len() ==> clamped(cursor, tree) == cursor,
{
    law_first_node_visible(tree);
}

/// Removing the children of a node leaves the node itself and nothing below it,
/// and keeps all other nodes in order: those up to the node, and behind them those
/// that stood behind its children.
pub proof fn law_no_children_after_removal(tree: Seq<NodeModel>, idx: int)
    requires
        0 <= idx < tree.len(),
    ensures
        without_children(tree, idx)[idx] == tree[idx],
        children(without_children(tree, idx), idx).len() == 0,
        without_children(tree, idx).take(idx + 1) == tree.take(idx + 1),
        without_children(tree, idx).skip(idx + 1) == tree.skip(
            idx + 1 + children(tree, idx).len(),
        ),
{
    let end = children_end(tree, tree[idx].depth, idx + 1);
    lemma_children_end(tree, tree[idx].depth, idx + 1);
    let bare = without_children(tree, idx);
    assert(bare[idx] == tree[idx]);
    if end < tree.len() {
        assert(bare[idx + 1] == tree[end]);
    }
    assert(children_end(bare, bare[idx].depth, idx + 1) == idx + 1);
    assert(bare.take(idx + 1) =~= tree.take(idx + 1));
    assert(bare.skip(idx + 1) =~= tree.skip(end));
}

/// The namespaces listed below a cluster whose children were just filled in are
/// the ones that came in.
proof fn lemma_filled_lists_namespaces(
    tree: Seq<NodeModel>,
    idx: int,
    cluster: Seq<char>,
    namespaces: Seq<Seq<char>>,
)
    requires
        0 <= idx < tree.len(),
        children(tree, idx).len() == 0,
        !namespaces.contains("All Namespaces"@),
    ensures
        listed_namespaces(namespaces_filled(tree, idx, cluster, namespaces), idx) == namespaces,
{
    let added = namespace_children(cluster, namespaces, tree[idx].depth + 1);
    let filled = namespaces_filled(tree, idx, cluster, namespaces);
    let depth = tree[idx].depth;
    lemma_children_end(tree, depth, idx + 1);
    assert(children_end(tree, depth, idx + 1) == idx + 1);
    assert(filled[idx].depth == depth);
    assert forall|k: int| 0 <= k < added.len() implies #[trigger] filled[idx + 1 + k]
        == added[k] by {}
    lemma_children_end(filled, depth, idx + 1);
    let end = children_end(filled, depth, idx + 1);
    if end < idx + 1 + added.len() {
        assert(filled[idx + 1 + (end - idx - 1)] == added[end - idx - 1]);
    }
    if idx + 1 + added.len() < filled.len() {
        assert(filled[idx + 1 + added.len()] == tree[idx + 1]);
        if end > idx + 1 + added.len() {
            assert(filled[idx + 1 + added.len()].depth > depth);
        }
    }
    assert(end == idx + 1 + added.len());
    assert(children(filled, idx) =~= added);
    let shown = seq!["All Namespaces"@] + namespaces;
    assert forall|k: int| 0 <= k < namespaces.len() implies (#[trigger] namespaces[k])
        != "All Namespaces"@ by {
        assert(namespaces.contains(namespaces[k]));
    }
    lemma_collect_names(added, cluster, namespaces, depth + 1, namespaces.len() as int);
    assert(added.take(namespaces.len() as int + 1) =~= added);
    assert(namespaces.take(namespaces.len() as int) =~= namespaces);
}

pub proof fn lemma_collect_names(
    added: Seq<NodeModel>,
    cluster: Seq<char>,
    namespaces: Seq<Seq<char>>,
    depth: nat,
    n: int,
)
    requires
        added == namespace_children(cluster, namespaces, depth),
        forall|k: int|
            0 <= k < namespaces.len() ==> (#[trigger] namespaces[k]) != "All Namespaces"@,
        0 <= n <= namespaces.len(),
    ensures
        collect(added.take(n + 1), is_single_namespace(), namespace_in()) == namespaces.take(n),
    decreases n,
{
    let shown = seq!["All Namespaces"@] + namespaces;
    if n == 0 {
        assert(added[0] == namespace_node(cluster, depth)(shown[0]));
        lemma_collect_step(added, 0, is_single_namespace(), namespace_in());
        assert(collect(added.take(0), is_single_namespace(), namespace_in()) =~= Seq::empty());
        assert(namespaces.take(0) =~= Seq::empty());
    } else {
        lemma_collect_names(added, cluster, namespaces, depth, n - 1);
        lemma_collect_step(added, n, is_single_namespace(), namespace_in());
        assert(shown[n] == namespaces[n - 1]);
        assert(added[n] == namespace_node(cluster, depth)(shown[n]));
        assert(namespaces.take(n) =~= namespaces.take(n - 1).push(namespaces[n - 1]));
    }
}

/// Taking in the same namespaces again changes nothing. Children that are not
/// loaded are not there, and no namespace has the name of the entry that stands
/// for all of them.
pub proof fn law_sync_idempotent(
    s: SidebarModel,
    cluster: Seq<char>,
    namespaces: Seq<Seq<char>>,
)
    requires
        !namespaces.contains("All Namespaces"@),
        ({
            let idx = cluster_node(s.tree, cluster);
            idx < s.tree.len() && !s.tree[idx].children_loaded ==> children(s.tree, idx).len() == 0
        }),
    ensures
        cluster_synced(cluster_synced(s, cluster, namespaces), cluster, namespaces)
            == cluster_synced(s, cluster, namespaces),
{
    let idx = cluster_node(s.tree, cluster);
    lemma_first_index_props(s.tree, is_cluster(cluster));
    let once = cluster_synced(s, cluster, namespaces);
    if idx < s.tree.len() && s.tree[idx].expanded && !(s.tree[idx].children_loaded
        && listed_namespaces(s.tree, idx) == namespaces) {
        let base = if s.tree[idx].children_loaded {
            law_no_children_after_removal(s.tree, idx);
            without_children(s.tree, idx)
        } else {
            s.tree
        };
        lemma_children_end(s.tree, s.tree[idx].depth, idx + 1);
        lemma_filled_lists_namespaces(base, idx, cluster, namespaces);
        assert forall|j: int| 0 <= j < idx implies !is_cluster(cluster)(#[trigger] once.tree[j]) by {
            assert(once.tree[j] == s.tree[j]);
        }
        assert(once.tree[idx].kind == s.tree[idx].kind);
        lemma_first_index(once.tree, idx, is_cluster(cluster));
    }
}

} // verus!
