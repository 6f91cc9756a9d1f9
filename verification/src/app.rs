//! The dashboard's state and how events change it.
use vstd::prelude::*;
use crate::connections::{ConnectionTable, StatusModel};
use crate::data::{
    ActiveResource, ClusterSnapshot, ConfigMapInfo, DeploymentInfo, NodeInfo, PodInfo, ServiceInfo,
};
use crate::event::AppEvent;
use crate::infra::InfraSnapshot;
use crate::kube_client::ClusterClient;
use crate::list::{
    count, first_where, lemma_count_step, lemma_first_index, lemma_first_index_props,
    lemma_take_all,
};
use crate::text::{
    chars_contain, chars_of, has_substring, lemma_texts_push, lowercase, same, to_lowercase,
};
use crate::tree::{
    all_synced, clamp_cursor, clamped, depths_fit, drop_children, infra_header, infra_synced,
    is_parent, lemma_depths_kept, lemma_update_keeps_depths, set_expanded, set_loaded, sync_all,
    sync_infra, tree_model, visible, visible_indices, visible_len, with_expanded, with_loaded,
    without_children, KindModel, NodeModel, NodeType, SidebarModel, TreeNode,
};

verus! {

broadcast use {lemma_take_all, lemma_texts_push};

/// The part of the screen that keys act on.
#[derive(Debug, Clone, Copy, PartialEq, Eq, Structural)]
pub enum ActivePanel {
    Sidebar,
    Center,
}

/// The resource type that the table shows.
#[derive(Debug, Clone, Copy, PartialEq, Eq, Structural)]
pub enum ResourceView {
    Pods,
    Deployments,
    Services,
    ConfigMaps,
    Nodes,
}

/// The heading of a resource type.
pub open spec fn view_label(v: ResourceView) -> Seq<char> {
    match v {
        ResourceView::Pods => "Pods"@,
        ResourceView::Deployments => "Deployments"@,
        ResourceView::Services => "Services"@,
        ResourceView::ConfigMaps => "ConfigMaps"@,
        ResourceView::Nodes => "Nodes"@,
    }
}

/// The resource type that a letter chooses.
pub open spec fn view_of_char(c: char) -> Option<ResourceView> {
    if c == 'p' {
        Some(ResourceView::Pods)
    } else if c == 'd' {
        Some(ResourceView::Deployments)
    } else if c == 's' {
        Some(ResourceView::Services)
    } else if c == 'c' {
        Some(ResourceView::ConfigMaps)
    } else if c == 'n' {
        Some(ResourceView::Nodes)
    } else {
        None
    }
}

/// The resource that is fetched for a resource type.
pub open spec fn active_resource_of(v: ResourceView) -> ActiveResource {
    match v {
        ResourceView::Pods => ActiveResource::Pods,
        ResourceView::Deployments => ActiveResource::Deployments,
        ResourceView::Services => ActiveResource::Services,
        ResourceView::ConfigMaps => ActiveResource::ConfigMaps,
        ResourceView::Nodes => ActiveResource::Nodes,
    }
}

impl ResourceView {
    /// The heading of the resource type.
    pub fn label(&self) -> (r: &'static str)
        ensures
            r@ == view_label(*self),
    {
        match self {
            ResourceView::Pods => "Pods",
            ResourceView::Deployments => "Deployments",
            ResourceView::Services => "Services",
            ResourceView::ConfigMaps => "ConfigMaps",
            ResourceView::Nodes => "Nodes",
        }
    }

    /// The resource type that a letter chooses.
    pub fn from_char(c: char) -> (r: Option<ResourceView>)
        ensures
            r == view_of_char(c),
    {
        match c {
            'p' => Some(ResourceView::Pods),
            'd' => Some(ResourceView::Deployments),
            's' => Some(ResourceView::Services),
            'c' => Some(ResourceView::ConfigMaps),
            'n' => Some(ResourceView::Nodes),
            _ => None,
        }
    }

    /// The resource that is fetched for the resource type.
    pub fn to_active_resource(self) -> (r: ActiveResource)
        ensures
            r == active_resource_of(self),
    {
        match self {
            ResourceView::Pods => ActiveResource::Pods,
            ResourceView::Deployments => ActiveResource::Deployments,
            ResourceView::Services => ActiveResource::Services,
            ResourceView::ConfigMaps => ActiveResource::ConfigMaps,
            ResourceView::Nodes => ActiveResource::Nodes,
        }
    }
}

/// A tab of the center panel.
#[derive(Debug)]
pub struct Tab {
    pub name: String,
    pub closable: bool,
}

/// What a background fetch brought.
#[derive(Debug)]
pub struct FetchResult {
    pub snapshots: Vec<ClusterSnapshot>,
    pub latency_ms: u64,
    /// The resource that was fetched; everything where it is missing.
    pub active_resource: Option<ActiveResource>,
    /// The generation in which the fetch was started.
    pub generation: u64,
}

/// The dashboard's state.
#[derive(Debug)]
pub struct App {
    pub running: bool,
    pub active_panel: ActivePanel,
    pub active_tab: usize,
    pub tabs: Vec<Tab>,
    pub resource_view: ResourceView,
    pub tree: Vec<TreeNode>,
    pub tree_cursor: usize,
    pub sidebar_scroll_offset: usize,
    pub table_cursor: usize,
    pub table_scroll_offset: usize,
    pub selected_cluster: Option<String>,
    pub selected_namespace: Option<String>,
    pub clusters: Vec<ClusterClient>,
    pub snapshots: Vec<ClusterSnapshot>,
    pub infra: InfraSnapshot,
    pub api_latency_ms: u64,
    pub show_help: bool,
    pub help_scroll_offset: u16,
    pub search_active: bool,
    pub search_query: Option<String>,
    pub refresh_secs: u64,
    /// Asks for a fetch at the next opportunity.
    pub needs_refresh: bool,
    pub cluster_connection_status: ConnectionTable,
    /// Whether all clusters have been tried.
    pub discover_complete: bool,
    pub tunnel_pids: Vec<u32>,
    /// Whether a fetch is under way.
    pub is_fetching: bool,
    /// When the current fetch was started, in nanoseconds of a monotonic clock.
    pub fetch_started_at: Option<u64>,
    pub tick_count: u64,
    pub last_fetched_resource: Option<ActiveResource>,
    /// Counts navigations; what an earlier generation fetched is discarded.
    pub fetch_generation: u64,
    pub fetch_timed_out: bool,
    /// Rows that the table shows.
    pub page_size: usize,
    /// Rows that the sidebar shows.
    pub sidebar_page_size: usize,
    /// Lines that the help popup shows.
    pub help_viewport_height: u16,
    /// The pool to which the infrastructure view is limited.
    pub selected_sdi_pool: Option<String>,
    /// The machine that is highlighted in the infrastructure view.
    pub infra_vm_cursor: usize,
}

// ---------------------------------------------------------------------------
// Model
// ---------------------------------------------------------------------------

/// A text that may be missing, as a value.
pub open spec fn opt_text(t: Option<String>) -> Option<Seq<char>> {
    match t {
        Some(s) => Some(s@),
        None => None,
    }
}

/// The names of tabs.
pub open spec fn tab_names(tabs: Seq<Tab>) -> Seq<Seq<char>> {
    tabs.map_values(|t: Tab| t.name@)
}

/// Which mode the dashboard is in, and what it shows.
pub struct ModeModel {
    pub running: bool,
    pub active_panel: ActivePanel,
    pub active_tab: nat,
    pub resource_view: ResourceView,
    pub show_help: bool,
    pub help_scroll_offset: nat,
    pub search_active: bool,
    pub search_query: Option<Seq<char>>,
}

/// Where the cursors stand, and how far the panels are scrolled.
pub struct PosModel {
    pub tree_cursor: nat,
    pub sidebar_scroll_offset: nat,
    pub table_cursor: nat,
    pub table_scroll_offset: nat,
}

/// What the user has selected.
pub struct ChosenModel {
    pub selected_cluster: Option<Seq<char>>,
    pub selected_namespace: Option<Seq<char>>,
    pub selected_sdi_pool: Option<Seq<char>>,
    pub infra_vm_cursor: nat,
}

/// What the dashboard knows.
pub struct DataModel {
    pub tabs: Seq<Tab>,
    pub clusters: Seq<ClusterClient>,
    pub snapshots: Seq<ClusterSnapshot>,
    pub infra: InfraSnapshot,
    pub api_latency_ms: u64,
    pub refresh_secs: u64,
    pub connections: Map<Seq<char>, StatusModel>,
    pub discover_complete: bool,
    pub tunnel_pids: Seq<u32>,
    pub last_fetched_resource: Option<ActiveResource>,
}

/// How fetching stands.
pub struct FetchModel {
    pub needs_refresh: bool,
    pub is_fetching: bool,
    pub fetch_started_at: Option<u64>,
    pub tick_count: u64,
    pub fetch_generation: nat,
    pub fetch_timed_out: bool,
}

/// How much the panels show.
pub struct SizeModel {
    pub page_size: nat,
    pub sidebar_page_size: nat,
    pub help_viewport_height: nat,
}

/// The dashboard's state as a value.
pub struct AppModel {
    pub mode: ModeModel,
    pub pos: PosModel,
    pub chosen: ChosenModel,
    pub data: DataModel,
    pub fetch: FetchModel,
    pub size: SizeModel,
    pub tree: Seq<NodeModel>,
}

impl View for App {
    type V = AppModel;

    open spec fn view(&self) -> AppModel {
        AppModel {
            mode: ModeModel {
                running: self.running,
                active_panel: self.active_panel,
                active_tab: self.active_tab as nat,
                resource_view: self.resource_view,
                show_help: self.show_help,
                help_scroll_offset: self.help_scroll_offset as nat,
                search_active: self.search_active,
                search_query: opt_text(self.search_query),
            },
            pos: PosModel {
                tree_cursor: self.tree_cursor as nat,
                sidebar_scroll_offset: self.sidebar_scroll_offset as nat,
                table_cursor: self.table_cursor as nat,
                table_scroll_offset: self.table_scroll_offset as nat,
            },
            chosen: ChosenModel {
                selected_cluster: opt_text(self.selected_cluster),
                selected_namespace: opt_text(self.selected_namespace),
                selected_sdi_pool: opt_text(self.selected_sdi_pool),
                infra_vm_cursor: self.infra_vm_cursor as nat,
            },
            data: DataModel {
                tabs: self.tabs@,
                clusters: self.clusters@,
                snapshots: self.snapshots@,
                infra: self.infra,
                api_latency_ms: self.api_latency_ms,
                refresh_secs: self.refresh_secs,
                connections: self.cluster_connection_status@,
                discover_complete: self.discover_complete,
                tunnel_pids: self.tunnel_pids@,
                last_fetched_resource: self.last_fetched_resource,
            },
            fetch: FetchModel {
                needs_refresh: self.needs_refresh,
                is_fetching: self.is_fetching,
                fetch_started_at: self.fetch_started_at,
                tick_count: self.tick_count,
                fetch_generation: self.fetch_generation as nat,
                fetch_timed_out: self.fetch_timed_out,
            },
            size: SizeModel {
                page_size: self.page_size as nat,
                sidebar_page_size: self.sidebar_page_size as nat,
                help_viewport_height: self.help_viewport_height as nat,
            },
            tree: tree_model(self.tree@),
        }
    }
}

/// Whether the lists of a snapshot are of a size that a machine can hold with
/// the lines around them.
pub open spec fn snapshot_fits(s: ClusterSnapshot) -> bool {
    s.nodes@.len() <= usize::MAX - 2
}

/// Whether every snapshot of a list is of a size that a machine can hold.
#[verifier::opaque]
pub open spec fn all_fit(snapshots: Seq<ClusterSnapshot>) -> bool {
    forall|i: int| 0 <= i < snapshots.len() ==> snapshot_fits(#[trigger] snapshots[i])
}

/// Whether the depths of a tree and the sizes of snapshots are within what a
/// machine can hold, and each cluster has one connection status.
#[verifier::opaque]
pub open spec fn valid(
    tree: Seq<NodeModel>,
    snapshots: Seq<ClusterSnapshot>,
    connections: ConnectionTable,
) -> bool {
    depths_fit(tree) && all_fit(snapshots) && connections.wf()
}

impl App {
    /// Whether the state is well formed.
    pub open spec fn wf(self) -> bool {
        valid(self@.tree, self@.data.snapshots, self.cluster_connection_status)
    }
}

// ---------------------------------------------------------------------------
// Queries
// ---------------------------------------------------------------------------

/// Whether a name passes a search, without regard to case.
pub open spec fn name_matches(query: Option<Seq<char>>, name: Seq<char>) -> bool {
    match query {
        Some(q) => q.len() == 0 || has_substring(lowercase(name), lowercase(q)),
        None => true,
    }
}

/// Whether a name or a namespace passes a search, without regard to case.
pub open spec fn row_matches(query: Option<Seq<char>>, name: Seq<char>, ns: Seq<char>) -> bool {
    name_matches(query, name) || name_matches(query, ns)
}

/// Whether a snapshot is that of a cluster.
pub open spec fn snapshot_of(name: Seq<char>) -> spec_fn(ClusterSnapshot) -> bool {
    |s: ClusterSnapshot| s.name@ == name
}

/// The snapshot of the selected cluster.
pub open spec fn current(m: AppModel) -> Option<ClusterSnapshot> {
    match m.chosen.selected_cluster {
        Some(name) => first_where(m.data.snapshots, snapshot_of(name)),
        None => None,
    }
}

/// Whether a pod passes a search.
pub open spec fn pod_matches(query: Option<Seq<char>>) -> spec_fn(PodInfo) -> bool {
    |p: PodInfo| row_matches(query, p.name@, p.namespace@)
}

/// Whether a deployment passes a search.
pub open spec fn deployment_matches(query: Option<Seq<char>>) -> spec_fn(DeploymentInfo) -> bool {
    |d: DeploymentInfo| row_matches(query, d.name@, d.namespace@)
}

/// Whether a service passes a search.
pub open spec fn service_matches(query: Option<Seq<char>>) -> spec_fn(ServiceInfo) -> bool {
    |s: ServiceInfo| row_matches(query, s.name@, s.namespace@)
}

/// Whether a config map passes a search.
pub open spec fn configmap_matches(query: Option<Seq<char>>) -> spec_fn(ConfigMapInfo) -> bool {
    |c: ConfigMapInfo| row_matches(query, c.name@, c.namespace@)
}

/// Whether a node passes a search.
pub open spec fn node_matches(query: Option<Seq<char>>) -> spec_fn(NodeInfo) -> bool {
    |n: NodeInfo| name_matches(query, n.name@)
}

/// The number of rows that the table has: those of the resource type shown that
/// pass the search.
pub open spec fn row_count(m: AppModel) -> nat {
    match current(m) {
        Some(s) => match m.mode.resource_view {
            ResourceView::Pods => count(s.pods@, pod_matches(m.mode.search_query)),
            ResourceView::Deployments => count(
                s.deployments@,
                deployment_matches(m.mode.search_query),
            ),
            ResourceView::Services => count(s.services@, service_matches(m.mode.search_query)),
            ResourceView::ConfigMaps => count(
                s.configmaps@,
                configmap_matches(m.mode.search_query),
            ),
            ResourceView::Nodes => count(s.nodes@, node_matches(m.mode.search_query)),
        },
        None => 0,
    }
}

/// The number of lines of the Top tab: a heading, a blank line and the nodes.
pub open spec fn top_line_count(m: AppModel) -> nat {
    match current(m) {
        Some(s) => if s.nodes@.len() > 1 {
            2 + s.nodes@.len()
        } else {
            3
        },
        None => 1,
    }
}

/// The number of lines of the help text.
pub open spec fn help_line_count(m: AppModel) -> nat {
    13 + if m.mode.search_active {
        6nat
    } else if m.mode.active_panel == ActivePanel::Sidebar {
        7nat
    } else if m.mode.active_tab == 1 {
        5nat
    } else {
        7nat
    }
}

/// The difference of two numbers, or zero.
pub open spec fn minus(a: nat, b: nat) -> nat {
    if a >= b {
        (a - b) as nat
    } else {
        0
    }
}

/// The smaller of two numbers.
pub open spec fn smaller(a: nat, b: nat) -> nat {
    if a <= b {
        a
    } else {
        b
    }
}

/// The furthest that the help text can be scrolled.
pub open spec fn help_limit(m: AppModel) -> nat {
    minus(help_line_count(m), m.size.help_viewport_height)
}

// ---------------------------------------------------------------------------
// Steps
// ---------------------------------------------------------------------------

/// Half a page, at least one row.
pub open spec fn half_page(n: nat) -> nat {
    if n / 2 > 1 {
        n / 2
    } else {
        1
    }
}

/// The table back at its first row.
pub open spec fn at_top(m: AppModel) -> AppModel {
    AppModel { pos: PosModel { table_cursor: 0, table_scroll_offset: 0, ..m.pos }, ..m }
}

/// A new generation, in which data are fetched anew.
pub open spec fn refetching(m: AppModel) -> AppModel {
    AppModel {
        fetch: FetchModel {
            needs_refresh: true,
            fetch_generation: m.fetch.fetch_generation + 1,
            is_fetching: false,
            ..m.fetch
        },
        ..m
    }
}

/// The other panel.
pub open spec fn other_panel(p: ActivePanel) -> ActivePanel {
    match p {
        ActivePanel::Sidebar => ActivePanel::Center,
        ActivePanel::Center => ActivePanel::Sidebar,
    }
}

/// The sidebar's cursor on a row; the sidebar is scrolled up to it where it is
/// above.
pub open spec fn sidebar_at(pos: PosModel, row: nat) -> PosModel {
    PosModel {
        tree_cursor: row,
        sidebar_scroll_offset: smaller(pos.sidebar_scroll_offset, row),
        ..pos
    }
}

/// The table's cursor on a row; the table is scrolled up to it where it is above.
pub open spec fn table_at(pos: PosModel, row: nat) -> PosModel {
    PosModel {
        table_cursor: row,
        table_scroll_offset: smaller(pos.table_scroll_offset, row),
        ..pos
    }
}

/// The center panel scrolled to a line.
pub open spec fn scrolled_to(pos: PosModel, line: nat) -> PosModel {
    PosModel { table_scroll_offset: line, ..pos }
}

/// Where the cursor goes: the sidebar's to one row, the table's to another; on
/// the Top tab, which has no cursor, the text is scrolled to a line instead.
pub open spec fn moved_to(
    m: AppModel,
    sidebar_row: nat,
    top_line: nat,
    table_row: nat,
) -> PosModel {
    if m.mode.active_panel == ActivePanel::Sidebar {
        sidebar_at(m.pos, sidebar_row)
    } else if m.mode.active_tab == 1 {
        scrolled_to(m.pos, top_line)
    } else {
        table_at(m.pos, table_row)
    }
}

/// One row up.
pub open spec fn moved_up(m: AppModel) -> PosModel {
    moved_to(
        m,
        minus(m.pos.tree_cursor, 1),
        minus(m.pos.table_scroll_offset, 1),
        minus(m.pos.table_cursor, 1),
    )
}

/// One step on, where that stays below a limit.
pub open spec fn stepped(at: nat, limit: nat) -> nat {
    if at + 1 < limit {
        at + 1
    } else {
        at
    }
}

/// One row down, not past the last.
pub open spec fn moved_down(m: AppModel) -> PosModel {
    moved_to(
        m,
        stepped(m.pos.tree_cursor, visible(m.tree).len()),
        stepped(m.pos.table_scroll_offset, top_line_count(m)),
        stepped(m.pos.table_cursor, row_count(m)),
    )
}

/// Half a page up.
pub open spec fn paged_up(m: AppModel) -> PosModel {
    moved_to(
        m,
        minus(m.pos.tree_cursor, half_page(m.size.sidebar_page_size)),
        minus(m.pos.table_scroll_offset, half_page(m.size.page_size)),
        minus(m.pos.table_cursor, half_page(m.size.page_size)),
    )
}

/// Half a page down, not past the last row.
pub open spec fn paged_down(m: AppModel) -> PosModel {
    moved_to(
        m,
        smaller(
            m.pos.tree_cursor + half_page(m.size.sidebar_page_size),
            minus(visible(m.tree).len(), 1),
        ),
        smaller(
            m.pos.table_scroll_offset + half_page(m.size.page_size),
            minus(top_line_count(m), 1),
        ),
        if row_count(m) > 0 {
            smaller(m.pos.table_cursor + half_page(m.size.page_size), minus(row_count(m), 1))
        } else {
            m.pos.table_cursor
        },
    )
}

/// The first row.
pub open spec fn jumped_home(m: AppModel) -> PosModel {
    moved_to(m, 0, 0, 0)
}

/// The last row.
pub open spec fn jumped_end(m: AppModel) -> PosModel {
    moved_to(
        m,
        minus(visible(m.tree).len(), 1),
        minus(top_line_count(m), 1),
        minus(row_count(m), 1),
    )
}

/// The sidebar's tree and cursor.
pub open spec fn sidebar(m: AppModel) -> SidebarModel {
    SidebarModel { tree: m.tree, cursor: m.pos.tree_cursor }
}

/// The namespaces of the snapshots taken into the tree.
pub open spec fn tree_synced(m: AppModel) -> AppModel {
    let s = all_synced(sidebar(m), m.data.snapshots);
    AppModel { tree: s.tree, pos: PosModel { tree_cursor: s.cursor, ..m.pos }, ..m }
}

/// The infrastructure's pools taken into the tree.
pub open spec fn infra_tree_synced(m: AppModel) -> AppModel {
    AppModel { tree: infra_synced(m.tree, m.data.infra.sdi_pools@), ..m }
}

/// A node closed, with its children removed and the cursor kept in view.
pub open spec fn node_closed(m: AppModel, idx: int) -> AppModel {
    let closed = m.tree.update(idx, with_loaded(with_expanded(m.tree[idx], false), false));
    let bare = without_children(closed, idx);
    AppModel {
        tree: bare,
        pos: PosModel { tree_cursor: clamped(m.pos.tree_cursor, bare), ..m.pos },
        ..m
    }
}

/// A node opened.
pub open spec fn node_opened(m: AppModel, idx: int) -> AppModel {
    AppModel { tree: m.tree.update(idx, with_expanded(m.tree[idx], true)), ..m }
}

/// Whether the sidebar's cursor is on a node that keys act on.
pub open spec fn on_node(m: AppModel) -> bool {
    m.mode.active_panel == ActivePanel::Sidebar && m.pos.tree_cursor < visible(m.tree).len()
}

/// The position of the node under the sidebar's cursor.
pub open spec fn cursor_node(m: AppModel) -> int {
    visible(m.tree)[m.pos.tree_cursor as int]
}

/// Whether a node never has children.
pub open spec fn is_leaf(k: KindModel) -> bool {
    k is Namespace || k is InfraItem
}

/// What Enter does on a cluster: it closes it, or opens it and selects it.
pub open spec fn cluster_entered(
    m: AppModel,
    idx: int,
    name: Seq<char>,
    is_expanded: bool,
) -> AppModel {
    if is_expanded {
        let closed = node_closed(m, idx);
        if m.chosen.selected_cluster == Some(name) {
            AppModel {
                chosen: ChosenModel { selected_namespace: None, ..closed.chosen },
                ..closed
            }
        } else {
            closed
        }
    } else {
        tree_synced(
            refetching(
                at_top(
                    AppModel {
                        chosen: ChosenModel {
                            selected_cluster: Some(name),
                            selected_namespace: None,
                            ..m.chosen
                        },
                        ..node_opened(m, idx)
                    },
                ),
            ),
        )
    }
}

/// What Enter does on a namespace: it selects it.
pub open spec fn namespace_entered(
    m: AppModel,
    cluster: Seq<char>,
    namespace: Seq<char>,
) -> AppModel {
    refetching(
        at_top(
            AppModel {
                chosen: ChosenModel {
                    selected_cluster: Some(cluster),
                    selected_namespace: if namespace == "All Namespaces"@ {
                        None
                    } else {
                        Some(namespace)
                    },
                    ..m.chosen
                },
                ..m
            },
        ),
    )
}

/// What Enter does on the infrastructure header: it opens or closes it.
pub open spec fn infra_entered(m: AppModel, idx: int, is_expanded: bool) -> AppModel {
    if is_expanded {
        node_closed(m, idx)
    } else {
        infra_tree_synced(node_opened(m, idx))
    }
}

/// What Enter does with the node under the sidebar's cursor; on the root it
/// opens or closes it.
pub open spec fn entered(m: AppModel) -> AppModel {
    if !on_node(m) {
        m
    } else {
        let idx = cursor_node(m);
        let node = m.tree[idx];
        match node.kind {
            KindModel::Root => AppModel {
                tree: m.tree.update(idx, with_expanded(node, !node.expanded)),
                ..m
            },
            KindModel::Cluster(name) => cluster_entered(m, idx, name, node.expanded),
            KindModel::Namespace { cluster, namespace } => namespace_entered(
                m,
                cluster,
                namespace,
            ),
            KindModel::InfraHeader => infra_entered(m, idx, node.expanded),
            KindModel::InfraItem(_) => m,
        }
    }
}

/// The row of the nearest visible node above a row that is less deep.
pub open spec fn parent_row(tree: Seq<NodeModel>, rows: Seq<int>, depth: nat, row: int) -> Option<
    int,
>
    decreases row,
{
    if row <= 0 {
        None
    } else if tree[rows[row - 1]].depth < depth {
        Some(row - 1)
    } else {
        parent_row(tree, rows, depth, row - 1)
    }
}

/// The cursor moved to the parent of its node.
pub open spec fn at_parent(m: AppModel) -> AppModel {
    let rows = visible(m.tree);
    match parent_row(m.tree, rows, m.tree[cursor_node(m)].depth, m.pos.tree_cursor as int) {
        Some(row) => AppModel { pos: sidebar_at(m.pos, row as nat), ..m },
        None => m,
    }
}

/// What Left does: it closes an open node, and goes from any other to its
/// parent.
pub open spec fn collapsed(m: AppModel) -> AppModel {
    if !on_node(m) {
        m
    } else {
        let node = m.tree[cursor_node(m)];
        if !is_leaf(node.kind) && node.expanded {
            node_closed(m, cursor_node(m))
        } else {
            at_parent(m)
        }
    }
}

/// What Right does: it opens a closed node without selecting it.
pub open spec fn expanded(m: AppModel) -> AppModel {
    if !on_node(m) {
        m
    } else {
        let node = m.tree[cursor_node(m)];
        if is_leaf(node.kind) || node.expanded {
            m
        } else {
            infra_tree_synced(tree_synced(node_opened(m, cursor_node(m))))
        }
    }
}

/// The character that an event types in search mode.
pub open spec fn typed_char(evt: AppEvent) -> Option<char> {
    match evt {
        AppEvent::Quit => Some('q'),
        AppEvent::Help => Some('?'),
        AppEvent::Left => Some('h'),
        AppEvent::Right => Some('l'),
        AppEvent::Up => Some('k'),
        AppEvent::Down => Some('j'),
        AppEvent::Refresh => Some('r'),
        AppEvent::Search => Some('/'),
        AppEvent::ResourceType(c) => Some(c),
        AppEvent::CharInput(c) => Some(c),
        _ => None,
    }
}

/// A query with a character typed behind it.
pub open spec fn query_typed(query: Option<Seq<char>>, c: char) -> Option<Seq<char>> {
    match query {
        Some(q) => Some(q.push(c)),
        None => Some(seq![c]),
    }
}

/// A query without its last character; none where nothing is left.
pub open spec fn query_erased(query: Option<Seq<char>>) -> Option<Seq<char>> {
    match query {
        Some(q) => if q.len() <= 1 {
            None
        } else {
            Some(q.drop_last())
        },
        None => None,
    }
}

/// Whether an event takes the table back to its first row in search mode: it
/// changes the query.
pub open spec fn changes_query(evt: AppEvent) -> bool {
    match evt {
        AppEvent::Escape | AppEvent::Backspace | AppEvent::NextPanel | AppEvent::PrevPanel => true,
        _ => typed_char(evt) is Some,
    }
}

/// Whether an event ends search mode.
pub open spec fn ends_search(evt: AppEvent) -> bool {
    match evt {
        AppEvent::Enter | AppEvent::Escape | AppEvent::NextPanel | AppEvent::PrevPanel => true,
        _ => false,
    }
}

/// Whether an event changes to the other panel.
pub open spec fn switches_panel(evt: AppEvent) -> bool {
    evt == AppEvent::NextPanel || evt == AppEvent::PrevPanel
}

/// The query after an event in search mode: characters are typed into it, Enter
/// keeps it unless it is empty, Escape and changing panels drop it.
pub open spec fn query_after(query: Option<Seq<char>>, evt: AppEvent) -> Option<Seq<char>> {
    match evt {
        AppEvent::Enter => if query is Some && query->0.len() == 0 {
            None
        } else {
            query
        },
        AppEvent::Escape | AppEvent::NextPanel | AppEvent::PrevPanel => None,
        AppEvent::Backspace => query_erased(query),
        _ => match typed_char(evt) {
            Some(c) => query_typed(query, c),
            None => query,
        },
    }
}

/// What an event does in search mode.
pub open spec fn search_step(m: AppModel, evt: AppEvent) -> AppModel {
    let m1 = AppModel {
        mode: ModeModel {
            search_active: !ends_search(evt),
            search_query: query_after(m.mode.search_query, evt),
            active_panel: if switches_panel(evt) {
                other_panel(m.mode.active_panel)
            } else {
                m.mode.active_panel
            },
            ..m.mode
        },
        ..m
    };
    if changes_query(evt) {
        at_top(m1)
    } else {
        m1
    }
}

/// Half a page of help text; only the low sixteen bits count.
pub open spec fn help_jump(m: AppModel) -> nat {
    half_page(m.size.page_size) % 0x1_0000
}

/// Whether an event closes the help.
pub open spec fn closes_help(evt: AppEvent) -> bool {
    match evt {
        AppEvent::Help | AppEvent::Quit | AppEvent::Enter | AppEvent::Escape => true,
        _ => false,
    }
}

/// How far the help text is scrolled after an event.
pub open spec fn help_offset_after(m: AppModel, evt: AppEvent) -> nat {
    let at = m.mode.help_scroll_offset;
    match evt {
        AppEvent::Help | AppEvent::Quit | AppEvent::Enter | AppEvent::Escape => 0,
        AppEvent::Up | AppEvent::ArrowUp => minus(at, 1),
        AppEvent::Down | AppEvent::ArrowDown => if at < help_limit(m) {
            at + 1
        } else {
            at
        },
        AppEvent::PageUp => minus(at, help_jump(m)),
        AppEvent::PageDown => smaller(at + help_jump(m), help_limit(m)),
        AppEvent::Home => 0,
        AppEvent::End => help_limit(m),
        _ => at,
    }
}

/// What an event does while help is shown: it scrolls or closes the help.
pub open spec fn help_step(m: AppModel, evt: AppEvent) -> AppModel {
    AppModel {
        mode: ModeModel {
            show_help: !closes_help(evt),
            help_scroll_offset: help_offset_after(m, evt),
            ..m.mode
        },
        ..m
    }
}

/// What a key does that moves about.
pub open spec fn motion_step(m: AppModel, evt: AppEvent) -> AppModel {
    match evt {
        AppEvent::Up | AppEvent::ArrowUp => AppModel { pos: moved_up(m), ..m },
        AppEvent::Down | AppEvent::ArrowDown => AppModel { pos: moved_down(m), ..m },
        AppEvent::PageUp => AppModel { pos: paged_up(m), ..m },
        AppEvent::PageDown => AppModel { pos: paged_down(m), ..m },
        AppEvent::Home => AppModel { pos: jumped_home(m), ..m },
        AppEvent::End => AppModel { pos: jumped_end(m), ..m },
        AppEvent::Enter => entered(m),
        AppEvent::Left | AppEvent::ArrowLeft => collapsed(m),
        AppEvent::Right | AppEvent::ArrowRight => expanded(m),
        _ => m,
    }
}

/// What a letter does that chooses a resource type: it counts only in the
/// center panel.
pub open spec fn view_chosen(m: AppModel, c: char) -> AppModel {
    let choice = view_of_char(c);
    if m.mode.active_panel == ActivePanel::Center && choice is Some && choice->0
        != m.mode.resource_view {
        refetching(
            at_top(AppModel { mode: ModeModel { resource_view: choice->0, ..m.mode }, ..m }),
        )
    } else {
        m
    }
}

/// What choosing a tab does, counted from one.
pub open spec fn tab_chosen(m: AppModel, n: nat) -> AppModel {
    if 0 < n && n <= m.data.tabs.len() && m.mode.active_tab != n - 1 {
        at_top(AppModel { mode: ModeModel { active_tab: (n - 1) as nat, ..m.mode }, ..m })
    } else {
        m
    }
}

/// Help shown from its start.
pub open spec fn help_opened(m: AppModel) -> AppModel {
    AppModel { mode: ModeModel { show_help: true, help_scroll_offset: 0, ..m.mode }, ..m }
}

/// A search started in the center panel.
pub open spec fn search_opened(m: AppModel) -> AppModel {
    at_top(
        AppModel {
            mode: ModeModel {
                search_active: true,
                search_query: Some(Seq::empty()),
                active_panel: ActivePanel::Center,
                ..m.mode
            },
            ..m
        },
    )
}

/// The search filter dropped, where there is one.
pub open spec fn filter_cleared(m: AppModel) -> AppModel {
    if m.mode.search_query is Some && m.mode.search_query->0.len() > 0 {
        at_top(AppModel { mode: ModeModel { search_query: None, ..m.mode }, ..m })
    } else {
        m
    }
}

/// The dashboard stopped.
pub open spec fn stopped(m: AppModel) -> AppModel {
    AppModel { mode: ModeModel { running: false, ..m.mode }, ..m }
}

/// The other panel made active.
pub open spec fn panel_switched(m: AppModel) -> AppModel {
    AppModel {
        mode: ModeModel { active_panel: other_panel(m.mode.active_panel), ..m.mode },
        ..m
    }
}

/// What an event does in normal mode.
pub open spec fn normal_step(m: AppModel, evt: AppEvent) -> AppModel {
    match evt {
        AppEvent::Quit => stopped(m),
        AppEvent::Tab(n) => tab_chosen(m, n as nat),
        AppEvent::NextPanel | AppEvent::PrevPanel => panel_switched(m),
        AppEvent::ResourceType(c) => view_chosen(m, c),
        AppEvent::Help => help_opened(m),
        AppEvent::Search => search_opened(m),
        AppEvent::Refresh => refetching(m),
        AppEvent::Escape => filter_cleared(m),
        _ => motion_step(m, evt),
    }
}

/// What an event does: a forced quit always quits; otherwise search mode, the
/// help overlay and normal mode each have their own way with it.
pub open spec fn step(m: AppModel, evt: AppEvent) -> AppModel {
    if evt == AppEvent::ForceQuit {
        stopped(m)
    } else if m.mode.search_active {
        search_step(m, evt)
    } else if m.mode.show_help {
        help_step(m, evt)
    } else {
        normal_step(m, evt)
    }
}

// ---------------------------------------------------------------------------
// Reading the state
// ---------------------------------------------------------------------------

/// Tests whether a name passes a search, without regard to case.
fn passes(query: &Option<String>, name: &str) -> (r: bool)
    ensures
        r == name_matches(opt_text(*query), name@),
{
    match query {
        Some(q) => if q.as_str().is_empty() {
            true
        } else {
            chars_contain(
                &chars_of(to_lowercase(name).as_str()),
                &chars_of(to_lowercase(q.as_str()).as_str()),
            )
        },
        None => true,
    }
}

impl App {
    /// Tests whether a name passes the current search, without regard to case.
    pub fn matches_search(&self, name: &str) -> (r: bool)
        ensures
            r == name_matches(self@.mode.search_query, name@),
    {
        passes(&self.search_query, name)
    }

    /// Tests whether a name or a namespace passes the current search, without
    /// regard to case.
    pub fn matches_search_with_ns(&self, name: &str, namespace: &str) -> (r: bool)
        ensures
            r == row_matches(self@.mode.search_query, name@, namespace@),
    {
        passes(&self.search_query, name) || passes(&self.search_query, namespace)
    }

    /// The snapshot of the selected cluster.
    pub fn current_snapshot(&self) -> (r: Option<&ClusterSnapshot>)
        ensures
            r is Some == current(self@) is Some,
            r is Some ==> *r->0 == current(self@)->0,
            r is Some ==> self@.data.snapshots.contains(*r->0),
    {
        match &self.selected_cluster {
            None => None,
            Some(name) => {
                let mut i: usize = 0;
                while i < self.snapshots.len()
                    invariant
                        i <= self.snapshots@.len(),
                        self.selected_cluster == Some(*name),
                        forall|j: int|
                            0 <= j < i ==> !snapshot_of(name@)(#[trigger] self.snapshots@[j]),
                    decreases self.snapshots@.len() - i,
                {
                    if same(self.snapshots[i].name.as_str(), name.as_str()) {
                        proof {
                            lemma_first_index(self.snapshots@, i as int, snapshot_of(name@));
                        }
                        return Some(&self.snapshots[i]);
                    }
                    i += 1;
                }
                proof {
                    lemma_first_index(self.snapshots@, i as int, snapshot_of(name@));
                }
                None
            },
        }
    }

    fn count_pods(&self, rows: &Vec<PodInfo>) -> (r: usize)
        ensures
            r == count(rows@, pod_matches(self@.mode.search_query)),
    {
        let ghost keep = pod_matches(self@.mode.search_query);
        let mut n: usize = 0;
        let mut i: usize = 0;
        while i < rows.len()
            invariant
                n <= i <= rows@.len(),
                keep == pod_matches(self@.mode.search_query),
                n == count(rows@.take(i as int), keep),
            decreases rows@.len() - i,
        {
            proof {
                lemma_count_step(rows@, i as int, keep);
            }
            if self.matches_search_with_ns(rows[i].name.as_str(), rows[i].namespace.as_str()) {
                n += 1;
            }
            i += 1;
        }
        n
    }

    fn count_deployments(&self, rows: &Vec<DeploymentInfo>) -> (r: usize)
        ensures
            r == count(rows@, deployment_matches(self@.mode.search_query)),
    {
        let ghost keep = deployment_matches(self@.mode.search_query);
        let mut n: usize = 0;
        let mut i: usize = 0;
        while i < rows.len()
            invariant
                n <= i <= rows@.len(),
                keep == deployment_matches(self@.mode.search_query),
                n == count(rows@.take(i as int), keep),
            decreases rows@.len() - i,
        {
            proof {
                lemma_count_step(rows@, i as int, keep);
            }
            if self.matches_search_with_ns(rows[i].name.as_str(), rows[i].namespace.as_str()) {
                n += 1;
            }
            i += 1;
        }
        n
    }

    fn count_services(&self, rows: &Vec<ServiceInfo>) -> (r: usize)
        ensures
            r == count(rows@, service_matches(self@.mode.search_query)),
    {
        let ghost keep = service_matches(self@.mode.search_query);
        let mut n: usize = 0;
        let mut i: usize = 0;
        while i < rows.len()
            invariant
                n <= i <= rows@.len(),
                keep == service_matches(self@.mode.search_query),
                n == count(rows@.take(i as int), keep),
            decreases rows@.len() - i,
        {
            proof {
                lemma_count_step(rows@, i as int, keep);
            }
            if self.matches_search_with_ns(rows[i].name.as_str(), rows[i].namespace.as_str()) {
                n += 1;
            }
            i += 1;
        }
        n
    }

    fn count_configmaps(&self, rows: &Vec<ConfigMapInfo>) -> (r: usize)
        ensures
            r == count(rows@, configmap_matches(self@.mode.search_query)),
    {
        let ghost keep = configmap_matches(self@.mode.search_query);
        let mut n: usize = 0;
        let mut i: usize = 0;
        while i < rows.len()
            invariant
                n <= i <= rows@.len(),
                keep == configmap_matches(self@.mode.search_query),
                n == count(rows@.take(i as int), keep),
            decreases rows@.len() - i,
        {
            proof {
                lemma_count_step(rows@, i as int, keep);
            }
            if self.matches_search_with_ns(rows[i].name.as_str(), rows[i].namespace.as_str()) {
                n += 1;
            }
            i += 1;
        }
        n
    }

    fn count_nodes(&self, rows: &Vec<NodeInfo>) -> (r: usize)
        ensures
            r == count(rows@, node_matches(self@.mode.search_query)),
    {
        let ghost keep = node_matches(self@.mode.search_query);
        let mut n: usize = 0;
        let mut i: usize = 0;
        while i < rows.len()
            invariant
                n <= i <= rows@.len(),
                keep == node_matches(self@.mode.search_query),
                n == count(rows@.take(i as int), keep),
            decreases rows@.len() - i,
        {
            proof {
                lemma_count_step(rows@, i as int, keep);
            }
            if self.matches_search(rows[i].name.as_str()) {
                n += 1;
            }
            i += 1;
        }
        n
    }

    /// The number of rows of the table: those of the resource type shown that pass
    /// the search.
    pub fn current_row_count(&self) -> (r: usize)
        ensures
            r == row_count(self@),
    {
        match self.current_snapshot() {
            Some(snap) => match self.resource_view {
                ResourceView::Pods => self.count_pods(&snap.pods),
                ResourceView::Deployments => self.count_deployments(&snap.deployments),
                ResourceView::Services => self.count_services(&snap.services),
                ResourceView::ConfigMaps => self.count_configmaps(&snap.configmaps),
                ResourceView::Nodes => self.count_nodes(&snap.nodes),
            },
            None => 0,
        }
    }

    /// The number of lines of the Top tab.
    pub fn top_tab_line_count(&self) -> (r: usize)
        requires
            all_fit(self@.data.snapshots),
        ensures
            r == top_line_count(self@),
    {
        match self.current_snapshot() {
            Some(snap) => {
                proof {
                    reveal(all_fit);
                    let i = choose|i: int|
                        0 <= i < self@.data.snapshots.len() && self@.data.snapshots[i] == *snap;
                    assert(snapshot_fits(self@.data.snapshots[i]));
                }
                let n: usize = snap.nodes.len();
                if n > 1 {
                    2 + n
                } else {
                    3
                }
            },
            None => 1,
        }
    }

    /// The number of lines of the help text.
    pub fn help_content_line_count(&self) -> (r: u16)
        ensures
            r == help_line_count(self@),
    {
        let context: u16 = if self.search_active {
            6
        } else {
            match self.active_panel {
                ActivePanel::Sidebar => 7,
                ActivePanel::Center => if self.active_tab == 1 {
                    5
                } else {
                    7
                },
            }
        };
        context + 13
    }

    /// The furthest that the help text can be scrolled.
    pub fn help_max_scroll(&self) -> (r: u16)
        ensures
            r == help_limit(self@),
    {
        self.help_content_line_count().saturating_sub(self.help_viewport_height)
    }

    /// The positions of the visible nodes of the sidebar tree.
    pub fn visible_tree_indices(&self) -> (r: Vec<usize>)
        ensures
            r@.map_values(|i: usize| i as int) == visible(self@.tree),
            forall|k: int| 0 <= k < r@.len() ==> (#[trigger] r@[k]) < self.tree@.len(),
    {
        visible_indices(&self.tree)
    }

    /// The number of visible nodes of the sidebar tree.
    pub fn visible_tree_len(&self) -> (r: usize)
        ensures
            r == visible(self@.tree).len(),
    {
        visible_len(&self.tree)
    }

    /// Tests whether a resource type was not part of the last fetch.
    pub fn is_view_stale(&self, view: ResourceView) -> (r: bool)
        ensures
            r == (self@.data.last_fetched_resource is Some && self@.data.last_fetched_resource
                != Some(active_resource_of(view))),
    {
        match self.last_fetched_resource {
            None => false,
            Some(active) => active != view.to_active_resource(),
        }
    }

    /// Tests whether every cluster has been tried and none could be reached.
    pub fn all_clusters_failed(&self) -> (r: bool)
        ensures
            r == (self.cluster_connection_status.entries@.len() > 0 && self.clusters@.len() == 0
                && forall|i: int|
                0 <= i < self.cluster_connection_status.entries@.len() ==> (
                #[trigger] self.cluster_connection_status.entries@[i]).1 is Failed),
    {
        !self.cluster_connection_status.is_empty() && self.clusters.len() == 0
            && self.cluster_connection_status.all_failed()
    }

    // -----------------------------------------------------------------------
    // Moving about
    // -----------------------------------------------------------------------

    /// Keeps the table's cursor within a number of rows.
    pub fn clamp_table_cursor(&mut self, row_count: usize)
        ensures
            final(self)@ == (AppModel {
                pos: PosModel {
                    table_cursor: smaller(old(self)@.pos.table_cursor, minus(row_count as nat, 1)),
                    ..old(self)@.pos
                },
                ..old(self)@
            }),
            old(self).wf() ==> final(self).wf(),
    {
        let cursor: usize = if row_count == 0 {
            0
        } else if self.table_cursor >= row_count {
            row_count - 1
        } else {
            self.table_cursor
        };
        self.table_cursor = cursor;
    }

    /// Scrolls the sidebar up to its cursor.
    pub fn adjust_sidebar_scroll(&mut self)
        ensures
            final(self)@ == (AppModel {
                pos: sidebar_at(old(self)@.pos, old(self)@.pos.tree_cursor),
                ..old(self)@
            }),
            old(self).wf() ==> final(self).wf(),
    {
        let offset: usize = if self.tree_cursor < self.sidebar_scroll_offset {
            self.tree_cursor
        } else {
            self.sidebar_scroll_offset
        };
        self.sidebar_scroll_offset = offset;
    }

    /// Scrolls the table up to its cursor.
    pub fn adjust_table_scroll(&mut self)
        ensures
            final(self)@ == (AppModel {
                pos: table_at(old(self)@.pos, old(self)@.pos.table_cursor),
                ..old(self)@
            }),
            old(self).wf() ==> final(self).wf(),
    {
        let offset: usize = if self.table_cursor < self.table_scroll_offset {
            self.table_cursor
        } else {
            self.table_scroll_offset
        };
        self.table_scroll_offset = offset;
    }

    /// Puts the sidebar's cursor on a row.
    fn place_in_sidebar(&mut self, row: usize)
        ensures
            final(self)@ == (AppModel {
                pos: sidebar_at(old(self)@.pos, row as nat),
                ..old(self)@
            }),
            old(self).wf() ==> final(self).wf(),
    {
        self.tree_cursor = row;
        self.adjust_sidebar_scroll();
    }

    /// Puts the table's cursor on a row.
    fn place_in_table(&mut self, row: usize)
        ensures
            final(self)@ == (AppModel { pos: table_at(old(self)@.pos, row as nat), ..old(self)@ }),
            old(self).wf() ==> final(self).wf(),
    {
        self.table_cursor = row;
        self.adjust_table_scroll();
    }

    /// Scrolls the center panel to a line.
    fn scroll_center(&mut self, line: usize)
        ensures
            final(self)@ == (AppModel {
                pos: scrolled_to(old(self)@.pos, line as nat),
                ..old(self)@
            }),
            old(self).wf() ==> final(self).wf(),
    {
        self.table_scroll_offset = line;
    }

    /// Moves one row up.
    pub fn move_up(&mut self)
        ensures
            final(self)@ == (AppModel { pos: moved_up(old(self)@), ..old(self)@ }),
            old(self).wf() ==> final(self).wf(),
    {
        if self.active_panel == ActivePanel::Sidebar {
            self.place_in_sidebar(self.tree_cursor.saturating_sub(1));
        } else if self.active_tab == 1 {
            self.scroll_center(self.table_scroll_offset.saturating_sub(1));
        } else {
            self.place_in_table(self.table_cursor.saturating_sub(1));
        }
    }

    /// Moves one row down, not past the last.
    pub fn move_down(&mut self)
        requires
            old(self).wf(),
        ensures
            final(self)@ == (AppModel { pos: moved_down(old(self)@), ..old(self)@ }),
            final(self).wf(),
    {
        reveal(valid);
        if self.active_panel == ActivePanel::Sidebar {
            let rows: usize = self.visible_tree_len();
            self.place_in_sidebar(next_below(self.tree_cursor, rows));
        } else if self.active_tab == 1 {
            let lines: usize = self.top_tab_line_count();
            self.scroll_center(next_below(self.table_scroll_offset, lines));
        } else {
            let rows: usize = self.current_row_count();
            self.place_in_table(next_below(self.table_cursor, rows));
        }
    }

    /// Moves half a page up.
    pub fn page_up(&mut self)
        ensures
            final(self)@ == (AppModel { pos: paged_up(old(self)@), ..old(self)@ }),
            old(self).wf() ==> final(self).wf(),
    {
        if self.active_panel == ActivePanel::Sidebar {
            let jump: usize = half_of(self.sidebar_page_size);
            self.place_in_sidebar(self.tree_cursor.saturating_sub(jump));
        } else {
            let jump: usize = half_of(self.page_size);
            if self.active_tab == 1 {
                self.scroll_center(self.table_scroll_offset.saturating_sub(jump));
            } else {
                self.place_in_table(self.table_cursor.saturating_sub(jump));
            }
        }
    }

    /// Moves half a page down, not past the last row.
    pub fn page_down(&mut self)
        requires
            old(self).wf(),
        ensures
            final(self)@ == (AppModel { pos: paged_down(old(self)@), ..old(self)@ }),
            final(self).wf(),
    {
        reveal(valid);
        if self.active_panel == ActivePanel::Sidebar {
            let jump: usize = half_of(self.sidebar_page_size);
            let rows: usize = self.visible_tree_len();
            self.place_in_sidebar(advanced(self.tree_cursor, jump, rows.saturating_sub(1)));
        } else {
            let jump: usize = half_of(self.page_size);
            if self.active_tab == 1 {
                let lines: usize = self.top_tab_line_count();
                self.scroll_center(
                    advanced(self.table_scroll_offset, jump, lines.saturating_sub(1)),
                );
            } else {
                let rows: usize = self.current_row_count();
                let row: usize = if rows > 0 {
                    advanced(self.table_cursor, jump, rows - 1)
                } else {
                    self.table_cursor
                };
                self.place_in_table(row);
            }
        }
    }

    /// Moves to the first row.
    pub fn jump_home(&mut self)
        ensures
            final(self)@ == (AppModel { pos: jumped_home(old(self)@), ..old(self)@ }),
            old(self).wf() ==> final(self).wf(),
    {
        if self.active_panel == ActivePanel::Sidebar {
            self.place_in_sidebar(0);
        } else if self.active_tab == 1 {
            self.scroll_center(0);
        } else {
            self.place_in_table(0);
        }
    }

    /// Moves to the last row.
    pub fn jump_end(&mut self)
        requires
            old(self).wf(),
        ensures
            final(self)@ == (AppModel { pos: jumped_end(old(self)@), ..old(self)@ }),
            final(self).wf(),
    {
        reveal(valid);
        if self.active_panel == ActivePanel::Sidebar {
            let rows: usize = self.visible_tree_len();
            self.place_in_sidebar(rows.saturating_sub(1));
        } else if self.active_tab == 1 {
            let lines: usize = self.top_tab_line_count();
            self.scroll_center(lines.saturating_sub(1));
        } else {
            let rows: usize = self.current_row_count();
            self.place_in_table(rows.saturating_sub(1));
        }
    }
}

/// One step on, where that stays below a limit.
fn next_below(at: usize, limit: usize) -> (r: usize)
    ensures
        r == stepped(at as nat, limit as nat),
{
    if limit > 0 && at < limit - 1 {
        at + 1
    } else {
        at
    }
}

/// Half a page, at least one row.
fn half_of(n: usize) -> (r: usize)
    ensures
        r == half_page(n as nat),
{
    if n / 2 > 1 {
        n / 2
    } else {
        1
    }
}

/// A position moved on, up to a limit.
fn advanced(at: usize, jump: usize, limit: usize) -> (r: usize)
    ensures
        r == smaller((at + jump) as nat, limit as nat),
{
    if jump <= limit && at <= limit - jump {
        at + jump
    } else {
        limit
    }
}

// ---------------------------------------------------------------------------
// Scrolling into view
// ---------------------------------------------------------------------------

/// A scroll position that shows a cursor in a window of `height` rows, and no
/// more empty rows than needed at the end of `rows`.
pub open spec fn in_view(offset: nat, cursor: nat, rows: nat, height: nat) -> nat {
    let o = smaller(offset, minus(rows, height));
    if cursor < o {
        cursor
    } else if cursor >= o + height {
        (cursor - height + 1) as nat
    } else {
        o
    }
}

/// The sidebar scrolled so that its cursor is in view.
pub open spec fn sidebar_in_view(m: AppModel, height: nat) -> AppModel {
    if height == 0 {
        m
    } else {
        AppModel { pos: PosModel { sidebar_scroll_offset: in_view(
                m.pos.sidebar_scroll_offset,
                m.pos.tree_cursor,
                visible(m.tree).len(),
                height,
            ), ..m.pos }, ..m }
    }
}

/// The table scrolled so that its cursor is in view; on the Top tab, so that no
/// more than needed is left empty.
pub open spec fn table_in_view(m: AppModel, height: nat) -> AppModel {
    if height == 0 {
        m
    } else if m.mode.active_tab == 1 {
        AppModel {
            pos: PosModel {
                table_scroll_offset: smaller(
                    m.pos.table_scroll_offset,
                    minus(top_line_count(m), height),
                ),
                ..m.pos
            },
            ..m
        }
    } else {
        AppModel { pos: PosModel { table_scroll_offset: in_view(
                m.pos.table_scroll_offset,
                m.pos.table_cursor,
                row_count(m),
                height,
            ), ..m.pos }, ..m }
    }
}

/// A scroll position that shows a cursor in a window.
fn scroll_into_view(offset: usize, cursor: usize, rows: usize, height: usize) -> (r: usize)
    requires
        height > 0,
    ensures
        r == in_view(offset as nat, cursor as nat, rows as nat, height as nat),
{
    let limit: usize = rows.saturating_sub(height);
    let o: usize = if offset > limit {
        limit
    } else {
        offset
    };
    if cursor < o {
        cursor
    } else if cursor - o >= height {
        cursor - height + 1
    } else {
        o
    }
}

impl App {
    /// Scrolls the sidebar so that its cursor is in view.
    pub fn ensure_sidebar_scroll_visible(&mut self, viewport_height: usize)
        ensures
            final(self)@ == sidebar_in_view(old(self)@, viewport_height as nat),
            old(self).wf() ==> final(self).wf(),
    {
        if viewport_height == 0 {
            return ;
        }
        let rows: usize = self.visible_tree_len();
        self.sidebar_scroll_offset =
        scroll_into_view(self.sidebar_scroll_offset, self.tree_cursor, rows, viewport_height);
    }

    /// Scrolls the table so that its cursor is in view.
    pub fn ensure_table_scroll_visible(&mut self, viewport_height: usize)
        requires
            old(self).wf(),
        ensures
            final(self)@ == table_in_view(old(self)@, viewport_height as nat),
            final(self).wf(),
    {
        reveal(valid);
        if viewport_height == 0 {
            return ;
        }
        if self.active_tab == 1 {
            let limit: usize = self.top_tab_line_count().saturating_sub(viewport_height);
            if self.table_scroll_offset > limit {
                self.table_scroll_offset = limit;
            }
            return ;
        }
        let rows: usize = self.current_row_count();
        self.table_scroll_offset =
        scroll_into_view(self.table_scroll_offset, self.table_cursor, rows, viewport_height);
    }
}

/// A cursor that is scrolled into view is in the window.
pub proof fn law_cursor_in_view(offset: nat, cursor: nat, rows: nat, height: nat)
    requires
        height > 0,
    ensures
        in_view(offset, cursor, rows, height) <= cursor < in_view(offset, cursor, rows, height)
            + height,
        cursor < rows ==> in_view(offset, cursor, rows, height) <= minus(rows, height),
{
}

// ---------------------------------------------------------------------------
// The sidebar tree
// ---------------------------------------------------------------------------

impl App {
    /// Removes the nodes below a node and keeps the cursor in view.
    pub fn remove_children(&mut self, parent_idx: usize)
        requires
            parent_idx < old(self).tree@.len(),
        ensures
            ({
                let bare = without_children(old(self)@.tree, parent_idx as int);
                final(self)@ == (AppModel {
                    tree: bare,
                    pos: PosModel {
                        tree_cursor: clamped(old(self)@.pos.tree_cursor, bare),
                        ..old(self)@.pos
                    },
                    ..old(self)@
                })
            }),
            old(self).wf() ==> final(self).wf(),
    {
        proof {
            reveal(valid);
            if self.wf() {
                assert(self@.tree.len() == self.tree@.len());
                lemma_depths_kept(self@.tree, parent_idx as int, Seq::empty());
            }
        }
        drop_children(&mut self.tree, parent_idx);
        self.tree_cursor = clamp_cursor(&self.tree, self.tree_cursor);
    }

    /// Opens or closes a node.
    pub fn set_node_expanded(&mut self, idx: usize, expanded: bool)
        requires
            idx < old(self).tree@.len(),
        ensures
            final(self)@ == (AppModel {
                tree: old(self)@.tree.update(
                    idx as int,
                    with_expanded(old(self)@.tree[idx as int], expanded),
                ),
                ..old(self)@
            }),
            final(self).tree@.len() == old(self).tree@.len(),
            final(self).fetch_generation == old(self).fetch_generation,
            old(self).wf() ==> final(self).wf(),
    {
        let ghost m = self@;
        proof {
            reveal(valid);
            assert(m.tree.len() == self.tree@.len());
            if self.wf() {
                lemma_update_keeps_depths(
                    m.tree,
                    idx as int,
                    with_expanded(m.tree[idx as int], expanded),
                );
            }
        }
        set_expanded(&mut self.tree, idx, expanded);
        proof {
            assert(tree_model(self.tree@).len() == self.tree@.len());
        }
    }

    /// Closes a node, removes its children and keeps the cursor in view.
    fn close_node(&mut self, idx: usize)
        requires
            idx < old(self).tree@.len(),
            old(self).wf(),
        ensures
            final(self)@ == node_closed(old(self)@, idx as int),
            final(self).wf(),
    {
        let ghost m = self@;
        proof {
            reveal(valid);
            assert(m.tree.len() == self.tree@.len());
            lemma_update_keeps_depths(m.tree, idx as int, with_expanded(m.tree[idx as int], false));
            let t = m.tree.update(idx as int, with_expanded(m.tree[idx as int], false));
            lemma_update_keeps_depths(t, idx as int, with_loaded(t[idx as int], false));
            assert(t.update(idx as int, with_loaded(t[idx as int], false)) =~= m.tree.update(
                idx as int,
                with_loaded(with_expanded(m.tree[idx as int], false), false),
            ));
        }
        set_expanded(&mut self.tree, idx, false);
        proof {
            assert(tree_model(self.tree@).len() == self.tree@.len());
        }
        set_loaded(&mut self.tree, idx, false);
        proof {
            assert(tree_model(self.tree@).len() == self.tree@.len());
        }
        self.remove_children(idx);
    }

    /// Takes the namespaces of the snapshots into the tree.
    pub fn sync_tree_from_snapshots(&mut self)
        requires
            old(self).wf(),
        ensures
            final(self)@ == tree_synced(old(self)@),
            final(self).wf(),
    {
        reveal(valid);
        self.tree_cursor = sync_all(&mut self.tree, self.tree_cursor, &self.snapshots);
    }

    /// Takes the infrastructure's pools into the tree.
    pub fn sync_infra_tree(&mut self)
        requires
            old(self).wf(),
        ensures
            final(self)@ == infra_tree_synced(old(self)@),
            final(self).wf(),
    {
        let ghost m = self@;
        reveal(valid);
        sync_infra(&mut self.tree, &self.infra.sdi_pools);
        proof {
            lemma_infra_synced_fits(m.tree, m.data.infra.sdi_pools@);
        }
    }

    /// Asks for a fetch in a new generation.
    pub fn refetch(&mut self)
        requires
            old(self).fetch_generation < u64::MAX,
        ensures
            final(self)@ == refetching(old(self)@),
            old(self).wf() ==> final(self).wf(),
    {
        self.needs_refresh = true;
        self.fetch_generation = self.fetch_generation + 1;
        self.is_fetching = false;
    }

    /// Goes back to the table's first row.
    fn reset_table(&mut self)
        ensures
            final(self)@ == at_top(old(self)@),
            old(self).wf() ==> final(self).wf(),
            final(self).fetch_generation == old(self).fetch_generation,
    {
        self.table_cursor = 0;
        self.table_scroll_offset = 0;
    }

    /// The position of the node under the sidebar's cursor.
    fn node_under_cursor(&self) -> (r: Option<usize>)
        ensures
            r is Some == on_node(self@),
            r is Some ==> r->0 == cursor_node(self@) && r->0 < self.tree@.len(),
    {
        if self.active_panel != ActivePanel::Sidebar {
            return None;
        }
        let rows = self.visible_tree_indices();
        if self.tree_cursor >= rows.len() {
            proof {
                assert(rows@.map_values(|i: usize| i as int).len() == rows@.len());
            }
            return None;
        }
        let idx: usize = rows[self.tree_cursor];
        proof {
            assert(rows@.map_values(|i: usize| i as int)[self.tree_cursor as int] == idx as int);
        }
        Some(idx)
    }

    /// Moves the sidebar's cursor to the parent of its node: the nearest visible
    /// node above it that is less deep.
    pub fn navigate_to_parent(&mut self)
        requires
            on_node(old(self)@),
        ensures
            final(self)@ == at_parent(old(self)@),
            old(self).wf() ==> final(self).wf(),
    {
        let ghost m = self@;
        let rows = self.visible_tree_indices();
        let ghost vis = visible(m.tree);
        proof {
            assert(rows@.map_values(|i: usize| i as int).len() == rows@.len());
            assert(rows@.map_values(|i: usize| i as int)[self.tree_cursor as int]
                == rows@[self.tree_cursor as int] as int);
            assert(m.tree[rows@[self.tree_cursor as int] as int]
                == self.tree@[rows@[self.tree_cursor as int] as int]@);
        }
        let depth: usize = self.tree[rows[self.tree_cursor]].depth;
        let mut row: usize = self.tree_cursor;
        while row > 0
            invariant
                row <= self.tree_cursor < rows@.len(),
                self@ == m,
                vis == visible(m.tree),
                rows@.map_values(|i: usize| i as int) == vis,
                forall|k: int| 0 <= k < rows@.len() ==> (#[trigger] rows@[k]) < self.tree@.len(),
                depth == m.tree[cursor_node(m)].depth,
                parent_row(m.tree, vis, depth as nat, row as int) == parent_row(
                    m.tree,
                    vis,
                    depth as nat,
                    m.pos.tree_cursor as int,
                ),
                old(self)@ == m,
                old(self).wf() ==> self.wf(),
            decreases row,
        {
            proof {
                assert(rows@.map_values(|i: usize| i as int)[row - 1] == rows@[row - 1] as int);
                assert(m.tree[rows@[row - 1] as int] == self.tree@[rows@[row - 1] as int]@);
            }
            row -= 1;
            if self.tree[rows[row]].depth < depth {
                self.place_in_sidebar(row);
                return ;
            }
        }
    }

    /// Enter on a cluster: closes it, or opens and selects it.
    fn enter_cluster(&mut self, idx: usize, name: String, is_expanded: bool)
        requires
            old(self).wf(),
            old(self).fetch_generation < u64::MAX,
            idx < old(self).tree@.len(),
        ensures
            final(self)@ == cluster_entered(old(self)@, idx as int, name@, is_expanded),
            final(self).wf(),
    {
        if is_expanded {
            self.close_node(idx);
            let selected = match &self.selected_cluster {
                Some(c) => same(c.as_str(), name.as_str()),
                None => false,
            };
            if selected {
                self.selected_namespace = None;
            }
        } else {
            self.set_node_expanded(idx, true);
            self.selected_cluster = Some(name);
            self.selected_namespace = None;
            self.reset_table();
            self.refetch();
            self.sync_tree_from_snapshots();
        }
    }

    /// Enter on a namespace: selects it.
    fn enter_namespace(&mut self, cluster: String, namespace: String)
        requires
            old(self).wf(),
            old(self).fetch_generation < u64::MAX,
        ensures
            final(self)@ == namespace_entered(old(self)@, cluster@, namespace@),
            final(self).wf(),
    {
        let choice = if same(namespace.as_str(), "All Namespaces") {
            None
        } else {
            Some(namespace)
        };
        self.selected_cluster = Some(cluster);
        self.selected_namespace = choice;
        self.reset_table();
        self.refetch();
    }

    /// Enter on the infrastructure header: opens or closes it.
    fn enter_infra(&mut self, idx: usize, is_expanded: bool)
        requires
            old(self).wf(),
            idx < old(self).tree@.len(),
        ensures
            final(self)@ == infra_entered(old(self)@, idx as int, is_expanded),
            final(self).wf(),
    {
        if is_expanded {
            self.close_node(idx);
        } else {
            self.set_node_expanded(idx, true);
            self.sync_infra_tree();
        }
    }

    /// Enter: opens, closes or selects the node under the cursor.
    pub fn handle_enter(&mut self)
        requires
            old(self).wf(),
            old(self).fetch_generation < u64::MAX,
        ensures
            final(self)@ == entered(old(self)@),
            final(self).wf(),
    {
        let idx: usize = match self.node_under_cursor() {
            Some(idx) => idx,
            None => {
                return ;
            },
        };
        proof {
            assert(self@.tree[idx as int] == self.tree@[idx as int]@);
        }
        let is_expanded = self.tree[idx].expanded;
        match &self.tree[idx].node_type {
            NodeType::Root => self.set_node_expanded(idx, !is_expanded),
            NodeType::Cluster(cluster) => {
                let name = cluster.clone();
                self.enter_cluster(idx, name, is_expanded);
            },
            NodeType::Namespace { cluster, namespace } => {
                let c = cluster.clone();
                let n = namespace.clone();
                self.enter_namespace(c, n);
            },
            NodeType::InfraHeader => self.enter_infra(idx, is_expanded),
            NodeType::InfraItem(_) => {},
        }
    }

    /// Tests whether a node never has children.
    fn is_leaf_node(&self, idx: usize) -> (r: bool)
        requires
            idx < self.tree@.len(),
        ensures
            r == is_leaf(self@.tree[idx as int].kind),
    {
        match &self.tree[idx].node_type {
            NodeType::Namespace { cluster: _, namespace: _ } => true,
            NodeType::InfraItem(_) => true,
            _ => false,
        }
    }

    /// Left: closes the node under the cursor, or goes to its parent.
    pub fn collapse_node(&mut self)
        requires
            old(self).wf(),
        ensures
            final(self)@ == collapsed(old(self)@),
            final(self).wf(),
    {
        let idx: usize = match self.node_under_cursor() {
            Some(idx) => idx,
            None => {
                return ;
            },
        };
        proof {
            assert(self@.tree[idx as int] == self.tree@[idx as int]@);
        }
        if !self.is_leaf_node(idx) && self.tree[idx].expanded {
            self.close_node(idx);
        } else {
            self.navigate_to_parent();
        }
    }

    /// Right: opens the node under the cursor without selecting it.
    pub fn expand_node(&mut self)
        requires
            old(self).wf(),
        ensures
            final(self)@ == expanded(old(self)@),
            final(self).wf(),
    {
        let idx: usize = match self.node_under_cursor() {
            Some(idx) => idx,
            None => {
                return ;
            },
        };
        proof {
            assert(self@.tree[idx as int] == self.tree@[idx as int]@);
        }
        if self.is_leaf_node(idx) {
            return ;
        }
        if !self.tree[idx].expanded {
            self.set_node_expanded(idx, true);
            self.sync_tree_from_snapshots();
            self.sync_infra_tree();
        }
    }

    // -----------------------------------------------------------------------
    // Events
    // -----------------------------------------------------------------------

    /// The character that an event types in search mode.
    fn typed_char_of(evt: AppEvent) -> (r: Option<char>)
        ensures
            r == typed_char(evt),
    {
        match evt {
            AppEvent::Quit => Some('q'),
            AppEvent::Help => Some('?'),
            AppEvent::Left => Some('h'),
            AppEvent::Right => Some('l'),
            AppEvent::Up => Some('k'),
            AppEvent::Down => Some('j'),
            AppEvent::Refresh => Some('r'),
            AppEvent::Search => Some('/'),
            AppEvent::ResourceType(c) => Some(c),
            AppEvent::CharInput(c) => Some(c),
            _ => None,
        }
    }

    /// The query after an event in search mode.
    fn query_after_event(query: Option<String>, evt: AppEvent) -> (r: Option<String>)
        ensures
            opt_text(r) == query_after(opt_text(query), evt),
    {
        match evt {
            AppEvent::Enter => match query {
                Some(q) => if q.as_str().is_empty() {
                    None
                } else {
                    Some(q)
                },
                None => None,
            },
            AppEvent::Escape | AppEvent::NextPanel | AppEvent::PrevPanel => None,
            AppEvent::Backspace => match query {
                Some(q) => {
                    let mut text = q;
                    let _last = text.pop();
                    if text.as_str().is_empty() {
                        None
                    } else {
                        Some(text)
                    }
                },
                None => None,
            },
            _ => match App::typed_char_of(evt) {
                Some(c) => {
                    let mut text = match query {
                        Some(q) => q,
                        None => String::new(),
                    };
                    text.push(c);
                    proof {
                        if query is None {
                            assert(text@ =~= seq![c]);
                        }
                    }
                    Some(text)
                },
                None => query,
            },
        }
    }

    /// An event in search mode.
    fn handle_search_event(&mut self, evt: AppEvent)
        ensures
            final(self)@ == search_step(old(self)@, evt),
            old(self).wf() ==> final(self).wf(),
    {
        let ends = match evt {
            AppEvent::Enter | AppEvent::Escape | AppEvent::NextPanel | AppEvent::PrevPanel => true,
            _ => false,
        };
        let switches = evt == AppEvent::NextPanel || evt == AppEvent::PrevPanel;
        let changes = match evt {
            AppEvent::Escape
            | AppEvent::Backspace
            | AppEvent::NextPanel
            | AppEvent::PrevPanel => true,
            _ => App::typed_char_of(evt).is_some(),
        };
        let query = self.search_query.take();
        self.search_query = App::query_after_event(query, evt);
        self.search_active = !ends;
        if switches {
            self.switch_panel();
        }
        if changes {
            self.reset_table();
        }
    }

    /// Changes to the other panel.
    fn switch_panel(&mut self)
        ensures
            final(self)@ == panel_switched(old(self)@),
            old(self).wf() ==> final(self).wf(),
    {
        let panel = match self.active_panel {
            ActivePanel::Sidebar => ActivePanel::Center,
            ActivePanel::Center => ActivePanel::Sidebar,
        };
        self.active_panel = panel;
    }

    /// Half a page of help text.
    fn help_jump_of(&self) -> (r: u16)
        ensures
            r == help_jump(self@),
    {
        let jump: usize = half_of(self.page_size);
        (jump % 0x1_0000) as u16
    }

    /// How far the help text is scrolled after an event.
    fn help_offset_of(&self, evt: AppEvent) -> (r: u16)
        ensures
            r == help_offset_after(self@, evt),
    {
        let at: u16 = self.help_scroll_offset;
        match evt {
            AppEvent::Help | AppEvent::Quit | AppEvent::Enter | AppEvent::Escape => 0,
            AppEvent::Up | AppEvent::ArrowUp => at.saturating_sub(1),
            AppEvent::Down | AppEvent::ArrowDown => if at < self.help_max_scroll() {
                at + 1
            } else {
                at
            },
            AppEvent::PageUp => at.saturating_sub(self.help_jump_of()),
            AppEvent::PageDown => {
                let limit: u16 = self.help_max_scroll();
                let jump: u16 = self.help_jump_of();
                if jump <= limit && at <= limit - jump {
                    at + jump
                } else {
                    limit
                }
            },
            AppEvent::Home => 0,
            AppEvent::End => self.help_max_scroll(),
            _ => at,
        }
    }

    /// An event while help is shown.
    fn handle_help_event(&mut self, evt: AppEvent)
        ensures
            final(self)@ == help_step(old(self)@, evt),
            old(self).wf() ==> final(self).wf(),
    {
        let closes = match evt {
            AppEvent::Help | AppEvent::Quit | AppEvent::Enter | AppEvent::Escape => true,
            _ => false,
        };
        let offset: u16 = self.help_offset_of(evt);
        self.help_scroll_offset = offset;
        self.show_help = !closes;
    }

    /// A key that moves about, in normal mode.
    fn handle_motion_event(&mut self, evt: AppEvent)
        requires
            old(self).wf(),
            old(self).fetch_generation < u64::MAX,
        ensures
            final(self)@ == motion_step(old(self)@, evt),
            final(self).wf(),
    {
        match evt {
            AppEvent::Up | AppEvent::ArrowUp => self.move_up(),
            AppEvent::Down | AppEvent::ArrowDown => self.move_down(),
            AppEvent::PageUp => self.page_up(),
            AppEvent::PageDown => self.page_down(),
            AppEvent::Home => self.jump_home(),
            AppEvent::End => self.jump_end(),
            AppEvent::Enter => self.handle_enter(),
            AppEvent::Left | AppEvent::ArrowLeft => self.collapse_node(),
            AppEvent::Right | AppEvent::ArrowRight => self.expand_node(),
            _ => {},
        }
    }

    /// Chooses the resource type that a letter stands for.
    fn choose_view(&mut self, c: char)
        requires
            old(self).wf(),
            old(self).fetch_generation < u64::MAX,
        ensures
            final(self)@ == view_chosen(old(self)@, c),
            final(self).wf(),
    {
        if self.active_panel == ActivePanel::Center {
            if let Some(chosen) = ResourceView::from_char(c) {
                if self.resource_view != chosen {
                    self.resource_view = chosen;
                    self.reset_table();
                    self.refetch();
                }
            }
        }
    }

    /// Changes to a tab, counted from one.
    fn choose_tab(&mut self, n: usize)
        ensures
            final(self)@ == tab_chosen(old(self)@, n as nat),
            old(self).wf() ==> final(self).wf(),
    {
        if n > 0 && n <= self.tabs.len() && self.active_tab != n - 1 {
            self.active_tab = n - 1;
            self.reset_table();
        }
    }

    /// Shows the help text from its start.
    fn open_help(&mut self)
        ensures
            final(self)@ == help_opened(old(self)@),
            old(self).wf() ==> final(self).wf(),
    {
        self.show_help = true;
        self.help_scroll_offset = 0;
    }

    /// Starts a search in the center panel.
    fn open_search(&mut self)
        ensures
            final(self)@ == search_opened(old(self)@),
            old(self).wf() ==> final(self).wf(),
    {
        self.search_active = true;
        self.search_query = Some(String::new());
        self.active_panel = ActivePanel::Center;
        self.reset_table();
    }

    /// Drops the search filter, where there is one.
    fn clear_filter(&mut self)
        ensures
            final(self)@ == filter_cleared(old(self)@),
            old(self).wf() ==> final(self).wf(),
    {
        let filtered = match &self.search_query {
            Some(q) => !q.as_str().is_empty(),
            None => false,
        };
        if filtered {
            self.search_query = None;
            self.reset_table();
        }
    }

    /// Stops the dashboard.
    fn stop(&mut self)
        ensures
            final(self)@ == stopped(old(self)@),
            old(self).wf() ==> final(self).wf(),
    {
        self.running = false;
    }

    /// An event in normal mode.
    fn handle_normal_event(&mut self, evt: AppEvent)
        requires
            old(self).wf(),
            old(self).fetch_generation < u64::MAX,
        ensures
            final(self)@ == normal_step(old(self)@, evt),
            final(self).wf(),
    {
        match evt {
            AppEvent::Quit => self.stop(),
            AppEvent::Tab(n) => self.choose_tab(n),
            AppEvent::NextPanel | AppEvent::PrevPanel => self.switch_panel(),
            AppEvent::ResourceType(c) => self.choose_view(c),
            AppEvent::Help => self.open_help(),
            AppEvent::Search => self.open_search(),
            AppEvent::Refresh => self.refetch(),
            AppEvent::Escape => self.clear_filter(),
            _ => self.handle_motion_event(evt),
        }
    }

    /// Takes an event.
    pub fn handle_event(&mut self, evt: AppEvent)
        requires
            old(self).wf(),
            old(self).fetch_generation < u64::MAX,
        ensures
            final(self)@ == step(old(self)@, evt),
            final(self).wf(),
    {
        if evt == AppEvent::ForceQuit {
            self.stop();
        } else if self.search_active {
            self.handle_search_event(evt);
        } else if self.show_help {
            self.handle_help_event(evt);
        } else {
            self.handle_normal_event(evt);
        }
    }
}

/// Filling in the infrastructure's children keeps the depths of parents in
/// range.
proof fn lemma_infra_synced_fits(tree: Seq<NodeModel>, pools: Seq<crate::infra::SdiPoolInfo>)
    requires
        depths_fit(tree),
    ensures
        depths_fit(infra_synced(tree, pools)),
{
    let idx = infra_header(tree);
    lemma_first_index_props(tree, crate::tree::is_infra_header());
    if idx < tree.len() && tree[idx].expanded && !tree[idx].children_loaded {
        let added = crate::tree::infra_children(pools, tree[idx].depth + 1);
        assert forall|i: int| 0 <= i < added.len() implies !is_parent(#[trigger] added[i]) by {}
        lemma_depths_kept(tree, idx, added);
        let filled = crate::tree::with_children(tree, idx, added);
        lemma_update_keeps_depths(filled, idx, with_loaded(filled[idx], true));
    }
}

} // verus!
