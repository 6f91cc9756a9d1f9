//! A session of the dashboard: how it starts, and how discovery, fetches and the
//! screen's size act on its state.
use vstd::prelude::*;
use crate::app::{
    all_fit, help_limit, help_line_count, minus, opt_text, refetching, row_count, sidebar_in_view,
    smaller, snapshot_fits, snapshot_of, tab_names, table_in_view, tree_synced, infra_tree_synced,
    active_resource_of, valid, ActivePanel, App, AppModel, ChosenModel, DataModel, FetchModel,
    FetchResult, PosModel, ResourceView, SizeModel, Tab,
};
use crate::connections::{entry_failed, entry_name, ConnectionStatus, ConnectionTable, StatusModel};
use crate::data::{ActiveResource, ClusterSnapshot, NodeInfo, PodInfo, ResourceUsage};
use crate::infra::InfraSnapshot;
use crate::kube_client::{ClusterClient, DiscoverEvent};
use crate::list::{
    collect, count, first_index, lemma_first_index, lemma_first_index_props, lemma_take_all,
};
use crate::snapshot::{
    compute_health, compute_resource_usage, health_of, node_ready, pod_failed, pod_running,
    pod_succeeded,
};
use crate::text::{lemma_texts_push, same, texts};
use crate::tree::{
    clamped, cluster_node, depths_fit, find_cluster, find_infra_header, infra_header, leaf,
    lemma_tree_push, lemma_update_keeps_depths, set_loaded, tree_model, with_expanded, with_loaded,
    without_children, KindModel, NodeModel, NodeType, TreeNode,
};

verus! {

broadcast use {lemma_take_all, lemma_texts_push};

// ---------------------------------------------------------------------------
// Starting
// ---------------------------------------------------------------------------

/// The root node of a fresh sidebar.
pub open spec fn root_node() -> NodeModel {
    NodeModel {
        label: "ScaleX"@,
        depth: 0,
        expanded: true,
        kind: KindModel::Root,
        children_loaded: true,
    }
}

/// The closed node of a cluster.
pub open spec fn fresh_cluster_node() -> spec_fn(Seq<char>) -> NodeModel {
    |name: Seq<char>| leaf(name, 1, KindModel::Cluster(name))
}

/// The tree of a fresh sidebar: the root, the clusters, the infrastructure.
pub open spec fn fresh_tree(names: Seq<Seq<char>>) -> Seq<NodeModel> {
    seq![root_node()] + names.map_values(fresh_cluster_node()) + seq![
        leaf("Infrastructure"@, 0, KindModel::InfraHeader),
    ]
}

/// Whether a state is that of a dashboard just started.
pub open spec fn is_fresh(m: AppModel, names: Seq<Seq<char>>, refresh_secs: u64) -> bool {
    &&& m.mode.running
    &&& m.mode.active_panel == ActivePanel::Sidebar
    &&& m.mode.active_tab == 0
    &&& tab_names(m.data.tabs) == seq!["Resources"@, "Top"@]
    &&& forall|i: int| 0 <= i < m.data.tabs.len() ==> !(#[trigger] m.data.tabs[i]).closable
    &&& m.mode.resource_view == ResourceView::Pods
    &&& m.tree == fresh_tree(names)
    &&& m.pos.tree_cursor == 0 && m.pos.sidebar_scroll_offset == 0
    &&& m.pos.table_cursor == 0 && m.pos.table_scroll_offset == 0
    &&& m.chosen.selected_cluster is None && m.chosen.selected_namespace is None
    &&& m.data.snapshots.len() == 0
    &&& m.data.infra.sdi_pools@.len() == 0
    &&& m.data.infra.total_vms == 0 && m.data.infra.running_vms == 0
    &&& m.data.api_latency_ms == 0
    &&& !m.mode.show_help && m.mode.help_scroll_offset == 0
    &&& !m.mode.search_active && m.mode.search_query is None
    &&& m.data.refresh_secs == refresh_secs
    &&& !m.fetch.needs_refresh
    &&& m.data.tunnel_pids.len() == 0
    &&& !m.fetch.is_fetching && m.fetch.fetch_started_at is None
    &&& m.fetch.tick_count == 0
    &&& m.data.last_fetched_resource is None
    &&& m.fetch.fetch_generation == 0
    &&& !m.fetch.fetch_timed_out
    &&& m.size.page_size == 0 && m.size.sidebar_page_size == 0 && m.size.help_viewport_height == 0
    &&& m.chosen.selected_sdi_pool is None && m.chosen.infra_vm_cursor == 0
}

/// The names of clusters.
pub open spec fn client_names(clusters: Seq<ClusterClient>) -> Seq<Seq<char>> {
    clusters.map_values(|c: ClusterClient| c.name@)
}

/// Makes the tree of a fresh sidebar.
fn make_fresh_tree(names: &Vec<String>) -> (r: Vec<TreeNode>)
    ensures
        tree_model(r@) == fresh_tree(texts(names@)),
        depths_fit(tree_model(r@)),
{
    reveal(depths_fit);
    let ghost want = fresh_tree(texts(names@));
    let mut tree: Vec<TreeNode> = Vec::new();
    let root = TreeNode {
        label: "ScaleX".to_owned(),
        depth: 0,
        expanded: true,
        node_type: NodeType::Root,
        children_loaded: true,
    };
    proof {
        lemma_tree_push(tree@, root);
        assert(want[0] == root_node());
        assert(tree_model(tree@.push(root)) =~= want.take(1));
    }
    tree.push(root);
    let mut i: usize = 0;
    while i < names.len()
        invariant
            i <= names@.len(),
            want == fresh_tree(texts(names@)),
            want.len() == names@.len() + 2,
            tree_model(tree@) == want.take(i + 1),
        decreases names@.len() - i,
    {
        let node = TreeNode {
            label: names[i].clone(),
            depth: 1,
            expanded: false,
            node_type: NodeType::Cluster(names[i].clone()),
            children_loaded: false,
        };
        proof {
            lemma_tree_push(tree@, node);
            assert(want[i + 1] == fresh_cluster_node()(texts(names@)[i as int]));
            assert(want.take(i + 2) =~= want.take(i + 1).push(node@));
        }
        tree.push(node);
        i += 1;
    }
    let infra = TreeNode {
        label: "Infrastructure".to_owned(),
        depth: 0,
        expanded: false,
        node_type: NodeType::InfraHeader,
        children_loaded: false,
    };
    proof {
        lemma_tree_push(tree@, infra);
        assert(want[names@.len() as int + 1] == infra@);
        assert(want =~= want.take(names@.len() as int + 1).push(infra@));
    }
    tree.push(infra);
    tree
}

/// Makes the tabs of a fresh dashboard.
fn make_tabs() -> (r: Vec<Tab>)
    ensures
        tab_names(r@) == seq!["Resources"@, "Top"@],
        forall|i: int| 0 <= i < r@.len() ==> !(#[trigger] r@[i]).closable,
{
    let mut tabs: Vec<Tab> = Vec::new();
    tabs.push(Tab { name: "Resources".to_owned(), closable: false });
    tabs.push(Tab { name: "Top".to_owned(), closable: false });
    proof {
        assert(tab_names(tabs@) =~= seq!["Resources"@, "Top"@]);
    }
    tabs
}

impl App {
    /// A fresh dashboard with given parts.
    fn with_parts(
        names: &Vec<String>,
        refresh_secs: u64,
        clusters: Vec<ClusterClient>,
        connections: ConnectionTable,
        discover_complete: bool,
    ) -> (r: App)
        requires
            connections.wf(),
        ensures
            r.wf(),
            is_fresh(r@, texts(names@), refresh_secs),
            r@.data.clusters == clusters@,
            r@.data.connections == connections@,
            r@.data.discover_complete == discover_complete,
    {
        reveal(all_fit);
        reveal(valid);
        App {
            running: true,
            active_panel: ActivePanel::Sidebar,
            active_tab: 0,
            tabs: make_tabs(),
            resource_view: ResourceView::Pods,
            tree: make_fresh_tree(names),
            tree_cursor: 0,
            sidebar_scroll_offset: 0,
            table_cursor: 0,
            table_scroll_offset: 0,
            selected_cluster: None,
            selected_namespace: None,
            clusters,
            snapshots: Vec::new(),
            infra: InfraSnapshot::default(),
            api_latency_ms: 0,
            show_help: false,
            help_scroll_offset: 0,
            search_active: false,
            search_query: None,
            refresh_secs,
            needs_refresh: false,
            cluster_connection_status: connections,
            discover_complete,
            tunnel_pids: Vec::new(),
            is_fetching: false,
            fetch_started_at: None,
            tick_count: 0,
            last_fetched_resource: None,
            fetch_generation: 0,
            fetch_timed_out: false,
            page_size: 0,
            sidebar_page_size: 0,
            help_viewport_height: 0,
            selected_sdi_pool: None,
            infra_vm_cursor: 0,
        }
    }

    /// A dashboard for clusters that are connected already.
    pub fn new(clusters: Vec<ClusterClient>, refresh_secs: u64) -> (r: App)
        ensures
            r.wf(),
            is_fresh(r@, client_names(clusters@), refresh_secs),
            r@.data.clusters == clusters@,
            r@.data.connections == Map::<Seq<char>, StatusModel>::empty(),
            r@.data.discover_complete,
    {
        let mut names: Vec<String> = Vec::new();
        let mut i: usize = 0;
        while i < clusters.len()
            invariant
                i <= clusters@.len(),
                texts(names@) =~= client_names(clusters@.take(i as int)),
            decreases clusters@.len() - i,
        {
            names.push(clusters[i].name.clone());
            i += 1;
            proof {
                assert(client_names(clusters@.take(i as int)) =~= client_names(
                    clusters@.take(i - 1),
                ).push(clusters@[i - 1].name@));
            }
        }
        App::with_parts(&names, refresh_secs, clusters, ConnectionTable::new(), true)
    }

    /// A dashboard that knows only the names of its clusters; the connections
    /// come later.
    pub fn new_with_names(cluster_names: &Vec<String>, refresh_secs: u64) -> (r: App)
        ensures
            r.wf(),
            is_fresh(r@, texts(cluster_names@), refresh_secs),
            r@.data.clusters.len() == 0,
            forall|name: Seq<char>| #[trigger]
                r@.data.connections.contains_key(name) <==> texts(cluster_names@).contains(name),
            forall|name: Seq<char>|
                r@.data.connections.contains_key(name) ==> #[trigger] r@.data.connections[name]
                    == StatusModel::Discovering,
            !r@.data.discover_complete,
    {
        let mut connections = ConnectionTable::new();
        let ghost names = texts(cluster_names@);
        let mut i: usize = 0;
        while i < cluster_names.len()
            invariant
                i <= cluster_names@.len(),
                names == texts(cluster_names@),
                connections.wf(),
                forall|name: Seq<char>| #[trigger]
                    connections@.contains_key(name) <==> names.take(i as int).contains(name),
                forall|name: Seq<char>|
                    connections@.contains_key(name) ==> #[trigger] connections@[name]
                        == StatusModel::Discovering,
            decreases cluster_names@.len() - i,
        {
            let ghost before = connections@;
            connections.insert(cluster_names[i].clone(), ConnectionStatus::Discovering);
            proof {
                let a = names.take(i as int);
                let b = names.take(i + 1);
                assert(b =~= a.push(names[i as int]));
                assert forall|name: Seq<char>| #[trigger]
                    connections@.contains_key(name) <==> b.contains(name) by {
                    assert(before.contains_key(name) <==> a.contains(name));
                    if a.contains(name) {
                        let k = choose|k: int| 0 <= k < a.len() && a[k] == name;
                        assert(b[k] == name);
                    }
                    if b.contains(name) {
                        let k = choose|k: int| 0 <= k < b.len() && b[k] == name;
                        if k < i {
                            assert(a[k] == name);
                        }
                    }
                    assert(b[i as int] == names[i as int]);
                }
            }
            i += 1;
        }
        proof {
            assert(names.take(cluster_names@.len() as int) =~= names);
        }
        App::with_parts(cluster_names, refresh_secs, Vec::new(), connections, false)
    }
}

// ---------------------------------------------------------------------------
// Infrastructure
// ---------------------------------------------------------------------------

/// The state with new infrastructure data: children of the header that are
/// there are dropped, and filled in anew where the header is open.
pub open spec fn infra_loaded(m: AppModel, infra: InfraSnapshot) -> AppModel {
    let idx = infra_header(m.tree);
    let m1 = AppModel { data: DataModel { infra, ..m.data }, ..m };
    let m2 = if idx < m.tree.len() && m.tree[idx].children_loaded {
        let bare = without_children(m.tree, idx);
        AppModel { tree: bare.update(idx, with_loaded(bare[idx], false)),
            pos: PosModel { tree_cursor: clamped(m.pos.tree_cursor, bare), ..m1.pos },
            ..m1
        }
    } else {
        m1
    };
    infra_tree_synced(m2)
}

impl App {
    /// Takes in new infrastructure data.
    pub fn load_infra(&mut self, infra: InfraSnapshot)
        requires
            old(self).wf(),
        ensures
            final(self)@ == infra_loaded(old(self)@, infra),
            final(self).wf(),
    {
        self.infra = infra;
        let ghost m = self@;
        proof {
            reveal(valid);
            assert(m.tree.len() == self.tree@.len());
        }
        if let Some(idx) = find_infra_header(&self.tree) {
            proof {
                assert(m.tree[idx as int] == self.tree@[idx as int]@);
            }
            if self.tree[idx].children_loaded {
                self.remove_children(idx);
                proof {
                    crate::tree::lemma_children_end(
                        m.tree,
                        m.tree[idx as int].depth,
                        idx + 1,
                    );
                    assert(self@.tree.len() == self.tree@.len());
                    let bare = self@.tree;
                    lemma_update_keeps_depths(
                        bare,
                        idx as int,
                        with_loaded(bare[idx as int], false),
                    );
                }
                set_loaded(&mut self.tree, idx, false);
            }
        }
        self.sync_infra_tree();
    }
}

// ---------------------------------------------------------------------------
// The size of the screen
// ---------------------------------------------------------------------------

/// The rows between the header and the status bar.
pub open spec fn body_height(screen: nat) -> nat {
    minus(screen, (if screen >= 28 {
        8nat
    } else {
        4nat
    }) + 3)
}

/// The rows of the table: the body without borders, heading and search line.
pub open spec fn table_height(m: AppModel, screen: nat) -> nat {
    minus(
        body_height(screen),
        2 + (if m.mode.active_tab == 0 {
            1nat
        } else {
            0nat
        }) + (if m.mode.search_active {
            1nat
        } else {
            0nat
        }),
    )
}

/// The lines that the help popup can show.
pub open spec fn help_height(m: AppModel, screen: nat) -> nat {
    let most = if minus(screen, 2) > 5 {
        minus(screen, 2)
    } else {
        5
    };
    minus(smaller(help_line_count(m) + 2, most), 2)
}

/// The state fitted to a screen of some rows.
pub open spec fn fitted(m: AppModel, screen: nat) -> AppModel {
    let table = table_height(m, screen);
    let m1 = table_in_view(sidebar_in_view(m, body_height(screen)), table);
    AppModel {
        size: SizeModel {
            page_size: table,
            sidebar_page_size: body_height(screen),
            help_viewport_height: help_height(m, screen),
        },
        ..m1
    }
}

impl App {
    /// Notes how much the panels show.
    fn set_sizes(&mut self, table: usize, sidebar: usize, help: u16)
        ensures
            final(self)@ == (AppModel {
                size: SizeModel {
                    page_size: table as nat,
                    sidebar_page_size: sidebar as nat,
                    help_viewport_height: help as nat,
                },
                ..old(self)@
            }),
            old(self).wf() ==> final(self).wf(),
    {
        self.page_size = table;
        self.sidebar_page_size = sidebar;
        self.help_viewport_height = help;
    }

    /// The rows of the table on a screen whose body has some rows.
    fn table_rows(&self, body: u16) -> (r: u16)
        ensures
            r == minus(
                body as nat,
                2 + (if self@.mode.active_tab == 0 {
                    1nat
                } else {
                    0nat
                }) + (if self@.mode.search_active {
                    1nat
                } else {
                    0nat
                }),
            ),
    {
        let search_line: u16 = if self.search_active {
            1
        } else {
            0
        };
        let heading: u16 = if self.active_tab == 0 {
            1
        } else {
            0
        };
        body.saturating_sub(2 + heading + search_line)
    }

    /// The lines that the help popup can show on a screen of some rows.
    fn help_rows(&self, screen_height: u16) -> (r: u16)
        ensures
            r == help_height(self@, screen_height as nat),
    {
        let lines: u16 = self.help_content_line_count();
        let room: u16 = screen_height.saturating_sub(2);
        let most: u16 = if room > 5 {
            room
        } else {
            5
        };
        let popup: u16 = if lines + 2 <= most {
            lines + 2
        } else {
            most
        };
        popup.saturating_sub(2)
    }

    /// Fits scrolling and page sizes to a screen of some rows.
    pub fn fit_viewport(&mut self, screen_height: u16)
        requires
            old(self).wf(),
        ensures
            final(self)@ == fitted(old(self)@, screen_height as nat),
            final(self).wf(),
    {
        let header_height: u16 = if screen_height >= 28 {
            8
        } else {
            4
        };
        let body: u16 = screen_height.saturating_sub(header_height + 3);
        let table: u16 = self.table_rows(body);
        let help: u16 = self.help_rows(screen_height);
        self.ensure_sidebar_scroll_visible(body as usize);
        self.ensure_table_scroll_visible(table as usize);
        self.set_sizes(table as usize, body as usize, help);
    }
}

/// After fitting, the cursors of sidebar and table are in view, the help text
/// cannot be scrolled past its end, and nothing else than scrolling and sizes
/// has changed.
pub proof fn law_fitting_shows_cursors(m: AppModel, screen: nat)
    requires
        body_height(screen) > 0,
        table_height(m, screen) > 0,
    ensures
        ({
            let f = fitted(m, screen);
            &&& f.pos.sidebar_scroll_offset <= f.pos.tree_cursor < f.pos.sidebar_scroll_offset
                + f.size.sidebar_page_size
            &&& m.mode.active_tab != 1 ==> f.pos.table_scroll_offset <= f.pos.table_cursor
                < f.pos.table_scroll_offset + f.size.page_size
            &&& f.pos.tree_cursor == m.pos.tree_cursor
            &&& f.pos.table_cursor == m.pos.table_cursor
            &&& f.tree == m.tree
            &&& f.mode == m.mode
            &&& f.chosen == m.chosen
            &&& f.data == m.data
            &&& f.fetch == m.fetch
            &&& help_limit(f) + f.size.help_viewport_height == help_line_count(f)
        }),
{
}

// ---------------------------------------------------------------------------
// Discovery
// ---------------------------------------------------------------------------

/// The process of a tunnel, as a list.
pub open spec fn pid_list(pid: Option<u32>) -> Seq<u32> {
    match pid {
        Some(p) => seq![p],
        None => Seq::empty(),
    }
}

/// The tree with a cluster's node opened.
pub open spec fn cluster_opened(tree: Seq<NodeModel>, name: Seq<char>) -> Seq<NodeModel> {
    let idx = cluster_node(tree, name);
    if idx < tree.len() {
        tree.update(idx, with_expanded(tree[idx], true))
    } else {
        tree
    }
}

/// The state after a cluster's connection has changed.
pub open spec fn status_noted(m: AppModel, name: Seq<char>, status: StatusModel) -> AppModel {
    AppModel {
        data: DataModel { connections: m.data.connections.insert(name, status), ..m.data },
        ..m
    }
}

/// The state with a cluster selected where none was, and its node opened.
pub open spec fn first_selected(m: AppModel, name: Seq<char>) -> AppModel {
    if m.chosen.selected_cluster is None {
        AppModel {
            chosen: ChosenModel { selected_cluster: Some(name), ..m.chosen },
            tree: cluster_opened(m.tree, name),
            ..m
        }
    } else {
        m
    }
}

/// The state with one more cluster that answers.
pub open spec fn client_added(m: AppModel, client: ClusterClient) -> AppModel {
    AppModel {
        data: DataModel {
            tunnel_pids: m.data.tunnel_pids + pid_list(client.tunnel_pid),
            clusters: m.data.clusters.push(client),
            ..m.data
        },
        ..m
    }
}

/// The state after news from discovery: a cluster that answers is added, and
/// selected where none is yet; a failure is noted.
pub open spec fn discovered(m: AppModel, event: DiscoverEvent) -> AppModel {
    match event {
        DiscoverEvent::Connected(client) => refetching(
            first_selected(
                status_noted(client_added(m, client), client.name@, StatusModel::Connected),
                client.name@,
            ),
        ),
        DiscoverEvent::Failed { name, error } => status_noted(
            m,
            name@,
            StatusModel::Failed(error@),
        ),
        DiscoverEvent::Complete => AppModel {
            data: DataModel { discover_complete: true, ..m.data },
            ..m
        },
        DiscoverEvent::Log { message } => m,
    }
}

impl App {
    /// Notes how far the connection to a cluster has come.
    pub fn note_status(&mut self, name: String, status: ConnectionStatus)
        requires
            old(self).wf(),
        ensures
            final(self)@ == status_noted(old(self)@, name@, status@),
            final(self).wf(),
            final(self).fetch_generation == old(self).fetch_generation,
    {
        reveal(valid);
        self.cluster_connection_status.insert(name, status);
    }

    /// Adds a cluster that answers.
    fn add_client(&mut self, client: ClusterClient)
        ensures
            final(self)@ == client_added(old(self)@, client),
            old(self).wf() ==> final(self).wf(),
            final(self).fetch_generation == old(self).fetch_generation,
    {
        if let Some(pid) = client.tunnel_pid {
            self.tunnel_pids.push(pid);
        }
        proof {
            assert(self.tunnel_pids@ =~= old(self).tunnel_pids@ + pid_list(client.tunnel_pid));
        }
        self.clusters.push(client);
    }

    /// Selects a cluster where none is selected, and opens its node.
    fn select_first(&mut self, name: String)
        requires
            old(self).wf(),
        ensures
            final(self)@ == first_selected(old(self)@, name@),
            final(self).wf(),
            final(self).fetch_generation == old(self).fetch_generation,
    {
        if self.selected_cluster.is_none() {
            proof {
                assert(self@.tree.len() == self.tree@.len());
            }
            if let Some(idx) = find_cluster(&self.tree, name.as_str()) {
                self.set_node_expanded(idx, true);
            }
            self.selected_cluster = Some(name);
        }
    }

    /// Takes in news from discovery.
    pub fn on_discover(&mut self, event: DiscoverEvent)
        requires
            old(self).wf(),
            old(self).fetch_generation < u64::MAX,
        ensures
            final(self)@ == discovered(old(self)@, event),
            final(self).wf(),
    {
        match event {
            DiscoverEvent::Connected(client) => {
                let name = client.name.clone();
                self.add_client(client);
                self.note_status(name.clone(), ConnectionStatus::Connected);
                self.select_first(name);
                self.refetch();
            },
            DiscoverEvent::Failed { name, error } => {
                self.note_status(name, ConnectionStatus::Failed(error));
            },
            DiscoverEvent::Complete => {
                self.discover_complete = true;
            },
            DiscoverEvent::Log { message: _ } => {},
        }
    }
}

// ---------------------------------------------------------------------------
// Fetch results
// ---------------------------------------------------------------------------

/// The counts of a cluster's pods and nodes by state.
pub open spec fn usage_of(nodes: Seq<NodeInfo>, pods: Seq<PodInfo>) -> ResourceUsage {
    ResourceUsage {
        total_pods: pods.len() as usize,
        running_pods: count(pods, pod_running()) as usize,
        succeeded_pods: count(pods, pod_succeeded()) as usize,
        failed_pods: count(pods, pod_failed()) as usize,
        total_nodes: nodes.len() as usize,
        ready_nodes: count(nodes, node_ready()) as usize,
    }
}

/// A cluster's snapshot after part of it was fetched anew: nodes are always
/// replaced, namespaces unless only nodes were fetched, and of the rest the
/// resource that was fetched; health and counts follow from what is then there.
pub open spec fn merged(
    existing: ClusterSnapshot,
    fetched: ClusterSnapshot,
    active: ActiveResource,
) -> ClusterSnapshot {
    let pods = if active == ActiveResource::Pods {
        fetched.pods
    } else {
        existing.pods
    };
    ClusterSnapshot {
        name: existing.name,
        health: health_of(fetched.nodes@, pods@),
        namespaces: if active == ActiveResource::Nodes {
            existing.namespaces
        } else {
            fetched.namespaces
        },
        nodes: fetched.nodes,
        pods,
        deployments: if active == ActiveResource::Deployments {
            fetched.deployments
        } else {
            existing.deployments
        },
        services: if active == ActiveResource::Services {
            fetched.services
        } else {
            existing.services
        },
        configmaps: if active == ActiveResource::ConfigMaps {
            fetched.configmaps
        } else {
            existing.configmaps
        },
        events: if active == ActiveResource::Events {
            fetched.events
        } else {
            existing.events
        },
        resource_usage: usage_of(fetched.nodes@, pods@),
    }
}

/// Snapshots with one more taken in: merged with the one of the same cluster,
/// or added.
pub open spec fn one_merged(
    snapshots: Seq<ClusterSnapshot>,
    fetched: ClusterSnapshot,
    active: ActiveResource,
) -> Seq<ClusterSnapshot> {
    let i = first_index(snapshots, snapshot_of(fetched.name@));
    if i < snapshots.len() {
        snapshots.update(i, merged(snapshots[i], fetched, active))
    } else {
        snapshots.push(fetched)
    }
}

/// Snapshots with several more taken in, one after the other.
pub open spec fn all_merged(
    snapshots: Seq<ClusterSnapshot>,
    fetched: Seq<ClusterSnapshot>,
    active: ActiveResource,
) -> Seq<ClusterSnapshot>
    decreases fetched.len(),
{
    if fetched.len() == 0 {
        snapshots
    } else {
        all_merged(one_merged(snapshots, fetched[0], active), fetched.drop_first(), active)
    }
}

/// The snapshots after a fetch: all replaced after a full fetch, merged after
/// one of a single resource.
pub open spec fn snapshots_after(m: AppModel, result: FetchResult) -> Seq<ClusterSnapshot> {
    match result.active_resource {
        None => result.snapshots@,
        Some(active) => all_merged(m.data.snapshots, result.snapshots@, active),
    }
}

/// The state with the data of a fetch.
pub open spec fn data_taken(m: AppModel, result: FetchResult) -> AppModel {
    AppModel {
        data: DataModel {
            snapshots: snapshots_after(m, result),
            api_latency_ms: result.latency_ms,
            last_fetched_resource: result.active_resource,
            ..m.data
        },
        ..m
    }
}

/// The state without a fetch under way.
pub open spec fn fetch_ended(m: AppModel, timed_out: bool) -> AppModel {
    AppModel {
        fetch: FetchModel {
            is_fetching: false,
            fetch_started_at: None,
            fetch_timed_out: timed_out,
            ..m.fetch
        },
        ..m
    }
}

/// The state after a fetch of the current generation has come in.
pub open spec fn fetch_accepted(m: AppModel, result: FetchResult) -> AppModel {
    let m1 = tree_synced(data_taken(m, result));
    let m2 = fetch_ended(m1, false);
    AppModel {
        pos: PosModel {
            table_cursor: smaller(m2.pos.table_cursor, minus(row_count(m2), 1)),
            ..m2.pos
        },
        ..m2
    }
}

/// The state after a fetch has come in; what an earlier generation fetched is
/// discarded.
pub open spec fn fetched(m: AppModel, result: FetchResult) -> AppModel {
    if result.generation != m.fetch.fetch_generation {
        fetch_ended(m, m.fetch.fetch_timed_out)
    } else {
        fetch_accepted(m, result)
    }
}

/// Merges a cluster's snapshot with part of it fetched anew.
pub fn merge_snapshot(
    existing: ClusterSnapshot,
    fetched: ClusterSnapshot,
    active: ActiveResource,
) -> (r: ClusterSnapshot)
    ensures
        r == merged(existing, fetched, active),
{
    let nodes = fetched.nodes;
    let namespaces = if active == ActiveResource::Nodes {
        existing.namespaces
    } else {
        fetched.namespaces
    };
    let pods = if active == ActiveResource::Pods {
        fetched.pods
    } else {
        existing.pods
    };
    let deployments = if active == ActiveResource::Deployments {
        fetched.deployments
    } else {
        existing.deployments
    };
    let services = if active == ActiveResource::Services {
        fetched.services
    } else {
        existing.services
    };
    let configmaps = if active == ActiveResource::ConfigMaps {
        fetched.configmaps
    } else {
        existing.configmaps
    };
    let events = if active == ActiveResource::Events {
        fetched.events
    } else {
        existing.events
    };
    let health = compute_health(nodes.as_slice(), pods.as_slice());
    let resource_usage = compute_resource_usage(nodes.as_slice(), pods.as_slice());
    ClusterSnapshot {
        name: existing.name,
        health,
        namespaces,
        nodes,
        pods,
        deployments,
        services,
        configmaps,
        events,
        resource_usage,
    }
}

proof fn lemma_one_merged_fits(
    snapshots: Seq<ClusterSnapshot>,
    fetched: ClusterSnapshot,
    active: ActiveResource,
)
    requires
        all_fit(snapshots),
        snapshot_fits(fetched),
    ensures
        all_fit(one_merged(snapshots, fetched, active)),
{
    reveal(all_fit);
    let after = one_merged(snapshots, fetched, active);
    lemma_first_index_props(snapshots, snapshot_of(fetched.name@));
    let at = first_index(snapshots, snapshot_of(fetched.name@));
    assert forall|i: int| 0 <= i < after.len() implies snapshot_fits(#[trigger] after[i]) by {
        if i < snapshots.len() && i != at {
            assert(after[i] == snapshots[i]);
        }
    }
}

/// Takes a fetched snapshot into a list.
fn merge_one(
    snapshots: &mut Vec<ClusterSnapshot>,
    fetched: ClusterSnapshot,
    active: ActiveResource,
)
    ensures
        final(snapshots)@ == one_merged(old(snapshots)@, fetched, active),
{
    let ghost before = snapshots@;
    let n: usize = snapshots.len();
    let mut i: usize = 0;
    while i < n && !same(snapshots[i].name.as_str(), fetched.name.as_str())
        invariant
            i <= n == snapshots@.len(),
            snapshots@ == before,
            forall|j: int| 0 <= j < i ==> !snapshot_of(fetched.name@)(#[trigger] before[j]),
        decreases n - i,
    {
        i += 1;
    }
    proof {
        lemma_first_index(before, i as int, snapshot_of(fetched.name@));
    }
    if i < n {
        let existing = snapshots.remove(i);
        snapshots.insert(i, merge_snapshot(existing, fetched, active));
        proof {
            assert(snapshots@ =~= one_merged(before, fetched, active));
        }
    } else {
        snapshots.push(fetched);
    }
}

/// Takes fetched snapshots into a list, one after the other.
fn merge_all(
    snapshots: &mut Vec<ClusterSnapshot>,
    fetched: Vec<ClusterSnapshot>,
    active: ActiveResource,
)
    requires
        all_fit(old(snapshots)@),
        all_fit(fetched@),
    ensures
        final(snapshots)@ == all_merged(old(snapshots)@, fetched@, active),
        all_fit(final(snapshots)@),
{
    let mut rest = fetched;
    while rest.len() > 0
        invariant
            all_merged(snapshots@, rest@, active) == all_merged(
                old(snapshots)@,
                fetched@,
                active,
            ),
            all_fit(snapshots@),
            all_fit(rest@),
        decreases rest@.len(),
    {
        let ghost before = rest@;
        let ghost had = snapshots@;
        let next = rest.remove(0);
        proof {
            assert(rest@ =~= before.drop_first());
            assert(snapshot_fits(next) && all_fit(rest@)) by {
                reveal(all_fit);
                assert(snapshot_fits(before[0]));
                assert forall|i: int| 0 <= i < rest@.len() implies snapshot_fits(
                    #[trigger] rest@[i],
                ) by {
                    assert(rest@[i] == before[i + 1]);
                }
            }
            lemma_one_merged_fits(had, next, active);
        }
        merge_one(snapshots, next, active);
    }
}

impl App {
    /// Takes in the data that a fetch brought.
    fn store_result(&mut self, result: FetchResult)
        requires
            old(self).wf(),
            all_fit(result.snapshots@),
        ensures
            final(self)@ == (AppModel {
                data: DataModel {
                    snapshots: snapshots_after(old(self)@, result),
                    api_latency_ms: result.latency_ms,
                    last_fetched_resource: result.active_resource,
                    ..old(self)@.data
                },
                ..old(self)@
            }),
            final(self).wf(),
    {
        reveal(valid);
        match result.active_resource {
            None => {
                self.snapshots = result.snapshots;
            },
            Some(active) => {
                merge_all(&mut self.snapshots, result.snapshots, active);
            },
        }
        self.api_latency_ms = result.latency_ms;
        self.last_fetched_resource = result.active_resource;
    }

    /// Marks the fetch that is under way as done.
    fn end_fetch(&mut self)
        ensures
            final(self)@ == (AppModel {
                fetch: FetchModel {
                    is_fetching: false,
                    fetch_started_at: None,
                    fetch_timed_out: false,
                    ..old(self)@.fetch
                },
                ..old(self)@
            }),
            old(self).wf() ==> final(self).wf(),
    {
        self.is_fetching = false;
        self.fetch_started_at = None;
        self.fetch_timed_out = false;
    }

    /// Takes in what a fetch brought; tells whether it was of the current
    /// generation.
    pub fn on_fetch_result(&mut self, result: FetchResult) -> (accepted: bool)
        requires
            old(self).wf(),
            all_fit(result.snapshots@),
        ensures
            accepted == (result.generation == old(self)@.fetch.fetch_generation),
            final(self)@ == fetched(old(self)@, result),
            final(self).wf(),
    {
        if result.generation != self.fetch_generation {
            self.is_fetching = false;
            self.fetch_started_at = None;
            return false;
        }
        self.store_result(result);
        self.sync_tree_from_snapshots();
        self.end_fetch();
        let rows: usize = self.current_row_count();
        self.clamp_table_cursor(rows);
        true
    }
}

/// What an earlier generation fetched never changes the data shown.
pub proof fn law_stale_results_change_no_data(m: AppModel, result: FetchResult)
    requires
        result.generation != m.fetch.fetch_generation,
    ensures
        ({
            let after = fetched(m, result);
            &&& after.data.snapshots == m.data.snapshots
            &&& after.tree == m.tree
            &&& after.pos.table_cursor == m.pos.table_cursor
            &&& after.data.last_fetched_resource == m.data.last_fetched_resource
            &&& !after.fetch.is_fetching
        }),
{
}

/// After a fetch has come in, the table's cursor stands on a row where there is
/// one, and on the first position otherwise.
pub proof fn law_cursor_on_row_after_fetch(m: AppModel, result: FetchResult)
    requires
        result.generation == m.fetch.fetch_generation,
    ensures
        ({
            let after = fetched(m, result);
            let rows = row_count(after);
            after.pos.table_cursor < rows || (rows == 0 && after.pos.table_cursor == 0)
        }),
{
    let m1 = tree_synced(data_taken(m, result));
    let m2 = fetch_ended(m1, false);
    let after = fetched(m, result);
    assert(crate::app::current(after) == crate::app::current(m2));
    assert(row_count(after) == row_count(m2));
}

// ---------------------------------------------------------------------------
// Timing
// ---------------------------------------------------------------------------

/// Time after which a fetch is given up, in nanoseconds.
pub const FETCH_TIMEOUT_NANOS: u64 = 30_000_000_000;

/// Whether a fetch has run for too long.
pub open spec fn overdue(m: AppModel, now: u64) -> bool {
    m.fetch.fetch_started_at is Some && now - m.fetch.fetch_started_at->0 > FETCH_TIMEOUT_NANOS
}

/// The state after one more pass of the main loop.
pub open spec fn ticked(m: AppModel) -> AppModel {
    AppModel { fetch: FetchModel { tick_count: (m.fetch.tick_count + 1) as u64, ..m.fetch }, ..m }
}

/// The state with other connections.
pub open spec fn with_connections(
    m: AppModel,
    connections: Map<Seq<char>, StatusModel>,
) -> AppModel {
    AppModel { data: DataModel { connections, ..m.data }, ..m }
}

/// Whether connections differ only in that some clusters are being discovered
/// again.
pub open spec fn discovers_again(
    before: Map<Seq<char>, StatusModel>,
    after: Map<Seq<char>, StatusModel>,
    names: Seq<Seq<char>>,
) -> bool {
    &&& forall|name: Seq<char>| #[trigger]
        after.contains_key(name) <==> before.contains_key(name) || names.contains(name)
    &&& forall|name: Seq<char>|
        after.contains_key(name) ==> #[trigger] after[name] == (if names.contains(name) {
            StatusModel::Discovering
        } else {
            before[name]
        })
}

/// The state after a fetch was started.
pub open spec fn fetch_begun(m: AppModel, now: u64) -> AppModel {
    AppModel {
        fetch: FetchModel {
            needs_refresh: false,
            is_fetching: true,
            fetch_started_at: Some(now),
            ..m.fetch
        },
        ..m
    }
}

/// What a fetch asks of one cluster.
#[derive(Debug)]
pub struct FetchTarget {
    pub cluster: String,
    /// The namespace to which the fetch is limited.
    pub namespace: Option<String>,
}

/// A fetch to be made.
#[derive(Debug)]
pub struct FetchOrder {
    pub targets: Vec<FetchTarget>,
    pub active_resource: ActiveResource,
    pub generation: u64,
}

/// Whether a target is what is asked of a cluster: only the selected cluster is
/// limited to the selected namespace.
pub open spec fn targets_cluster(t: FetchTarget, c: ClusterClient, m: AppModel) -> bool {
    &&& t.cluster@ == c.name@
    &&& opt_text(t.namespace) == (if m.chosen.selected_cluster == Some(c.name@) {
        m.chosen.selected_namespace
    } else {
        None
    })
}

/// Whether a fetch is due: none is under way, a cluster is there, and the time
/// has come or a fetch was asked for.
pub open spec fn fetch_due(m: AppModel, since_refresh: u64) -> bool {
    &&& !m.fetch.is_fetching
    &&& m.data.clusters.len() > 0
    &&& since_refresh >= m.data.refresh_secs * 1_000_000_000 || m.fetch.needs_refresh
}

impl App {
    /// Counts a pass of the main loop.
    pub fn tick(&mut self)
        requires
            old(self).tick_count < u64::MAX,
        ensures
            final(self)@ == ticked(old(self)@),
            old(self).wf() ==> final(self).wf(),
    {
        self.tick_count = self.tick_count + 1;
    }

    /// Gives up a fetch that has run for too long.
    pub fn check_fetch_timeout(&mut self, now: u64)
        ensures
            final(self)@ == (if overdue(old(self)@, now) {
                fetch_ended(old(self)@, true)
            } else {
                old(self)@
            }),
            old(self).wf() ==> final(self).wf(),
    {
        if let Some(started) = self.fetch_started_at {
            if now.saturating_sub(started) > FETCH_TIMEOUT_NANOS {
                self.is_fetching = false;
                self.fetch_started_at = None;
                self.fetch_timed_out = true;
            }
        }
    }

    /// Where a fetch was asked for, puts the clusters whose connection failed back
    /// to being discovered, and returns their names.
    pub fn retry_failed(&mut self) -> (r: Vec<String>)
        requires
            old(self).wf(),
        ensures
            texts(r@) == (if old(self)@.fetch.needs_refresh {
                collect(
                    old(self).cluster_connection_status.entries@,
                    entry_failed(),
                    entry_name(),
                )
            } else {
                Seq::empty()
            }),
            final(self).wf(),
            final(self)@ == with_connections(old(self)@, final(self)@.data.connections),
            discovers_again(
                old(self)@.data.connections,
                final(self)@.data.connections,
                texts(r@),
            ),
    {
        let mut names: Vec<String> = Vec::new();
        if self.needs_refresh {
            names = self.cluster_connection_status.failed_names();
        } else {
            proof {
                assert(texts(names@) =~= Seq::empty());
            }
        }
        let ghost all = texts(names@);
        let ghost before = self@.data.connections;
        let mut i: usize = 0;
        while i < names.len()
            invariant
                i <= names@.len(),
                all == texts(names@),
                before == old(self)@.data.connections,
                self.wf(),
                self@ == with_connections(old(self)@, self@.data.connections),
                discovers_again(before, self@.data.connections, all.take(i as int)),
            decreases names@.len() - i,
        {
            let ghost had = self@.data.connections;
            self.note_status(names[i].clone(), ConnectionStatus::Discovering);
            proof {
                let a = all.take(i as int);
                let b = all.take(i + 1);
                assert(b =~= a.push(all[i as int]));
                assert forall|name: Seq<char>| #[trigger]
                    b.contains(name) <==> a.contains(name) || name == all[i as int] by {
                    if a.contains(name) {
                        let k = choose|k: int| 0 <= k < a.len() && a[k] == name;
                        assert(b[k] == name);
                    }
                    if b.contains(name) {
                        let k = choose|k: int| 0 <= k < b.len() && b[k] == name;
                        if k < i {
                            assert(a[k] == name);
                        }
                    }
                    assert(b[i as int] == all[i as int]);
                }
                let now = self@.data.connections;
                assert forall|name: Seq<char>| now.contains_key(name) implies #[trigger] now[name]
                    == (if b.contains(name) {
                    StatusModel::Discovering
                } else {
                    before[name]
                }) by {
                    assert(had.contains_key(name) || name == all[i as int]);
                    if name != all[i as int] {
                        assert(now[name] == had[name]);
                    }
                }
            }
            i += 1;
        }
        proof {
            assert(all.take(names@.len() as int) =~= all);
        }
        names
    }

    /// Tests whether a fetch is due, some nanoseconds after the last.
    pub fn is_fetch_due(&self, since_refresh: u64) -> (r: bool)
        ensures
            r == fetch_due(self@, since_refresh),
    {
        let interval: u128 = self.refresh_secs as u128 * 1_000_000_000;
        !self.is_fetching && self.clusters.len() > 0 && (since_refresh as u128 >= interval
            || self.needs_refresh)
    }

    /// Starts a fetch: marks it as under way and says what is to be fetched.
    pub fn begin_fetch(&mut self, now: u64) -> (order: FetchOrder)
        ensures
            final(self)@ == fetch_begun(old(self)@, now),
            old(self).wf() ==> final(self).wf(),
            order.active_resource == active_resource_of(old(self)@.mode.resource_view),
            order.generation == old(self)@.fetch.fetch_generation,
            order.targets@.len() == old(self)@.data.clusters.len(),
            forall|i: int|
                0 <= i < order.targets@.len() ==> targets_cluster(
                    #[trigger] order.targets@[i],
                    old(self)@.data.clusters[i],
                    old(self)@,
                ),
    {
        self.needs_refresh = false;
        self.is_fetching = true;
        self.fetch_started_at = Some(now);
        let ghost m = old(self)@;
        let mut targets: Vec<FetchTarget> = Vec::new();
        let mut i: usize = 0;
        while i < self.clusters.len()
            invariant
                i <= self.clusters@.len(),
                self@.data.clusters == m.data.clusters,
                self@.chosen.selected_cluster == m.chosen.selected_cluster,
                self@.chosen.selected_namespace == m.chosen.selected_namespace,
                targets@.len() == i,
                forall|k: int|
                    0 <= k < i ==> targets_cluster(#[trigger] targets@[k], m.data.clusters[k], m),
            decreases self.clusters@.len() - i,
        {
            let name = self.clusters[i].name.clone();
            let selected = match &self.selected_cluster {
                Some(c) => same(c.as_str(), name.as_str()),
                None => false,
            };
            let namespace = if selected {
                self.selected_namespace.clone()
            } else {
                None
            };
            targets.push(FetchTarget { cluster: name, namespace });
            i += 1;
        }
        FetchOrder {
            targets,
            active_resource: self.resource_view.to_active_resource(),
            generation: self.fetch_generation,
        }
    }
}

/// After a fetch was started none is due until it has ended: with its result, by
/// running for too long, or by navigation.
pub proof fn law_no_second_fetch(m: AppModel, now: u64, since_refresh: u64)
    ensures
        !fetch_due(fetch_begun(m, now), since_refresh),
        !fetch_ended(fetch_begun(m, now), true).fetch.is_fetching,
        !refetching(fetch_begun(m, now)).fetch.is_fetching,
{
}

/// What a fetch brings is taken unless someone has navigated since it was
/// started.
pub proof fn law_result_taken_unless_navigated(m: AppModel, now: u64, result: FetchResult)
    requires
        result.generation == m.fetch.fetch_generation,
    ensures
        fetched(fetch_begun(m, now), result) == fetch_accepted(fetch_begun(m, now), result),
        fetched(refetching(fetch_begun(m, now)), result).data == m.data,
{
}

} // verus!
