use scalex_dash::app::{ActivePanel, App, ResourceView, Tab};
use scalex_dash::connections::{ConnectionStatus, ConnectionTable};
use scalex_dash::data::{ClusterSnapshot, HealthStatus, NodeInfo, PodInfo};
use scalex_dash::event::AppEvent;
use scalex_dash::infra::{InfraSnapshot, SdiPoolInfo};
use scalex_dash::tree::{NodeType, TreeNode};

/// Helper: create a minimal App with two clusters for testing navigation
fn test_app() -> App {
    // Simulate two clusters without real kube clients
    let mut app = App {
        running: true,
        active_panel: ActivePanel::Sidebar,
        active_tab: 0,
        tabs: vec![
            Tab {
                name: "Resources".into(),
                closable: false,
            },
            Tab {
                name: "Top".into(),
                closable: false,
            },
        ],
        resource_view: ResourceView::Pods,
        tree: vec![
            TreeNode {
                label: "ScaleX".into(),
                depth: 0,
                expanded: true,
                node_type: NodeType::Root,
                children_loaded: true,
            },
            TreeNode {
                label: "tower".into(),
                depth: 1,
                expanded: false,
                node_type: NodeType::Cluster("tower".into()),
                children_loaded: false,
            },
            TreeNode {
                label: "sandbox".into(),
                depth: 1,
                expanded: false,
                node_type: NodeType::Cluster("sandbox".into()),
                children_loaded: false,
            },
            TreeNode {
                label: "Infrastructure".into(),
                depth: 0,
                expanded: false,
                node_type: NodeType::InfraHeader,
                children_loaded: false,
            },
        ],
        tree_cursor: 0,
        sidebar_scroll_offset: 0,
        table_cursor: 0,
        table_scroll_offset: 0,
        selected_cluster: None,
        selected_namespace: None,
        clusters: vec![],
        snapshots: vec![],
        infra: InfraSnapshot::default(),
        api_latency_ms: 0,
        show_help: false,
        help_scroll_offset: 0,
        search_active: false,
        search_query: None,
        refresh_secs: 1,
        needs_refresh: false,
        cluster_connection_status: ConnectionTable::new(),
        discover_complete: true,
        tunnel_pids: Vec::new(),
        is_fetching: false,
        fetch_started_at: None,
        tick_count: 0,
        last_fetched_resource: None,
        fetch_generation: 0,
        fetch_timed_out: false,
        page_size: 0,
        sidebar_page_size: 0,
        help_viewport_height: 0,
        selected_sdi_pool: None,
        infra_vm_cursor: 0,
    };
    // Move cursor to first cluster (tower)
    app.tree_cursor = 1;
    app
}

#[test]
fn move_up_does_not_change_selection() {
    let mut app = test_app();
    app.selected_cluster = Some("tower".into());
    app.tree_cursor = 2; // on sandbox

    app.handle_event(AppEvent::Up);

    assert_eq!(app.tree_cursor, 1); // moved to tower
    assert_eq!(app.selected_cluster, Some("tower".into())); // unchanged
}

#[test]
fn move_down_does_not_change_selection() {
    let mut app = test_app();
    app.selected_cluster = Some("tower".into());
    app.tree_cursor = 1; // on tower

    app.handle_event(AppEvent::Down);

    assert_eq!(app.tree_cursor, 2); // moved to sandbox
    assert_eq!(app.selected_cluster, Some("tower".into())); // unchanged
}

#[test]
fn expand_node_does_not_set_selection() {
    let mut app = test_app();
    app.tree_cursor = 1; // on tower cluster
    assert!(app.selected_cluster.is_none());

    app.handle_event(AppEvent::Right); // expand tower

    assert!(app.tree[1].expanded); // tree expanded
    assert!(app.selected_cluster.is_none()); // selection unchanged
}

#[test]
fn collapse_node_does_not_change_selection() {
    let mut app = test_app();
    app.tree[1].expanded = true; // tower expanded
    app.selected_cluster = Some("tower".into());
    app.tree_cursor = 1;

    app.handle_event(AppEvent::Left); // collapse tower

    assert!(!app.tree[1].expanded);
    assert_eq!(app.selected_cluster, Some("tower".into())); // unchanged
}

#[test]
fn enter_on_cluster_sets_selection() {
    let mut app = test_app();
    app.tree_cursor = 2; // on sandbox
    assert!(app.selected_cluster.is_none());

    app.handle_event(AppEvent::Enter);

    assert_eq!(app.selected_cluster, Some("sandbox".into()));
}

#[test]
fn enter_on_namespace_sets_selection() {
    let mut app = test_app();
    // Simulate expanded tower with namespace children
    app.tree[1].expanded = true;
    app.tree[1].children_loaded = true;
    app.tree.insert(
        2,
        TreeNode {
            label: "kube-system".into(),
            depth: 2,
            expanded: false,
            node_type: NodeType::Namespace {
                cluster: "tower".into(),
                namespace: "kube-system".into(),
            },
            children_loaded: false,
        },
    );
    app.tree_cursor = 2; // on kube-system namespace

    app.handle_event(AppEvent::Enter);

    assert_eq!(app.selected_cluster, Some("tower".into()));
    assert_eq!(app.selected_namespace, Some("kube-system".into()));
}

#[test]
fn view_switch_sets_needs_refresh() {
    let mut app = test_app();
    app.active_panel = ActivePanel::Center;
    app.resource_view = ResourceView::Pods;
    assert!(!app.needs_refresh);

    app.handle_event(AppEvent::ResourceType('d')); // switch to Deployments

    assert_eq!(app.resource_view, ResourceView::Deployments);
    assert!(app.needs_refresh);
}

#[test]
fn same_view_does_not_trigger_refresh() {
    let mut app = test_app();
    app.active_panel = ActivePanel::Center;
    app.resource_view = ResourceView::Pods;

    app.handle_event(AppEvent::ResourceType('p')); // same view

    assert!(!app.needs_refresh);
}

#[test]
fn resource_shortcut_ignored_from_sidebar() {
    let mut app = test_app();
    app.active_panel = ActivePanel::Sidebar;
    app.resource_view = ResourceView::Pods;

    app.handle_event(AppEvent::ResourceType('d'));

    // Resource shortcuts only work in center panel
    assert_eq!(app.resource_view, ResourceView::Pods);
    assert!(!app.needs_refresh);
}

// --- US-030: Table cursor bounds clamping ---

#[test]
fn clamp_table_cursor_within_bounds() {
    let mut app = test_app();
    app.table_cursor = 3;
    app.clamp_table_cursor(5);
    assert_eq!(app.table_cursor, 3); // no change
}

#[test]
fn clamp_table_cursor_at_boundary() {
    let mut app = test_app();
    app.table_cursor = 5;
    app.clamp_table_cursor(5);
    assert_eq!(app.table_cursor, 4); // clamped to last index
}

#[test]
fn clamp_table_cursor_far_exceeds() {
    let mut app = test_app();
    app.table_cursor = 100;
    app.clamp_table_cursor(5);
    assert_eq!(app.table_cursor, 4);
}

#[test]
fn clamp_table_cursor_empty_list() {
    let mut app = test_app();
    app.table_cursor = 5;
    app.clamp_table_cursor(0);
    assert_eq!(app.table_cursor, 0);
}

#[test]
fn move_down_center_increments() {
    let mut app = test_app();
    app.active_panel = ActivePanel::Center;
    app.selected_cluster = Some("tower".into());
    // Add snapshot with 5 pods so move_down has room
    app.snapshots.push(ClusterSnapshot {
        name: "tower".into(),
        health: HealthStatus::Green,
        namespaces: vec![],
        nodes: vec![],
        pods: (0..5)
            .map(|i| PodInfo {
                name: format!("pod-{}", i),
                namespace: "default".into(),
                status: "Running".into(),
                ready: "1/1".into(),
                restarts: 0,
                restarts_display: "0".into(),
                age: "1h".into(),
                node: "n1".into(),
                containers: vec![],
            })
            .collect(),
        deployments: vec![],
        services: vec![],
        configmaps: vec![],
        events: vec![],
        resource_usage: Default::default(),
    });
    app.table_cursor = 0;
    app.handle_event(AppEvent::Down);
    assert_eq!(app.table_cursor, 1);
}

// --- US-031: Search input resets table cursor ---

#[test]
fn search_up_resets_cursor() {
    let mut app = test_app();
    app.search_active = true;
    app.search_query = Some(String::new());
    app.table_cursor = 5;

    app.handle_event(AppEvent::Up); // appends 'k'

    assert_eq!(app.search_query, Some("k".to_string()));
    assert_eq!(app.table_cursor, 0);
}

#[test]
fn search_down_resets_cursor() {
    let mut app = test_app();
    app.search_active = true;
    app.search_query = Some(String::new());
    app.table_cursor = 5;

    app.handle_event(AppEvent::Down); // appends 'j'

    assert_eq!(app.search_query, Some("j".to_string()));
    assert_eq!(app.table_cursor, 0);
}

#[test]
fn search_refresh_resets_cursor() {
    let mut app = test_app();
    app.search_active = true;
    app.search_query = Some(String::new());
    app.table_cursor = 5;

    app.handle_event(AppEvent::Refresh); // appends 'r'

    assert_eq!(app.search_query, Some("r".to_string()));
    assert_eq!(app.table_cursor, 0);
}

#[test]
fn search_slash_resets_cursor() {
    let mut app = test_app();
    app.search_active = true;
    app.search_query = Some(String::new());
    app.table_cursor = 5;

    app.handle_event(AppEvent::Search); // appends '/'

    assert_eq!(app.search_query, Some("/".to_string()));
    assert_eq!(app.table_cursor, 0);
}

// --- US-032: Tree collapse adjusts cursor ---

#[test]
fn collapse_clamps_cursor_when_on_child() {
    let mut app = test_app();
    // Expand tower with namespace children
    app.tree[1].expanded = true;
    app.tree[1].children_loaded = true;
    app.tree.insert(
        2,
        TreeNode {
            label: "All Namespaces".into(),
            depth: 2,
            expanded: false,
            node_type: NodeType::Namespace {
                cluster: "tower".into(),
                namespace: "All Namespaces".into(),
            },
            children_loaded: false,
        },
    );
    app.tree.insert(
        3,
        TreeNode {
            label: "kube-system".into(),
            depth: 2,
            expanded: false,
            node_type: NodeType::Namespace {
                cluster: "tower".into(),
                namespace: "kube-system".into(),
            },
            children_loaded: false,
        },
    );
    app.tree.insert(
        4,
        TreeNode {
            label: "default".into(),
            depth: 2,
            expanded: false,
            node_type: NodeType::Namespace {
                cluster: "tower".into(),
                namespace: "default".into(),
            },
            children_loaded: false,
        },
    );
    // tree: ScaleX, tower(exp), AllNS, kube-system, default, sandbox, Infra
    // visible indices: 0,1,2,3,4,5,6 (7 items)
    app.tree_cursor = 4; // on "default" child

    app.handle_event(AppEvent::Left); // collapse — cursor on child, should collapse parent? No — Left on child collapses child (which is a leaf, no-op)
                                      // Actually Left on a non-expandable node is a no-op. Let's test via handle_enter on the cluster node.
                                      // Reset: put cursor on tower (index 1) and collapse
    app.tree_cursor = 1;
    app.handle_event(AppEvent::Left); // collapse tower

    assert!(!app.tree[1].expanded);
    // After removing 3 children, tree: ScaleX, tower, sandbox, Infra (4 visible)
    assert!(app.tree_cursor < app.visible_tree_len());
}

#[test]
fn collapse_with_cursor_beyond_visible_clamps() {
    let mut app = test_app();
    app.tree[1].expanded = true;
    app.tree[1].children_loaded = true;
    // Add 3 children
    for i in 0..3 {
        app.tree.insert(
            2 + i,
            TreeNode {
                label: format!("ns-{}", i),
                depth: 2,
                expanded: false,
                node_type: NodeType::Namespace {
                    cluster: "tower".into(),
                    namespace: format!("ns-{}", i),
                },
                children_loaded: false,
            },
        );
    }
    // 7 visible items: ScaleX, tower, ns-0, ns-1, ns-2, sandbox, Infra
    app.tree_cursor = 6; // on Infrastructure (last visible)

    // Now collapse tower from code (simulating programmatic collapse)
    app.tree[1].expanded = false;
    app.remove_children(1);

    // After: ScaleX, tower, sandbox, Infra (4 visible)
    assert!(app.tree_cursor < app.visible_tree_len());
    assert_eq!(app.tree_cursor, 3); // clamped from 6 to 3 (last valid)
}

// --- US-033: Efficient removal with drain ---

#[test]
fn remove_children_drains_correctly() {
    let mut app = test_app();
    app.tree[1].expanded = true;
    app.tree[1].children_loaded = true;
    // Add children at depth 2
    app.tree.insert(
        2,
        TreeNode {
            label: "child1".into(),
            depth: 2,
            expanded: false,
            node_type: NodeType::Namespace {
                cluster: "tower".into(),
                namespace: "child1".into(),
            },
            children_loaded: false,
        },
    );
    app.tree.insert(
        3,
        TreeNode {
            label: "child2".into(),
            depth: 2,
            expanded: false,
            node_type: NodeType::Namespace {
                cluster: "tower".into(),
                namespace: "child2".into(),
            },
            children_loaded: false,
        },
    );
    // tree: ScaleX(0), tower(1), child1(2), child2(3), sandbox(4), Infra(5)
    assert_eq!(app.tree.len(), 6);

    app.remove_children(1);

    // tree: ScaleX(0), tower(1), sandbox(2), Infra(3)
    assert_eq!(app.tree.len(), 4);
    assert_eq!(app.tree[2].label, "sandbox");
}

// --- US-034: Sidebar scroll offset ---

#[test]
fn ensure_sidebar_scroll_cursor_below_viewport() {
    let mut app = test_app();
    app.tree_cursor = 15;
    app.sidebar_scroll_offset = 0;

    app.ensure_sidebar_scroll_visible(10);

    assert!(app.sidebar_scroll_offset >= 6); // 15 - 10 + 1 = 6
}

#[test]
fn ensure_sidebar_scroll_cursor_above_viewport() {
    let mut app = test_app();
    app.tree_cursor = 2;
    app.sidebar_scroll_offset = 5;

    app.ensure_sidebar_scroll_visible(10);

    // Content (4 items) fits in viewport (10), so offset clamped to 0
    assert_eq!(app.sidebar_scroll_offset, 0);
}

#[test]
fn ensure_sidebar_scroll_overscroll_clamped() {
    let mut app = test_app();
    // Add enough items so content exceeds viewport
    for i in 0..20 {
        app.tree.insert(
            1,
            TreeNode {
                label: format!("extra-{}", i),
                depth: 1,
                expanded: false,
                node_type: NodeType::Cluster(format!("extra-{}", i)),
                children_loaded: false,
            },
        );
    }
    // 24 visible items, viewport = 10, max_offset = 14
    app.tree_cursor = 5;
    app.sidebar_scroll_offset = 20; // way past end

    app.ensure_sidebar_scroll_visible(10);

    assert!(app.sidebar_scroll_offset <= 14); // clamped to max
}

// --- US-035: Table scroll offset ---

#[test]
fn ensure_table_scroll_cursor_below_viewport() {
    let mut app = test_app();
    app.table_cursor = 20;
    app.table_scroll_offset = 0;

    app.ensure_table_scroll_visible(10);

    assert_eq!(app.table_scroll_offset, 11); // 20 - 10 + 1
}

#[test]
fn ensure_table_scroll_cursor_above_viewport() {
    let mut app = test_app();
    app.table_cursor = 3;
    app.table_scroll_offset = 8;

    app.ensure_table_scroll_visible(10);

    // No data (row_count=0), so offset clamped to 0
    assert_eq!(app.table_scroll_offset, 0);
}

#[test]
fn ensure_table_scroll_overscroll_clamped() {
    let mut app = test_app();
    app.active_panel = ActivePanel::Center;
    app.selected_cluster = Some("tower".into());
    app.snapshots.push(ClusterSnapshot {
        name: "tower".into(),
        health: HealthStatus::Green,
        namespaces: vec![],
        nodes: vec![],
        pods: (0..20)
            .map(|i| PodInfo {
                name: format!("pod-{}", i),
                namespace: "default".into(),
                status: "Running".into(),
                ready: "1/1".into(),
                restarts: 0,
                restarts_display: "0".into(),
                age: "1h".into(),
                node: "n1".into(),
                containers: vec![],
            })
            .collect(),
        deployments: vec![],
        services: vec![],
        configmaps: vec![],
        events: vec![],
        resource_usage: Default::default(),
    });
    // 20 rows, viewport = 10, max_offset = 10
    app.table_cursor = 5;
    app.table_scroll_offset = 15; // way past end

    app.ensure_table_scroll_visible(10);

    assert!(app.table_scroll_offset <= 10); // clamped
}

// --- US-040: Refresh key triggers data refresh ---

#[test]
fn refresh_key_sets_needs_refresh() {
    let mut app = test_app();
    app.needs_refresh = false;
    let gen_before = app.fetch_generation;

    app.handle_event(AppEvent::Refresh);

    assert!(app.needs_refresh);
    assert_eq!(app.fetch_generation, gen_before + 1);
}

// --- US-041: table_scroll_offset reset on context changes ---

#[test]
fn resource_view_switch_resets_scroll_offset() {
    let mut app = test_app();
    app.active_panel = ActivePanel::Center;
    app.table_scroll_offset = 10;
    app.resource_view = ResourceView::Pods;

    app.handle_event(AppEvent::ResourceType('d')); // switch to Deployments

    assert_eq!(app.table_scroll_offset, 0);
    assert_eq!(app.table_cursor, 0);
}

#[test]
fn search_cancel_resets_scroll_offset() {
    let mut app = test_app();
    app.search_active = true;
    app.search_query = Some("test".into());
    app.table_scroll_offset = 15;
    app.table_cursor = 5;

    app.handle_event(AppEvent::Escape);

    assert_eq!(app.table_scroll_offset, 0);
    assert_eq!(app.table_cursor, 0);
    assert!(!app.search_active);
}

#[test]
fn search_start_resets_scroll_offset() {
    let mut app = test_app();
    app.table_scroll_offset = 10;
    app.table_cursor = 8;

    app.handle_event(AppEvent::Search);

    assert_eq!(app.table_scroll_offset, 0);
    assert_eq!(app.table_cursor, 0);
    assert!(app.search_active);
}

// --- US-042: expand_node populates children from cache ---

#[test]
fn expand_node_populates_children_from_cached_snapshot() {
    let mut app = test_app();
    // Add a snapshot with namespaces
    app.snapshots.push(ClusterSnapshot {
        name: "tower".into(),
        health: HealthStatus::Green,
        namespaces: vec!["default".into(), "kube-system".into()],
        nodes: vec![],
        pods: vec![],
        deployments: vec![],
        services: vec![],
        configmaps: vec![],
        events: vec![],
        resource_usage: Default::default(),
    });

    // Cursor on tower cluster (index 1 in visible tree)
    app.active_panel = ActivePanel::Sidebar;
    app.tree_cursor = 1;
    assert!(!app.tree[1].expanded);

    app.handle_event(AppEvent::Right); // expand via Right arrow

    assert!(app.tree[1].expanded);
    assert!(app.tree[1].children_loaded);
    // Should have "All Namespaces", "default", "kube-system" as children
    assert_eq!(app.tree.len(), 4 + 3); // original 4 + 3 namespace children
}

// --- US-043: move_down bounded by row count ---

#[test]
fn move_down_center_no_data_stays_at_zero() {
    let mut app = test_app();
    app.active_panel = ActivePanel::Center;
    app.table_cursor = 0;
    // No snapshots → current_row_count() == 0
    app.handle_event(AppEvent::Down);
    assert_eq!(app.table_cursor, 0);
}

// --- US-050: Search mode captures all literal characters ---

#[test]
fn search_quit_key_types_q() {
    let mut app = test_app();
    app.search_active = true;
    app.search_query = Some(String::new());
    app.handle_event(AppEvent::Quit); // 'q' key
    assert!(app.search_active); // still in search
    assert_eq!(app.search_query, Some("q".to_string()));
}

#[test]
fn search_help_key_types_question_mark() {
    let mut app = test_app();
    app.search_active = true;
    app.search_query = Some(String::new());
    app.handle_event(AppEvent::Help); // '?' key
    assert!(app.search_active);
    assert_eq!(app.search_query, Some("?".to_string()));
}

#[test]
fn search_left_key_types_h() {
    let mut app = test_app();
    app.search_active = true;
    app.search_query = Some(String::new());
    app.handle_event(AppEvent::Left); // 'h' key
    assert_eq!(app.search_query, Some("h".to_string()));
}

#[test]
fn search_right_key_types_l() {
    let mut app = test_app();
    app.search_active = true;
    app.search_query = Some(String::new());
    app.handle_event(AppEvent::Right); // 'l' key
    assert_eq!(app.search_query, Some("l".to_string()));
}

#[test]
fn search_arrow_keys_are_noop() {
    let mut app = test_app();
    app.search_active = true;
    app.search_query = Some("abc".to_string());
    app.table_cursor = 3;
    for evt in [
        AppEvent::ArrowUp,
        AppEvent::ArrowDown,
        AppEvent::ArrowLeft,
        AppEvent::ArrowRight,
    ] {
        app.handle_event(evt);
        assert_eq!(app.search_query, Some("abc".to_string()));
        assert_eq!(app.table_cursor, 3);
    }
}

#[test]
fn search_backspace_deletes_char() {
    let mut app = test_app();
    app.search_active = true;
    app.search_query = Some("hello".to_string());
    app.handle_event(AppEvent::Backspace);
    assert_eq!(app.search_query, Some("hell".to_string()));
}

#[test]
fn search_backspace_clears_to_none() {
    let mut app = test_app();
    app.search_active = true;
    app.search_query = Some("x".to_string());
    app.handle_event(AppEvent::Backspace);
    assert_eq!(app.search_query, None);
}

#[test]
fn search_escape_cancels() {
    let mut app = test_app();
    app.search_active = true;
    app.search_query = Some("test".to_string());
    app.handle_event(AppEvent::Escape);
    assert!(!app.search_active);
    assert_eq!(app.search_query, None);
}

// --- US-051: current_row_count respects search filter ---

#[test]
fn move_down_clamped_by_search_filter() {
    let mut app = test_app();
    app.active_panel = ActivePanel::Center;
    app.selected_cluster = Some("tower".into());
    app.snapshots.push(ClusterSnapshot {
        name: "tower".into(),
        health: HealthStatus::Green,
        namespaces: vec![],
        nodes: vec![],
        pods: vec![
            PodInfo {
                name: "alpha-pod".into(),
                namespace: "default".into(),
                status: "Running".into(),
                ready: "1/1".into(),
                restarts: 0,
                restarts_display: "0".into(),
                age: "1h".into(),
                node: "n1".into(),
                containers: vec![],
            },
            PodInfo {
                name: "beta-pod".into(),
                namespace: "default".into(),
                status: "Running".into(),
                ready: "1/1".into(),
                restarts: 0,
                restarts_display: "0".into(),
                age: "1h".into(),
                node: "n1".into(),
                containers: vec![],
            },
        ],
        deployments: vec![],
        services: vec![],
        configmaps: vec![],
        events: vec![],
        resource_usage: Default::default(),
    });
    // Search for "alpha" → only 1 result
    app.search_query = Some("alpha".into());
    app.table_cursor = 0;
    app.handle_event(AppEvent::Down);
    // Should not exceed filtered count (1 item → cursor stays at 0)
    assert_eq!(app.table_cursor, 0);
}

// --- US-052: Cluster selection resets table cursor ---

#[test]
fn enter_on_cluster_resets_table_cursor() {
    let mut app = test_app();
    app.table_cursor = 10;
    app.table_scroll_offset = 5;
    app.tree_cursor = 2; // sandbox
    app.handle_event(AppEvent::Enter);
    assert_eq!(app.selected_cluster, Some("sandbox".into()));
    assert_eq!(app.table_cursor, 0);
    assert_eq!(app.table_scroll_offset, 0);
}

// --- US-050 (v5): CharInput in search mode ---

#[test]
fn search_char_input_appends_to_query() {
    let mut app = test_app();
    app.search_active = true;
    app.search_query = Some(String::new());

    app.handle_event(AppEvent::CharInput('a'));
    app.handle_event(AppEvent::CharInput('b'));
    app.handle_event(AppEvent::CharInput('c'));

    assert_eq!(app.search_query, Some("abc".to_string()));
    assert!(app.search_active);
}

#[test]
fn search_char_input_resets_table_cursor() {
    let mut app = test_app();
    app.search_active = true;
    app.search_query = Some(String::new());
    app.table_cursor = 5;

    app.handle_event(AppEvent::CharInput('x'));

    assert_eq!(app.table_cursor, 0);
}

#[test]
fn char_input_ignored_outside_search() {
    let mut app = test_app();
    app.search_active = false;

    app.handle_event(AppEvent::CharInput('a'));

    // Should not change any state
    assert!(app.running);
    assert!(!app.search_active);
}

// --- US-051 (v5): ForceQuit always quits ---

#[test]
fn force_quit_in_search_mode() {
    let mut app = test_app();
    app.search_active = true;
    app.search_query = Some("test".into());

    app.handle_event(AppEvent::ForceQuit);

    assert!(!app.running); // app should quit
}

#[test]
fn force_quit_in_help_mode() {
    let mut app = test_app();
    app.show_help = true;

    app.handle_event(AppEvent::ForceQuit);

    assert!(!app.running); // app should quit
}

#[test]
fn force_quit_in_normal_mode() {
    let mut app = test_app();

    app.handle_event(AppEvent::ForceQuit);

    assert!(!app.running);
}

#[test]
fn quit_in_search_types_q_not_exit() {
    let mut app = test_app();
    app.search_active = true;
    app.search_query = Some(String::new());

    app.handle_event(AppEvent::Quit);

    assert!(app.running); // should NOT quit
    assert_eq!(app.search_query, Some("q".to_string()));
}

// --- US-101: Stale namespace sidebar refresh ---

#[test]
fn sync_tree_updates_when_namespaces_change() {
    let mut app = test_app();
    // Initial snapshot with 2 namespaces
    app.snapshots.push(ClusterSnapshot {
        name: "tower".into(),
        health: HealthStatus::Green,
        namespaces: vec!["default".into(), "kube-system".into()],
        nodes: vec![],
        pods: vec![],
        deployments: vec![],
        services: vec![],
        configmaps: vec![],
        events: vec![],
        resource_usage: Default::default(),
    });

    // Expand tower
    app.tree[1].expanded = true;
    app.sync_tree_from_snapshots();
    assert!(app.tree[1].children_loaded);
    // "All Namespaces" + "default" + "kube-system" = 3 children
    assert_eq!(app.tree.len(), 4 + 3); // 4 original + 3 children

    // Now namespace list changes (new namespace added)
    app.snapshots[0].namespaces =
        vec!["default".into(), "kube-system".into(), "monitoring".into()];
    app.sync_tree_from_snapshots();

    // Should now have 4 children: All NS + default + kube-system + monitoring
    assert_eq!(app.tree.len(), 4 + 4);
}

#[test]
fn sync_tree_no_change_when_namespaces_same() {
    let mut app = test_app();
    app.snapshots.push(ClusterSnapshot {
        name: "tower".into(),
        health: HealthStatus::Green,
        namespaces: vec!["default".into()],
        nodes: vec![],
        pods: vec![],
        deployments: vec![],
        services: vec![],
        configmaps: vec![],
        events: vec![],
        resource_usage: Default::default(),
    });

    app.tree[1].expanded = true;
    app.sync_tree_from_snapshots();
    let tree_len_after_first = app.tree.len();

    // Sync again with same namespaces — should not change
    app.sync_tree_from_snapshots();
    assert_eq!(app.tree.len(), tree_len_after_first);
}

// --- US-104/105: Scroll offset clamping ---

#[test]
fn table_scroll_offset_clamped_on_data_shrink() {
    let mut app = test_app();
    app.active_panel = ActivePanel::Center;
    app.selected_cluster = Some("tower".into());
    app.snapshots.push(ClusterSnapshot {
        name: "tower".into(),
        health: HealthStatus::Green,
        namespaces: vec![],
        nodes: vec![],
        pods: (0..3)
            .map(|i| PodInfo {
                name: format!("pod-{}", i),
                namespace: "default".into(),
                status: "Running".into(),
                ready: "1/1".into(),
                restarts: 0,
                restarts_display: "0".into(),
                age: "1h".into(),
                node: "n1".into(),
                containers: vec![],
            })
            .collect(),
        deployments: vec![],
        services: vec![],
        configmaps: vec![],
        events: vec![],
        resource_usage: Default::default(),
    });
    // Set scroll offset beyond data
    app.table_scroll_offset = 10;
    app.table_cursor = 2;

    app.ensure_table_scroll_visible(10);

    // 3 rows, viewport 10 → max offset = 0
    assert_eq!(app.table_scroll_offset, 0);
}

// --- US-201: ESC clears search filter in normal mode ---

#[test]
fn esc_clears_filter_in_normal_mode() {
    let mut app = test_app();
    app.search_active = false;
    app.search_query = Some("kube".to_string());
    app.table_cursor = 3;
    app.table_scroll_offset = 2;

    app.handle_event(AppEvent::Escape);

    assert!(app.search_query.is_none());
    assert_eq!(app.table_cursor, 0);
    assert_eq!(app.table_scroll_offset, 0);
}

#[test]
fn esc_noop_when_no_filter() {
    let mut app = test_app();
    app.search_active = false;
    app.search_query = None;

    app.handle_event(AppEvent::Escape);

    assert!(app.search_query.is_none());
}

#[test]
fn esc_noop_when_empty_filter() {
    let mut app = test_app();
    app.search_active = false;
    app.search_query = Some(String::new());

    app.handle_event(AppEvent::Escape);

    // Empty query not cleared (no filter active)
    assert_eq!(app.search_query, Some(String::new()));
}

// --- US-202: Sidebar selection ambiguity ---

#[test]
fn all_namespaces_marker_not_on_cluster() {
    let mut app = test_app();
    // Simulate: tower expanded, "All Namespaces" selected
    app.tree[1].expanded = true;
    app.tree[1].children_loaded = true;
    app.tree.insert(
        2,
        TreeNode {
            label: "All Namespaces".into(),
            depth: 2,
            expanded: false,
            node_type: NodeType::Namespace {
                cluster: "tower".into(),
                namespace: "All Namespaces".into(),
            },
            children_loaded: false,
        },
    );
    app.selected_cluster = Some("tower".into());
    app.selected_namespace = None; // "All Namespaces"

    // Cluster node (tower) should NOT be active selection when it has expanded children
    let tower_node = &app.tree[1];
    let tower_is_active = match &tower_node.node_type {
        NodeType::Cluster(name) => {
            app.selected_cluster.as_ref() == Some(name)
                && app.selected_namespace.is_none()
                && !tower_node.expanded // <-- new condition
        }
        _ => false,
    };
    assert!(
        !tower_is_active,
        "cluster node should not show marker when expanded with All NS"
    );

    // All Namespaces node SHOULD be active selection
    let all_ns_node = &app.tree[2];
    let all_ns_is_active = match &all_ns_node.node_type {
        NodeType::Namespace { cluster, namespace } => {
            app.selected_cluster.as_ref() == Some(cluster)
                && namespace == "All Namespaces"
                && app.selected_namespace.is_none()
        }
        _ => false,
    };
    assert!(all_ns_is_active, "All Namespaces node should show marker");
}

// --- US-204: Backspace in normal mode ---

#[test]
fn backspace_normal_mode_noop() {
    let mut app = test_app();
    app.tree[1].expanded = true;
    app.tree_cursor = 1;
    let expanded_before = app.tree[1].expanded;

    app.handle_event(AppEvent::Backspace);

    assert_eq!(
        app.tree[1].expanded, expanded_before,
        "Backspace should not collapse node"
    );
}

// --- US-070: Tab key exits search and switches panel ---

#[test]
fn search_tab_exits_and_switches_panel() {
    let mut app = test_app();
    app.search_active = true;
    app.search_query = Some("test".into());
    app.active_panel = ActivePanel::Center;

    app.handle_event(AppEvent::NextPanel);

    assert!(!app.search_active);
    assert_eq!(app.active_panel, ActivePanel::Sidebar);
}

#[test]
fn search_shift_tab_exits_and_switches_panel() {
    let mut app = test_app();
    app.search_active = true;
    app.search_query = Some("test".into());
    app.active_panel = ActivePanel::Center;

    app.handle_event(AppEvent::PrevPanel);

    assert!(!app.search_active);
    assert_eq!(app.active_panel, ActivePanel::Sidebar);
}

// --- US-073: Search input resets table_scroll_offset ---

#[test]
fn search_backspace_resets_scroll_offset() {
    let mut app = test_app();
    app.search_active = true;
    app.search_query = Some("hello".into());
    app.table_scroll_offset = 10;
    app.table_cursor = 5;

    app.handle_event(AppEvent::Backspace);

    assert_eq!(app.table_cursor, 0);
    assert_eq!(app.table_scroll_offset, 0);
}

#[test]
fn search_char_input_resets_scroll_offset() {
    let mut app = test_app();
    app.search_active = true;
    app.search_query = Some(String::new());
    app.table_scroll_offset = 10;
    app.table_cursor = 5;

    app.handle_event(AppEvent::CharInput('x'));

    assert_eq!(app.table_cursor, 0);
    assert_eq!(app.table_scroll_offset, 0);
    assert_eq!(app.search_query, Some("x".into()));
}

// --- US-076: Empty search submit clears query ---

#[test]
fn search_enter_on_empty_clears_query() {
    let mut app = test_app();
    app.search_active = true;
    app.search_query = Some(String::new());

    app.handle_event(AppEvent::Enter);

    assert!(!app.search_active);
    assert_eq!(app.search_query, None); // cleaned up, not Some("")
}

#[test]
fn search_enter_on_nonempty_keeps_filter() {
    let mut app = test_app();
    app.search_active = true;
    app.search_query = Some("pod".into());

    app.handle_event(AppEvent::Enter);

    assert!(!app.search_active);
    assert_eq!(app.search_query, Some("pod".into()));
}

// --- US-078: Tab switch resets cursor ---

#[test]
fn tab_switch_resets_table_cursor() {
    let mut app = test_app();
    app.active_tab = 0;
    app.table_cursor = 10;
    app.table_scroll_offset = 5;

    app.handle_event(AppEvent::Tab(2)); // switch to Top tab

    assert_eq!(app.active_tab, 1);
    assert_eq!(app.table_cursor, 0);
    assert_eq!(app.table_scroll_offset, 0);
}

#[test]
fn same_tab_does_not_reset_cursor() {
    let mut app = test_app();
    app.active_tab = 0;
    app.table_cursor = 10;

    app.handle_event(AppEvent::Tab(1)); // same tab

    assert_eq!(app.active_tab, 0);
    assert_eq!(app.table_cursor, 10); // unchanged
}

// --- US-079: all_clusters_failed helper ---

#[test]
fn all_clusters_failed_returns_true_when_all_fail() {
    let mut app = test_app();
    app.cluster_connection_status
        .insert("tower".into(), ConnectionStatus::Failed("timeout".into()));
    app.cluster_connection_status
        .insert("sandbox".into(), ConnectionStatus::Failed("refused".into()));
    // No clusters connected (app.clusters is empty from test_app)
    assert!(app.all_clusters_failed());
}

#[test]
fn all_clusters_failed_returns_false_when_some_connected() {
    let mut app = test_app();
    app.cluster_connection_status
        .insert("tower".into(), ConnectionStatus::Connected);
    app.cluster_connection_status
        .insert("sandbox".into(), ConnectionStatus::Failed("refused".into()));
    assert!(!app.all_clusters_failed());
}

#[test]
fn all_clusters_failed_returns_false_when_empty() {
    let app = test_app();
    assert!(!app.all_clusters_failed());
}

#[test]
fn all_clusters_failed_returns_false_during_discovery() {
    let mut app = test_app();
    app.cluster_connection_status
        .insert("tower".into(), ConnectionStatus::Discovering);
    assert!(!app.all_clusters_failed());
}

// --- US-080: Infra tree refresh on load_infra ---

#[test]
fn load_infra_refreshes_expanded_children() {
    let mut app = test_app();
    // Expand infra header and populate with initial data
    let infra_idx = app
        .tree
        .iter()
        .position(|n| matches!(&n.node_type, NodeType::InfraHeader))
        .unwrap();
    app.tree[infra_idx].expanded = true;

    // First load — adds children
    app.infra = InfraSnapshot {
        sdi_pools: vec![SdiPoolInfo {
            pool_name: "pool-A".into(),
            purpose: "test".into(),
            nodes: vec![],
        }],
        total_vms: 0,
        running_vms: 0,
    };
    app.sync_infra_tree();
    assert!(app.tree[infra_idx].children_loaded);
    let child_count_before = app.tree[(infra_idx + 1)..]
        .iter()
        .take_while(|n| n.depth > app.tree[infra_idx].depth)
        .count();
    assert_eq!(child_count_before, 1);

    // Second load via load_infra — should update children even though already loaded
    app.infra = InfraSnapshot {
        sdi_pools: vec![
            SdiPoolInfo {
                pool_name: "pool-B".into(),
                purpose: "new".into(),
                nodes: vec![],
            },
            SdiPoolInfo {
                pool_name: "pool-C".into(),
                purpose: "other".into(),
                nodes: vec![],
            },
        ],
        total_vms: 0,
        running_vms: 0,
    };
    // Simulate load_infra logic (without filesystem)
    if app.tree[infra_idx].children_loaded {
        app.remove_children(infra_idx);
        app.tree[infra_idx].children_loaded = false;
    }
    app.sync_infra_tree();

    let child_count_after = app.tree[(infra_idx + 1)..]
        .iter()
        .take_while(|n| n.depth > app.tree[infra_idx].depth)
        .count();
    assert_eq!(child_count_after, 2); // Updated from 1 to 2
    assert!(app.tree[infra_idx + 1].label.contains("pool-B"));
    assert!(app.tree[infra_idx + 2].label.contains("pool-C"));
}

// --- US-081: Left key navigates to parent ---

#[test]
fn left_on_namespace_goes_to_parent_cluster() {
    let mut app = test_app();
    // Expand tower with namespace children
    app.tree[1].expanded = true;
    app.tree[1].children_loaded = true;
    app.tree.insert(
        2,
        TreeNode {
            label: "All Namespaces".into(),
            depth: 2,
            expanded: false,
            node_type: NodeType::Namespace {
                cluster: "tower".into(),
                namespace: "All Namespaces".into(),
            },
            children_loaded: false,
        },
    );
    app.tree.insert(
        3,
        TreeNode {
            label: "kube-system".into(),
            depth: 2,
            expanded: false,
            node_type: NodeType::Namespace {
                cluster: "tower".into(),
                namespace: "kube-system".into(),
            },
            children_loaded: false,
        },
    );
    // Cursor on kube-system (visible index 3)
    app.tree_cursor = 3;
    app.handle_event(AppEvent::Left);
    // Should navigate to tower (visible index 1)
    assert_eq!(app.tree_cursor, 1);
}

#[test]
fn left_on_collapsed_cluster_goes_to_root() {
    let mut app = test_app();
    // tower is collapsed, cursor on tower (visible index 1)
    app.tree_cursor = 1;
    assert!(!app.tree[1].expanded);
    app.handle_event(AppEvent::Left);
    // Should navigate to Root (visible index 0)
    assert_eq!(app.tree_cursor, 0);
}

#[test]
fn left_on_root_is_noop() {
    let mut app = test_app();
    app.tree_cursor = 0; // on Root
    app.handle_event(AppEvent::Left);
    // Root has depth 0, no parent — stays at 0
    assert_eq!(app.tree_cursor, 0);
}

// --- US-082: Expand/collapse no-op on leaf nodes ---

// --- US-086: Search matches namespace ---

#[test]
fn search_matches_namespace() {
    let mut app = test_app();
    app.search_query = Some("kube-system".to_string());
    assert!(app.matches_search_with_ns("coredns", "kube-system"));
    assert!(!app.matches_search_with_ns("coredns", "default"));
}

#[test]
fn search_matches_name_or_namespace() {
    let mut app = test_app();
    app.search_query = Some("core".to_string());
    // Matches name
    assert!(app.matches_search_with_ns("coredns", "default"));
    // Matches namespace
    assert!(app.matches_search_with_ns("nginx", "core-system"));
    // Matches neither
    assert!(!app.matches_search_with_ns("nginx", "default"));
}

// --- US-082: Expand/collapse no-op on leaf nodes ---

#[test]
fn expand_noop_on_leaf_nodes() {
    let mut app = test_app();
    // Expand tower with namespace children
    app.tree[1].expanded = true;
    app.tree[1].children_loaded = true;
    app.tree.insert(
        2,
        TreeNode {
            label: "default".into(),
            depth: 2,
            expanded: false,
            node_type: NodeType::Namespace {
                cluster: "tower".into(),
                namespace: "default".into(),
            },
            children_loaded: false,
        },
    );
    app.tree_cursor = 2; // on namespace
    let tree_len_before = app.tree.len();
    app.handle_event(AppEvent::Right); // expand on leaf
                                       // expanded should NOT be set to true for namespace
    assert!(!app.tree[2].expanded);
    assert_eq!(app.tree.len(), tree_len_before); // no children added
}

#[test]
fn top_tab_scroll_down_increments_offset() {
    let mut app = test_app();
    app.active_panel = ActivePanel::Center;
    app.active_tab = 1; // Top tab
    app.selected_cluster = Some("tower".into());
    app.snapshots.push(ClusterSnapshot {
        name: "tower".into(),
        health: HealthStatus::Green,
        namespaces: vec![],
        nodes: vec![
            NodeInfo {
                name: "node-0".into(),
                status: "Ready".into(),
                roles: vec![],
                cpu_capacity: "4".into(),
                mem_capacity: "8Gi".into(),
                cpu_allocatable: "4".into(),
                mem_allocatable: "8Gi".into(),
                ..Default::default()
            },
            NodeInfo {
                name: "node-1".into(),
                status: "Ready".into(),
                roles: vec![],
                cpu_capacity: "4".into(),
                mem_capacity: "8Gi".into(),
                cpu_allocatable: "4".into(),
                mem_allocatable: "8Gi".into(),
                ..Default::default()
            },
        ],
        pods: vec![],
        deployments: vec![],
        services: vec![],
        configmaps: vec![],
        events: vec![],
        resource_usage: Default::default(),
    });
    app.table_scroll_offset = 0;

    app.handle_event(AppEvent::Down);
    assert_eq!(app.table_scroll_offset, 1, "j should scroll Top tab down");

    app.handle_event(AppEvent::Up);
    assert_eq!(app.table_scroll_offset, 0, "k should scroll Top tab up");
}

#[test]
fn top_tab_scroll_capped_at_line_count() {
    let mut app = test_app();
    app.active_panel = ActivePanel::Center;
    app.active_tab = 1;
    app.selected_cluster = Some("tower".into());
    app.snapshots.push(ClusterSnapshot {
        name: "tower".into(),
        health: HealthStatus::Green,
        namespaces: vec![],
        nodes: vec![NodeInfo {
            name: "node-0".into(),
            status: "Ready".into(),
            roles: vec![],
            cpu_capacity: "4".into(),
            mem_capacity: "8Gi".into(),
            cpu_allocatable: "4".into(),
            mem_allocatable: "8Gi".into(),
            ..Default::default()
        }],
        pods: vec![],
        deployments: vec![],
        services: vec![],
        configmaps: vec![],
        events: vec![],
        resource_usage: Default::default(),
    });
    // top_tab_line_count = 2 + 1 = 3, max scroll = 2
    for _ in 0..20 {
        app.handle_event(AppEvent::Down);
    }
    assert!(
        app.table_scroll_offset < 20,
        "scroll offset should be capped, got {}",
        app.table_scroll_offset
    );
}

#[test]
fn help_scroll_offset_capped() {
    let mut app = test_app();
    app.show_help = true;
    let expected_max = app.help_content_line_count();
    // Press Down 100 times — offset should be capped to content line count
    for _ in 0..100 {
        app.handle_event(AppEvent::Down);
    }
    assert_eq!(
        app.help_scroll_offset, expected_max,
        "help_scroll_offset should be capped at content lines ({}), got {}",
        expected_max, app.help_scroll_offset
    );
}

// --- US-070: ensure_table_scroll_visible doesn't reset Top tab scroll ---

#[test]
fn ensure_table_scroll_top_tab_preserves_offset() {
    let mut app = test_app();
    app.active_panel = ActivePanel::Center;
    app.active_tab = 1; // Top tab
    app.selected_cluster = Some("tower".into());
    app.snapshots.push(ClusterSnapshot {
        name: "tower".into(),
        health: HealthStatus::Green,
        namespaces: vec![],
        nodes: (0..10)
            .map(|i| NodeInfo {
                name: format!("node-{}", i),
                status: "Ready".into(),
                roles: vec![],
                cpu_capacity: "4".into(),
                mem_capacity: "8Gi".into(),
                cpu_allocatable: "4".into(),
                mem_allocatable: "8Gi".into(),
                ..Default::default()
            })
            .collect(),
        pods: vec![],
        deployments: vec![],
        services: vec![],
        configmaps: vec![],
        events: vec![],
        resource_usage: Default::default(),
    });

    // Simulate scrolling down in Top tab
    app.table_scroll_offset = 3;
    // table_cursor stays 0 (unused in Top tab)

    // Before fix: ensure_table_scroll_visible would reset offset to 0
    // because table_cursor(0) < table_scroll_offset(3)
    app.ensure_table_scroll_visible(5);

    assert_eq!(
        app.table_scroll_offset, 3,
        "Top tab scroll offset should be preserved, not reset to table_cursor"
    );
}

#[test]
fn ensure_table_scroll_top_tab_clamps_overscroll() {
    let mut app = test_app();
    app.active_panel = ActivePanel::Center;
    app.active_tab = 1;
    app.selected_cluster = Some("tower".into());
    app.snapshots.push(ClusterSnapshot {
        name: "tower".into(),
        health: HealthStatus::Green,
        namespaces: vec![],
        nodes: vec![NodeInfo {
            name: "node-0".into(),
            status: "Ready".into(),
            roles: vec![],
            cpu_capacity: "4".into(),
            mem_capacity: "8Gi".into(),
            cpu_allocatable: "4".into(),
            mem_allocatable: "8Gi".into(),
            ..Default::default()
        }],
        pods: vec![],
        deployments: vec![],
        services: vec![],
        configmaps: vec![],
        events: vec![],
        resource_usage: Default::default(),
    });
    // top_tab_line_count = 2 + 1 = 3, viewport = 5, max_offset = 0
    app.table_scroll_offset = 10;

    app.ensure_table_scroll_visible(5);

    assert_eq!(
        app.table_scroll_offset, 0,
        "Top tab scroll should clamp to max when content fits viewport"
    );
}

// --- US-072: Tab exits search clears partial query ---

#[test]
fn tab_exits_search_clears_query() {
    let mut app = test_app();
    app.search_active = true;
    app.search_query = Some("partial".into());
    app.active_panel = ActivePanel::Center;

    app.handle_event(AppEvent::NextPanel);

    assert!(!app.search_active);
    assert_eq!(
        app.search_query, None,
        "Tab should clear partial search query"
    );
    assert_eq!(app.active_panel, ActivePanel::Sidebar);
}

#[test]
fn shift_tab_exits_search_clears_query() {
    let mut app = test_app();
    app.search_active = true;
    app.search_query = Some("partial".into());
    app.active_panel = ActivePanel::Center;

    app.handle_event(AppEvent::PrevPanel);

    assert!(!app.search_active);
    assert_eq!(
        app.search_query, None,
        "Shift+Tab should clear partial search query"
    );
}
