use scalex_dash::app::{ActivePanel, App, FetchResult, ResourceView};
use scalex_dash::connections::{ConnectionStatus, ConnectionTable};
use scalex_dash::data::{ActiveResource, ClusterSnapshot, HealthStatus, PodInfo};
use scalex_dash::event::AppEvent;
use scalex_dash::infra::{InfraSnapshot, SdiPoolInfo};
use scalex_dash::kube_client::{ClusterClient, DiscoverEvent};
use scalex_dash::session::{merge_snapshot, FETCH_TIMEOUT_NANOS};
use scalex_dash::snapshot::unknown_snapshot;

fn client(name: &str, tunnel_pid: Option<u32>) -> ClusterClient {
    ClusterClient {
        name: name.into(),
        kubeconfig_path: String::new(),
        tunnel_pid,
        server_version: None,
        endpoint: None,
    }
}

fn pod(name: &str) -> PodInfo {
    PodInfo {
        name: name.into(),
        namespace: "default".into(),
        status: "Running".into(),
        ready: "1/1".into(),
        restarts: 0,
        restarts_display: "0".into(),
        age: "1h".into(),
        node: "n1".into(),
        containers: vec![],
    }
}

fn snapshot(name: &str, namespaces: &[&str], pods: Vec<PodInfo>) -> ClusterSnapshot {
    ClusterSnapshot {
        health: HealthStatus::Green,
        namespaces: namespaces.iter().map(|s| s.to_string()).collect(),
        pods,
        ..unknown_snapshot(name)
    }
}

fn result(app: &App, snapshots: Vec<ClusterSnapshot>, active: Option<ActiveResource>) -> FetchResult {
    FetchResult {
        snapshots,
        latency_ms: 7,
        active_resource: active,
        generation: app.fetch_generation,
    }
}

#[test]
fn a_fresh_dashboard_discovers_its_clusters() {
    let app = App::new_with_names(&vec!["a".to_string(), "b".to_string()], 5);
    let labels: Vec<&str> = app.tree.iter().map(|n| n.label.as_str()).collect();
    assert_eq!(labels, vec!["ScaleX", "a", "b", "Infrastructure"]);
    assert!(matches!(
        app.cluster_connection_status.get("a"),
        Some(ConnectionStatus::Discovering)
    ));
    assert!(!app.discover_complete);
    assert!(app.tree_cursor < app.visible_tree_len());
}

#[test]
fn the_first_cluster_that_answers_is_selected() {
    let mut app = App::new_with_names(&vec!["a".to_string(), "b".to_string()], 5);
    app.on_discover(DiscoverEvent::Connected(client("b", Some(9))));
    assert_eq!(app.selected_cluster.as_deref(), Some("b"));
    assert!(app.tree[2].expanded);
    assert_eq!(app.tunnel_pids, vec![9]);
    assert!(app.needs_refresh);
    app.on_discover(DiscoverEvent::Connected(client("a", None)));
    assert_eq!(app.selected_cluster.as_deref(), Some("b"));
    app.on_discover(DiscoverEvent::Failed { name: "a".into(), error: "gone".into() });
    assert!(matches!(
        app.cluster_connection_status.get("a"),
        Some(ConnectionStatus::Failed(e)) if e == "gone"
    ));
    app.on_discover(DiscoverEvent::Log { message: "note".into() });
    app.on_discover(DiscoverEvent::Complete);
    assert!(app.discover_complete);
}

#[test]
fn fetches_are_ordered_and_taken() {
    let mut app = App::new(vec![client("a", None), client("b", None)], 2);
    app.selected_cluster = Some("a".into());
    app.selected_namespace = Some("ns".into());
    assert!(!app.is_fetch_due(1_999_999_999));
    assert!(app.is_fetch_due(2_000_000_000));
    let order = app.begin_fetch(100);
    assert_eq!(order.targets.len(), 2);
    assert_eq!(order.targets[0].namespace.as_deref(), Some("ns"));
    assert_eq!(order.targets[1].namespace, None);
    assert_eq!(order.active_resource, ActiveResource::Pods);
    assert!(!app.is_fetch_due(u64::MAX));
    let snaps = vec![snapshot("a", &["ns"], vec![pod("x")])];
    let r = result(&app, snaps, None);
    app.table_cursor = 9;
    assert!(app.on_fetch_result(r));
    assert!(!app.is_fetching);
    assert_eq!(app.api_latency_ms, 7);
    assert_eq!(app.table_cursor, 0);
    assert_eq!(app.snapshots.len(), 1);
}

#[test]
fn stale_results_are_discarded() {
    let mut app = App::new(vec![client("a", None)], 2);
    let _ = app.begin_fetch(0);
    let stale = result(&app, vec![snapshot("a", &[], vec![])], None);
    app.handle_event(AppEvent::Refresh);
    assert!(!app.on_fetch_result(stale));
    assert!(app.snapshots.is_empty());
}

#[test]
fn fetches_that_run_too_long_are_given_up() {
    let mut app = App::new(vec![client("a", None)], 2);
    let _ = app.begin_fetch(10);
    app.check_fetch_timeout(10 + FETCH_TIMEOUT_NANOS);
    assert!(app.is_fetching);
    app.check_fetch_timeout(11 + FETCH_TIMEOUT_NANOS);
    assert!(!app.is_fetching && app.fetch_timed_out);
    app.tick();
    assert_eq!(app.tick_count, 1);
}

#[test]
fn parts_are_merged_into_what_is_there() {
    let old = snapshot("a", &["x"], vec![pod("old")]);
    let new = snapshot("a", &["y"], vec![pod("new")]);
    let merged = merge_snapshot(old, new, ActiveResource::Pods);
    assert_eq!(merged.pods[0].name, "new");
    assert_eq!(merged.namespaces, vec!["y"]);
    assert_eq!(merged.resource_usage.total_pods, 1);
}

#[test]
fn failed_clusters_are_tried_again() {
    let mut app = App::new_with_names(&vec!["a".to_string(), "b".to_string()], 5);
    app.on_discover(DiscoverEvent::Failed { name: "a".into(), error: "gone".into() });
    assert!(app.retry_failed().is_empty());
    app.handle_event(AppEvent::Refresh);
    assert_eq!(app.retry_failed(), vec!["a"]);
    assert!(matches!(
        app.cluster_connection_status.get("a"),
        Some(ConnectionStatus::Discovering)
    ));
}

#[test]
fn connections_are_kept_by_name() {
    let mut table = ConnectionTable::new();
    assert!(table.is_empty());
    table.insert("b".into(), ConnectionStatus::Failed("x".into()));
    table.insert("a".into(), ConnectionStatus::Connected);
    table.insert("b".into(), ConnectionStatus::Failed("y".into()));
    assert!(!table.all_failed());
    assert_eq!(table.failed_names(), vec!["b"]);
    assert!(table.get("c").is_none());
}

#[test]
fn screens_are_fitted() {
    let mut app = App::new(vec![], 2);
    app.fit_viewport(40);
    assert_eq!(app.sidebar_page_size, 40 - 8 - 3);
    assert_eq!(app.page_size, 40 - 8 - 3 - 2 - 1);
    app.fit_viewport(20);
    assert_eq!(app.sidebar_page_size, 20 - 4 - 3);
}

#[test]
fn infrastructure_is_taken_in() {
    let mut app = App::new(vec![], 2);
    let header = app.tree.len() - 1;
    app.tree_cursor = header;
    app.handle_event(AppEvent::Right);
    assert_eq!(app.tree[header + 1].label, "No SDI data");
    app.load_infra(InfraSnapshot {
        sdi_pools: vec![SdiPoolInfo {
            pool_name: "tower".into(),
            purpose: "mgmt".into(),
            nodes: vec![],
        }],
        total_vms: 0,
        running_vms: 0,
    });
    assert_eq!(app.tree[header + 1].label, "tower (mgmt) — 0 VMs");
    assert!(app.tree_cursor < app.visible_tree_len());
}

#[test]
fn searches_go_by_lower_case_beyond_ascii() {
    let mut app = App::new(vec![], 2);
    app.search_query = Some("ÄPF".into());
    assert!(app.matches_search("Schöne-äpfel"));
    assert!(!app.matches_search("birnen"));
    assert!(app.matches_search_with_ns("birnen", "Äpfel"));
}

// --- Laws on concrete values ---

#[test]
fn the_cursor_stays_on_a_visible_row() {
    let mut app = App::new(vec![client("a", None), client("b", None)], 2);
    app.snapshots = vec![snapshot("a", &["x", "y", "z"], vec![])];
    let keys = [
        AppEvent::Down,
        AppEvent::Enter,
        AppEvent::End,
        AppEvent::Up,
        AppEvent::Left,
        AppEvent::Left,
        AppEvent::PageDown,
        AppEvent::Right,
        AppEvent::Home,
        AppEvent::Enter,
        AppEvent::Down,
    ];
    for key in keys {
        app.handle_event(key);
        assert!(app.tree_cursor < app.visible_tree_len());
    }
}

#[test]
fn moving_about_selects_nothing() {
    let mut app = App::new(vec![client("a", None)], 2);
    for key in [AppEvent::Down, AppEvent::Right, AppEvent::End, AppEvent::Up] {
        app.handle_event(key);
    }
    assert_eq!(app.selected_cluster, None);
    assert_eq!(app.selected_namespace, None);
}

#[test]
fn switching_panels_twice_comes_back() {
    let mut app = App::new(vec![], 2);
    app.handle_event(AppEvent::NextPanel);
    assert_eq!(app.active_panel, ActivePanel::Center);
    app.handle_event(AppEvent::PrevPanel);
    assert_eq!(app.active_panel, ActivePanel::Sidebar);
}

#[test]
fn a_forced_quit_works_everywhere() {
    for search in [false, true] {
        let mut app = App::new(vec![], 2);
        app.handle_event(if search { AppEvent::Search } else { AppEvent::Help });
        app.handle_event(AppEvent::Quit);
        assert!(app.running);
        app.handle_event(AppEvent::ForceQuit);
        assert!(!app.running);
    }
}

#[test]
fn typing_is_undone_by_backspace() {
    let mut app = App::new(vec![], 2);
    app.handle_event(AppEvent::Search);
    app.handle_event(AppEvent::CharInput('x'));
    app.handle_event(AppEvent::CharInput('y'));
    app.handle_event(AppEvent::Backspace);
    assert_eq!(app.search_query.as_deref(), Some("x"));
    app.handle_event(AppEvent::Escape);
    assert_eq!(app.search_query, None);
}

#[test]
fn navigation_starts_a_generation() {
    let mut app = App::new(vec![], 2);
    app.active_panel = ActivePanel::Center;
    app.handle_event(AppEvent::ResourceType('n'));
    assert_eq!(app.resource_view, ResourceView::Nodes);
    assert_eq!(app.fetch_generation, 1);
    assert!(app.needs_refresh && !app.is_fetching);
}
