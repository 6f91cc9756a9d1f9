use scalex_dash::container_selector::{
    container_status_from_value, extract_containers, extract_containers_from_value,
    ContainerAction, ContainerInfo, ContainerSelection, ContainerSelector,
};
use scalex_dash::display::Area;
use scalex_dash::json::{Json, JsonNumber};
use scalex_dash::objects::{
    Container, ContainerState, ContainerStatus, ObjectMeta, Pod, PodSpec, PodStatus, Terminated,
    Waiting,
};

/// Converts a parsed value.
fn to_json(v: &serde_json::Value) -> Json {
    match v {
        serde_json::Value::Null => Json::Null,
        serde_json::Value::Bool(b) => Json::Bool(*b),
        serde_json::Value::Number(n) => Json::Number(JsonNumber {
            text: n.to_string(),
            as_i64: n.as_i64(),
            as_u64: n.as_u64(),
        }),
        serde_json::Value::String(s) => Json::Text(s.clone()),
        serde_json::Value::Array(items) => Json::Array {
            items: items.iter().map(to_json).collect(),
            line: v.to_string(),
        },
        serde_json::Value::Object(members) => Json::Object {
            members: members.iter().map(|(k, m)| (k.clone(), to_json(m))).collect(),
            line: v.to_string(),
        },
    }
}

/// Parses a text.
fn json(text: &str) -> Json {
    to_json(&serde_json::from_str(text).unwrap())
}

fn sample_containers() -> Vec<ContainerInfo> {
    vec![
        ContainerInfo {
            name: "nginx".to_string(),
            is_init: false,
            status: "Running".to_string(),
            image: "nginx:latest".to_string(),
            restarts: 0,
        },
        ContainerInfo {
            name: "sidecar".to_string(),
            is_init: false,
            status: "Running".to_string(),
            image: "envoy:1.0".to_string(),
            restarts: 2,
        },
        ContainerInfo {
            name: "init-db".to_string(),
            is_init: true,
            status: "Completed".to_string(),
            image: "migrate:v1".to_string(),
            restarts: 0,
        },
    ]
}

// -- ContainerAction ----------------------------------------------------

#[test]
fn action_labels() {
    assert_eq!(ContainerAction::Logs.label(), "Logs");
    assert_eq!(ContainerAction::ShellExec.label(), "Shell");
}

#[test]
fn action_equality() {
    assert_eq!(ContainerAction::Logs, ContainerAction::Logs);
    assert_ne!(ContainerAction::Logs, ContainerAction::ShellExec);
}

// -- ContainerSelector construction / state -----------------------------

#[test]
fn new_selector_is_hidden() {
    let sel = ContainerSelector::new();
    assert!(!sel.visible);
    assert!(sel.containers.is_empty());
    assert_eq!(sel.cursor, 0);
    assert!(sel.selected.is_none());
    assert_eq!(sel.action, ContainerAction::Logs);
}

#[test]
fn container_selector_default_is_same_as_new() {
    let sel = ContainerSelector::default();
    assert!(!sel.visible);
    assert!(sel.containers.is_empty());
    assert_eq!(sel.action, ContainerAction::Logs);
}

#[test]
fn open_sets_state_with_default_action() {
    let mut sel = ContainerSelector::new();
    sel.open(
        "my-pod".to_string(),
        "default".to_string(),
        sample_containers(),
    );
    assert!(sel.visible);
    assert_eq!(sel.pod_name, "my-pod");
    assert_eq!(sel.namespace, "default");
    assert_eq!(sel.containers.len(), 3);
    assert_eq!(sel.cursor, 0);
    assert!(sel.selected.is_none());
    assert_eq!(sel.action, ContainerAction::Logs);
}

#[test]
fn open_with_action_sets_action() {
    let mut sel = ContainerSelector::new();
    sel.open_with_action(
        "pod-x".to_string(),
        "kube-system".to_string(),
        sample_containers(),
        ContainerAction::ShellExec,
    );
    assert!(sel.visible);
    assert_eq!(sel.action, ContainerAction::ShellExec);
    assert_eq!(sel.pod_name, "pod-x");
}

#[test]
fn container_selector_close_clears_state() {
    let mut sel = ContainerSelector::new();
    sel.open("pod".to_string(), "ns".to_string(), sample_containers());
    sel.close();
    assert!(!sel.visible);
    assert!(sel.containers.is_empty());
    assert_eq!(sel.cursor, 0);
    assert!(sel.selected.is_none());
}

// -- Navigation ---------------------------------------------------------

#[test]
fn move_down_increments_cursor() {
    let mut sel = ContainerSelector::new();
    sel.open("pod".to_string(), "ns".to_string(), sample_containers());
    assert_eq!(sel.cursor, 0);
    sel.move_down();
    assert_eq!(sel.cursor, 1);
    sel.move_down();
    assert_eq!(sel.cursor, 2);
}

#[test]
fn move_down_clamps_at_bottom() {
    let mut sel = ContainerSelector::new();
    sel.open(
        "pod".to_string(),
        "ns".to_string(),
        vec![ContainerInfo {
            name: "a".into(),
            is_init: false,
            status: "Running".into(),
            image: "img".into(),
            restarts: 0,
        }],
    );
    sel.move_down();
    assert_eq!(sel.cursor, 0);
}

#[test]
fn move_up_decrements_cursor() {
    let mut sel = ContainerSelector::new();
    sel.open("pod".to_string(), "ns".to_string(), sample_containers());
    sel.cursor = 2;
    sel.move_up();
    assert_eq!(sel.cursor, 1);
    sel.move_up();
    assert_eq!(sel.cursor, 0);
}

#[test]
fn move_up_clamps_at_top() {
    let mut sel = ContainerSelector::new();
    sel.open("pod".to_string(), "ns".to_string(), sample_containers());
    sel.move_up();
    assert_eq!(sel.cursor, 0);
}

#[test]
fn move_on_empty_does_nothing() {
    let mut sel = ContainerSelector::new();
    sel.move_up();
    sel.move_down();
    assert_eq!(sel.cursor, 0);
}

// -- Selection ----------------------------------------------------------

#[test]
fn confirm_selects_current_and_hides() {
    let mut sel = ContainerSelector::new();
    sel.open("pod".to_string(), "ns".to_string(), sample_containers());
    sel.cursor = 1;
    let ok = sel.confirm();
    assert!(ok);
    assert!(!sel.visible);
    assert_eq!(sel.selected, Some(1));
}

#[test]
fn confirm_returns_false_on_empty() {
    let mut sel = ContainerSelector::new();
    sel.open("pod".to_string(), "ns".to_string(), vec![]);
    let ok = sel.confirm();
    assert!(!ok);
    assert!(sel.selected.is_none());
}

#[test]
fn take_selection_returns_correct_data() {
    let mut sel = ContainerSelector::new();
    sel.open(
        "my-pod".to_string(),
        "kube-system".to_string(),
        sample_containers(),
    );
    sel.cursor = 1; // "sidecar"
    sel.confirm();
    let selection = sel.take_selection().expect("should have selection");
    assert_eq!(selection.pod_name, "my-pod");
    assert_eq!(selection.namespace, "kube-system");
    assert_eq!(selection.container_name, "sidecar");
    assert_eq!(selection.action, ContainerAction::Logs);
}

#[test]
fn take_selection_with_shell_action() {
    let mut sel = ContainerSelector::new();
    sel.open_with_action(
        "pod".to_string(),
        "ns".to_string(),
        sample_containers(),
        ContainerAction::ShellExec,
    );
    sel.confirm();
    let selection = sel.take_selection().unwrap();
    assert_eq!(selection.action, ContainerAction::ShellExec);
}

#[test]
fn take_selection_consumes() {
    let mut sel = ContainerSelector::new();
    sel.open(
        "pod".to_string(),
        "ns".to_string(),
        vec![ContainerInfo {
            name: "app".into(),
            is_init: false,
            status: "Running".into(),
            image: "app:v1".into(),
            restarts: 0,
        }],
    );
    sel.confirm();
    assert!(sel.take_selection().is_some());
    // Second take returns None
    assert!(sel.take_selection().is_none());
}

// -- container_count ---------------------------------------------------

#[test]
fn container_count_returns_length() {
    let mut sel = ContainerSelector::new();
    assert_eq!(sel.container_count(), 0);
    sel.open("pod".to_string(), "ns".to_string(), sample_containers());
    assert_eq!(sel.container_count(), 3);
}

// -- Reopen resets state -----------------------------------------------

#[test]
fn reopen_resets_cursor_and_selection() {
    let mut sel = ContainerSelector::new();
    sel.open("p1".to_string(), "ns1".to_string(), sample_containers());
    sel.move_down();
    sel.move_down();
    sel.confirm();

    sel.open("p2".to_string(), "ns2".to_string(), sample_containers());
    assert_eq!(sel.cursor, 0);
    assert!(sel.selected.is_none());
    assert_eq!(sel.pod_name, "p2");
    assert!(sel.visible);
}

// -- ContainerInfo construction ----------------------------------------

#[test]
fn container_info_init_vs_regular() {
    let init = ContainerInfo {
        name: "init-db".to_string(),
        is_init: true,
        status: "Completed".to_string(),
        image: "migrate:v1".to_string(),
        restarts: 0,
    };
    let regular = ContainerInfo {
        name: "app".to_string(),
        is_init: false,
        status: "Running".to_string(),
        image: "app:latest".to_string(),
        restarts: 3,
    };
    assert!(init.is_init);
    assert!(!regular.is_init);
    assert_eq!(regular.restarts, 3);
}

// -- extract_containers_from_value ------------------------------------

#[test]
fn extract_from_value_basic() {
    let pod_json = json(r#"{
        "spec": {
            "containers": [
                {"name": "nginx", "image": "nginx:1.21"},
                {"name": "sidecar", "image": "envoy:1.0"}
            ],
            "initContainers": [
                {"name": "init-db", "image": "migrate:v1"}
            ]
        },
        "status": {
            "containerStatuses": [
                {"name": "nginx", "restartCount": 0, "state": {"running": {}}},
                {"name": "sidecar", "restartCount": 2, "state": {"running": {}}}
            ],
            "initContainerStatuses": [
                {"name": "init-db", "restartCount": 0, "state": {"terminated": {"reason": "Completed"}}}
            ]
        }
    }"#);

    let containers = extract_containers_from_value(&pod_json);
    assert_eq!(containers.len(), 3);

    // Init containers first
    assert_eq!(containers[0].name, "init-db");
    assert!(containers[0].is_init);
    assert_eq!(containers[0].status, "Completed");

    // Regular containers
    assert_eq!(containers[1].name, "nginx");
    assert!(!containers[1].is_init);
    assert_eq!(containers[1].status, "Running");

    assert_eq!(containers[2].name, "sidecar");
    assert!(!containers[2].is_init);
    assert_eq!(containers[2].restarts, 2);
}

#[test]
fn extract_from_value_no_init_containers() {
    let pod_json = json(r#"{
        "spec": {
            "containers": [{"name": "app", "image": "app:v1"}]
        },
        "status": {
            "containerStatuses": [
                {"name": "app", "restartCount": 0, "state": {"running": {}}}
            ]
        }
    }"#);

    let containers = extract_containers_from_value(&pod_json);
    assert_eq!(containers.len(), 1);
    assert_eq!(containers[0].name, "app");
    assert!(!containers[0].is_init);
}

#[test]
fn extract_from_value_no_status() {
    let pod_json = json(r#"{
        "spec": {
            "containers": [{"name": "app", "image": "app:v1"}]
        }
    }"#);
    let containers = extract_containers_from_value(&pod_json);
    assert_eq!(containers.len(), 1);
    assert_eq!(containers[0].status, "Pending");
}

#[test]
fn extract_from_value_empty_spec() {
    let pod_json = json(r#"{}"#);
    let containers = extract_containers_from_value(&pod_json);
    assert!(containers.is_empty());
}

#[test]
fn extract_from_value_waiting_state() {
    let pod_json = json(r#"{
        "spec": {
            "containers": [{"name": "app", "image": "app:v1"}]
        },
        "status": {
            "containerStatuses": [
                {"name": "app", "restartCount": 5, "state": {"waiting": {"reason": "CrashLoopBackOff"}}}
            ]
        }
    }"#);
    let containers = extract_containers_from_value(&pod_json);
    assert_eq!(containers.len(), 1);
    assert_eq!(containers[0].status, "CrashLoopBackOff");
    assert_eq!(containers[0].restarts, 5);
}

// -- container_status_from_value edge cases ----------------------------

#[test]
fn status_from_value_none() {
    let (status, restarts) = container_status_from_value(None);
    assert_eq!(status, "Pending");
    assert_eq!(restarts, 0);
}

#[test]
fn status_from_value_running() {
    let v = json(r#"{"restartCount": 1, "state": {"running": {}}}"#);
    let (status, restarts) = container_status_from_value(Some(&v));
    assert_eq!(status, "Running");
    assert_eq!(restarts, 1);
}

#[test]
fn status_from_value_terminated_no_reason() {
    let v = json(r#"{"restartCount": 0, "state": {"terminated": {}}}"#);
    let (status, _) = container_status_from_value(Some(&v));
    assert_eq!(status, "Terminated");
}

#[test]
fn status_from_value_waiting_no_reason() {
    let v = json(r#"{"restartCount": 0, "state": {"waiting": {}}}"#);
    let (status, _) = container_status_from_value(Some(&v));
    assert_eq!(status, "Waiting");
}

#[test]
fn status_from_value_no_state() {
    let v = json(r#"{"restartCount": 3}"#);
    let (status, restarts) = container_status_from_value(Some(&v));
    assert_eq!(status, "Unknown");
    assert_eq!(restarts, 3);
}

// -- ContainerSelection ------------------------------------------------

#[test]
fn container_selection_fields() {
    let s = ContainerSelection {
        pod_name: "pod-1".to_string(),
        namespace: "prod".to_string(),
        container_name: "web".to_string(),
        action: ContainerAction::Logs,
    };
    assert_eq!(s.pod_name, "pod-1");
    assert_eq!(s.namespace, "prod");
    assert_eq!(s.container_name, "web");
    assert_eq!(s.action, ContainerAction::Logs);
}

#[test]
fn container_selection_with_shell_action() {
    let s = ContainerSelection {
        pod_name: "pod-2".to_string(),
        namespace: "staging".to_string(),
        container_name: "debug".to_string(),
        action: ContainerAction::ShellExec,
    };
    assert_eq!(s.action, ContainerAction::ShellExec);
}

// -- Containers of typed pods ------------------------------------------

fn typed_container(name: &str) -> Container {
    Container { name: name.into(), image: Some("img".into()), ports: None }
}

fn typed_status(name: &str, restart_count: i32, state: Option<ContainerState>) -> ContainerStatus {
    ContainerStatus { name: name.into(), ready: false, restart_count, state }
}

#[test]
fn containers_of_a_pod() {
    let pod = Pod {
        meta: ObjectMeta {
            name: Some("p".into()),
            namespace: None,
            created: None,
            deleting: false,
            label_keys: vec![],
        },
        spec: Some(PodSpec {
            init_containers: Some(vec![typed_container("init")]),
            containers: vec![typed_container("a"), typed_container("b"), typed_container("c")],
            node_name: None,
        }),
        status: Some(PodStatus {
            phase: None,
            reason: None,
            init_container_statuses: None,
            container_statuses: Some(vec![
                typed_status(
                    "a",
                    -1,
                    Some(ContainerState { waiting: None, running: true, terminated: None }),
                ),
                typed_status(
                    "b",
                    2,
                    Some(ContainerState {
                        waiting: Some(Waiting { reason: None }),
                        running: false,
                        terminated: Some(Terminated { exit_code: 1, reason: None }),
                    }),
                ),
                typed_status("c", 0, None),
            ]),
        }),
    };
    let found = extract_containers(&pod);
    let states: Vec<&str> = found.iter().map(|c| c.status.as_str()).collect();
    assert_eq!(states, vec!["Pending", "Running", "Terminated", "Unknown"]);
    assert!(found[0].is_init && !found[1].is_init);
    assert_eq!(found[1].restarts, u32::MAX);
    assert_eq!(found[1].image, "img");
    assert!(extract_containers(&Pod { spec: None, ..pod }).is_empty());
}

// -- Drawing -----------------------------------------------------------

#[test]
fn the_list_is_laid_out() {
    let mut selector = ContainerSelector::new();
    let screen = Area { x: 0, y: 0, width: 100, height: 30 };
    assert!(selector.render(screen).is_none());
    selector.open_with_action(
        "pod".to_string(),
        "ns".to_string(),
        sample_containers(),
        ContainerAction::ShellExec,
    );
    let frame = selector.render(screen).unwrap();
    assert_eq!(frame.title, " Shell Container — pod ");
    assert_eq!(frame.popup.width, 70);
    assert_eq!(frame.popup.height as usize, sample_containers().len() + 5);
    assert_eq!(frame.lines.len(), sample_containers().len() + 4);
    assert_eq!(frame.lines[2].spans[0].content, "▸ ");
    assert_eq!(frame.lines[3].spans[0].content, "  ");
    let small = Area { x: 0, y: 0, width: 100, height: 8 };
    assert!(selector.render(small).is_none());
}
