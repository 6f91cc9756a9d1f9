use scalex_dash::age::{format_age, Timestamp};
use scalex_dash::checks::{run_e2e_checks, CheckStatus};
use scalex_dash::data::{
    configmap_info, deployment_info, derive_effective_status, event_infos, namespace_names,
    node_info, pod_info, pod_status_severity, service_info, sort_pods_by_severity,
    ClusterSnapshot, DeploymentInfo, HealthStatus, NodeInfo, PodInfo, ResourceUsage, ServiceInfo,
};
use scalex_dash::degradation::{
    is_suppressed, load, suppressors_for_check, KnownDegradation, KnownDegradationsConfig,
};
use scalex_dash::objects::{
    ConfigMap, Container, ContainerState, ContainerStatus, Deployment, Event, Ingress,
    IntOrString, Node, NodeAddress, NodeCondition, NodeStatus, ObjectMeta, Pod, PodSpec,
    PodStatus, Service, ServicePortSpec, ServiceSpec, Terminated, Waiting,
};
use scalex_dash::quantity::{format_bytes, format_k8s_memory, node_row, split_quantity, Scale};
use scalex_dash::snapshot::{
    assemble_snapshot, compute_health, compute_resource_usage, fetch_plan,
    filter_snapshot_by_resource, health_text, match_metrics, unknown_snapshot, Fetched, Section,
};

const NOW: Timestamp = Timestamp { secs: 1_700_000_000, nanos: 0 };

fn ago(secs: i64) -> Timestamp {
    Timestamp { secs: NOW.secs - secs, nanos: 0 }
}

/// A container's status with what it waits for and how it ended.
fn status(
    name: &str,
    restart_count: i32,
    waiting: Option<&str>,
    terminated: Option<(i32, Option<&str>)>,
) -> ContainerStatus {
    ContainerStatus {
        name: name.into(),
        ready: false,
        restart_count,
        state: Some(ContainerState {
            waiting: waiting.map(|r| Waiting { reason: Some(r.to_string()) }),
            running: false,
            terminated: terminated.map(|(exit_code, reason)| Terminated {
                exit_code,
                reason: reason.map(String::from),
            }),
        }),
    }
}

/// The value of a quantity.
fn parse_k8s_quantity(s: &str) -> Option<f64> {
    let (number, scale) = split_quantity(s)?;
    let n: f64 = number.parse().ok()?;
    Some(match scale {
        Scale::Tebi => n * 1024.0 * 1024.0 * 1024.0 * 1024.0,
        Scale::Gibi => n * 1024.0 * 1024.0 * 1024.0,
        Scale::Mebi => n * 1024.0 * 1024.0,
        Scale::Kibi => n * 1024.0,
        Scale::One => n,
        Scale::Milli => n / 1000.0,
        Scale::Nano => n / 1_000_000_000.0,
    })
}

#[test]
fn health_green_when_all_ok() {
    let nodes = vec![NodeInfo {
        name: "n1".into(),
        status: "Ready".into(),
        roles: vec![],
        cpu_capacity: "4".into(),
        mem_capacity: "8Gi".into(),
        cpu_allocatable: "4".into(),
        mem_allocatable: "8Gi".into(),
        age: "1d".into(),
        ..Default::default()
    }];
    let pods = vec![PodInfo {
        name: "p1".into(),
        namespace: "default".into(),
        status: "Running".into(),
        ready: "1/1".into(),
        restarts: 0,
        restarts_display: "0".into(),
        age: "1h".into(),
        node: "n1".into(),
        containers: vec![],
    }];
    assert_eq!(compute_health(&nodes, &pods), HealthStatus::Green);
}

#[test]
fn health_red_when_node_not_ready() {
    let nodes = vec![NodeInfo {
        name: "n1".into(),
        status: "NotReady".into(),
        roles: vec![],
        cpu_capacity: "4".into(),
        mem_capacity: "8Gi".into(),
        cpu_allocatable: "4".into(),
        mem_allocatable: "8Gi".into(),
        age: "1d".into(),
        ..Default::default()
    }];
    assert_eq!(compute_health(&nodes, &[]), HealthStatus::Red);
}

#[test]
fn health_yellow_when_few_failed_pods() {
    let nodes = vec![NodeInfo {
        name: "n1".into(),
        status: "Ready".into(),
        roles: vec![],
        cpu_capacity: "4".into(),
        mem_capacity: "8Gi".into(),
        cpu_allocatable: "4".into(),
        mem_allocatable: "8Gi".into(),
        age: "1d".into(),
        ..Default::default()
    }];
    let pods = vec![PodInfo {
        name: "p1".into(),
        namespace: "default".into(),
        status: "Failed".into(),
        ready: "0/1".into(),
        restarts: 0,
        restarts_display: "0".into(),
        age: "1h".into(),
        node: "n1".into(),
        containers: vec![],
    }];
    assert_eq!(compute_health(&nodes, &pods), HealthStatus::Yellow);
}

#[test]
fn health_yellow_when_oomkilled_pod() {
    let nodes = vec![NodeInfo {
        name: "n1".into(),
        status: "Ready".into(),
        roles: vec![],
        cpu_capacity: "4".into(),
        mem_capacity: "8Gi".into(),
        cpu_allocatable: "4".into(),
        mem_allocatable: "8Gi".into(),
        age: "1d".into(),
        ..Default::default()
    }];
    let pods = vec![PodInfo {
        name: "p1".into(),
        namespace: "default".into(),
        status: "OOMKilled".into(),
        ready: "0/1".into(),
        restarts: 1,
        restarts_display: "1".into(),
        age: "1h".into(),
        node: "n1".into(),
        containers: vec![],
    }];
    assert_eq!(compute_health(&nodes, &pods), HealthStatus::Yellow);
}

#[test]
fn health_yellow_when_imagepullbackoff_pod() {
    let nodes = vec![NodeInfo {
        name: "n1".into(),
        status: "Ready".into(),
        roles: vec![],
        cpu_capacity: "4".into(),
        mem_capacity: "8Gi".into(),
        cpu_allocatable: "4".into(),
        mem_allocatable: "8Gi".into(),
        age: "1d".into(),
        ..Default::default()
    }];
    let pods = vec![PodInfo {
        name: "p1".into(),
        namespace: "default".into(),
        status: "ImagePullBackOff".into(),
        ready: "0/1".into(),
        restarts: 0,
        restarts_display: "0".into(),
        age: "5m".into(),
        node: "n1".into(),
        containers: vec![],
    }];
    assert_eq!(compute_health(&nodes, &pods), HealthStatus::Yellow);
}

#[test]
fn format_age_seconds() {
    let now = NOW;
    let created = ago(30);
    assert_eq!(format_age(now, created), "30s");
}

#[test]
fn format_age_days() {
    let now = NOW;
    let created = ago(3 * 86400);
    assert_eq!(format_age(now, created), "3d");
}

#[test]
fn format_age_weeks() {
    let now = NOW;
    let created = ago(14 * 86400);
    assert_eq!(format_age(now, created), "2w");
}

#[test]
fn format_age_years() {
    let now = NOW;
    let created = ago(400 * 86400);
    assert_eq!(format_age(now, created), "1y");
}

#[test]
fn format_age_clock_skew_returns_zero() {
    let now = NOW;
    let future = ago(-30);
    assert_eq!(format_age(now, future), "0s");
}

#[test]
fn derive_status_returns_phase_when_no_waiting() {
    let statuses: Vec<ContainerStatus> = vec![];
    assert_eq!(
        derive_effective_status("Running", &statuses, &[], None),
        "Running"
    );
}

#[test]
fn derive_status_detects_crashloopbackoff() {
    let statuses = vec![status("app", 5, Some("CrashLoopBackOff"), None)];
    assert_eq!(
        derive_effective_status("Running", &statuses, &[], None),
        "CrashLoopBackOff"
    );
}

#[test]
fn parse_k8s_quantity_cpu_millicores() {
    assert!((parse_k8s_quantity("100m").unwrap() - 0.1).abs() < 1e-9);
    assert!((parse_k8s_quantity("250m").unwrap() - 0.25).abs() < 1e-9);
    assert!((parse_k8s_quantity("1000m").unwrap() - 1.0).abs() < 1e-9);
}

#[test]
fn parse_k8s_quantity_cpu_nanocores() {
    assert!((parse_k8s_quantity("250000000n").unwrap() - 0.25).abs() < 1e-6);
    assert!((parse_k8s_quantity("1000000000n").unwrap() - 1.0).abs() < 1e-6);
}

#[test]
fn parse_k8s_quantity_cpu_cores() {
    assert!((parse_k8s_quantity("2").unwrap() - 2.0).abs() < 1e-9);
    assert!((parse_k8s_quantity("4").unwrap() - 4.0).abs() < 1e-9);
}

#[test]
fn parse_k8s_quantity_memory() {
    assert!((parse_k8s_quantity("1Gi").unwrap() - 1_073_741_824.0).abs() < 1.0);
    assert!((parse_k8s_quantity("512Mi").unwrap() - 536_870_912.0).abs() < 1.0);
    assert!((parse_k8s_quantity("1024Ki").unwrap() - 1_048_576.0).abs() < 1.0);
    assert!((parse_k8s_quantity("1000").unwrap() - 1000.0).abs() < 1e-9);
}

#[test]
fn parse_k8s_quantity_empty() {
    assert!(parse_k8s_quantity("").is_none());
    assert!(parse_k8s_quantity("  ").is_none());
}

#[test]
fn format_k8s_memory_ki_to_gi() {
    // 7816040Ki ≈ 7.5Gi
    assert_eq!(format_k8s_memory("7816040Ki", "?"), "7.5Gi");
}

#[test]
fn format_k8s_memory_exact_gi() {
    assert_eq!(format_k8s_memory("8Gi", "?"), "8Gi");
}

#[test]
fn format_k8s_memory_mi() {
    assert_eq!(format_k8s_memory("512Mi", "?"), "512Mi");
}

#[test]
fn format_k8s_memory_plain_bytes_large() {
    // 1073741824 bytes = 1Gi
    assert_eq!(format_k8s_memory("1073741824", "?"), "1Gi");
}

#[test]
fn format_k8s_memory_cpu_passthrough() {
    // CPU values should not be reformatted
    assert_eq!(format_k8s_memory("4", "?"), "4");
    assert_eq!(format_k8s_memory("500m", "?"), "500m");
}

#[test]
fn format_k8s_memory_empty() {
    assert_eq!(format_k8s_memory("", "?"), "N/A");
}

#[test]
fn derive_status_detects_oomkilled() {
    let statuses = vec![status("app", 1, None, Some((137, Some("OOMKilled"))))];
    assert_eq!(
        derive_effective_status("Running", &statuses, &[], None),
        "OOMKilled"
    );
}

#[test]
fn derive_status_evicted_pod() {
    assert_eq!(
        derive_effective_status("Failed", &[], &[], Some("Evicted")),
        "Evicted"
    );
}

#[test]
fn derive_status_init_containers_pending() {
    let init_statuses = vec![
        status("init-1", 0, Some("PodInitializing"), None),
        status("init-2", 0, Some("PodInitializing"), None),
    ];
    assert_eq!(
        derive_effective_status("Pending", &[], &init_statuses, None),
        "Init:0/2"
    );
}

#[test]
fn derive_status_init_containers_partial() {
    let init_statuses = vec![
        status("init-1", 0, None, Some((0, None))),
        status("init-2", 0, Some("PodInitializing"), None),
    ];
    assert_eq!(
        derive_effective_status("Pending", &[], &init_statuses, None),
        "Init:1/2"
    );
}

#[test]
fn health_counts_evicted_as_failed() {
    let nodes = vec![NodeInfo {
        name: "n1".into(),
        status: "Ready".into(),
        roles: vec![],
        cpu_capacity: "4".into(),
        mem_capacity: "8Gi".into(),
        cpu_allocatable: "4".into(),
        mem_allocatable: "8Gi".into(),
        age: "1d".into(),
        ..Default::default()
    }];
    let pods = vec![PodInfo {
        name: "evicted-pod".into(),
        namespace: "default".into(),
        status: "Evicted".into(),
        ready: "0/1".into(),
        restarts: 0,
        restarts_display: "0".into(),
        age: "1h".into(),
        node: "n1".into(),
        containers: vec![],
    }];
    assert_eq!(compute_health(&nodes, &pods), HealthStatus::Yellow);
}

#[test]
fn pod_sort_order_errors_first() {
    let make_pod = |name: &str, status: &str| PodInfo {
        name: name.into(),
        namespace: "default".into(),
        status: status.into(),
        ready: "1/1".into(),
        restarts: 0,
        restarts_display: "0".into(),
        age: "1h".into(),
        node: "n1".into(),
        containers: vec![],
    };
    let mut pods = vec![
        make_pod("running-1", "Running"),
        make_pod("crash-1", "CrashLoopBackOff"),
        make_pod("completed-1", "Succeeded"),
        make_pod("pending-1", "Pending"),
        make_pod("error-1", "Error"),
        make_pod("running-2", "Running"),
        make_pod("oom-1", "OOMKilled"),
        make_pod("init-err", "Init:CrashLoopBackOff (sidecar)"),
        make_pod("init-ok", "Init:1/2"),
    ];
    sort_pods_by_severity(&mut pods);
    let names: Vec<&str> = pods.iter().map(|p| p.name.as_str()).collect();
    // Errors first (severity 0): crash-1, error-1, oom-1
    // Init errors (severity 1): init-err
    // Pending (severity 2): pending-1
    // Init in progress (severity 3): init-ok
    // Running (severity 4): running-1, running-2
    // Succeeded (severity 5): completed-1
    assert_eq!(
        names,
        vec![
            "crash-1",
            "error-1",
            "oom-1",
            "init-err",
            "pending-1",
            "init-ok",
            "running-1",
            "running-2",
            "completed-1",
        ]
    );
}

#[test]
fn pod_sort_stable_within_group() {
    let make_pod = |name: &str| PodInfo {
        name: name.into(),
        namespace: "default".into(),
        status: "Running".into(),
        ready: "1/1".into(),
        restarts: 0,
        restarts_display: "0".into(),
        age: "1h".into(),
        node: "n1".into(),
        containers: vec![],
    };
    let mut pods = vec![make_pod("b-pod"), make_pod("a-pod"), make_pod("c-pod")];
    sort_pods_by_severity(&mut pods);
    // All same severity → original order preserved (stable sort)
    let names: Vec<&str> = pods.iter().map(|p| p.name.as_str()).collect();
    assert_eq!(names, vec!["b-pod", "a-pod", "c-pod"]);
}

fn make_multi_ns_snapshot(cluster_name: &str) -> ClusterSnapshot {
    let make_pod = |name: &str, ns: &str, status: &str| PodInfo {
        name: name.into(),
        namespace: ns.into(),
        status: status.into(),
        ready: "1/1".into(),
        restarts: 0,
        restarts_display: "0".into(),
        age: "1h".into(),
        node: "node-0".into(),
        containers: vec!["app".into()],
    };
    let make_deploy = |name: &str, ns: &str| DeploymentInfo {
        name: name.into(),
        namespace: ns.into(),
        ready: "1/1".into(),
        ready_count: 1,
        desired_count: 1,
        up_to_date: 1,
        up_to_date_display: "1".into(),
        available: 1,
        available_display: "1".into(),
        age: "2h".into(),
    };
    let make_svc = |name: &str, ns: &str, stype: &str| ServiceInfo {
        name: name.into(),
        namespace: ns.into(),
        svc_type: stype.into(),
        cluster_ip: "10.96.0.1".into(),
        external_ip: "<none>".into(),
        ports: "80/TCP".into(),
        age: "3h".into(),
    };

    ClusterSnapshot {
        name: cluster_name.into(),
        health: HealthStatus::Green,
        namespaces: vec![
            "default".into(),
            "kube-system".into(),
            "monitoring".into(),
        ],
        nodes: vec![NodeInfo {
            name: "node-0".into(),
            status: "Ready".into(),
            roles: vec!["control-plane".into()],
            cpu_capacity: "8".into(),
            mem_capacity: "16Gi".into(),
            cpu_allocatable: "8".into(),
            mem_allocatable: "16Gi".into(),
            age: "7d".into(),
            ..Default::default()
        }],
        pods: vec![
            make_pod("nginx-abc", "default", "Running"),
            make_pod("coredns-xyz", "kube-system", "Running"),
            make_pod("prometheus-0", "monitoring", "Running"),
        ],
        deployments: vec![
            make_deploy("nginx", "default"),
            make_deploy("coredns", "kube-system"),
            make_deploy("prometheus", "monitoring"),
        ],
        services: vec![
            make_svc("kubernetes", "default", "ClusterIP"),
            make_svc("kube-dns", "kube-system", "ClusterIP"),
            make_svc("prometheus-svc", "monitoring", "ClusterIP"),
        ],
        configmaps: vec![],
        events: vec![],
        resource_usage: ResourceUsage::default(),
    }
}

#[test]
fn snapshot_pods_have_namespace_field() {
    let snap = make_multi_ns_snapshot("tower");
    // Verify each pod carries its namespace — required for TUI namespace filtering
    for pod in &snap.pods {
        assert!(
            !pod.namespace.is_empty(),
            "pod {} must have namespace field set",
            pod.name
        );
    }
    // Verify namespace diversity
    let unique_ns: std::collections::HashSet<&str> =
        snap.pods.iter().map(|p| p.namespace.as_str()).collect();
    assert!(
        unique_ns.len() >= 2,
        "pods should span multiple namespaces for cross-ns browsing"
    );
}

#[test]
fn snapshot_deployments_have_namespace_field() {
    let snap = make_multi_ns_snapshot("tower");
    for deploy in &snap.deployments {
        assert!(
            !deploy.namespace.is_empty(),
            "deployment {} must have namespace field",
            deploy.name
        );
    }
}

#[test]
fn snapshot_services_have_namespace_field() {
    let snap = make_multi_ns_snapshot("tower");
    for svc in &snap.services {
        assert!(
            !svc.namespace.is_empty(),
            "service {} must have namespace field",
            svc.name
        );
    }
}

fn make_check_snapshot(
    name: &str,
    nodes_ready: bool,
    with_argocd: bool,
    with_cf_tunnel: bool,
    with_hubble_relay: bool,
    with_kyverno: bool,
) -> ClusterSnapshot {
    let nodes = vec![
        NodeInfo {
            name: format!("{}-cp-0", name),
            status: if nodes_ready { "Ready".into() } else { "NotReady".into() },
            roles: vec!["control-plane".into()],
            ..Default::default()
        },
        NodeInfo {
            name: format!("{}-cp-1", name),
            status: "Ready".into(),
            roles: vec!["control-plane".into()],
            ..Default::default()
        },
    ];

    let mut deployments = vec![];
    if with_argocd {
        deployments.push(DeploymentInfo {
            name: "argocd-server".into(),
            namespace: "argocd".into(),
            ready: "1/1".into(),
            ready_count: 1,
            desired_count: 1,
            up_to_date: 1,
            up_to_date_display: "1".into(),
            available: 1,
            available_display: "1".into(),
            age: "1h".into(),
        });
        deployments.push(DeploymentInfo {
            name: "argocd-repo-server".into(),
            namespace: "argocd".into(),
            ready: "1/1".into(),
            ready_count: 1,
            desired_count: 1,
            up_to_date: 1,
            up_to_date_display: "1".into(),
            available: 1,
            available_display: "1".into(),
            age: "1h".into(),
        });
    }

    let mut pods = vec![
        PodInfo {
            name: "coredns-abc".into(),
            namespace: "kube-system".into(),
            status: "Running".into(),
            ready: "1/1".into(),
            restarts: 0,
            restarts_display: "0".into(),
            age: "1d".into(),
            node: format!("{}-cp-0", name),
            containers: vec!["coredns".into()],
        },
    ];
    if with_cf_tunnel {
        pods.push(PodInfo {
            name: "cloudflared-tunnel-xyz".into(),
            namespace: "kube-tunnel".into(),
            status: "Running".into(),
            ready: "1/1".into(),
            restarts: 0,
            restarts_display: "0".into(),
            age: "1h".into(),
            node: format!("{}-cp-0", name),
            containers: vec!["cloudflared".into()],
        });
    }
    if with_hubble_relay {
        pods.push(PodInfo {
            name: format!("hubble-relay-{}-abc", name),
            namespace: "kube-system".into(),
            status: "Running".into(),
            ready: "1/1".into(),
            restarts: 0,
            restarts_display: "0".into(),
            age: "1h".into(),
            node: format!("{}-cp-0", name),
            containers: vec!["hubble-relay".into()],
        });
    }
    if with_kyverno {
        pods.push(PodInfo {
            name: "kyverno-admission-controller-xyz".into(),
            namespace: "kyverno".into(),
            status: "Running".into(),
            ready: "1/1".into(),
            restarts: 0,
            restarts_display: "0".into(),
            age: "1h".into(),
            node: format!("{}-cp-0", name),
            containers: vec!["kyverno".into()],
        });
    }

    ClusterSnapshot {
        name: name.into(),
        health: if nodes_ready { HealthStatus::Green } else { HealthStatus::Red },
        namespaces: vec!["default".into(), "kube-system".into(), "argocd".into()],
        nodes,
        pods,
        deployments,
        services: vec![],
        configmaps: vec![],
        events: vec![],
        resource_usage: ResourceUsage::default(),
    }
}

#[test]
fn e2e_checks_all_pass() {
    // All 7 checks: both clusters have hubble-relay and kyverno deployed and Running
    let tower = make_check_snapshot("tower", true, true, true, true, true);
    let sandbox = make_check_snapshot("sandbox", true, false, false, true, true);
    let snapshots = vec![tower, sandbox];
    let report = run_e2e_checks(&snapshots, &["tower", "sandbox"], &Default::default());
    assert_eq!(report.overall, CheckStatus::Pass);
    assert_eq!(report.passed, 7);
    assert_eq!(report.failed, 0);
    assert_eq!(report.total, 7);
    for check in &report.checks {
        assert_eq!(
            check.status, CheckStatus::Pass,
            "check '{}' should pass: {}",
            check.name, check.message
        );
    }
}

#[test]
fn e2e_checks_cluster_unreachable() {
    // Only tower available, sandbox expected but missing
    let tower = make_check_snapshot("tower", true, true, true, true, true);
    let snapshots = vec![tower];
    let report = run_e2e_checks(&snapshots, &["tower", "sandbox"], &Default::default());
    assert_eq!(report.overall, CheckStatus::Fail);
    let api_check = &report.checks[0];
    assert_eq!(api_check.name, "cluster_api_reachable");
    assert_eq!(api_check.status, CheckStatus::Fail);
}

#[test]
fn e2e_checks_nodes_not_ready() {
    let tower = make_check_snapshot("tower", false, true, true, true, true);
    let sandbox = make_check_snapshot("sandbox", true, false, false, true, true);
    let snapshots = vec![tower, sandbox];
    let report = run_e2e_checks(&snapshots, &["tower", "sandbox"], &Default::default());
    let node_check = &report.checks[1];
    assert_eq!(node_check.name, "all_nodes_ready");
    assert_eq!(node_check.status, CheckStatus::Fail);
}

#[test]
fn e2e_checks_no_argocd() {
    let tower = make_check_snapshot("tower", true, false, true, true, true);
    let sandbox = make_check_snapshot("sandbox", true, false, false, true, true);
    let snapshots = vec![tower, sandbox];
    let report = run_e2e_checks(&snapshots, &["tower", "sandbox"], &Default::default());
    let argocd_check = &report.checks[3];
    assert_eq!(argocd_check.name, "argocd_synced");
    assert_eq!(argocd_check.status, CheckStatus::Fail);
}

#[test]
fn e2e_checks_no_cf_tunnel() {
    let tower = make_check_snapshot("tower", true, true, false, true, true);
    let sandbox = make_check_snapshot("sandbox", true, false, false, true, true);
    let snapshots = vec![tower, sandbox];
    let report = run_e2e_checks(&snapshots, &["tower", "sandbox"], &Default::default());
    let cf_check = &report.checks[4];
    assert_eq!(cf_check.name, "cf_tunnel_running");
    assert_eq!(cf_check.status, CheckStatus::Fail);
}

#[test]
fn e2e_checks_empty_namespaces_fails() {
    let mut tower = make_check_snapshot("tower", true, true, true, true, true);
    tower.namespaces.clear();
    let snapshots = vec![tower];
    let report = run_e2e_checks(&snapshots, &["tower"], &Default::default());
    let ns_check = &report.checks[2];
    assert_eq!(ns_check.name, "namespaces_listed");
    assert_eq!(ns_check.status, CheckStatus::Fail);
}

#[test]
fn e2e_checks_tower_missing_skips_argocd_and_cf() {
    // Only sandbox available — ArgoCD and CF Tunnel checks should skip (tower-only)
    let sandbox = make_check_snapshot("sandbox", true, false, false, true, true);
    let snapshots = vec![sandbox];
    let report = run_e2e_checks(&snapshots, &["sandbox"], &Default::default());
    let argocd_check = &report.checks[3];
    assert_eq!(argocd_check.status, CheckStatus::Skip);
    let cf_check = &report.checks[4];
    assert_eq!(cf_check.status, CheckStatus::Skip);
}

#[test]
fn e2e_checks_cilium_healthy_passes_when_hubble_relay_running() {
    let tower = make_check_snapshot("tower", true, false, false, true, false);
    let snapshots = vec![tower];
    let report = run_e2e_checks(&snapshots, &["tower"], &Default::default());
    let cilium_check = &report.checks[5];
    assert_eq!(cilium_check.name, "cilium_healthy");
    assert_eq!(cilium_check.status, CheckStatus::Pass);
    assert!(cilium_check.message.contains("healthy"));
}

#[test]
fn e2e_checks_cilium_healthy_fails_when_hubble_relay_crashloop() {
    let mut tower = make_check_snapshot("tower", true, false, false, false, false);
    // Add a CrashLoopBackOff hubble-relay pod (DNS timeout regression)
    tower.pods.push(PodInfo {
        name: "hubble-relay-crashloop".into(),
        namespace: "kube-system".into(),
        status: "CrashLoopBackOff".into(),
        ready: "0/1".into(),
        restarts: 5,
        restarts_display: "5".into(),
        age: "10m".into(),
        node: "tower-cp-0".into(),
        containers: vec!["hubble-relay".into()],
    });
    let snapshots = vec![tower];
    let report = run_e2e_checks(&snapshots, &["tower"], &Default::default());
    let cilium_check = &report.checks[5];
    assert_eq!(cilium_check.name, "cilium_healthy");
    assert_eq!(cilium_check.status, CheckStatus::Fail);
    assert!(cilium_check.message.contains("DNS timeout") || cilium_check.message.contains("not Running"));
}

#[test]
fn e2e_checks_cilium_skips_when_hubble_not_deployed() {
    // No hubble-relay pods → check should Skip, not Fail
    let tower = make_check_snapshot("tower", true, false, false, false, false);
    let snapshots = vec![tower];
    let report = run_e2e_checks(&snapshots, &["tower"], &Default::default());
    let cilium_check = &report.checks[5];
    assert_eq!(cilium_check.name, "cilium_healthy");
    assert_eq!(cilium_check.status, CheckStatus::Skip);
}

#[test]
fn e2e_checks_kyverno_healthy_passes_when_admission_controller_running() {
    let tower = make_check_snapshot("tower", true, false, false, false, true);
    let snapshots = vec![tower];
    let report = run_e2e_checks(&snapshots, &["tower"], &Default::default());
    let kyverno_check = &report.checks[6];
    assert_eq!(kyverno_check.name, "kyverno_healthy");
    assert_eq!(kyverno_check.status, CheckStatus::Pass);
    assert!(kyverno_check.message.contains("healthy"));
}

#[test]
fn e2e_checks_kyverno_healthy_fails_when_pods_not_running() {
    let mut tower = make_check_snapshot("tower", true, false, false, false, false);
    // Add a non-running kyverno pod
    tower.pods.push(PodInfo {
        name: "kyverno-admission-controller-xyz".into(),
        namespace: "kyverno".into(),
        status: "CrashLoopBackOff".into(),
        ready: "0/1".into(),
        restarts: 3,
        restarts_display: "3".into(),
        age: "5m".into(),
        node: "tower-cp-0".into(),
        containers: vec!["kyverno".into()],
    });
    let snapshots = vec![tower];
    let report = run_e2e_checks(&snapshots, &["tower"], &Default::default());
    let kyverno_check = &report.checks[6];
    assert_eq!(kyverno_check.name, "kyverno_healthy");
    assert_eq!(kyverno_check.status, CheckStatus::Fail);
}

#[test]
fn e2e_checks_kyverno_skips_when_not_deployed() {
    // No kyverno pods → check should Skip, not Fail
    let tower = make_check_snapshot("tower", true, false, false, false, false);
    let snapshots = vec![tower];
    let report = run_e2e_checks(&snapshots, &["tower"], &Default::default());
    let kyverno_check = &report.checks[6];
    assert_eq!(kyverno_check.name, "kyverno_healthy");
    assert_eq!(kyverno_check.status, CheckStatus::Skip);
}

#[test]
fn e2e_checks_known_degraded_suppresses_fail() {
    // Create a cluster where argocd_synced would normally Fail
    // (no argocd deployments in the snapshot), but cf_tunnel=true so only argocd fails.
    let tower = make_check_snapshot("tower", true, false, true, true, true);
    let snapshots = vec![tower];

    // Inventory entry that suppresses argocd_synced
    let inv = KnownDegradationsConfig {
        known_degradations: vec![KnownDegradation {
            namespace: "argocd".to_string(),
            resource_kind: "Pod".to_string(),
            name: "argocd-dex-server-*".to_string(),
            condition: "CrashLoopBackOff".to_string(),
            cause_kind: "architectural-assumption".to_string(),
            reason: "OIDC not wired in this environment.".to_string(),
            acknowledged_by: "jinwang".to_string(),
            ticket: "N/A".to_string(),
            suppresses_check: vec!["argocd_synced".to_string()],
        }],
    };

    let report = run_e2e_checks(&snapshots, &["tower"], &inv);
    let argocd_check = report.checks.iter().find(|c| c.name == "argocd_synced").unwrap();

    // Status must be KnownDegraded, not Fail
    assert_eq!(
        argocd_check.status,
        CheckStatus::KnownDegraded,
        "argocd_synced should be KnownDegraded when suppressed by inventory"
    );
    assert!(
        argocd_check.message.contains("[known-degraded:"),
        "message must include [known-degraded:] marker; got: {}",
        argocd_check.message
    );

    // No real failures → overall should not be Fail
    assert_ne!(
        report.overall,
        CheckStatus::Fail,
        "overall should not be Fail when only known-degraded items remain"
    );
    assert_eq!(report.known_degraded, 1);
    assert_eq!(report.failed, 0);
}

#[test]
fn e2e_checks_without_inventory_still_fails() {
    // Same scenario without inventory → should remain Fail
    let tower = make_check_snapshot("tower", true, false, true, true, true);
    let snapshots = vec![tower];
    let report = run_e2e_checks(&snapshots, &["tower"], &Default::default());
    let argocd_check = report.checks.iter().find(|c| c.name == "argocd_synced").unwrap();
    assert_eq!(
        argocd_check.status,
        CheckStatus::Fail,
        "argocd_synced should Fail when no inventory suppresses it"
    );
    assert_eq!(report.failed, 1);
    assert_eq!(report.known_degraded, 0);
}

#[test]
fn node_metrics_cpu_nanocores_parse() {
    // metrics-server reports CPU in nanocores (e.g., "250000000n" = 0.25 cores)
    let cpu = parse_k8s_quantity("250000000n");
    assert!(cpu.is_some());
    assert!((cpu.unwrap() - 0.25).abs() < 1e-6, "250000000n should parse to 0.25 cores");
}

#[test]
fn node_metrics_cpu_millicores_parse() {
    // metrics-server also reports CPU in millicores (e.g., "125m" = 0.125 cores)
    let cpu = parse_k8s_quantity("125m");
    assert!(cpu.is_some());
    assert!((cpu.unwrap() - 0.125).abs() < 1e-9, "125m should parse to 0.125 cores");
}

#[test]
fn node_metrics_memory_ki_parse() {
    // metrics-server reports memory in Ki (e.g., "1048576Ki" = 1Gi)
    let mem = parse_k8s_quantity("1048576Ki");
    assert!(mem.is_some());
    let gib = 1024.0 * 1024.0 * 1024.0;
    assert!((mem.unwrap() - gib).abs() < 1.0, "1048576Ki should parse to 1GiB");
}

#[test]
fn pod_metrics_parse_k8s_quantities_no_panic() {
    // Verify parse_k8s_quantity handles all quantity formats that metrics-server may return
    // without panicking or returning garbage (ensures "no parse errors" AC)
    let test_cases = [
        // nanocores (most common from metrics-server)
        ("100000000n", Some(0.1f64)),
        ("500000000n", Some(0.5f64)),
        ("1000000000n", Some(1.0f64)),
        // millicores
        ("250m", Some(0.25f64)),
        ("1500m", Some(1.5f64)),
        // whole cores
        ("2", Some(2.0f64)),
        // memory Ki
        ("524288Ki", Some(536870912.0f64)), // 512Mi
        // memory Mi
        ("512Mi", Some(536870912.0f64)),
        // memory Gi
        ("4Gi", Some(4294967296.0f64)),
        // empty → None (not a panic)
        ("", None),
        // unparseable → None (not a panic)
        ("invalid", None),
    ];
    for (input, expected) in &test_cases {
        let result = parse_k8s_quantity(input);
        match expected {
            Some(exp) => {
                assert!(
                    result.is_some(),
                    "parse_k8s_quantity({:?}) returned None, expected Some({})",
                    input, exp
                );
                assert!(
                    (result.unwrap() - exp).abs() < exp.abs() * 1e-4 + 1.0,
                    "parse_k8s_quantity({:?}) = {:?}, expected ~{}",
                    input,
                    result,
                    exp
                );
            }
            None => {
                assert!(
                    result.is_none(),
                    "parse_k8s_quantity({:?}) returned {:?}, expected None",
                    input,
                    result
                );
            }
        }
    }
}

#[test]
fn format_k8s_memory_no_parse_errors_on_metrics_output() {
    // Verify format_k8s_memory handles typical metrics-server outputs without producing
    // garbled output or panicking (ensures "no parse errors" AC for memory display)
    let cases = [
        ("7816040Ki", "7.5Gi"),     // Node memory (Ki → Gi)
        ("8Gi", "8Gi"),             // Already in Gi
        ("512Mi", "512Mi"),         // Already in Mi
        ("1073741824", "1Gi"),      // Plain bytes → Gi
        ("0Ki", "0B"),              // Zero bytes
        ("", "N/A"),                // Empty → explicit N/A (not blank)
    ];
    for (input, expected) in &cases {
        let result = format_k8s_memory(input, "?");
        assert_eq!(
            result, *expected,
            "format_k8s_memory({:?}) = {:?}, expected {:?}",
            input, result, expected
        );
    }
}

// ---------------------------------------------------------------------------
// Memory
// ---------------------------------------------------------------------------

#[test]
fn memory_is_rounded_to_tenths() {
    assert_eq!(format_k8s_memory("1536Mi", "?"), "1.5Gi");
    // A quarter is as near to two tenths as to three.
    assert_eq!(format_k8s_memory("1280Ki", "?"), "1.2Mi");
    assert_eq!(format_k8s_memory("1792Ki", "?"), "1.8Mi");
    assert_eq!(format_bytes(1023), "1023B");
    assert_eq!(format_bytes(1024), "1Ki");
    assert_eq!(format_bytes(2 * 1024 * 1024 - 1), "2Mi");
    assert_eq!(format_k8s_memory("3Ti", "?"), "3Ti");
}

#[test]
fn decimals_that_make_whole_bytes_are_shown() {
    assert_eq!(format_k8s_memory("1.5Gi", "?"), "1.5Gi");
    assert_eq!(format_k8s_memory("0.5Gi", "?"), "512Mi");
    assert_eq!(format_k8s_memory("1.25Mi", "?"), "1.2Mi");
    assert_eq!(format_k8s_memory("0.0009765625Ki", "?"), "?");
    assert_eq!(format_k8s_memory("0.001953125Ki", "?"), "2B");
    assert_eq!(format_k8s_memory("2048.0", "?"), "2Ki");
    assert_eq!(format_k8s_memory("0.5", "?"), "0.5");
    assert_eq!(format_k8s_memory("1023.999", "?"), "1023.999");
    assert_eq!(format_k8s_memory("0.0Gi", "?"), "0B");
}

#[test]
fn memory_that_takes_floating_point_is_as_given() {
    assert_eq!(format_k8s_memory("1.1Gi", "?"), "?");
    assert_eq!(format_k8s_memory("1024.5", "?"), "?");
    assert_eq!(format_k8s_memory(".5Gi", "?"), "?");
    assert_eq!(format_k8s_memory("1e9", "953.7Mi"), "953.7Mi");
    assert_eq!(format_k8s_memory("99999999999999999999", "?"), "?");
    assert_eq!(format_k8s_memory("lots", "?"), "lots");
    assert_eq!(format_k8s_memory("Gi", "?"), "Gi");
    assert_eq!(format_k8s_memory(" 0.5m ", "?"), "0.5m");
}

/// The text that floating-point numbers give an amount with a unit.
fn float_text(number: f64, per: f64) -> String {
    let bytes = number * per;
    for (unit, size) in [
        ("Ti", 1024f64.powi(4)),
        ("Gi", 1024f64.powi(3)),
        ("Mi", 1024f64.powi(2)),
        ("Ki", 1024f64),
    ] {
        if bytes >= size {
            let val = bytes / size;
            return if (val - val.round()).abs() < 0.05 {
                format!("{:.0}{}", val, unit)
            } else {
                format!("{:.1}{}", val, unit)
            };
        }
    }
    format!("{:.0}B", bytes)
}

#[test]
fn decimals_are_shown_as_floating_point_shows_them() {
    for eighths in 0..20_000u32 {
        let number = f64::from(eighths) / 8.0;
        for (unit, power) in [("Ki", 1), ("Mi", 2), ("Gi", 3), ("Ti", 4)] {
            let amount = format!("{:.3}{}", number, unit);
            assert_eq!(
                format_k8s_memory(&amount, "?"),
                float_text(number, 1024f64.powi(power)),
                "{}",
                amount
            );
        }
    }
}

// ---------------------------------------------------------------------------
// Usage and health
// ---------------------------------------------------------------------------

fn pod_row(name: &str, status: &str) -> PodInfo {
    PodInfo {
        name: name.into(),
        namespace: "default".into(),
        status: status.into(),
        ready: "1/1".into(),
        restarts: 0,
        restarts_display: "0".into(),
        age: "1h".into(),
        node: "n1".into(),
        containers: vec![],
    }
}

fn ready_row(name: &str, status: &str) -> NodeInfo {
    NodeInfo { name: name.into(), status: status.into(), ..Default::default() }
}

#[test]
fn usage_counts_pods_and_nodes() {
    let usage = compute_resource_usage(
        &[ready_row("a", "Ready"), ready_row("b", "NotReady")],
        &[pod_row("x", "Running"), pod_row("y", "Succeeded"), pod_row("z", "CrashLoopBackOff")],
    );
    assert_eq!(usage.total_nodes, 2);
    assert_eq!(usage.ready_nodes, 1);
    assert_eq!(usage.total_pods, 3);
    assert_eq!(usage.running_pods, 1);
    assert_eq!(usage.succeeded_pods, 1);
    assert_eq!(usage.failed_pods, 1);
}

#[test]
fn severities_order_states() {
    assert!(pod_status_severity("Error") < pod_status_severity("Pending"));
    assert!(pod_status_severity("Pending") < pod_status_severity("Running"));
    assert!(pod_status_severity("Running") < pod_status_severity("Succeeded"));
}

#[test]
fn metrics_are_matched_by_name() {
    let nodes = vec![ready_row("a", "Ready"), ready_row("b", "Ready")];
    let names = vec!["b".to_string()];
    assert_eq!(match_metrics(&nodes, &names), vec![None, Some(0)]);
}

#[test]
fn sections_follow_the_resource_name() {
    let snapshots = vec![make_multi_ns_snapshot("tower")];
    let section = |name: &str| filter_snapshot_by_resource(&snapshots, name).remove(0).section;
    assert!(matches!(section("nodes"), Section::Nodes(nodes) if nodes[0].name == "node-0"));
    assert!(matches!(section("configmaps"), Section::ConfigMaps(maps) if maps.is_empty()));
    assert!(matches!(section("events"), Section::Events(events) if events.is_empty()));
    match section("foobar") {
        Section::Error(e) => assert_eq!(e, "Unknown resource type: foobar"),
        other => panic!("unexpected section {:?}", other),
    }
    match section("checks") {
        Section::Error(e) => assert_eq!(e, "use run_e2e_checks() for checks mode"),
        other => panic!("unexpected section {:?}", other),
    }
}

#[test]
fn filter_snapshot_pods_returns_all_namespaces() {
    let tower = make_multi_ns_snapshot("tower");
    let sandbox = make_multi_ns_snapshot("sandbox");
    let snapshots = vec![tower, sandbox];

    let clusters = filter_snapshot_by_resource(&snapshots, "pods");
    assert_eq!(clusters.len(), 2, "should contain both clusters");

    // Each cluster should have 3 pods (one per namespace)
    for cluster in clusters {
        match cluster.section {
            Section::Pods(pods) => {
                assert_eq!(pods.len(), 3, "each cluster has 3 pods across namespaces");
            }
            other => panic!("unexpected section {:?}", other),
        }
    }
}

#[test]
fn filter_snapshot_deployments_cross_cluster() {
    let tower = make_multi_ns_snapshot("tower");
    let sandbox = make_multi_ns_snapshot("sandbox");
    let snapshots = vec![tower, sandbox];

    let clusters = filter_snapshot_by_resource(&snapshots, "deployments");

    // Verify cluster names
    let names: Vec<&str> = clusters.iter().map(|c| c.cluster).collect();
    assert!(names.contains(&"tower"), "tower cluster present");
    assert!(names.contains(&"sandbox"), "sandbox cluster present");

    // Verify deployments are present in both clusters
    for cluster in clusters {
        let deploys = match cluster.section {
            Section::Deployments(deploys) => deploys,
            other => panic!("unexpected section {:?}", other),
        };
        assert_eq!(deploys.len(), 3);
        let deploy_names: Vec<&str> = deploys.iter().map(|d| d.name.as_str()).collect();
        assert!(deploy_names.contains(&"nginx"));
        assert!(deploy_names.contains(&"coredns"));
        assert!(deploy_names.contains(&"prometheus"));
    }
}

#[test]
fn filter_snapshot_services_cross_cluster() {
    let tower = make_multi_ns_snapshot("tower");
    let sandbox = make_multi_ns_snapshot("sandbox");
    let snapshots = vec![tower, sandbox];

    let clusters = filter_snapshot_by_resource(&snapshots, "services");
    assert_eq!(clusters.len(), 2);

    for cluster in clusters {
        let svcs = match cluster.section {
            Section::Services(svcs) => svcs,
            other => panic!("unexpected section {:?}", other),
        };
        assert_eq!(svcs.len(), 3);
        let svc_namespaces: Vec<&str> = svcs.iter().map(|s| s.namespace.as_str()).collect();
        assert!(svc_namespaces.contains(&"default"));
        assert!(svc_namespaces.contains(&"kube-system"));
        assert!(svc_namespaces.contains(&"monitoring"));
    }
}

#[test]
fn filter_snapshot_namespaces_cross_cluster() {
    let tower = make_multi_ns_snapshot("tower");
    let sandbox = make_multi_ns_snapshot("sandbox");
    let snapshots = vec![tower, sandbox];

    let clusters = filter_snapshot_by_resource(&snapshots, "namespaces");

    for cluster in clusters {
        let ns = match cluster.section {
            Section::Namespaces(ns) => ns,
            other => panic!("unexpected section {:?}", other),
        };
        assert_eq!(ns.len(), 3);
        let ns_names: Vec<&str> = ns.iter().map(|n| n.as_str()).collect();
        assert!(ns_names.contains(&"default"));
        assert!(ns_names.contains(&"kube-system"));
        assert!(ns_names.contains(&"monitoring"));
    }
}

#[test]
fn filter_snapshot_unknown_resource_returns_error() {
    let snap = make_multi_ns_snapshot("tower");
    let snapshots = [snap];
    let clusters = filter_snapshot_by_resource(&snapshots, "foobar");
    assert_eq!(clusters.len(), 1);
    match &clusters[0].section {
        Section::Error(error) => {
            assert!(error.contains("Unknown"), "unknown resource type should return error")
        }
        other => panic!("unexpected section {:?}", other),
    }
}

#[test]
fn filter_snapshot_health_included_with_resources() {
    let tower = make_multi_ns_snapshot("tower");
    let snapshots = [tower];
    let clusters = filter_snapshot_by_resource(&snapshots, "pods");
    assert_eq!(health_text(clusters[0].health), "green");
    assert_eq!(clusters[0].cluster, "tower");
}

#[test]
fn everything_is_fetched_without_a_view() {
    let plan = fetch_plan(None);
    assert!(plan.pods && plan.deployments && plan.services && plan.configmaps && plan.events);
}

#[test]
fn a_snapshot_is_put_together() {
    let fetched = Fetched {
        namespaces: vec![],
        nodes: vec![ready_row("b", "Ready"), ready_row("a", "Ready")],
        pods: Some(vec![pod_row("p", "Running"), pod_row("q", "Error")]),
        deployments: None,
        services: None,
        configmaps: None,
        events: None,
    };
    let snap = assemble_snapshot("tower", None, fetched);
    assert_eq!(snap.name, "tower");
    assert_eq!(snap.namespaces, vec!["default"]);
    assert_eq!(snap.pods[0].name, "q");
    assert_eq!(snap.health, HealthStatus::Yellow);
    assert_eq!(snap.resource_usage.running_pods, 1);
    assert_eq!(unknown_snapshot("x").health, HealthStatus::Unknown);
}

#[test]
fn namespaces_are_listed_by_name() {
    let names = namespace_names(&vec![Some("b".into()), None, Some("a".into())]);
    assert!(names.contains(&"a".to_string()) && names.contains(&"b".to_string()));
}

#[test]
fn checks_stand_in_their_order() {
    let report = run_e2e_checks(&[], &["tower"], &Default::default());
    let names: Vec<&str> = report.checks.iter().map(|c| c.name.as_str()).collect();
    assert_eq!(
        names,
        vec![
            "cluster_api_reachable",
            "all_nodes_ready",
            "namespaces_listed",
            "argocd_synced",
            "cf_tunnel_running",
            "cilium_healthy",
            "kyverno_healthy",
        ]
    );
    assert_eq!(report.total, 7);
}

#[test]
fn an_empty_inventory_excuses_nothing() {
    let cfg = load(None);
    assert!(!is_suppressed(&cfg, "argocd_synced"));
    assert!(suppressors_for_check(&cfg, "argocd_synced").is_empty());
}

// ---------------------------------------------------------------------------
// Rows
// ---------------------------------------------------------------------------

fn meta(name: &str) -> ObjectMeta {
    ObjectMeta {
        name: Some(name.into()),
        namespace: Some("ns".into()),
        created: Some(ago(7200)),
        deleting: false,
        label_keys: vec![],
    }
}

#[test]
fn a_pod_becomes_a_row() {
    let container = |name: &str| Container { name: name.into(), image: None, ports: None };
    let pod = Pod {
        meta: meta("web"),
        spec: Some(PodSpec {
            init_containers: Some(vec![container("setup")]),
            containers: vec![container("app"), container("proxy")],
            node_name: Some("n1".into()),
        }),
        status: Some(PodStatus {
            phase: Some("Running".into()),
            reason: None,
            init_container_statuses: None,
            container_statuses: Some(vec![
                ContainerStatus {
                    name: "app".into(),
                    ready: true,
                    restart_count: 2,
                    state: None,
                },
                status("proxy", 1, None, None),
            ]),
        }),
    };
    let row = pod_info(&pod, NOW);
    assert_eq!(row.name, "web");
    assert_eq!(row.namespace, "ns");
    assert_eq!(row.ready, "1/2");
    assert_eq!(row.restarts, 3);
    assert_eq!(row.restarts_display, "3");
    assert_eq!(row.age, "2h");
    assert_eq!(row.node, "n1");
    assert_eq!(row.containers, vec!["init:setup", "app", "proxy"]);
}

#[test]
fn a_node_becomes_a_row() {
    let node = Node {
        meta: ObjectMeta {
            label_keys: vec!["node-role.kubernetes.io/control-plane".into()],
            ..meta("n1")
        },
        unschedulable: None,
        status: Some(NodeStatus {
            conditions: vec![NodeCondition { kind: "Ready".into(), status: "True".into() }],
            addresses: vec![NodeAddress { kind: "InternalIP".into(), address: "10.0.0.1".into() }],
            cpu_capacity: Some("4".into()),
            mem_capacity: Some("8Gi".into()),
            cpu_allocatable: Some("4".into()),
            mem_allocatable: Some("7Gi".into()),
            kubelet_version: Some("v1.30".into()),
        }),
    };
    let row = node_row(&node, "?", "?", NOW);
    assert_eq!(row.name, "n1");
    assert_eq!(row.status, "Ready");
    assert_eq!(row.roles, vec!["control-plane"]);
    assert_eq!(row.internal_ip, "10.0.0.1");
    assert_eq!(row.mem_capacity_display, "8Gi");
    assert_eq!(row.mem_display, "7Gi/8Gi");
    assert_eq!(row.age, "2h");
    assert_eq!(node_info(&node, "a", "b", NOW).mem_display, "b/a");
}

#[test]
fn other_objects_become_rows() {
    let dep = Deployment {
        meta: meta("d"),
        replicas: Some(3),
        ready_replicas: Some(2),
        updated_replicas: None,
        available_replicas: Some(2),
    };
    assert_eq!(deployment_info(&dep, NOW).ready, "2/3");
    let cm = ConfigMap { meta: meta("c"), data_keys: Some(2), binary_data_keys: Some(1) };
    assert_eq!(configmap_info(&cm, NOW).data_keys_count, 3);
    let svc = Service {
        meta: meta("s"),
        spec: Some(ServiceSpec {
            kind: Some("LoadBalancer".into()),
            cluster_ip: Some("10.0.0.9".into()),
            ports: Some(vec![ServicePortSpec {
                port: 80,
                target_port: Some(IntOrString::Int(8080)),
                protocol: Some("TCP".into()),
                name: None,
                node_port: None,
            }]),
        }),
        ingress: Some(vec![Ingress { ip: Some("1.2.3.4".into()), hostname: None }]),
    };
    let row = service_info(&svc, NOW);
    assert_eq!(row.svc_type, "LoadBalancer");
    assert_eq!(row.external_ip, "1.2.3.4");
    assert_eq!(row.ports, "80/TCP");
}

#[test]
fn events_become_rows() {
    let event = |name: &str, count: Option<i32>, at: i64| Event {
        meta: meta(name),
        kind: Some("Warning".into()),
        reason: Some("BackOff".into()),
        message: Some("m".into()),
        count,
        object_kind: Some("Pod".into()),
        object_name: Some("web".into()),
        last_timestamp: Some(ago(at)),
        event_time: None,
    };
    let mut timeless = event("timeless", None, 0);
    timeless.last_timestamp = None;
    timeless.meta.created = None;
    let mut by_event_time = event("by-event-time", None, 0);
    by_event_time.last_timestamp = None;
    by_event_time.event_time = Some(ago(30));
    let rows = event_infos(
        vec![
            timeless,
            event("old", Some(2), 600),
            event("old-too", None, 600),
            event("new", None, 2),
            by_event_time,
        ],
        NOW,
    );
    let names: Vec<&str> = rows.iter().map(|r| r.name.as_str()).collect();
    assert_eq!(names, vec!["new", "by-event-time", "old", "old-too", "timeless"]);
    let seen: Vec<&str> = rows.iter().map(|r| r.last_seen.as_str()).collect();
    assert_eq!(seen, vec!["2s", "30s", "10m", "10m", "<unknown>"]);
    assert_eq!(rows[2].count_display, "2");
    assert_eq!(rows[0].object, "Pod/web");
}

#[test]
fn times_reach_as_far_as_the_calendar() {
    let first = Timestamp { secs: -8_334_601_228_800, nanos: 0 };
    let last = Timestamp { secs: 8_210_266_876_799, nanos: 999_999_999 };
    let epoch = Timestamp { secs: 0, nanos: 0 };
    assert!(first.is_in_range());
    assert!(last.is_in_range());
    assert!(!Timestamp { secs: first.secs - 1, nanos: 0 }.is_in_range());
    assert!(!Timestamp { secs: last.secs + 1, nanos: 0 }.is_in_range());
    assert_eq!(format_age(epoch, first), "264288y");
    assert_eq!(format_age(last, epoch), "260345y");
    assert_eq!(format_age(first, last), "0s");
}

#[test]
fn leap_seconds_count_within_a_day() {
    let leap = Timestamp { secs: 1_699_923_599, nanos: 1_500_000_000 };
    assert!(leap.is_in_range());
    assert!(!Timestamp { secs: 1_699_923_600, nanos: 1_500_000_000 }.is_in_range());
    assert!(!Timestamp { secs: 1_699_923_599, nanos: 2_000_000_000 }.is_in_range());
    assert!(Timestamp { secs: -1, nanos: 1_000_000_000 }.is_in_range());
    let later = Timestamp { secs: 1_699_923_610, nanos: 0 };
    assert_eq!(format_age(later, leap), "10s");
    assert_eq!(format_age(leap, later), "0s");
    let next_day = Timestamp { secs: leap.secs + 86_400 - 9, nanos: 0 };
    assert_eq!(format_age(next_day, leap), "23h");
}
