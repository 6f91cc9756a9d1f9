use scalex_dash::json::{Json, JsonNumber};
use scalex_dash::kube_client::{
    advance, begin_discovery, cleanup_tunnels, close_round, clusters_to_discover, discovery_event,
    domain_access, error_category, extract_server_url, find_control_plane, load_api_endpoints,
    lookup_cp_ip, override_endpoint, parse_pools, probe_client_auth, resolve_bastion,
    retry_refusal, scan_kubeconfig_names, signal_target, sort_clusters, take_pools, target_of,
    tunnel_args, tunnel_kubeconfig, tunnel_not_ready, tunnel_silent, tunnel_target,
    wait_for_tunnel_port, Access, ClusterClient, ClusterDef, ConfigDir, ConfigEntry, Credentials,
    DiscoverEvent, DiscoverMode, Outcome, ProbeAnswer, ProbeResult, Reply, Stage, Step, Target,
    Trust, WaitStep, TUNNEL_RETRIES,
};

/// Converts a parsed value.
fn to_json(v: &serde_json::Value) -> Json {
    match v {
        serde_json::Value::Null => Json::Null,
        serde_json::Value::Bool(b) => Json::Bool(*b),
        serde_json::Value::Number(n) => Json::Number(JsonNumber {
            text: n.to_string(),
            as_i64: n.as_i64(),
            as_u64: n.as_u64(),
        }),
        serde_json::Value::String(s) => Json::Text(s.clone()),
        serde_json::Value::Array(items) => Json::Array {
            items: items.iter().map(to_json).collect(),
            line: v.to_string(),
        },
        serde_json::Value::Object(members) => Json::Object {
            members: members.iter().map(|(k, m)| (k.clone(), to_json(m))).collect(),
            line: v.to_string(),
        },
    }
}

/// Parses a text.
fn json(text: &str) -> Json {
    to_json(&serde_json::from_str(text).unwrap())
}

/// A directory with a kubeconfig.
fn cluster_dir(name: &str) -> ConfigEntry {
    ConfigEntry {
        name: Some(name.to_string()),
        is_dir: true,
        has_kubeconfig: true,
    }
}

#[test]
fn resolve_bastion_from_yaml() {
    let result = resolve_bastion(
        "targetNodes:\n  - name: \"playbox-0\"\n    node_ip: \"192.168.88.8\"\n",
    );
    assert_eq!(result, Some("playbox-0".to_string()));
}

#[test]
fn lookup_cp_ip_returns_none_for_missing_state() {
    assert!(lookup_cp_ip(&vec![], "tower").is_none());
}

#[test]
fn scan_kubeconfig_names_finds_clusters() {
    let noconfig = ConfigEntry {
        has_kubeconfig: false,
        ..cluster_dir("noconfig")
    };
    let names = scan_kubeconfig_names(&vec![cluster_dir("tower"), cluster_dir("sandbox"), noconfig]);
    assert_eq!(names, vec!["sandbox".to_string(), "tower".to_string()]);
}

#[test]
fn scan_kubeconfig_names_returns_empty_for_missing_dir() {
    let names = scan_kubeconfig_names(&vec![]);
    assert!(names.is_empty());
}

#[test]
fn scan_kubeconfig_names_feeds_cluster_selector() {
    let names = scan_kubeconfig_names(&vec![cluster_dir("tower"), cluster_dir("sandbox")]);

    // Sorted alphabetically: sandbox, tower
    assert_eq!(names.len(), 2);
    assert_eq!(names[0], "sandbox");
    assert_eq!(names[1], "tower");
    for name in &names {
        assert!(!name.is_empty());
        assert!(!name.contains('/'));
    }
}

#[test]
fn scan_kubeconfig_names_excludes_dirs_without_kubeconfig() {
    let bad = ConfigEntry {
        has_kubeconfig: false,
        ..cluster_dir("bad-cluster")
    };
    let file = ConfigEntry {
        name: Some("not-a-dir".to_string()),
        is_dir: false,
        has_kubeconfig: false,
    };
    let names = scan_kubeconfig_names(&vec![cluster_dir("tower"), bad, file]);
    assert_eq!(names, vec!["tower".to_string()]);
}

#[test]
fn scan_kubeconfig_names_four_clusters() {
    let entries: Vec<ConfigEntry> = ["tower", "sandbox", "staging", "prod"]
        .iter()
        .map(|n| cluster_dir(n))
        .collect();
    let names = scan_kubeconfig_names(&entries);
    assert_eq!(names.len(), 4);
    // All four present (sorted)
    assert!(names.contains(&"tower".to_string()));
    assert!(names.contains(&"sandbox".to_string()));
    assert!(names.contains(&"staging".to_string()));
    assert!(names.contains(&"prod".to_string()));
}

#[test]
fn extract_server_url_parses_kubeconfig() {
    let result = extract_server_url("clusters:\n- cluster:\n    server: https://192.168.88.100:6443\n");
    assert!(result.is_some());
    let (url, ip, port) = result.unwrap();
    assert_eq!(url, "https://192.168.88.100:6443");
    assert_eq!(ip, "192.168.88.100");
    assert_eq!(port, 6443);
}

#[test]
fn extract_server_url_parses_tunnel_rewritten_kubeconfig() {
    let result = extract_server_url("clusters:\n- cluster:\n    server: https://127.0.0.1:16443\n");
    assert!(
        result.is_some(),
        "extract_server_url must succeed on tunnel-rewritten kubeconfig"
    );

    let (url, ip, port) = result.unwrap();
    assert_eq!(url, "https://127.0.0.1:16443");
    assert_eq!(ip, "127.0.0.1");
    assert_eq!(port, 16443u16);
}

#[test]
fn extract_server_url_defaults_port_to_6443() {
    let result = extract_server_url("clusters:\n- cluster:\n    server: https://192.168.88.100\n");
    assert!(result.is_some());
    let (_, _, port) = result.unwrap();
    assert_eq!(port, 6443u16, "default port should be 6443");
}

#[test]
fn extract_server_url_parses_cf_tunnel_domain() {
    let result = extract_server_url("clusters:\n- cluster:\n    server: https://tower-api.jinwang.dev:443\n");
    assert!(
        result.is_some(),
        "extract_server_url must handle domain URLs for CF Tunnel kubeconfigs"
    );
    let (url, host, port) = result.unwrap();
    assert_eq!(url, "https://tower-api.jinwang.dev:443");
    assert_eq!(host, "tower-api.jinwang.dev");
    assert_eq!(port, 443u16);
}

#[test]
fn extract_server_url_parses_cf_tunnel_domain_no_port() {
    let result = extract_server_url("clusters:\n- cluster:\n    server: https://sandbox-api.jinwang.dev\n");
    assert!(result.is_some());
    let (url, host, port) = result.unwrap();
    assert_eq!(url, "https://sandbox-api.jinwang.dev");
    assert_eq!(host, "sandbox-api.jinwang.dev");
    assert_eq!(
        port, 6443u16,
        "default port should be 6443 when no port specified"
    );
}

// --- Discovery ---

fn target(mode: DiscoverMode, endpoint: Option<&str>, bastion: Option<&str>) -> Target {
    Target {
        mode,
        name: "tower".into(),
        kubeconfig_path: "/c/kubeconfig.yaml".into(),
        original_path: "/c/kubeconfig.yaml.original".into(),
        endpoint: endpoint.map(String::from),
        bastion: bastion.map(String::from),
        local_port: 16443,
    }
}

#[test]
fn without_a_domain_the_kubeconfig_comes_first() {
    let t = target(DiscoverMode::Streaming, None, None);
    assert_eq!(begin_discovery(&t), Stage::Direct);
    let t = target(DiscoverMode::Streaming, Some("https://tower.example"), None);
    assert_eq!(begin_discovery(&t), Stage::ReadToken);
}

#[test]
fn a_cluster_that_answers_is_connected() {
    let t = target(DiscoverMode::Streaming, None, None);
    let a = advance(&t, Stage::Direct, Reply::Tried { connected: true, content: None });
    match a.step {
        Step::Finish(Outcome::Connected { path, tunnel_pid, .. }) => {
            assert_eq!(path, "/c/kubeconfig.yaml");
            assert_eq!(tunnel_pid, None);
        }
        other => panic!("unexpected step {:?}", other),
    }
}

#[test]
fn a_cluster_without_a_way_in_fails() {
    let t = target(DiscoverMode::Streaming, None, None);
    let a = advance(&t, Stage::Direct, Reply::Tried { connected: false, content: None });
    let a = match a.step {
        Step::Next { stage: Stage::Original, .. } => {
            advance(&t, Stage::Original, Reply::Tried { connected: false, content: None })
        }
        step => panic!("unexpected step {:?}", step),
    };
    match a.step {
        Step::Finish(Outcome::Failed { error }) => {
            match discovery_event(&t, Outcome::Failed { error }, None) {
                DiscoverEvent::Failed { name, .. } => assert_eq!(name, "tower"),
                other => panic!("unexpected event {:?}", other),
            }
        }
        step => panic!("unexpected step {:?}", step),
    }
}

#[test]
fn a_refused_token_is_forgotten() {
    let t = target(DiscoverMode::Streaming, Some("https://tower.example"), Some("bastion"));
    let a = advance(&t, Stage::Domain, Reply::Probed(ProbeResult::Unauthorized));
    assert!(matches!(a.step, Step::Next { stage: Stage::InvalidateToken, .. }));
    let a = advance(&t, Stage::Domain, Reply::Probed(ProbeResult::Reachable));
    match a.step {
        Step::Finish(outcome) => match discovery_event(&t, outcome, Some("v1.30".into())) {
            DiscoverEvent::Connected(c) => {
                assert_eq!(c.name, "tower");
                assert_eq!(c.server_version.as_deref(), Some("v1.30"));
            }
            other => panic!("unexpected event {:?}", other),
        },
        step => panic!("unexpected step {:?}", step),
    }
}

#[test]
fn errors_have_a_category() {
    assert_eq!(error_category("connection refused"), error_category("connection refused"));
    assert!(!error_category("operation timeout").is_empty());
}

// --- Kubeconfigs and tunnels ---

#[test]
fn endpoints_replace_the_server() {
    let replaced = override_endpoint(
        "clusters:\n- cluster:\n    server: https://10.0.0.1:6443\n",
        "https://tower.example",
    );
    assert!(replaced.unwrap().contains("https://tower.example"));
    assert_eq!(override_endpoint("nothing here", "https://x"), None);
}

#[test]
fn endpoints_are_found_by_name() {
    let defs = vec![
        ClusterDef { cluster_name: "a".into(), api_endpoint: None },
        ClusterDef { cluster_name: "b".into(), api_endpoint: Some("https://b".into()) },
    ];
    assert_eq!(load_api_endpoints(&defs, "b").as_deref(), Some("https://b"));
    assert_eq!(load_api_endpoints(&defs, "a"), None);
    assert_eq!(load_api_endpoints(&defs, "c"), None);
}

#[test]
fn tunnels_are_waited_for() {
    assert!(matches!(wait_for_tunnel_port(0, true, true), WaitStep::Ready));
    assert!(matches!(wait_for_tunnel_port(0, false, false), WaitStep::GiveUp));
    assert!(matches!(wait_for_tunnel_port(0, true, false), WaitStep::TryAgain));
    assert!(matches!(wait_for_tunnel_port(TUNNEL_RETRIES, true, false), WaitStep::GiveUp));
}

#[test]
fn tunnels_lead_to_the_control_plane() {
    assert_eq!(tunnel_target("127.0.0.1".into(), Some("10.0.0.5".into())), "10.0.0.5");
    assert_eq!(tunnel_target("10.0.0.9".into(), None), "10.0.0.9");
    let args = tunnel_args(16443, "10.0.0.5", 6443, "bastion");
    assert!(args.contains(&"16443:10.0.0.5:6443".to_string()));
    assert_eq!(args.last().map(|s| s.as_str()), Some("bastion"));
    assert_eq!(
        tunnel_kubeconfig("server: https://10.0.0.5:6443", "https://10.0.0.5:6443", 16443),
        "server: https://127.0.0.1:16443"
    );
    assert!(tunnel_not_ready("tower", 16443, 7).contains("tower"));
    assert!(tunnel_silent("tower", 16443).contains("tower"));
}

fn client(name: &str, tunnel_pid: Option<u32>) -> ClusterClient {
    ClusterClient {
        name: name.into(),
        kubeconfig_path: String::new(),
        tunnel_pid,
        server_version: None,
        endpoint: None,
    }
}

#[test]
fn tunnels_are_ended_with_the_dashboard() {
    assert_eq!(cleanup_tunnels(&[client("a", Some(7)), client("b", None)]), vec![7]);
    assert_eq!(signal_target(42), Some(42));
    assert_eq!(signal_target(u32::MAX), None);
}

#[test]
fn clusters_are_sorted_by_name() {
    let mut clusters = vec![client("tower", None), client("sandbox", None)];
    sort_clusters(&mut clusters);
    assert_eq!(clusters[0].name, "sandbox");
}

#[test]
fn control_planes_are_found_in_the_state() {
    let pools = json(
        r#"[{"pool_name": "tower", "nodes": [
            {"node_name": "tower-w-0", "ip": "10.0.0.7", "roles": ["worker"]},
            {"node_name": "tower-cp-0", "ip": "10.0.0.5", "roles": ["control-plane"]}
        ]}]"#,
    );
    let items = match pools {
        Json::Array { items, .. } => items,
        _ => vec![],
    };
    assert!(lookup_cp_ip(&items, "sandbox").is_none());
    assert_eq!(lookup_cp_ip(&items, "tower").as_deref(), Some("10.0.0.5"));
}

#[test]
fn control_planes_are_found_in_a_state_file() {
    let pool = r#"{"pool_name": "tower", "gpu": null, "share": 0.25, "full": true,
        "nodes": [{"node_name": "tower-cp-0", "ip": "10.0.0.5", "cpu": 8}]}"#;
    let list = format!("[{}]", pool);
    assert_eq!(find_control_plane(pool, "tower").as_deref(), Some("10.0.0.5"));
    assert_eq!(find_control_plane(&list, "tower").as_deref(), Some("10.0.0.5"));
    assert_eq!(find_control_plane(&list, "sandbox"), None);
    assert_eq!(find_control_plane("[{", "tower"), None);
    assert_eq!(find_control_plane("[]", "tower"), None);
    let pools = parse_pools(&list).unwrap();
    assert_eq!(pools.len(), 1);
    assert_eq!(format!("{:?}", pools), format!("{:?}", vec![json(pool)]));
    assert!(parse_pools("nothing").is_none());
    assert!(matches!(take_pools(Some(Json::Null)), Some(one) if one.len() == 1));
    assert!(take_pools(None).is_none());
}

fn certificates() -> Access {
    Access {
        clusters: vec![
            Some(Trust {
                certificate_authority: Some("ca.pem".into()),
                certificate_authority_data: Some("Q0E=".into()),
            }),
            None,
        ],
        users: vec![
            None,
            Some(Credentials {
                token: None,
                client_certificate: Some("cert.pem".into()),
                client_certificate_data: Some("Q0VSVA==".into()),
                client_key: Some("key.pem".into()),
                client_key_data: Some("S0VZ".into()),
            }),
        ],
    }
}

#[test]
fn tokens_replace_certificates() {
    let mut access = certificates();
    domain_access(&mut access, Some("abc"));
    let trust = access.clusters[0].as_ref().unwrap();
    assert_eq!(trust.certificate_authority, None);
    assert_eq!(trust.certificate_authority_data, None);
    assert!(access.clusters[1].is_none());
    assert!(access.users[0].is_none());
    let user = access.users[1].as_ref().unwrap();
    assert_eq!(user.token.as_deref(), Some("abc"));
    assert_eq!(user.client_certificate, None);
    assert_eq!(user.client_certificate_data, None);
    assert_eq!(user.client_key, None);
    assert_eq!(user.client_key_data, None);
}

#[test]
fn without_a_token_credentials_are_kept() {
    let mut access = certificates();
    domain_access(&mut access, None);
    assert_eq!(access.clusters[0].as_ref().unwrap().certificate_authority_data, None);
    let user = access.users[1].as_ref().unwrap();
    assert_eq!(user.token, None);
    assert_eq!(user.client_key_data.as_deref(), Some("S0VZ"));
}

#[test]
fn only_a_refused_token_is_unauthorized() {
    assert_eq!(probe_client_auth(ProbeAnswer::Listed), ProbeResult::Reachable);
    assert_eq!(probe_client_auth(ProbeAnswer::Refused(401)), ProbeResult::Unauthorized);
    assert_eq!(probe_client_auth(ProbeAnswer::Refused(403)), ProbeResult::Failed);
    assert_eq!(probe_client_auth(ProbeAnswer::Silent), ProbeResult::Failed);
}

fn entry(file_name: &[u8], is_dir: bool, has_kubeconfig: bool) -> ConfigDir {
    let name = String::from_utf8(file_name.to_vec()).ok();
    let dir = format!("clusters/{}", String::from_utf8_lossy(file_name));
    ConfigDir {
        file_name: file_name.to_vec(),
        name,
        is_dir,
        has_kubeconfig,
        kubeconfig_path: format!("{}/kubeconfig.yaml", dir),
        original_path: format!("{}/kubeconfig.yaml.original", dir),
    }
}

#[test]
fn clusters_are_discovered_in_the_order_of_their_names() {
    let found = clusters_to_discover(vec![
        entry(b"tower", true, true),
        entry(b"\xff", true, true),
        entry(b"notes.txt", false, true),
        entry(b"empty", true, false),
        entry(b"sandbox", true, true),
        entry(b"tow", true, true),
    ]);
    let names: Vec<Option<&str>> = found.iter().map(|d| d.name.as_deref()).collect();
    assert_eq!(names, vec![Some("sandbox"), Some("tow"), Some("tower"), None]);
}

#[test]
fn targets_know_their_endpoint_and_bastion() {
    let defs = vec![ClusterDef {
        cluster_name: "tower".into(),
        api_endpoint: Some("https://tower.example.com".into()),
    }];
    let bastion = Some("playbox-0".to_string());
    let tower = entry(b"tower", true, true);
    let t = target_of(tower, DiscoverMode::Retry, &bastion, &defs, 16443);
    assert_eq!(t.mode, DiscoverMode::Retry);
    assert_eq!(t.name, "tower");
    assert_eq!(t.kubeconfig_path, "clusters/tower/kubeconfig.yaml");
    assert_eq!(t.original_path, "clusters/tower/kubeconfig.yaml.original");
    assert_eq!(t.endpoint.as_deref(), Some("https://tower.example.com"));
    assert_eq!(t.bastion.as_deref(), Some("playbox-0"));
    assert_eq!(t.local_port, 16443);
    let nameless = entry(b"\xff", true, true);
    let t = target_of(nameless, DiscoverMode::Streaming, &None, &defs, 1);
    assert_eq!(t.name, "unknown");
    assert_eq!(t.endpoint, None);
    assert_eq!(t.bastion, None);
}

#[test]
fn only_a_full_round_says_that_it_is_complete() {
    assert!(matches!(close_round(DiscoverMode::Streaming)[..], [DiscoverEvent::Complete]));
    assert!(close_round(DiscoverMode::Retry).is_empty());
    assert!(close_round(DiscoverMode::Blocking).is_empty());
}

#[test]
fn a_cluster_without_a_kubeconfig_is_not_tried_again() {
    assert!(retry_refusal("tower", true).is_none());
    match retry_refusal("tower", false) {
        Some(DiscoverEvent::Failed { name, error }) => {
            assert_eq!(name, "tower");
            assert_eq!(error, "kubeconfig.yaml not found");
        }
        other => panic!("unexpected news {:?}", other),
    }
}
