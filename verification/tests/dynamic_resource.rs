use scalex_dash::age::{format_age, Timestamp};
use scalex_dash::describe::{
    format_describe, format_json_section, format_scalar, DynamicObject,
};
use scalex_dash::dynamic_resource::{
    builtin_alias, cached_object, columns_for_resource, describe_from_cache, describe_target,
    extract_column_value, extract_json_path, list_scope, object_scope, resolve_resource,
    resolve_via_discovery, ApiResource, ColumnExtractor, DynamicResourceData, Resolution,
    ResolvedResource, Scope,
};
use scalex_dash::json::{Json, JsonNumber};

/// Converts a parsed value.
fn to_json(v: &serde_json::Value) -> Json {
    match v {
        serde_json::Value::Null => Json::Null,
        serde_json::Value::Bool(b) => Json::Bool(*b),
        serde_json::Value::Number(n) => Json::Number(JsonNumber {
            text: n.to_string(),
            as_i64: n.as_i64(),
            as_u64: n.as_u64(),
        }),
        serde_json::Value::String(s) => Json::Text(s.clone()),
        serde_json::Value::Array(items) => Json::Array {
            items: items.iter().map(to_json).collect(),
            line: v.to_string(),
        },
        serde_json::Value::Object(members) => Json::Object {
            members: members.iter().map(|(k, m)| (k.clone(), to_json(m))).collect(),
            line: v.to_string(),
        },
    }
}

/// Parses a text.
fn json(text: &str) -> Json {
    to_json(&serde_json::from_str(text).unwrap())
}

#[test]
fn builtin_alias_pods() {
    assert!(builtin_alias("po").is_some());
    assert!(builtin_alias("pod").is_some());
    assert!(builtin_alias("pods").is_some());
    let (group, version, plural, kind, namespaced) = builtin_alias("pods").unwrap();
    assert_eq!(group, "");
    assert_eq!(version, "v1");
    assert_eq!(plural, "pods");
    assert_eq!(kind, "Pod");
    assert!(namespaced);
}

#[test]
fn builtin_alias_deployments() {
    for alias in &["dp", "dep", "deploy", "deployment", "deployments"] {
        let result = builtin_alias(alias);
        assert!(result.is_some(), "alias '{}' should resolve", alias);
        let (group, _, plural, kind, namespaced) = result.unwrap();
        assert_eq!(group, "apps");
        assert_eq!(plural, "deployments");
        assert_eq!(kind, "Deployment");
        assert!(namespaced);
    }
}

#[test]
fn builtin_alias_cluster_scoped() {
    let (_, _, _, _, namespaced) = builtin_alias("nodes").unwrap();
    assert!(!namespaced);

    let (_, _, _, _, namespaced) = builtin_alias("crd").unwrap();
    assert!(!namespaced);
}

#[test]
fn builtin_alias_unknown_returns_none() {
    assert!(builtin_alias("foobar").is_none());
    assert!(builtin_alias("xyz123").is_none());
}

#[test]
fn columns_for_pods_have_expected_headers() {
    let cols = columns_for_resource("Pod", true);
    let headers: Vec<&str> = cols.iter().map(|c| c.header.as_str()).collect();
    assert!(headers.contains(&"NAME"));
    assert!(headers.contains(&"NAMESPACE"));
    assert!(headers.contains(&"STATUS"));
    assert!(headers.contains(&"READY"));
    assert!(headers.contains(&"RESTARTS"));
    assert!(headers.contains(&"AGE"));
}

#[test]
fn columns_for_cluster_scoped_no_namespace() {
    let cols = columns_for_resource("Node", false);
    let headers: Vec<&str> = cols.iter().map(|c| c.header.as_str()).collect();
    assert!(headers.contains(&"NAME"));
    assert!(!headers.contains(&"NAMESPACE"));
    assert!(headers.contains(&"AGE"));
}

#[test]
fn extract_json_path_nested() {
    let data = json(r#"{
        "spec": {
            "replicas": 3,
            "type": "ClusterIP"
        },
        "status": {
            "phase": "Running"
        }
    }"#);
    assert_eq!(extract_json_path(&data, "spec.replicas"), "3");
    assert_eq!(extract_json_path(&data, "spec.type"), "ClusterIP");
    assert_eq!(extract_json_path(&data, "status.phase"), "Running");
    assert_eq!(extract_json_path(&data, "nonexistent.path"), "");
}

#[test]
fn format_age_values() {
    let now = Timestamp { secs: 1_700_000_000, nanos: 0 };
    let ago = |secs: i64| Timestamp { secs: now.secs - secs, nanos: 0 };
    assert_eq!(format_age(now, ago(30)), "30s");
    assert_eq!(format_age(now, ago(5 * 60)), "5m");
    assert_eq!(format_age(now, ago(2 * 3600)), "2h");
    assert_eq!(format_age(now, ago(3 * 86400)), "3d");
}

#[test]
fn dynamic_resource_data_filtered_count() {
    let resource = ResolvedResource {
        api_resource: ApiResource {
            group: "".into(),
            version: "v1".into(),
            api_version: "v1".into(),
            kind: "ConfigMap".into(),
            plural: "configmaps".into(),
        },
        namespaced: true,
        display_name: "ConfigMaps".into(),
        command_alias: "cm".into(),
        columns: columns_for_resource("ConfigMap", true),
    };
    let mut data = DynamicResourceData::new(resource);
    data.rows = vec![
        vec![
            "kube-root-ca.crt".into(),
            "default".into(),
            "3".into(),
            "1d".into(),
        ],
        vec![
            "my-config".into(),
            "default".into(),
            "5".into(),
            "2h".into(),
        ],
        vec![
            "other-config".into(),
            "kube-system".into(),
            "1".into(),
            "3d".into(),
        ],
    ];

    assert_eq!(data.filtered_count(None), 3);
    assert_eq!(data.filtered_count(Some("my")), 1);
    assert_eq!(data.filtered_count(Some("config")), 2);
    assert_eq!(data.filtered_count(Some("nonexistent")), 0);
}

// --- Tests for YAML describe / fetch functions ---

fn pairs(items: &[(&str, &str)]) -> Option<Vec<(String, String)>> {
    Some(items.iter().map(|(k, v)| (k.to_string(), v.to_string())).collect())
}

fn bare_obj(name: &str, data: Json) -> DynamicObject {
    DynamicObject {
        name: Some(name.to_string()),
        namespace: None,
        created: None,
        uid: None,
        resource_version: None,
        labels: None,
        annotations: None,
        owners: None,
        finalizers: None,
        data,
    }
}

fn make_test_obj(name: &str, ns: Option<&str>) -> DynamicObject {
    DynamicObject {
        namespace: ns.map(|s| s.to_string()),
        labels: pairs(&[("app", "test"), ("env", "dev")]),
        annotations: pairs(&[("note", "test annotation")]),
        uid: Some("abc-123".to_string()),
        resource_version: Some("42".to_string()),
        ..bare_obj(
            name,
            json(
                r#"{
            "spec": {
                "replicas": 3,
                "selector": {
                    "matchLabels": { "app": "test" }
                }
            },
            "status": {
                "readyReplicas": 2,
                "availableReplicas": 2
            }
        }"#,
            ),
        )
    }
}

fn make_test_resource_data() -> DynamicResourceData {
    let resource = ResolvedResource {
        api_resource: ApiResource {
            group: "apps".into(),
            version: "v1".into(),
            api_version: "apps/v1".into(),
            kind: "Deployment".into(),
            plural: "deployments".into(),
        },
        namespaced: true,
        display_name: "Deployments".into(),
        command_alias: "deploy".into(),
        columns: columns_for_resource("Deployment", true),
    };
    let mut data = DynamicResourceData::new(resource);
    data.objects = vec![
        make_test_obj("nginx", Some("default")),
        make_test_obj("redis", Some("kube-system")),
    ];
    data
}

#[test]
fn format_describe_includes_metadata() {
    let obj = make_test_obj("my-deploy", Some("production"));
    let output = format_describe(&obj, "Deployment");

    assert!(
        output.contains("Name:         my-deploy"),
        "should contain name"
    );
    assert!(
        output.contains("Namespace:    production"),
        "should contain namespace"
    );
    assert!(
        output.contains("Kind:         Deployment"),
        "should contain kind"
    );
    assert!(
        output.contains("UID:          abc-123"),
        "should contain UID"
    );
    assert!(
        output.contains("Version:      42"),
        "should contain resource version"
    );
}

#[test]
fn format_describe_includes_labels() {
    let obj = make_test_obj("my-deploy", Some("default"));
    let output = format_describe(&obj, "Deployment");

    assert!(output.contains("Labels:"), "should have labels section");
    assert!(output.contains("app=test"), "should contain app label");
    assert!(output.contains("env=dev"), "should contain env label");
}

#[test]
fn format_describe_includes_annotations() {
    let obj = make_test_obj("my-deploy", Some("default"));
    let output = format_describe(&obj, "Deployment");

    assert!(
        output.contains("Annotations:"),
        "should have annotations section"
    );
    assert!(
        output.contains("note=test annotation"),
        "should contain annotation"
    );
}

#[test]
fn format_describe_includes_spec_and_status() {
    let obj = make_test_obj("my-deploy", Some("default"));
    let output = format_describe(&obj, "Deployment");

    assert!(output.contains("Spec:"), "should have spec section");
    assert!(output.contains("replicas"), "should contain replicas field");
    assert!(output.contains("Status:"), "should have status section");
    assert!(
        output.contains("readyReplicas"),
        "should contain readyReplicas"
    );
}

#[test]
fn format_describe_no_namespace_for_cluster_scoped() {
    let obj = bare_obj("my-node", json("{}"));
    let output = format_describe(&obj, "Node");
    assert!(output.contains("Name:         my-node"));
    assert!(
        !output.contains("Namespace:"),
        "cluster-scoped should not show namespace"
    );
}

/// What is written of the object that is found: here its name.
fn yaml_from_cache(data: &DynamicResourceData, name: &str, ns: Option<&str>) -> Option<String> {
    let i = cached_object(data, name, ns)?;
    serde_yaml::to_string(&data.objects[i].name).ok()
}

#[test]
fn yaml_from_cache_finds_by_name_and_namespace() {
    let data = make_test_resource_data();

    let yaml = yaml_from_cache(&data, "nginx", Some("default"));
    assert!(yaml.is_some(), "should find nginx in default");
    let yaml_str = yaml.unwrap();
    assert!(
        yaml_str.contains("nginx"),
        "YAML should contain resource name"
    );

    let yaml = yaml_from_cache(&data, "redis", Some("kube-system"));
    assert!(yaml.is_some(), "should find redis in kube-system");

    let yaml = yaml_from_cache(&data, "nonexistent", Some("default"));
    assert!(yaml.is_none(), "should not find nonexistent");

    let yaml = yaml_from_cache(&data, "nginx", Some("wrong-ns"));
    assert!(yaml.is_none(), "should not find nginx in wrong namespace");
}

#[test]
fn yaml_from_cache_cluster_scoped_matches_by_name_only() {
    let data = make_test_resource_data();

    // With namespace=None, should match by name only
    let yaml = yaml_from_cache(&data, "nginx", None);
    assert!(yaml.is_some(), "cluster-scoped lookup should match by name");
}

#[test]
fn describe_from_cache_returns_formatted_output() {
    let data = make_test_resource_data();

    let desc = describe_from_cache(&data, "nginx", Some("default"));
    assert!(desc.is_some());
    let text = desc.unwrap();
    assert!(text.contains("Name:         nginx"));
    assert!(text.contains("Kind:         Deployment"));
    assert!(text.contains("Namespace:    default"));
}

#[test]
fn describe_from_cache_returns_none_for_missing() {
    let data = make_test_resource_data();
    assert!(describe_from_cache(&data, "missing", Some("default")).is_none());
}

#[test]
fn format_json_section_handles_nested_objects() {
    let data = json(r#"{
        "containers": [
            {
                "name": "nginx",
                "image": "nginx:latest"
            }
        ],
        "replicas": 3
    }"#);
    let mut out = String::new();
    format_json_section(&mut out, &data, "  ");
    assert!(out.contains("containers:"));
    assert!(out.contains("nginx"));
    assert!(out.contains("replicas:  3"));
}

#[test]
fn format_scalar_values() {
    assert_eq!(format_scalar(&json(r#""hello""#)), "hello");
    assert_eq!(format_scalar(&json(r#"42"#)), "42");
    assert_eq!(format_scalar(&json(r#"true"#)), "true");
    assert_eq!(format_scalar(&json(r#"null"#)), "<none>");
}

#[test]
fn format_describe_truncates_long_annotations() {
    let long_value = "x".repeat(200);
    let obj = DynamicObject {
        annotations: pairs(&[("long-annotation", &long_value)]),
        ..bare_obj("test", json("{}"))
    };
    let output = format_describe(&obj, "Pod");
    // Should be truncated with "..."
    assert!(
        output.contains("..."),
        "long annotations should be truncated"
    );
    // Should not contain the full 200 chars
    assert!(!output.contains(&"x".repeat(200)));
}

#[test]
fn format_describe_configmap_data_section() {
    let obj = bare_obj("my-config", json(r#"{
            "data": {
                "config.yaml": "key: value\nother: stuff",
                "simple": "one-liner"
            }
        }"#));
    let output = format_describe(&obj, "ConfigMap");
    assert!(
        output.contains("Data:"),
        "should have Data section for ConfigMaps"
    );
    assert!(output.contains("config.yaml:"), "should show data key");
    assert!(
        output.contains("key: value"),
        "should show multi-line data content"
    );
}

// --- Columns and rows ---

const NOW: Timestamp = Timestamp { secs: 1_700_000_000, nanos: 0 };

fn shown(obj: &DynamicObject, extractor: ColumnExtractor) -> String {
    extract_column_value(obj, &extractor, NOW)
}

#[test]
fn pod_columns_show_readiness_and_restarts() {
    let pod = bare_obj(
        "web",
        json(
            r#"{"status": {"phase": "Running", "containerStatuses": [
                {"ready": true, "restartCount": 2},
                {"ready": false, "restartCount": 3},
                {"restartCount": "many"}
            ], "conditions": [{"type": "Ready", "status": "True"}]}}"#,
        ),
    );
    assert_eq!(shown(&pod, ColumnExtractor::ContainerReady), "1/3");
    assert_eq!(shown(&pod, ColumnExtractor::Restarts), "5");
    assert_eq!(shown(&pod, ColumnExtractor::StatusPhase), "Running");
    assert_eq!(shown(&pod, ColumnExtractor::ReadyCondition), "True");
    assert_eq!(shown(&pod, ColumnExtractor::Name), "web");
    assert_eq!(shown(&pod, ColumnExtractor::Namespace), "");
    assert_eq!(shown(&pod, ColumnExtractor::Age), "<unknown>");
}

#[test]
fn missing_parts_are_shown_as_nothing() {
    let obj = bare_obj("x", json("{}"));
    assert_eq!(shown(&obj, ColumnExtractor::ContainerReady), "0/0");
    assert_eq!(shown(&obj, ColumnExtractor::Restarts), "0");
    assert_eq!(shown(&obj, ColumnExtractor::ReadyReplicas), "0/0");
    assert_eq!(shown(&obj, ColumnExtractor::SpecType), "");
    assert_eq!(shown(&obj, ColumnExtractor::ClusterIP), "");
    assert_eq!(shown(&obj, ColumnExtractor::ReadyCondition), "");
    assert_eq!(shown(&obj, ColumnExtractor::Labels), "");
    assert_eq!(shown(&obj, ColumnExtractor::ClusterLabel), "");
    assert_eq!(shown(&obj, ColumnExtractor::JsonPath("a.b".into())), "");
}

#[test]
fn three_labels_are_shown() {
    let obj = DynamicObject {
        labels: pairs(&[("a", "1"), ("b", "2"), ("c", "3"), ("scalex.io/cluster", "tower")]),
        ..bare_obj("x", json("{}"))
    };
    assert_eq!(shown(&obj, ColumnExtractor::Labels), "a=1,b=2,c=3");
    assert_eq!(shown(&obj, ColumnExtractor::ClusterLabel), "tower");
}

#[test]
fn replicas_and_service_columns() {
    let obj = bare_obj(
        "x",
        json(
            r#"{"spec": {"replicas": 3, "type": "NodePort", "clusterIP": "10.0.0.1"},
                "status": {"readyReplicas": 2}, "data": {"k": [1, true, null]}}"#,
        ),
    );
    assert_eq!(shown(&obj, ColumnExtractor::ReadyReplicas), "2/3");
    assert_eq!(shown(&obj, ColumnExtractor::SpecType), "NodePort");
    assert_eq!(shown(&obj, ColumnExtractor::ClusterIP), "10.0.0.1");
    assert_eq!(shown(&obj, ColumnExtractor::JsonPath("data.k".into())), "[1,true,null]");
}

#[test]
fn rows_are_sorted_by_name() {
    let mut data = make_test_resource_data();
    data.objects.reverse();
    data.extract_rows(NOW);
    assert_eq!(data.row_count(), 2);
    assert_eq!(data.rows[0], vec!["nginx", "default", "2/3", "<unknown>"]);
    assert_eq!(data.rows[1][0], "redis");
}

#[test]
fn filtered_rows_keep_their_positions() {
    let mut data = make_test_resource_data();
    data.extract_rows(NOW);
    let rows = data.filtered_rows(Some("kube"));
    assert_eq!(rows.len(), 1);
    assert_eq!(rows[0].0, 1);
    assert_eq!(rows[0].1[0], "redis");
    assert_eq!(data.filtered_rows(Some("")).len(), 2);
    assert_eq!(data.filtered_rows(None).len(), data.filtered_count(None));
}

#[test]
fn a_new_view_holds_nothing() {
    let data = make_test_resource_data();
    let fresh = DynamicResourceData::new(data.resource);
    assert!(fresh.objects.is_empty() && fresh.rows.is_empty() && !fresh.fetched);
}

// --- Resolution ---

#[test]
fn aliases_resolve_without_the_api() {
    match resolve_resource("  Deploy ") {
        Resolution::Known(r) => {
            assert_eq!(r.api_resource.api_version, "apps/v1");
            assert_eq!(r.display_name, "Deployments");
            assert_eq!(r.command_alias, "deploy");
            assert!(r.namespaced);
        }
        Resolution::Unknown(name) => panic!("unknown {}", name),
    }
    match resolve_resource("po") {
        Resolution::Known(r) => assert_eq!(r.api_resource.api_version, "v1"),
        Resolution::Unknown(name) => panic!("unknown {}", name),
    }
    match resolve_resource("Widgets ") {
        Resolution::Known(_) => panic!("widgets are not built in"),
        Resolution::Unknown(name) => assert_eq!(name, "widgets"),
    }
}

#[test]
fn other_names_resolve_among_what_the_api_serves() {
    let widget = |kind: &str, plural: &str| ApiResource {
        group: "x.io".into(),
        version: "v1".into(),
        api_version: "x.io/v1".into(),
        kind: kind.into(),
        plural: plural.into(),
    };
    let served = vec![
        (widget("Gadget", "gadgets"), false),
        (widget("Widget", "widgets"), true),
    ];
    let found = resolve_via_discovery(&served, "widgets").unwrap();
    assert_eq!(found.display_name, "Widget");
    assert!(found.namespaced);
    assert_eq!(resolve_via_discovery(&served, "gad").unwrap().api_resource.kind, "Gadget");
    assert_eq!(
        resolve_via_discovery(&served, "nope").unwrap_err(),
        "Unknown resource type: nope"
    );
}

#[test]
fn scopes_follow_the_namespace() {
    assert!(matches!(list_scope(true, None), Scope::Cluster));
    assert!(matches!(list_scope(false, Some("ns")), Scope::Cluster));
    assert!(matches!(list_scope(true, Some("ns")), Scope::Namespace(s) if s == "ns"));
    assert!(matches!(object_scope(false, "Nodes", None), Ok(Scope::Cluster)));
    assert!(matches!(object_scope(true, "Pods", Some("ns")), Ok(Scope::Namespace(s)) if s == "ns"));
    assert_eq!(
        object_scope(true, "Pods", None).unwrap_err(),
        "Namespace required for namespaced resource 'Pods'"
    );
}

#[test]
fn known_kinds_are_described() {
    let (api, scope) = describe_target("Ingress", None).unwrap();
    assert_eq!(api.api_version, "networking.k8s.io/v1");
    assert_eq!(api.plural, "ingresses");
    assert!(matches!(scope, Scope::DefaultNamespace));
    let (api, scope) = describe_target("Node", Some("ns")).unwrap();
    assert_eq!(api.api_version, "v1");
    assert!(matches!(scope, Scope::Cluster));
    assert_eq!(
        describe_target("Widget", None).unwrap_err(),
        "Unknown resource kind: Widget"
    );
}

// --- Descriptions ---

#[test]
fn a_description_in_full() {
    let obj = DynamicObject {
        namespace: Some("prod".to_string()),
        created: Some(Timestamp { secs: 0, nanos: 0 }),
        owners: pairs(&[("ReplicaSet", "web-1")]),
        finalizers: Some(vec!["keep".to_string()]),
        ..bare_obj(
            "web",
            json(r#"{"spec": {"list": [1, {"a": null}], "on": true}, "data": {}}"#),
        )
    };
    assert_eq!(
        format_describe(&obj, "Pod"),
        "Name:         web\nNamespace:    prod\nKind:         Pod\n\
         Created:      1970-01-01 00:00:00 UTC\n\
         Labels:       <none>\nAnnotations:  <none>\n\
         Controlled By:\n  ReplicaSet / web-1\nFinalizers:\n  keep\n\n\
         Spec:\n  list:\n  - 1\n  - [1]\n      a:  <none>\n  on:  true\n\n\
         Data:\n  <empty>\n\n\
         Events:       <use :events to view cluster events>\n"
    );
}

#[test]
fn all_names_of_a_resource_agree() {
    for names in [
        ["po", "pod", "pods"],
        ["ep", "endpoint", "endpoints"],
        ["deploy", "deployment", "deployments"],
        ["netpol", "networkpolicy", "networkpolicies"],
        ["crd", "customresourcedefinition", "customresourcedefinitions"],
    ] {
        let found = builtin_alias(names[0]).unwrap();
        for name in names {
            assert_eq!(builtin_alias(name), Some(found));
        }
        assert_eq!(builtin_alias(found.2), Some(found));
        assert_eq!(builtin_alias(&found.3.to_lowercase()), Some(found));
        assert_eq!(found.1, "v1");
    }
    assert_eq!(builtin_alias("foobar"), None);
}
