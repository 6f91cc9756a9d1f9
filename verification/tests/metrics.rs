use scalex_dash::describe::DynamicObject;
use scalex_dash::json::{Json, JsonNumber};
use scalex_dash::metrics::{read_node_usage, read_pod_usage, read_rss_text};

/// Converts a parsed value.
fn to_json(v: &serde_json::Value) -> Json {
    match v {
        serde_json::Value::Null => Json::Null,
        serde_json::Value::Bool(b) => Json::Bool(*b),
        serde_json::Value::Number(n) => Json::Number(JsonNumber {
            text: n.to_string(),
            as_i64: n.as_i64(),
            as_u64: n.as_u64(),
        }),
        serde_json::Value::String(s) => Json::Text(s.clone()),
        serde_json::Value::Array(items) => Json::Array {
            items: items.iter().map(to_json).collect(),
            line: v.to_string(),
        },
        serde_json::Value::Object(members) => Json::Object {
            members: members.iter().map(|(k, m)| (k.clone(), to_json(m))).collect(),
            line: v.to_string(),
        },
    }
}

/// Parses a text.
fn json(text: &str) -> Json {
    to_json(&serde_json::from_str(text).unwrap())
}

fn obj(data: &str) -> DynamicObject {
    DynamicObject {
        name: Some("n1".into()),
        namespace: Some("ns".into()),
        created: None,
        uid: None,
        resource_version: None,
        labels: None,
        annotations: None,
        owners: None,
        finalizers: None,
        data: json(data),
    }
}

#[test]
fn node_usage_needs_both_parts() {
    let usage = read_node_usage(&obj(r#"{"usage": {"cpu": "250m", "memory": "1Gi"}}"#)).unwrap();
    assert_eq!(usage.name, "n1");
    assert_eq!(usage.cpu, "250m");
    assert_eq!(usage.memory, "1Gi");
    assert!(read_node_usage(&obj(r#"{"usage": {"cpu": "250m"}}"#)).is_none());
    assert!(read_node_usage(&obj("{}")).is_none());
}

#[test]
fn pod_usage_collects_containers() {
    let usage = read_pod_usage(&obj(
        r#"{"containers": [{"usage": {"cpu": "1m"}}, {"usage": {"cpu": "2m", "memory": "3Ki"}}]}"#,
    ))
    .unwrap();
    assert_eq!(usage.cpu, vec!["1m", "2m"]);
    assert_eq!(usage.memory, vec!["3Ki"]);
    assert_eq!(usage.namespace, "ns");
    assert!(read_pod_usage(&obj(r#"{"containers": [{"usage": {}}, {}]}"#)).is_none());
    assert!(read_pod_usage(&obj("{}")).is_none());
}

#[test]
fn resident_memory_is_read_from_its_line() {
    let status = "Name:\tdash\nVmPeak:\t  999 kB\nVmRSS:\t   12345 kB\n";
    assert_eq!(read_rss_text(status).as_deref(), Some("12345"));
    assert_eq!(read_rss_text("VmRSS:\n"), None);
    assert_eq!(read_rss_text(""), None);
}
