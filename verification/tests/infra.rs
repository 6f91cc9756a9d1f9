use scalex_dash::infra::{
    build_vm_node_map, load_sdi_state, node_state_to_vm_info, InfraSnapshot, SdiNodeState,
    SdiPoolInfo, SdiPoolState, SdiVmInfo,
};

fn node(name: &str, status: &str) -> SdiNodeState {
    SdiNodeState {
        node_name: name.into(),
        ip: "10.0.0.100".into(),
        host: "node-0".into(),
        cpu: 2,
        mem_gb: 4,
        disk_gb: 30,
        status: status.into(),
        gpu_passthrough: false,
    }
}

#[test]
fn load_sdi_state_returns_default_for_missing_dir() {
    let snap = load_sdi_state(None);
    assert!(snap.sdi_pools.is_empty());
    assert_eq!(snap.total_vms, 0);
}

#[test]
fn load_sdi_state_returns_default_for_empty_dir() {
    let snap = load_sdi_state(Some(vec![]));
    assert!(snap.sdi_pools.is_empty());
}

#[test]
fn load_sdi_state_parses_json_file() {
    let snap = load_sdi_state(Some(vec![SdiPoolState {
        pool_name: "tower".into(),
        purpose: "management".into(),
        nodes: vec![node("tower-cp-0", "running")],
    }]));
    assert_eq!(snap.sdi_pools.len(), 1);
    assert_eq!(snap.sdi_pools[0].pool_name, "tower");
    assert_eq!(snap.total_vms, 1);
    assert_eq!(snap.running_vms, 1);
}

#[test]
fn build_vm_node_map_works() {
    let infra = InfraSnapshot {
        sdi_pools: vec![SdiPoolInfo {
            pool_name: "tower".into(),
            purpose: "mgmt".into(),
            nodes: vec![SdiVmInfo {
                name: "tower-cp-0".into(),
                ip: "10.0.0.100".into(),
                host: "node-0".into(),
                cpu: 2,
                mem_gb: 4,
                disk_gb: 30,
                status: "running".into(),
                gpu: false,
            }],
        }],
        total_vms: 1,
        running_vms: 1,
    };
    let map = build_vm_node_map(&infra);
    assert_eq!(map, vec![("tower-cp-0".into(), "tower".into())]);
}

#[test]
fn pools_are_sorted_and_counted() {
    let pool = |name: &str, nodes: Vec<SdiNodeState>| SdiPoolState {
        pool_name: name.into(),
        purpose: "p".into(),
        nodes,
    };
    let snap = load_sdi_state(Some(vec![
        pool("b", vec![node("b-0", "running"), node("b-1", "stopped")]),
        pool("a", vec![node("a-0", "running")]),
    ]));
    assert_eq!(snap.sdi_pools[0].pool_name, "a");
    assert_eq!(snap.total_vms, 3);
    assert_eq!(snap.running_vms, 2);
    assert_eq!(node_state_to_vm_info(&node("x", "running")).name, "x");
}
