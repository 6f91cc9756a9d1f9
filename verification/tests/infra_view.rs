use scalex_dash::app::App;
use scalex_dash::data::{ClusterSnapshot, HealthStatus, NodeInfo, ResourceUsage};
use scalex_dash::display::{Area, Color};
use scalex_dash::infra::{InfraSnapshot, SdiPoolInfo, SdiVmInfo};
use scalex_dash::infra_view::{
    collect_host_boxes, grid_cells, grid_shape, place_boxes, render_host_box, render_infra_view,
    BoxUsage, InfraFrame, UsageText,
};

fn make_infra(pools: Vec<SdiPoolInfo>) -> InfraSnapshot {
    let total_vms = pools.iter().map(|p| p.nodes.len()).sum();
    let running_vms = pools
        .iter()
        .flat_map(|p| &p.nodes)
        .filter(|vm| vm.status == "running")
        .count();
    InfraSnapshot {
        sdi_pools: pools,
        total_vms,
        running_vms,
    }
}

fn make_vm(name: &str, host: &str, ip: &str, cpu: u32, mem_gb: u32) -> SdiVmInfo {
    SdiVmInfo {
        name: name.into(),
        ip: ip.into(),
        host: host.into(),
        cpu,
        mem_gb,
        disk_gb: 80,
        status: "running".into(),
        gpu: false,
    }
}

fn make_node(name: &str, ip: &str) -> NodeInfo {
    NodeInfo {
        name: name.into(),
        internal_ip: ip.into(),
        cpu_capacity: "8".into(),
        mem_capacity: "16Gi".into(),
        ..Default::default()
    }
}

fn make_snapshot(name: &str, nodes: Vec<NodeInfo>) -> ClusterSnapshot {
    ClusterSnapshot {
        name: name.into(),
        health: HealthStatus::Green,
        namespaces: vec![],
        nodes,
        pods: vec![],
        deployments: vec![],
        services: vec![],
        configmaps: vec![],
        events: vec![],
        resource_usage: ResourceUsage::default(),
    }
}

#[test]
fn collect_host_boxes_groups_by_host() {
    let mut app = App::new(vec![], 10);
    app.infra = make_infra(vec![SdiPoolInfo {
        pool_name: "tower".into(),
        purpose: "mgmt".into(),
        nodes: vec![
            make_vm("tower-cp-0", "playbox-0", "10.0.0.1", 4, 8),
            make_vm("tower-cp-1", "playbox-1", "10.0.0.2", 4, 8),
        ],
    }]);

    let boxes = collect_host_boxes(&app);
    assert_eq!(boxes.len(), 2);
    assert_eq!(boxes[0].host, "playbox-0");
    assert_eq!(boxes[0].vms.len(), 1);
    assert_eq!(boxes[1].host, "playbox-1");
    assert_eq!(boxes[1].vms.len(), 1);
}

#[test]
fn collect_host_boxes_filters_by_pool() {
    let mut app = App::new(vec![], 10);
    app.infra = make_infra(vec![
        SdiPoolInfo {
            pool_name: "tower".into(),
            purpose: "mgmt".into(),
            nodes: vec![make_vm("tower-cp-0", "playbox-0", "10.0.0.1", 4, 8)],
        },
        SdiPoolInfo {
            pool_name: "sandbox".into(),
            purpose: "workload".into(),
            nodes: vec![make_vm("sandbox-w-0", "playbox-0", "10.0.0.3", 4, 8)],
        },
    ]);
    app.selected_sdi_pool = Some("sandbox".into());

    let boxes = collect_host_boxes(&app);
    assert_eq!(boxes.len(), 1); // both VMs on playbox-0
    assert_eq!(boxes[0].vms.len(), 2);
    // sandbox VM should be in_selected_pool, tower VM should not
    let sandbox_vm = boxes[0]
        .vms
        .iter()
        .find(|v| v.name == "sandbox-w-0")
        .unwrap();
    let tower_vm = boxes[0]
        .vms
        .iter()
        .find(|v| v.name == "tower-cp-0")
        .unwrap();
    assert!(sandbox_vm.in_selected_pool);
    assert!(!tower_vm.in_selected_pool);
    assert!(boxes[0].has_active_vms);
}

#[test]
fn vm_to_node_mapping_by_ip() {
    let mut app = App::new(vec![], 10);
    app.infra = make_infra(vec![SdiPoolInfo {
        pool_name: "tower".into(),
        purpose: "mgmt".into(),
        nodes: vec![make_vm("tower-cp-0", "playbox-0", "10.0.0.1", 4, 8)],
    }]);
    app.snapshots = vec![make_snapshot(
        "tower",
        vec![make_node("tower-cp-0", "10.0.0.1")],
    )];

    let boxes = collect_host_boxes(&app);
    assert_eq!(boxes.len(), 1);
    let vm = &boxes[0].vms[0];
    let usage = [[(Some(25.0), Some(50.0))]];
    let metrics = vm.node.map(|(i, j)| usage[i][j]);
    assert_eq!(metrics, Some((Some(25.0), Some(50.0))));
    assert_eq!(vm.cluster_name.as_deref(), Some("tower"));
}

#[test]
fn collect_empty_infra() {
    let app = App::new(vec![], 10);
    let boxes = collect_host_boxes(&app);
    assert!(boxes.is_empty());
}

#[test]
fn vm_no_metrics_shows_none() {
    let mut app = App::new(vec![], 10);
    app.infra = make_infra(vec![SdiPoolInfo {
        pool_name: "tower".into(),
        purpose: "mgmt".into(),
        nodes: vec![make_vm("tower-cp-0", "playbox-0", "10.0.0.1", 4, 8)],
    }]);
    // No snapshots → no metrics match

    let boxes = collect_host_boxes(&app);
    assert_eq!(boxes[0].vms[0].node, None);
    assert_eq!(boxes[0].vms[0].cluster_name, None);
}

#[test]
fn host_box_has_no_active_vms_when_pool_filtered() {
    let mut app = App::new(vec![], 10);
    app.infra = make_infra(vec![SdiPoolInfo {
        pool_name: "tower".into(),
        purpose: "mgmt".into(),
        nodes: vec![make_vm("tower-cp-0", "playbox-0", "10.0.0.1", 4, 8)],
    }]);
    app.selected_sdi_pool = Some("sandbox".into());

    let boxes = collect_host_boxes(&app);
    assert!(!boxes[0].has_active_vms);
}

#[test]
fn machines_are_numbered_through() {
    let mut app = App::new(vec![], 10);
    app.infra = make_infra(vec![SdiPoolInfo {
        pool_name: "tower".into(),
        purpose: "mgmt".into(),
        nodes: vec![
            make_vm("b-0", "host-b", "", 1, 1),
            make_vm("a-0", "host-a", "", 2, 4),
            make_vm("a-1", "host-a", "", 3, 8),
        ],
    }]);
    let boxes = collect_host_boxes(&app);
    assert_eq!(boxes[0].host, "host-a");
    assert_eq!(boxes[0].total_cpu, 5);
    assert_eq!(boxes[0].total_mem_gb, 12);
    assert_eq!(boxes[0].vms[1].flat_index, 1);
    assert_eq!(boxes[1].vms[0].flat_index, 2);
    app.selected_sdi_pool = Some("other".into());
    assert_eq!(collect_host_boxes(&app)[0].vms[0].flat_index, usize::MAX);
}

#[test]
fn a_box_shows_its_machines() {
    let mut app = App::new(vec![], 10);
    let mut vm = make_vm("a-0", "host-a", "", 2, 4);
    vm.gpu = true;
    app.infra = make_infra(vec![SdiPoolInfo {
        pool_name: "tower".into(),
        purpose: "mgmt".into(),
        nodes: vec![vm],
    }]);
    let boxes = collect_host_boxes(&app);
    let inner = Area { x: 0, y: 0, width: 40, height: 10 };
    let used = Some(UsageText { cpu: "25".into(), mem: "50".into() });
    let frame = render_host_box(&boxes[0], inner, 0, &None, &vec![used]);
    assert_eq!(frame.title, " host-a ");
    assert_eq!(frame.border, Color::BrightBlue);
    let lines: Vec<String> = frame.lines.unwrap().iter().map(|l| l.plain_text()).collect();
    assert_eq!(
        lines,
        vec![
            " Total: 2c / 4Gi",
            " Used:  N/A",
            "",
            " a-0 [running] ● GPU",
            " 2c 4Gi 80Gi  CPU:25% M:50%",
        ]
    );
    let small = Area { x: 0, y: 0, width: 9, height: 10 };
    assert!(render_host_box(&boxes[0], small, 0, &None, &vec![None]).lines.is_none());
    let narrow = Area { x: 0, y: 0, width: 22, height: 10 };
    let lines = render_host_box(&boxes[0], narrow, 0, &None, &vec![None]).lines.unwrap();
    assert_eq!(lines[3].spans[0].content, " a-0");
}

#[test]
fn at_most_four_boxes_are_shown() {
    assert_eq!(grid_shape(1), (1, 1));
    assert_eq!(grid_shape(2), (1, 2));
    assert_eq!(grid_shape(3), (2, 2));
    assert_eq!(grid_shape(9), (2, 2));
}

fn no_usage() -> BoxUsage {
    BoxUsage { host: None, machines: vec![None] }
}

fn area(x: u16, y: u16, width: u16, height: u16) -> Area {
    Area { x, y, width, height }
}

#[test]
fn the_screen_is_split_into_equal_cells() {
    let whole = area(2, 1, 80, 24);
    assert_eq!(grid_cells(whole, 1), vec![whole]);
    assert_eq!(grid_cells(whole, 2), vec![area(2, 1, 40, 24), area(42, 1, 40, 24)]);
    assert_eq!(
        grid_cells(whole, 5),
        vec![
            area(2, 1, 40, 12),
            area(42, 1, 40, 12),
            area(2, 13, 40, 12),
            area(42, 13, 40, 12),
        ]
    );
}

#[test]
fn boxes_fill_the_grid_row_by_row() {
    let mut app = App::new(vec![], 10);
    let hosts = ["host-a", "host-b", "host-c"];
    app.infra = make_infra(vec![SdiPoolInfo {
        pool_name: "tower".into(),
        purpose: "mgmt".into(),
        nodes: hosts.iter().map(|h| make_vm("vm", h, "", 2, 4)).collect(),
    }]);
    let boxes = collect_host_boxes(&app);
    let usage = vec![no_usage(), no_usage(), no_usage()];
    let placed = match render_infra_view(&boxes, area(0, 0, 80, 24), 0, &usage) {
        InfraFrame::Boxes(placed) => placed,
        InfraFrame::Empty(_) => panic!("there are machines"),
    };
    assert_eq!(placed.len(), 3);
    assert_eq!(placed[2].frame.title, " host-c ");
    assert_eq!(placed[2].area, area(0, 12, 40, 12));
    assert_eq!(placed[2].inner, area(1, 13, 38, 10));
    assert_eq!(placed[0].frame.lines.as_ref().map(|l| l.len()), Some(5));

    let one = place_boxes(&boxes, &vec![area(0, 0, 5, 5)], 0, &usage);
    assert_eq!(one.len(), 1);
    assert!(one[0].frame.lines.is_none());
}

#[test]
fn without_machines_a_line_says_so() {
    match render_infra_view(&vec![], area(0, 0, 80, 24), 0, &vec![]) {
        InfraFrame::Empty(line) => assert_eq!(
            line.plain_text(),
            "  No SDI infrastructure data. Run 'scalex sdi init' first."
        ),
        InfraFrame::Boxes(_) => panic!("there are no machines"),
    }
}

#[test]
fn the_first_cell_has_the_greater_half() {
    for size in (0..=300).chain([1001, 4097, 32767, 65000, 65001]) {
        for start in [0, 1, 7, 90, 500] {
            let half = (size + 1) / 2;
            let cells = grid_cells(area(start, 3, size, size), 4);
            assert_eq!(
                cells,
                vec![
                    area(start, 3, half, half),
                    area(start + half, 3, size - half, half),
                    area(start, 3 + half, half, size - half),
                    area(start + half, 3 + half, size - half, size - half),
                ]
            );
        }
    }
}
