use scalex_dash::objects::{
    Container, DeclaredPort, IntOrString, ObjectMeta, Pod, PodSpec, Service, ServicePortSpec,
    ServiceSpec,
};
use scalex_dash::port_detect::{
    extract_all_pod_ports, extract_all_service_ports, extract_pod_ports, extract_service_ports,
    resolve_named_port, ContainerPort, ServicePort, TargetPort,
};

fn meta(name: Option<&str>, ns: Option<&str>) -> ObjectMeta {
    ObjectMeta {
        name: name.map(String::from),
        namespace: ns.map(String::from),
        created: None,
        deleting: false,
        label_keys: vec![],
    }
}

fn make_pod(name: &str, ns: &str, containers: Vec<Container>) -> Pod {
    Pod {
        meta: meta(Some(name), Some(ns)),
        spec: Some(PodSpec {
            init_containers: None,
            containers,
            node_name: None,
        }),
        status: None,
    }
}

fn make_container(name: &str, ports: Vec<DeclaredPort>) -> Container {
    Container {
        name: name.into(),
        image: None,
        ports: if ports.is_empty() { None } else { Some(ports) },
    }
}

fn make_k8s_port(port: i32, name: Option<&str>, protocol: Option<&str>) -> DeclaredPort {
    DeclaredPort {
        container_port: port,
        name: name.map(String::from),
        protocol: protocol.map(String::from),
    }
}

fn make_service(name: &str, ns: &str, ports: Vec<ServicePortSpec>) -> Service {
    Service {
        meta: meta(Some(name), Some(ns)),
        spec: Some(ServiceSpec {
            kind: None,
            cluster_ip: None,
            ports: if ports.is_empty() { None } else { Some(ports) },
        }),
        ingress: None,
    }
}

fn make_svc_port(
    port: i32,
    target_port: Option<IntOrString>,
    name: Option<&str>,
    node_port: Option<i32>,
) -> ServicePortSpec {
    ServicePortSpec {
        port,
        target_port,
        name: name.map(String::from),
        node_port,
        protocol: Some("TCP".into()),
    }
}

// ── Pod port extraction tests ──

#[test]
fn extract_single_container_port() {
    let pod = make_pod(
        "nginx",
        "default",
        vec![make_container("nginx", vec![make_k8s_port(80, Some("http"), None)])],
    );
    let ports = extract_pod_ports(&pod);
    assert_eq!(ports.len(), 1);
    assert_eq!(ports[0].pod_name, "nginx");
    assert_eq!(ports[0].namespace, "default");
    assert_eq!(ports[0].container_name, "nginx");
    assert_eq!(ports[0].container_port, 80);
    assert_eq!(ports[0].protocol, "TCP");
    assert_eq!(ports[0].port_name, Some("http".into()));
}

#[test]
fn extract_multiple_container_ports() {
    let pod = make_pod(
        "web",
        "prod",
        vec![make_container(
            "web",
            vec![
                make_k8s_port(8080, Some("http"), Some("TCP")),
                make_k8s_port(8443, Some("https"), Some("TCP")),
                make_k8s_port(9090, Some("metrics"), Some("TCP")),
            ],
        )],
    );
    let ports = extract_pod_ports(&pod);
    assert_eq!(ports.len(), 3);
    assert_eq!(ports[0].container_port, 8080);
    assert_eq!(ports[1].container_port, 8443);
    assert_eq!(ports[2].container_port, 9090);
}

#[test]
fn extract_multi_container_pod_ports() {
    let pod = make_pod(
        "sidecar-pod",
        "default",
        vec![
            make_container("app", vec![make_k8s_port(8080, None, None)]),
            make_container("envoy", vec![make_k8s_port(15001, None, None)]),
        ],
    );
    let ports = extract_pod_ports(&pod);
    assert_eq!(ports.len(), 2);
    assert_eq!(ports[0].container_name, "app");
    assert_eq!(ports[0].container_port, 8080);
    assert_eq!(ports[1].container_name, "envoy");
    assert_eq!(ports[1].container_port, 15001);
}

#[test]
fn extract_pod_no_ports() {
    let pod = make_pod(
        "no-ports",
        "default",
        vec![make_container("app", vec![])],
    );
    let ports = extract_pod_ports(&pod);
    assert!(ports.is_empty());
}

#[test]
fn extract_pod_no_spec() {
    let pod = Pod {
        meta: meta(Some("empty"), Some("default")),
        spec: None,
        status: None,
    };
    let ports = extract_pod_ports(&pod);
    assert!(ports.is_empty());
}

#[test]
fn extract_pod_with_init_containers() {
    let mut pod = make_pod(
        "init-pod",
        "default",
        vec![make_container("app", vec![make_k8s_port(8080, None, None)])],
    );
    pod.spec.as_mut().unwrap().init_containers = Some(vec![make_container(
        "init-db",
        vec![make_k8s_port(5432, Some("postgres"), Some("TCP"))],
    )]);
    let ports = extract_pod_ports(&pod);
    assert_eq!(ports.len(), 2);
    assert_eq!(ports[0].container_name, "init-db");
    assert_eq!(ports[0].container_port, 5432);
    assert_eq!(ports[1].container_name, "app");
    assert_eq!(ports[1].container_port, 8080);
}

#[test]
fn extract_pod_udp_protocol() {
    let pod = make_pod(
        "dns",
        "kube-system",
        vec![make_container(
            "coredns",
            vec![make_k8s_port(53, Some("dns"), Some("UDP"))],
        )],
    );
    let ports = extract_pod_ports(&pod);
    assert_eq!(ports.len(), 1);
    assert_eq!(ports[0].protocol, "UDP");
}

// ── Service port extraction tests ──

#[test]
fn extract_service_with_numeric_target_port() {
    let svc = make_service(
        "web-svc",
        "default",
        vec![make_svc_port(80, Some(IntOrString::Int(8080)), Some("http"), None)],
    );
    let ports = extract_service_ports(&svc);
    assert_eq!(ports.len(), 1);
    assert_eq!(ports[0].service_name, "web-svc");
    assert_eq!(ports[0].port, 80);
    assert_eq!(ports[0].target_port, TargetPort::Number(8080));
    assert_eq!(ports[0].port_name, Some("http".into()));
}

#[test]
fn extract_service_with_named_target_port() {
    let svc = make_service(
        "api-svc",
        "prod",
        vec![make_svc_port(
            443,
            Some(IntOrString::Text("https".into())),
            Some("https"),
            None,
        )],
    );
    let ports = extract_service_ports(&svc);
    assert_eq!(ports.len(), 1);
    assert_eq!(ports[0].target_port, TargetPort::Name("https".into()));
}

#[test]
fn extract_service_default_target_port() {
    // When targetPort is not specified, it defaults to port
    let svc = make_service(
        "simple-svc",
        "default",
        vec![make_svc_port(3000, None, None, None)],
    );
    let ports = extract_service_ports(&svc);
    assert_eq!(ports.len(), 1);
    assert_eq!(ports[0].port, 3000);
    assert_eq!(ports[0].target_port, TargetPort::Number(3000));
}

#[test]
fn extract_service_with_node_port() {
    let svc = make_service(
        "nodeport-svc",
        "default",
        vec![make_svc_port(80, Some(IntOrString::Int(8080)), Some("http"), Some(30080))],
    );
    let ports = extract_service_ports(&svc);
    assert_eq!(ports.len(), 1);
    assert_eq!(ports[0].node_port, Some(30080));
}

#[test]
fn extract_service_multiple_ports() {
    let svc = make_service(
        "multi-svc",
        "default",
        vec![
            make_svc_port(80, Some(IntOrString::Int(8080)), Some("http"), None),
            make_svc_port(443, Some(IntOrString::Int(8443)), Some("https"), None),
        ],
    );
    let ports = extract_service_ports(&svc);
    assert_eq!(ports.len(), 2);
    assert_eq!(ports[0].port, 80);
    assert_eq!(ports[1].port, 443);
}

#[test]
fn extract_service_no_ports() {
    let svc = make_service("headless", "default", vec![]);
    let ports = extract_service_ports(&svc);
    assert!(ports.is_empty());
}

#[test]
fn extract_service_no_spec() {
    let svc = Service {
        meta: meta(Some("empty"), Some("default")),
        spec: None,
        ingress: None,
    };
    let ports = extract_service_ports(&svc);
    assert!(ports.is_empty());
}

// ── Named port resolution tests ──

#[test]
fn resolve_named_port_found() {
    let pod = make_pod(
        "web",
        "default",
        vec![make_container("web", vec![make_k8s_port(8080, Some("http"), None)])],
    );
    assert_eq!(resolve_named_port(&pod, "http"), Some(8080));
}

#[test]
fn resolve_named_port_not_found() {
    let pod = make_pod(
        "web",
        "default",
        vec![make_container("web", vec![make_k8s_port(8080, Some("http"), None)])],
    );
    assert_eq!(resolve_named_port(&pod, "grpc"), None);
}

#[test]
fn resolve_named_port_no_spec() {
    let pod = Pod {
        meta: meta(None, None),
        spec: None,
        status: None,
    };
    assert_eq!(resolve_named_port(&pod, "http"), None);
}

#[test]
fn resolve_named_port_in_init_container() {
    let mut pod = make_pod("pod", "default", vec![make_container("app", vec![])]);
    pod.spec.as_mut().unwrap().init_containers = Some(vec![make_container(
        "init",
        vec![make_k8s_port(5432, Some("pg"), None)],
    )]);
    assert_eq!(resolve_named_port(&pod, "pg"), Some(5432));
}

// ── Display format tests ──

#[test]
fn container_port_display_with_name() {
    let port = ContainerPort {
        pod_name: "p".into(),
        namespace: "ns".into(),
        container_name: "c".into(),
        container_port: 8080,
        protocol: "TCP".into(),
        port_name: Some("http".into()),
    };
    assert_eq!(port.to_text(), "8080/TCP (http)");
}

#[test]
fn container_port_display_without_name() {
    let port = ContainerPort {
        pod_name: "p".into(),
        namespace: "ns".into(),
        container_name: "c".into(),
        container_port: 9090,
        protocol: "TCP".into(),
        port_name: None,
    };
    assert_eq!(port.to_text(), "9090/TCP");
}

#[test]
fn service_port_display_same_target() {
    let port = ServicePort {
        service_name: "s".into(),
        namespace: "ns".into(),
        port: 80,
        target_port: TargetPort::Number(80),
        protocol: "TCP".into(),
        port_name: None,
        node_port: None,
    };
    // When target_port == port, no arrow shown
    assert_eq!(port.to_text(), "80/TCP");
}

#[test]
fn service_port_display_different_target() {
    let port = ServicePort {
        service_name: "s".into(),
        namespace: "ns".into(),
        port: 80,
        target_port: TargetPort::Number(8080),
        protocol: "TCP".into(),
        port_name: Some("http".into()),
        node_port: None,
    };
    assert_eq!(port.to_text(), "80→8080/TCP (http)");
}

#[test]
fn service_port_display_with_node_port() {
    let port = ServicePort {
        service_name: "s".into(),
        namespace: "ns".into(),
        port: 80,
        target_port: TargetPort::Number(8080),
        protocol: "TCP".into(),
        port_name: None,
        node_port: Some(30080),
    };
    assert_eq!(port.to_text(), "80→8080:30080/TCP");
}

#[test]
fn service_port_display_named_target() {
    let port = ServicePort {
        service_name: "s".into(),
        namespace: "ns".into(),
        port: 80,
        target_port: TargetPort::Name("http".into()),
        protocol: "TCP".into(),
        port_name: None,
        node_port: None,
    };
    assert_eq!(port.to_text(), "80→http/TCP");
}

#[test]
fn target_port_display() {
    assert_eq!(TargetPort::Number(8080).to_text(), "8080");
    assert_eq!(TargetPort::Name("http".into()).to_text(), "http");
}

#[test]
fn numbers_that_are_no_ports_are_left_out() {
    let pod = make_pod(
        "p",
        "ns",
        vec![make_container(
            "c",
            vec![
                make_k8s_port(-1, None, None),
                make_k8s_port(65535, None, None),
                make_k8s_port(65536, Some("big"), None),
            ],
        )],
    );
    let ports = extract_pod_ports(&pod);
    assert_eq!(ports.len(), 1);
    assert_eq!(ports[0].container_port, 65535);
    assert_eq!(resolve_named_port(&pod, "big"), None);
}

#[test]
fn target_ports_keep_their_low_bits() {
    let svc = make_service(
        "s",
        "ns",
        vec![
            make_svc_port(80, Some(IntOrString::Int(65536 + 7)), None, Some(-1)),
            make_svc_port(81, Some(IntOrString::Int(-1)), None, None),
            make_svc_port(70000, None, None, None),
        ],
    );
    let ports = extract_service_ports(&svc);
    assert_eq!(ports.len(), 2);
    assert_eq!(ports[0].target_port, TargetPort::Number(7));
    assert_eq!(ports[0].node_port, None);
    assert_eq!(ports[1].target_port, TargetPort::Number(65535));
}

#[test]
fn ports_of_all_pods_and_services() {
    let pods = vec![
        make_pod("a", "ns", vec![make_container("x", vec![make_k8s_port(1, None, None)])]),
        make_pod("b", "ns", vec![make_container("y", vec![make_k8s_port(2, None, None)])]),
    ];
    let names: Vec<String> = extract_all_pod_ports(&pods).iter().map(|p| p.pod_name.clone()).collect();
    assert_eq!(names, vec!["a", "b"]);
    let svcs = vec![
        make_service("s", "ns", vec![make_svc_port(1, None, None, None)]),
        make_service("t", "ns", vec![]),
    ];
    let ports = extract_all_service_ports(&svcs);
    assert_eq!(ports.len(), 1);
    assert_eq!(ports[0].service_name, "s");
}

#[test]
fn named_targets_are_shown_by_name() {
    assert_eq!(TargetPort::Name("web".into()).to_text(), "web");
    assert_eq!(TargetPort::Number(8080).to_text(), "8080");
}
