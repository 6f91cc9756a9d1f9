//! The ports of pods and services, for port forwarding.
use vstd::prelude::*;
use crate::list::{collect, first_where, lemma_collect_step, lemma_first_index, lemma_take_all};
use crate::objects::{
    copy_or, copy_or_empty, is_text, text_is, text_or, Container, DeclaredPort, IntOrString, Pod,
    Service, ServicePortSpec,
};
use crate::text::{decimal, decimal_u64};

verus! {

broadcast use lemma_take_all;

// ---------------------------------------------------------------------------
// Ports
// ---------------------------------------------------------------------------

/// A port of a container.
#[derive(Debug, Clone, PartialEq, Eq, Hash)]
pub struct ContainerPort {
    pub pod_name: String,
    pub namespace: String,
    pub container_name: String,
    pub container_port: u16,
    pub protocol: String,
    pub port_name: Option<String>,
}

/// Where a service's port leads: a number, or the name of a container's port.
#[derive(Debug, Clone, PartialEq, Eq, Hash)]
pub enum TargetPort {
    Number(u16),
    Name(String),
}

/// A port of a service.
#[derive(Debug, Clone, PartialEq, Eq, Hash)]
pub struct ServicePort {
    pub service_name: String,
    pub namespace: String,
    /// The port that clients connect to.
    pub port: u16,
    /// The port of the pods that it leads to.
    pub target_port: TargetPort,
    pub protocol: String,
    pub port_name: Option<String>,
    /// The port of the nodes, where there is one.
    pub node_port: Option<u16>,
}

/// A text that may be missing, as a value.
pub open spec fn text_view(t: Option<String>) -> Option<Seq<char>> {
    match t {
        Some(s) => Some(s@),
        None => None,
    }
}

/// A container's port as a value.
#[verifier::ext_equal]
pub struct PortModel {
    pub pod_name: Seq<char>,
    pub namespace: Seq<char>,
    pub container_name: Seq<char>,
    pub container_port: u16,
    pub protocol: Seq<char>,
    pub port_name: Option<Seq<char>>,
}

impl View for ContainerPort {
    type V = PortModel;

    open spec fn view(&self) -> PortModel {
        PortModel {
            pod_name: self.pod_name@,
            namespace: self.namespace@,
            container_name: self.container_name@,
            container_port: self.container_port,
            protocol: self.protocol@,
            port_name: text_view(self.port_name),
        }
    }
}

/// Ports as values.
pub open spec fn ports_model(s: Seq<ContainerPort>) -> Seq<PortModel> {
    s.map_values(|p: ContainerPort| p@)
}

/// Where a service's port leads, as a value.
#[verifier::ext_equal]
pub enum TargetModel {
    Number(u16),
    Name(Seq<char>),
}

impl View for TargetPort {
    type V = TargetModel;

    open spec fn view(&self) -> TargetModel {
        match *self {
            TargetPort::Number(n) => TargetModel::Number(n),
            TargetPort::Name(s) => TargetModel::Name(s@),
        }
    }
}

/// A service's port as a value.
#[verifier::ext_equal]
pub struct ServicePortModel {
    pub service_name: Seq<char>,
    pub namespace: Seq<char>,
    pub port: u16,
    pub target_port: TargetModel,
    pub protocol: Seq<char>,
    pub port_name: Option<Seq<char>>,
    pub node_port: Option<u16>,
}

impl View for ServicePort {
    type V = ServicePortModel;

    open spec fn view(&self) -> ServicePortModel {
        ServicePortModel {
            service_name: self.service_name@,
            namespace: self.namespace@,
            port: self.port,
            target_port: self.target_port@,
            protocol: self.protocol@,
            port_name: text_view(self.port_name),
            node_port: self.node_port,
        }
    }
}

/// Ports of services as values.
pub open spec fn service_ports_model(s: Seq<ServicePort>) -> Seq<ServicePortModel> {
    s.map_values(|p: ServicePort| p@)
}

// ---------------------------------------------------------------------------
// Ports of pods
// ---------------------------------------------------------------------------

/// Whether a number is a port.
pub open spec fn is_port(n: i32) -> bool {
    0 <= n <= u16::MAX
}

/// The port that a number is, if it is one.
fn port_of(n: i32) -> (r: Option<u16>)
    ensures
        r == if is_port(n) {
            Some(n as u16)
        } else {
            None::<u16>
        },
{
    if 0 <= n && n <= 0xffff {
        Some(n as u16)
    } else {
        None
    }
}

/// The test whether a declared port has a usable number.
pub open spec fn has_port() -> spec_fn(DeclaredPort) -> bool {
    |p: DeclaredPort| is_port(p.container_port)
}

/// A declared port of a pod's container.
pub open spec fn show_port(pod: Pod, container: Seq<char>) -> spec_fn(DeclaredPort) -> PortModel {
    |p: DeclaredPort|
        PortModel {
            pod_name: text_or(pod.meta.name, Seq::empty()),
            namespace: text_or(pod.meta.namespace, Seq::empty()),
            container_name: container,
            container_port: p.container_port as u16,
            protocol: text_or(p.protocol, "TCP"@),
            port_name: text_view(p.name),
        }
}

/// The ports that a container declares.
pub open spec fn declared_ports(c: Container) -> Seq<DeclaredPort> {
    match c.ports {
        Some(v) => v@,
        None => Seq::empty(),
    }
}

/// The usable ports of the first containers.
pub open spec fn ports_of(pod: Pod, containers: Seq<Container>, n: int) -> Seq<PortModel>
    decreases n,
{
    if n <= 0 {
        Seq::empty()
    } else {
        let c = containers[n - 1];
        ports_of(pod, containers, n - 1) + collect(
            declared_ports(c),
            has_port(),
            show_port(pod, c.name@),
        )
    }
}

/// The init containers of a pod.
pub open spec fn inits_of(pod: Pod) -> Seq<Container> {
    match pod.spec {
        Some(s) => match s.init_containers {
            Some(v) => v@,
            None => Seq::empty(),
        },
        None => Seq::empty(),
    }
}

/// The other containers of a pod.
pub open spec fn mains_of(pod: Pod) -> Seq<Container> {
    match pod.spec {
        Some(s) => s.containers@,
        None => Seq::empty(),
    }
}

/// The usable ports of a pod, those of init containers first.
pub open spec fn pod_ports(pod: Pod) -> Seq<PortModel> {
    ports_of(pod, inits_of(pod), inits_of(pod).len() as int) + ports_of(
        pod,
        mains_of(pod),
        mains_of(pod).len() as int,
    )
}

/// Adds the usable ports of a container.
fn add_ports(out: &mut Vec<ContainerPort>, pod: &Pod, c: &Container)
    ensures
        ports_model(final(out)@) == ports_model(old(out)@) + collect(
            declared_ports(*c),
            has_port(),
            show_port(*pod, c.name@),
        ),
{
    let ghost before = ports_model(out@);
    let ghost show = show_port(*pod, c.name@);
    match &c.ports {
        None => {
            proof {
                assert(before + collect(declared_ports(*c), has_port(), show) =~= before);
            }
        },
        Some(v) => {
            let mut i: usize = 0;
            proof {
                assert(before + collect(v@.take(0), has_port(), show) =~= before);
            }
            while i < v.len()
                invariant
                    i <= v@.len(),
                    show == show_port(*pod, c.name@),
                    ports_model(out@) == before + collect(v@.take(i as int), has_port(), show),
                decreases v@.len() - i,
            {
                let ghost so_far = out@;
                proof {
                    lemma_collect_step(v@, i as int, has_port(), show);
                }
                match port_of(v[i].container_port) {
                    Some(number) => {
                        let port = ContainerPort {
                            pod_name: copy_or_empty(&pod.meta.name),
                            namespace: copy_or_empty(&pod.meta.namespace),
                            container_name: c.name.clone(),
                            container_port: number,
                            protocol: copy_or(&v[i].protocol, "TCP"),
                            port_name: v[i].name.clone(),
                        };
                        proof {
                            assert(port@ =~= show(v@[i as int]));
                        }
                        out.push(port);
                        proof {
                            let shown = collect(v@.take(i as int), has_port(), show);
                            assert(ports_model(out@) =~= ports_model(so_far).push(port@));
                            assert((before + shown).push(port@) =~= before + shown.push(port@));
                        }
                    },
                    None => {},
                }
                i += 1;
            }
        },
    }
}

/// Adds the usable ports of containers.
fn add_all_ports(out: &mut Vec<ContainerPort>, pod: &Pod, containers: &Vec<Container>)
    ensures
        ports_model(final(out)@) == ports_model(old(out)@) + ports_of(
            *pod,
            containers@,
            containers@.len() as int,
        ),
{
    let ghost before = ports_model(out@);
    let mut i: usize = 0;
    proof {
        assert(before + ports_of(*pod, containers@, 0) =~= before);
    }
    while i < containers.len()
        invariant
            i <= containers@.len(),
            ports_model(out@) == before + ports_of(*pod, containers@, i as int),
        decreases containers@.len() - i,
    {
        add_ports(out, pod, &containers[i]);
        proof {
            let c = containers@[i as int];
            let more = collect(declared_ports(c), has_port(), show_port(*pod, c.name@));
            assert(before + ports_of(*pod, containers@, i as int) + more =~= before + (ports_of(
                *pod,
                containers@,
                i as int,
            ) + more));
        }
        i += 1;
    }
}

/// The usable ports of a pod, those of init containers first.
pub fn extract_pod_ports(pod: &Pod) -> (r: Vec<ContainerPort>)
    ensures
        ports_model(r@) == pod_ports(*pod),
{
    let mut ports: Vec<ContainerPort> = Vec::new();
    proof {
        assert(ports_model(ports@) =~= Seq::empty());
    }
    match &pod.spec {
        None => {
            proof {
                assert(pod_ports(*pod) =~= Seq::empty());
            }
        },
        Some(spec) => {
            match &spec.init_containers {
                Some(containers) => {
                    add_all_ports(&mut ports, pod, containers);
                },
                None => {},
            }
            proof {
                assert(ports_model(ports@) =~= ports_of(
                    *pod,
                    inits_of(*pod),
                    inits_of(*pod).len() as int,
                ));
            }
            add_all_ports(&mut ports, pod, &spec.containers);
        },
    }
    ports
}

/// The usable ports of the first pods.
pub open spec fn all_pod_ports(pods: Seq<Pod>, n: int) -> Seq<PortModel>
    decreases n,
{
    if n <= 0 {
        Seq::empty()
    } else {
        all_pod_ports(pods, n - 1) + pod_ports(pods[n - 1])
    }
}

/// The usable ports of all pods.
pub fn extract_all_pod_ports(pods: &Vec<Pod>) -> (r: Vec<ContainerPort>)
    ensures
        ports_model(r@) == all_pod_ports(pods@, pods@.len() as int),
{
    let mut out: Vec<ContainerPort> = Vec::new();
    let mut i: usize = 0;
    proof {
        assert(ports_model(out@) =~= Seq::empty());
    }
    while i < pods.len()
        invariant
            i <= pods@.len(),
            ports_model(out@) == all_pod_ports(pods@, i as int),
        decreases pods@.len() - i,
    {
        let ghost before = out@;
        let mut more = extract_pod_ports(&pods[i]);
        let ghost added = more@;
        out.append(&mut more);
        proof {
            assert(ports_model(out@) =~= ports_model(before) + ports_model(added));
        }
        i += 1;
    }
    out
}

/// The test whether a declared port has a name.
pub open spec fn port_named(name: Seq<char>) -> spec_fn(DeclaredPort) -> bool {
    |p: DeclaredPort| text_is(p.name, name)
}

/// The first port with a name that containers declare.
pub open spec fn find_named(containers: Seq<Container>, name: Seq<char>) -> Option<DeclaredPort>
    decreases containers.len(),
{
    if containers.len() == 0 {
        None
    } else {
        match first_where(declared_ports(containers[0]), port_named(name)) {
            Some(p) => Some(p),
            None => find_named(containers.drop_first(), name),
        }
    }
}

/// The number of the port with a name: the first that a pod declares, where
/// init containers come last, if it is usable.
pub open spec fn named_port(pod: Pod, name: Seq<char>) -> Option<int> {
    let found = match find_named(mains_of(pod), name) {
        Some(p) => Some(p),
        None => find_named(inits_of(pod), name),
    };
    match found {
        Some(p) => if is_port(p.container_port) {
            Some(p.container_port as int)
        } else {
            None
        },
        None => None,
    }
}

/// The number of the first port with a name that a container declares.
fn find_in_container(c: &Container, name: &str) -> (r: Option<i32>)
    ensures
        ({
            let found = first_where(declared_ports(*c), port_named(name@));
            &&& r is Some == found is Some
            &&& r is Some ==> r->0 == found->0.container_port
        }),
{
    match &c.ports {
        None => None,
        Some(v) => {
            let mut i: usize = 0;
            while i < v.len()
                invariant
                    i <= v@.len(),
                    c.ports == Some(*v),
                    forall|k: int| 0 <= k < i ==> !port_named(name@)(#[trigger] v@[k]),
                decreases v@.len() - i,
            {
                if is_text(&v[i].name, name) {
                    proof {
                        lemma_first_index(v@, i as int, port_named(name@));
                    }
                    return Some(v[i].container_port);
                }
                i += 1;
            }
            proof {
                lemma_first_index(v@, i as int, port_named(name@));
            }
            None
        },
    }
}

/// The number of the first port with a name that containers declare.
fn find_in_containers(containers: &Vec<Container>, name: &str) -> (r: Option<i32>)
    ensures
        ({
            let found = find_named(containers@, name@);
            &&& r is Some == found is Some
            &&& r is Some ==> r->0 == found->0.container_port
        }),
{
    let mut i: usize = 0;
    proof {
        assert(containers@.skip(0) =~= containers@);
    }
    while i < containers.len()
        invariant
            i <= containers@.len(),
            find_named(containers@, name@) == find_named(containers@.skip(i as int), name@),
        decreases containers@.len() - i,
    {
        proof {
            assert(containers@.skip(i as int).drop_first() =~= containers@.skip(i + 1));
        }
        let found = find_in_container(&containers[i], name);
        if found.is_some() {
            return found;
        }
        i += 1;
    }
    None
}

/// The number of the port that a pod declares under a name.
pub fn resolve_named_port(pod: &Pod, port_name: &str) -> (r: Option<u16>)
    ensures
        r is Some == named_port(*pod, port_name@) is Some,
        r is Some ==> r->0 == named_port(*pod, port_name@)->0,
{
    match &pod.spec {
        None => None,
        Some(spec) => match find_in_containers(&spec.containers, port_name) {
            Some(n) => port_of(n),
            None => match &spec.init_containers {
                Some(containers) => match find_in_containers(containers, port_name) {
                    Some(n) => port_of(n),
                    None => None,
                },
                None => None,
            },
        },
    }
}

// ---------------------------------------------------------------------------
// Ports of services
// ---------------------------------------------------------------------------

/// The test whether a service's port has a usable number.
pub open spec fn has_service_port() -> spec_fn(ServicePortSpec) -> bool {
    |p: ServicePortSpec| is_port(p.port)
}

/// Where a service's port leads: to the same port where nothing is said; of a
/// number that is no port only the low 16 bits count.
pub open spec fn target_of(p: ServicePortSpec) -> TargetModel {
    match p.target_port {
        Some(IntOrString::Int(n)) => TargetModel::Number((n as int % 0x1_0000) as u16),
        Some(IntOrString::Text(s)) => TargetModel::Name(s@),
        None => TargetModel::Number(p.port as u16),
    }
}

/// A port of a service.
pub open spec fn show_service_port(svc: Service) -> spec_fn(ServicePortSpec) -> ServicePortModel {
    |p: ServicePortSpec|
        ServicePortModel {
            service_name: text_or(svc.meta.name, Seq::empty()),
            namespace: text_or(svc.meta.namespace, Seq::empty()),
            port: p.port as u16,
            target_port: target_of(p),
            protocol: text_or(p.protocol, "TCP"@),
            port_name: text_view(p.name),
            node_port: match p.node_port {
                Some(n) => if is_port(n) {
                    Some(n as u16)
                } else {
                    None
                },
                None => None,
            },
        }
}

/// The ports that a service's specification lists.
pub open spec fn listed_ports(svc: Service) -> Seq<ServicePortSpec> {
    match svc.spec {
        Some(s) => match s.ports {
            Some(v) => v@,
            None => Seq::empty(),
        },
        None => Seq::empty(),
    }
}

/// The usable ports of a service.
pub open spec fn service_ports(svc: Service) -> Seq<ServicePortModel> {
    collect(listed_ports(svc), has_service_port(), show_service_port(svc))
}

/// The low 16 bits of a number.
fn low_bits(n: i32) -> (r: u16)
    ensures
        r == n as int % 0x1_0000,
{
    let shifted: i64 = n as i64 + 0x1_0000_0000;
    let m: u64 = shifted as u64;
    proof {
        assert((n + 0x1_0000_0000) % 0x1_0000 == n as int % 0x1_0000);
    }
    (m % 0x1_0000) as u16
}

/// Where a service's port leads.
fn find_target(p: &ServicePortSpec, port: u16) -> (r: TargetPort)
    requires
        port == p.port,
    ensures
        r@ == target_of(*p),
{
    match &p.target_port {
        Some(IntOrString::Int(n)) => TargetPort::Number(low_bits(*n)),
        Some(IntOrString::Text(s)) => TargetPort::Name(s.clone()),
        None => TargetPort::Number(port),
    }
}

/// The usable ports of a service.
pub fn extract_service_ports(svc: &Service) -> (r: Vec<ServicePort>)
    ensures
        service_ports_model(r@) == service_ports(*svc),
{
    let mut out: Vec<ServicePort> = Vec::new();
    proof {
        assert(service_ports_model(out@) =~= Seq::empty());
    }
    match &svc.spec {
        None => out,
        Some(spec) => match &spec.ports {
            None => out,
            Some(v) => {
                let ghost show = show_service_port(*svc);
                let mut i: usize = 0;
                while i < v.len()
                    invariant
                        i <= v@.len(),
                        svc.spec == Some(*spec),
                        spec.ports == Some(*v),
                        show == show_service_port(*svc),
                        service_ports_model(out@) == collect(
                            v@.take(i as int),
                            has_service_port(),
                            show,
                        ),
                    decreases v@.len() - i,
                {
                    let ghost so_far = out@;
                    proof {
                        lemma_collect_step(v@, i as int, has_service_port(), show);
                    }
                    match port_of(v[i].port) {
                        Some(port) => {
                            let node_port = match v[i].node_port {
                                Some(n) => port_of(n),
                                None => None,
                            };
                            let p = ServicePort {
                                service_name: copy_or_empty(&svc.meta.name),
                                namespace: copy_or_empty(&svc.meta.namespace),
                                port,
                                target_port: find_target(&v[i], port),
                                protocol: copy_or(&v[i].protocol, "TCP"),
                                port_name: v[i].name.clone(),
                                node_port,
                            };
                            proof {
                                assert(p@ =~= show(v@[i as int]));
                            }
                            out.push(p);
                            proof {
                                assert(service_ports_model(out@) =~= service_ports_model(
                                    so_far,
                                ).push(p@));
                            }
                        },
                        None => {},
                    }
                    i += 1;
                }
                out
            },
        },
    }
}

/// The usable ports of the first services.
pub open spec fn all_service_ports(svcs: Seq<Service>, n: int) -> Seq<ServicePortModel>
    decreases n,
{
    if n <= 0 {
        Seq::empty()
    } else {
        all_service_ports(svcs, n - 1) + service_ports(svcs[n - 1])
    }
}

/// The usable ports of all services.
pub fn extract_all_service_ports(svcs: &Vec<Service>) -> (r: Vec<ServicePort>)
    ensures
        service_ports_model(r@) == all_service_ports(svcs@, svcs@.len() as int),
{
    let mut out: Vec<ServicePort> = Vec::new();
    let mut i: usize = 0;
    proof {
        assert(service_ports_model(out@) =~= Seq::empty());
    }
    while i < svcs.len()
        invariant
            i <= svcs@.len(),
            service_ports_model(out@) == all_service_ports(svcs@, i as int),
        decreases svcs@.len() - i,
    {
        let ghost before = out@;
        let mut more = extract_service_ports(&svcs[i]);
        let ghost added = more@;
        out.append(&mut more);
        proof {
            assert(service_ports_model(out@) =~= service_ports_model(before)
                + service_ports_model(added));
        }
        i += 1;
    }
    out
}

// ---------------------------------------------------------------------------
// Text
// ---------------------------------------------------------------------------

/// Where a port leads, as text.
pub open spec fn target_text(t: TargetModel) -> Seq<char> {
    match t {
        TargetModel::Number(n) => decimal(n as nat),
        TargetModel::Name(s) => s,
    }
}

/// A name in brackets, where there is one.
pub open spec fn name_suffix(name: Option<Seq<char>>) -> Seq<char> {
    match name {
        Some(n) => " ("@ + n + ")"@,
        None => Seq::empty(),
    }
}

/// A container's port as text.
pub open spec fn port_text(p: PortModel) -> Seq<char> {
    decimal(p.container_port as nat) + "/"@ + p.protocol + name_suffix(p.port_name)
}

/// A service's port as text. Its target is left out where it is the port itself.
pub open spec fn service_port_text(p: ServicePortModel) -> Seq<char> {
    decimal(p.port as nat) + (if p.target_port == TargetModel::Number(p.port) {
        Seq::empty()
    } else {
        "→"@ + target_text(p.target_port)
    }) + (match p.node_port {
        Some(n) => ":"@ + decimal(n as nat),
        None => Seq::empty(),
    }) + "/"@ + p.protocol + name_suffix(p.port_name)
}

/// Adds a name in brackets, where there is one.
fn add_name(out: &mut String, name: &Option<String>)
    ensures
        final(out)@ == old(out)@ + name_suffix(text_view(*name)),
{
    let ghost before = out@;
    match name {
        Some(n) => {
            out.append(" (");
            out.append(n.as_str());
            out.append(")");
            proof {
                assert(out@ =~= before + (" ("@ + n@ + ")"@));
            }
        },
        None => {
            proof {
                assert(before + Seq::<char>::empty() =~= before);
            }
        },
    }
}

impl TargetPort {
    /// Where the port leads, as text.
    pub fn to_text(&self) -> (r: String)
        ensures
            r@ == target_text(self@),
    {
        match self {
            TargetPort::Number(n) => decimal_u64(*n as u64),
            TargetPort::Name(s) => s.clone(),
        }
    }
}

impl ContainerPort {
    /// The port as text: number, protocol and name.
    pub fn to_text(&self) -> (r: String)
        ensures
            r@ == port_text(self@),
    {
        let mut out = decimal_u64(self.container_port as u64);
        out.append("/");
        out.append(self.protocol.as_str());
        add_name(&mut out, &self.port_name);
        out
    }
}

impl ServicePort {
    /// The port as text: number, target, node port, protocol and name.
    pub fn to_text(&self) -> (r: String)
        ensures
            r@ == service_port_text(self@),
    {
        let same_port = match &self.target_port {
            TargetPort::Number(n) => *n == self.port,
            TargetPort::Name(_) => false,
        };
        let mut out = decimal_u64(self.port as u64);
        let ghost port = out@;
        if !same_port {
            out.append("→");
            out.append(self.target_port.to_text().as_str());
        }
        let ghost target = if self.target_port@ == TargetModel::Number(self.port) {
            Seq::empty()
        } else {
            "→"@ + target_text(self.target_port@)
        };
        proof {
            assert(out@ =~= port + target);
        }
        match self.node_port {
            Some(n) => {
                out.append(":");
                out.append(decimal_u64(n as u64).as_str());
            },
            None => {},
        }
        proof {
            assert(out@ =~= port + target + (match self.node_port {
                Some(n) => ":"@ + decimal(n as nat),
                None => Seq::empty(),
            }));
        }
        out.append("/");
        out.append(self.protocol.as_str());
        add_name(&mut out, &self.port_name);
        out
    }
}

} // verus!
