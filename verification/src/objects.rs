//! Kubernetes objects, reduced to the fields that the dashboard reads.
use vstd::prelude::*;
use crate::age::{usable, Timestamp};

verus! {

/// The metadata of an object. Label keys stand in ascending order.
#[derive(Debug)]
pub struct ObjectMeta {
    pub name: Option<String>,
    pub namespace: Option<String>,
    pub created: Option<Timestamp>,
    pub deleting: bool,
    pub label_keys: Vec<String>,
}

impl ObjectMeta {
    /// Whether an age can be computed from the creation time, where it is there.
    pub open spec fn usable(self) -> bool {
        usable(self.created)
    }
}

/// A port that a container declares.
#[derive(Debug)]
pub struct DeclaredPort {
    pub container_port: i32,
    pub protocol: Option<String>,
    pub name: Option<String>,
}

/// A container of a pod's specification.
#[derive(Debug)]
pub struct Container {
    pub name: String,
    pub image: Option<String>,
    pub ports: Option<Vec<DeclaredPort>>,
}

/// Why a container waits.
#[derive(Debug)]
pub struct Waiting {
    pub reason: Option<String>,
}

/// How a container ended.
#[derive(Debug)]
pub struct Terminated {
    pub exit_code: i32,
    pub reason: Option<String>,
}

/// The state of a container.
#[derive(Debug)]
pub struct ContainerState {
    pub waiting: Option<Waiting>,
    pub running: bool,
    pub terminated: Option<Terminated>,
}

/// The status of a container.
#[derive(Debug)]
pub struct ContainerStatus {
    pub name: String,
    pub ready: bool,
    pub restart_count: i32,
    pub state: Option<ContainerState>,
}

/// A pod's specification.
#[derive(Debug)]
pub struct PodSpec {
    pub init_containers: Option<Vec<Container>>,
    pub containers: Vec<Container>,
    pub node_name: Option<String>,
}

/// A pod's status.
#[derive(Debug)]
pub struct PodStatus {
    pub phase: Option<String>,
    pub reason: Option<String>,
    pub init_container_statuses: Option<Vec<ContainerStatus>>,
    pub container_statuses: Option<Vec<ContainerStatus>>,
}

/// A pod.
#[derive(Debug)]
pub struct Pod {
    pub meta: ObjectMeta,
    pub spec: Option<PodSpec>,
    pub status: Option<PodStatus>,
}

/// A condition of a node.
#[derive(Debug)]
pub struct NodeCondition {
    pub kind: String,
    pub status: String,
}

/// An address of a node.
#[derive(Debug)]
pub struct NodeAddress {
    pub kind: String,
    pub address: String,
}

/// A node's status. Missing lists are empty.
#[derive(Debug)]
pub struct NodeStatus {
    pub conditions: Vec<NodeCondition>,
    pub addresses: Vec<NodeAddress>,
    pub cpu_capacity: Option<String>,
    pub mem_capacity: Option<String>,
    pub cpu_allocatable: Option<String>,
    pub mem_allocatable: Option<String>,
    pub kubelet_version: Option<String>,
}

/// A node.
#[derive(Debug)]
pub struct Node {
    pub meta: ObjectMeta,
    pub unschedulable: Option<bool>,
    pub status: Option<NodeStatus>,
}

/// A deployment with the replica counts of its status.
#[derive(Debug)]
pub struct Deployment {
    pub meta: ObjectMeta,
    pub replicas: Option<i32>,
    pub ready_replicas: Option<i32>,
    pub updated_replicas: Option<i32>,
    pub available_replicas: Option<i32>,
}

/// A config map with the number of its keys.
#[derive(Debug)]
pub struct ConfigMap {
    pub meta: ObjectMeta,
    pub data_keys: Option<usize>,
    pub binary_data_keys: Option<usize>,
}

/// A target port as a service's specification gives it.
#[derive(Debug)]
pub enum IntOrString {
    Int(i32),
    Text(String),
}

/// A port of a service's specification.
#[derive(Debug)]
pub struct ServicePortSpec {
    pub port: i32,
    pub target_port: Option<IntOrString>,
    pub protocol: Option<String>,
    pub name: Option<String>,
    pub node_port: Option<i32>,
}

/// A service's specification.
#[derive(Debug)]
pub struct ServiceSpec {
    pub kind: Option<String>,
    pub cluster_ip: Option<String>,
    pub ports: Option<Vec<ServicePortSpec>>,
}

/// An entry of a load balancer's ingress list.
#[derive(Debug)]
pub struct Ingress {
    pub ip: Option<String>,
    pub hostname: Option<String>,
}

/// A service with its load balancer's ingress list.
#[derive(Debug)]
pub struct Service {
    pub meta: ObjectMeta,
    pub spec: Option<ServiceSpec>,
    pub ingress: Option<Vec<Ingress>>,
}

/// An event.
#[derive(Debug)]
pub struct Event {
    pub meta: ObjectMeta,
    pub kind: Option<String>,
    pub reason: Option<String>,
    pub message: Option<String>,
    pub count: Option<i32>,
    pub object_kind: Option<String>,
    pub object_name: Option<String>,
    pub last_timestamp: Option<Timestamp>,
    pub event_time: Option<Timestamp>,
}

/// The text, or a default where it is missing.
pub open spec fn text_or(t: Option<String>, default: Seq<char>) -> Seq<char> {
    match t {
        Some(s) => s@,
        None => default,
    }
}

/// Copies the text, or a default where it is missing.
pub fn copy_or(t: &Option<String>, default: &str) -> (r: String)
    ensures
        r@ == text_or(*t, default@),
{
    match t {
        Some(s) => s.clone(),
        None => default.to_owned(),
    }
}

/// Copies the text, or nothing where it is missing.
pub fn copy_or_empty(t: &Option<String>) -> (r: String)
    ensures
        r@ == text_or(*t, Seq::empty()),
{
    match t {
        Some(s) => s.clone(),
        None => String::new(),
    }
}

/// Whether a text that may be missing is there and is the given one.
pub open spec fn text_is(t: Option<String>, wanted: Seq<char>) -> bool {
    t is Some && t->0@ == wanted
}

/// Tests whether a text that may be missing is there and is the given one.
pub fn is_text(t: &Option<String>, wanted: &str) -> (r: bool)
    ensures
        r == text_is(*t, wanted@),
{
    match t {
        Some(s) => crate::text::same(s.as_str(), wanted),
        None => false,
    }
}

} // verus!
