//! The rows that the dashboard shows, and how they come from cluster objects.
use vstd::prelude::*;
use crate::age::{age_column, format_age_column, usable, Timestamp};
use crate::list::{
    collect, count, first_where, lemma_collect_step, lemma_count_step, lemma_first_index,
    lemma_take_all,
};
use crate::objects::{
    copy_or, copy_or_empty, text_or, ConfigMap, Container, ContainerStatus, Deployment, Event, Node,
    NodeAddress, NodeCondition, Pod, PodSpec, PodStatus, Service, ServicePortSpec,
};
use crate::sort::{key_less, stable_sort, stably_sorted, text_key, text_precedes, SortKey};
use crate::text::{
    chars_of, contains, decimal, decimal_i64, decimal_usize, has_prefix, has_substring, join,
    joined, lemma_texts_push, matches_at, same, signed_decimal, starts_with, text_between, texts,
};

verus! {

broadcast use {lemma_take_all, lemma_texts_push};

/// Which resource type the dashboard is currently displaying.
#[derive(Debug, Clone, Copy, PartialEq, Eq, Hash, Structural)]
pub enum ActiveResource {
    Pods,
    Deployments,
    Services,
    ConfigMaps,
    Nodes,
    Events,
}

/// Time allowed for one API call in the interactive dashboard, in seconds.
pub const API_CALL_TIMEOUT: u64 = 5;

/// Time allowed for one API call in headless mode, in seconds.
pub const HEADLESS_API_TIMEOUT: u64 = 30;

/// What is known of one cluster at one moment.
#[derive(Debug)]
pub struct ClusterSnapshot {
    pub name: String,
    pub health: HealthStatus,
    pub namespaces: Vec<String>,
    pub nodes: Vec<NodeInfo>,
    pub pods: Vec<PodInfo>,
    pub deployments: Vec<DeploymentInfo>,
    pub services: Vec<ServiceInfo>,
    pub configmaps: Vec<ConfigMapInfo>,
    pub events: Vec<EventInfo>,
    pub resource_usage: ResourceUsage,
}

/// The overall health of a cluster.
#[derive(Debug, Clone, Copy, PartialEq, Eq, Structural)]
pub enum HealthStatus {
    Green,
    Yellow,
    Red,
    Unknown,
}

/// A node's row.
#[derive(Debug)]
pub struct NodeInfo {
    pub name: String,
    pub status: String,
    pub roles: Vec<String>,
    pub cpu_capacity: String,
    pub mem_capacity: String,
    pub cpu_allocatable: String,
    pub mem_allocatable: String,
    pub age: String,
    /// The roles joined by commas, or `<none>`.
    pub roles_display: String,
    pub mem_capacity_display: String,
    pub mem_allocatable_display: String,
    /// Allocatable over capacity.
    pub cpu_display: String,
    /// Allocatable over capacity.
    pub mem_display: String,
    pub kubelet_version: String,
    /// The line of the Top tab.
    pub top_display: String,
    /// The address by which a machine is matched with its node.
    pub internal_ip: String,
}

/// A pod's row.
#[derive(Debug)]
pub struct PodInfo {
    pub name: String,
    pub namespace: String,
    pub status: String,
    pub ready: String,
    pub restarts: i32,
    pub restarts_display: String,
    pub age: String,
    pub node: String,
    /// Names of the containers, init containers first and marked `init:`.
    pub containers: Vec<String>,
}

/// A deployment's row.
#[derive(Debug)]
pub struct DeploymentInfo {
    pub name: String,
    pub namespace: String,
    pub ready: String,
    pub ready_count: i32,
    pub desired_count: i32,
    pub up_to_date: i32,
    pub up_to_date_display: String,
    pub available: i32,
    pub available_display: String,
    pub age: String,
}

/// A service's row.
#[derive(Debug)]
pub struct ServiceInfo {
    pub name: String,
    pub namespace: String,
    pub svc_type: String,
    pub cluster_ip: String,
    /// The load balancer's address, or `<none>`.
    pub external_ip: String,
    pub ports: String,
    pub age: String,
}

/// A config map's row.
#[derive(Debug)]
pub struct ConfigMapInfo {
    pub name: String,
    pub namespace: String,
    pub data_keys_count: usize,
    pub data_keys_display: String,
    pub age: String,
}

/// An event's row.
#[derive(Debug)]
pub struct EventInfo {
    pub namespace: String,
    pub name: String,
    pub event_type: String,
    pub reason: String,
    /// Kind and name of the object that the event is about.
    pub object: String,
    pub message: String,
    pub count: i32,
    pub count_display: String,
    pub last_seen: String,
    pub age: String,
}

/// How many pods and nodes a cluster has, and in which state.
#[derive(Debug, Clone, Copy, PartialEq, Eq, Structural)]
pub struct ResourceUsage {
    pub total_pods: usize,
    pub running_pods: usize,
    pub succeeded_pods: usize,
    pub failed_pods: usize,
    pub total_nodes: usize,
    pub ready_nodes: usize,
}

impl Default for ResourceUsage {
    fn default() -> (r: ResourceUsage)
        ensures
            r == (ResourceUsage {
                total_pods: 0,
                running_pods: 0,
                succeeded_pods: 0,
                failed_pods: 0,
                total_nodes: 0,
                ready_nodes: 0,
            }),
    {
        ResourceUsage {
            total_pods: 0,
            running_pods: 0,
            succeeded_pods: 0,
            failed_pods: 0,
            total_nodes: 0,
            ready_nodes: 0,
        }
    }
}

impl Default for NodeInfo {
    fn default() -> (r: NodeInfo)
        ensures
            r.name@.len() == 0,
            r.status@.len() == 0,
            r.roles@.len() == 0,
            r.cpu_capacity@.len() == 0,
            r.mem_capacity@.len() == 0,
            r.cpu_allocatable@.len() == 0,
            r.mem_allocatable@.len() == 0,
            r.age@.len() == 0,
            r.roles_display@.len() == 0,
            r.mem_capacity_display@.len() == 0,
            r.mem_allocatable_display@.len() == 0,
            r.cpu_display@.len() == 0,
            r.mem_display@.len() == 0,
            r.kubelet_version@.len() == 0,
            r.top_display@.len() == 0,
            r.internal_ip@.len() == 0,
    {
        NodeInfo {
            name: String::new(),
            status: String::new(),
            roles: Vec::new(),
            cpu_capacity: String::new(),
            mem_capacity: String::new(),
            cpu_allocatable: String::new(),
            mem_allocatable: String::new(),
            age: String::new(),
            roles_display: String::new(),
            mem_capacity_display: String::new(),
            mem_allocatable_display: String::new(),
            cpu_display: String::new(),
            mem_display: String::new(),
            kubelet_version: String::new(),
            top_display: String::new(),
            internal_ip: String::new(),
        }
    }
}

// ---------------------------------------------------------------------------
// Pod status
// ---------------------------------------------------------------------------

/// Whether a pod-level reason stands in place of the phase.
pub open spec fn overriding_reason(reason: Seq<char>) -> bool {
    reason == "Evicted"@ || reason == "NodeLost"@ || reason == "Shutdown"@
}

/// Whether an init container has finished well.
pub open spec fn init_completed() -> spec_fn(ContainerStatus) -> bool {
    |cs: ContainerStatus|
        match cs.state {
            Some(state) => match state.terminated {
                Some(t) => t.exit_code == 0,
                None => false,
            },
            None => false,
        }
}

/// The reason for which a container waits, where it is known.
pub open spec fn waiting_reason(cs: ContainerStatus) -> Option<Seq<char>> {
    match cs.state {
        Some(state) => match state.waiting {
            Some(w) => match w.reason {
                Some(r) => Some(r@),
                None => None,
            },
            None => None,
        },
        None => None,
    }
}

/// The reason for which a container ended, where it is known.
pub open spec fn ending_reason(cs: ContainerStatus) -> Option<Seq<char>> {
    match cs.state {
        Some(state) => match state.terminated {
            Some(t) => match t.reason {
                Some(r) => Some(r@),
                None => None,
            },
            None => None,
        },
        None => None,
    }
}

/// Whether a waiting reason of an init container is an error to show.
pub open spec fn init_error_reason(reason: Seq<char>) -> bool {
    reason == "CrashLoopBackOff"@ || reason == "ImagePullBackOff"@ || reason == "ErrImagePull"@
}

/// Whether a waiting reason of a container is an error to show.
pub open spec fn waiting_error_reason(reason: Seq<char>) -> bool {
    init_error_reason(reason) || reason == "CreateContainerConfigError"@ || reason
        == "InvalidImageName"@
}

/// Whether a container's ending is an error to show.
pub open spec fn ending_error_reason(reason: Seq<char>) -> bool {
    reason == "Error"@ || reason == "OOMKilled"@
}

/// Whether an init container waits with an error.
pub open spec fn init_in_error() -> spec_fn(ContainerStatus) -> bool {
    |cs: ContainerStatus|
        waiting_reason(cs) is Some && init_error_reason(waiting_reason(cs)->0)
}

/// The error that a container shows: the reason why it waits before the reason
/// why it ended.
pub open spec fn container_error(cs: ContainerStatus) -> Option<Seq<char>> {
    if waiting_reason(cs) is Some && waiting_error_reason(waiting_reason(cs)->0) {
        waiting_reason(cs)
    } else if ending_reason(cs) is Some && ending_error_reason(ending_reason(cs)->0) {
        ending_reason(cs)
    } else {
        None
    }
}

/// Whether a container shows an error.
pub open spec fn in_error() -> spec_fn(ContainerStatus) -> bool {
    |cs: ContainerStatus| container_error(cs) is Some
}

/// The status of a pod: the pod-level reason, or the progress of its init
/// containers, or the first container error, or the phase.
pub open spec fn effective_status(
    phase: Seq<char>,
    statuses: Seq<ContainerStatus>,
    init_statuses: Seq<ContainerStatus>,
    reason: Option<Seq<char>>,
) -> Seq<char> {
    let completed = count(init_statuses, init_completed());
    if reason is Some && overriding_reason(reason->0) {
        reason->0
    } else if completed < init_statuses.len() {
        match first_where(init_statuses, init_in_error()) {
            Some(cs) => "Init:"@ + waiting_reason(cs)->0 + " ("@ + cs.name@ + ")"@,
            None => "Init:"@ + decimal(completed) + "/"@ + decimal(init_statuses.len()),
        }
    } else {
        match first_where(statuses, in_error()) {
            Some(cs) => container_error(cs)->0,
            None => phase,
        }
    }
}

/// The reason for which a container waits.
fn waiting_reason_of(cs: &ContainerStatus) -> (r: Option<&String>)
    ensures
        r is Some == waiting_reason(*cs) is Some,
        r is Some ==> r->0@ == waiting_reason(*cs)->0,
{
    match &cs.state {
        Some(state) => match &state.waiting {
            Some(w) => w.reason.as_ref(),
            None => None,
        },
        None => None,
    }
}

/// The reason for which a container ended.
fn ending_reason_of(cs: &ContainerStatus) -> (r: Option<&String>)
    ensures
        r is Some == ending_reason(*cs) is Some,
        r is Some ==> r->0@ == ending_reason(*cs)->0,
{
    match &cs.state {
        Some(state) => match &state.terminated {
            Some(t) => t.reason.as_ref(),
            None => None,
        },
        None => None,
    }
}

/// Tests whether an init container has finished well.
fn is_init_completed(cs: &ContainerStatus) -> (r: bool)
    ensures
        r == init_completed()(*cs),
{
    match &cs.state {
        Some(state) => match &state.terminated {
            Some(t) => t.exit_code == 0,
            None => false,
        },
        None => false,
    }
}

/// Tests whether a reason is an error of an init container.
fn is_init_error_reason(reason: &str) -> (r: bool)
    ensures
        r == init_error_reason(reason@),
{
    same(reason, "CrashLoopBackOff") || same(reason, "ImagePullBackOff") || same(
        reason,
        "ErrImagePull",
    )
}

/// The error that a container shows.
fn container_error_of(cs: &ContainerStatus) -> (r: Option<String>)
    ensures
        r is Some == container_error(*cs) is Some,
        r is Some ==> r->0@ == container_error(*cs)->0,
{
    if let Some(reason) = waiting_reason_of(cs) {
        if is_init_error_reason(reason.as_str()) || same(
            reason.as_str(),
            "CreateContainerConfigError",
        ) || same(reason.as_str(), "InvalidImageName") {
            return Some(reason.clone());
        }
    }
    if let Some(reason) = ending_reason_of(cs) {
        if same(reason.as_str(), "Error") || same(reason.as_str(), "OOMKilled") {
            return Some(reason.clone());
        }
    }
    None
}

/// Derives the status to show for a pod. A phase of `Running` hides containers
/// that wait with an error, init containers that are not done, and evictions.
pub fn derive_effective_status(
    phase: &str,
    container_statuses: &[ContainerStatus],
    init_container_statuses: &[ContainerStatus],
    pod_reason: Option<&str>,
) -> (r: String)
    ensures
        r@ == effective_status(
            phase@,
            container_statuses@,
            init_container_statuses@,
            match pod_reason {
                Some(t) => Some(t@),
                None => None,
            },
        ),
{
    if let Some(reason) = pod_reason {
        if same(reason, "Evicted") || same(reason, "NodeLost") || same(reason, "Shutdown") {
            return reason.to_owned();
        }
    }
    let total: usize = init_container_statuses.len();
    let mut completed: usize = 0;
    let mut i: usize = 0;
    while i < total
        invariant
            i <= total == init_container_statuses@.len(),
            completed <= i,
            completed == count(init_container_statuses@.take(i as int), init_completed()),
        decreases total - i,
    {
        if is_init_completed(&init_container_statuses[i]) {
            completed += 1;
        }
        proof {
            lemma_count_step(init_container_statuses@, i as int, init_completed());
        }
        i += 1;
    }
    if completed < total {
        let mut k: usize = 0;
        while k < total
            invariant
                k <= total == init_container_statuses@.len(),
                completed < total,
                completed == count(init_container_statuses@, init_completed()),
                forall|j: int|
                    0 <= j < k ==> !init_in_error()(#[trigger] init_container_statuses@[j]),
                !(pod_reason is Some && overriding_reason(pod_reason->0@)),
            decreases total - k,
        {
            let cs = &init_container_statuses[k];
            if let Some(reason) = waiting_reason_of(cs) {
                if is_init_error_reason(reason.as_str()) {
                    proof {
                        lemma_first_index(init_container_statuses@, k as int, init_in_error());
                    }
                    let mut out = "Init:".to_owned();
                    out.append(reason.as_str());
                    out.append(" (");
                    out.append(cs.name.as_str());
                    out.append(")");
                    return out;
                }
            }
            k += 1;
        }
        proof {
            lemma_first_index(init_container_statuses@, total as int, init_in_error());
        }
        let mut out = "Init:".to_owned();
        out.append(decimal_usize(completed).as_str());
        out.append("/");
        out.append(decimal_usize(total).as_str());
        return out;
    }
    let n: usize = container_statuses.len();
    let mut m: usize = 0;
    while m < n
        invariant
            m <= n == container_statuses@.len(),
            count(init_container_statuses@, init_completed()) >= init_container_statuses@.len(),
            forall|j: int| 0 <= j < m ==> !in_error()(#[trigger] container_statuses@[j]),
            !(pod_reason is Some && overriding_reason(pod_reason->0@)),
        decreases n - m,
    {
        if let Some(error) = container_error_of(&container_statuses[m]) {
            proof {
                lemma_first_index(container_statuses@, m as int, in_error());
            }
            return error;
        }
        m += 1;
    }
    proof {
        lemma_first_index(container_statuses@, n as int, in_error());
    }
    phase.to_owned()
}

// ---------------------------------------------------------------------------
// Order of rows
// ---------------------------------------------------------------------------

/// Whether a status is a critical error.
pub open spec fn critical_status(s: Seq<char>) -> bool {
    ||| s == "Failed"@
    ||| s == "Error"@
    ||| s == "OOMKilled"@
    ||| s == "CrashLoopBackOff"@
    ||| s == "ImagePullBackOff"@
    ||| s == "ErrImagePull"@
    ||| s == "CreateContainerConfigError"@
    ||| s == "InvalidImageName"@
    ||| s == "Evicted"@
    ||| s == "NodeLost"@
    ||| s == "Shutdown"@
}

/// Whether a status is that of a pod which is coming up or going away.
pub open spec fn pending_status(s: Seq<char>) -> bool {
    ||| s == "Pending"@
    ||| s == "ContainerCreating"@
    ||| s == "PodInitializing"@
    ||| s == "Terminating"@
}

/// The severity rank of a pod status: the lower, the earlier it is shown.
pub open spec fn status_severity(s: Seq<char>) -> u8 {
    if critical_status(s) {
        0
    } else if has_prefix(s, "Init:"@) && (has_substring(s, "Error"@) || has_substring(
        s,
        "CrashLoopBackOff"@,
    )) {
        1
    } else if pending_status(s) {
        2
    } else if has_prefix(s, "Init:"@) {
        3
    } else if s == "Running"@ {
        4
    } else if s == "Succeeded"@ || s == "Completed"@ {
        5
    } else {
        3
    }
}

/// Ranks a pod status by severity: errors first, then pods that are coming up,
/// then running ones, then completed ones.
pub fn pod_status_severity(status: &str) -> (r: u8)
    ensures
        r == status_severity(status@),
{
    if same(status, "Failed") || same(status, "Error") || same(status, "OOMKilled") || same(
        status,
        "CrashLoopBackOff",
    ) || same(status, "ImagePullBackOff") || same(status, "ErrImagePull") || same(
        status,
        "CreateContainerConfigError",
    ) || same(status, "InvalidImageName") || same(status, "Evicted") || same(status, "NodeLost")
        || same(status, "Shutdown") {
        return 0;
    }
    let init = starts_with(status, "Init:");
    if init && (contains(status, "Error") || contains(status, "CrashLoopBackOff")) {
        return 1;
    }
    if same(status, "Pending") || same(status, "ContainerCreating") || same(
        status,
        "PodInitializing",
    ) || same(status, "Terminating") {
        return 2;
    }
    if init {
        3
    } else if same(status, "Running") {
        4
    } else if same(status, "Succeeded") || same(status, "Completed") {
        5
    } else {
        3
    }
}

/// A rank as a sort key.
pub open spec fn rank_key(rank: int) -> Seq<int> {
    seq![rank]
}

/// Ranks order as numbers do.
pub proof fn lemma_rank_order(a: int, b: int)
    ensures
        key_less(rank_key(a), rank_key(b)) == (a < b),
{
    reveal_with_fuel(key_less, 2);
    assert(rank_key(a)[0] == a);
    assert(rank_key(b)[0] == b);
}

impl SortKey for PodInfo {
    /// Pods are sorted by the severity of their status.
    open spec fn sort_key(&self) -> Seq<int> {
        rank_key(status_severity(self.status@) as int)
    }

    fn precedes(&self, other: &Self) -> (r: bool) {
        let a: u8 = pod_status_severity(self.status.as_str());
        let b: u8 = pod_status_severity(other.status.as_str());
        proof {
            lemma_rank_order(a as int, b as int);
        }
        a < b
    }
}

impl SortKey for NodeInfo {
    /// Nodes are sorted by name.
    open spec fn sort_key(&self) -> Seq<int> {
        text_key(self.name@)
    }

    fn precedes(&self, other: &Self) -> (r: bool) {
        text_precedes(self.name.as_str(), other.name.as_str())
    }
}

impl SortKey for DeploymentInfo {
    /// Deployments are sorted by name.
    open spec fn sort_key(&self) -> Seq<int> {
        text_key(self.name@)
    }

    fn precedes(&self, other: &Self) -> (r: bool) {
        text_precedes(self.name.as_str(), other.name.as_str())
    }
}

impl SortKey for ServiceInfo {
    /// Services are sorted by name.
    open spec fn sort_key(&self) -> Seq<int> {
        text_key(self.name@)
    }

    fn precedes(&self, other: &Self) -> (r: bool) {
        text_precedes(self.name.as_str(), other.name.as_str())
    }
}

impl SortKey for ConfigMapInfo {
    /// Config maps are sorted by name.
    open spec fn sort_key(&self) -> Seq<int> {
        text_key(self.name@)
    }

    fn precedes(&self, other: &Self) -> (r: bool) {
        text_precedes(self.name.as_str(), other.name.as_str())
    }
}

impl SortKey for String {
    /// Texts are sorted by their characters.
    open spec fn sort_key(&self) -> Seq<int> {
        text_key(self@)
    }

    fn precedes(&self, other: &Self) -> (r: bool) {
        text_precedes(self.as_str(), other.as_str())
    }
}

/// Sorts pods by the severity of their status, errors first. Pods of one
/// severity keep their order.
pub fn sort_pods_by_severity(pods: &mut Vec<PodInfo>)
    ensures
        stably_sorted(old(pods)@, final(pods)@),
{
    stable_sort(pods)
}

// ---------------------------------------------------------------------------
// Rows from objects
// ---------------------------------------------------------------------------

/// The container statuses of a pod's status.
pub open spec fn statuses_of(status: Option<PodStatus>) -> Seq<ContainerStatus> {
    match status {
        Some(s) => match s.container_statuses {
            Some(v) => v@,
            None => Seq::empty(),
        },
        None => Seq::empty(),
    }
}

/// The init container statuses of a pod's status.
pub open spec fn init_statuses_of(status: Option<PodStatus>) -> Seq<ContainerStatus> {
    match status {
        Some(s) => match s.init_container_statuses {
            Some(v) => v@,
            None => Seq::empty(),
        },
        None => Seq::empty(),
    }
}

/// The phase of a pod's status.
pub open spec fn phase_of(status: Option<PodStatus>) -> Seq<char> {
    match status {
        Some(s) => text_or(s.phase, "Unknown"@),
        None => "Unknown"@,
    }
}

/// The pod-level reason of a pod's status.
pub open spec fn reason_of(status: Option<PodStatus>) -> Option<Seq<char>> {
    match status {
        Some(s) => match s.reason {
            Some(r) => Some(r@),
            None => None,
        },
        None => None,
    }
}

/// The status column of a pod.
pub open spec fn pod_status(pod: Pod) -> Seq<char> {
    if pod.meta.deleting {
        "Terminating"@
    } else {
        effective_status(
            phase_of(pod.status),
            statuses_of(pod.status),
            init_statuses_of(pod.status),
            reason_of(pod.status),
        )
    }
}

/// Whether a container is ready.
pub open spec fn container_ready() -> spec_fn(ContainerStatus) -> bool {
    |cs: ContainerStatus| cs.ready
}

/// How often the containers were restarted, all together.
pub open spec fn restart_sum(statuses: Seq<ContainerStatus>) -> int
    decreases statuses.len(),
{
    if statuses.len() == 0 {
        0
    } else {
        restart_sum(statuses.drop_last()) + statuses.last().restart_count
    }
}

/// Whether the restarts can be added up from the first container on without
/// leaving the range of a 32-bit number.
pub open spec fn restarts_fit(statuses: Seq<ContainerStatus>) -> bool {
    forall|n: int|
        0 <= n <= statuses.len() ==> i32::MIN <= #[trigger] restart_sum(statuses.take(n))
            <= i32::MAX
}

/// The names of init containers, each marked `init:`.
pub open spec fn init_names(cs: Seq<Container>) -> Seq<Seq<char>> {
    cs.map_values(|c: Container| "init:"@ + c.name@)
}

/// The names of containers.
pub open spec fn plain_names(cs: Seq<Container>) -> Seq<Seq<char>> {
    cs.map_values(|c: Container| c.name@)
}

/// The names of all containers of a pod: init containers first.
pub open spec fn container_names(spec: Option<PodSpec>) -> Seq<Seq<char>> {
    match spec {
        Some(s) => match s.init_containers {
            Some(init) => init_names(init@) + plain_names(s.containers@),
            None => plain_names(s.containers@),
        },
        None => Seq::empty(),
    }
}

/// Whether a row shows a pod at a moment.
pub open spec fn shows_pod(row: PodInfo, pod: Pod, now: Timestamp) -> bool {
    let statuses = statuses_of(pod.status);
    &&& row.name@ == text_or(pod.meta.name, Seq::empty())
    &&& row.namespace@ == text_or(pod.meta.namespace, Seq::empty())
    &&& row.status@ == pod_status(pod)
    &&& row.ready@ == decimal(count(statuses, container_ready())) + "/"@ + decimal(statuses.len())
    &&& row.restarts == restart_sum(statuses)
    &&& row.restarts_display@ == signed_decimal(restart_sum(statuses))
    &&& row.age@ == age_column(now, pod.meta.created)
    &&& row.node@ == (match pod.spec {
        Some(s) => text_or(s.node_name, Seq::empty()),
        None => Seq::empty(),
    })
    &&& texts(row.containers@) == container_names(pod.spec)
}

/// Whether a pod's row can be made: its age and its restarts can be computed.
pub open spec fn pod_usable(pod: Pod) -> bool {
    pod.meta.usable() && restarts_fit(statuses_of(pod.status))
}

/// The names of all containers of a pod.
fn container_names_of(spec: &Option<PodSpec>) -> (r: Vec<String>)
    ensures
        texts(r@) == container_names(*spec),
{
    let mut names: Vec<String> = Vec::new();
    match spec {
        Some(s) => {
            let ghost mut before: Seq<Seq<char>> = Seq::empty();
            if let Some(init) = &s.init_containers {
                let mut i: usize = 0;
                while i < init.len()
                    invariant
                        i <= init@.len(),
                        texts(names@) =~= init_names(init@.take(i as int)),
                    decreases init@.len() - i,
                {
                    let mut name = "init:".to_owned();
                    name.append(init[i].name.as_str());
                    names.push(name);
                    i += 1;
                    proof {
                        assert(init_names(init@.take(i as int)) =~= init_names(
                            init@.take(i - 1),
                        ).push("init:"@ + init@[i - 1].name@));
                    }
                }
                proof {
                    before = init_names(init@);
                }
            }
            let mut k: usize = 0;
            while k < s.containers.len()
                invariant
                    k <= s.containers@.len(),
                    texts(names@) =~= before + plain_names(s.containers@.take(k as int)),
                decreases s.containers@.len() - k,
            {
                names.push(s.containers[k].name.clone());
                k += 1;
                proof {
                    assert(plain_names(s.containers@.take(k as int)) =~= plain_names(
                        s.containers@.take(k - 1),
                    ).push(s.containers@[k - 1].name@));
                }
            }
            proof {
                if s.init_containers is None {
                    assert(before + plain_names(s.containers@) =~= plain_names(s.containers@));
                }
            }
        },
        None => {},
    }
    proof {
        assert(texts(names@) =~= container_names(*spec));
    }
    names
}

/// Makes a pod's row.
pub fn pod_info(pod: &Pod, now: Timestamp) -> (r: PodInfo)
    requires
        now.in_range(),
        pod_usable(*pod),
    ensures
        shows_pod(r, *pod, now),
{
    let none: Vec<ContainerStatus> = Vec::new();
    let mut statuses: &Vec<ContainerStatus> = &none;
    let mut init_statuses: &Vec<ContainerStatus> = &none;
    let mut phase = "Unknown".to_owned();
    let mut reason: Option<&str> = None;
    if let Some(s) = &pod.status {
        phase = copy_or(&s.phase, "Unknown");
        if let Some(v) = &s.container_statuses {
            statuses = v;
        }
        if let Some(v) = &s.init_container_statuses {
            init_statuses = v;
        }
        if let Some(text) = &s.reason {
            reason = Some(text.as_str());
        }
    }
    proof {
        assert(none@ =~= Seq::empty());
        assert(statuses@ == statuses_of(pod.status));
        assert(init_statuses@ == init_statuses_of(pod.status));
    }
    let status = if pod.meta.deleting {
        "Terminating".to_owned()
    } else {
        derive_effective_status(phase.as_str(), statuses.as_slice(), init_statuses.as_slice(), reason)
    };
    let total: usize = statuses.len();
    let mut ready_count: usize = 0;
    let mut restarts: i32 = 0;
    let mut i: usize = 0;
    while i < total
        invariant
            i <= total == statuses@.len(),
            ready_count <= i,
            ready_count == count(statuses@.take(i as int), container_ready()),
            restarts == restart_sum(statuses@.take(i as int)),
            restarts_fit(statuses@),
        decreases total - i,
    {
        proof {
            assert(statuses@.take(i + 1).drop_last() =~= statuses@.take(i as int));
            assert(i32::MIN <= restart_sum(statuses@.take(i + 1)) <= i32::MAX);
            lemma_count_step(statuses@, i as int, container_ready());
        }
        if statuses[i].ready {
            ready_count += 1;
        }
        restarts = restarts + statuses[i].restart_count;
        i += 1;
    }
    let mut ready = decimal_usize(ready_count);
    ready.append("/");
    ready.append(decimal_usize(total).as_str());
    let node = match &pod.spec {
        Some(s) => copy_or_empty(&s.node_name),
        None => String::new(),
    };
    PodInfo {
        name: copy_or_empty(&pod.meta.name),
        namespace: copy_or_empty(&pod.meta.namespace),
        status,
        ready,
        restarts,
        restarts_display: decimal_i64(restarts as i64),
        age: format_age_column(now, pod.meta.created),
        node,
        containers: container_names_of(&pod.spec),
    }
}

/// The text without any repetition of a prefix at its start.
pub open spec fn without_prefix(s: Seq<char>, prefix: Seq<char>) -> Seq<char>
    decreases s.len(),
{
    if prefix.len() > 0 && has_prefix(s, prefix) {
        without_prefix(s.skip(prefix.len() as int), prefix)
    } else {
        s
    }
}

/// Removes every repetition of a prefix at the start of a text.
fn strip_prefix(s: &str, prefix: &str) -> (r: String)
    ensures
        r@ == without_prefix(s@, prefix@),
{
    let v = chars_of(s);
    let p = chars_of(prefix);
    let n: usize = v.len();
    let mut at: usize = 0;
    proof {
        assert(v@.skip(0) =~= v@);
    }
    while p.len() > 0 && matches_at(&v, &p, at)
        invariant
            at <= n == v@.len(),
            v@ == s@,
            p@ == prefix@,
            without_prefix(v@.skip(at as int), p@) == without_prefix(s@, p@),
        decreases n - at,
    {
        proof {
            let rest = v@.skip(at as int);
            assert(rest.subrange(0, p@.len() as int) =~= v@.subrange(at as int, at + p@.len()));
            assert(has_prefix(rest, p@));
            assert(rest.skip(p@.len() as int) =~= v@.skip(at + p@.len()));
        }
        at += p.len();
    }
    proof {
        let rest = v@.skip(at as int);
        if has_prefix(rest, p@) {
            assert(v@.subrange(at as int, at + p@.len()) =~= rest.subrange(0, p@.len() as int));
        }
        assert(rest =~= v@.subrange(at as int, n as int));
    }
    text_between(&v, at, n)
}

/// Whether a condition is the readiness condition.
pub open spec fn is_ready_condition() -> spec_fn(NodeCondition) -> bool {
    |c: NodeCondition| c.kind@ == "Ready"@
}

/// The readiness of a node by its conditions.
pub open spec fn readiness(conditions: Seq<NodeCondition>) -> Seq<char> {
    match first_where(conditions, is_ready_condition()) {
        Some(c) => if c.status@ == "True"@ {
            "Ready"@
        } else {
            "NotReady"@
        },
        None => "Unknown"@,
    }
}

/// The status column of a node; a cordoned node is marked.
pub open spec fn node_status(node: Node) -> Seq<char> {
    let ready = readiness(match node.status {
        Some(s) => s.conditions@,
        None => Seq::empty(),
    });
    if node.unschedulable == Some(true) {
        ready + ",SchedulingDisabled"@
    } else {
        ready
    }
}

/// Whether a label key names a role.
pub open spec fn is_role_key() -> spec_fn(String) -> bool {
    |k: String| has_prefix(k@, "node-role.kubernetes.io/"@)
}

/// The role that a label key names.
pub open spec fn role_of_key() -> spec_fn(String) -> Seq<char> {
    |k: String| without_prefix(k@, "node-role.kubernetes.io/"@)
}

/// The roles of a node, in the order of its label keys.
pub open spec fn node_roles(node: Node) -> Seq<Seq<char>> {
    collect(node.meta.label_keys@, is_role_key(), role_of_key())
}

/// Whether an address is a node's internal address.
pub open spec fn is_internal_ip() -> spec_fn(NodeAddress) -> bool {
    |a: NodeAddress| a.kind@ == "InternalIP"@
}

/// The internal address of a node, or nothing.
pub open spec fn node_internal_ip(node: Node) -> Seq<char> {
    match node.status {
        Some(s) => match first_where(s.addresses@, is_internal_ip()) {
            Some(a) => a.address@,
            None => Seq::empty(),
        },
        None => Seq::empty(),
    }
}

/// Whether a row shows a node at a moment, given the readable forms of its
/// memory capacity and of its allocatable memory.
pub open spec fn shows_node(
    row: NodeInfo,
    node: Node,
    mem_capacity: Seq<char>,
    mem_allocatable: Seq<char>,
    now: Timestamp,
) -> bool {
    let cpu_cap = match node.status {
        Some(s) => text_or(s.cpu_capacity, Seq::empty()),
        None => Seq::empty(),
    };
    let cpu_alloc = match node.status {
        Some(s) => text_or(s.cpu_allocatable, Seq::empty()),
        None => Seq::empty(),
    };
    let version = match node.status {
        Some(s) => text_or(s.kubelet_version, Seq::empty()),
        None => Seq::empty(),
    };
    &&& row.name@ == text_or(node.meta.name, Seq::empty())
    &&& row.status@ == node_status(node)
    &&& texts(row.roles@) == node_roles(node)
    &&& row.cpu_capacity@ == cpu_cap
    &&& row.mem_capacity@ == (match node.status {
        Some(s) => text_or(s.mem_capacity, Seq::empty()),
        None => Seq::empty(),
    })
    &&& row.cpu_allocatable@ == cpu_alloc
    &&& row.mem_allocatable@ == (match node.status {
        Some(s) => text_or(s.mem_allocatable, Seq::empty()),
        None => Seq::empty(),
    })
    &&& row.age@ == age_column(now, node.meta.created)
    &&& row.roles_display@ == (if node_roles(node).len() == 0 {
        "<none>"@
    } else {
        joined(node_roles(node), ","@)
    })
    &&& row.mem_capacity_display@ == mem_capacity
    &&& row.mem_allocatable_display@ == mem_allocatable
    &&& row.cpu_display@ == cpu_alloc + "/"@ + cpu_cap
    &&& row.mem_display@ == mem_allocatable + "/"@ + mem_capacity
    &&& row.kubelet_version@ == version
    &&& row.top_display@ == "  "@ + version + "  CPU: "@ + (cpu_alloc + "/"@ + cpu_cap)
        + "  MEM: "@ + (mem_allocatable + "/"@ + mem_capacity)
    &&& row.internal_ip@ == node_internal_ip(node)
}

/// The readiness of a node by its conditions.
fn readiness_of(conditions: &Vec<NodeCondition>) -> (r: &'static str)
    ensures
        r@ == readiness(conditions@),
{
    let mut i: usize = 0;
    while i < conditions.len()
        invariant
            i <= conditions@.len(),
            forall|j: int| 0 <= j < i ==> !is_ready_condition()(#[trigger] conditions@[j]),
        decreases conditions@.len() - i,
    {
        if same(conditions[i].kind.as_str(), "Ready") {
            proof {
                lemma_first_index(conditions@, i as int, is_ready_condition());
            }
            if same(conditions[i].status.as_str(), "True") {
                return "Ready";
            }
            return "NotReady";
        }
        i += 1;
    }
    proof {
        lemma_first_index(conditions@, i as int, is_ready_condition());
    }
    "Unknown"
}

/// The roles of a node.
fn roles_of(keys: &Vec<String>) -> (r: Vec<String>)
    ensures
        texts(r@) == collect(keys@, is_role_key(), role_of_key()),
{
    let mut roles: Vec<String> = Vec::new();
    let mut i: usize = 0;
    proof {
        assert(texts(roles@) =~= collect(keys@.take(0), is_role_key(), role_of_key()));
    }
    while i < keys.len()
        invariant
            i <= keys@.len(),
            texts(roles@) == collect(keys@.take(i as int), is_role_key(), role_of_key()),
        decreases keys@.len() - i,
    {
        proof {
            lemma_collect_step(keys@, i as int, is_role_key(), role_of_key());
        }
        if starts_with(keys[i].as_str(), "node-role.kubernetes.io/") {
            roles.push(strip_prefix(keys[i].as_str(), "node-role.kubernetes.io/"));
        }
        i += 1;
    }
    roles
}

/// The internal address among a node's addresses.
fn internal_ip_of(addresses: &Vec<NodeAddress>) -> (r: String)
    ensures
        r@ == (match first_where(addresses@, is_internal_ip()) {
            Some(a) => a.address@,
            None => Seq::empty(),
        }),
{
    let mut i: usize = 0;
    while i < addresses.len()
        invariant
            i <= addresses@.len(),
            forall|j: int| 0 <= j < i ==> !is_internal_ip()(#[trigger] addresses@[j]),
        decreases addresses@.len() - i,
    {
        if same(addresses[i].kind.as_str(), "InternalIP") {
            proof {
                lemma_first_index(addresses@, i as int, is_internal_ip());
            }
            return addresses[i].address.clone();
        }
        i += 1;
    }
    proof {
        lemma_first_index(addresses@, i as int, is_internal_ip());
    }
    String::new()
}

/// One text over another, with a slash between.
fn over(a: &str, b: &str) -> (r: String)
    ensures
        r@ == a@ + "/"@ + b@,
{
    let mut out = a.to_owned();
    out.append("/");
    out.append(b);
    out
}

/// Makes a node's row, given the readable forms of its memory capacity and of
/// its allocatable memory.
pub fn node_info(
    node: &Node,
    mem_capacity_display: &str,
    mem_allocatable_display: &str,
    now: Timestamp,
) -> (r: NodeInfo)
    requires
        now.in_range(),
        node.meta.usable(),
    ensures
        shows_node(r, *node, mem_capacity_display@, mem_allocatable_display@, now),
{
    let mut ready = "Unknown";
    let mut cpu_capacity = String::new();
    let mut mem_capacity = String::new();
    let mut cpu_allocatable = String::new();
    let mut mem_allocatable = String::new();
    let mut kubelet_version = String::new();
    let mut internal_ip = String::new();
    proof {
        lemma_first_index(Seq::<NodeCondition>::empty(), 0, is_ready_condition());
    }
    if let Some(s) = &node.status {
        ready = readiness_of(&s.conditions);
        cpu_capacity = copy_or_empty(&s.cpu_capacity);
        mem_capacity = copy_or_empty(&s.mem_capacity);
        cpu_allocatable = copy_or_empty(&s.cpu_allocatable);
        mem_allocatable = copy_or_empty(&s.mem_allocatable);
        kubelet_version = copy_or_empty(&s.kubelet_version);
        internal_ip = internal_ip_of(&s.addresses);
    }
    let mut status = ready.to_owned();
    if let Some(true) = node.unschedulable {
        status.append(",SchedulingDisabled");
    }
    let roles = roles_of(&node.meta.label_keys);
    let roles_display = if roles.len() == 0 {
        "<none>".to_owned()
    } else {
        join(&roles, ",")
    };
    let cpu_display = over(cpu_allocatable.as_str(), cpu_capacity.as_str());
    let mem_display = over(mem_allocatable_display, mem_capacity_display);
    let mut top_display = "  ".to_owned();
    top_display.append(kubelet_version.as_str());
    top_display.append("  CPU: ");
    top_display.append(cpu_display.as_str());
    top_display.append("  MEM: ");
    top_display.append(mem_display.as_str());
    proof {
        assert(texts(roles@).len() == roles@.len());
    }
    NodeInfo {
        name: copy_or_empty(&node.meta.name),
        status,
        roles,
        cpu_capacity,
        mem_capacity,
        cpu_allocatable,
        mem_allocatable,
        age: format_age_column(now, node.meta.created),
        roles_display,
        mem_capacity_display: mem_capacity_display.to_owned(),
        mem_allocatable_display: mem_allocatable_display.to_owned(),
        cpu_display,
        mem_display,
        kubelet_version,
        top_display,
        internal_ip,
    }
}

/// A count, or zero where it is missing.
pub open spec fn or_zero(n: Option<i32>) -> i32 {
    match n {
        Some(v) => v,
        None => 0,
    }
}

/// Whether a row shows a deployment at a moment.
pub open spec fn shows_deployment(row: DeploymentInfo, dep: Deployment, now: Timestamp) -> bool {
    let ready = or_zero(dep.ready_replicas);
    let replicas = or_zero(dep.replicas);
    &&& row.name@ == text_or(dep.meta.name, Seq::empty())
    &&& row.namespace@ == text_or(dep.meta.namespace, Seq::empty())
    &&& row.ready@ == signed_decimal(ready as int) + "/"@ + signed_decimal(replicas as int)
    &&& row.ready_count == ready
    &&& row.desired_count == replicas
    &&& row.up_to_date == or_zero(dep.updated_replicas)
    &&& row.up_to_date_display@ == signed_decimal(or_zero(dep.updated_replicas) as int)
    &&& row.available == or_zero(dep.available_replicas)
    &&& row.available_display@ == signed_decimal(or_zero(dep.available_replicas) as int)
    &&& row.age@ == age_column(now, dep.meta.created)
}

/// Makes a deployment's row.
pub fn deployment_info(dep: &Deployment, now: Timestamp) -> (r: DeploymentInfo)
    requires
        now.in_range(),
        dep.meta.usable(),
    ensures
        shows_deployment(r, *dep, now),
{
    let replicas: i32 = dep.replicas.unwrap_or(0);
    let ready: i32 = dep.ready_replicas.unwrap_or(0);
    let up_to_date: i32 = dep.updated_replicas.unwrap_or(0);
    let available: i32 = dep.available_replicas.unwrap_or(0);
    DeploymentInfo {
        name: copy_or_empty(&dep.meta.name),
        namespace: copy_or_empty(&dep.meta.namespace),
        ready: over(decimal_i64(ready as i64).as_str(), decimal_i64(replicas as i64).as_str()),
        ready_count: ready,
        desired_count: replicas,
        up_to_date,
        up_to_date_display: decimal_i64(up_to_date as i64),
        available,
        available_display: decimal_i64(available as i64),
        age: format_age_column(now, dep.meta.created),
    }
}

/// The number of keys of a config map, text and binary together.
pub open spec fn key_count(cm: ConfigMap) -> int {
    (match cm.data_keys {
        Some(n) => n as int,
        None => 0,
    }) + (match cm.binary_data_keys {
        Some(n) => n as int,
        None => 0,
    })
}

/// Whether a row shows a config map at a moment.
pub open spec fn shows_configmap(row: ConfigMapInfo, cm: ConfigMap, now: Timestamp) -> bool {
    &&& row.name@ == text_or(cm.meta.name, Seq::empty())
    &&& row.namespace@ == text_or(cm.meta.namespace, Seq::empty())
    &&& row.data_keys_count == key_count(cm)
    &&& row.data_keys_display@ == decimal(key_count(cm) as nat)
    &&& row.age@ == age_column(now, cm.meta.created)
}

/// Makes a config map's row.
pub fn configmap_info(cm: &ConfigMap, now: Timestamp) -> (r: ConfigMapInfo)
    requires
        now.in_range(),
        cm.meta.usable(),
        key_count(*cm) <= usize::MAX,
    ensures
        shows_configmap(r, *cm, now),
{
    let data_keys_count: usize = cm.data_keys.unwrap_or(0) + cm.binary_data_keys.unwrap_or(0);
    ConfigMapInfo {
        name: copy_or_empty(&cm.meta.name),
        namespace: copy_or_empty(&cm.meta.namespace),
        data_keys_count,
        data_keys_display: decimal_usize(data_keys_count),
        age: format_age_column(now, cm.meta.created),
    }
}

/// How a port of a service reads: its number, its node port where it has one,
/// and its protocol.
pub open spec fn port_text() -> spec_fn(ServicePortSpec) -> Seq<char> {
    |p: ServicePortSpec|
        (match p.node_port {
            Some(np) => signed_decimal(p.port as int) + ":"@ + signed_decimal(np as int),
            None => signed_decimal(p.port as int),
        }) + "/"@ + text_or(p.protocol, "TCP"@)
}

/// The ports column of a service.
pub open spec fn ports_column(svc: Service) -> Seq<char> {
    match svc.spec {
        Some(s) => match s.ports {
            Some(ps) => joined(ps@.map_values(port_text()), ","@),
            None => Seq::empty(),
        },
        None => Seq::empty(),
    }
}

/// The address outside the cluster: the first ingress entry's address, or else
/// its host name.
pub open spec fn external_ip(svc: Service) -> Seq<char> {
    match svc.ingress {
        Some(list) => if list@.len() == 0 {
            "<none>"@
        } else if list@[0].ip is Some {
            list@[0].ip->0@
        } else {
            text_or(list@[0].hostname, "<none>"@)
        },
        None => "<none>"@,
    }
}

/// Whether a row shows a service at a moment.
pub open spec fn shows_service(row: ServiceInfo, svc: Service, now: Timestamp) -> bool {
    &&& row.name@ == text_or(svc.meta.name, Seq::empty())
    &&& row.namespace@ == text_or(svc.meta.namespace, Seq::empty())
    &&& row.svc_type@ == (match svc.spec {
        Some(s) => text_or(s.kind, "ClusterIP"@),
        None => "ClusterIP"@,
    })
    &&& row.cluster_ip@ == (match svc.spec {
        Some(s) => text_or(s.cluster_ip, "None"@),
        None => "None"@,
    })
    &&& row.external_ip@ == external_ip(svc)
    &&& row.ports@ == ports_column(svc)
    &&& row.age@ == age_column(now, svc.meta.created)
}

/// How the ports of a service read.
fn ports_text(ports: &Vec<ServicePortSpec>) -> (r: String)
    ensures
        r@ == joined(ports@.map_values(port_text()), ","@),
{
    let mut parts: Vec<String> = Vec::new();
    let mut i: usize = 0;
    while i < ports.len()
        invariant
            i <= ports@.len(),
            texts(parts@) =~= ports@.take(i as int).map_values(port_text()),
        decreases ports@.len() - i,
    {
        let p = &ports[i];
        let mut part = decimal_i64(p.port as i64);
        if let Some(np) = p.node_port {
            part.append(":");
            part.append(decimal_i64(np as i64).as_str());
        }
        part.append("/");
        part.append(copy_or(&p.protocol, "TCP").as_str());
        parts.push(part);
        i += 1;
        proof {
            assert(ports@.take(i as int).map_values(port_text()) =~= ports@.take(i - 1).map_values(
                port_text(),
            ).push(port_text()(ports@[i - 1])));
        }
    }
    join(&parts, ",")
}

/// Makes a service's row.
pub fn service_info(svc: &Service, now: Timestamp) -> (r: ServiceInfo)
    requires
        now.in_range(),
        svc.meta.usable(),
    ensures
        shows_service(r, *svc, now),
{
    let mut svc_type = "ClusterIP".to_owned();
    let mut cluster_ip = "None".to_owned();
    let mut ports = String::new();
    if let Some(s) = &svc.spec {
        svc_type = copy_or(&s.kind, "ClusterIP");
        cluster_ip = copy_or(&s.cluster_ip, "None");
        if let Some(list) = &s.ports {
            ports = ports_text(list);
        }
    }
    let mut external_ip = "<none>".to_owned();
    if let Some(list) = &svc.ingress {
        if list.len() > 0 {
            external_ip = match &list[0].ip {
                Some(ip) => ip.clone(),
                None => copy_or(&list[0].hostname, "<none>"),
            };
        }
    }
    ServiceInfo {
        name: copy_or_empty(&svc.meta.name),
        namespace: copy_or_empty(&svc.meta.namespace),
        svc_type,
        cluster_ip,
        external_ip,
        ports,
        age: format_age_column(now, svc.meta.created),
    }
}

/// When an event was last seen: its last occurrence, or else its time, or else
/// its creation.
pub open spec fn last_seen_at(evt: Event) -> Option<Timestamp> {
    if evt.last_timestamp is Some {
        evt.last_timestamp
    } else if evt.event_time is Some {
        evt.event_time
    } else {
        evt.meta.created
    }
}

/// Finds when an event was last seen.
fn find_last_seen(evt: &Event) -> (r: Option<Timestamp>)
    ensures
        r == last_seen_at(*evt),
{
    if evt.last_timestamp.is_some() {
        evt.last_timestamp
    } else if evt.event_time.is_some() {
        evt.event_time
    } else {
        evt.meta.created
    }
}

impl SortKey for Event {
    /// Events are sorted by when they were last seen, the most recent first;
    /// those without a time come last.
    open spec fn sort_key(&self) -> Seq<int> {
        match last_seen_at(*self) {
            Some(t) => seq![0, -(t.secs as int), -(t.nanos as int)],
            None => seq![1],
        }
    }

    fn precedes(&self, other: &Self) -> (r: bool) {
        proof {
            lemma_event_order(*self, *other);
        }
        match (find_last_seen(self), find_last_seen(other)) {
            (Some(a), Some(b)) => b.precedes(&a),
            (Some(_), None) => true,
            (None, _) => false,
        }
    }
}

/// Whether one time lies before another; a missing time lies before all others.
pub open spec fn seen_earlier(a: Option<Timestamp>, b: Option<Timestamp>) -> bool {
    match (a, b) {
        (Some(x), Some(y)) => x.is_before(y),
        (None, Some(_)) => true,
        (_, None) => false,
    }
}

/// Events are sorted against the order of their times.
proof fn lemma_event_order(a: Event, b: Event)
    ensures
        key_less(a.sort_key(), b.sort_key()) == seen_earlier(last_seen_at(b), last_seen_at(a)),
{
    let x = a.sort_key();
    let y = b.sort_key();
    reveal_with_fuel(key_less, 4);
    if x.len() == 3 && y.len() == 3 {
        assert(x.drop_first() =~= seq![x[1], x[2]]);
        assert(y.drop_first() =~= seq![y[1], y[2]]);
        assert(x.drop_first().drop_first() =~= seq![x[2]]);
        assert(y.drop_first().drop_first() =~= seq![y[2]]);
        assert(x.drop_first().drop_first().drop_first() =~= Seq::<int>::empty());
        assert(y.drop_first().drop_first().drop_first() =~= Seq::<int>::empty());
    }
    if x.len() == 1 && y.len() == 1 {
        assert(x.drop_first() =~= Seq::<int>::empty());
        assert(y.drop_first() =~= Seq::<int>::empty());
    }
}

/// Whether no event stands behind one that was last seen earlier.
pub open spec fn most_recent_first(events: Seq<Event>) -> bool {
    forall|i: int, j: int|
        0 <= i < j < events.len() ==> !seen_earlier(
            last_seen_at(#[trigger] events[i]),
            last_seen_at(#[trigger] events[j]),
        )
}

/// The object column of an event.
pub open spec fn event_object(evt: Event) -> Seq<char> {
    let kind = text_or(evt.object_kind, Seq::empty());
    let name = text_or(evt.object_name, Seq::empty());
    if kind.len() == 0 {
        name
    } else {
        kind + "/"@ + name
    }
}

/// Whether a row shows an event at a moment.
pub open spec fn shows_event(row: EventInfo, evt: Event, now: Timestamp) -> bool {
    let n = match evt.count {
        Some(n) => n,
        None => 1,
    };
    &&& row.namespace@ == text_or(evt.meta.namespace, Seq::empty())
    &&& row.name@ == text_or(evt.meta.name, Seq::empty())
    &&& row.event_type@ == text_or(evt.kind, "Normal"@)
    &&& row.reason@ == text_or(evt.reason, Seq::empty())
    &&& row.object@ == event_object(evt)
    &&& row.message@ == text_or(evt.message, Seq::empty())
    &&& row.count == n
    &&& row.count_display@ == signed_decimal(n as int)
    &&& row.last_seen@ == age_column(now, last_seen_at(evt))
    &&& row.age@ == age_column(now, evt.meta.created)
}

/// Whether an event's row can be made.
pub open spec fn event_usable(evt: Event) -> bool {
    evt.meta.usable() && usable(last_seen_at(evt))
}

/// Makes an event's row.
pub fn event_info(evt: &Event, now: Timestamp) -> (r: EventInfo)
    requires
        now.in_range(),
        event_usable(*evt),
    ensures
        shows_event(r, *evt, now),
{
    let kind = copy_or_empty(&evt.object_kind);
    let name = copy_or_empty(&evt.object_name);
    let object = if kind.as_str().is_empty() {
        name
    } else {
        over(kind.as_str(), name.as_str())
    };
    let last = find_last_seen(evt);
    let count: i32 = evt.count.unwrap_or(1);
    EventInfo {
        namespace: copy_or_empty(&evt.meta.namespace),
        name: copy_or_empty(&evt.meta.name),
        event_type: copy_or(&evt.kind, "Normal"),
        reason: copy_or_empty(&evt.reason),
        object,
        message: copy_or_empty(&evt.message),
        count,
        count_display: decimal_i64(count as i64),
        last_seen: format_age_column(now, last),
        age: format_age_column(now, evt.meta.created),
    }
}

/// Makes the rows of a list of events, the most recently seen first. Those
/// without a time come last, and events of the same time keep their order.
pub fn event_infos(events: Vec<Event>, now: Timestamp) -> (r: Vec<EventInfo>)
    requires
        now.in_range(),
        forall|i: int| 0 <= i < events@.len() ==> event_usable(#[trigger] events@[i]),
    ensures
        exists|order: Seq<Event>|
            {
                &&& #[trigger] stably_sorted(events@, order)
                &&& most_recent_first(order)
                &&& r@.len() == order.len()
                &&& forall|i: int|
                    0 <= i < order.len() ==> shows_event(#[trigger] r@[i], order[i], now)
            },
{
    let mut sorted = events;
    stable_sort(&mut sorted);
    proof {
        broadcast use vstd::seq_lib::group_to_multiset_ensures;

        assert forall|k: int| 0 <= k < sorted@.len() implies event_usable(
            #[trigger] sorted@[k],
        ) by {
            assert(sorted@.to_multiset().count(sorted@[k]) > 0);
            assert(events@.contains(sorted@[k]));
        }
        assert forall|i: int, j: int| 0 <= i < j < sorted@.len() implies !seen_earlier(
            last_seen_at(#[trigger] sorted@[i]),
            last_seen_at(#[trigger] sorted@[j]),
        ) by {
            lemma_event_order(sorted@[j], sorted@[i]);
        }
    }
    let mut rows: Vec<EventInfo> = Vec::new();
    let mut i: usize = 0;
    while i < sorted.len()
        invariant
            i <= sorted@.len(),
            now.in_range(),
            forall|k: int| 0 <= k < sorted@.len() ==> event_usable(#[trigger] sorted@[k]),
            rows@.len() == i,
            forall|k: int| 0 <= k < i ==> shows_event(#[trigger] rows@[k], sorted@[k], now),
        decreases sorted@.len() - i,
    {
        rows.push(event_info(&sorted[i], now));
        i += 1;
    }
    rows
}

/// Whether a name is there.
pub open spec fn is_named() -> spec_fn(Option<String>) -> bool {
    |n: Option<String>| n is Some
}

/// The name that is there.
pub open spec fn name_in() -> spec_fn(Option<String>) -> String {
    |n: Option<String>| n->0
}

/// The names of namespaces in ascending order; namespaces without a name are
/// left out.
pub fn namespace_names(names: &Vec<Option<String>>) -> (r: Vec<String>)
    ensures
        stably_sorted(collect(names@, is_named(), name_in()), r@),
{
    let mut found: Vec<String> = Vec::new();
    let mut i: usize = 0;
    proof {
        assert(found@ =~= collect(names@.take(0), is_named(), name_in()));
    }
    while i < names.len()
        invariant
            i <= names@.len(),
            found@ == collect(names@.take(i as int), is_named(), name_in()),
        decreases names@.len() - i,
    {
        proof {
            lemma_collect_step(names@, i as int, is_named(), name_in());
        }
        if let Some(name) = &names[i] {
            found.push(name.clone());
        }
        i += 1;
    }
    stable_sort(&mut found);
    found
}

} // verus!
