//! A cluster's snapshot: what is fetched for it, and how it is put together.
use vstd::prelude::*;
use crate::data::{
    ActiveResource, ClusterSnapshot, ConfigMapInfo, DeploymentInfo, EventInfo, HealthStatus,
    NodeInfo, PodInfo, ResourceUsage, ServiceInfo,
};
use crate::list::{count, lemma_count_step, lemma_take_all};
use crate::sort::{
    lemma_key_total, lemma_key_transitive, lemma_text_key_injective, stable_sort, stably_sorted,
    text_key, text_less, text_precedes,
};
use crate::text::{has_prefix, same, starts_with, texts};

verus! {

broadcast use lemma_take_all;

// ---------------------------------------------------------------------------
// Health and usage
// ---------------------------------------------------------------------------

/// Whether a pod status counts as failed.
pub open spec fn failed_status(s: Seq<char>) -> bool {
    ||| s == "Failed"@
    ||| s == "CrashLoopBackOff"@
    ||| s == "Error"@
    ||| s == "OOMKilled"@
    ||| s == "ImagePullBackOff"@
    ||| s == "ErrImagePull"@
    ||| s == "Evicted"@
}

/// Whether a pod has failed.
pub open spec fn pod_failed() -> spec_fn(PodInfo) -> bool {
    |p: PodInfo| failed_status(p.status@)
}

/// Whether a pod is running.
pub open spec fn pod_running() -> spec_fn(PodInfo) -> bool {
    |p: PodInfo| p.status@ == "Running"@
}

/// Whether a pod has completed.
pub open spec fn pod_succeeded() -> spec_fn(PodInfo) -> bool {
    |p: PodInfo| p.status@ == "Succeeded"@ || p.status@ == "Completed"@
}

/// Whether a node is ready, cordoned or not.
pub open spec fn node_ready() -> spec_fn(NodeInfo) -> bool {
    |n: NodeInfo| has_prefix(n.status@, "Ready"@)
}

/// Whether a node is not ready.
pub open spec fn node_not_ready() -> spec_fn(NodeInfo) -> bool {
    |n: NodeInfo| !has_prefix(n.status@, "Ready"@)
}

/// The health of a cluster: red with a node that is not ready or more than
/// five failed pods, yellow with any failed pod, green otherwise.
pub open spec fn health_of(nodes: Seq<NodeInfo>, pods: Seq<PodInfo>) -> HealthStatus {
    if count(nodes, node_not_ready()) > 0 || count(pods, pod_failed()) > 5 {
        HealthStatus::Red
    } else if count(pods, pod_failed()) > 0 {
        HealthStatus::Yellow
    } else {
        HealthStatus::Green
    }
}

/// Tests whether a pod status counts as failed.
pub fn is_failed_status(s: &str) -> (r: bool)
    ensures
        r == failed_status(s@),
{
    same(s, "Failed") || same(s, "CrashLoopBackOff") || same(s, "Error") || same(s, "OOMKilled")
        || same(s, "ImagePullBackOff") || same(s, "ErrImagePull") || same(s, "Evicted")
}

/// Counts the failed pods.
fn count_failed(pods: &[PodInfo]) -> (r: usize)
    ensures
        r == count(pods@, pod_failed()),
{
    let mut n: usize = 0;
    let mut i: usize = 0;
    while i < pods.len()
        invariant
            n <= i <= pods@.len(),
            n == count(pods@.take(i as int), pod_failed()),
        decreases pods@.len() - i,
    {
        proof {
            lemma_count_step(pods@, i as int, pod_failed());
        }
        if is_failed_status(pods[i].status.as_str()) {
            n += 1;
        }
        i += 1;
    }
    n
}

/// Counts the nodes that are ready, and those that are not.
fn count_ready(nodes: &[NodeInfo]) -> (r: (usize, usize))
    ensures
        r.0 == count(nodes@, node_ready()),
        r.1 == count(nodes@, node_not_ready()),
{
    let mut ready: usize = 0;
    let mut not_ready: usize = 0;
    let mut i: usize = 0;
    while i < nodes.len()
        invariant
            ready <= i <= nodes@.len(),
            not_ready <= i,
            ready == count(nodes@.take(i as int), node_ready()),
            not_ready == count(nodes@.take(i as int), node_not_ready()),
        decreases nodes@.len() - i,
    {
        proof {
            lemma_count_step(nodes@, i as int, node_ready());
            lemma_count_step(nodes@, i as int, node_not_ready());
        }
        if starts_with(nodes[i].status.as_str(), "Ready") {
            ready += 1;
        } else {
            not_ready += 1;
        }
        i += 1;
    }
    (ready, not_ready)
}

/// Computes the health of a cluster from its nodes and pods.
pub fn compute_health(nodes: &[NodeInfo], pods: &[PodInfo]) -> (r: HealthStatus)
    ensures
        r == health_of(nodes@, pods@),
{
    let (_ready, not_ready_nodes) = count_ready(nodes);
    let failed_pods: usize = count_failed(pods);
    if not_ready_nodes > 0 || failed_pods > 5 {
        HealthStatus::Red
    } else if failed_pods > 0 {
        HealthStatus::Yellow
    } else {
        HealthStatus::Green
    }
}

/// Whether a count of pods and nodes by state is that of a cluster.
pub open spec fn counts_usage(u: ResourceUsage, nodes: Seq<NodeInfo>, pods: Seq<PodInfo>) -> bool {
    &&& u.total_pods == pods.len()
    &&& u.running_pods == count(pods, pod_running())
    &&& u.succeeded_pods == count(pods, pod_succeeded())
    &&& u.failed_pods == count(pods, pod_failed())
    &&& u.total_nodes == nodes.len()
    &&& u.ready_nodes == count(nodes, node_ready())
}

/// Counts pods and nodes by state.
pub fn compute_resource_usage(nodes: &[NodeInfo], pods: &[PodInfo]) -> (r: ResourceUsage)
    ensures
        counts_usage(r, nodes@, pods@),
{
    let (ready_nodes, _not_ready) = count_ready(nodes);
    let mut running: usize = 0;
    let mut succeeded: usize = 0;
    let mut i: usize = 0;
    while i < pods.len()
        invariant
            running <= i <= pods@.len(),
            succeeded <= i,
            running == count(pods@.take(i as int), pod_running()),
            succeeded == count(pods@.take(i as int), pod_succeeded()),
        decreases pods@.len() - i,
    {
        proof {
            lemma_count_step(pods@, i as int, pod_running());
            lemma_count_step(pods@, i as int, pod_succeeded());
        }
        let status = pods[i].status.as_str();
        if same(status, "Running") {
            running += 1;
        }
        if same(status, "Succeeded") || same(status, "Completed") {
            succeeded += 1;
        }
        i += 1;
    }
    ResourceUsage {
        total_pods: pods.len(),
        running_pods: running,
        succeeded_pods: succeeded,
        failed_pods: count_failed(pods),
        total_nodes: nodes.len(),
        ready_nodes,
    }
}

/// A node is either ready or not, so the two counts make up all nodes.
pub proof fn law_nodes_split(nodes: Seq<NodeInfo>)
    ensures
        count(nodes, node_ready()) + count(nodes, node_not_ready()) == nodes.len(),
    decreases nodes.len(),
{
    if nodes.len() > 0 {
        law_nodes_split(nodes.drop_last());
    }
}

/// No pod is counted in two of the states running, completed and failed.
pub proof fn law_pod_states_disjoint(pods: Seq<PodInfo>)
    ensures
        count(pods, pod_running()) + count(pods, pod_succeeded()) + count(pods, pod_failed())
            <= pods.len(),
    decreases pods.len(),
{
    if pods.len() > 0 {
        law_pod_states_disjoint(pods.drop_last());
        reveal_strlit("Running");
        reveal_strlit("Succeeded");
        reveal_strlit("Completed");
        reveal_strlit("Failed");
        reveal_strlit("CrashLoopBackOff");
        reveal_strlit("Error");
        reveal_strlit("OOMKilled");
        reveal_strlit("ImagePullBackOff");
        reveal_strlit("ErrImagePull");
        reveal_strlit("Evicted");
        let s = pods.last().status@;
        if s == "Running"@ {
            assert(s[0] == 'R');
        } else if s == "Succeeded"@ {
            assert(s[0] == 'S');
        } else if s == "Completed"@ {
            assert(s[0] == 'C' && s[1] == 'o');
        }
        if failed_status(s) {
            assert(s[0] != 'R' && s[0] != 'S');
            assert(!(s[0] == 'C' && s[1] == 'o'));
        }
    }
}

// ---------------------------------------------------------------------------
// What to fetch
// ---------------------------------------------------------------------------

/// Which lists a snapshot fetches; nodes are always fetched.
#[derive(Debug, Clone, Copy, PartialEq, Eq, Structural)]
pub struct FetchPlan {
    pub namespaces: bool,
    pub pods: bool,
    pub deployments: bool,
    pub services: bool,
    pub configmaps: bool,
    pub events: bool,
}

/// Plans a fetch: everything without an active resource; otherwise the nodes,
/// the namespaces unless only nodes are shown, and the resource that is shown.
pub fn fetch_plan(active: Option<ActiveResource>) -> (r: FetchPlan)
    ensures
        r.namespaces == (active != Some(ActiveResource::Nodes)),
        r.pods == (active is None || active == Some(ActiveResource::Pods)),
        r.deployments == (active is None || active == Some(ActiveResource::Deployments)),
        r.services == (active is None || active == Some(ActiveResource::Services)),
        r.configmaps == (active is None || active == Some(ActiveResource::ConfigMaps)),
        r.events == (active is None || active == Some(ActiveResource::Events)),
{
    match active {
        None => FetchPlan {
            namespaces: true,
            pods: true,
            deployments: true,
            services: true,
            configmaps: true,
            events: true,
        },
        Some(a) => FetchPlan {
            namespaces: a != ActiveResource::Nodes,
            pods: a == ActiveResource::Pods,
            deployments: a == ActiveResource::Deployments,
            services: a == ActiveResource::Services,
            configmaps: a == ActiveResource::ConfigMaps,
            events: a == ActiveResource::Events,
        },
    }
}

// ---------------------------------------------------------------------------
// Namespaces
// ---------------------------------------------------------------------------

/// A row that belongs to a namespace.
pub trait Namespaced: Sized {
    /// The namespace of the row.
    spec fn in_namespace(&self) -> Seq<char>;

    /// Copies the namespace of the row.
    fn namespace_of(&self) -> (r: String)
        ensures
            r@ == self.in_namespace(),
    ;
}

impl Namespaced for PodInfo {
    open spec fn in_namespace(&self) -> Seq<char> {
        self.namespace@
    }

    fn namespace_of(&self) -> (r: String) {
        self.namespace.clone()
    }
}

impl Namespaced for DeploymentInfo {
    open spec fn in_namespace(&self) -> Seq<char> {
        self.namespace@
    }

    fn namespace_of(&self) -> (r: String) {
        self.namespace.clone()
    }
}

impl Namespaced for ServiceInfo {
    open spec fn in_namespace(&self) -> Seq<char> {
        self.namespace@
    }

    fn namespace_of(&self) -> (r: String) {
        self.namespace.clone()
    }
}

impl Namespaced for ConfigMapInfo {
    open spec fn in_namespace(&self) -> Seq<char> {
        self.namespace@
    }

    fn namespace_of(&self) -> (r: String) {
        self.namespace.clone()
    }
}

impl Namespaced for EventInfo {
    open spec fn in_namespace(&self) -> Seq<char> {
        self.namespace@
    }

    fn namespace_of(&self) -> (r: String) {
        self.namespace.clone()
    }
}

/// Whether some row of a list is in a namespace.
pub open spec fn some_row_in<T: Namespaced>(rows: Seq<T>, ns: Seq<char>) -> bool {
    exists|i: int| 0 <= i < rows.len() && (#[trigger] rows[i]).in_namespace() == ns
}

/// The list, or an empty one where it was not fetched.
pub open spec fn or_empty<T>(list: Option<Vec<T>>) -> Seq<T> {
    match list {
        Some(v) => v@,
        None => Seq::empty(),
    }
}

/// Whether texts stand in strictly ascending order.
pub open spec fn ascending(s: Seq<Seq<char>>) -> bool {
    forall|i: int, j: int| 0 <= i < j < s.len() ==> text_less(#[trigger] s[i], #[trigger] s[j])
}

/// Adds a text to an ascending list, unless it is there already.
pub(crate) fn insert_ascending(list: &mut Vec<String>, s: String)
    requires
        ascending(texts(old(list)@)),
    ensures
        ascending(texts(final(list)@)),
        forall|t: Seq<char>| #[trigger]
            texts(final(list)@).contains(t) <==> texts(old(list)@).contains(t) || t == s@,
{
    let n: usize = list.len();
    let ghost before = texts(list@);
    let mut at: usize = 0;
    while at < n && text_precedes(list[at].as_str(), s.as_str())
        invariant
            at <= n == list@.len(),
            before == texts(list@),
            forall|j: int| 0 <= j < at ==> text_less(#[trigger] before[j], s@),
        decreases n - at,
    {
        proof {
            assert(before[at as int] == list@[at as int]@);
        }
        at += 1;
    }
    if at < n && same(list[at].as_str(), s.as_str()) {
        proof {
            assert(before[at as int] == s@);
        }
        return ;
    }
    let ghost added = s@;
    proof {
        if at < n {
            assert(before[at as int] == list@[at as int]@);
            lemma_key_total(text_key(before[at as int]), text_key(added));
            if text_key(before[at as int]) == text_key(added) {
                lemma_text_key_injective(before[at as int], added);
            }
            assert(text_less(added, before[at as int]));
            assert forall|j: int| at <= j < n implies text_less(added, #[trigger] before[j]) by {
                if j > at {
                    lemma_key_transitive(
                        text_key(added),
                        text_key(before[at as int]),
                        text_key(before[j]),
                    );
                }
            }
        }
    }
    list.insert(at, s);
    proof {
        let after = texts(list@);
        assert(after =~= before.insert(at as int, added));
        assert forall|t: Seq<char>| #[trigger] after.contains(t) <==> before.contains(t) || t
            == added by {
            if before.contains(t) {
                let i = choose|i: int| 0 <= i < before.len() && before[i] == t;
                if i < at {
                    assert(after[i] == t);
                } else {
                    assert(after[i + 1] == t);
                }
            }
            if t == added {
                assert(after[at as int] == t);
            }
            if after.contains(t) && t != added {
                let i = choose|i: int| 0 <= i < after.len() && after[i] == t;
                if i < at {
                    assert(before[i] == t);
                } else {
                    assert(before[i - 1] == t);
                }
            }
        }
    }
}

/// Adds the namespaces of rows to an ascending list; rows without a namespace
/// add nothing.
fn add_namespaces<T: Namespaced>(list: &mut Vec<String>, rows: &Option<Vec<T>>)
    requires
        ascending(texts(old(list)@)),
    ensures
        ascending(texts(final(list)@)),
        forall|t: Seq<char>| #[trigger]
            texts(final(list)@).contains(t) <==> texts(old(list)@).contains(t) || (t.len() > 0
                && some_row_in(or_empty(*rows), t)),
{
    if let Some(v) = rows {
        let mut i: usize = 0;
        while i < v.len()
            invariant
                i <= v@.len(),
                ascending(texts(list@)),
                forall|t: Seq<char>| #[trigger]
                    texts(list@).contains(t) <==> texts(old(list)@).contains(t) || (t.len() > 0
                        && some_row_in(v@.take(i as int), t)),
            decreases v@.len() - i,
        {
            let ns = v[i].namespace_of();
            let ghost before = texts(list@);
            let ghost name = ns@;
            if !ns.as_str().is_empty() {
                insert_ascending(list, ns);
            }
            proof {
                assert forall|t: Seq<char>| #[trigger] texts(list@).contains(t) <==> texts(
                    old(list)@,
                ).contains(t) || (t.len() > 0 && some_row_in(v@.take(i + 1), t)) by {
                    let a = v@.take(i as int);
                    let b = v@.take(i + 1);
                    assert(before.contains(t) <==> texts(old(list)@).contains(t) || (t.len() > 0
                        && some_row_in(a, t)));
                    if some_row_in(a, t) {
                        let k = choose|k: int|
                            0 <= k < a.len() && (#[trigger] a[k]).in_namespace() == t;
                        assert(b[k] == a[k]);
                    }
                    if some_row_in(b, t) {
                        let k = choose|k: int|
                            0 <= k < b.len() && (#[trigger] b[k]).in_namespace() == t;
                        if k < i {
                            assert(a[k] == b[k]);
                        }
                    }
                    assert(b[i as int].in_namespace() == name);
                }
            }
            i += 1;
        }
    }
}

// ---------------------------------------------------------------------------
// Putting a snapshot together
// ---------------------------------------------------------------------------

/// The lists that were fetched for a cluster. A list that failed to load is
/// empty; one that was not asked for is missing.
pub struct Fetched {
    pub namespaces: Vec<String>,
    pub nodes: Vec<NodeInfo>,
    pub pods: Option<Vec<PodInfo>>,
    pub deployments: Option<Vec<DeploymentInfo>>,
    pub services: Option<Vec<ServiceInfo>>,
    pub configmaps: Option<Vec<ConfigMapInfo>>,
    pub events: Option<Vec<EventInfo>>,
}

impl Fetched {
    /// Whether some fetched row is in a namespace.
    pub open spec fn has_row_in(self, ns: Seq<char>) -> bool {
        ||| some_row_in(or_empty(self.pods), ns)
        ||| some_row_in(or_empty(self.deployments), ns)
        ||| some_row_in(or_empty(self.services), ns)
        ||| some_row_in(or_empty(self.configmaps), ns)
        ||| some_row_in(or_empty(self.events), ns)
    }
}

/// Whether a list names the namespaces of a cluster: those that were listed;
/// failing that the one asked for; failing that, in ascending order, those of
/// the rows that were fetched.
pub open spec fn lists_namespaces(
    names: Seq<Seq<char>>,
    asked: Option<Seq<char>>,
    fetched: Fetched,
) -> bool {
    if fetched.namespaces@.len() > 0 {
        names == texts(fetched.namespaces@)
    } else if asked is Some {
        names == seq![asked->0]
    } else {
        &&& ascending(names)
        &&& forall|t: Seq<char>| #[trigger]
            names.contains(t) <==> t.len() > 0 && fetched.has_row_in(t)
    }
}

/// Whether a snapshot is put together from what was fetched.
pub open spec fn assembles(
    snap: ClusterSnapshot,
    name: Seq<char>,
    asked: Option<Seq<char>>,
    fetched: Fetched,
) -> bool {
    &&& snap.name@ == name
    &&& lists_namespaces(texts(snap.namespaces@), asked, fetched)
    &&& stably_sorted(fetched.nodes@, snap.nodes@)
    &&& stably_sorted(or_empty(fetched.pods), snap.pods@)
    &&& stably_sorted(or_empty(fetched.deployments), snap.deployments@)
    &&& stably_sorted(or_empty(fetched.services), snap.services@)
    &&& stably_sorted(or_empty(fetched.configmaps), snap.configmaps@)
    &&& snap.events@ == or_empty(fetched.events)
    &&& snap.health == health_of(snap.nodes@, snap.pods@)
    &&& counts_usage(snap.resource_usage, snap.nodes@, snap.pods@)
}

/// The list, or an empty one where it was not fetched.
fn take_or_empty<T>(list: Option<Vec<T>>) -> (r: Vec<T>)
    ensures
        r@ == or_empty(list),
{
    match list {
        Some(v) => v,
        None => Vec::new(),
    }
}

/// Puts a cluster's snapshot together from what was fetched for it.
pub fn assemble_snapshot(cluster_name: &str, namespace: Option<&str>, fetched: Fetched) -> (r:
    ClusterSnapshot)
    ensures
        assembles(
            r,
            cluster_name@,
            match namespace {
                Some(ns) => Some(ns@),
                None => None,
            },
            fetched,
        ),
{
    let mut namespaces: Vec<String> = Vec::new();
    if fetched.namespaces.len() == 0 {
        if let Some(asked) = namespace {
            namespaces.push(asked.to_owned());
            proof {
                assert(texts(namespaces@) =~= seq![asked@]);
            }
        } else {
            add_namespaces(&mut namespaces, &fetched.pods);
            add_namespaces(&mut namespaces, &fetched.deployments);
            add_namespaces(&mut namespaces, &fetched.services);
            add_namespaces(&mut namespaces, &fetched.configmaps);
            add_namespaces(&mut namespaces, &fetched.events);
        }
    } else {
        namespaces = fetched.namespaces;
    }
    let mut nodes = fetched.nodes;
    stable_sort(&mut nodes);
    let mut pods = take_or_empty(fetched.pods);
    crate::data::sort_pods_by_severity(&mut pods);
    let mut deployments = take_or_empty(fetched.deployments);
    stable_sort(&mut deployments);
    let mut services = take_or_empty(fetched.services);
    stable_sort(&mut services);
    let mut configmaps = take_or_empty(fetched.configmaps);
    stable_sort(&mut configmaps);
    let events = take_or_empty(fetched.events);
    let health = compute_health(nodes.as_slice(), pods.as_slice());
    let resource_usage = compute_resource_usage(nodes.as_slice(), pods.as_slice());
    ClusterSnapshot {
        name: cluster_name.to_owned(),
        health,
        namespaces,
        nodes,
        pods,
        deployments,
        services,
        configmaps,
        events,
        resource_usage,
    }
}

/// The snapshot of a cluster from which nothing could be fetched.
pub fn unknown_snapshot(cluster_name: &str) -> (r: ClusterSnapshot)
    ensures
        r.name@ == cluster_name@,
        r.health == HealthStatus::Unknown,
        r.namespaces@.len() == 0,
        r.nodes@.len() == 0,
        r.pods@.len() == 0,
        r.deployments@.len() == 0,
        r.services@.len() == 0,
        r.configmaps@.len() == 0,
        r.events@.len() == 0,
        counts_usage(r.resource_usage, r.nodes@, r.pods@),
{
    ClusterSnapshot {
        name: cluster_name.to_owned(),
        health: HealthStatus::Unknown,
        namespaces: Vec::new(),
        nodes: Vec::new(),
        pods: Vec::new(),
        deployments: Vec::new(),
        services: Vec::new(),
        configmaps: Vec::new(),
        events: Vec::new(),
        resource_usage: ResourceUsage::default(),
    }
}

/// With a namespace filter a snapshot always names at least one namespace.
pub proof fn law_filtered_snapshot_has_namespace(
    snap: ClusterSnapshot,
    name: Seq<char>,
    asked: Seq<char>,
    fetched: Fetched,
)
    requires
        assembles(snap, name, Some(asked), fetched),
    ensures
        snap.namespaces@.len() > 0,
{
    assert(texts(snap.namespaces@).len() == snap.namespaces@.len());
}

/// The position of the metrics that belong to each node: the first with the
/// node's name.
pub fn match_metrics(nodes: &Vec<NodeInfo>, metric_names: &Vec<String>) -> (r: Vec<Option<usize>>)
    ensures
        r@.len() == nodes@.len(),
        forall|i: int| 0 <= i < nodes@.len() ==> (match #[trigger] r@[i] {
            Some(k) => {
                &&& k < metric_names@.len()
                &&& metric_names@[k as int]@ == nodes@[i].name@
                &&& forall|j: int| 0 <= j < k ==> (#[trigger] metric_names@[j])@ != nodes@[i].name@
            },
            None => !texts(metric_names@).contains(nodes@[i].name@),
        }),
{
    let mut out: Vec<Option<usize>> = Vec::new();
    let mut i: usize = 0;
    while i < nodes.len()
        invariant
            i <= nodes@.len(),
            out@.len() == i,
            forall|m: int| 0 <= m < i ==> (match #[trigger] out@[m] {
                Some(k) => {
                    &&& k < metric_names@.len()
                    &&& metric_names@[k as int]@ == nodes@[m].name@
                    &&& forall|j: int|
                        0 <= j < k ==> (#[trigger] metric_names@[j])@ != nodes@[m].name@
                },
                None => !texts(metric_names@).contains(nodes@[m].name@),
            }),
        decreases nodes@.len() - i,
    {
        out.push(find_text(metric_names, nodes[i].name.as_str()));
        i += 1;
    }
    out
}

/// The first position of a text in a list.
pub fn find_text(list: &Vec<String>, wanted: &str) -> (r: Option<usize>)
    ensures
        match r {
            Some(k) => {
                &&& k < list@.len()
                &&& list@[k as int]@ == wanted@
                &&& forall|j: int| 0 <= j < k ==> (#[trigger] list@[j])@ != wanted@
            },
            None => !texts(list@).contains(wanted@),
        },
{
    let mut i: usize = 0;
    while i < list.len()
        invariant
            i <= list@.len(),
            forall|j: int| 0 <= j < i ==> (#[trigger] list@[j])@ != wanted@,
        decreases list@.len() - i,
    {
        if same(list[i].as_str(), wanted) {
            return Some(i);
        }
        i += 1;
    }
    proof {
        assert forall|j: int| 0 <= j < texts(list@).len() implies texts(list@)[j] != wanted@ by {
            assert(list@[j]@ != wanted@);
        }
    }
    None
}

// ---------------------------------------------------------------------------
// Selecting a section for output
// ---------------------------------------------------------------------------

/// The part of a snapshot that is asked for by name.
#[derive(Debug)]
pub enum Section<'a> {
    Pods(&'a Vec<PodInfo>),
    Deployments(&'a Vec<DeploymentInfo>),
    Services(&'a Vec<ServiceInfo>),
    Nodes(&'a Vec<NodeInfo>),
    ConfigMaps(&'a Vec<ConfigMapInfo>),
    Events(&'a Vec<EventInfo>),
    Namespaces(&'a Vec<String>),
    /// The name is not that of a section; the message says so.
    Error(String),
}

/// A cluster with one section of its snapshot.
#[derive(Debug)]
pub struct FilteredCluster<'a> {
    pub cluster: &'a str,
    pub health: HealthStatus,
    pub section: Section<'a>,
}

/// Whether a section is the one that a resource name asks for.
pub open spec fn is_section(
    section: Section<'_>,
    snap: ClusterSnapshot,
    resource: Seq<char>,
) -> bool {
    if resource == "pods"@ {
        section matches Section::Pods(rows) && *rows == snap.pods
    } else if resource == "deployments"@ {
        section matches Section::Deployments(rows) && *rows == snap.deployments
    } else if resource == "services"@ {
        section matches Section::Services(rows) && *rows == snap.services
    } else if resource == "nodes"@ {
        section matches Section::Nodes(rows) && *rows == snap.nodes
    } else if resource == "configmaps"@ {
        section matches Section::ConfigMaps(rows) && *rows == snap.configmaps
    } else if resource == "events"@ {
        section matches Section::Events(rows) && *rows == snap.events
    } else if resource == "namespaces"@ {
        section matches Section::Namespaces(names) && *names == snap.namespaces
    } else {
        section matches Section::Error(message) && message@ == (if resource == "checks"@ {
            "use run_e2e_checks() for checks mode"@
        } else {
            "Unknown resource type: "@ + resource
        })
    }
}

/// Selects the section that a resource name asks for.
fn select_section<'a>(snap: &'a ClusterSnapshot, resource: &str) -> (r: Section<'a>)
    ensures
        is_section(r, *snap, resource@),
{
    if same(resource, "pods") {
        Section::Pods(&snap.pods)
    } else if same(resource, "deployments") {
        Section::Deployments(&snap.deployments)
    } else if same(resource, "services") {
        Section::Services(&snap.services)
    } else if same(resource, "nodes") {
        Section::Nodes(&snap.nodes)
    } else if same(resource, "configmaps") {
        Section::ConfigMaps(&snap.configmaps)
    } else if same(resource, "events") {
        Section::Events(&snap.events)
    } else if same(resource, "namespaces") {
        Section::Namespaces(&snap.namespaces)
    } else if same(resource, "checks") {
        Section::Error("use run_e2e_checks() for checks mode".to_owned())
    } else {
        let mut message = "Unknown resource type: ".to_owned();
        message.append(resource);
        Section::Error(message)
    }
}

/// Selects from each snapshot the section that a resource name asks for.
pub fn filter_snapshot_by_resource<'a>(snapshots: &'a [ClusterSnapshot], resource: &str) -> (r: Vec<
    FilteredCluster<'a>,
>)
    ensures
        r@.len() == snapshots@.len(),
        forall|i: int|
            0 <= i < r@.len() ==> {
                &&& (#[trigger] r@[i]).cluster@ == snapshots@[i].name@
                &&& r@[i].health == snapshots@[i].health
                &&& is_section(r@[i].section, snapshots@[i], resource@)
            },
{
    let mut out: Vec<FilteredCluster<'a>> = Vec::new();
    let mut i: usize = 0;
    while i < snapshots.len()
        invariant
            i <= snapshots@.len(),
            out@.len() == i,
            forall|k: int|
                0 <= k < i ==> {
                    &&& (#[trigger] out@[k]).cluster@ == snapshots@[k].name@
                    &&& out@[k].health == snapshots@[k].health
                    &&& is_section(out@[k].section, snapshots@[k], resource@)
                },
        decreases snapshots@.len() - i,
    {
        let snap = &snapshots[i];
        out.push(
            FilteredCluster {
                cluster: snap.name.as_str(),
                health: snap.health,
                section: select_section(snap, resource),
            },
        );
        i += 1;
    }
    out
}

/// A cluster's health as it is written in output.
pub fn health_text(health: HealthStatus) -> (r: &'static str)
    ensures
        r@ == (match health {
            HealthStatus::Green => "green"@,
            HealthStatus::Yellow => "yellow"@,
            HealthStatus::Red => "red"@,
            HealthStatus::Unknown => "unknown"@,
        }),
{
    match health {
        HealthStatus::Green => "green",
        HealthStatus::Yellow => "yellow",
        HealthStatus::Red => "red",
        HealthStatus::Unknown => "unknown",
    }
}

} // verus!
