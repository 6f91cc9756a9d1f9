//! End-to-end health checks over cluster snapshots.
use vstd::prelude::*;
use crate::data::{ClusterSnapshot, DeploymentInfo, NodeInfo, PodInfo};
use crate::degradation::{
    is_suppressed, suppressed, suppressors, suppressors_for_check, KnownDegradation,
    KnownDegradationsConfig,
};
use crate::list::{
    collect, count, first_where, lemma_collect_step, lemma_count_positive, lemma_count_step,
    lemma_first_index, lemma_take_all,
};
use crate::snapshot::node_not_ready;
use crate::text::{
    before_char, contains, cut_before, decimal, decimal_usize, has_prefix, has_substring, join,
    joined, lemma_texts_push, parse_i32, parsed_i32, same, starts_with, texts,
};

verus! {

broadcast use {lemma_take_all, lemma_texts_push};

/// The outcome of one check.
#[derive(Debug)]
pub struct CheckResult {
    pub name: String,
    pub status: CheckStatus,
    pub message: String,
    /// Outcome per cluster, where the check looks at several.
    pub details: Vec<CheckDetail>,
}

/// The outcome of one check on one cluster.
#[derive(Debug)]
pub struct CheckDetail {
    pub cluster: String,
    pub passed: bool,
    pub message: String,
}

/// The status of a check.
#[derive(Debug, Clone, Copy, PartialEq, Eq, Structural)]
pub enum CheckStatus {
    Pass,
    Fail,
    Warn,
    Skip,
    /// A failure that the inventory of known degradations excuses.
    KnownDegraded,
}

/// The outcome of all checks.
#[derive(Debug)]
pub struct CheckReport {
    pub overall: CheckStatus,
    pub passed: usize,
    pub failed: usize,
    pub known_degraded: usize,
    pub total: usize,
    pub checks: Vec<CheckResult>,
}

// ---------------------------------------------------------------------------
// Model
// ---------------------------------------------------------------------------

/// A detail as a value.
#[verifier::ext_equal]
pub struct DetailModel {
    pub cluster: Seq<char>,
    pub passed: bool,
    pub message: Seq<char>,
}

/// A check's outcome as a value.
#[verifier::ext_equal]
pub struct CheckModel {
    pub name: Seq<char>,
    pub status: CheckStatus,
    pub message: Seq<char>,
    pub details: Seq<DetailModel>,
}

impl View for CheckDetail {
    type V = DetailModel;

    open spec fn view(&self) -> DetailModel {
        DetailModel { cluster: self.cluster@, passed: self.passed, message: self.message@ }
    }
}

/// The details as values.
pub open spec fn details_model(s: Seq<CheckDetail>) -> Seq<DetailModel> {
    s.map_values(|d: CheckDetail| d@)
}

impl View for CheckResult {
    type V = CheckModel;

    open spec fn view(&self) -> CheckModel {
        CheckModel {
            name: self.name@,
            status: self.status,
            message: self.message@,
            details: details_model(self.details@),
        }
    }
}

/// The outcomes as values.
pub open spec fn checks_model(s: Seq<CheckResult>) -> Seq<CheckModel> {
    s.map_values(|c: CheckResult| c@)
}

proof fn lemma_details_push(s: Seq<CheckDetail>, d: CheckDetail)
    ensures
        details_model(s.push(d)) == details_model(s).push(d@),
{
    assert(details_model(s.push(d)) =~= details_model(s).push(d@));
}

/// Whether every detail of a check passed.
pub open spec fn all_passed(details: Seq<DetailModel>) -> bool {
    forall|i: int| 0 <= i < details.len() ==> (#[trigger] details[i]).passed
}

/// A check that passes when all its details do, and fails otherwise.
pub open spec fn verdict(
    name: Seq<char>,
    details: Seq<DetailModel>,
    good: Seq<char>,
    bad: Seq<char>,
) -> CheckModel {
    CheckModel {
        name,
        status: if all_passed(details) {
            CheckStatus::Pass
        } else {
            CheckStatus::Fail
        },
        message: if all_passed(details) {
            good
        } else {
            bad
        },
        details,
    }
}

// ---------------------------------------------------------------------------
// Clusters reachable
// ---------------------------------------------------------------------------

/// Whether a cluster is among the snapshots.
pub open spec fn discovered(snapshots: Seq<ClusterSnapshot>, name: Seq<char>) -> bool {
    exists|i: int| 0 <= i < snapshots.len() && (#[trigger] snapshots[i]).name@ == name
}

/// What the reachability check says of an expected cluster.
pub open spec fn reachable_detail(
    snapshots: Seq<ClusterSnapshot>) -> spec_fn(Seq<char>,
) -> DetailModel {
    |name: Seq<char>|
        DetailModel {
            cluster: name,
            passed: discovered(snapshots, name),
            message: if discovered(snapshots, name) {
                "API reachable"@
            } else {
                "cluster not discovered — API unreachable"@
            },
        }
}

/// Whether an expected cluster is missing.
pub open spec fn missing_cluster(snapshots: Seq<ClusterSnapshot>) -> spec_fn(Seq<char>) -> bool {
    |name: Seq<char>| !discovered(snapshots, name)
}

/// The name of an expected cluster.
pub open spec fn expected_name() -> spec_fn(Seq<char>) -> Seq<char> {
    |name: Seq<char>| name
}

/// The names of expected clusters.
pub open spec fn names(expected: Seq<&str>) -> Seq<Seq<char>> {
    expected.map_values(|name: &str| name@)
}

/// Every expected cluster must have been discovered.
pub open spec fn reachable_check(
    snapshots: Seq<ClusterSnapshot>,
    expected: Seq<Seq<char>>,
) -> CheckModel {
    verdict(
        "cluster_api_reachable"@,
        expected.map_values(reachable_detail(snapshots)),
        "All "@ + decimal(expected.len()) + " cluster(s) API reachable"@,
        "Cluster(s) unreachable: "@ + joined(
            collect(expected, missing_cluster(snapshots), expected_name()),
            ", "@,
        ),
    )
}

/// Tests whether a cluster is among the snapshots.
fn is_discovered(snapshots: &[ClusterSnapshot], name: &str) -> (r: bool)
    ensures
        r == discovered(snapshots@, name@),
{
    let mut i: usize = 0;
    while i < snapshots.len()
        invariant
            i <= snapshots@.len(),
            forall|j: int| 0 <= j < i ==> (#[trigger] snapshots@[j]).name@ != name@,
        decreases snapshots@.len() - i,
    {
        if same(snapshots[i].name.as_str(), name) {
            return true;
        }
        i += 1;
    }
    false
}

/// Whether expected clusters are discovered, cluster by cluster.
pub fn check_cluster_api_reachable(snapshots: &[ClusterSnapshot], expected_clusters: &[&str]) -> (r:
    CheckResult)
    ensures
        r@ == reachable_check(snapshots@, names(expected_clusters@)),
{
    let ghost show = reachable_detail(snapshots@);
    let ghost wanted = names(expected_clusters@);
    let ghost want = wanted.map_values(show);
    let mut details: Vec<CheckDetail> = Vec::new();
    let mut missing: Vec<String> = Vec::new();
    let mut all_ok = true;
    let mut i: usize = 0;
    proof {
        assert(texts(missing@) =~= collect(
            wanted.take(0),
            missing_cluster(snapshots@),
            expected_name(),
        ));
        assert(details_model(details@) =~= want.take(0));
    }
    while i < expected_clusters.len()
        invariant
            i <= expected_clusters@.len(),
            show == reachable_detail(snapshots@),
            wanted == names(expected_clusters@),
            want == wanted.map_values(show),
            details_model(details@) == want.take(i as int),
            texts(missing@) == collect(
                wanted.take(i as int),
                missing_cluster(snapshots@),
                expected_name(),
            ),
            all_ok == all_passed(want.take(i as int)),
        decreases expected_clusters@.len() - i,
    {
        let expected = expected_clusters[i];
        let found = is_discovered(snapshots, expected);
        proof {
            assert(wanted[i as int] == expected@);
            lemma_collect_step(
                wanted,
                i as int,
                missing_cluster(snapshots@),
                expected_name(),
            );
        }
        if !found {
            all_ok = false;
            missing.push(expected.to_owned());
        }
        let detail = CheckDetail {
            cluster: expected.to_owned(),
            passed: found,
            message: if found {
                "API reachable".to_owned()
            } else {
                "cluster not discovered — API unreachable".to_owned()
            },
        };
        proof {
            lemma_details_push(details@, detail);
            lemma_all_passed_step(want, i as int);
            assert(detail@ == want[i as int]);
        }
        details.push(detail);
        i += 1;
    }
    let message = if all_ok {
        let mut m = "All ".to_owned();
        m.append(decimal_usize(expected_clusters.len()).as_str());
        m.append(" cluster(s) API reachable");
        m
    } else {
        let mut m = "Cluster(s) unreachable: ".to_owned();
        m.append(join(&missing, ", ").as_str());
        m
    };
    CheckResult {
        name: "cluster_api_reachable".to_owned(),
        status: if all_ok {
            CheckStatus::Pass
        } else {
            CheckStatus::Fail
        },
        message,
        details,
    }
}

proof fn lemma_all_passed_step(details: Seq<DetailModel>, i: int)
    requires
        0 <= i < details.len(),
    ensures
        all_passed(details.take(i + 1)) == (all_passed(details.take(i)) && details[i].passed),
        details.take(i + 1) == details.take(i).push(details[i]),
{
    let a = details.take(i);
    let b = details.take(i + 1);
    assert(b =~= a.push(details[i]));
    if all_passed(b) {
        assert(b[i].passed);
        assert forall|k: int| 0 <= k < a.len() implies (#[trigger] a[k]).passed by {
            assert(b[k].passed);
        }
    }
    if all_passed(a) && details[i].passed {
        assert forall|k: int| 0 <= k < b.len() implies (#[trigger] b[k]).passed by {
            if k < i {
                assert(a[k].passed);
            }
        }
    }
}

// ---------------------------------------------------------------------------
// Nodes ready
// ---------------------------------------------------------------------------

/// The name of a node.
pub open spec fn node_name() -> spec_fn(NodeInfo) -> Seq<char> {
    |n: NodeInfo| n.name@
}

/// What the node check says of a cluster.
pub open spec fn nodes_detail() -> spec_fn(ClusterSnapshot) -> DetailModel {
    |s: ClusterSnapshot|
        {
            let bad = collect(s.nodes@, node_not_ready(), node_name());
            DetailModel {
                cluster: s.name@,
                passed: bad.len() == 0 && s.nodes@.len() > 0,
                message: if s.nodes@.len() == 0 {
                    "no nodes found"@
                } else if bad.len() == 0 {
                    decimal(s.nodes@.len()) + "/"@ + decimal(s.nodes@.len()) + " nodes Ready"@
                } else {
                    decimal(bad.len()) + "/"@ + decimal(s.nodes@.len()) + " nodes not Ready: "@
                        + joined(bad, ", "@)
                },
            }
        }
}

/// The number of nodes of all clusters together.
pub open spec fn node_total(snapshots: Seq<ClusterSnapshot>) -> nat
    decreases snapshots.len(),
{
    if snapshots.len() == 0 {
        0
    } else {
        node_total(snapshots.drop_last()) + snapshots.last().nodes@.len()
    }
}

/// Every cluster must have nodes, all of them ready.
pub open spec fn nodes_check(snapshots: Seq<ClusterSnapshot>) -> CheckModel {
    verdict(
        "all_nodes_ready"@,
        snapshots.map_values(nodes_detail()),
        "All "@ + decimal(node_total(snapshots)) + " nodes Ready across "@ + decimal(
            snapshots.len(),
        ) + " cluster(s)"@,
        "Some nodes not Ready"@,
    )
}

/// The names of the nodes that are not ready.
fn not_ready_names(nodes: &Vec<NodeInfo>) -> (r: Vec<String>)
    ensures
        texts(r@) == collect(nodes@, node_not_ready(), node_name()),
{
    let mut out: Vec<String> = Vec::new();
    let mut i: usize = 0;
    proof {
        assert(texts(out@) =~= collect(nodes@.take(0), node_not_ready(), node_name()));
    }
    while i < nodes.len()
        invariant
            i <= nodes@.len(),
            texts(out@) == collect(nodes@.take(i as int), node_not_ready(), node_name()),
        decreases nodes@.len() - i,
    {
        proof {
            lemma_collect_step(nodes@, i as int, node_not_ready(), node_name());
        }
        if !starts_with(nodes[i].status.as_str(), "Ready") {
            out.push(nodes[i].name.clone());
        }
        i += 1;
    }
    out
}

/// What the node check says of a cluster.
fn nodes_detail_of(snap: &ClusterSnapshot) -> (r: CheckDetail)
    ensures
        r@ == nodes_detail()(*snap),
{
    let bad = not_ready_names(&snap.nodes);
    let n: usize = snap.nodes.len();
    proof {
        assert(texts(bad@).len() == bad@.len());
    }
    let message = if n == 0 {
        "no nodes found".to_owned()
    } else if bad.len() == 0 {
        let mut m = decimal_usize(n);
        m.append("/");
        m.append(decimal_usize(n).as_str());
        m.append(" nodes Ready");
        m
    } else {
        let mut m = decimal_usize(bad.len());
        m.append("/");
        m.append(decimal_usize(n).as_str());
        m.append(" nodes not Ready: ");
        m.append(join(&bad, ", ").as_str());
        m
    };
    CheckDetail { cluster: snap.name.clone(), passed: bad.len() == 0 && n > 0, message }
}

/// Whether all nodes of all clusters are ready.
pub fn check_all_nodes_ready(snapshots: &[ClusterSnapshot]) -> (r: CheckResult)
    requires
        node_total(snapshots@) <= usize::MAX,
    ensures
        r@ == nodes_check(snapshots@),
{
    let ghost want = snapshots@.map_values(nodes_detail());
    let mut details: Vec<CheckDetail> = Vec::new();
    let mut all_ok = true;
    let mut total: usize = 0;
    let mut i: usize = 0;
    proof {
        assert(details_model(details@) =~= want.take(0));
    }
    while i < snapshots.len()
        invariant
            i <= snapshots@.len(),
            want == snapshots@.map_values(nodes_detail()),
            details_model(details@) == want.take(i as int),
            all_ok == all_passed(want.take(i as int)),
            total == node_total(snapshots@.take(i as int)),
            node_total(snapshots@) <= usize::MAX,
        decreases snapshots@.len() - i,
    {
        let detail = nodes_detail_of(&snapshots[i]);
        proof {
            lemma_details_push(details@, detail);
            lemma_all_passed_step(want, i as int);
            assert(detail@ == want[i as int]);
            assert(snapshots@.take(i + 1).drop_last() =~= snapshots@.take(i as int));
            lemma_node_total_prefix(snapshots@, i + 1);
        }
        if !detail.passed {
            all_ok = false;
        }
        total += snapshots[i].nodes.len();
        details.push(detail);
        i += 1;
    }
    let message = if all_ok {
        let mut m = "All ".to_owned();
        m.append(decimal_usize(total).as_str());
        m.append(" nodes Ready across ");
        m.append(decimal_usize(snapshots.len()).as_str());
        m.append(" cluster(s)");
        m
    } else {
        "Some nodes not Ready".to_owned()
    };
    CheckResult {
        name: "all_nodes_ready".to_owned(),
        status: if all_ok {
            CheckStatus::Pass
        } else {
            CheckStatus::Fail
        },
        message,
        details,
    }
}

proof fn lemma_node_total_prefix(s: Seq<ClusterSnapshot>, n: int)
    requires
        0 <= n <= s.len(),
    ensures
        node_total(s.take(n)) <= node_total(s),
    decreases s.len() - n,
{
    if n < s.len() {
        lemma_node_total_prefix(s, n + 1);
        assert(s.take(n + 1).drop_last() =~= s.take(n));
    }
}

// ---------------------------------------------------------------------------
// Namespaces listed
// ---------------------------------------------------------------------------

/// What the namespace check says of a cluster.
pub open spec fn namespaces_detail() -> spec_fn(ClusterSnapshot) -> DetailModel {
    |s: ClusterSnapshot|
        DetailModel {
            cluster: s.name@,
            passed: s.namespaces@.len() > 0,
            message: if s.namespaces@.len() > 0 {
                decimal(s.namespaces@.len()) + " namespaces listed"@
            } else {
                "namespace listing empty"@
            },
        }
}

/// Every cluster must list namespaces.
pub open spec fn namespaces_check(snapshots: Seq<ClusterSnapshot>) -> CheckModel {
    verdict(
        "namespaces_listed"@,
        snapshots.map_values(namespaces_detail()),
        "Namespace listing OK on "@ + decimal(snapshots.len()) + " cluster(s)"@,
        "Namespace listing failed on some cluster(s)"@,
    )
}

/// Whether namespaces are listed on all clusters.
pub fn check_namespaces_listed(snapshots: &[ClusterSnapshot]) -> (r: CheckResult)
    ensures
        r@ == namespaces_check(snapshots@),
{
    let ghost want = snapshots@.map_values(namespaces_detail());
    let mut details: Vec<CheckDetail> = Vec::new();
    let mut all_ok = true;
    let mut i: usize = 0;
    proof {
        assert(details_model(details@) =~= want.take(0));
    }
    while i < snapshots.len()
        invariant
            i <= snapshots@.len(),
            want == snapshots@.map_values(namespaces_detail()),
            details_model(details@) == want.take(i as int),
            all_ok == all_passed(want.take(i as int)),
        decreases snapshots@.len() - i,
    {
        let snap = &snapshots[i];
        let passed = snap.namespaces.len() > 0;
        let message = if passed {
            let mut m = decimal_usize(snap.namespaces.len());
            m.append(" namespaces listed");
            m
        } else {
            all_ok = false;
            "namespace listing empty".to_owned()
        };
        let detail = CheckDetail { cluster: snap.name.clone(), passed, message };
        proof {
            lemma_details_push(details@, detail);
            lemma_all_passed_step(want, i as int);
            assert(detail@ == want[i as int]);
        }
        details.push(detail);
        i += 1;
    }
    let message = if all_ok {
        let mut m = "Namespace listing OK on ".to_owned();
        m.append(decimal_usize(snapshots.len()).as_str());
        m.append(" cluster(s)");
        m
    } else {
        "Namespace listing failed on some cluster(s)".to_owned()
    };
    CheckResult {
        name: "namespaces_listed".to_owned(),
        status: if all_ok {
            CheckStatus::Pass
        } else {
            CheckStatus::Fail
        },
        message,
        details,
    }
}

// ---------------------------------------------------------------------------
// Argo CD
// ---------------------------------------------------------------------------

/// Whether a snapshot is that of the management cluster.
pub open spec fn is_tower() -> spec_fn(ClusterSnapshot) -> bool {
    |s: ClusterSnapshot| s.name@ == "tower"@
}

/// Whether a deployment is one of Argo CD's.
pub open spec fn in_argocd() -> spec_fn(DeploymentInfo) -> bool {
    |d: DeploymentInfo| d.namespace@ == "argocd"@
}

/// Whether a deployment is Argo CD's server.
pub open spec fn is_argocd_server() -> spec_fn(DeploymentInfo) -> bool {
    |d: DeploymentInfo| d.namespace@ == "argocd"@ && has_substring(d.name@, "argocd-server"@)
}

/// Whether the ready column of a deployment starts with a positive number.
pub open spec fn has_ready(ready: Seq<char>) -> bool {
    parsed_i32(before_char(ready, '/')) is Some && parsed_i32(before_char(ready, '/'))->0 > 0
}

/// Whether a deployment of Argo CD has no ready replica.
pub open spec fn argocd_down() -> spec_fn(DeploymentInfo) -> bool {
    |d: DeploymentInfo| d.namespace@ == "argocd"@ && !has_ready(d.ready@)
}

/// A deployment with its ready column.
pub open spec fn deployment_summary() -> spec_fn(DeploymentInfo) -> Seq<char> {
    |d: DeploymentInfo| d.name@ + "="@ + d.ready@
}

/// The status of Argo CD by its deployments: the first server deployment must
/// have a ready replica; with all deployments ready it passes, otherwise it
/// warns.
pub open spec fn argocd_status(deployments: Seq<DeploymentInfo>) -> CheckStatus {
    match first_where(deployments, is_argocd_server()) {
        Some(server) => if !has_ready(server.ready@) {
            CheckStatus::Fail
        } else if count(deployments, argocd_down()) == 0 {
            CheckStatus::Pass
        } else {
            CheckStatus::Warn
        },
        None => CheckStatus::Fail,
    }
}

/// Argo CD must be up in the management cluster.
pub open spec fn argocd_check(snapshots: Seq<ClusterSnapshot>) -> CheckModel {
    match first_where(snapshots, is_tower()) {
        None => CheckModel {
            name: "argocd_synced"@,
            status: CheckStatus::Skip,
            message: "tower cluster not available — cannot check ArgoCD"@,
            details: Seq::empty(),
        },
        Some(snap) => {
            let status = argocd_status(snap.deployments@);
            let summaries = collect(snap.deployments@, in_argocd(), deployment_summary());
            CheckModel {
                name: "argocd_synced"@,
                status,
                message: if status == CheckStatus::Pass {
                    "ArgoCD healthy — "@ + decimal(summaries.len())
                        + " deployments in argocd namespace"@
                } else {
                    "ArgoCD not fully healthy"@
                },
                details: seq![
                    DetailModel {
                        cluster: "tower"@,
                        passed: status == CheckStatus::Pass,
                        message: if summaries.len() == 0 {
                            "no ArgoCD deployments found in argocd namespace"@
                        } else {
                            "ArgoCD deployments: "@ + joined(summaries, ", "@)
                        },
                    },
                ],
            }
        },
    }
}

/// Tests whether the ready column of a deployment starts with a positive number.
fn is_ready_column(ready: &str) -> (r: bool)
    ensures
        r == has_ready(ready@),
{
    match parse_i32(cut_before(ready, '/').as_str()) {
        Some(n) => n > 0,
        None => false,
    }
}

/// The position of the management cluster's snapshot.
fn find_tower(snapshots: &[ClusterSnapshot]) -> (r: Option<usize>)
    ensures
        match r {
            Some(i) => i < snapshots@.len() && first_where(snapshots@, is_tower()) == Some(
                snapshots@[i as int],
            ),
            None => first_where(snapshots@, is_tower()) is None,
        },
{
    let mut i: usize = 0;
    while i < snapshots.len()
        invariant
            i <= snapshots@.len(),
            forall|j: int| 0 <= j < i ==> !is_tower()(#[trigger] snapshots@[j]),
        decreases snapshots@.len() - i,
    {
        if same(snapshots[i].name.as_str(), "tower") {
            proof {
                lemma_first_index(snapshots@, i as int, is_tower());
            }
            return Some(i);
        }
        i += 1;
    }
    proof {
        lemma_first_index(snapshots@, i as int, is_tower());
    }
    None
}

/// The status of Argo CD by its deployments.
fn argocd_status_of(deployments: &Vec<DeploymentInfo>) -> (r: CheckStatus)
    ensures
        r == argocd_status(deployments@),
{
    let mut server: Option<usize> = None;
    let mut any_down = false;
    let mut i: usize = 0;
    while i < deployments.len()
        invariant
            i <= deployments@.len(),
            any_down == (count(deployments@.take(i as int), argocd_down()) > 0),
            match server {
                Some(k) => {
                    &&& k < i
                    &&& is_argocd_server()(deployments@[k as int])
                    &&& forall|j: int|
                        0 <= j < k ==> !is_argocd_server()(#[trigger] deployments@[j])
                },
                None => forall|j: int|
                    0 <= j < i ==> !is_argocd_server()(#[trigger] deployments@[j]),
            },
        decreases deployments@.len() - i,
    {
        proof {
            lemma_count_step(deployments@, i as int, argocd_down());
        }
        let d = &deployments[i];
        if same(d.namespace.as_str(), "argocd") {
            if server.is_none() && contains(d.name.as_str(), "argocd-server") {
                server = Some(i);
            }
            if !is_ready_column(d.ready.as_str()) {
                any_down = true;
            }
        }
        i += 1;
    }
    match server {
        Some(k) => {
            proof {
                lemma_first_index(deployments@, k as int, is_argocd_server());
            }
            if !is_ready_column(deployments[k].ready.as_str()) {
                CheckStatus::Fail
            } else if !any_down {
                CheckStatus::Pass
            } else {
                CheckStatus::Warn
            }
        },
        None => {
            proof {
                lemma_first_index(deployments@, deployments@.len() as int, is_argocd_server());
            }
            CheckStatus::Fail
        },
    }
}

/// Argo CD's deployments with their ready columns.
fn argocd_summaries(deployments: &Vec<DeploymentInfo>) -> (r: Vec<String>)
    ensures
        texts(r@) == collect(deployments@, in_argocd(), deployment_summary()),
{
    let mut out: Vec<String> = Vec::new();
    let mut i: usize = 0;
    proof {
        assert(texts(out@) =~= collect(deployments@.take(0), in_argocd(), deployment_summary()));
    }
    while i < deployments.len()
        invariant
            i <= deployments@.len(),
            texts(out@) == collect(deployments@.take(i as int), in_argocd(), deployment_summary()),
        decreases deployments@.len() - i,
    {
        proof {
            lemma_collect_step(deployments@, i as int, in_argocd(), deployment_summary());
        }
        let d = &deployments[i];
        if same(d.namespace.as_str(), "argocd") {
            out.push(paired(d.name.as_str(), d.ready.as_str()));
        }
        i += 1;
    }
    out
}

/// A name, an equals sign and a value.
fn paired(name: &str, value: &str) -> (r: String)
    ensures
        r@ == name@ + "="@ + value@,
{
    let mut out = name.to_owned();
    out.append("=");
    out.append(value);
    out
}

/// Whether Argo CD is up in the management cluster.
pub fn check_argocd_synced(snapshots: &[ClusterSnapshot]) -> (r: CheckResult)
    ensures
        r@ == argocd_check(snapshots@),
{
    match find_tower(snapshots) {
        None => {
            let details: Vec<CheckDetail> = Vec::new();
            proof {
                assert(details_model(details@) =~= Seq::empty());
            }
            CheckResult {
                name: "argocd_synced".to_owned(),
                status: CheckStatus::Skip,
                message: "tower cluster not available — cannot check ArgoCD".to_owned(),
                details,
            }
        },
        Some(k) => {
            let snap = &snapshots[k];
            let status = argocd_status_of(&snap.deployments);
            let summaries = argocd_summaries(&snap.deployments);
            proof {
                assert(texts(summaries@).len() == summaries@.len());
            }
            let detail_message = if summaries.len() == 0 {
                "no ArgoCD deployments found in argocd namespace".to_owned()
            } else {
                let mut m = "ArgoCD deployments: ".to_owned();
                m.append(join(&summaries, ", ").as_str());
                m
            };
            let message = if status == CheckStatus::Pass {
                let mut m = "ArgoCD healthy — ".to_owned();
                m.append(decimal_usize(summaries.len()).as_str());
                m.append(" deployments in argocd namespace");
                m
            } else {
                "ArgoCD not fully healthy".to_owned()
            };
            let mut details: Vec<CheckDetail> = Vec::new();
            details.push(
                CheckDetail {
                    cluster: "tower".to_owned(),
                    passed: status == CheckStatus::Pass,
                    message: detail_message,
                },
            );
            proof {
                assert(details_model(details@) =~= argocd_check(snapshots@).details);
            }
            CheckResult { name: "argocd_synced".to_owned(), status, message, details }
        },
    }
}

// ---------------------------------------------------------------------------
// Cloudflare tunnel
// ---------------------------------------------------------------------------

/// Whether a pod serves the Cloudflare tunnel.
pub open spec fn is_tunnel_pod() -> spec_fn(PodInfo) -> bool {
    |p: PodInfo|
        has_substring(p.name@, "cloudflared"@) || has_substring(p.name@, "cf-tunnel"@)
            || p.namespace@ == "kube-tunnel"@
}

/// Whether a pod serves the Cloudflare tunnel and is running.
pub open spec fn is_running_tunnel_pod() -> spec_fn(PodInfo) -> bool {
    |p: PodInfo| is_tunnel_pod()(p) && p.status@ == "Running"@
}

/// A tunnel pod with its status and namespace.
pub open spec fn tunnel_summary() -> spec_fn(PodInfo) -> Seq<char> {
    |p: PodInfo| p.name@ + "="@ + p.status@ + " ("@ + p.namespace@ + ")"@
}

/// The tunnel must run in the management cluster.
pub open spec fn tunnel_check(snapshots: Seq<ClusterSnapshot>) -> CheckModel {
    match first_where(snapshots, is_tower()) {
        None => CheckModel {
            name: "cf_tunnel_running"@,
            status: CheckStatus::Skip,
            message: "tower cluster not available — cannot check CF Tunnel"@,
            details: Seq::empty(),
        },
        Some(snap) => {
            let running = count(snap.pods@, is_running_tunnel_pod());
            let summaries = collect(snap.pods@, is_tunnel_pod(), tunnel_summary());
            let total = summaries.len();
            CheckModel {
                name: "cf_tunnel_running"@,
                status: if running > 0 {
                    CheckStatus::Pass
                } else {
                    CheckStatus::Fail
                },
                message: if running > 0 {
                    "CF Tunnel running — "@ + decimal(running) + "/"@ + decimal(total)
                        + " pod(s) healthy"@
                } else if total == 0 {
                    "CF Tunnel pod not found in tower cluster"@
                } else {
                    "CF Tunnel not running — "@ + decimal(running) + "/"@ + decimal(total)
                        + " pod(s) healthy"@
                },
                details: seq![
                    DetailModel {
                        cluster: "tower"@,
                        passed: running > 0,
                        message: if total == 0 {
                            "no cloudflared pods found"@
                        } else {
                            decimal(running) + "/"@ + decimal(total) + " Running: "@ + joined(
                                summaries,
                                ", "@,
                            )
                        },
                    },
                ],
            }
        },
    }
}

/// Tests whether a pod serves the Cloudflare tunnel.
fn serves_tunnel(p: &PodInfo) -> (r: bool)
    ensures
        r == is_tunnel_pod()(*p),
{
    contains(p.name.as_str(), "cloudflared") || contains(p.name.as_str(), "cf-tunnel") || same(
        p.namespace.as_str(),
        "kube-tunnel",
    )
}

/// The tunnel pods as text, and how many of them are running.
fn tunnel_summaries(pods: &Vec<PodInfo>) -> (r: (Vec<String>, usize))
    ensures
        texts(r.0@) == collect(pods@, is_tunnel_pod(), tunnel_summary()),
        r.1 == count(pods@, is_running_tunnel_pod()),
{
    let mut out: Vec<String> = Vec::new();
    let mut running: usize = 0;
    let mut i: usize = 0;
    proof {
        assert(texts(out@) =~= collect(pods@.take(0), is_tunnel_pod(), tunnel_summary()));
    }
    while i < pods.len()
        invariant
            running <= i <= pods@.len(),
            texts(out@) == collect(pods@.take(i as int), is_tunnel_pod(), tunnel_summary()),
            running == count(pods@.take(i as int), is_running_tunnel_pod()),
        decreases pods@.len() - i,
    {
        proof {
            lemma_collect_step(pods@, i as int, is_tunnel_pod(), tunnel_summary());
            lemma_count_step(pods@, i as int, is_running_tunnel_pod());
        }
        let p = &pods[i];
        if serves_tunnel(p) {
            let mut text = paired(p.name.as_str(), p.status.as_str());
            text.append(" (");
            text.append(p.namespace.as_str());
            text.append(")");
            out.push(text);
            if same(p.status.as_str(), "Running") {
                running += 1;
            }
        }
        i += 1;
    }
    (out, running)
}

/// A text, then one count over another, then a text.
fn ratio(before: &str, a: usize, b: usize, after: &str) -> (r: String)
    ensures
        r@ == before@ + decimal(a as nat) + "/"@ + decimal(b as nat) + after@,
{
    let mut m = before.to_owned();
    m.append(decimal_usize(a).as_str());
    m.append("/");
    m.append(decimal_usize(b).as_str());
    m.append(after);
    m
}

/// One count over another, then a text.
fn plain_ratio(a: usize, b: usize, after: &str) -> (r: String)
    ensures
        r@ == decimal(a as nat) + "/"@ + decimal(b as nat) + after@,
{
    let mut m = decimal_usize(a);
    m.append("/");
    m.append(decimal_usize(b).as_str());
    m.append(after);
    m
}

/// Whether the Cloudflare tunnel runs in the management cluster.
pub fn check_cf_tunnel_running(snapshots: &[ClusterSnapshot]) -> (r: CheckResult)
    ensures
        r@ == tunnel_check(snapshots@),
{
    match find_tower(snapshots) {
        None => {
            let details: Vec<CheckDetail> = Vec::new();
            proof {
                assert(details_model(details@) =~= Seq::empty());
            }
            CheckResult {
                name: "cf_tunnel_running".to_owned(),
                status: CheckStatus::Skip,
                message: "tower cluster not available — cannot check CF Tunnel".to_owned(),
                details,
            }
        },
        Some(k) => {
            let snap = &snapshots[k];
            let (summaries, running) = tunnel_summaries(&snap.pods);
            let total: usize = summaries.len();
            proof {
                assert(texts(summaries@).len() == summaries@.len());
            }
            let detail_message = if total == 0 {
                "no cloudflared pods found".to_owned()
            } else {
                let mut m = plain_ratio(running, total, " Running: ");
                m.append(join(&summaries, ", ").as_str());
                m
            };
            let message = if running > 0 {
                ratio("CF Tunnel running — ", running, total, " pod(s) healthy")
            } else if total == 0 {
                "CF Tunnel pod not found in tower cluster".to_owned()
            } else {
                ratio("CF Tunnel not running — ", running, total, " pod(s) healthy")
            };
            let mut details: Vec<CheckDetail> = Vec::new();
            details.push(
                CheckDetail {
                    cluster: "tower".to_owned(),
                    passed: running > 0,
                    message: detail_message,
                },
            );
            proof {
                assert(details_model(details@) =~= tunnel_check(snapshots@).details);
            }
            CheckResult {
                name: "cf_tunnel_running".to_owned(),
                status: if running > 0 {
                    CheckStatus::Pass
                } else {
                    CheckStatus::Fail
                },
                message,
                details,
            }
        },
    }
}

// ---------------------------------------------------------------------------
// Components that may be absent: Cilium and Kyverno
// ---------------------------------------------------------------------------

/// A component whose pods are looked at on every cluster.
#[derive(Debug, Clone, Copy, PartialEq, Eq, Structural)]
enum Component {
    HubbleRelay,
    Kyverno,
}

/// Whether a pod belongs to a component.
spec fn belongs(c: Component) -> spec_fn(PodInfo) -> bool {
    match c {
        Component::HubbleRelay => is_hubble_relay(),
        Component::Kyverno => is_kyverno(),
    }
}

/// Whether a pod belongs to a component and is running.
spec fn belongs_running(c: Component) -> spec_fn(PodInfo) -> bool {
    match c {
        Component::HubbleRelay => is_running_hubble_relay(),
        Component::Kyverno => is_running_kyverno(),
    }
}

/// Whether a pod belongs to a component and is not running.
spec fn belongs_degraded(c: Component) -> spec_fn(PodInfo) -> bool {
    match c {
        Component::HubbleRelay => is_degraded_hubble_relay(),
        Component::Kyverno => is_degraded_kyverno(),
    }
}

/// Whether a pod is a relay of Hubble.
pub open spec fn is_hubble_relay() -> spec_fn(PodInfo) -> bool {
    |p: PodInfo| has_substring(p.name@, "hubble-relay"@)
}

/// Whether a pod is a running relay of Hubble.
pub open spec fn is_running_hubble_relay() -> spec_fn(PodInfo) -> bool {
    |p: PodInfo| is_hubble_relay()(p) && p.status@ == "Running"@
}

/// Whether a pod is a relay of Hubble that is not running.
pub open spec fn is_degraded_hubble_relay() -> spec_fn(PodInfo) -> bool {
    |p: PodInfo| is_hubble_relay()(p) && p.status@ != "Running"@
}

/// Whether a pod is a lasting one of Kyverno: clean-up and test jobs do not
/// count.
pub open spec fn is_kyverno() -> spec_fn(PodInfo) -> bool {
    |p: PodInfo|
        {
            &&& p.namespace@ == "kyverno"@
            &&& {
                ||| has_prefix(p.name@, "kyverno-admission"@)
                ||| has_prefix(p.name@, "kyverno-background"@)
                ||| has_prefix(p.name@, "kyverno-reports"@)
                ||| p.name@ == "kyverno"@
                ||| has_prefix(p.name@, "kyverno-"@) && !has_substring(p.name@, "cleanup"@)
                    && !has_substring(p.name@, "test"@)
            }
        }
}

/// Whether a pod is a running one of Kyverno.
pub open spec fn is_running_kyverno() -> spec_fn(PodInfo) -> bool {
    |p: PodInfo| is_kyverno()(p) && p.status@ == "Running"@
}

/// Whether a pod is one of Kyverno that is not running.
pub open spec fn is_degraded_kyverno() -> spec_fn(PodInfo) -> bool {
    |p: PodInfo| is_kyverno()(p) && p.status@ != "Running"@
}

/// A pod with its status.
pub open spec fn pod_summary() -> spec_fn(PodInfo) -> Seq<char> {
    |p: PodInfo| p.name@ + "="@ + p.status@
}

/// What a component check says of a cluster: where the component is absent it
/// passes; otherwise `enough` of its pods must run.
pub open spec fn component_detail(
    cluster: Seq<char>,
    total: nat,
    running: nat,
    degraded: Seq<Seq<char>>,
    enough: bool,
    absent: Seq<char>,
    good: Seq<char>,
) -> DetailModel {
    DetailModel {
        cluster,
        passed: total == 0 || enough,
        message: if total == 0 {
            absent
        } else if enough {
            decimal(running) + "/"@ + decimal(total) + good
        } else {
            decimal(running) + "/"@ + decimal(total) + " Running; degraded: "@ + joined(
                degraded,
                ", "@,
            )
        },
    }
}

/// What the Cilium check says of a cluster: all relays must run.
pub open spec fn cilium_detail() -> spec_fn(ClusterSnapshot) -> DetailModel {
    |s: ClusterSnapshot|
        component_detail(
            s.name@,
            count(s.pods@, is_hubble_relay()),
            count(s.pods@, is_running_hubble_relay()),
            collect(s.pods@, is_degraded_hubble_relay(), pod_summary()),
            count(s.pods@, is_running_hubble_relay()) == count(s.pods@, is_hubble_relay()),
            "hubble-relay not deployed (Hubble may be disabled)"@,
            " hubble-relay pod(s) Running"@,
        )
}

/// What the Kyverno check says of a cluster: at least one pod must run.
pub open spec fn kyverno_detail() -> spec_fn(ClusterSnapshot) -> DetailModel {
    |s: ClusterSnapshot|
        component_detail(
            s.name@,
            count(s.pods@, is_kyverno()),
            count(s.pods@, is_running_kyverno()),
            collect(s.pods@, is_degraded_kyverno(), pod_summary()),
            count(s.pods@, is_running_kyverno()) > 0,
            "kyverno not deployed (policies may be disabled)"@,
            " kyverno pod(s) Running"@,
        )
}

/// Whether some cluster has a pod of some kind.
pub open spec fn deployed_somewhere(
    snapshots: Seq<ClusterSnapshot>,
    kind: spec_fn(PodInfo) -> bool,
) -> bool {
    exists|i: int| 0 <= i < snapshots.len() && count((#[trigger] snapshots[i]).pods@, kind) > 0
}

/// Cilium must be healthy wherever Hubble's relay is deployed; where it is
/// deployed nowhere, the check is skipped.
pub open spec fn cilium_check(snapshots: Seq<ClusterSnapshot>) -> CheckModel {
    let details = snapshots.map_values(cilium_detail());
    if deployed_somewhere(snapshots, is_hubble_relay()) {
        verdict(
            "cilium_healthy"@,
            details,
            "Cilium/hubble-relay healthy across "@ + decimal(snapshots.len()) + " cluster(s)"@,
            "hubble-relay not Running on one or more clusters (DNS timeout regression?)"@,
        )
    } else {
        CheckModel {
            name: "cilium_healthy"@,
            status: CheckStatus::Skip,
            message: "hubble-relay not deployed on any cluster — skipping Cilium check"@,
            details,
        }
    }
}

/// Kyverno must be healthy wherever it is deployed; where it is deployed
/// nowhere, the check is skipped.
pub open spec fn kyverno_check(snapshots: Seq<ClusterSnapshot>) -> CheckModel {
    let details = snapshots.map_values(kyverno_detail());
    if deployed_somewhere(snapshots, is_kyverno()) {
        verdict(
            "kyverno_healthy"@,
            details,
            "Kyverno admission controller healthy across "@ + decimal(snapshots.len())
                + " cluster(s)"@,
            "kyverno not Running on one or more clusters"@,
        )
    } else {
        CheckModel {
            name: "kyverno_healthy"@,
            status: CheckStatus::Skip,
            message: "kyverno not deployed on any cluster — skipping Kyverno check"@,
            details,
        }
    }
}

/// Tests whether a pod belongs to a component.
fn pod_belongs(c: Component, p: &PodInfo) -> (r: bool)
    ensures
        r == belongs(c)(*p),
{
    let name = p.name.as_str();
    match c {
        Component::HubbleRelay => contains(name, "hubble-relay"),
        Component::Kyverno => same(p.namespace.as_str(), "kyverno") && (starts_with(
            name,
            "kyverno-admission",
        ) || starts_with(name, "kyverno-background") || starts_with(name, "kyverno-reports")
            || same(name, "kyverno") || (starts_with(name, "kyverno-") && !contains(name, "cleanup")
            && !contains(name, "test"))),
    }
}

/// How many pods of a component a cluster has, how many run, and the others as
/// text.
fn component_pods(c: Component, pods: &Vec<PodInfo>) -> (r: (usize, usize, Vec<String>))
    ensures
        r.0 == count(pods@, belongs(c)),
        r.1 == count(pods@, belongs_running(c)),
        texts(r.2@) == collect(pods@, belongs_degraded(c), pod_summary()),
{
    let mut total: usize = 0;
    let mut running: usize = 0;
    let mut degraded: Vec<String> = Vec::new();
    let mut i: usize = 0;
    proof {
        assert(texts(degraded@) =~= collect(pods@.take(0), belongs_degraded(c), pod_summary()));
    }
    while i < pods.len()
        invariant
            total <= i <= pods@.len(),
            running <= i,
            total == count(pods@.take(i as int), belongs(c)),
            running == count(pods@.take(i as int), belongs_running(c)),
            texts(degraded@) == collect(pods@.take(i as int), belongs_degraded(c), pod_summary()),
        decreases pods@.len() - i,
    {
        proof {
            lemma_count_step(pods@, i as int, belongs(c));
            lemma_count_step(pods@, i as int, belongs_running(c));
            lemma_collect_step(pods@, i as int, belongs_degraded(c), pod_summary());
        }
        let p = &pods[i];
        if pod_belongs(c, p) {
            total += 1;
            if same(p.status.as_str(), "Running") {
                running += 1;
            } else {
                degraded.push(paired(p.name.as_str(), p.status.as_str()));
            }
        }
        i += 1;
    }
    (total, running, degraded)
}

/// What a component check says of a cluster.
spec fn detail_of(c: Component) -> spec_fn(ClusterSnapshot) -> DetailModel {
    match c {
        Component::HubbleRelay => cilium_detail(),
        Component::Kyverno => kyverno_detail(),
    }
}

/// What a component check says of a cluster, and whether the component is there.
fn component_detail_of(c: Component, snap: &ClusterSnapshot) -> (r: (CheckDetail, bool))
    ensures
        r.0@ == detail_of(c)(*snap),
        r.1 == (count(snap.pods@, belongs(c)) > 0),
{
    let (total, running, degraded) = component_pods(c, &snap.pods);
    let enough = match c {
        Component::HubbleRelay => running == total,
        Component::Kyverno => running > 0,
    };
    let message = if total == 0 {
        match c {
            Component::HubbleRelay => "hubble-relay not deployed (Hubble may be disabled)".to_owned(),
            Component::Kyverno => "kyverno not deployed (policies may be disabled)".to_owned(),
        }
    } else if enough {
        match c {
            Component::HubbleRelay => plain_ratio(running, total, " hubble-relay pod(s) Running"),
            Component::Kyverno => plain_ratio(running, total, " kyverno pod(s) Running"),
        }
    } else {
        let mut m = plain_ratio(running, total, " Running; degraded: ");
        m.append(join(&degraded, ", ").as_str());
        m
    };
    (CheckDetail { cluster: snap.name.clone(), passed: total == 0 || enough, message }, total > 0)
}

/// What a component check says of every cluster, whether the component is
/// deployed somewhere, and whether every cluster passes.
fn component_details(c: Component, snapshots: &[ClusterSnapshot]) -> (r: (
    Vec<CheckDetail>,
    bool,
    bool,
))
    ensures
        details_model(r.0@) == snapshots@.map_values(detail_of(c)),
        r.1 == deployed_somewhere(snapshots@, belongs(c)),
        r.2 == all_passed(snapshots@.map_values(detail_of(c))),
{
    let ghost want = snapshots@.map_values(detail_of(c));
    let mut details: Vec<CheckDetail> = Vec::new();
    let mut any = false;
    let mut all_ok = true;
    let mut i: usize = 0;
    proof {
        assert(details_model(details@) =~= want.take(0));
    }
    while i < snapshots.len()
        invariant
            i <= snapshots@.len(),
            want == snapshots@.map_values(detail_of(c)),
            details_model(details@) == want.take(i as int),
            all_ok == all_passed(want.take(i as int)),
            any == exists|j: int|
                0 <= j < i && count((#[trigger] snapshots@[j]).pods@, belongs(c)) > 0,
        decreases snapshots@.len() - i,
    {
        let (detail, present) = component_detail_of(c, &snapshots[i]);
        proof {
            lemma_details_push(details@, detail);
            lemma_all_passed_step(want, i as int);
            assert(detail@ == want[i as int]);
        }
        if present {
            any = true;
        }
        if !detail.passed {
            all_ok = false;
        }
        details.push(detail);
        i += 1;
    }
    (details, any, all_ok)
}

/// Whether Cilium is healthy: relays of Hubble run wherever they are deployed.
pub fn check_cilium_healthy(snapshots: &[ClusterSnapshot]) -> (r: CheckResult)
    ensures
        r@ == cilium_check(snapshots@),
{
    let (details, any, all_ok) = component_details(Component::HubbleRelay, snapshots);
    let message = if !any {
        "hubble-relay not deployed on any cluster — skipping Cilium check".to_owned()
    } else if all_ok {
        let mut m = "Cilium/hubble-relay healthy across ".to_owned();
        m.append(decimal_usize(snapshots.len()).as_str());
        m.append(" cluster(s)");
        m
    } else {
        "hubble-relay not Running on one or more clusters (DNS timeout regression?)".to_owned()
    };
    CheckResult {
        name: "cilium_healthy".to_owned(),
        status: if !any {
            CheckStatus::Skip
        } else if all_ok {
            CheckStatus::Pass
        } else {
            CheckStatus::Fail
        },
        message,
        details,
    }
}

/// Whether Kyverno is healthy: at least one pod runs wherever it is deployed.
pub fn check_kyverno_healthy(snapshots: &[ClusterSnapshot]) -> (r: CheckResult)
    ensures
        r@ == kyverno_check(snapshots@),
{
    let (details, any, all_ok) = component_details(Component::Kyverno, snapshots);
    let message = if !any {
        "kyverno not deployed on any cluster — skipping Kyverno check".to_owned()
    } else if all_ok {
        let mut m = "Kyverno admission controller healthy across ".to_owned();
        m.append(decimal_usize(snapshots.len()).as_str());
        m.append(" cluster(s)");
        m
    } else {
        "kyverno not Running on one or more clusters".to_owned()
    };
    CheckResult {
        name: "kyverno_healthy".to_owned(),
        status: if !any {
            CheckStatus::Skip
        } else if all_ok {
            CheckStatus::Pass
        } else {
            CheckStatus::Fail
        },
        message,
        details,
    }
}

// ---------------------------------------------------------------------------
// The report
// ---------------------------------------------------------------------------

/// Who acknowledged a degradation, and under which ticket.
pub open spec fn acknowledgement() -> spec_fn(KnownDegradation) -> Seq<char> {
    |e: KnownDegradation| "ack:"@ + e.acknowledged_by@ + " ticket:"@ + e.ticket@
}

/// A check after the inventory has been consulted: a failure that an entry
/// excuses becomes a known degradation and says who acknowledged it.
pub open spec fn excused(c: CheckModel, cfg: KnownDegradationsConfig) -> CheckModel {
    if c.status == CheckStatus::Fail && suppressed(cfg, c.name) {
        CheckModel {
            status: CheckStatus::KnownDegraded,
            message: c.message + " [known-degraded: "@ + joined(
                suppressors(cfg, c.name).map_values(acknowledgement()),
                "; "@,
            ) + "]"@,
            ..c
        }
    } else {
        c
    }
}

/// The seven checks in the order in which they are reported.
pub open spec fn all_checks(snapshots: Seq<ClusterSnapshot>, expected: Seq<Seq<char>>) -> Seq<
    CheckModel,
> {
    seq![
        reachable_check(snapshots, expected),
        nodes_check(snapshots),
        namespaces_check(snapshots),
        argocd_check(snapshots),
        tunnel_check(snapshots),
        cilium_check(snapshots),
        kyverno_check(snapshots),
    ]
}

/// A check after the inventory has been consulted.
pub open spec fn excusing(cfg: KnownDegradationsConfig) -> spec_fn(CheckModel) -> CheckModel {
    |c: CheckModel| excused(c, cfg)
}

/// Whether a check has a status.
pub open spec fn has_status(status: CheckStatus) -> spec_fn(CheckModel) -> bool {
    |c: CheckModel| c.status == status
}

/// The overall status: a failure fails, a warning or a known degradation
/// warns, anything else passes.
pub open spec fn overall_status(checks: Seq<CheckModel>) -> CheckStatus {
    if count(checks, has_status(CheckStatus::Fail)) > 0 {
        CheckStatus::Fail
    } else if count(checks, has_status(CheckStatus::Warn)) > 0 || count(
        checks,
        has_status(CheckStatus::KnownDegraded),
    ) > 0 {
        CheckStatus::Warn
    } else {
        CheckStatus::Pass
    }
}

/// Whether a report sums up a list of checks.
pub open spec fn reports(r: CheckReport, checks: Seq<CheckModel>) -> bool {
    &&& checks_model(r.checks@) == checks
    &&& r.passed == count(checks, has_status(CheckStatus::Pass))
    &&& r.failed == count(checks, has_status(CheckStatus::Fail))
    &&& r.known_degraded == count(checks, has_status(CheckStatus::KnownDegraded))
    &&& r.total == checks.len()
    &&& r.overall == overall_status(checks)
}

/// The acknowledgements of the entries that excuse a check, as one text.
fn acknowledgements(cfg: &KnownDegradationsConfig, check_name: &str) -> (r: String)
    ensures
        r@ == joined(suppressors(*cfg, check_name@).map_values(acknowledgement()), "; "@),
{
    let entries = suppressors_for_check(cfg, check_name);
    let ghost want = suppressors(*cfg, check_name@);
    let mut parts: Vec<String> = Vec::new();
    let mut i: usize = 0;
    proof {
        assert(entries@.map_values(|e: &KnownDegradation| *e).len() == entries@.len());
    }
    while i < entries.len()
        invariant
            i <= entries@.len() == want.len(),
            want == entries@.map_values(|e: &KnownDegradation| *e),
            texts(parts@) =~= want.take(i as int).map_values(acknowledgement()),
        decreases entries@.len() - i,
    {
        let e = entries[i];
        let mut part = "ack:".to_owned();
        part.append(e.acknowledged_by.as_str());
        part.append(" ticket:");
        part.append(e.ticket.as_str());
        parts.push(part);
        i += 1;
        proof {
            assert(want[i - 1] == *e);
            assert(want.take(i as int).map_values(acknowledgement()) =~= want.take(
                i - 1,
            ).map_values(acknowledgement()).push(acknowledgement()(*e)));
        }
    }
    join(&parts, "; ")
}

/// Consults the inventory for one check.
fn excuse(check: CheckResult, cfg: &KnownDegradationsConfig) -> (r: CheckResult)
    ensures
        r@ == excused(check@, *cfg),
{
    if check.status == CheckStatus::Fail && is_suppressed(cfg, check.name.as_str()) {
        let ack = acknowledgements(cfg, check.name.as_str());
        let mut message = check.message.clone();
        message.append(" [known-degraded: ");
        message.append(ack.as_str());
        message.append("]");
        CheckResult {
            name: check.name,
            status: CheckStatus::KnownDegraded,
            message,
            details: check.details,
        }
    } else {
        check
    }
}

/// Counts the checks that have a status.
fn count_status(checks: &Vec<CheckResult>, status: CheckStatus) -> (r: usize)
    ensures
        r == count(checks_model(checks@), has_status(status)),
{
    let ghost model = checks_model(checks@);
    let mut n: usize = 0;
    let mut i: usize = 0;
    while i < checks.len()
        invariant
            n <= i <= checks@.len(),
            model == checks_model(checks@),
            n == count(model.take(i as int), has_status(status)),
        decreases checks@.len() - i,
    {
        proof {
            lemma_count_step(model, i as int, has_status(status));
            assert(model[i as int] == checks@[i as int]@);
        }
        if checks[i].status == status {
            n += 1;
        }
        i += 1;
    }
    proof {
        assert(model.take(checks@.len() as int) =~= model);
    }
    n
}

/// Sums up a list of checks.
pub fn summarize_checks(checks: Vec<CheckResult>) -> (r: CheckReport)
    ensures
        reports(r, checks_model(checks@)),
{
    let passed: usize = count_status(&checks, CheckStatus::Pass);
    let failed: usize = count_status(&checks, CheckStatus::Fail);
    let known_degraded: usize = count_status(&checks, CheckStatus::KnownDegraded);
    let warned: usize = count_status(&checks, CheckStatus::Warn);
    let overall = if failed > 0 {
        CheckStatus::Fail
    } else if warned > 0 || known_degraded > 0 {
        CheckStatus::Warn
    } else {
        CheckStatus::Pass
    };
    CheckReport { overall, passed, failed, known_degraded, total: checks.len(), checks }
}

/// Runs all seven checks against the snapshots and consults the inventory of
/// known degradations.
pub fn run_e2e_checks(
    snapshots: &[ClusterSnapshot],
    expected_clusters: &[&str],
    known_degradations: &KnownDegradationsConfig,
) -> (r: CheckReport)
    requires
        node_total(snapshots@) <= usize::MAX,
    ensures
        reports(
            r,
            all_checks(snapshots@, names(expected_clusters@)).map_values(excusing(*known_degradations)),
        ),
{
    let mut checks: Vec<CheckResult> = Vec::new();
    checks.push(
        excuse(check_cluster_api_reachable(snapshots, expected_clusters), known_degradations),
    );
    checks.push(excuse(check_all_nodes_ready(snapshots), known_degradations));
    checks.push(excuse(check_namespaces_listed(snapshots), known_degradations));
    checks.push(excuse(check_argocd_synced(snapshots), known_degradations));
    checks.push(excuse(check_cf_tunnel_running(snapshots), known_degradations));
    checks.push(excuse(check_cilium_healthy(snapshots), known_degradations));
    checks.push(excuse(check_kyverno_healthy(snapshots), known_degradations));
    proof {
        assert(checks_model(checks@) =~= all_checks(snapshots@, names(expected_clusters@)).map_values(
            excusing(*known_degradations),
        ));
    }
    summarize_checks(checks)
}

// ---------------------------------------------------------------------------
// Laws
// ---------------------------------------------------------------------------

/// A report always covers seven checks.
pub proof fn law_seven_checks(
    r: CheckReport,
    snapshots: Seq<ClusterSnapshot>,
    expected: Seq<Seq<char>>,
    cfg: KnownDegradationsConfig,
)
    requires
        reports(r, all_checks(snapshots, expected).map_values(excusing(cfg))),
    ensures
        r.total == 7,
        r.checks@.len() == 7,
{
    assert(checks_model(r.checks@).len() == r.checks@.len());
}

/// A report fails as a whole exactly when some check fails; a check that the
/// inventory excuses never makes it fail.
pub proof fn law_overall_fails_iff_a_check_fails(r: CheckReport, checks: Seq<CheckModel>)
    requires
        reports(r, checks),
    ensures
        r.overall == CheckStatus::Fail <==> exists|i: int|
            0 <= i < checks.len() && (#[trigger] checks[i]).status == CheckStatus::Fail,
{
    lemma_count_positive(checks, has_status(CheckStatus::Fail));
    if count(checks, has_status(CheckStatus::Fail)) > 0 {
        let i = choose|i: int|
            0 <= i < checks.len() && has_status(CheckStatus::Fail)(#[trigger] checks[i]);
        assert(checks[i].status == CheckStatus::Fail);
    }
    if exists|i: int|
        0 <= i < checks.len() && (#[trigger] checks[i]).status == CheckStatus::Fail {
        let i = choose|i: int|
            0 <= i < checks.len() && (#[trigger] checks[i]).status == CheckStatus::Fail;
        assert(has_status(CheckStatus::Fail)(checks[i]));
    }
}

/// The inventory only ever turns a failure into a known degradation: no check
/// that is excused fails, and any other status, the name and the details stay.
pub proof fn law_excuse_touches_failures_only(c: CheckModel, cfg: KnownDegradationsConfig)
    ensures
        excused(c, cfg).name == c.name,
        excused(c, cfg).details == c.details,
        c.status != CheckStatus::Fail ==> excused(c, cfg) == c,
        c.status == CheckStatus::Fail && suppressed(cfg, c.name) ==> excused(c, cfg).status
            == CheckStatus::KnownDegraded,
        c.status == CheckStatus::Fail && !suppressed(cfg, c.name) ==> excused(c, cfg) == c,
{
}

/// With an empty inventory no check is excused.
pub proof fn law_empty_inventory_excuses_nothing(c: CheckModel, cfg: KnownDegradationsConfig)
    requires
        cfg.known_degradations@.len() == 0,
    ensures
        excused(c, cfg) == c,
{
}

/// Passed, failed and excused checks are different checks.
pub proof fn law_counts_disjoint(checks: Seq<CheckModel>)
    ensures
        count(checks, has_status(CheckStatus::Pass)) + count(checks, has_status(CheckStatus::Fail))
            + count(checks, has_status(CheckStatus::KnownDegraded)) <= checks.len(),
    decreases checks.len(),
{
    if checks.len() > 0 {
        law_counts_disjoint(checks.drop_last());
    }
}

} // verus!
