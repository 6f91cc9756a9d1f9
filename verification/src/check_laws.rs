//! Laws of the health checks: what must hold of the clusters for a check to pass.
use vstd::prelude::*;
use crate::checks::{
    all_checks, argocd_check, argocd_down, cilium_check, cilium_detail, excused, has_ready,
    is_argocd_server, is_degraded_hubble_relay, is_hubble_relay, is_kyverno,
    is_running_hubble_relay, is_running_kyverno, is_running_tunnel_pod, is_tower, kyverno_check,
    kyverno_detail, namespaces_check, namespaces_detail, nodes_check, nodes_detail, overall_status,
    reachable_check, reachable_detail, tunnel_check, CheckModel, CheckStatus,
};
use crate::data::{ClusterSnapshot, DeploymentInfo, PodInfo};
use crate::degradation::{suppressed, KnownDegradationsConfig};
use crate::headless::{failed, fetched, is_target, FetchOutcome};
use crate::kube_client::ClusterClient;
use crate::list::{
    count, first_where, lemma_collect_len, lemma_count_extremes, lemma_first_where,
    lemma_first_where_at, lemma_positions_contains, positions,
};
use crate::snapshot::node_not_ready;
use crate::text::{
    all_digits, before_char, decimal, digit_char, digits_value, has_prefix, has_substring, is_digit,
    signed_decimal, texts,
};

verus! {

// ---------------------------------------------------------------------------
// Numbers in columns
// ---------------------------------------------------------------------------

/// A number that is written down is read as the same number.
pub proof fn law_written_numbers_are_read_back(n: nat)
    ensures
        all_digits(decimal(n)),
        digits_value(decimal(n)) == n,
    decreases n,
{
    if n < 10 {
        let s = decimal(n);
        assert(s =~= seq![digit_char(n as int)]);
        assert(s.drop_last() =~= Seq::empty());
        assert(digits_value(s.drop_last()) == 0);
        assert(is_digit(s[0]));
    } else {
        law_written_numbers_are_read_back(n / 10);
        let s = decimal(n);
        assert(s.drop_last() =~= decimal(n / 10));
        assert forall|i: int| 0 <= i < s.len() implies is_digit(#[trigger] s[i]) by {
            if i < s.len() - 1 {
                assert(s[i] == decimal(n / 10)[i]);
            }
        }
    }
}

/// What stands before a character that does not occur earlier.
proof fn lemma_before_char(a: Seq<char>, c: char, b: Seq<char>)
    requires
        forall|i: int| 0 <= i < a.len() ==> #[trigger] a[i] != c,
    ensures
        before_char(a + seq![c] + b, c) == a,
    decreases a.len(),
{
    let all = a + seq![c] + b;
    if a.len() > 0 {
        assert(all.drop_first() =~= a.drop_first() + seq![c] + b);
        assert forall|i: int| 0 <= i < a.drop_first().len() implies #[trigger] a.drop_first()[i]
            != c by {
            assert(a.drop_first()[i] == a[i + 1]);
        }
        lemma_before_char(a.drop_first(), c, b);
        assert(seq![a[0]] + a.drop_first() =~= a);
    } else {
        assert(before_char(all, c) =~= a);
    }
}

/// A column of ready replicas out of all shows some ready exactly if there are.
pub proof fn law_ready_column(ready: int, behind: Seq<char>)
    requires
        -2147483648 <= ready <= 2147483647,
    ensures
        has_ready(signed_decimal(ready) + "/"@ + behind) <==> ready > 0,
{
    reveal_strlit("/");
    let column = signed_decimal(ready) + "/"@ + behind;
    assert("/"@ =~= seq!['/']);
    let n = if ready < 0 {
        -ready
    } else {
        ready
    } as nat;
    law_written_numbers_are_read_back(n);
    let s = signed_decimal(ready);
    assert forall|i: int| 0 <= i < s.len() implies #[trigger] s[i] != '/' by {
        if ready < 0 {
            if i > 0 {
                assert(s[i] == decimal(n)[i - 1]);
                assert(is_digit(decimal(n)[i - 1]));
            }
        } else {
            assert(is_digit(decimal(n)[i]));
        }
    }
    lemma_before_char(s, '/', behind);
    assert(before_char(column, '/') == s);
    if ready < 0 {
        assert(s.skip(1) =~= decimal(n));
    } else {
        assert(is_digit(s[0]));
    }
}

// ---------------------------------------------------------------------------
// All clusters
// ---------------------------------------------------------------------------

/// The clusters are reachable exactly if each that is expected has a snapshot; the
/// check says of each whether it has, and fails otherwise.
pub proof fn law_reachable_if_all_have_snapshots(
    snapshots: Seq<ClusterSnapshot>,
    expected: Seq<Seq<char>>,
)
    ensures
        ({
            let r = reachable_check(snapshots, expected);
            &&& r.name == "cluster_api_reachable"@
            &&& r.details.len() == expected.len()
            &&& forall|i: int|
                0 <= i < expected.len() ==> (#[trigger] r.details[i]).cluster == expected[i]
                    && r.details[i].passed == exists|k: int|
                    0 <= k < snapshots.len() && (#[trigger] snapshots[k]).name@ == expected[i]
            &&& r.status == CheckStatus::Pass <==> forall|i: int|
                0 <= i < expected.len() ==> exists|k: int|
                    0 <= k < snapshots.len() && (#[trigger] snapshots[k]).name@
                        == #[trigger] expected[i]
            &&& r.status == CheckStatus::Pass || r.status == CheckStatus::Fail
        }),
{
    let r = reachable_check(snapshots, expected);
    assert forall|i: int| 0 <= i < expected.len() implies (#[trigger] r.details[i]).cluster
        == expected[i] && r.details[i].passed == exists|k: int|
        0 <= k < snapshots.len() && (#[trigger] snapshots[k]).name@ == expected[i] by {
        assert(r.details[i] == reachable_detail(snapshots)(expected[i]));
    }
    if r.status == CheckStatus::Pass {
        assert forall|i: int| 0 <= i < expected.len() implies exists|k: int|
            0 <= k < snapshots.len() && (#[trigger] snapshots[k]).name@
                == #[trigger] expected[i] by {
            assert(r.details[i].passed);
        }
    } else {
        let i = choose|i: int| 0 <= i < r.details.len() && !(#[trigger] r.details[i]).passed;
        assert(!(exists|k: int|
            0 <= k < snapshots.len() && (#[trigger] snapshots[k]).name@ == expected[i]));
    }
}

/// Whether a cluster has nodes and all of them are ready.
pub open spec fn nodes_are_ready(s: ClusterSnapshot) -> bool {
    s.nodes@.len() > 0 && forall|k: int|
        0 <= k < s.nodes@.len() ==> has_prefix((#[trigger] s.nodes@[k]).status@, "Ready"@)
}

/// The nodes are ready exactly if each cluster has some and all of them are; the
/// check says so of each cluster, and fails otherwise.
pub proof fn law_nodes_ready_if_all_are(snapshots: Seq<ClusterSnapshot>)
    ensures
        ({
            let r = nodes_check(snapshots);
            &&& r.name == "all_nodes_ready"@
            &&& r.details.len() == snapshots.len()
            &&& forall|i: int|
                0 <= i < snapshots.len() ==> (#[trigger] r.details[i]).cluster
                    == snapshots[i].name@ && r.details[i].passed == nodes_are_ready(snapshots[i])
            &&& r.status == CheckStatus::Pass <==> forall|i: int|
                0 <= i < snapshots.len() ==> nodes_are_ready(#[trigger] snapshots[i])
            &&& r.status == CheckStatus::Pass || r.status == CheckStatus::Fail
        }),
{
    let r = nodes_check(snapshots);
    assert forall|i: int| 0 <= i < snapshots.len() implies (#[trigger] r.details[i]).cluster
        == snapshots[i].name@ && r.details[i].passed == nodes_are_ready(snapshots[i]) by {
        let s = snapshots[i];
        assert(r.details[i] == nodes_detail()(s));
        lemma_collect_len(s.nodes@, node_not_ready(), crate::checks::node_name());
        lemma_count_extremes(s.nodes@, node_not_ready());
        if count(s.nodes@, node_not_ready()) == 0 {
            assert forall|k: int| 0 <= k < s.nodes@.len() implies has_prefix(
                (#[trigger] s.nodes@[k]).status@,
                "Ready"@,
            ) by {
                assert(!node_not_ready()(s.nodes@[k]));
            }
        } else {
            let k = choose|k: int| 0 <= k < s.nodes@.len() && node_not_ready()(
                #[trigger] s.nodes@[k],
            );
            assert(!has_prefix(s.nodes@[k].status@, "Ready"@));
        }
    }
    if r.status == CheckStatus::Pass {
        assert forall|i: int| 0 <= i < snapshots.len() implies nodes_are_ready(
            #[trigger] snapshots[i],
        ) by {
            assert(r.details[i].passed);
        }
    } else {
        let i = choose|i: int| 0 <= i < r.details.len() && !(#[trigger] r.details[i]).passed;
        assert(!nodes_are_ready(snapshots[i]));
    }
}

/// Namespaces are listed exactly if each cluster lists some; the check says so of
/// each, and fails otherwise.
pub proof fn law_namespaces_listed_if_all_list_some(snapshots: Seq<ClusterSnapshot>)
    ensures
        ({
            let r = namespaces_check(snapshots);
            &&& r.name == "namespaces_listed"@
            &&& r.details.len() == snapshots.len()
            &&& forall|i: int|
                0 <= i < snapshots.len() ==> (#[trigger] r.details[i]).cluster
                    == snapshots[i].name@ && r.details[i].passed == (snapshots[i].namespaces@.len()
                    > 0)
            &&& r.status == CheckStatus::Pass <==> forall|i: int|
                0 <= i < snapshots.len() ==> (#[trigger] snapshots[i]).namespaces@.len() > 0
            &&& r.status == CheckStatus::Pass || r.status == CheckStatus::Fail
        }),
{
    let r = namespaces_check(snapshots);
    assert forall|i: int| 0 <= i < snapshots.len() implies (#[trigger] r.details[i]).cluster
        == snapshots[i].name@ && r.details[i].passed == (snapshots[i].namespaces@.len() > 0) by {
        assert(r.details[i] == namespaces_detail()(snapshots[i]));
    }
    if r.status == CheckStatus::Pass {
        assert forall|i: int| 0 <= i < snapshots.len() implies (
        #[trigger] snapshots[i]).namespaces@.len() > 0 by {
            assert(r.details[i].passed);
        }
    } else {
        let i = choose|i: int| 0 <= i < r.details.len() && !(#[trigger] r.details[i]).passed;
        assert(snapshots[i].namespaces@.len() == 0);
    }
}

// ---------------------------------------------------------------------------
// The management cluster
// ---------------------------------------------------------------------------

/// Whether a snapshot is that of the management cluster: the first of its name.
pub open spec fn is_management(snapshots: Seq<ClusterSnapshot>, i: int) -> bool {
    &&& 0 <= i < snapshots.len()
    &&& snapshots[i].name@ == "tower"@
    &&& forall|j: int| 0 <= j < i ==> (#[trigger] snapshots[j]).name@ != "tower"@
}

/// Whether a deployment is the ArgoCD server.
pub open spec fn serves_argocd(d: DeploymentInfo) -> bool {
    d.namespace@ == "argocd"@ && has_substring(d.name@, "argocd-server"@)
}

/// ArgoCD is healthy only if its server is there and every deployment of its
/// namespace has ready replicas. It has failed exactly if there is no server, or if
/// the first has none ready; where only others have none ready, that is a warning.
pub proof fn law_argocd_healthy_if_all_ready(snapshots: Seq<ClusterSnapshot>, i: int, k: int)
    requires
        is_management(snapshots, i),
    ensures
        ({
            let deps = snapshots[i].deployments@;
            let r = argocd_check(snapshots);
            &&& r.name == "argocd_synced"@
            &&& r.status == CheckStatus::Pass <==> (exists|a: int|
                0 <= a < deps.len() && serves_argocd(#[trigger] deps[a])) && forall|a: int|
                0 <= a < deps.len() && (#[trigger] deps[a]).namespace@ == "argocd"@ ==> has_ready(
                    deps[a].ready@,
                )
            &&& (forall|a: int| 0 <= a < deps.len() ==> !serves_argocd(#[trigger] deps[a]))
                ==> r.status == CheckStatus::Fail
            &&& 0 <= k < deps.len() && serves_argocd(deps[k]) && (forall|a: int|
                0 <= a < k ==> !serves_argocd(#[trigger] deps[a])) ==> (r.status
                == CheckStatus::Fail <==> !has_ready(deps[k].ready@))
            &&& r.status == CheckStatus::Pass || r.status == CheckStatus::Fail || r.status
                == CheckStatus::Warn
            &&& r.details.len() == 1 && r.details[0].cluster == "tower"@ && r.details[0].passed
                == (r.status == CheckStatus::Pass)
        }),
{
    lemma_first_where_at(snapshots, i, is_tower());
    let deps = snapshots[i].deployments@;
    let wanted = is_argocd_server();
    lemma_first_where(deps, wanted);
    lemma_count_extremes(deps, argocd_down());
    if 0 <= k < deps.len() && serves_argocd(deps[k]) && (forall|a: int|
        0 <= a < k ==> !serves_argocd(#[trigger] deps[a])) {
        lemma_first_where_at(deps, k, wanted);
    }
    if first_where(deps, wanted) is Some {
        let s = choose|s: int|
            0 <= s < deps.len() && #[trigger] deps[s] == first_where(deps, wanted)->0 && wanted(
                deps[s],
            );
        assert(serves_argocd(deps[s]));
        if argocd_check(snapshots).status == CheckStatus::Pass {
            assert forall|a: int|
                0 <= a < deps.len() && (#[trigger] deps[a]).namespace@
                    == "argocd"@ implies has_ready(deps[a].ready@) by {
                assert(!argocd_down()(deps[a]));
            }
        }
        if count(deps, argocd_down()) > 0 {
            let a = choose|a: int| 0 <= a < deps.len() && argocd_down()(#[trigger] deps[a]);
            assert(deps[a].namespace@ == "argocd"@ && !has_ready(deps[a].ready@));
        }
    } else {
        assert forall|a: int| 0 <= a < deps.len() implies !serves_argocd(#[trigger] deps[a]) by {
            assert(!wanted(deps[a]));
        }
    }
}

/// Whether a pod is one of the tunnel to the management cluster.
pub open spec fn is_of_tunnel(p: PodInfo) -> bool {
    has_substring(p.name@, "cloudflared"@) || has_substring(p.name@, "cf-tunnel"@)
        || p.namespace@ == "kube-tunnel"@
}

/// The tunnel runs exactly if one of its pods does; otherwise the check fails.
pub proof fn law_tunnel_runs_if_a_pod_does(snapshots: Seq<ClusterSnapshot>, i: int)
    requires
        is_management(snapshots, i),
    ensures
        ({
            let pods = snapshots[i].pods@;
            let r = tunnel_check(snapshots);
            &&& r.name == "cf_tunnel_running"@
            &&& r.status == CheckStatus::Pass <==> exists|k: int|
                0 <= k < pods.len() && is_of_tunnel(#[trigger] pods[k]) && pods[k].status@
                    == "Running"@
            &&& r.status == CheckStatus::Pass || r.status == CheckStatus::Fail
            &&& r.details.len() == 1 && r.details[0].cluster == "tower"@ && r.details[0].passed
                == (r.status == CheckStatus::Pass)
        }),
{
    lemma_first_where_at(snapshots, i, is_tower());
    let pods = snapshots[i].pods@;
    lemma_count_extremes(pods, is_running_tunnel_pod());
    if count(pods, is_running_tunnel_pod()) > 0 {
        let k = choose|k: int| 0 <= k < pods.len() && is_running_tunnel_pod()(#[trigger] pods[k]);
        assert(is_of_tunnel(pods[k]) && pods[k].status@ == "Running"@);
    }
    if exists|k: int|
        0 <= k < pods.len() && is_of_tunnel(#[trigger] pods[k]) && pods[k].status@
            == "Running"@ {
        let k = choose|k: int|
            0 <= k < pods.len() && is_of_tunnel(#[trigger] pods[k]) && pods[k].status@
                == "Running"@;
        assert(is_running_tunnel_pod()(pods[k]));
    }
}

/// Without a snapshot of the management cluster its two checks are skipped.
pub proof fn law_no_management_no_verdict(snapshots: Seq<ClusterSnapshot>)
    requires
        forall|i: int| 0 <= i < snapshots.len() ==> (#[trigger] snapshots[i]).name@ != "tower"@,
    ensures
        argocd_check(snapshots).status == CheckStatus::Skip,
        tunnel_check(snapshots).status == CheckStatus::Skip,
{
    lemma_first_where(snapshots, is_tower());
}

// ---------------------------------------------------------------------------
// Components
// ---------------------------------------------------------------------------

/// Whether a pod is one of the network's relays.
pub open spec fn is_relay(p: PodInfo) -> bool {
    has_substring(p.name@, "hubble-relay"@)
}

/// Whether a cluster has relays, and whether all of them run.
pub open spec fn has_relay(s: ClusterSnapshot) -> bool {
    exists|k: int| 0 <= k < s.pods@.len() && is_relay(#[trigger] s.pods@[k])
}

/// Whether all relays of a cluster run.
pub open spec fn relays_run(s: ClusterSnapshot) -> bool {
    forall|k: int|
        0 <= k < s.pods@.len() && is_relay(#[trigger] s.pods@[k]) ==> s.pods@[k].status@
            == "Running"@
}

/// What a cluster's detail of the relay check says.
proof fn lemma_relay_detail(s: ClusterSnapshot)
    ensures
        cilium_detail()(s).passed == relays_run(s),
        cilium_detail()(s).cluster == s.name@,
        count(s.pods@, is_hubble_relay()) > 0 <==> has_relay(s),
{
    let pods = s.pods@;
    lemma_count_extremes(pods, is_hubble_relay());
    lemma_split(pods, is_hubble_relay(), is_running_hubble_relay(), is_degraded_hubble_relay());
    lemma_count_extremes(pods, is_degraded_hubble_relay());
    if count(pods, is_hubble_relay()) > 0 {
        let k = choose|k: int| 0 <= k < pods.len() && is_hubble_relay()(#[trigger] pods[k]);
        assert(is_relay(pods[k]));
    }
    if has_relay(s) {
        let k = choose|k: int| 0 <= k < pods.len() && is_relay(#[trigger] pods[k]);
        assert(is_hubble_relay()(pods[k]));
    }
    if count(pods, is_degraded_hubble_relay()) == 0 {
        assert forall|k: int| 0 <= k < pods.len() && is_relay(#[trigger] pods[k]) implies
            pods[k].status@ == "Running"@ by {
            assert(!is_degraded_hubble_relay()(pods[k]));
        }
    } else {
        let k = choose|k: int|
            0 <= k < pods.len() && is_degraded_hubble_relay()(#[trigger] pods[k]);
        assert(is_relay(pods[k]) && pods[k].status@ != "Running"@);
    }
}

/// What passes one test passes exactly one of two others that part it.
proof fn lemma_split(
    s: Seq<PodInfo>,
    all: spec_fn(PodInfo) -> bool,
    a: spec_fn(PodInfo) -> bool,
    b: spec_fn(PodInfo) -> bool,
)
    requires
        forall|p: PodInfo| #[trigger] all(p) <==> a(p) || b(p),
        forall|p: PodInfo| !(#[trigger] a(p) && b(p)),
    ensures
        count(s, all) == count(s, a) + count(s, b),
    decreases s.len(),
{
    if s.len() > 0 {
        lemma_split(s.drop_last(), all, a, b);
        assert(all(s.last()) <==> a(s.last()) || b(s.last()));
        assert(!(a(s.last()) && b(s.last())));
    }
}

/// The network is healthy exactly if some cluster has a relay and every relay of
/// every cluster runs; without any relay the check is skipped.
pub proof fn law_network_healthy_if_all_relays_run(snapshots: Seq<ClusterSnapshot>)
    ensures
        ({
            let r = cilium_check(snapshots);
            let some = exists|i: int|
                0 <= i < snapshots.len() && has_relay(#[trigger] snapshots[i]);
            &&& r.name == "cilium_healthy"@
            &&& r.status == CheckStatus::Skip <==> !some
            &&& r.status == CheckStatus::Pass <==> some && forall|i: int|
                0 <= i < snapshots.len() ==> relays_run(#[trigger] snapshots[i])
            &&& r.status == CheckStatus::Skip || r.status == CheckStatus::Pass || r.status
                == CheckStatus::Fail
        }),
{
    let r = cilium_check(snapshots);
    assert forall|i: int| 0 <= i < snapshots.len() implies (#[trigger] r.details[i]).passed
        == relays_run(snapshots[i]) && (count(snapshots[i].pods@, is_hubble_relay()) > 0
        <==> has_relay(snapshots[i])) by {
        lemma_relay_detail(snapshots[i]);
        assert(r.details[i] == cilium_detail()(snapshots[i]));
    }
    if exists|i: int| 0 <= i < snapshots.len() && has_relay(#[trigger] snapshots[i]) {
        let i = choose|i: int| 0 <= i < snapshots.len() && has_relay(#[trigger] snapshots[i]);
        assert(r.details[i].passed == relays_run(snapshots[i]));
        assert(count(snapshots[i].pods@, is_hubble_relay()) > 0);
        assert(crate::checks::deployed_somewhere(snapshots, is_hubble_relay()));
        if r.status == CheckStatus::Pass {
            assert forall|j: int| 0 <= j < snapshots.len() implies relays_run(
                #[trigger] snapshots[j],
            ) by {
                assert(r.details[j].passed);
            }
        } else {
            let j = choose|j: int| 0 <= j < r.details.len() && !(#[trigger] r.details[j]).passed;
            assert(!relays_run(snapshots[j]));
        }
    } else if crate::checks::deployed_somewhere(snapshots, is_hubble_relay()) {
        let i = choose|i: int|
            0 <= i < snapshots.len() && count(
                (#[trigger] snapshots[i]).pods@,
                is_hubble_relay(),
            ) > 0;
        assert(r.details[i].passed == relays_run(snapshots[i]));
        assert(has_relay(snapshots[i]));
    }
}

/// Whether a pod enforces policies: by its namespace, and by its name; a clean-up or
/// a test does not.
pub open spec fn enforces(p: PodInfo) -> bool {
    &&& p.namespace@ == "kyverno"@
    &&& {
        ||| has_prefix(p.name@, "kyverno-admission"@)
        ||| has_prefix(p.name@, "kyverno-background"@)
        ||| has_prefix(p.name@, "kyverno-reports"@)
        ||| p.name@ == "kyverno"@
        ||| has_prefix(p.name@, "kyverno-"@) && !has_substring(p.name@, "cleanup"@)
            && !has_substring(p.name@, "test"@)
    }
}

/// Whether a cluster has pods that enforce policies.
pub open spec fn has_policies(s: ClusterSnapshot) -> bool {
    exists|k: int| 0 <= k < s.pods@.len() && enforces(#[trigger] s.pods@[k])
}

/// Whether a pod that enforces policies runs in a cluster.
pub open spec fn policies_run(s: ClusterSnapshot) -> bool {
    exists|k: int|
        0 <= k < s.pods@.len() && enforces(#[trigger] s.pods@[k]) && s.pods@[k].status@
            == "Running"@
}

/// What a cluster's detail of the policy check says.
proof fn lemma_policy_detail(s: ClusterSnapshot)
    ensures
        kyverno_detail()(s).passed == (has_policies(s) ==> policies_run(s)),
        count(s.pods@, is_kyverno()) > 0 <==> has_policies(s),
{
    let pods = s.pods@;
    lemma_count_extremes(pods, is_kyverno());
    lemma_count_extremes(pods, is_running_kyverno());
    if count(pods, is_kyverno()) > 0 {
        let k = choose|k: int| 0 <= k < pods.len() && is_kyverno()(#[trigger] pods[k]);
        assert(enforces(pods[k]));
    }
    if has_policies(s) {
        let k = choose|k: int| 0 <= k < pods.len() && enforces(#[trigger] pods[k]);
        assert(is_kyverno()(pods[k]));
    }
    if count(pods, is_running_kyverno()) > 0 {
        let k = choose|k: int| 0 <= k < pods.len() && is_running_kyverno()(#[trigger] pods[k]);
        assert(enforces(pods[k]) && pods[k].status@ == "Running"@);
    }
    if policies_run(s) {
        let k = choose|k: int|
            0 <= k < pods.len() && enforces(#[trigger] pods[k]) && pods[k].status@
                == "Running"@;
        assert(is_running_kyverno()(pods[k]));
    }
}

/// Policies are enforced exactly if some cluster has pods for it, and every cluster
/// that has some runs one; without any the check is skipped.
pub proof fn law_policies_healthy_if_each_cluster_runs_one(snapshots: Seq<ClusterSnapshot>)
    ensures
        ({
            let r = kyverno_check(snapshots);
            let some = exists|i: int|
                0 <= i < snapshots.len() && has_policies(#[trigger] snapshots[i]);
            &&& r.name == "kyverno_healthy"@
            &&& r.status == CheckStatus::Skip <==> !some
            &&& r.status == CheckStatus::Pass <==> some && forall|i: int|
                0 <= i < snapshots.len() && has_policies(#[trigger] snapshots[i]) ==> policies_run(
                    snapshots[i],
                )
            &&& r.status == CheckStatus::Skip || r.status == CheckStatus::Pass || r.status
                == CheckStatus::Fail
        }),
{
    let r = kyverno_check(snapshots);
    assert forall|i: int| 0 <= i < snapshots.len() implies (#[trigger] r.details[i]).passed == (
    has_policies(snapshots[i]) ==> policies_run(snapshots[i])) && (count(
        snapshots[i].pods@,
        is_kyverno(),
    ) > 0 <==> has_policies(snapshots[i])) by {
        lemma_policy_detail(snapshots[i]);
        assert(r.details[i] == kyverno_detail()(snapshots[i]));
    }
    if exists|i: int| 0 <= i < snapshots.len() && has_policies(#[trigger] snapshots[i]) {
        let i = choose|i: int| 0 <= i < snapshots.len() && has_policies(#[trigger] snapshots[i]);
        assert(r.details[i].passed == (has_policies(snapshots[i]) ==> policies_run(snapshots[i])));
        assert(count(snapshots[i].pods@, is_kyverno()) > 0);
        assert(crate::checks::deployed_somewhere(snapshots, is_kyverno()));
        if r.status == CheckStatus::Pass {
            assert forall|j: int|
                0 <= j < snapshots.len() && has_policies(
                    #[trigger] snapshots[j],
                ) implies policies_run(snapshots[j]) by {
                assert(r.details[j].passed);
            }
        } else {
            let j = choose|j: int| 0 <= j < r.details.len() && !(#[trigger] r.details[j]).passed;
            assert(has_policies(snapshots[j]) && !policies_run(snapshots[j]));
        }
    } else if crate::checks::deployed_somewhere(snapshots, is_kyverno()) {
        let i = choose|i: int|
            0 <= i < snapshots.len() && count((#[trigger] snapshots[i]).pods@, is_kyverno()) > 0;
        assert(r.details[i].passed == (has_policies(snapshots[i]) ==> policies_run(snapshots[i])));
        assert(has_policies(snapshots[i]));
    }
}

// ---------------------------------------------------------------------------
// The report
// ---------------------------------------------------------------------------

/// The checks are reported in a fixed order.
pub proof fn law_checks_in_order(snapshots: Seq<ClusterSnapshot>, expected: Seq<Seq<char>>)
    ensures
        ({
            let c = all_checks(snapshots, expected);
            &&& c.len() == 7
            &&& c[0].name == "cluster_api_reachable"@ && c[1].name == "all_nodes_ready"@
            &&& c[2].name == "namespaces_listed"@ && c[3].name == "argocd_synced"@
            &&& c[4].name == "cf_tunnel_running"@ && c[5].name == "cilium_healthy"@
            &&& c[6].name == "kyverno_healthy"@
            &&& c[0] == reachable_check(snapshots, expected) && c[1] == nodes_check(snapshots)
            &&& c[2] == namespaces_check(snapshots) && c[3] == argocd_check(snapshots)
            &&& c[4] == tunnel_check(snapshots) && c[5] == cilium_check(snapshots)
            &&& c[6] == kyverno_check(snapshots)
        }),
{
}

/// The overall result passes exactly if no check fails, warns or is excused; a
/// failure that nothing excuses makes it fail, and anything else a warning.
pub proof fn law_overall_result(checks: Seq<CheckModel>)
    ensures
        overall_status(checks) == CheckStatus::Fail <==> exists|i: int|
            0 <= i < checks.len() && (#[trigger] checks[i]).status == CheckStatus::Fail,
        overall_status(checks) == CheckStatus::Pass <==> forall|i: int|
            0 <= i < checks.len() ==> (#[trigger] checks[i]).status == CheckStatus::Pass
                || checks[i].status == CheckStatus::Skip,
        overall_status(checks) == CheckStatus::Fail || overall_status(checks) == CheckStatus::Pass
            || overall_status(checks) == CheckStatus::Warn,
{
    let failing = crate::checks::has_status(CheckStatus::Fail);
    let warning = crate::checks::has_status(CheckStatus::Warn);
    let known = crate::checks::has_status(CheckStatus::KnownDegraded);
    lemma_count_extremes(checks, failing);
    lemma_count_extremes(checks, warning);
    lemma_count_extremes(checks, known);
    if count(checks, failing) > 0 {
        let i = choose|i: int| 0 <= i < checks.len() && failing(#[trigger] checks[i]);
        assert(checks[i].status == CheckStatus::Fail);
    } else if count(checks, warning) > 0 {
        let i = choose|i: int| 0 <= i < checks.len() && warning(#[trigger] checks[i]);
        assert(checks[i].status == CheckStatus::Warn);
    } else if count(checks, known) > 0 {
        let i = choose|i: int| 0 <= i < checks.len() && known(#[trigger] checks[i]);
        assert(checks[i].status == CheckStatus::KnownDegraded);
    } else {
        assert forall|i: int| 0 <= i < checks.len() implies (#[trigger] checks[i]).status
            == CheckStatus::Pass || checks[i].status == CheckStatus::Skip by {
            assert(!failing(checks[i]) && !warning(checks[i]) && !known(checks[i]));
        }
    }
    if exists|i: int|
        0 <= i < checks.len() && (#[trigger] checks[i]).status == CheckStatus::Fail {
        let i = choose|i: int|
            0 <= i < checks.len() && (#[trigger] checks[i]).status == CheckStatus::Fail;
        assert(failing(checks[i]));
    }
}

/// A check is excused exactly if some entry of the inventory names it.
pub proof fn law_entries_excuse_what_they_name(cfg: KnownDegradationsConfig, check: Seq<char>)
    ensures
        suppressed(cfg, check) <==> exists|i: int, k: int|
            0 <= i < cfg.known_degradations@.len() && 0 <= k
                < cfg.known_degradations@[i].suppresses_check@.len()
                && #[trigger] cfg.known_degradations@[i].suppresses_check@[k]@ == check,
{
    let all = cfg.known_degradations@;
    if suppressed(cfg, check) {
        let i = choose|i: int|
            0 <= i < all.len() && crate::degradation::excuses(check)(#[trigger] all[i]);
        let names = all[i].suppresses_check@;
        let k = choose|k: int| 0 <= k < texts(names).len() && texts(names)[k] == check;
        assert(all[i].suppresses_check@[k]@ == check);
    }
    if exists|i: int, k: int|
        0 <= i < all.len() && 0 <= k < all[i].suppresses_check@.len()
            && #[trigger] all[i].suppresses_check@[k]@ == check {
        let (i, k) = choose|i: int, k: int|
            0 <= i < all.len() && 0 <= k < all[i].suppresses_check@.len()
                && #[trigger] all[i].suppresses_check@[k]@ == check;
        assert(texts(all[i].suppresses_check@)[k] == check);
        assert(crate::degradation::excuses(check)(all[i]));
    }
}

// ---------------------------------------------------------------------------
// Headless mode
// ---------------------------------------------------------------------------

/// A cluster is asked for if it has the name that was given, or if none was.
pub proof fn law_targets_are_those_named(
    clusters: Seq<ClusterClient>,
    wanted: Option<Seq<char>>,
    i: int,
)
    requires
        0 <= i < clusters.len(),
    ensures
        positions(clusters, is_target(wanted)).contains(i) <==> wanted is None
            || clusters[i].name@ == wanted->0,
{
    lemma_positions_contains(clusters, is_target(wanted), i);
}

/// What is fetched of a cluster is among the snapshots; what could not be fetched
/// is among the failures, with the cluster's name and the reason.
pub proof fn law_outcomes_are_gathered(outcomes: Seq<(String, FetchOutcome)>, n: int, i: int)
    requires
        0 <= i < n <= outcomes.len(),
    ensures
        outcomes[i].1 matches FetchOutcome::Fetched(s) ==> fetched(outcomes, n).contains(s),
        outcomes[i].1 matches FetchOutcome::Failed(e) ==> failed(outcomes, n).contains(
            (outcomes[i].0@, e@),
        ),
        outcomes[i].1 matches FetchOutcome::Panicked(e) ==> failed(outcomes, n).contains(
            (outcomes[i].0@, "task panic: "@ + e@),
        ),
    decreases n,
{
    let f = fetched(outcomes, n);
    let b = failed(outcomes, n);
    if i < n - 1 {
        law_outcomes_are_gathered(outcomes, n - 1, i);
        let f0 = fetched(outcomes, n - 1);
        let b0 = failed(outcomes, n - 1);
        assert forall|x: ClusterSnapshot| f0.contains(x) implies f.contains(x) by {
            let k = choose|k: int| 0 <= k < f0.len() && f0[k] == x;
            assert(f[k] == x);
        }
        assert forall|x: (Seq<char>, Seq<char>)| b0.contains(x) implies b.contains(x) by {
            let k = choose|k: int| 0 <= k < b0.len() && b0[k] == x;
            assert(b[k] == x);
        }
    } else {
        match outcomes[i].1 {
            FetchOutcome::Fetched(s) => {
                assert(f[f.len() - 1] == s);
            },
            FetchOutcome::Failed(e) => {
                assert(b[b.len() - 1] == (outcomes[i].0@, e@));
            },
            FetchOutcome::Panicked(e) => {
                assert(b[b.len() - 1] == (outcomes[i].0@, "task panic: "@ + e@));
            },
        }
    }
}

} // verus!
