//! Laws of what the checks say: whom a message names, and what it counts.
use vstd::prelude::*;
use crate::checks::{
    acknowledgement, argocd_check, cilium_detail, deployment_summary, excused, expected_name,
    in_argocd, is_degraded_hubble_relay, is_degraded_kyverno, is_hubble_relay, is_kyverno,
    is_running_hubble_relay, is_running_kyverno, is_running_tunnel_pod, is_tower, is_tunnel_pod,
    kyverno_detail, missing_cluster, namespaces_check, namespaces_detail, node_name, node_total,
    nodes_check, nodes_detail, pod_summary, reachable_check, reachable_detail, tunnel_check,
    tunnel_summary, CheckModel, CheckStatus,
};
use crate::check_laws::{
    enforces, is_management, is_of_tunnel, is_relay, law_reachable_if_all_have_snapshots,
    nodes_are_ready,
};
use crate::data::{ClusterSnapshot, DeploymentInfo, NodeInfo, PodInfo};
use crate::degradation::{entry_itself, excuses, suppressors, KnownDegradationsConfig};
use crate::list::{
    collect, count, lemma_collect_contains, lemma_collect_len, lemma_count_extremes,
    lemma_first_where_at,
};
use crate::snapshot::node_not_ready;
use crate::text::{decimal, has_prefix, has_substring, joined, occurs_at, texts};
use crate::text_laws::law_joining_keeps_each_part;

verus! {

/// What stands in the end of a text stands in the text.
proof fn lemma_in_end(a: Seq<char>, b: Seq<char>, x: Seq<char>)
    requires
        has_substring(b, x),
    ensures
        has_substring(a + b, x),
{
    let at = choose|at: int| #[trigger] occurs_at(b, x, at);
    assert((a + b).subrange(a.len() + at, a.len() + at + x.len()) =~= b.subrange(
        at,
        at + x.len(),
    ));
    assert(occurs_at(a + b, x, a.len() + at));
}

/// What stands in the start of a text stands in the text.
proof fn lemma_in_start(a: Seq<char>, b: Seq<char>, x: Seq<char>)
    requires
        has_substring(a, x),
    ensures
        has_substring(a + b, x),
{
    let at = choose|at: int| #[trigger] occurs_at(a, x, at);
    assert((a + b).subrange(at, at + x.len()) =~= a.subrange(at, at + x.len()));
    assert(occurs_at(a + b, x, at));
}

/// What is collected and joined stands in the text.
proof fn lemma_collected<T>(
    s: Seq<T>,
    keep: spec_fn(T) -> bool,
    show: spec_fn(T) -> Seq<char>,
    sep: Seq<char>,
    i: int,
)
    requires
        0 <= i < s.len(),
        keep(s[i]),
    ensures
        has_substring(joined(collect(s, keep, show), sep), show(s[i])),
        collect(s, keep, show).len() > 0,
{
    let all = collect(s, keep, show);
    lemma_collect_contains(s, keep, show, show(s[i]));
    assert(all.contains(show(s[i])));
    let k = choose|k: int| 0 <= k < all.len() && all[k] == show(s[i]);
    law_joining_keeps_each_part(all, sep, k);
}

/// Where a cluster cannot be reached, the check names it; where all can, it counts
/// them.
pub proof fn law_unreachable_clusters_are_named(
    snapshots: Seq<ClusterSnapshot>,
    expected: Seq<Seq<char>>,
    i: int,
)
    requires
        0 <= i < expected.len(),
    ensures
        ({
            let r = reachable_check(snapshots, expected);
            let missing = forall|k: int|
                0 <= k < snapshots.len() ==> (#[trigger] snapshots[k]).name@ != expected[i];
            &&& missing ==> has_substring(r.message, expected[i]) && r.details[i].message
                == "cluster not discovered — API unreachable"@
            &&& !missing ==> r.details[i].message == "API reachable"@
            &&& r.status == CheckStatus::Pass ==> r.message == "All "@ + decimal(expected.len())
                + " cluster(s) API reachable"@
            &&& r.status == CheckStatus::Fail ==> has_prefix(
                r.message,
                "Cluster(s) unreachable: "@,
            )
        }),
{
    let r = reachable_check(snapshots, expected);
    law_reachable_if_all_have_snapshots(snapshots, expected);
    assert(r.details[i] == reachable_detail(snapshots)(expected[i]));
    let gone = missing_cluster(snapshots);
    let bad = "Cluster(s) unreachable: "@;
    let list = joined(collect(expected, gone, expected_name()), ", "@);
    if forall|k: int| 0 <= k < snapshots.len() ==> (#[trigger] snapshots[k]).name@ != expected[i] {
        assert(gone(expected[i]));
        lemma_collected(expected, gone, expected_name(), ", "@, i);
        assert(expected_name()(expected[i]) == expected[i]);
        lemma_in_end(bad, list, expected[i]);
        assert(!r.details[i].passed);
        assert(r.message == bad + list);
    }
    assert((bad + list).subrange(0, bad.len() as int) =~= bad);
}

/// Of the nodes of a cluster those that are not ready are named and counted.
pub proof fn law_nodes_that_are_not_ready_are_named(s: ClusterSnapshot, k: int)
    ensures
        ({
            let d = nodes_detail()(s);
            &&& s.nodes@.len() == 0 ==> d.message == "no nodes found"@
            &&& nodes_are_ready(s) ==> d.message == decimal(s.nodes@.len()) + "/"@ + decimal(
                s.nodes@.len(),
            ) + " nodes Ready"@
            &&& 0 <= k < s.nodes@.len() && !has_prefix(s.nodes@[k].status@, "Ready"@)
                ==> has_substring(d.message, s.nodes@[k].name@)
            &&& s.nodes@.len() > 0 && !nodes_are_ready(s) ==> has_prefix(
                d.message,
                decimal(count(s.nodes@, |n: NodeInfo| !has_prefix(n.status@, "Ready"@))) + "/"@
                    + decimal(s.nodes@.len()) + " nodes not Ready: "@,
            )
        }),
{
    let d = nodes_detail()(s);
    let keep = node_not_ready();
    let bad = collect(s.nodes@, keep, node_name());
    lemma_collect_len(s.nodes@, keep, node_name());
    lemma_count_extremes(s.nodes@, keep);
    let not_ready = |n: NodeInfo| !has_prefix(n.status@, "Ready"@);
    assert forall|i: int| 0 <= i < s.nodes@.len() implies keep(#[trigger] s.nodes@[i])
        == not_ready(s.nodes@[i]) by {}
    crate::list::lemma_count_same(s.nodes@, keep, not_ready);
    let head = decimal(bad.len()) + "/"@ + decimal(s.nodes@.len()) + " nodes not Ready: "@;
    let list = joined(bad, ", "@);
    if 0 <= k < s.nodes@.len() && !has_prefix(s.nodes@[k].status@, "Ready"@) {
        assert(keep(s.nodes@[k]));
        lemma_collected(s.nodes@, keep, node_name(), ", "@, k);
        lemma_in_end(head, list, s.nodes@[k].name@);
        assert(d.message == head + list);
    }
    if nodes_are_ready(s) {
        assert forall|i: int| 0 <= i < s.nodes@.len() implies !keep(#[trigger] s.nodes@[i]) by {
            assert(has_prefix(s.nodes@[i].status@, "Ready"@));
        }
    } else if s.nodes@.len() > 0 {
        let i = choose|i: int|
            0 <= i < s.nodes@.len() && !has_prefix((#[trigger] s.nodes@[i]).status@, "Ready"@);
        assert(keep(s.nodes@[i]));
        assert((head + list).subrange(0, head.len() as int) =~= head);
        assert(d.message == head + list);
    }
}

/// The nodes of all clusters are counted together.
pub proof fn law_all_nodes_are_counted(snapshots: Seq<ClusterSnapshot>, s: ClusterSnapshot)
    ensures
        node_total(Seq::empty()) == 0,
        node_total(snapshots.push(s)) == node_total(snapshots) + s.nodes@.len(),
        nodes_check(snapshots).status == CheckStatus::Pass ==> nodes_check(snapshots).message
            == "All "@ + decimal(node_total(snapshots)) + " nodes Ready across "@ + decimal(
            snapshots.len(),
        ) + " cluster(s)"@,
        nodes_check(snapshots).status == CheckStatus::Fail ==> nodes_check(snapshots).message
            == "Some nodes not Ready"@,
        namespaces_check(snapshots).status == CheckStatus::Pass ==> namespaces_check(
            snapshots,
        ).message == "Namespace listing OK on "@ + decimal(snapshots.len()) + " cluster(s)"@,
        s.namespaces@.len() > 0 ==> namespaces_detail()(s).message == decimal(
            s.namespaces@.len(),
        ) + " namespaces listed"@,
        s.namespaces@.len() == 0 ==> namespaces_detail()(s).message == "namespace listing empty"@,
{
    assert(snapshots.push(s).drop_last() =~= snapshots);
}

/// The check of ArgoCD lists each deployment of its namespace with its ready
/// replicas, and counts them where it is healthy.
pub proof fn law_argocd_deployments_are_listed(snapshots: Seq<ClusterSnapshot>, i: int, k: int)
    requires
        is_management(snapshots, i),
    ensures
        ({
            let deps = snapshots[i].deployments@;
            let r = argocd_check(snapshots);
            let own = |d: DeploymentInfo| d.namespace@ == "argocd"@;
            &&& 0 <= k < deps.len() && deps[k].namespace@ == "argocd"@ ==> has_substring(
                r.details[0].message,
                deps[k].name@ + "="@ + deps[k].ready@,
            )
            &&& r.status == CheckStatus::Pass ==> r.message == "ArgoCD healthy — "@ + decimal(
                count(deps, own),
            ) + " deployments in argocd namespace"@
            &&& r.status != CheckStatus::Pass ==> r.message == "ArgoCD not fully healthy"@
            &&& count(deps, own) == 0 ==> r.details[0].message
                == "no ArgoCD deployments found in argocd namespace"@
        }),
{
    lemma_first_where_at(snapshots, i, is_tower());
    let deps = snapshots[i].deployments@;
    let keep = in_argocd();
    let own = |d: DeploymentInfo| d.namespace@ == "argocd"@;
    let all = collect(deps, keep, deployment_summary());
    lemma_collect_len(deps, keep, deployment_summary());
    assert forall|a: int| 0 <= a < deps.len() implies keep(#[trigger] deps[a]) == own(deps[a]) by {}
    crate::list::lemma_count_same(deps, keep, own);
    if 0 <= k < deps.len() && deps[k].namespace@ == "argocd"@ {
        assert(keep(deps[k]));
        lemma_collected(deps, keep, deployment_summary(), ", "@, k);
        lemma_in_end(
            "ArgoCD deployments: "@,
            joined(all, ", "@),
            deps[k].name@ + "="@ + deps[k].ready@,
        );
    }
}

/// The check of the tunnel lists each of its pods with its state and counts those
/// that run out of all.
pub proof fn law_tunnel_pods_are_listed(snapshots: Seq<ClusterSnapshot>, i: int, k: int)
    requires
        is_management(snapshots, i),
    ensures
        ({
            let pods = snapshots[i].pods@;
            let r = tunnel_check(snapshots);
            let total = count(pods, |p: PodInfo| is_of_tunnel(p));
            let running = count(pods, |p: PodInfo| is_of_tunnel(p) && p.status@ == "Running"@);
            &&& 0 <= k < pods.len() && is_of_tunnel(pods[k]) ==> has_substring(
                r.details[0].message,
                pods[k].name@ + "="@ + pods[k].status@ + " ("@ + pods[k].namespace@ + ")"@,
            )
            &&& r.status == CheckStatus::Pass ==> r.message == "CF Tunnel running — "@ + decimal(
                running,
            ) + "/"@ + decimal(total) + " pod(s) healthy"@
            &&& total == 0 ==> r.message == "CF Tunnel pod not found in tower cluster"@
                && r.details[0].message == "no cloudflared pods found"@
        }),
{
    lemma_first_where_at(snapshots, i, is_tower());
    let pods = snapshots[i].pods@;
    let keep = is_tunnel_pod();
    let own = |p: PodInfo| is_of_tunnel(p);
    let up = |p: PodInfo| is_of_tunnel(p) && p.status@ == "Running"@;
    let all = collect(pods, keep, tunnel_summary());
    lemma_collect_len(pods, keep, tunnel_summary());
    assert forall|a: int| 0 <= a < pods.len() implies keep(#[trigger] pods[a]) == own(pods[a]) by {}
    assert forall|a: int| 0 <= a < pods.len() implies is_running_tunnel_pod()(#[trigger] pods[a])
        == up(pods[a]) by {}
    crate::list::lemma_count_same(pods, keep, own);
    crate::list::lemma_count_same(pods, is_running_tunnel_pod(), up);
    if 0 <= k < pods.len() && is_of_tunnel(pods[k]) {
        assert(keep(pods[k]));
        lemma_collected(pods, keep, tunnel_summary(), ", "@, k);
        lemma_in_end(
            decimal(count(pods, is_running_tunnel_pod())) + "/"@ + decimal(all.len())
                + " Running: "@,
            joined(all, ", "@),
            pods[k].name@ + "="@ + pods[k].status@ + " ("@ + pods[k].namespace@ + ")"@,
        );
    }
    lemma_count_extremes(pods, own);
    lemma_count_extremes(pods, up);
    if count(pods, own) == 0 {
        assert forall|a: int| 0 <= a < pods.len() implies !up(#[trigger] pods[a]) by {
            assert(!own(pods[a]));
        }
    }
}

/// A component that is not all right names each pod of it that does not run.
pub proof fn law_degraded_pods_are_named(s: ClusterSnapshot, k: int)
    requires
        0 <= k < s.pods@.len(),
        s.pods@[k].status@ != "Running"@,
    ensures
        is_relay(s.pods@[k]) ==> has_substring(
            cilium_detail()(s).message,
            s.pods@[k].name@ + "="@ + s.pods@[k].status@,
        ),
        enforces(s.pods@[k]) && !kyverno_detail()(s).passed ==> has_substring(
            kyverno_detail()(s).message,
            s.pods@[k].name@ + "="@ + s.pods@[k].status@,
        ),
        cilium_detail()(s).cluster == s.name@,
        kyverno_detail()(s).cluster == s.name@,
{
    let pods = s.pods@;
    let x = pods[k].name@ + "="@ + pods[k].status@;
    assert(pod_summary()(pods[k]) == x);
    if is_relay(pods[k]) {
        let down = is_degraded_hubble_relay();
        assert(down(pods[k]));
        lemma_collected(pods, down, pod_summary(), ", "@, k);
        let all = is_hubble_relay();
        lemma_count_extremes(pods, all);
        assert(all(pods[k]));
        crate::check_laws::law_network_healthy_if_all_relays_run(seq![s]);
        lemma_fewer(pods, all, is_running_hubble_relay(), k);
        lemma_in_end(
            decimal(count(pods, is_running_hubble_relay())) + "/"@ + decimal(count(pods, all))
                + " Running; degraded: "@,
            joined(collect(pods, down, pod_summary()), ", "@),
            x,
        );
    }
    if enforces(pods[k]) {
        let down = is_degraded_kyverno();
        assert(down(pods[k]));
        lemma_collected(pods, down, pod_summary(), ", "@, k);
        lemma_in_end(
            decimal(count(pods, is_running_kyverno())) + "/"@ + decimal(count(pods, is_kyverno()))
                + " Running; degraded: "@,
            joined(collect(pods, down, pod_summary()), ", "@),
            x,
        );
    }
}

/// A stricter test that some value fails is passed by fewer.
proof fn lemma_fewer(
    s: Seq<PodInfo>,
    all: spec_fn(PodInfo) -> bool,
    some: spec_fn(PodInfo) -> bool,
    k: int,
)
    requires
        0 <= k < s.len(),
        all(s[k]),
        !some(s[k]),
        forall|p: PodInfo| #[trigger] some(p) ==> all(p),
    ensures
        count(s, some) < count(s, all),
    decreases s.len(),
{
    let rest = s.drop_last();
    assert(some(s.last()) ==> all(s.last()));
    if k < s.len() - 1 {
        lemma_fewer(rest, all, some, k);
    } else {
        lemma_no_more(rest, all, some);
    }
}

proof fn lemma_no_more(
    s: Seq<PodInfo>,
    all: spec_fn(PodInfo) -> bool,
    some: spec_fn(PodInfo) -> bool,
)
    requires
        forall|p: PodInfo| #[trigger] some(p) ==> all(p),
    ensures
        count(s, some) <= count(s, all),
    decreases s.len(),
{
    if s.len() > 0 {
        assert(some(s.last()) ==> all(s.last()));
        lemma_no_more(s.drop_last(), all, some);
    }
}

/// A failure that the inventory knows of is marked as known and says who knows of
/// it, and under which ticket; its details stay.
pub proof fn law_known_failures_say_who_knows(
    c: CheckModel,
    cfg: KnownDegradationsConfig,
    i: int,
    k: int,
)
    requires
        c.status == CheckStatus::Fail,
        0 <= i < cfg.known_degradations@.len(),
        0 <= k < cfg.known_degradations@[i].suppresses_check@.len(),
        cfg.known_degradations@[i].suppresses_check@[k]@ == c.name,
    ensures
        excused(c, cfg).status == CheckStatus::KnownDegraded,
        excused(c, cfg).name == c.name,
        excused(c, cfg).details == c.details,
        has_prefix(excused(c, cfg).message, c.message),
        has_substring(
            excused(c, cfg).message,
            "ack:"@ + cfg.known_degradations@[i].acknowledged_by@ + " ticket:"@
                + cfg.known_degradations@[i].ticket@,
        ),
{
    let all = cfg.known_degradations@;
    let e = all[i];
    assert(texts(e.suppresses_check@)[k] == c.name);
    assert(texts(e.suppresses_check@).contains(c.name));
    assert(excuses(c.name)(all[i]));
    let found = suppressors(cfg, c.name);
    lemma_collect_contains(all, excuses(c.name), entry_itself(), e);
    assert(found.contains(e));
    let at = choose|at: int| 0 <= at < found.len() && found[at] == e;
    let parts = found.map_values(acknowledgement());
    let x = "ack:"@ + e.acknowledged_by@ + " ticket:"@ + e.ticket@;
    assert(parts[at] == x);
    law_joining_keeps_each_part(parts, "; "@, at);
    let head = c.message + " [known-degraded: "@;
    let list = joined(parts, "; "@);
    lemma_in_end(head, list, x);
    lemma_in_start(head + list, "]"@, x);
    let m = excused(c, cfg).message;
    assert(m == head + list + "]"@);
    assert(m.subrange(0, c.message.len() as int) =~= c.message);
}

} // verus!
