//! Laws of fetching: what a fetch brings is what is shown, and nothing else changes.
use vstd::prelude::*;
use crate::app::{current, row_count, top_line_count, AppModel, FetchResult, ResourceView};
use crate::connections::StatusModel;
use crate::data::{ActiveResource, ClusterSnapshot, HealthStatus, NodeInfo, PodInfo};
use crate::infra::InfraSnapshot;
use crate::kube_client::{ClusterClient, DiscoverEvent};
use crate::list::{
    count, first_index, lemma_count_extremes, lemma_count_same, lemma_first_index,
    lemma_first_index_props, lemma_first_where,
};
use crate::session::{
    all_merged, body_height, discovered, discovers_again, fetch_begun, fetch_due, fetch_ended,
    fetched, fitted, fresh_tree, infra_loaded, is_fresh, merged, one_merged, overdue, status_noted,
    table_height, targets_cluster, ticked, FetchTarget,
};
use crate::snapshot::{
    assembles, counts_usage, health_of, node_not_ready, node_ready, pod_failed, pod_running,
    pod_succeeded, Fetched,
};
use crate::text::{has_prefix, has_substring, lowercase};
use crate::tree::{children, infra_header, is_infra_header, lemma_children_end, KindModel};

verus! {

// ---------------------------------------------------------------------------
// Merging
// ---------------------------------------------------------------------------

/// After a fetch of one resource, its list is the one that was fetched, and the
/// lists of the other resources are those that were there. The nodes are always
/// those that were fetched, and the namespaces too, unless nodes alone were.
pub proof fn law_merge_takes_what_was_fetched(
    existing: ClusterSnapshot,
    fetched: ClusterSnapshot,
    active: ActiveResource,
)
    ensures
        ({
            let r = merged(existing, fetched, active);
            &&& r.name@ == existing.name@
            &&& r.nodes@ == fetched.nodes@
            &&& r.pods@ == if active == ActiveResource::Pods {
                fetched.pods@
            } else {
                existing.pods@
            }
            &&& r.deployments@ == if active == ActiveResource::Deployments {
                fetched.deployments@
            } else {
                existing.deployments@
            }
            &&& r.services@ == if active == ActiveResource::Services {
                fetched.services@
            } else {
                existing.services@
            }
            &&& r.configmaps@ == if active == ActiveResource::ConfigMaps {
                fetched.configmaps@
            } else {
                existing.configmaps@
            }
            &&& r.events@ == if active == ActiveResource::Events {
                fetched.events@
            } else {
                existing.events@
            }
            &&& r.namespaces@ == if active == ActiveResource::Nodes {
                existing.namespaces@
            } else {
                fetched.namespaces@
            }
        }),
{
}

/// After a fetch, health and counts are those of the nodes and pods that are shown.
pub proof fn law_merge_recomputes_health(
    existing: ClusterSnapshot,
    fetched: ClusterSnapshot,
    active: ActiveResource,
)
    requires
        existing.pods@.len() <= usize::MAX,
        fetched.pods@.len() <= usize::MAX,
        fetched.nodes@.len() <= usize::MAX,
    ensures
        merged(existing, fetched, active).health == health_of(
            merged(existing, fetched, active).nodes@,
            merged(existing, fetched, active).pods@,
        ),
        counts_usage(
            merged(existing, fetched, active).resource_usage,
            merged(existing, fetched, active).nodes@,
            merged(existing, fetched, active).pods@,
        ),
{
    let r = merged(existing, fetched, active);
    lemma_count_extremes(r.pods@, pod_running());
    lemma_count_extremes(r.pods@, pod_succeeded());
    lemma_count_extremes(r.pods@, pod_failed());
    lemma_count_extremes(r.nodes@, node_ready());
}

/// Whether a snapshot shows a resource as another does.
pub open spec fn same_resource(
    a: ClusterSnapshot,
    b: ClusterSnapshot,
    active: ActiveResource,
) -> bool {
    match active {
        ActiveResource::Pods => a.pods@ == b.pods@,
        ActiveResource::Deployments => a.deployments@ == b.deployments@,
        ActiveResource::Services => a.services@ == b.services@,
        ActiveResource::ConfigMaps => a.configmaps@ == b.configmaps@,
        ActiveResource::Nodes => a.nodes@ == b.nodes@,
        ActiveResource::Events => a.events@ == b.events@,
    }
}

/// Whether some snapshot of a list shows a resource of a cluster as it was fetched,
/// with the nodes that were fetched.
pub open spec fn brought(
    snapshots: Seq<ClusterSnapshot>,
    f: ClusterSnapshot,
    active: ActiveResource,
) -> bool {
    exists|k: int|
        0 <= k < snapshots.len() && (#[trigger] snapshots[k]).name@ == f.name@ && same_resource(
            snapshots[k],
            f,
            active,
        ) && snapshots[k].nodes@ == f.nodes@
}

/// Taking in one snapshot: it is there afterwards, and the snapshots of other
/// clusters stay where they are.
proof fn lemma_one_merged(
    snapshots: Seq<ClusterSnapshot>,
    f: ClusterSnapshot,
    active: ActiveResource,
)
    ensures
        brought(one_merged(snapshots, f, active), f, active),
        one_merged(snapshots, f, active).len() >= snapshots.len(),
        forall|k: int|
            0 <= k < snapshots.len() ==> (#[trigger] one_merged(snapshots, f, active)[k]).name@
                == snapshots[k].name@,
        forall|k: int|
            0 <= k < snapshots.len() && (#[trigger] snapshots[k]).name@ != f.name@ ==> one_merged(
                snapshots,
                f,
                active,
            )[k] == snapshots[k],
{
    let wanted = crate::app::snapshot_of(f.name@);
    lemma_first_index_props(snapshots, wanted);
    let i = first_index(snapshots, wanted);
    let after = one_merged(snapshots, f, active);
    if i < snapshots.len() {
        assert(after[i].name@ == f.name@);
        assert(same_resource(after[i], f, active));
    } else {
        assert(after[snapshots.len() as int] == f);
    }
}

/// A fetch of one resource changes no snapshot of a cluster that was not fetched.
pub proof fn law_merge_keeps_other_clusters(
    snapshots: Seq<ClusterSnapshot>,
    news: Seq<ClusterSnapshot>,
    active: ActiveResource,
    k: int,
)
    requires
        0 <= k < snapshots.len(),
        forall|j: int| 0 <= j < news.len() ==> (#[trigger] news[j]).name@ != snapshots[k].name@,
    ensures
        k < all_merged(snapshots, news, active).len(),
        all_merged(snapshots, news, active)[k] == snapshots[k],
    decreases news.len(),
{
    if news.len() > 0 {
        lemma_one_merged(snapshots, news[0], active);
        let next = one_merged(snapshots, news[0], active);
        assert(snapshots[k].name@ != news[0].name@);
        assert(next[k] == snapshots[k]);
        let rest = news.drop_first();
        assert forall|j: int| 0 <= j < rest.len() implies (#[trigger] rest[j]).name@
            != next[k].name@ by {
            assert(rest[j] == news[j + 1]);
        }
        law_merge_keeps_other_clusters(next, rest, active, k);
    }
}

/// What is there of a cluster stays while other clusters are taken in.
proof fn lemma_brought_stays(
    snapshots: Seq<ClusterSnapshot>,
    news: Seq<ClusterSnapshot>,
    f: ClusterSnapshot,
    active: ActiveResource,
)
    requires
        brought(snapshots, f, active),
        forall|j: int| 0 <= j < news.len() ==> (#[trigger] news[j]).name@ != f.name@,
    ensures
        brought(all_merged(snapshots, news, active), f, active),
{
    let k = choose|k: int|
        0 <= k < snapshots.len() && (#[trigger] snapshots[k]).name@ == f.name@ && same_resource(
            snapshots[k],
            f,
            active,
        ) && snapshots[k].nodes@ == f.nodes@;
    law_merge_keeps_other_clusters(snapshots, news, active, k);
    assert(all_merged(snapshots, news, active)[k].name@ == f.name@);
}

/// After a fetch of one resource from clusters of different names, each of them has
/// a snapshot that shows the resource and the nodes as they were fetched.
pub proof fn law_merge_shows_every_cluster(
    snapshots: Seq<ClusterSnapshot>,
    news: Seq<ClusterSnapshot>,
    active: ActiveResource,
    j: int,
)
    requires
        0 <= j < news.len(),
        forall|a: int, b: int|
            0 <= a < b < news.len() ==> (#[trigger] news[a]).name@ != (#[trigger] news[b]).name@,
    ensures
        brought(all_merged(snapshots, news, active), news[j], active),
    decreases news.len(),
{
    let next = one_merged(snapshots, news[0], active);
    let rest = news.drop_first();
    lemma_one_merged(snapshots, news[0], active);
    assert forall|a: int| 0 <= a < rest.len() implies #[trigger] rest[a] == news[a + 1] by {}
    if j == 0 {
        lemma_brought_stays(next, rest, news[0], active);
    } else {
        law_merge_shows_every_cluster(next, rest, active, j - 1);
    }
}

/// A fetch of everything replaces all snapshots.
pub proof fn law_full_fetch_replaces_all(m: AppModel, result: FetchResult)
    requires
        result.active_resource is None,
        result.generation == m.fetch.fetch_generation,
    ensures
        fetched(m, result).data.snapshots == result.snapshots@,
{
}

/// A fetch that was asked for in the current generation is taken: its data are
/// there, it is over, and what is selected stays.
pub proof fn law_current_fetch_is_taken(m: AppModel, result: FetchResult)
    requires
        result.generation == m.fetch.fetch_generation,
    ensures
        ({
            let after = fetched(m, result);
            &&& result.active_resource matches Some(active) ==> after.data.snapshots == all_merged(
                m.data.snapshots,
                result.snapshots@,
                active,
            )
            &&& after.data.api_latency_ms == result.latency_ms
            &&& after.data.last_fetched_resource == result.active_resource
            &&& !after.fetch.is_fetching && after.fetch.fetch_started_at is None
            &&& !after.fetch.fetch_timed_out
            &&& after.fetch.fetch_generation == m.fetch.fetch_generation
            &&& after.fetch.needs_refresh == m.fetch.needs_refresh
            &&& after.chosen == m.chosen && after.mode == m.mode
            &&& after.data.clusters == m.data.clusters && after.data.connections
                == m.data.connections
        }),
{
}

/// A fetch is over after half a minute without a result, and not before.
pub proof fn law_fetch_times_out(m: AppModel, now: u64)
    ensures
        overdue(m, now) <==> m.fetch.fetch_started_at is Some && now
            > m.fetch.fetch_started_at->0 + 30_000_000_000,
        fetch_ended(m, true).fetch.fetch_timed_out,
        !fetch_ended(m, true).fetch.is_fetching,
        fetch_ended(m, true).fetch.fetch_started_at is None,
        fetch_ended(m, true).data == m.data,
{
}

/// A fetch is due when none is under way, a cluster is there, and it was asked for
/// or the interval is over. Starting one answers what was asked for.
pub proof fn law_fetch_is_due(m: AppModel, since: u64, now: u64)
    ensures
        fetch_due(m, since) <==> !m.fetch.is_fetching && m.data.clusters.len() > 0 && (
        m.fetch.needs_refresh || since >= m.data.refresh_secs * 1_000_000_000),
        fetch_begun(m, now).fetch.is_fetching,
        !fetch_begun(m, now).fetch.needs_refresh,
        fetch_begun(m, now).fetch.fetch_started_at == Some(now),
        fetch_begun(m, now).fetch.fetch_generation == m.fetch.fetch_generation,
        fetch_begun(m, now).data == m.data && fetch_begun(m, now).chosen == m.chosen,
{
}

/// Only the selected cluster is limited to the selected namespace.
pub proof fn law_only_the_selected_cluster_is_limited(
    t: FetchTarget,
    c: ClusterClient,
    m: AppModel,
)
    requires
        targets_cluster(t, c, m),
    ensures
        t.cluster@ == c.name@,
        m.chosen.selected_cluster != Some(c.name@) ==> t.namespace is None,
        m.chosen.selected_cluster == Some(c.name@) ==> match m.chosen.selected_namespace {
            Some(ns) => t.namespace is Some && t.namespace->0@ == ns,
            None => t.namespace is None,
        },
{
}

// ---------------------------------------------------------------------------
// Health and counts
// ---------------------------------------------------------------------------

/// Whether a status is that of a pod that has failed.
pub open spec fn says_failed(status: Seq<char>) -> bool {
    status == "Failed"@ || status == "CrashLoopBackOff"@ || status == "Error"@ || status
        == "OOMKilled"@ || status == "ImagePullBackOff"@ || status == "ErrImagePull"@ || status
        == "Evicted"@
}

/// Whether all nodes of a list are ready.
pub open spec fn all_ready(nodes: Seq<NodeInfo>) -> bool {
    forall|i: int| 0 <= i < nodes.len() ==> has_prefix((#[trigger] nodes[i]).status@, "Ready"@)
}

/// Whether no pod of a list has failed.
pub open spec fn none_failed(pods: Seq<PodInfo>) -> bool {
    forall|i: int| 0 <= i < pods.len() ==> !says_failed((#[trigger] pods[i]).status@)
}

/// A cluster is green exactly if all its nodes are ready and no pod has failed. It
/// is red if a node is not ready, or if more than five pods have failed; and yellow
/// otherwise.
pub proof fn law_health_follows_nodes_and_pods(nodes: Seq<NodeInfo>, pods: Seq<PodInfo>)
    ensures
        health_of(nodes, pods) == HealthStatus::Green <==> all_ready(nodes) && none_failed(pods),
        !all_ready(nodes) ==> health_of(nodes, pods) == HealthStatus::Red,
        health_of(nodes, pods) == HealthStatus::Red <==> !all_ready(nodes) || count(
            pods,
            |p: PodInfo| says_failed(p.status@),
        ) > 5,
        health_of(nodes, pods) != HealthStatus::Unknown,
{
    lemma_count_extremes(nodes, node_not_ready());
    lemma_count_extremes(pods, pod_failed());
    lemma_count_same(pods, pod_failed(), |p: PodInfo| says_failed(p.status@));
    if count(nodes, node_not_ready()) == 0 {
        assert forall|i: int| 0 <= i < nodes.len() implies has_prefix(
            (#[trigger] nodes[i]).status@,
            "Ready"@,
        ) by {
            assert(!node_not_ready()(nodes[i]));
        }
    } else {
        let i = choose|i: int| 0 <= i < nodes.len() && node_not_ready()(#[trigger] nodes[i]);
        assert(!has_prefix(nodes[i].status@, "Ready"@));
    }
    if count(pods, pod_failed()) == 0 {
        assert forall|i: int| 0 <= i < pods.len() implies !says_failed(
            (#[trigger] pods[i]).status@,
        ) by {
            assert(!pod_failed()(pods[i]));
        }
    } else {
        let i = choose|i: int| 0 <= i < pods.len() && pod_failed()(#[trigger] pods[i]);
        assert(says_failed(pods[i].status@));
    }
}

/// The counts of a cluster: pods that run, have completed and have failed, by their
/// status, and nodes that are ready.
pub proof fn law_counts_follow_status(
    u: crate::data::ResourceUsage,
    nodes: Seq<NodeInfo>,
    pods: Seq<PodInfo>,
)
    requires
        counts_usage(u, nodes, pods),
    ensures
        u.total_pods == pods.len(),
        u.total_nodes == nodes.len(),
        u.running_pods == count(pods, |p: PodInfo| p.status@ == "Running"@),
        u.succeeded_pods == count(
            pods,
            |p: PodInfo| p.status@ == "Succeeded"@ || p.status@ == "Completed"@,
        ),
        u.failed_pods == count(pods, |p: PodInfo| says_failed(p.status@)),
        u.ready_nodes == count(nodes, |n: NodeInfo| has_prefix(n.status@, "Ready"@)),
        u.ready_nodes == u.total_nodes <==> all_ready(nodes),
{
    lemma_count_same(pods, pod_running(), |p: PodInfo| p.status@ == "Running"@);
    lemma_count_same(
        pods,
        pod_succeeded(),
        |p: PodInfo| p.status@ == "Succeeded"@ || p.status@ == "Completed"@,
    );
    lemma_count_same(pods, pod_failed(), |p: PodInfo| says_failed(p.status@));
    lemma_count_same(nodes, node_ready(), |n: NodeInfo| has_prefix(n.status@, "Ready"@));
    lemma_count_extremes(nodes, node_ready());
    if u.ready_nodes == u.total_nodes {
        assert forall|i: int| 0 <= i < nodes.len() implies has_prefix(
            (#[trigger] nodes[i]).status@,
            "Ready"@,
        ) by {
            assert(node_ready()(nodes[i]));
        }
    } else {
        let i = choose|i: int| 0 <= i < nodes.len() && !node_ready()(#[trigger] nodes[i]);
        assert(!has_prefix(nodes[i].status@, "Ready"@));
    }
}

// ---------------------------------------------------------------------------
// What the table shows
// ---------------------------------------------------------------------------

/// The snapshot that is shown is the first of the selected cluster; without a
/// selection none is.
pub proof fn law_shown_snapshot_is_of_the_selected_cluster(m: AppModel)
    ensures
        m.chosen.selected_cluster is None ==> current(m) is None,
        m.chosen.selected_cluster matches Some(name) ==> match current(m) {
            Some(s) => s.name@ == name && exists|i: int|
                0 <= i < m.data.snapshots.len() && #[trigger] m.data.snapshots[i] == s
                    && forall|j: int| 0 <= j < i ==> (#[trigger] m.data.snapshots[j]).name@ != name,
            None => forall|i: int|
                0 <= i < m.data.snapshots.len() ==> (#[trigger] m.data.snapshots[i]).name@ != name,
        },
{
    if let Some(name) = m.chosen.selected_cluster {
        let wanted = crate::app::snapshot_of(name);
        lemma_first_where(m.data.snapshots, wanted);
        if current(m) is Some {
            let i = choose|i: int|
                0 <= i < m.data.snapshots.len() && #[trigger] m.data.snapshots[i] == current(m)->0
                    && wanted(current(m)->0) && forall|j: int|
                    0 <= j < i ==> !wanted(#[trigger] m.data.snapshots[j]);
            assert forall|j: int| 0 <= j < i implies (#[trigger] m.data.snapshots[j]).name@
                != name by {
                assert(!wanted(m.data.snapshots[j]));
            }
            assert(m.data.snapshots[i] == current(m)->0);
        } else {
            assert forall|i: int| 0 <= i < m.data.snapshots.len() implies (
            #[trigger] m.data.snapshots[i]).name@ != name by {
                assert(!wanted(m.data.snapshots[i]));
            }
        }
    }
}

/// Whether a text holds a search text, without regard to case; everything holds an
/// empty one, or none.
pub open spec fn found_in(query: Option<Seq<char>>, text: Seq<char>) -> bool {
    query is Some && query->0.len() > 0 ==> has_substring(lowercase(text), lowercase(query->0))
}

/// The table has a row for each object of the type shown whose name or namespace
/// holds the search text; of nodes it is the name alone.
pub proof fn law_rows_are_those_found(m: AppModel)
    ensures
        current(m) is None ==> row_count(m) == 0,
        current(m) matches Some(s) ==> {
            let q = m.mode.search_query;
            match m.mode.resource_view {
                ResourceView::Pods => row_count(m) == count(
                    s.pods@,
                    |p: PodInfo| found_in(q, p.name@) || found_in(q, p.namespace@),
                ),
                ResourceView::Deployments => row_count(m) == count(
                    s.deployments@,
                    |p: crate::data::DeploymentInfo|
                        found_in(q, p.name@) || found_in(q, p.namespace@),
                ),
                ResourceView::Services => row_count(m) == count(
                    s.services@,
                    |p: crate::data::ServiceInfo|
                        found_in(q, p.name@) || found_in(q, p.namespace@),
                ),
                ResourceView::ConfigMaps => row_count(m) == count(
                    s.configmaps@,
                    |p: crate::data::ConfigMapInfo|
                        found_in(q, p.name@) || found_in(q, p.namespace@),
                ),
                ResourceView::Nodes => row_count(m) == count(
                    s.nodes@,
                    |n: NodeInfo| found_in(q, n.name@),
                ),
            }
        },
{
    if let Some(s) = current(m) {
        let q = m.mode.search_query;
        lemma_count_same(
            s.pods@,
            crate::app::pod_matches(q),
            |p: PodInfo| found_in(q, p.name@) || found_in(q, p.namespace@),
        );
        lemma_count_same(
            s.deployments@,
            crate::app::deployment_matches(q),
            |p: crate::data::DeploymentInfo| found_in(q, p.name@) || found_in(q, p.namespace@),
        );
        lemma_count_same(
            s.services@,
            crate::app::service_matches(q),
            |p: crate::data::ServiceInfo| found_in(q, p.name@) || found_in(q, p.namespace@),
        );
        lemma_count_same(
            s.configmaps@,
            crate::app::configmap_matches(q),
            |p: crate::data::ConfigMapInfo| found_in(q, p.name@) || found_in(q, p.namespace@),
        );
        lemma_count_same(
            s.nodes@,
            crate::app::node_matches(q),
            |n: NodeInfo| found_in(q, n.name@),
        );
    }
}

/// Without a search text the table has a row for every object.
pub proof fn law_no_search_shows_all_rows(m: AppModel)
    requires
        m.mode.search_query is None || m.mode.search_query->0.len() == 0,
    ensures
        current(m) matches Some(s) ==> row_count(m) == match m.mode.resource_view {
            ResourceView::Pods => s.pods@.len(),
            ResourceView::Deployments => s.deployments@.len(),
            ResourceView::Services => s.services@.len(),
            ResourceView::ConfigMaps => s.configmaps@.len(),
            ResourceView::Nodes => s.nodes@.len(),
        },
{
    if let Some(s) = current(m) {
        let q = m.mode.search_query;
        lemma_count_extremes(s.pods@, crate::app::pod_matches(q));
        lemma_count_extremes(s.deployments@, crate::app::deployment_matches(q));
        lemma_count_extremes(s.services@, crate::app::service_matches(q));
        lemma_count_extremes(s.configmaps@, crate::app::configmap_matches(q));
        lemma_count_extremes(s.nodes@, crate::app::node_matches(q));
    }
}

/// The Top tab has two lines for the cluster, one for each node where there are
/// several, and one otherwise; without a snapshot it has one line.
pub proof fn law_top_has_a_line_for_each_node(m: AppModel)
    ensures
        current(m) is None ==> top_line_count(m) == 1,
        current(m) matches Some(s) ==> top_line_count(m) == 2 + if s.nodes@.len() > 1 {
            s.nodes@.len()
        } else {
            1
        },
{
}

// ---------------------------------------------------------------------------
// Discovery
// ---------------------------------------------------------------------------

/// A cluster that answers is the last of the clusters, counts as connected, is
/// selected if none was, and is fetched at once; its tunnel is noted.
pub proof fn law_connected_clusters_are_used(m: AppModel, client: ClusterClient)
    ensures
        ({
            let after = discovered(m, DiscoverEvent::Connected(client));
            &&& after.data.clusters.len() == m.data.clusters.len() + 1
            &&& after.data.clusters.last() == client
            &&& forall|i: int|
                0 <= i < m.data.clusters.len() ==> #[trigger] after.data.clusters[i]
                    == m.data.clusters[i]
            &&& after.data.connections.contains_key(client.name@)
            &&& after.data.connections[client.name@] == StatusModel::Connected
            &&& forall|name: Seq<char>|
                name != client.name@ && m.data.connections.contains_key(name)
                    ==> #[trigger] after.data.connections[name] == m.data.connections[name]
            &&& after.chosen.selected_cluster == match m.chosen.selected_cluster {
                Some(name) => Some(name),
                None => Some(client.name@),
            }
            &&& after.chosen.selected_namespace == m.chosen.selected_namespace
            &&& after.fetch.needs_refresh && !after.fetch.is_fetching
            &&& after.fetch.fetch_generation == m.fetch.fetch_generation + 1
            &&& client.tunnel_pid matches Some(pid) ==> after.data.tunnel_pids
                == m.data.tunnel_pids.push(pid)
            &&& client.tunnel_pid is None ==> after.data.tunnel_pids == m.data.tunnel_pids
            &&& after.data.snapshots == m.data.snapshots
        }),
{
    let after = discovered(m, DiscoverEvent::Connected(client));
    assert(after.data.tunnel_pids =~= match client.tunnel_pid {
        Some(pid) => m.data.tunnel_pids.push(pid),
        None => m.data.tunnel_pids,
    });
}

/// A cluster that cannot be reached counts as failed, with the reason; nothing else
/// changes. The end of discovery is noted, and so is nothing of a message.
pub proof fn law_failed_clusters_are_noted(m: AppModel, event: DiscoverEvent)
    ensures
        event matches DiscoverEvent::Failed { name, error } ==> {
            let after = discovered(m, event);
            &&& after.data.connections.contains_key(name@)
            &&& after.data.connections[name@] == StatusModel::Failed(error@)
            &&& after.data.clusters == m.data.clusters && after.chosen == m.chosen && after.fetch
                == m.fetch && after.tree == m.tree
        },
        event is Complete ==> discovered(m, event).data.discover_complete && discovered(
            m,
            event,
        ).data.clusters == m.data.clusters && discovered(m, event).fetch == m.fetch,
        event is Log ==> discovered(m, event) == m,
{
}

// ---------------------------------------------------------------------------
// The start, and the screen
// ---------------------------------------------------------------------------

/// A dashboard that was just started shows pods, has its cursor on the root, and
/// lists the clusters, closed and in order, below the open root; the infrastructure
/// comes last. Nothing is selected, searched or fetched.
pub proof fn law_fresh_dashboard_lists_the_clusters(
    m: AppModel,
    names: Seq<Seq<char>>,
    refresh_secs: u64,
)
    requires
        is_fresh(m, names, refresh_secs),
    ensures
        m.mode.running && !m.mode.show_help && !m.mode.search_active,
        m.mode.resource_view == ResourceView::Pods && m.mode.active_tab == 0,
        m.mode.search_query is None,
        m.tree.len() == names.len() + 2,
        m.tree[0].kind is Root && m.tree[0].expanded && m.tree[0].depth == 0,
        forall|i: int|
            0 <= i < names.len() ==> (#[trigger] m.tree[i + 1]).kind == KindModel::Cluster(names[i])
                && m.tree[i + 1].label == names[i] && m.tree[i + 1].depth == 1
                && !m.tree[i + 1].expanded && !m.tree[i + 1].children_loaded,
        m.tree.last().kind is InfraHeader && m.tree.last().depth == 0 && !m.tree.last().expanded,
        m.chosen.selected_cluster is None && m.chosen.selected_namespace is None,
        m.pos.tree_cursor == 0 && m.pos.table_cursor == 0,
        !m.fetch.is_fetching && !m.fetch.needs_refresh && m.fetch.fetch_generation == 0,
        m.data.snapshots.len() == 0,
        m.data.refresh_secs == refresh_secs,
{
    assert forall|i: int| 0 <= i < names.len() implies (#[trigger] m.tree[i + 1]).kind
        == KindModel::Cluster(names[i]) && m.tree[i + 1].label == names[i] && m.tree[i + 1].depth
        == 1 && !m.tree[i + 1].expanded && !m.tree[i + 1].children_loaded by {
        assert(fresh_tree(names)[i + 1] == crate::session::fresh_cluster_node()(names[i]));
    }
}

/// A screen of 28 lines or more has eleven lines around its panels, a smaller one
/// seven. The table leaves two lines to its border, one to its headings, which the
/// Top tab does not have, and one to a search that is typed.
pub proof fn law_panels_fill_the_screen(m: AppModel, screen: nat)
    ensures
        screen >= 28 ==> body_height(screen) + 11 == screen,
        7 <= screen < 28 ==> body_height(screen) + 7 == screen,
        screen < 7 ==> body_height(screen) == 0,
        ({
            let around = 2 + (if m.mode.active_tab == 0 {
                1int
            } else {
                0
            }) + (if m.mode.search_active {
                1int
            } else {
                0
            });
            &&& body_height(screen) >= around ==> table_height(m, screen) + around == body_height(
                screen,
            )
            &&& body_height(screen) < around ==> table_height(m, screen) == 0
        }),
        fitted(m, screen).size.page_size == table_height(m, screen),
        fitted(m, screen).size.sidebar_page_size == body_height(screen),
{
}

/// New data on the infrastructure are shown below its open node, one entry for each
/// pool in order, or one entry where there are none; a closed node shows none of
/// them.
pub proof fn law_infrastructure_lists_the_pools(m: AppModel, infra: InfraSnapshot)
    requires
        infra_header(m.tree) < m.tree.len(),
        m.tree[infra_header(m.tree)].expanded,
        !m.tree[infra_header(m.tree)].children_loaded ==> children(
            m.tree,
            infra_header(m.tree),
        ).len() == 0,
    ensures
        ({
            let at = infra_header(m.tree);
            let after = infra_loaded(m, infra).tree;
            let pools = infra.sdi_pools@;
            &&& infra_loaded(m, infra).data.infra == infra
            &&& forall|k: int| 0 <= k < at ==> #[trigger] after[k] == m.tree[k]
            &&& after[at].kind is InfraHeader && after[at].expanded && after[at].children_loaded
            &&& forall|k: int|
                0 <= k < pools.len() ==> (#[trigger] after[at + 1 + k]).kind
                    == KindModel::InfraItem(pools[k].pool_name@) && after[at + 1 + k].depth
                    == m.tree[at].depth + 1
            &&& pools.len() == 0 ==> after[at + 1].kind is InfraItem && after[at + 1].label
                == "No SDI data"@
        }),
{
    let at = infra_header(m.tree);
    lemma_first_index_props(m.tree, is_infra_header());
    lemma_children_end(m.tree, m.tree[at].depth, at + 1);
    let bare = if m.tree[at].children_loaded {
        let b = crate::tree::without_children(m.tree, at);
        b.update(at, crate::tree::with_loaded(b[at], false))
    } else {
        m.tree
    };
    assert forall|k: int| 0 <= k < at implies #[trigger] bare[k] == m.tree[k] by {}
    assert forall|k: int| 0 <= k < at implies !is_infra_header()(#[trigger] bare[k]) by {
        assert(!is_infra_header()(m.tree[k]));
    }
    lemma_first_index(bare, at, is_infra_header());
    let after = infra_loaded(m, infra).tree;
    let added = crate::tree::infra_children(infra.sdi_pools@, bare[at].depth + 1);
    let filled = crate::tree::with_children(bare, at, added);
    assert(after == filled.update(at, crate::tree::with_loaded(filled[at], true)));
    assert forall|k: int| 0 <= k < added.len() implies #[trigger] after[at + 1 + k]
        == added[k] by {}
}

/// A tick counts one, and changes nothing else; so does noting how a cluster is
/// connected, which it says of that cluster only.
pub proof fn law_ticks_and_notes(m: AppModel, name: Seq<char>, other: Seq<char>, s: StatusModel)
    requires
        m.fetch.tick_count < u64::MAX,
    ensures
        ticked(m).fetch.tick_count == m.fetch.tick_count + 1,
        ticked(m).tree == m.tree && ticked(m).data == m.data && ticked(m).mode == m.mode,
        ticked(m).fetch.needs_refresh == m.fetch.needs_refresh && ticked(m).fetch.is_fetching
            == m.fetch.is_fetching,
        status_noted(m, name, s).data.connections.contains_key(name),
        status_noted(m, name, s).data.connections[name] == s,
        other != name && m.data.connections.contains_key(other) ==> status_noted(
            m,
            name,
            s,
        ).data.connections[other] == m.data.connections[other],
        status_noted(m, name, s).data.snapshots == m.data.snapshots,
{
}

/// A snapshot that is put together judges its health by the nodes and pods that it
/// holds, and counts them.
pub proof fn law_snapshot_judges_what_it_holds(
    snap: ClusterSnapshot,
    name: Seq<char>,
    asked: Option<Seq<char>>,
    f: Fetched,
)
    requires
        assembles(snap, name, asked, f),
    ensures
        snap.health == HealthStatus::Green ==> all_ready(snap.nodes@),
        snap.health == health_of(snap.nodes@, snap.pods@),
        snap.resource_usage.total_pods == snap.pods@.len(),
        snap.resource_usage.total_nodes == snap.nodes@.len(),
        snap.resource_usage.running_pods == count(
            snap.pods@,
            |p: PodInfo| p.status@ == "Running"@,
        ),
        snap.resource_usage.ready_nodes == snap.resource_usage.total_nodes <==> all_ready(
            snap.nodes@,
        ),
{
    law_counts_follow_status(snap.resource_usage, snap.nodes@, snap.pods@);
    law_health_follows_nodes_and_pods(snap.nodes@, snap.pods@);
}

/// Trying clusters again marks them as being discovered, and leaves what is noted of
/// the others.
pub proof fn law_tried_again_means_discovering(
    before: Map<Seq<char>, StatusModel>,
    after: Map<Seq<char>, StatusModel>,
    names: Seq<Seq<char>>,
    name: Seq<char>,
)
    requires
        discovers_again(before, after, names),
    ensures
        names.contains(name) ==> after.contains_key(name) && after[name]
            == StatusModel::Discovering,
        !names.contains(name) && before.contains_key(name) ==> after.contains_key(name)
            && after[name] == before[name],
        !names.contains(name) && !before.contains_key(name) ==> !after.contains_key(name),
{
}

} // verus!
