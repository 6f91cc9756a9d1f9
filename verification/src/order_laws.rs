//! Laws of orders and of choices: what comes first, and what is taken.
use vstd::prelude::*;
use crate::age::Timestamp;
use crate::app::{active_resource_of, name_matches, row_matches, view_label, ResourceView};
use crate::checks::{has_status, overall_status, reports, CheckModel, CheckReport, CheckStatus};
use crate::connections::{entry_failed, entry_name, ConnectionStatus};
use crate::data::{
    is_named, last_seen_at, most_recent_first, name_in, seen_earlier, ActiveResource,
    ClusterSnapshot,
};
use crate::infra::{is_loaded, shows_pools, InfraSnapshot, SdiPoolState};
use crate::json::Json;
use crate::kube_client::{
    has_tunnel, holds_cluster, pools_of, same_dir, tunnel_process, ClusterClient, ConfigDir,
};
use crate::list::{collect, count, lemma_collect_contains, lemma_count_same};
use crate::objects::Event;
use crate::snapshot::{failed_status, is_section, Section};
use crate::sort::{
    key_less, lemma_key_total, lemma_key_transitive, lemma_sorted_contains,
    lemma_text_key_injective, stably_sorted, text_key, text_less, SortKey,
};
use crate::text::{has_substring, lowercase};

verus! {

// ---------------------------------------------------------------------------
// Order
// ---------------------------------------------------------------------------

proof fn lemma_key_differs(a: Seq<int>, b: Seq<int>, k: int)
    requires
        0 <= k <= a.len(),
        k <= b.len(),
        forall|i: int| 0 <= i < k ==> #[trigger] a[i] == b[i],
    ensures
        k == a.len() && k < b.len() ==> key_less(a, b),
        k < a.len() && k < b.len() && a[k] < b[k] ==> key_less(a, b),
        k == b.len() ==> !key_less(a, b),
        k < a.len() && k < b.len() && a[k] > b[k] ==> !key_less(a, b),
    decreases k,
{
    if k > 0 {
        assert(a[0] == b[0]);
        assert forall|i: int| 0 <= i < k - 1 implies #[trigger] a.drop_first()[i]
            == b.drop_first()[i] by {
            assert(a[i + 1] == b[i + 1]);
        }
        lemma_key_differs(a.drop_first(), b.drop_first(), k - 1);
    }
}

/// Of two texts that agree up to some place, the one that ends there comes first,
/// and else the one with the smaller character.
pub proof fn law_texts_are_ordered_by_character(a: Seq<char>, b: Seq<char>, k: int)
    requires
        0 <= k <= a.len(),
        k <= b.len(),
        forall|i: int| 0 <= i < k ==> #[trigger] a[i] == b[i],
    ensures
        k == a.len() && k < b.len() ==> text_less(a, b) && !text_less(b, a),
        k < a.len() && k < b.len() && a[k] < b[k] ==> text_less(a, b) && !text_less(b, a),
        a == b ==> !text_less(a, b),
{
    let x = text_key(a);
    let y = text_key(b);
    assert forall|i: int| 0 <= i < k implies #[trigger] x[i] == y[i] by {
        assert(a[i] == b[i]);
    }
    lemma_key_differs(x, y, k);
    lemma_key_differs(y, x, k);
    if a == b {
        crate::sort::lemma_key_irreflexive(x);
    }
}

/// Two different texts are in one order or the other, and never in both.
pub proof fn law_text_order_is_total(a: Seq<char>, b: Seq<char>)
    ensures
        text_less(a, b) || text_less(b, a) || a == b,
        !(text_less(a, b) && text_less(b, a)),
{
    lemma_key_total(text_key(a), text_key(b));
    if text_key(a) == text_key(b) {
        lemma_text_key_injective(a, b);
    }
    if text_less(a, b) && text_less(b, a) {
        lemma_key_transitive(text_key(a), text_key(b), text_key(a));
        crate::sort::lemma_key_irreflexive(text_key(a));
    }
}

/// Clusters are in the order of their names, and none is lost.
pub proof fn law_clusters_by_name(
    clusters: Seq<ClusterClient>,
    sorted: Seq<ClusterClient>,
    i: int,
    j: int,
)
    requires
        stably_sorted(clusters, sorted),
        0 <= i < j < sorted.len(),
    ensures
        !text_less(sorted[j].name@, sorted[i].name@),
        forall|c: ClusterClient| #[trigger] sorted.contains(c) <==> clusters.contains(c),
{
    assert(!key_less(sorted[j].sort_key(), sorted[i].sort_key()));
    assert forall|c: ClusterClient| #[trigger] sorted.contains(c) <==> clusters.contains(c) by {
        lemma_sorted_contains(clusters, sorted, c);
    }
}

/// The directories that hold a kubeconfig are those of clusters to discover; no
/// other is, and they are in the order of their names.
pub proof fn law_directories_to_discover(
    entries: Seq<ConfigDir>,
    found: Seq<ConfigDir>,
    d: ConfigDir,
    i: int,
    j: int,
)
    requires
        stably_sorted(collect(entries, holds_cluster(), same_dir()), found),
    ensures
        found.contains(d) <==> entries.contains(d) && d.is_dir && d.has_kubeconfig,
        0 <= i < j < found.len() && found[i].file_name@.len() > 0 && found[j].file_name@.len() > 0
            ==> found[i].file_name@[0] <= found[j].file_name@[0],
{
    let all = collect(entries, holds_cluster(), same_dir());
    lemma_sorted_contains(all, found, d);
    lemma_collect_contains(entries, holds_cluster(), same_dir(), d);
    if entries.contains(d) && d.is_dir && d.has_kubeconfig {
        let k = choose|k: int| 0 <= k < entries.len() && entries[k] == d;
        assert(holds_cluster()(entries[k]) && same_dir()(entries[k]) == d);
    }
    if all.contains(d) {
        let k = choose|k: int|
            0 <= k < entries.len() && holds_cluster()(#[trigger] entries[k])
                && same_dir()(entries[k]) == d;
        assert(entries[k] == d);
    }
    if 0 <= i < j < found.len() && found[i].file_name@.len() > 0 && found[j].file_name@.len() > 0 {
        let x = found[j].sort_key();
        let y = found[i].sort_key();
        assert(!key_less(x, y));
        assert(x[0] == found[j].file_name@[0] as int && y[0] == found[i].file_name@[0] as int);
        if x[0] < y[0] {
            lemma_key_differs(x, y, 0);
        }
    }
}

/// The pools that are shown are those that were read, in the order of their names.
pub proof fn law_pools_by_name(snap: InfraSnapshot, pools: Vec<SdiPoolState>, i: int, j: int)
    requires
        is_loaded(snap, Some(pools)),
        0 <= i < j < snap.sdi_pools@.len(),
    ensures
        snap.sdi_pools@.len() == pools@.len(),
        !text_less(snap.sdi_pools@[j].pool_name@, snap.sdi_pools@[i].pool_name@),
{
    let sorted = choose|sorted: Seq<SdiPoolState>| #[trigger]
        stably_sorted(pools@, sorted) && shows_pools(snap, sorted);
    assert(!key_less(sorted[j].sort_key(), sorted[i].sort_key()));
    assert(crate::infra::shows_pool(snap.sdi_pools@[i], sorted[i]));
    assert(crate::infra::shows_pool(snap.sdi_pools@[j], sorted[j]));
}

/// Each pool that was read is shown.
pub proof fn law_each_pool_is_shown(snap: InfraSnapshot, pools: Vec<SdiPoolState>, i: int)
    requires
        is_loaded(snap, Some(pools)),
        0 <= i < pools@.len(),
    ensures
        exists|k: int|
            0 <= k < snap.sdi_pools@.len() && (#[trigger] snap.sdi_pools@[k]).pool_name@
                == pools@[i].pool_name@ && snap.sdi_pools@[k].nodes@.len()
                == pools@[i].nodes@.len(),
{
    let sorted = choose|sorted: Seq<SdiPoolState>| #[trigger]
        stably_sorted(pools@, sorted) && shows_pools(snap, sorted);
    lemma_sorted_contains(pools@, sorted, pools@[i]);
    assert(pools@.contains(pools@[i]));
    let k = choose|k: int| 0 <= k < sorted.len() && sorted[k] == pools@[i];
    assert(crate::infra::shows_pool(snap.sdi_pools@[k], sorted[k]));
}

/// Events are listed from the most recent on, and those without a time last.
pub proof fn law_recent_events_first(events: Seq<Event>, i: int, j: int)
    requires
        most_recent_first(events),
        0 <= i < j < events.len(),
    ensures
        last_seen_at(events[i]) matches Some(a) ==> (last_seen_at(events[j]) matches Some(b)
            ==> a.secs > b.secs || a.secs == b.secs && a.nanos >= b.nanos),
        last_seen_at(events[i]) is None ==> last_seen_at(events[j]) is None,
{
}

/// A missing time lies before every other, and none lies before a missing one.
pub proof fn law_missing_times_are_the_earliest(a: Option<Timestamp>, b: Option<Timestamp>)
    ensures
        a is None && b is Some ==> seen_earlier(a, b),
        b is None ==> !seen_earlier(a, b),
        a matches Some(x) ==> (b matches Some(y) ==> (seen_earlier(a, b) <==> x.secs < y.secs
            || x.secs == y.secs && x.nanos < y.nanos)),
{
}

/// An event was last seen at its last time, else at its time, else when it came to be.
pub proof fn law_when_an_event_was_seen(evt: Event)
    ensures
        evt.last_timestamp is Some ==> last_seen_at(evt) == evt.last_timestamp,
        evt.last_timestamp is None && evt.event_time is Some ==> last_seen_at(evt)
            == evt.event_time,
        evt.last_timestamp is None && evt.event_time is None ==> last_seen_at(evt)
            == evt.meta.created,
{
}

/// The namespaces of a cluster are those that have a name, in order.
pub proof fn law_named_namespaces(names: Seq<Option<String>>, found: Seq<String>, n: String)
    requires
        stably_sorted(collect(names, is_named(), name_in()), found),
    ensures
        found.contains(n) <==> names.contains(Some(n)),
        forall|i: int, j: int|
            0 <= i < j < found.len() ==> !text_less(
                (#[trigger] found[j])@,
                (#[trigger] found[i])@,
            ),
{
    let all = collect(names, is_named(), name_in());
    lemma_sorted_contains(all, found, n);
    lemma_collect_contains(names, is_named(), name_in(), n);
    if names.contains(Some(n)) {
        let k = choose|k: int| 0 <= k < names.len() && names[k] == Some(n);
        assert(is_named()(names[k]) && name_in()(names[k]) == n);
    }
    if all.contains(n) {
        let k = choose|k: int|
            0 <= k < names.len() && is_named()(#[trigger] names[k]) && name_in()(names[k]) == n;
        assert(names[k] == Some(n));
    }
    assert forall|i: int, j: int| 0 <= i < j < found.len() implies !text_less(
        (#[trigger] found[j])@,
        (#[trigger] found[i])@,
    ) by {
        assert(!key_less(found[j].sort_key(), found[i].sort_key()));
    }
}

/// A time comes before another by its seconds, and within one second by the rest.
pub proof fn law_times_by_seconds(a: Timestamp, b: Timestamp)
    ensures
        a.secs < b.secs ==> a.is_before(b) && !b.is_before(a),
        a.secs == b.secs && a.nanos < b.nanos ==> a.is_before(b) && !b.is_before(a),
        !a.is_before(a),
{
}

// ---------------------------------------------------------------------------
// What is taken
// ---------------------------------------------------------------------------

/// Each view fetches the resource that it shows, and is headed by its name.
pub proof fn law_views_fetch_what_they_show(v: ResourceView)
    ensures
        v == ResourceView::Pods <==> active_resource_of(v) == ActiveResource::Pods,
        v == ResourceView::Deployments <==> active_resource_of(v) == ActiveResource::Deployments,
        v == ResourceView::Services <==> active_resource_of(v) == ActiveResource::Services,
        v == ResourceView::ConfigMaps <==> active_resource_of(v) == ActiveResource::ConfigMaps,
        v == ResourceView::Nodes <==> active_resource_of(v) == ActiveResource::Nodes,
        v == ResourceView::Pods ==> view_label(v) == "Pods"@,
        v == ResourceView::Deployments ==> view_label(v) == "Deployments"@,
        v == ResourceView::Services ==> view_label(v) == "Services"@,
        v == ResourceView::ConfigMaps ==> view_label(v) == "ConfigMaps"@,
        v == ResourceView::Nodes ==> view_label(v) == "Nodes"@,
{
}

/// A row is found by its name or by its namespace, without regard to case; without
/// a query, or with an empty one, every row is.
pub proof fn law_rows_are_found_by_name_or_namespace(
    query: Option<Seq<char>>,
    name: Seq<char>,
    ns: Seq<char>,
)
    ensures
        query is None ==> row_matches(query, name, ns) && name_matches(query, name),
        query matches Some(q) ==> (q.len() == 0 ==> row_matches(query, name, ns) && name_matches(
            query,
            name,
        )),
        query matches Some(q) ==> (q.len() > 0 ==> (row_matches(query, name, ns) <==> has_substring(
            lowercase(name),
            lowercase(q),
        ) || has_substring(lowercase(ns), lowercase(q)))),
        query matches Some(q) ==> (q.len() > 0 ==> (name_matches(query, name) <==> has_substring(
            lowercase(name),
            lowercase(q),
        ))),
{
}

/// A resource name takes the section of that name out of a snapshot.
pub proof fn law_sections_are_taken_by_name(
    section: Section<'_>,
    snap: ClusterSnapshot,
    resource: Seq<char>,
)
    requires
        is_section(section, snap, resource),
    ensures
        resource == "pods"@ ==> section == Section::Pods(&snap.pods),
        resource == "deployments"@ ==> section == Section::Deployments(&snap.deployments),
        resource == "services"@ ==> section == Section::Services(&snap.services),
        resource == "nodes"@ ==> section == Section::Nodes(&snap.nodes),
        resource == "configmaps"@ ==> section == Section::ConfigMaps(&snap.configmaps),
        resource == "events"@ ==> section == Section::Events(&snap.events),
        resource == "namespaces"@ ==> section == Section::Namespaces(&snap.namespaces),
        resource == "checks"@ ==> section is Error,
{
    reveal_strlit("pods");
    reveal_strlit("deployments");
    reveal_strlit("services");
    reveal_strlit("nodes");
    reveal_strlit("configmaps");
    reveal_strlit("events");
    reveal_strlit("namespaces");
    reveal_strlit("checks");
    assert("pods"@.len() == 4 && "deployments"@.len() == 11 && "services"@.len() == 8);
    assert("nodes"@.len() == 5 && "configmaps"@.len() == 10 && "events"@.len() == 6);
    assert("namespaces"@.len() == 10 && "checks"@.len() == 6);
    assert("configmaps"@[0] == 'c' && "namespaces"@[0] == 'n');
    assert("events"@[0] == 'e' && "checks"@[0] == 'c');
}

/// The statuses by which a pod counts as failed.
pub proof fn law_failed_statuses(s: Seq<char>)
    ensures
        failed_status(s) <==> s == "Failed"@ || s == "CrashLoopBackOff"@ || s == "Error"@ || s
            == "OOMKilled"@ || s == "ImagePullBackOff"@ || s == "ErrImagePull"@ || s
            == "Evicted"@,
{
}

/// The clusters that are tried again are those that could not be reached.
pub proof fn law_failed_clusters_are_tried_again(
    entries: Seq<(String, ConnectionStatus)>,
    name: Seq<char>,
)
    ensures
        collect(entries, entry_failed(), entry_name()).contains(name) <==> exists|i: int|
            0 <= i < entries.len() && (#[trigger] entries[i]).0@ == name && entries[i].1 is Failed,
{
    lemma_collect_contains(entries, entry_failed(), entry_name(), name);
    if exists|i: int|
        0 <= i < entries.len() && (#[trigger] entries[i]).0@ == name && entries[i].1 is Failed {
        let i = choose|i: int|
            0 <= i < entries.len() && (#[trigger] entries[i]).0@ == name && entries[i].1 is Failed;
        assert(entry_failed()(entries[i]) && entry_name()(entries[i]) == name);
    }
    if collect(entries, entry_failed(), entry_name()).contains(name) {
        let i = choose|i: int|
            0 <= i < entries.len() && entry_failed()(#[trigger] entries[i])
                && entry_name()(entries[i]) == name;
        assert(entries[i].0@ == name);
    }
}

/// The processes that are stopped at the end are those of the tunnels.
pub proof fn law_tunnels_are_stopped(clusters: Seq<ClusterClient>, pid: i32)
    requires
        pid >= 0,
    ensures
        collect(clusters, has_tunnel(), tunnel_process()).contains(pid) <==> exists|i: int|
            0 <= i < clusters.len() && (#[trigger] clusters[i]).tunnel_pid == Some(pid as u32),
{
    lemma_collect_contains(clusters, has_tunnel(), tunnel_process(), pid);
    if exists|i: int|
        0 <= i < clusters.len() && (#[trigger] clusters[i]).tunnel_pid == Some(pid as u32) {
        let i = choose|i: int|
            0 <= i < clusters.len() && (#[trigger] clusters[i]).tunnel_pid == Some(pid as u32);
        assert(has_tunnel()(clusters[i]) && tunnel_process()(clusters[i]) == pid);
    }
    if collect(clusters, has_tunnel(), tunnel_process()).contains(pid) {
        let i = choose|i: int|
            0 <= i < clusters.len() && has_tunnel()(#[trigger] clusters[i])
                && tunnel_process()(clusters[i]) == pid;
        assert(clusters[i].tunnel_pid == Some(pid as u32));
    }
}

/// A state file holds a list of pools, or one pool.
pub proof fn law_one_pool_or_many(value: Json)
    ensures
        value matches Json::Array { items, .. } ==> pools_of(Some(value)) == Some(items@),
        !(value is Array) ==> pools_of(Some(value)) == Some(seq![value]),
        pools_of(None) is None,
{
}

/// A report counts its checks by how they went, and each check in one count at most.
pub proof fn law_reports_count_checks(r: CheckReport, checks: Seq<CheckModel>)
    requires
        reports(r, checks),
    ensures
        r.total == checks.len() && r.checks@.len() == checks.len(),
        r.passed == count(checks, |c: CheckModel| c.status == CheckStatus::Pass),
        r.failed == count(checks, |c: CheckModel| c.status == CheckStatus::Fail),
        r.known_degraded == count(checks, |c: CheckModel| c.status == CheckStatus::KnownDegraded),
        r.failed > 0 <==> r.overall == CheckStatus::Fail,
        r.passed + r.failed + r.known_degraded <= r.total,
{
    lemma_count_same(
        checks,
        has_status(CheckStatus::Pass),
        |c: CheckModel| c.status == CheckStatus::Pass,
    );
    lemma_count_same(
        checks,
        has_status(CheckStatus::Fail),
        |c: CheckModel| c.status == CheckStatus::Fail,
    );
    lemma_count_same(
        checks,
        has_status(CheckStatus::KnownDegraded),
        |c: CheckModel| c.status == CheckStatus::KnownDegraded,
    );
    assert(r.checks@.len() == crate::checks::checks_model(r.checks@).len());
    crate::checks::law_counts_disjoint(checks);
    assert(r.overall == overall_status(checks));
}

} // verus!
