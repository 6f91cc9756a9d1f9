//! Laws of the tables: what the rows say of the objects that they stand for.
use vstd::prelude::*;
use crate::age::{age_column, age_text, nanos_between, whole_seconds, Timestamp};
use crate::data::{
    container_error, container_names, critical_status, effective_status, external_ip, in_error,
    init_completed, init_in_error, node_internal_ip, node_roles, node_status, pending_status,
    port_text, ports_column, readiness, restart_sum, shows_configmap, shows_deployment, shows_event,
    shows_node, shows_pod, shows_service, status_severity, ConfigMapInfo, DeploymentInfo, EventInfo,
    NodeInfo, PodInfo, ServiceInfo,
};
use crate::kube_client::{entry_text, is_cluster_entry, ConfigEntry};
use crate::list::{
    collect, count, first_where, lemma_collect_contains, lemma_count_extremes, lemma_count_same,
    lemma_first_where, lemma_first_where_at,
};
use crate::objects::{
    ConfigMap, ContainerStatus, Deployment, Event, Node, NodeCondition, Pod, Service,
    ServicePortSpec,
};
use crate::snapshot::{assembles, lists_namespaces, or_empty, Fetched};
use crate::sort::{
    key_less, lemma_one_number_keys, lemma_sorted_contains, stably_sorted, text_less, SortKey,
};
use crate::text::{decimal, has_prefix, has_substring, joined, signed_decimal, texts};

verus! {

// ---------------------------------------------------------------------------
// The status of pods
// ---------------------------------------------------------------------------

/// Whether a container waits for a reason.
pub open spec fn waits_for(cs: ContainerStatus, why: Seq<char>) -> bool {
    &&& cs.state is Some && cs.state->0.waiting is Some
    &&& cs.state->0.waiting->0.reason is Some
    &&& cs.state->0.waiting->0.reason->0@ == why
}

/// Whether a container ended for a reason.
pub open spec fn ended_for(cs: ContainerStatus, why: Seq<char>) -> bool {
    &&& cs.state is Some && cs.state->0.terminated is Some
    &&& cs.state->0.terminated->0.reason is Some
    &&& cs.state->0.terminated->0.reason->0@ == why
}

/// Whether a container is in an error: it waits because of one, or ended by one. An
/// error that it waits because of comes before one that it ended by.
pub open spec fn fails_by(cs: ContainerStatus, why: Seq<char>) -> bool {
    ||| waits_for(cs, why) && blocks(why)
    ||| ended_for(cs, why) && (why == "Error"@ || why == "OOMKilled"@) && !is_blocked(cs)
}

/// Whether a reason to wait is an error.
pub open spec fn blocks(why: Seq<char>) -> bool {
    why == "CrashLoopBackOff"@ || why == "ImagePullBackOff"@ || why == "ErrImagePull"@ || why
        == "CreateContainerConfigError"@ || why == "InvalidImageName"@
}

/// Whether a container waits because of an error.
pub open spec fn is_blocked(cs: ContainerStatus) -> bool {
    exists|why: Seq<char>| #[trigger] waits_for(cs, why) && blocks(why)
}

/// Whether an init container has completed.
pub open spec fn has_completed(cs: ContainerStatus) -> bool {
    cs.state is Some && cs.state->0.terminated is Some && cs.state->0.terminated->0.exit_code == 0
}

/// Whether a reason of the pod as a whole stands for its status.
pub open spec fn stands_for_status(reason: Option<Seq<char>>) -> bool {
    reason == Some("Evicted"@) || reason == Some("NodeLost"@) || reason == Some("Shutdown"@)
}

/// What a container's error is.
proof fn lemma_error(cs: ContainerStatus, why: Seq<char>)
    ensures
        container_error(cs) == Some(why) <==> fails_by(cs, why),
{
    if fails_by(cs, why) {
        if waits_for(cs, why) && blocks(why) {
        } else {
            assert(!is_blocked(cs));
            if crate::data::waiting_reason(cs) is Some {
                assert(waits_for(cs, crate::data::waiting_reason(cs)->0));
            }
        }
    }
    if container_error(cs) == Some(why) && !(waits_for(cs, why) && blocks(why)) {
        if is_blocked(cs) {
            let w = choose|w: Seq<char>| #[trigger] waits_for(cs, w) && blocks(w);
            assert(crate::data::waiting_reason(cs) == Some(w));
        }
    }
}

/// A reason of the pod as a whole that stands for its status is its status.
pub proof fn law_pod_reason_is_the_status(
    phase: Seq<char>,
    statuses: Seq<ContainerStatus>,
    init: Seq<ContainerStatus>,
    reason: Option<Seq<char>>,
)
    requires
        stands_for_status(reason),
    ensures
        effective_status(phase, statuses, init, reason) == reason->0,
{
}

/// With all init containers completed, the status of a pod is the error of its
/// first container that has one, whichever that is.
pub proof fn law_first_error_is_the_status(
    phase: Seq<char>,
    statuses: Seq<ContainerStatus>,
    init: Seq<ContainerStatus>,
    reason: Option<Seq<char>>,
    i: int,
    why: Seq<char>,
)
    requires
        !stands_for_status(reason),
        forall|k: int| 0 <= k < init.len() ==> has_completed(#[trigger] init[k]),
        0 <= i < statuses.len(),
        fails_by(statuses[i], why),
        forall|k: int, w: Seq<char>| 0 <= k < i ==> !#[trigger] fails_by(statuses[k], w),
    ensures
        effective_status(phase, statuses, init, reason) == why,
{
    lemma_count_extremes(init, init_completed());
    lemma_error(statuses[i], why);
    assert forall|k: int| 0 <= k < i implies !in_error()(#[trigger] statuses[k]) by {
        if container_error(statuses[k]) is Some {
            lemma_error(statuses[k], container_error(statuses[k])->0);
        }
    }
    lemma_first_where_at(statuses, i, in_error());
}

/// With all init containers completed and no container in an error, the status of a
/// pod is its phase.
pub proof fn law_phase_is_the_status(
    phase: Seq<char>,
    statuses: Seq<ContainerStatus>,
    init: Seq<ContainerStatus>,
    reason: Option<Seq<char>>,
)
    requires
        !stands_for_status(reason),
        forall|k: int| 0 <= k < init.len() ==> has_completed(#[trigger] init[k]),
        forall|k: int, w: Seq<char>|
            0 <= k < statuses.len() ==> !#[trigger] fails_by(statuses[k], w),
    ensures
        effective_status(phase, statuses, init, reason) == phase,
{
    lemma_count_extremes(init, init_completed());
    lemma_first_where(statuses, in_error());
    if first_where(statuses, in_error()) is Some {
        let i = choose|i: int|
            0 <= i < statuses.len() && #[trigger] statuses[i] == first_where(
                statuses,
                in_error(),
            )->0 && in_error()(statuses[i]);
        lemma_error(statuses[i], container_error(statuses[i])->0);
        assert(fails_by(statuses[i], container_error(statuses[i])->0));
    }
}

/// Whether a reason keeps an init container from starting.
pub open spec fn keeps_init_waiting(why: Seq<char>) -> bool {
    why == "CrashLoopBackOff"@ || why == "ImagePullBackOff"@ || why == "ErrImagePull"@
}

/// While init containers are not all completed, the status of a pod says so: with
/// the error and the name of the first that waits because of one, or else with how
/// many have completed.
pub proof fn law_init_containers_hold_the_pod(
    phase: Seq<char>,
    statuses: Seq<ContainerStatus>,
    init: Seq<ContainerStatus>,
    reason: Option<Seq<char>>,
    i: int,
    why: Seq<char>,
)
    requires
        !stands_for_status(reason),
        exists|k: int| 0 <= k < init.len() && !has_completed(#[trigger] init[k]),
    ensures
        0 <= i < init.len() && waits_for(init[i], why) && keeps_init_waiting(why) && (forall|
            k: int,
            w: Seq<char>,
        |
            0 <= k < i && keeps_init_waiting(w) ==> !#[trigger] waits_for(init[k], w))
            ==> effective_status(phase, statuses, init, reason) == "Init:"@ + why + " ("@
            + init[i].name@ + ")"@,
        (forall|k: int, w: Seq<char>|
            0 <= k < init.len() && keeps_init_waiting(w) ==> !#[trigger] waits_for(init[k], w))
            ==> effective_status(phase, statuses, init, reason) == "Init:"@ + decimal(
            count(init, |cs: ContainerStatus| has_completed(cs)),
        ) + "/"@ + decimal(init.len()),
{
    lemma_count_extremes(init, init_completed());
    lemma_count_same(init, init_completed(), |cs: ContainerStatus| has_completed(cs));
    let bad = choose|k: int| 0 <= k < init.len() && !has_completed(#[trigger] init[k]);
    assert(!init_completed()(init[bad]));
    if 0 <= i < init.len() && waits_for(init[i], why) && keeps_init_waiting(why) && (forall|
        k: int,
        w: Seq<char>,
    |
        0 <= k < i && keeps_init_waiting(w) ==> !#[trigger] waits_for(init[k], w)) {
        assert forall|k: int| 0 <= k < i implies !init_in_error()(#[trigger] init[k]) by {
            if init_in_error()(init[k]) {
                assert(waits_for(init[k], crate::data::waiting_reason(init[k])->0));
            }
        }
        lemma_first_where_at(init, i, init_in_error());
    }
    if forall|k: int, w: Seq<char>|
        0 <= k < init.len() && keeps_init_waiting(w) ==> !#[trigger] waits_for(init[k], w) {
        lemma_first_where(init, init_in_error());
        if first_where(init, init_in_error()) is Some {
            let k = choose|k: int|
                0 <= k < init.len() && #[trigger] init[k] == first_where(
                    init,
                    init_in_error(),
                )->0 && init_in_error()(init[k]);
            assert(waits_for(init[k], crate::data::waiting_reason(init[k])->0));
        }
    }
}

/// Whether a status is that of a pod that is broken.
pub open spec fn is_broken(s: Seq<char>) -> bool {
    s == "Failed"@ || s == "Error"@ || s == "OOMKilled"@ || s == "CrashLoopBackOff"@ || s
        == "ImagePullBackOff"@ || s == "ErrImagePull"@ || s == "CreateContainerConfigError"@ || s
        == "InvalidImageName"@ || s == "Evicted"@ || s == "NodeLost"@ || s == "Shutdown"@
}

/// Broken pods come first; then those whose init containers are; then those that
/// wait or end; then those that initialise, and those of an unknown status; then
/// those that run; and last those that have completed.
pub proof fn law_severity_orders_pods(s: Seq<char>)
    ensures
        status_severity(s) == 0 <==> is_broken(s),
        status_severity("Pending"@) == 2 && status_severity("ContainerCreating"@) == 2,
        status_severity("PodInitializing"@) == 2 && status_severity("Terminating"@) == 2,
        status_severity("Running"@) == 4,
        status_severity("Succeeded"@) == 5 && status_severity("Completed"@) == 5,
        has_prefix(s, "Init:"@) && !is_broken(s) && (has_substring(s, "Error"@) || has_substring(
            s,
            "CrashLoopBackOff"@,
        )) ==> status_severity(s) == 1,
        status_severity(s) == 1 ==> has_prefix(s, "Init:"@),
        status_severity(s) == 2 ==> s == "Pending"@ || s == "ContainerCreating"@ || s
            == "PodInitializing"@ || s == "Terminating"@,
        status_severity(s) == 4 ==> s == "Running"@,
        status_severity(s) == 5 ==> s == "Succeeded"@ || s == "Completed"@,
        status_severity(s) <= 5,
{
    reveal_strlit("Failed");
    reveal_strlit("Error");
    reveal_strlit("OOMKilled");
    reveal_strlit("CrashLoopBackOff");
    reveal_strlit("ImagePullBackOff");
    reveal_strlit("ErrImagePull");
    reveal_strlit("CreateContainerConfigError");
    reveal_strlit("InvalidImageName");
    reveal_strlit("Evicted");
    reveal_strlit("NodeLost");
    reveal_strlit("Shutdown");
    reveal_strlit("Pending");
    reveal_strlit("ContainerCreating");
    reveal_strlit("PodInitializing");
    reveal_strlit("Terminating");
    reveal_strlit("Running");
    reveal_strlit("Succeeded");
    reveal_strlit("Completed");
    reveal_strlit("Init:");
    lemma_not_broken("Pending"@);
    lemma_not_broken("ContainerCreating"@);
    lemma_not_broken("PodInitializing"@);
    lemma_not_broken("Terminating"@);
    lemma_not_broken("Running"@);
    lemma_not_broken("Succeeded"@);
    lemma_not_broken("Completed"@);
    lemma_not_init("Pending"@);
    lemma_not_init("ContainerCreating"@);
    lemma_not_init("PodInitializing"@);
    lemma_not_init("Terminating"@);
    lemma_not_init("Running"@);
    lemma_not_init("Succeeded"@);
    lemma_not_init("Completed"@);
    assert(!pending_status("Running"@)) by {
        assert("Running"@[0] == 'R');
        assert("Pending"@[0] == 'P' && "ContainerCreating"@[0] == 'C');
        assert("PodInitializing"@[0] == 'P' && "Terminating"@[0] == 'T');
    }
    assert(!pending_status("Succeeded"@)) by {
        assert("Succeeded"@[0] == 'S');
        assert("Pending"@[0] == 'P' && "ContainerCreating"@[0] == 'C');
        assert("PodInitializing"@[0] == 'P' && "Terminating"@[0] == 'T');
    }
    assert(!pending_status("Completed"@)) by {
        assert("Completed"@[2] == 'm' && "ContainerCreating"@[2] == 'n');
        assert("Completed"@[0] == 'C' && "Pending"@[0] == 'P');
        assert("PodInitializing"@[0] == 'P' && "Terminating"@[0] == 'T');
    }
    assert("Succeeded"@ != "Running"@ && "Completed"@ != "Running"@) by {
        assert("Running"@[0] == 'R' && "Succeeded"@[0] == 'S' && "Completed"@[0] == 'C');
    }
}

/// A text that begins as none of the broken statuses do is none of them.
proof fn lemma_not_broken(s: Seq<char>)
    requires
        s.len() >= 3,
        s[0] == 'P' || s[0] == 'T' || s[0] == 'R' || (s[0] == 'S' && s[1] == 'u') || (s[0] == 'C'
            && s[1] == 'o'),
    ensures
        !critical_status(s),
{
    reveal_strlit("Failed");
    reveal_strlit("Error");
    reveal_strlit("OOMKilled");
    reveal_strlit("CrashLoopBackOff");
    reveal_strlit("ImagePullBackOff");
    reveal_strlit("ErrImagePull");
    reveal_strlit("CreateContainerConfigError");
    reveal_strlit("InvalidImageName");
    reveal_strlit("Evicted");
    reveal_strlit("NodeLost");
    reveal_strlit("Shutdown");
    assert("Failed"@[0] == 'F' && "Error"@[0] == 'E' && "OOMKilled"@[0] == 'O');
    assert("CrashLoopBackOff"@[1] == 'r' && "ImagePullBackOff"@[0] == 'I');
    assert("ErrImagePull"@[0] == 'E' && "CreateContainerConfigError"@[1] == 'r');
    assert("InvalidImageName"@[0] == 'I' && "Evicted"@[0] == 'E' && "NodeLost"@[0] == 'N');
    assert("Shutdown"@[1] == 'h');
}

/// A text that does not begin with an `I` is not that of an init container.
proof fn lemma_not_init(s: Seq<char>)
    requires
        s.len() > 0,
        s[0] != 'I',
    ensures
        !has_prefix(s, "Init:"@),
{
    reveal_strlit("Init:");
    if has_prefix(s, "Init:"@) {
        assert(s.subrange(0, 5)[0] == "Init:"@[0]);
    }
}

// ---------------------------------------------------------------------------
// Rows
// ---------------------------------------------------------------------------

/// The text, or another where it is missing.
pub open spec fn or_text(t: Option<String>, other: Seq<char>) -> Seq<char> {
    if t is Some {
        t->0@
    } else {
        other
    }
}

/// The statuses of a pod's containers.
pub open spec fn container_list(pod: Pod) -> Seq<ContainerStatus> {
    if pod.status is Some && pod.status->0.container_statuses is Some {
        pod.status->0.container_statuses->0@
    } else {
        Seq::empty()
    }
}

/// A pod's row: a pod that is being deleted is terminating, whatever its containers
/// do; ready are those of its containers that say so, out of all; restarts are those
/// of all.
pub proof fn law_pod_row(row: PodInfo, pod: Pod, now: Timestamp)
    requires
        shows_pod(row, pod, now),
    ensures
        row.name@ == or_text(pod.meta.name, Seq::empty()),
        row.namespace@ == or_text(pod.meta.namespace, Seq::empty()),
        pod.meta.deleting ==> row.status@ == "Terminating"@,
        pod.status is None && !pod.meta.deleting ==> row.status@ == "Unknown"@,
        row.ready@ == decimal(count(container_list(pod), |cs: ContainerStatus| cs.ready)) + "/"@
            + decimal(container_list(pod).len()),
        row.restarts == restart_sum(container_list(pod)),
        row.restarts_display@ == signed_decimal(row.restarts as int),
        pod.spec is Some ==> row.node@ == or_text(pod.spec->0.node_name, Seq::empty()),
{
    lemma_count_same(
        container_list(pod),
        crate::data::container_ready(),
        |cs: ContainerStatus| cs.ready,
    );
    if pod.status is None {
        lemma_count_extremes(Seq::<ContainerStatus>::empty(), init_completed());
        lemma_first_where(Seq::<ContainerStatus>::empty(), in_error());
    }
}

/// The restarts of a pod grow by those of each container.
pub proof fn law_restarts_are_summed(statuses: Seq<ContainerStatus>, more: ContainerStatus)
    ensures
        restart_sum(statuses.push(more)) == restart_sum(statuses) + more.restart_count,
        restart_sum(Seq::empty()) == 0,
{
    assert(statuses.push(more).drop_last() =~= statuses);
}

/// The containers of a pod's row: the init containers first, marked as such, and
/// then the others, all in their order.
pub proof fn law_pod_row_names_containers(row: PodInfo, pod: Pod, now: Timestamp)
    requires
        shows_pod(row, pod, now),
        pod.spec is Some,
    ensures
        ({
            let spec = pod.spec->0;
            let n = if spec.init_containers is Some {
                spec.init_containers->0@.len()
            } else {
                0
            };
            &&& row.containers@.len() == n + spec.containers@.len()
            &&& forall|i: int|
                0 <= i < n ==> (#[trigger] row.containers@[i])@ == "init:"@
                    + spec.init_containers->0@[i].name@
            &&& forall|i: int|
                0 <= i < spec.containers@.len() ==> (#[trigger] row.containers@[n + i])@
                    == spec.containers@[i].name@
        }),
{
    let spec = pod.spec->0;
    let n = if spec.init_containers is Some {
        spec.init_containers->0@.len()
    } else {
        0
    };
    let names = container_names(pod.spec);
    assert(texts(row.containers@) == names);
    assert(texts(row.containers@).len() == row.containers@.len());
    assert forall|i: int| 0 <= i < n implies (#[trigger] row.containers@[i])@ == "init:"@
        + spec.init_containers->0@[i].name@ by {
        assert(texts(row.containers@)[i] == names[i]);
    }
    assert forall|i: int| 0 <= i < spec.containers@.len() implies (
    #[trigger] row.containers@[n + i])@ == spec.containers@[i].name@ by {
        assert(texts(row.containers@)[n + i] == names[n + i]);
    }
}

/// A node is ready if its first condition of that kind says so, and not if it says
/// anything else; without one that is unknown. A node that takes no pods says that
/// too.
pub proof fn law_node_status(node: Node, conditions: Seq<NodeCondition>, i: int)
    requires
        node.status is Some ==> node.status->0.conditions@ == conditions,
        node.status is None ==> conditions.len() == 0,
    ensures
        0 <= i < conditions.len() && conditions[i].kind@ == "Ready"@ && (forall|j: int|
            0 <= j < i ==> (#[trigger] conditions[j]).kind@ != "Ready"@) ==> readiness(conditions)
            == if conditions[i].status@ == "True"@ {
            "Ready"@
        } else {
            "NotReady"@
        },
        (forall|j: int| 0 <= j < conditions.len() ==> (#[trigger] conditions[j]).kind@ != "Ready"@)
            ==> readiness(conditions) == "Unknown"@,
        node.unschedulable == Some(true) ==> node_status(node) == readiness(conditions)
            + ",SchedulingDisabled"@,
        node.unschedulable != Some(true) ==> node_status(node) == readiness(conditions),
{
    let wanted = crate::data::is_ready_condition();
    if 0 <= i < conditions.len() && conditions[i].kind@ == "Ready"@ && (forall|j: int|
        0 <= j < i ==> (#[trigger] conditions[j]).kind@ != "Ready"@) {
        lemma_first_where_at(conditions, i, wanted);
    }
    if forall|j: int| 0 <= j < conditions.len() ==> (#[trigger] conditions[j]).kind@ != "Ready"@ {
        lemma_first_where(conditions, wanted);
    }
    if node.status is None {
        assert(conditions =~= Seq::empty());
    }
}

/// A node's row: what it has of processors and memory, and what of it pods can
/// have, which comes first where both are shown.
pub proof fn law_node_row(
    row: NodeInfo,
    node: Node,
    memory: Seq<char>,
    free_memory: Seq<char>,
    now: Timestamp,
)
    requires
        shows_node(row, node, memory, free_memory, now),
        node.status is Some,
    ensures
        ({
            let s = node.status->0;
            let cpu = or_text(s.cpu_capacity, Seq::empty());
            let free_cpu = or_text(s.cpu_allocatable, Seq::empty());
            &&& row.name@ == or_text(node.meta.name, Seq::empty())
            &&& row.status@ == node_status(node)
            &&& row.cpu_capacity@ == cpu && row.cpu_allocatable@ == free_cpu
            &&& row.mem_capacity@ == or_text(s.mem_capacity, Seq::empty())
            &&& row.mem_allocatable@ == or_text(s.mem_allocatable, Seq::empty())
            &&& row.cpu_display@ == free_cpu + "/"@ + cpu
            &&& row.mem_display@ == free_memory + "/"@ + memory
            &&& row.kubelet_version@ == or_text(s.kubelet_version, Seq::empty())
            &&& row.mem_capacity_display@ == memory && row.mem_allocatable_display@ == free_memory
            &&& row.roles@.len() == 0 ==> row.roles_display@ == "<none>"@
            &&& row.roles@.len() > 0 ==> row.roles_display@ == joined(texts(row.roles@), ","@)
            &&& row.top_display@ == "  "@ + row.kubelet_version@ + "  CPU: "@ + row.cpu_display@
                + "  MEM: "@ + row.mem_display@
        }),
{
    assert(texts(row.roles@).len() == row.roles@.len());
}

/// The roles of a node are what its labels of that kind end with.
pub proof fn law_node_roles(node: Node, role: Seq<char>)
    ensures
        node_roles(node).contains(role) <==> exists|i: int|
            0 <= i < node.meta.label_keys@.len() && has_prefix(
                (#[trigger] node.meta.label_keys@[i])@,
                "node-role.kubernetes.io/"@,
            ) && crate::data::without_prefix(
                node.meta.label_keys@[i]@,
                "node-role.kubernetes.io/"@,
            ) == role,
{
    let keys = node.meta.label_keys@;
    let keep = crate::data::is_role_key();
    let show = crate::data::role_of_key();
    lemma_collect_contains(keys, keep, show, role);
    if node_roles(node).contains(role) {
        let i = choose|i: int| 0 <= i < keys.len() && keep(#[trigger] keys[i]) && show(keys[i])
            == role;
        assert(has_prefix(keys[i]@, "node-role.kubernetes.io/"@));
    }
    if exists|i: int|
        0 <= i < keys.len() && has_prefix((#[trigger] keys[i])@, "node-role.kubernetes.io/"@)
            && crate::data::without_prefix(keys[i]@, "node-role.kubernetes.io/"@) == role {
        let i = choose|i: int|
            0 <= i < keys.len() && has_prefix((#[trigger] keys[i])@, "node-role.kubernetes.io/"@)
                && crate::data::without_prefix(keys[i]@, "node-role.kubernetes.io/"@) == role;
        assert(keep(keys[i]) && show(keys[i]) == role);
    }
}

/// A label of a role gives the role behind its prefix.
pub proof fn law_role_stands_behind_its_prefix(role: Seq<char>)
    requires
        !has_prefix(role, "node-role.kubernetes.io/"@),
    ensures
        crate::data::without_prefix(
            "node-role.kubernetes.io/"@ + role,
            "node-role.kubernetes.io/"@,
        ) == role,
{
    reveal_strlit("node-role.kubernetes.io/");
    let prefix = "node-role.kubernetes.io/"@;
    let all = prefix + role;
    reveal_with_fuel(crate::data::without_prefix, 2);
    assert(all.subrange(0, prefix.len() as int) =~= prefix);
    assert(has_prefix(all, prefix));
    assert(all.skip(prefix.len() as int) =~= role);
}

/// The address of a node is its first internal one.
pub proof fn law_node_address(node: Node, i: int)
    requires
        node.status is Some,
    ensures
        ({
            let all = node.status->0.addresses@;
            &&& 0 <= i < all.len() && all[i].kind@ == "InternalIP"@ && (forall|j: int|
                0 <= j < i ==> (#[trigger] all[j]).kind@ != "InternalIP"@) ==> node_internal_ip(
                node,
            ) == all[i].address@
            &&& (forall|j: int| 0 <= j < all.len() ==> (#[trigger] all[j]).kind@ != "InternalIP"@)
                ==> node_internal_ip(node) == Seq::<char>::empty()
        }),
{
    let all = node.status->0.addresses@;
    let wanted = crate::data::is_internal_ip();
    if 0 <= i < all.len() && all[i].kind@ == "InternalIP"@ && (forall|j: int|
        0 <= j < i ==> (#[trigger] all[j]).kind@ != "InternalIP"@) {
        lemma_first_where_at(all, i, wanted);
    }
    if forall|j: int| 0 <= j < all.len() ==> (#[trigger] all[j]).kind@ != "InternalIP"@ {
        lemma_first_where(all, wanted);
    }
}

/// The number, or zero where it is missing.
pub open spec fn number_or_zero(n: Option<i32>) -> int {
    if n is Some {
        n->0 as int
    } else {
        0
    }
}

/// A deployment's row: its replicas that are ready out of all, those that are up to
/// date and those that are available.
pub proof fn law_deployment_row(row: DeploymentInfo, dep: Deployment, now: Timestamp)
    requires
        shows_deployment(row, dep, now),
    ensures
        row.name@ == or_text(dep.meta.name, Seq::empty()),
        row.namespace@ == or_text(dep.meta.namespace, Seq::empty()),
        row.ready@ == signed_decimal(number_or_zero(dep.ready_replicas)) + "/"@ + signed_decimal(
            number_or_zero(dep.replicas),
        ),
        row.ready_count == number_or_zero(dep.ready_replicas),
        row.desired_count == number_or_zero(dep.replicas),
        row.up_to_date == number_or_zero(dep.updated_replicas),
        row.available == number_or_zero(dep.available_replicas),
        row.up_to_date_display@ == signed_decimal(row.up_to_date as int),
        row.available_display@ == signed_decimal(row.available as int),
{
}

/// A config map's row counts the keys of text and of bytes.
pub proof fn law_configmap_row(row: ConfigMapInfo, cm: ConfigMap, now: Timestamp)
    requires
        shows_configmap(row, cm, now),
    ensures
        row.name@ == or_text(cm.meta.name, Seq::empty()),
        row.namespace@ == or_text(cm.meta.namespace, Seq::empty()),
        row.data_keys_count == (if cm.data_keys is Some {
            cm.data_keys->0 as int
        } else {
            0
        }) + (if cm.binary_data_keys is Some {
            cm.binary_data_keys->0 as int
        } else {
            0
        }),
        row.data_keys_display@ == decimal(row.data_keys_count as nat),
{
}

/// A service's row: its type, its address in the cluster, and from outside the
/// address or else the host name of its first load balancer.
pub proof fn law_service_row(row: ServiceInfo, svc: Service, now: Timestamp)
    requires
        shows_service(row, svc, now),
    ensures
        row.name@ == or_text(svc.meta.name, Seq::empty()),
        row.namespace@ == or_text(svc.meta.namespace, Seq::empty()),
        svc.spec is None ==> row.svc_type@ == "ClusterIP"@ && row.cluster_ip@ == "None"@
            && row.ports@ == Seq::<char>::empty(),
        svc.spec matches Some(spec) ==> row.svc_type@ == or_text(spec.kind, "ClusterIP"@)
            && row.cluster_ip@ == or_text(spec.cluster_ip, "None"@),
        svc.ingress is None || svc.ingress->0@.len() == 0 ==> row.external_ip@ == "<none>"@,
        svc.ingress matches Some(list) ==> list@.len() > 0 ==> row.external_ip@
            == if list@[0].ip is Some {
            list@[0].ip->0@
        } else {
            or_text(list@[0].hostname, "<none>"@)
        },
{
}

/// The ports of a service: of a single one its number, the node's port behind a
/// colon where it has one, and its protocol; of more, with commas between them.
pub proof fn law_service_ports(svc: Service, ports: Seq<ServicePortSpec>, p: ServicePortSpec)
    requires
        svc.spec is Some,
        svc.spec->0.ports is Some,
        svc.spec->0.ports->0@ == ports.push(p),
    ensures
        ports.len() == 0 ==> ports_column(svc) == port_text()(p),
        ports.len() > 0 ==> ports_column(svc) == joined(ports.map_values(port_text()), ","@) + ","@
            + port_text()(p),
        port_text()(p) == (if p.node_port is Some {
            signed_decimal(p.port as int) + ":"@ + signed_decimal(p.node_port->0 as int)
        } else {
            signed_decimal(p.port as int)
        }) + "/"@ + or_text(p.protocol, "TCP"@),
{
    let all = ports.push(p).map_values(port_text());
    assert(all.drop_last() =~= ports.map_values(port_text()));
    assert(all.last() == port_text()(p));
}

/// An event's row: what it is about, how often it came, and when it was last seen:
/// at its last occurrence, or else at its time, or else at its creation.
pub proof fn law_event_row(row: EventInfo, evt: Event, now: Timestamp)
    requires
        shows_event(row, evt, now),
    ensures
        row.name@ == or_text(evt.meta.name, Seq::empty()),
        row.namespace@ == or_text(evt.meta.namespace, Seq::empty()),
        row.event_type@ == or_text(evt.kind, "Normal"@),
        row.reason@ == or_text(evt.reason, Seq::empty()),
        row.message@ == or_text(evt.message, Seq::empty()),
        row.count == if evt.count is Some {
            evt.count->0 as int
        } else {
            1
        },
        row.count_display@ == signed_decimal(row.count as int),
        ({
            let kind = or_text(evt.object_kind, Seq::empty());
            let name = or_text(evt.object_name, Seq::empty());
            row.object@ == if kind.len() == 0 {
                name
            } else {
                kind + "/"@ + name
            }
        }),
        evt.last_timestamp is Some ==> row.last_seen@ == age_column(now, evt.last_timestamp),
        evt.last_timestamp is None && evt.event_time is Some ==> row.last_seen@ == age_column(
            now,
            evt.event_time,
        ),
        evt.last_timestamp is None && evt.event_time is None ==> row.last_seen@ == row.age@,
        row.age@ == age_column(now, evt.meta.created),
{
}

// ---------------------------------------------------------------------------
// Ages
// ---------------------------------------------------------------------------

/// Whether a text gives a number of seconds in a unit: as many of the unit as are
/// over.
pub open spec fn in_units(text: Seq<char>, secs: int, unit: int, letter: Seq<char>) -> bool {
    exists|n: nat| n * unit <= secs < (n + 1) * unit && text == #[trigger] decimal(n) + letter
}

/// An age is given in seconds below a minute, in minutes below an hour, in hours
/// below a day, in days below a week, in weeks below a year, and in years from then
/// on.
pub proof fn law_age_units(secs: int)
    ensures
        secs < 0 ==> age_text(secs) == "0s"@,
        0 <= secs < 60 ==> age_text(secs) == decimal(secs as nat) + "s"@,
        60 <= secs < 3600 ==> in_units(age_text(secs), secs, 60, "m"@),
        3600 <= secs < 86400 ==> in_units(age_text(secs), secs, 3600, "h"@),
        86400 <= secs < 604800 ==> in_units(age_text(secs), secs, 86400, "d"@),
        604800 <= secs < 31536000 ==> in_units(age_text(secs), secs, 604800, "w"@),
        31536000 <= secs ==> in_units(age_text(secs), secs, 31536000, "y"@),
{
    if secs >= 60 {
        let m = (secs / 60) as nat;
        let h = (secs / 3600) as nat;
        let d = (secs / 86400) as nat;
        let w = (secs / 86400 / 7) as nat;
        let y = (secs / 86400 / 365) as nat;
        assert(m * 60 <= secs < (m + 1) * 60);
        assert(h * 3600 <= secs < (h + 1) * 3600);
        assert(d * 86400 <= secs < (d + 1) * 86400);
        assert(w * 604800 <= secs < (w + 1) * 604800);
        assert(y * 31536000 <= secs < (y + 1) * 31536000);
        let t = age_text(secs);
        assert(secs < 3600 ==> t == decimal(m) + "m"@);
        assert(3600 <= secs < 86400 ==> t == decimal(h) + "h"@);
        assert(86400 <= secs < 604800 ==> t == decimal(d) + "d"@);
        assert(604800 <= secs < 31536000 ==> t == decimal(w) + "w"@);
        assert(31536000 <= secs ==> t == decimal(y) + "y"@);
    }
}

/// The age of something is the time since it was created; a missing time is
/// unknown.
pub proof fn law_age_counts_from_creation(now: Timestamp, created: Timestamp, secs: int)
    requires
        now.nanos < 1_000_000_000,
        created.nanos < 1_000_000_000,
        secs >= 0,
        created.secs * 1_000_000_000 + created.nanos + secs * 1_000_000_000 <= now.secs
            * 1_000_000_000 + now.nanos,
        now.secs * 1_000_000_000 + now.nanos < created.secs * 1_000_000_000 + created.nanos + (secs
            + 1) * 1_000_000_000,
    ensures
        age_column(now, Some(created)) == age_text(secs),
        age_column(now, None) == "<unknown>"@,
{
    let d = nanos_between(now, created);
    assert(d == (now.secs - created.secs) * 1_000_000_000 + now.nanos - created.nanos);
    assert(whole_seconds(d) == secs);
}

// ---------------------------------------------------------------------------
// Snapshots
// ---------------------------------------------------------------------------

/// A snapshot holds what was fetched, and only that.
pub proof fn law_snapshot_holds_what_was_fetched(
    snap: crate::data::ClusterSnapshot,
    name: Seq<char>,
    asked: Option<Seq<char>>,
    f: Fetched,
    node: NodeInfo,
    pod: PodInfo,
    dep: DeploymentInfo,
    svc: ServiceInfo,
    cm: ConfigMapInfo,
)
    requires
        assembles(snap, name, asked, f),
    ensures
        snap.name@ == name,
        snap.nodes@.contains(node) <==> f.nodes@.contains(node),
        snap.pods@.contains(pod) <==> f.pods is Some && f.pods->0@.contains(pod),
        snap.deployments@.contains(dep) <==> f.deployments is Some && f.deployments->0@.contains(
            dep,
        ),
        snap.services@.contains(svc) <==> f.services is Some && f.services->0@.contains(svc),
        snap.configmaps@.contains(cm) <==> f.configmaps is Some && f.configmaps->0@.contains(cm),
        f.events is Some ==> snap.events@ == f.events->0@,
        snap.nodes@.len() == f.nodes@.len(),
        f.pods is Some ==> snap.pods@.len() == f.pods->0@.len(),
        f.deployments is Some ==> snap.deployments@.len() == f.deployments->0@.len(),
        f.services is Some ==> snap.services@.len() == f.services->0@.len(),
        f.configmaps is Some ==> snap.configmaps@.len() == f.configmaps->0@.len(),
        f.pods is None ==> snap.pods@.len() == 0,
        f.deployments is None ==> snap.deployments@.len() == 0,
        f.services is None ==> snap.services@.len() == 0,
        f.configmaps is None ==> snap.configmaps@.len() == 0,
        f.events is None ==> snap.events@.len() == 0,
        f.namespaces@.len() > 0 ==> texts(snap.namespaces@) == texts(f.namespaces@),
{
    lemma_sorted_contains(f.nodes@, snap.nodes@, node);
    lemma_sorted_contains(or_empty(f.pods), snap.pods@, pod);
    lemma_sorted_contains(or_empty(f.deployments), snap.deployments@, dep);
    lemma_sorted_contains(or_empty(f.services), snap.services@, svc);
    lemma_sorted_contains(or_empty(f.configmaps), snap.configmaps@, cm);
}

/// In a snapshot pods stand in the order of their severity, and all other lists but
/// events in the order of their names.
pub proof fn law_snapshot_is_sorted(
    snap: crate::data::ClusterSnapshot,
    name: Seq<char>,
    asked: Option<Seq<char>>,
    f: Fetched,
    i: int,
    j: int,
)
    requires
        assembles(snap, name, asked, f),
        0 <= i < j,
    ensures
        j < snap.pods@.len() ==> status_severity(snap.pods@[i].status@) <= status_severity(
            snap.pods@[j].status@,
        ),
        j < snap.nodes@.len() ==> !text_less(snap.nodes@[j].name@, snap.nodes@[i].name@),
        j < snap.deployments@.len() ==> !text_less(
            snap.deployments@[j].name@,
            snap.deployments@[i].name@,
        ),
        j < snap.services@.len() ==> !text_less(snap.services@[j].name@, snap.services@[i].name@),
        j < snap.configmaps@.len() ==> !text_less(
            snap.configmaps@[j].name@,
            snap.configmaps@[i].name@,
        ),
{
    if j < snap.pods@.len() {
        let a = snap.pods@[i];
        let b = snap.pods@[j];
        assert(!key_less(b.sort_key(), a.sort_key()));
        lemma_one_number_keys(b.sort_key(), a.sort_key());
    }
    if j < snap.nodes@.len() {
        assert(!key_less(snap.nodes@[j].sort_key(), snap.nodes@[i].sort_key()));
    }
    if j < snap.deployments@.len() {
        assert(!key_less(snap.deployments@[j].sort_key(), snap.deployments@[i].sort_key()));
    }
    if j < snap.services@.len() {
        assert(!key_less(snap.services@[j].sort_key(), snap.services@[i].sort_key()));
    }
    if j < snap.configmaps@.len() {
        assert(!key_less(snap.configmaps@[j].sort_key(), snap.configmaps@[i].sort_key()));
    }
}

/// Where no namespaces could be listed and none was asked for, those of all rows
/// that were fetched are, each once and in order.
pub proof fn law_namespaces_of_rows(
    names: Seq<Seq<char>>,
    f: Fetched,
    pods: Seq<PodInfo>,
    i: int,
)
    requires
        lists_namespaces(names, None, f),
        f.namespaces@.len() == 0,
        f.pods is Some && f.pods->0@ == pods,
        0 <= i < pods.len(),
        pods[i].namespace@.len() > 0,
    ensures
        names.contains(pods[i].namespace@),
        forall|a: int, b: int|
            0 <= a < b < names.len() ==> text_less(#[trigger] names[a], #[trigger] names[b]),
        !names.contains(Seq::empty()),
{
    assert(f.pods->0@[i].namespace@ == pods[i].namespace@);
    assert(crate::snapshot::some_row_in(or_empty(f.pods), pods[i].namespace@)) by {
        assert(crate::snapshot::Namespaced::in_namespace(&or_empty(f.pods)[i])
            == pods[i].namespace@);
    }
    assert(f.has_row_in(pods[i].namespace@));
}

/// The clusters of a directory are those of its directories that hold a kubeconfig,
/// in the order of their names.
pub proof fn law_clusters_are_directories_with_a_kubeconfig(
    entries: Seq<ConfigEntry>,
    names: Seq<String>,
    name: String,
)
    requires
        stably_sorted(collect(entries, is_cluster_entry(), entry_text()), names),
    ensures
        names.contains(name) <==> exists|i: int|
            0 <= i < entries.len() && (#[trigger] entries[i]).is_dir && entries[i].has_kubeconfig
                && entries[i].name == Some(name),
        forall|i: int, j: int|
            0 <= i < j < names.len() ==> !text_less(
                (#[trigger] names[j])@,
                (#[trigger] names[i])@,
            ),
{
    let found = collect(entries, is_cluster_entry(), entry_text());
    lemma_sorted_contains(found, names, name);
    lemma_collect_contains(entries, is_cluster_entry(), entry_text(), name);
    if names.contains(name) {
        let i = choose|i: int|
            0 <= i < entries.len() && is_cluster_entry()(#[trigger] entries[i]) && entry_text()(
                entries[i],
            ) == name;
        assert(entries[i].name == Some(name));
    }
    if exists|i: int|
        0 <= i < entries.len() && (#[trigger] entries[i]).is_dir && entries[i].has_kubeconfig
            && entries[i].name == Some(name) {
        let i = choose|i: int|
            0 <= i < entries.len() && (#[trigger] entries[i]).is_dir && entries[i].has_kubeconfig
                && entries[i].name == Some(name);
        assert(is_cluster_entry()(entries[i]) && entry_text()(entries[i]) == name);
    }
    assert forall|i: int, j: int| 0 <= i < j < names.len() implies !text_less(
        (#[trigger] names[j])@,
        (#[trigger] names[i])@,
    ) by {
        assert(!key_less(names[j].sort_key(), names[i].sort_key()));
    }
}

/// Every row tells the age of its object, counted from when it was created.
pub proof fn law_rows_tell_the_age(
    now: Timestamp,
    pod: (PodInfo, Pod),
    node: (NodeInfo, Node, Seq<char>, Seq<char>),
    dep: (DeploymentInfo, Deployment),
    cm: (ConfigMapInfo, ConfigMap),
    svc: (ServiceInfo, Service),
)
    ensures
        shows_pod(pod.0, pod.1, now) ==> pod.0.age@ == age_column(now, pod.1.meta.created),
        shows_node(node.0, node.1, node.2, node.3, now) ==> node.0.age@ == age_column(
            now,
            node.1.meta.created,
        ),
        shows_deployment(dep.0, dep.1, now) ==> dep.0.age@ == age_column(
            now,
            dep.1.meta.created,
        ),
        shows_configmap(cm.0, cm.1, now) ==> cm.0.age@ == age_column(now, cm.1.meta.created),
        shows_service(svc.0, svc.1, now) ==> svc.0.age@ == age_column(now, svc.1.meta.created),
{
}

} // verus!
