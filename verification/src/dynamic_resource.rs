//! Resources of any kind: how a name is resolved, which columns are shown, and
//! what they hold.
use vstd::prelude::*;
use crate::age::{age_column, format_age_column, usable, Timestamp};
use crate::describe::{created_text, description, format_describe, DynamicObject};
use crate::json::{is_true, items_of, line_of, member, member_text, signed_of, text_of_json, Json};
use crate::list::{
    count, first_index, first_where, lemma_count_bound, lemma_count_step, lemma_first_index,
    lemma_positions, lemma_positions_step, lemma_take_all, positions,
};
use crate::objects::{copy_or_empty, is_text, text_is, text_or};
use crate::resource_registry::{
    builtin_resources, core_resources, other_resources, workload_resources, ResourceModel,
};
use crate::scan::{char_index, cut_at, lemma_char_index_bound};
use crate::sort::{stable_sort, stably_sorted, text_key, text_precedes, SortKey};
use crate::text::{
    ascii_lower, chars_contain, chars_of, decimal, decimal_i64, decimal_usize, has_prefix,
    has_substring, join, joined, lemma_texts_push, lower_ascii, same, signed_decimal, starts_with,
    text_of, texts, trim, trimmed,
};

verus! {

broadcast use {lemma_take_all, lemma_texts_push};

/// How an API serves a resource.
#[derive(Debug)]
pub struct ApiResource {
    pub group: String,
    pub version: String,
    pub api_version: String,
    pub kind: String,
    pub plural: String,
}

/// A resource that a name was resolved to.
#[derive(Debug)]
pub struct ResolvedResource {
    pub api_resource: ApiResource,
    pub namespaced: bool,
    pub display_name: String,
    pub command_alias: String,
    pub columns: Vec<DynColumn>,
}

/// A column of a resource table.
#[derive(Debug)]
pub struct DynColumn {
    pub header: String,
    pub extractor: ColumnExtractor,
    /// Width in percent of the table's.
    pub width_percent: u16,
}

/// Where a column's value comes from.
#[derive(Debug)]
pub enum ColumnExtractor {
    Name,
    Namespace,
    /// How long ago the object was created.
    Age,
    /// The phase of the status.
    StatusPhase,
    /// The value at a path of keys, separated by dots.
    JsonPath(String),
    /// Ready replicas over desired ones.
    ReadyReplicas,
    /// The first three labels.
    Labels,
    SpecType,
    ClusterIP,
    /// The status of the condition `Ready`.
    ReadyCondition,
    /// The restarts of all containers.
    Restarts,
    /// Ready containers over all.
    ContainerReady,
    /// The cluster that the object comes from.
    ClusterLabel,
}

// ---------------------------------------------------------------------------
// Aliases
// ---------------------------------------------------------------------------

/// A known resource: group, version, plural, kind, and whether it belongs to
/// namespaces.
#[verifier::ext_equal]
pub struct AliasModel {
    pub group: Seq<char>,
    pub version: Seq<char>,
    pub plural: Seq<char>,
    pub kind: Seq<char>,
    pub namespaced: bool,
}

/// A known resource as a value.
pub open spec fn known(
    group: Seq<char>,
    plural: Seq<char>,
    kind: Seq<char>,
    namespaced: bool,
) -> Option<AliasModel> {
    Some(AliasModel { group, version: "v1"@, plural, kind, namespaced })
}

/// The resource of the core group that an alias stands for.
pub open spec fn core_alias(s: Seq<char>) -> Option<AliasModel> {
    if s == "po"@ || s == "pod"@ || s == "pods"@ {
        known(""@, "pods"@, "Pod"@, true)
    } else if s == "svc"@ || s == "service"@ || s == "services"@ {
        known(""@, "services"@, "Service"@, true)
    } else if s == "no"@ || s == "node"@ || s == "nodes"@ {
        known(""@, "nodes"@, "Node"@, false)
    } else if s == "ns"@ || s == "namespace"@ || s == "namespaces"@ {
        known(""@, "namespaces"@, "Namespace"@, false)
    } else if s == "cm"@ || s == "configmap"@ || s == "configmaps"@ {
        known(""@, "configmaps"@, "ConfigMap"@, true)
    } else if s == "secret"@ || s == "secrets"@ {
        known(""@, "secrets"@, "Secret"@, true)
    } else if s == "sa"@ || s == "serviceaccount"@ || s == "serviceaccounts"@ {
        known(""@, "serviceaccounts"@, "ServiceAccount"@, true)
    } else if s == "ev"@ || s == "event"@ || s == "events"@ {
        known(""@, "events"@, "Event"@, true)
    } else if s == "pv"@ || s == "persistentvolume"@ || s == "persistentvolumes"@ {
        known(""@, "persistentvolumes"@, "PersistentVolume"@, false)
    } else if s == "pvc"@ || s == "persistentvolumeclaim"@ || s == "persistentvolumeclaims"@ {
        known(""@, "persistentvolumeclaims"@, "PersistentVolumeClaim"@, true)
    } else if s == "ep"@ || s == "endpoint"@ || s == "endpoints"@ {
        known(""@, "endpoints"@, "Endpoints"@, true)
    } else if s == "rc"@ || s == "replicationcontroller"@ || s == "replicationcontrollers"@ {
        known(""@, "replicationcontrollers"@, "ReplicationController"@, true)
    } else {
        None
    }
}

/// The resource of the workload groups that an alias stands for.
pub open spec fn workload_alias(s: Seq<char>) -> Option<AliasModel> {
    if s == "dp"@ || s == "dep"@ || s == "deploy"@ || s == "deployment"@ || s == "deployments"@ {
        known("apps"@, "deployments"@, "Deployment"@, true)
    } else if s == "ds"@ || s == "daemonset"@ || s == "daemonsets"@ {
        known("apps"@, "daemonsets"@, "DaemonSet"@, true)
    } else if s == "sts"@ || s == "statefulset"@ || s == "statefulsets"@ {
        known("apps"@, "statefulsets"@, "StatefulSet"@, true)
    } else if s == "rs"@ || s == "replicaset"@ || s == "replicasets"@ {
        known("apps"@, "replicasets"@, "ReplicaSet"@, true)
    } else if s == "job"@ || s == "jobs"@ {
        known("batch"@, "jobs"@, "Job"@, true)
    } else if s == "cj"@ || s == "cronjob"@ || s == "cronjobs"@ {
        known("batch"@, "cronjobs"@, "CronJob"@, true)
    } else {
        None
    }
}

/// The resource of the other groups that an alias stands for.
pub open spec fn other_alias(s: Seq<char>) -> Option<AliasModel> {
    if s == "ing"@ || s == "ingress"@ || s == "ingresses"@ {
        known("networking.k8s.io"@, "ingresses"@, "Ingress"@, true)
    } else if s == "netpol"@ || s == "networkpolicy"@ || s == "networkpolicies"@ {
        known("networking.k8s.io"@, "networkpolicies"@, "NetworkPolicy"@, true)
    } else if s == "clusterrole"@ || s == "clusterroles"@ || s == "cr"@ {
        known("rbac.authorization.k8s.io"@, "clusterroles"@, "ClusterRole"@, false)
    } else if s == "clusterrolebinding"@ || s == "clusterrolebindings"@ || s == "crb"@ {
        known("rbac.authorization.k8s.io"@, "clusterrolebindings"@, "ClusterRoleBinding"@, false)
    } else if s == "role"@ || s == "roles"@ {
        known("rbac.authorization.k8s.io"@, "roles"@, "Role"@, true)
    } else if s == "rolebinding"@ || s == "rolebindings"@ || s == "rb"@ {
        known("rbac.authorization.k8s.io"@, "rolebindings"@, "RoleBinding"@, true)
    } else if s == "sc"@ || s == "storageclass"@ || s == "storageclasses"@ {
        known("storage.k8s.io"@, "storageclasses"@, "StorageClass"@, false)
    } else if s == "crd"@ || s == "customresourcedefinition"@ || s == "customresourcedefinitions"@ {
        known(
            "apiextensions.k8s.io"@,
            "customresourcedefinitions"@,
            "CustomResourceDefinition"@,
            false,
        )
    } else {
        None
    }
}

/// The resource that an alias stands for.
pub open spec fn alias(s: Seq<char>) -> Option<AliasModel> {
    if core_alias(s) is Some {
        core_alias(s)
    } else if workload_alias(s) is Some {
        workload_alias(s)
    } else {
        other_alias(s)
    }
}

/// An alias as a value.
pub open spec fn alias_view(
    a: Option<(&'static str, &'static str, &'static str, &'static str, bool)>,
) -> Option<AliasModel> {
    match a {
        Some((group, version, plural, kind, namespaced)) => Some(
            AliasModel {
                group: group@,
                version: version@,
                plural: plural@,
                kind: kind@,
                namespaced,
            },
        ),
        None => None,
    }
}

/// Whether a text is one of two.
fn either(s: &str, a: &str, b: &str) -> (r: bool)
    ensures
        r == (s@ == a@ || s@ == b@),
{
    same(s, a) || same(s, b)
}

/// Whether a text is one of three.
fn any_of(s: &str, a: &str, b: &str, c: &str) -> (r: bool)
    ensures
        r == (s@ == a@ || s@ == b@ || s@ == c@),
{
    same(s, a) || same(s, b) || same(s, c)
}

fn find_core_alias(s: &str) -> (r: Option<
    (&'static str, &'static str, &'static str, &'static str, bool),
>)
    ensures
        alias_view(r) == core_alias(s@),
{
    if any_of(s, "po", "pod", "pods") {
        Some(("", "v1", "pods", "Pod", true))
    } else if any_of(s, "svc", "service", "services") {
        Some(("", "v1", "services", "Service", true))
    } else if any_of(s, "no", "node", "nodes") {
        Some(("", "v1", "nodes", "Node", false))
    } else if any_of(s, "ns", "namespace", "namespaces") {
        Some(("", "v1", "namespaces", "Namespace", false))
    } else if any_of(s, "cm", "configmap", "configmaps") {
        Some(("", "v1", "configmaps", "ConfigMap", true))
    } else if either(s, "secret", "secrets") {
        Some(("", "v1", "secrets", "Secret", true))
    } else if any_of(s, "sa", "serviceaccount", "serviceaccounts") {
        Some(("", "v1", "serviceaccounts", "ServiceAccount", true))
    } else if any_of(s, "ev", "event", "events") {
        Some(("", "v1", "events", "Event", true))
    } else if any_of(s, "pv", "persistentvolume", "persistentvolumes") {
        Some(("", "v1", "persistentvolumes", "PersistentVolume", false))
    } else if any_of(s, "pvc", "persistentvolumeclaim", "persistentvolumeclaims") {
        Some(("", "v1", "persistentvolumeclaims", "PersistentVolumeClaim", true))
    } else if any_of(s, "ep", "endpoint", "endpoints") {
        Some(("", "v1", "endpoints", "Endpoints", true))
    } else if any_of(s, "rc", "replicationcontroller", "replicationcontrollers") {
        Some(("", "v1", "replicationcontrollers", "ReplicationController", true))
    } else {
        None
    }
}

fn find_workload_alias(s: &str) -> (r: Option<
    (&'static str, &'static str, &'static str, &'static str, bool),
>)
    ensures
        alias_view(r) == workload_alias(s@),
{
    if any_of(s, "dp", "dep", "deploy") || either(s, "deployment", "deployments") {
        Some(("apps", "v1", "deployments", "Deployment", true))
    } else if any_of(s, "ds", "daemonset", "daemonsets") {
        Some(("apps", "v1", "daemonsets", "DaemonSet", true))
    } else if any_of(s, "sts", "statefulset", "statefulsets") {
        Some(("apps", "v1", "statefulsets", "StatefulSet", true))
    } else if any_of(s, "rs", "replicaset", "replicasets") {
        Some(("apps", "v1", "replicasets", "ReplicaSet", true))
    } else if either(s, "job", "jobs") {
        Some(("batch", "v1", "jobs", "Job", true))
    } else if any_of(s, "cj", "cronjob", "cronjobs") {
        Some(("batch", "v1", "cronjobs", "CronJob", true))
    } else {
        None
    }
}

fn find_other_alias(s: &str) -> (r: Option<
    (&'static str, &'static str, &'static str, &'static str, bool),
>)
    ensures
        alias_view(r) == other_alias(s@),
{
    if any_of(s, "ing", "ingress", "ingresses") {
        Some(("networking.k8s.io", "v1", "ingresses", "Ingress", true))
    } else if any_of(s, "netpol", "networkpolicy", "networkpolicies") {
        Some(("networking.k8s.io", "v1", "networkpolicies", "NetworkPolicy", true))
    } else if any_of(s, "clusterrole", "clusterroles", "cr") {
        Some(("rbac.authorization.k8s.io", "v1", "clusterroles", "ClusterRole", false))
    } else if any_of(s, "clusterrolebinding", "clusterrolebindings", "crb") {
        Some(("rbac.authorization.k8s.io", "v1", "clusterrolebindings", "ClusterRoleBinding", false))
    } else if either(s, "role", "roles") {
        Some(("rbac.authorization.k8s.io", "v1", "roles", "Role", true))
    } else if any_of(s, "rolebinding", "rolebindings", "rb") {
        Some(("rbac.authorization.k8s.io", "v1", "rolebindings", "RoleBinding", true))
    } else if any_of(s, "sc", "storageclass", "storageclasses") {
        Some(("storage.k8s.io", "v1", "storageclasses", "StorageClass", false))
    } else if any_of(s, "crd", "customresourcedefinition", "customresourcedefinitions") {
        Some(
            (
                "apiextensions.k8s.io",
                "v1",
                "customresourcedefinitions",
                "CustomResourceDefinition",
                false,
            ),
        )
    } else {
        None
    }
}

/// The resource that an alias stands for: group, version, plural, kind, and
/// whether it belongs to namespaces.
pub fn builtin_alias(input: &str) -> (r: Option<
    (&'static str, &'static str, &'static str, &'static str, bool),
>)
    ensures
        alias_view(r) == alias(input@),
{
    let core = find_core_alias(input);
    if core.is_some() {
        return core;
    }
    let workload = find_workload_alias(input);
    if workload.is_some() {
        return workload;
    }
    find_other_alias(input)
}

/// A number for a text of two characters or more: by its length, its first
/// character and its last two.
spec fn mark(s: Seq<char>) -> int {
    ((s.len() * 128 + s[0] as int) * 128 + s[s.len() - 2] as int) * 128 + s[s.len() - 1] as int
}

/// The marks of the aliases of the core group.
proof fn lemma_core_marks()
    ensures
        mark("po"@) == 6043759,
        mark("pod"@) == 8140772,
        mark("pods"@) == 10236531,
        mark("svc"@) == 8190819,
        mark("service"@) == 16576997,
        mark("services"@) == 18674419,
        mark("no"@) == 6010735,
        mark("node"@) == 10203749,
        mark("nodes"@) == 12301043,
        mark("ns"@) == 6010739,
        mark("namespace"@) == 20689381,
        mark("namespaces"@) == 22786803,
        mark("cm"@) == 5829101,
        mark("configmap"@) == 20508912,
        mark("configmaps"@) == 22607987,
        mark("secret"@) == 14480116,
        mark("secrets"@) == 16579187,
        mark("sa"@) == 6093281,
        mark("serviceaccount"@) == 31258484,
        mark("serviceaccounts"@) == 33356403,
        mark("ev"@) == 5862134,
        mark("event"@) == 12154740,
        mark("events"@) == 14252659,
        mark("pv"@) == 6043766,
        mark("persistentvolume"@) == 35403493,
        mark("persistentvolumes"@) == 37499635,
        mark("pvc"@) == 8141667,
        mark("persistentvolumeclaim"@) == 45888749,
        mark("persistentvolumeclaims"@) == 47986419,
        mark("ep"@) == 5862128,
        mark("endpoint"@) == 18446196,
        mark("endpoints"@) == 20544115,
        mark("rc"@) == 6076771,
        mark("replicationcontroller"@) == 45921010,
        mark("replicationcontrollers"@) == 48019827,
{
    reveal_strlit("po");
    reveal_strlit("pod");
    reveal_strlit("pods");
    reveal_strlit("svc");
    reveal_strlit("service");
    reveal_strlit("services");
    reveal_strlit("no");
    reveal_strlit("node");
    reveal_strlit("nodes");
    reveal_strlit("ns");
    reveal_strlit("namespace");
    reveal_strlit("namespaces");
    reveal_strlit("cm");
    reveal_strlit("configmap");
    reveal_strlit("configmaps");
    reveal_strlit("secret");
    reveal_strlit("secrets");
    reveal_strlit("sa");
    reveal_strlit("serviceaccount");
    reveal_strlit("serviceaccounts");
    reveal_strlit("ev");
    reveal_strlit("event");
    reveal_strlit("events");
    reveal_strlit("pv");
    reveal_strlit("persistentvolume");
    reveal_strlit("persistentvolumes");
    reveal_strlit("pvc");
    reveal_strlit("persistentvolumeclaim");
    reveal_strlit("persistentvolumeclaims");
    reveal_strlit("ep");
    reveal_strlit("endpoint");
    reveal_strlit("endpoints");
    reveal_strlit("rc");
    reveal_strlit("replicationcontroller");
    reveal_strlit("replicationcontrollers");
}

/// The marks of the aliases of the workload groups.
proof fn lemma_workload_marks()
    ensures
        mark("dp"@) == 5845616,
        mark("dep"@) == 7942896,
        mark("deploy"@) == 14235641,
        mark("deployment"@) == 22624116,
        mark("deployments"@) == 24722035,
        mark("ds"@) == 5845619,
        mark("daemonset"@) == 20525812,
        mark("daemonsets"@) == 22624883,
        mark("sts"@) == 8190579,
        mark("statefulset"@) == 24965876,
        mark("statefulsets"@) == 27064947,
        mark("rs"@) == 6076787,
        mark("replicaset"@) == 22852340,
        mark("replicasets"@) == 24951411,
        mark("job"@) == 8042466,
        mark("jobs"@) == 10137971,
        mark("cj"@) == 5829098,
        mark("cronjob"@) == 16316386,
        mark("cronjobs"@) == 18411891,
{
    reveal_strlit("dp");
    reveal_strlit("dep");
    reveal_strlit("deploy");
    reveal_strlit("deployment");
    reveal_strlit("deployments");
    reveal_strlit("ds");
    reveal_strlit("daemonset");
    reveal_strlit("daemonsets");
    reveal_strlit("sts");
    reveal_strlit("statefulset");
    reveal_strlit("statefulsets");
    reveal_strlit("rs");
    reveal_strlit("replicaset");
    reveal_strlit("replicasets");
    reveal_strlit("job");
    reveal_strlit("jobs");
    reveal_strlit("cj");
    reveal_strlit("cronjob");
    reveal_strlit("cronjobs");
}

/// The marks of the aliases of the other groups.
proof fn lemma_other_marks()
    ensures
        mark("ing"@) == 8025959,
        mark("ingress"@) == 16415219,
        mark("ingresses"@) == 20607731,
        mark("netpol"@) == 14399468,
        mark("networkpolicy"@) == 29078009,
        mark("networkpolicies"@) == 33272563,
        mark("clusterrole"@) == 24704613,
        mark("clusterroles"@) == 26800883,
        mark("cr"@) == 5829106,
        mark("clusterrolebinding"@) == 39384935,
        mark("clusterrolebindings"@) == 41481203,
        mark("crb"@) == 7928162,
        mark("role"@) == 10270309,
        mark("roles"@) == 12366579,
        mark("rolebinding"@) == 24950631,
        mark("rolebindings"@) == 27046899,
        mark("rb"@) == 6076770,
        mark("sc"@) == 6093283,
        mark("storageclass"@) == 27064819,
        mark("storageclasses"@) == 31257331,
        mark("crd"@) == 7928164,
        mark("customresourcedefinition"@) == 51967982,
        mark("customresourcedefinitions"@) == 54065011,
{
    reveal_strlit("ing");
    reveal_strlit("ingress");
    reveal_strlit("ingresses");
    reveal_strlit("netpol");
    reveal_strlit("networkpolicy");
    reveal_strlit("networkpolicies");
    reveal_strlit("clusterrole");
    reveal_strlit("clusterroles");
    reveal_strlit("cr");
    reveal_strlit("clusterrolebinding");
    reveal_strlit("clusterrolebindings");
    reveal_strlit("crb");
    reveal_strlit("role");
    reveal_strlit("roles");
    reveal_strlit("rolebinding");
    reveal_strlit("rolebindings");
    reveal_strlit("rb");
    reveal_strlit("sc");
    reveal_strlit("storageclass");
    reveal_strlit("storageclasses");
    reveal_strlit("crd");
    reveal_strlit("customresourcedefinition");
    reveal_strlit("customresourcedefinitions");
}

/// The kinds of the core group in lower case.
proof fn lemma_core_kinds()
    ensures
        lower_ascii("Pod"@) == "pod"@,
        lower_ascii("Service"@) == "service"@,
        lower_ascii("Node"@) == "node"@,
        lower_ascii("Namespace"@) == "namespace"@,
        lower_ascii("ConfigMap"@) == "configmap"@,
        lower_ascii("Secret"@) == "secret"@,
        lower_ascii("ServiceAccount"@) == "serviceaccount"@,
        lower_ascii("Event"@) == "event"@,
        lower_ascii("PersistentVolume"@) == "persistentvolume"@,
        lower_ascii("PersistentVolumeClaim"@) == "persistentvolumeclaim"@,
        lower_ascii("Endpoints"@) == "endpoints"@,
        lower_ascii("ReplicationController"@) == "replicationcontroller"@,
{
    reveal_strlit("Pod");
    reveal_strlit("pod");
    assert(lower_ascii("Pod"@) =~= "pod"@);
    reveal_strlit("Service");
    reveal_strlit("service");
    assert(lower_ascii("Service"@) =~= "service"@);
    reveal_strlit("Node");
    reveal_strlit("node");
    assert(lower_ascii("Node"@) =~= "node"@);
    reveal_strlit("Namespace");
    reveal_strlit("namespace");
    assert(lower_ascii("Namespace"@) =~= "namespace"@);
    reveal_strlit("ConfigMap");
    reveal_strlit("configmap");
    assert(lower_ascii("ConfigMap"@) =~= "configmap"@);
    reveal_strlit("Secret");
    reveal_strlit("secret");
    assert(lower_ascii("Secret"@) =~= "secret"@);
    reveal_strlit("ServiceAccount");
    reveal_strlit("serviceaccount");
    assert(lower_ascii("ServiceAccount"@) =~= "serviceaccount"@);
    reveal_strlit("Event");
    reveal_strlit("event");
    assert(lower_ascii("Event"@) =~= "event"@);
    reveal_strlit("PersistentVolume");
    reveal_strlit("persistentvolume");
    assert(lower_ascii("PersistentVolume"@) =~= "persistentvolume"@);
    reveal_strlit("PersistentVolumeClaim");
    reveal_strlit("persistentvolumeclaim");
    assert(lower_ascii("PersistentVolumeClaim"@) =~= "persistentvolumeclaim"@);
    reveal_strlit("Endpoints");
    reveal_strlit("endpoints");
    assert(lower_ascii("Endpoints"@) =~= "endpoints"@);
    reveal_strlit("ReplicationController");
    reveal_strlit("replicationcontroller");
    assert(lower_ascii("ReplicationController"@) =~= "replicationcontroller"@);
}

/// The kinds of the workload groups in lower case.
proof fn lemma_workload_kinds()
    ensures
        lower_ascii("Deployment"@) == "deployment"@,
        lower_ascii("DaemonSet"@) == "daemonset"@,
        lower_ascii("StatefulSet"@) == "statefulset"@,
        lower_ascii("ReplicaSet"@) == "replicaset"@,
        lower_ascii("Job"@) == "job"@,
        lower_ascii("CronJob"@) == "cronjob"@,
{
    reveal_strlit("Deployment");
    reveal_strlit("deployment");
    assert(lower_ascii("Deployment"@) =~= "deployment"@);
    reveal_strlit("DaemonSet");
    reveal_strlit("daemonset");
    assert(lower_ascii("DaemonSet"@) =~= "daemonset"@);
    reveal_strlit("StatefulSet");
    reveal_strlit("statefulset");
    assert(lower_ascii("StatefulSet"@) =~= "statefulset"@);
    reveal_strlit("ReplicaSet");
    reveal_strlit("replicaset");
    assert(lower_ascii("ReplicaSet"@) =~= "replicaset"@);
    reveal_strlit("Job");
    reveal_strlit("job");
    assert(lower_ascii("Job"@) =~= "job"@);
    reveal_strlit("CronJob");
    reveal_strlit("cronjob");
    assert(lower_ascii("CronJob"@) =~= "cronjob"@);
}

/// The kinds of the other groups in lower case.
proof fn lemma_other_kinds()
    ensures
        lower_ascii("Ingress"@) == "ingress"@,
        lower_ascii("NetworkPolicy"@) == "networkpolicy"@,
        lower_ascii("ClusterRole"@) == "clusterrole"@,
        lower_ascii("ClusterRoleBinding"@) == "clusterrolebinding"@,
        lower_ascii("Role"@) == "role"@,
        lower_ascii("RoleBinding"@) == "rolebinding"@,
        lower_ascii("StorageClass"@) == "storageclass"@,
        lower_ascii("CustomResourceDefinition"@) == "customresourcedefinition"@,
{
    reveal_strlit("Ingress");
    reveal_strlit("ingress");
    assert(lower_ascii("Ingress"@) =~= "ingress"@);
    reveal_strlit("NetworkPolicy");
    reveal_strlit("networkpolicy");
    assert(lower_ascii("NetworkPolicy"@) =~= "networkpolicy"@);
    reveal_strlit("ClusterRole");
    reveal_strlit("clusterrole");
    assert(lower_ascii("ClusterRole"@) =~= "clusterrole"@);
    reveal_strlit("ClusterRoleBinding");
    reveal_strlit("clusterrolebinding");
    assert(lower_ascii("ClusterRoleBinding"@) =~= "clusterrolebinding"@);
    reveal_strlit("Role");
    reveal_strlit("role");
    assert(lower_ascii("Role"@) =~= "role"@);
    reveal_strlit("RoleBinding");
    reveal_strlit("rolebinding");
    assert(lower_ascii("RoleBinding"@) =~= "rolebinding"@);
    reveal_strlit("StorageClass");
    reveal_strlit("storageclass");
    assert(lower_ascii("StorageClass"@) =~= "storageclass"@);
    reveal_strlit("CustomResourceDefinition");
    reveal_strlit("customresourcedefinition");
    assert(lower_ascii("CustomResourceDefinition"@) =~= "customresourcedefinition"@);
}

/// Plural and kind of a resource of the core group are aliases of it.
proof fn lemma_core_names(s: Seq<char>)
    requires
        core_alias(s) is Some,
    ensures
        alias(core_alias(s)->0.plural) == core_alias(s),
        alias(lower_ascii(core_alias(s)->0.kind)) == core_alias(s),
        core_alias(s)->0.version == "v1"@,
{
    lemma_core_marks();
    lemma_core_kinds();
    assert(alias("pods"@) == known(""@, "pods"@, "Pod"@, true));
    assert(alias("pod"@) == known(""@, "pods"@, "Pod"@, true));
    assert(alias("services"@) == known(""@, "services"@, "Service"@, true));
    assert(alias("service"@) == known(""@, "services"@, "Service"@, true));
    assert(alias("nodes"@) == known(""@, "nodes"@, "Node"@, false));
    assert(alias("node"@) == known(""@, "nodes"@, "Node"@, false));
    assert(alias("namespaces"@) == known(""@, "namespaces"@, "Namespace"@, false));
    assert(alias("namespace"@) == known(""@, "namespaces"@, "Namespace"@, false));
    assert(alias("configmaps"@) == known(""@, "configmaps"@, "ConfigMap"@, true));
    assert(alias("configmap"@) == known(""@, "configmaps"@, "ConfigMap"@, true));
    assert(alias("secrets"@) == known(""@, "secrets"@, "Secret"@, true));
    assert(alias("secret"@) == known(""@, "secrets"@, "Secret"@, true));
    assert(alias("serviceaccounts"@) == known(""@, "serviceaccounts"@, "ServiceAccount"@, true));
    assert(alias("serviceaccount"@) == known(""@, "serviceaccounts"@, "ServiceAccount"@, true));
    assert(alias("events"@) == known(""@, "events"@, "Event"@, true));
    assert(alias("event"@) == known(""@, "events"@, "Event"@, true));
    assert(alias("persistentvolumes"@) == known(
        ""@,
        "persistentvolumes"@,
        "PersistentVolume"@,
        false,
    ));
    assert(alias("persistentvolume"@) == known(
        ""@,
        "persistentvolumes"@,
        "PersistentVolume"@,
        false,
    ));
    assert(alias("persistentvolumeclaims"@) == known(
        ""@,
        "persistentvolumeclaims"@,
        "PersistentVolumeClaim"@,
        true,
    ));
    assert(alias("persistentvolumeclaim"@) == known(
        ""@,
        "persistentvolumeclaims"@,
        "PersistentVolumeClaim"@,
        true,
    ));
    assert(alias("endpoints"@) == known(""@, "endpoints"@, "Endpoints"@, true));
    assert(alias("replicationcontrollers"@) == known(
        ""@,
        "replicationcontrollers"@,
        "ReplicationController"@,
        true,
    ));
    assert(alias("replicationcontroller"@) == known(
        ""@,
        "replicationcontrollers"@,
        "ReplicationController"@,
        true,
    ));
}

/// Plural and kind of a resource of the workload groups are aliases of it.
proof fn lemma_workload_names(s: Seq<char>)
    requires
        workload_alias(s) is Some,
    ensures
        alias(workload_alias(s)->0.plural) == workload_alias(s),
        alias(lower_ascii(workload_alias(s)->0.kind)) == workload_alias(s),
        workload_alias(s)->0.version == "v1"@,
{
    lemma_core_marks();
    lemma_workload_marks();
    lemma_workload_kinds();
    assert(alias("deployments"@) == known("apps"@, "deployments"@, "Deployment"@, true));
    assert(alias("deployment"@) == known("apps"@, "deployments"@, "Deployment"@, true));
    assert(alias("daemonsets"@) == known("apps"@, "daemonsets"@, "DaemonSet"@, true));
    assert(alias("daemonset"@) == known("apps"@, "daemonsets"@, "DaemonSet"@, true));
    assert(alias("statefulsets"@) == known("apps"@, "statefulsets"@, "StatefulSet"@, true));
    assert(alias("statefulset"@) == known("apps"@, "statefulsets"@, "StatefulSet"@, true));
    assert(alias("replicasets"@) == known("apps"@, "replicasets"@, "ReplicaSet"@, true));
    assert(alias("replicaset"@) == known("apps"@, "replicasets"@, "ReplicaSet"@, true));
    assert(alias("jobs"@) == known("batch"@, "jobs"@, "Job"@, true));
    assert(alias("job"@) == known("batch"@, "jobs"@, "Job"@, true));
    assert(alias("cronjobs"@) == known("batch"@, "cronjobs"@, "CronJob"@, true));
    assert(alias("cronjob"@) == known("batch"@, "cronjobs"@, "CronJob"@, true));
}

/// Plural and kind of a resource of the other groups are aliases of it.
proof fn lemma_other_names(s: Seq<char>)
    requires
        other_alias(s) is Some,
    ensures
        alias(other_alias(s)->0.plural) == other_alias(s),
        alias(lower_ascii(other_alias(s)->0.kind)) == other_alias(s),
        other_alias(s)->0.version == "v1"@,
{
    lemma_core_marks();
    lemma_workload_marks();
    lemma_other_marks();
    lemma_other_kinds();
    assert(alias("ingresses"@) == known("networking.k8s.io"@, "ingresses"@, "Ingress"@, true));
    assert(alias("ingress"@) == known("networking.k8s.io"@, "ingresses"@, "Ingress"@, true));
    assert(alias("networkpolicies"@) == known(
        "networking.k8s.io"@,
        "networkpolicies"@,
        "NetworkPolicy"@,
        true,
    ));
    assert(alias("networkpolicy"@) == known(
        "networking.k8s.io"@,
        "networkpolicies"@,
        "NetworkPolicy"@,
        true,
    ));
    assert(alias("clusterroles"@) == known(
        "rbac.authorization.k8s.io"@,
        "clusterroles"@,
        "ClusterRole"@,
        false,
    ));
    assert(alias("clusterrole"@) == known(
        "rbac.authorization.k8s.io"@,
        "clusterroles"@,
        "ClusterRole"@,
        false,
    ));
    assert(alias("clusterrolebindings"@) == known(
        "rbac.authorization.k8s.io"@,
        "clusterrolebindings"@,
        "ClusterRoleBinding"@,
        false,
    ));
    assert(alias("clusterrolebinding"@) == known(
        "rbac.authorization.k8s.io"@,
        "clusterrolebindings"@,
        "ClusterRoleBinding"@,
        false,
    ));
    assert(alias("roles"@) == known("rbac.authorization.k8s.io"@, "roles"@, "Role"@, true));
    assert(alias("role"@) == known("rbac.authorization.k8s.io"@, "roles"@, "Role"@, true));
    assert(alias("rolebindings"@) == known(
        "rbac.authorization.k8s.io"@,
        "rolebindings"@,
        "RoleBinding"@,
        true,
    ));
    assert(alias("rolebinding"@) == known(
        "rbac.authorization.k8s.io"@,
        "rolebindings"@,
        "RoleBinding"@,
        true,
    ));
    assert(alias("storageclasses"@) == known(
        "storage.k8s.io"@,
        "storageclasses"@,
        "StorageClass"@,
        false,
    ));
    assert(alias("storageclass"@) == known(
        "storage.k8s.io"@,
        "storageclasses"@,
        "StorageClass"@,
        false,
    ));
    assert(alias("customresourcedefinitions"@) == known(
        "apiextensions.k8s.io"@,
        "customresourcedefinitions"@,
        "CustomResourceDefinition"@,
        false,
    ));
    assert(alias("customresourcedefinition"@) == known(
        "apiextensions.k8s.io"@,
        "customresourcedefinitions"@,
        "CustomResourceDefinition"@,
        false,
    ));
}

/// The short name, the kind in lower case and the plural of a resource are aliases
/// of the same resource, and every resource that has an alias is of version `v1`.
pub proof fn law_names_of_a_resource_agree(s: Seq<char>)
    requires
        alias(s) is Some,
    ensures
        alias(alias(s)->0.plural) == alias(s),
        alias(lower_ascii(alias(s)->0.kind)) == alias(s),
        alias(s)->0.version == "v1"@,
{
    if core_alias(s) is Some {
        lemma_core_names(s);
    } else if workload_alias(s) is Some {
        lemma_workload_names(s);
    } else {
        lemma_other_names(s);
    }
}

/// Each short name stands for the kind that it abbreviates.
pub proof fn law_short_names_abbreviate()
    ensures
        alias("po"@) matches Some(a) && a.kind == "Pod"@,
        alias("svc"@) matches Some(a) && a.kind == "Service"@,
        alias("no"@) matches Some(a) && a.kind == "Node"@,
        alias("ns"@) matches Some(a) && a.kind == "Namespace"@,
        alias("cm"@) matches Some(a) && a.kind == "ConfigMap"@,
        alias("sa"@) matches Some(a) && a.kind == "ServiceAccount"@,
        alias("ev"@) matches Some(a) && a.kind == "Event"@,
        alias("pv"@) matches Some(a) && a.kind == "PersistentVolume"@,
        alias("pvc"@) matches Some(a) && a.kind == "PersistentVolumeClaim"@,
        alias("ep"@) matches Some(a) && a.kind == "Endpoints"@,
        alias("rc"@) matches Some(a) && a.kind == "ReplicationController"@,
        alias("dp"@) matches Some(a) && a.kind == "Deployment"@,
        alias("dep"@) matches Some(a) && a.kind == "Deployment"@,
        alias("deploy"@) matches Some(a) && a.kind == "Deployment"@,
        alias("ds"@) matches Some(a) && a.kind == "DaemonSet"@,
        alias("sts"@) matches Some(a) && a.kind == "StatefulSet"@,
        alias("rs"@) matches Some(a) && a.kind == "ReplicaSet"@,
        alias("cj"@) matches Some(a) && a.kind == "CronJob"@,
        alias("ing"@) matches Some(a) && a.kind == "Ingress"@,
        alias("netpol"@) matches Some(a) && a.kind == "NetworkPolicy"@,
        alias("cr"@) matches Some(a) && a.kind == "ClusterRole"@,
        alias("crb"@) matches Some(a) && a.kind == "ClusterRoleBinding"@,
        alias("rb"@) matches Some(a) && a.kind == "RoleBinding"@,
        alias("sc"@) matches Some(a) && a.kind == "StorageClass"@,
        alias("crd"@) matches Some(a) && a.kind == "CustomResourceDefinition"@,
{
    lemma_core_marks();
    lemma_workload_marks();
    lemma_other_marks();
}

/// What nodes, namespaces, volumes, classes and definitions are, and the roles of a
/// whole cluster, belongs to no namespace; every other resource does.
pub proof fn law_resources_of_the_whole_cluster(s: Seq<char>)
    requires
        alias(s) is Some,
    ensures
        !alias(s)->0.namespaced <==> alias(s)->0.plural == "nodes"@ || alias(s)->0.plural
            == "namespaces"@ || alias(s)->0.plural == "persistentvolumes"@ || alias(s)->0.plural
            == "clusterroles"@ || alias(s)->0.plural == "clusterrolebindings"@ || alias(s)->0.plural
            == "storageclasses"@ || alias(s)->0.plural == "customresourcedefinitions"@,
{
    lemma_core_marks();
    lemma_workload_marks();
    lemma_other_marks();
}

/// Whether a built-in resource is what its names stand for: its plural, its singular
/// and its short names.
pub open spec fn goes_by_its_names(r: ResourceModel) -> bool {
    &&& alias(r.resource) matches Some(a) && a.plural == r.resource && a.group == r.api_group
        && a.namespaced == r.namespaced
    &&& alias(r.singular_name) == alias(r.resource)
    &&& forall|k: int|
        0 <= k < r.short_names.len() ==> alias(#[trigger] r.short_names[k]) == alias(r.resource)
}

/// The resources that are suggested are those that their names stand for.
pub proof fn law_suggested_resources_go_by_their_names(i: int)
    ensures
        0 <= i < core_resources().len() ==> goes_by_its_names(core_resources()[i]),
        0 <= i < 6 ==> goes_by_its_names(workload_resources()[i]),
        0 <= i < other_resources().len() ==> goes_by_its_names(other_resources()[i]),
        builtin_resources().len() == 27,
        forall|k: int|
            0 <= k < core_resources().len() ==> #[trigger] builtin_resources()[k]
                == core_resources()[k],
{
    lemma_core_marks();
    lemma_workload_marks();
    lemma_other_marks();
    assert(core_resources().len() == 12);
    assert(workload_resources().len() == 7);
    assert(other_resources().len() == 8);
}

// ---------------------------------------------------------------------------
// Columns
// ---------------------------------------------------------------------------

/// Where a column's value comes from, as a value.
#[verifier::ext_equal]
pub enum ExtractorModel {
    Name,
    Namespace,
    Age,
    StatusPhase,
    JsonPath(Seq<char>),
    ReadyReplicas,
    Labels,
    SpecType,
    ClusterIP,
    ReadyCondition,
    Restarts,
    ContainerReady,
    ClusterLabel,
}

impl View for ColumnExtractor {
    type V = ExtractorModel;

    open spec fn view(&self) -> ExtractorModel {
        match *self {
            ColumnExtractor::Name => ExtractorModel::Name,
            ColumnExtractor::Namespace => ExtractorModel::Namespace,
            ColumnExtractor::Age => ExtractorModel::Age,
            ColumnExtractor::StatusPhase => ExtractorModel::StatusPhase,
            ColumnExtractor::JsonPath(path) => ExtractorModel::JsonPath(path@),
            ColumnExtractor::ReadyReplicas => ExtractorModel::ReadyReplicas,
            ColumnExtractor::Labels => ExtractorModel::Labels,
            ColumnExtractor::SpecType => ExtractorModel::SpecType,
            ColumnExtractor::ClusterIP => ExtractorModel::ClusterIP,
            ColumnExtractor::ReadyCondition => ExtractorModel::ReadyCondition,
            ColumnExtractor::Restarts => ExtractorModel::Restarts,
            ColumnExtractor::ContainerReady => ExtractorModel::ContainerReady,
            ColumnExtractor::ClusterLabel => ExtractorModel::ClusterLabel,
        }
    }
}

/// A column as a value.
#[verifier::ext_equal]
pub struct ColumnModel {
    pub header: Seq<char>,
    pub extractor: ExtractorModel,
    pub width_percent: u16,
}

impl View for DynColumn {
    type V = ColumnModel;

    open spec fn view(&self) -> ColumnModel {
        ColumnModel {
            header: self.header@,
            extractor: self.extractor@,
            width_percent: self.width_percent,
        }
    }
}

/// Columns as values.
pub open spec fn columns_model(s: Seq<DynColumn>) -> Seq<ColumnModel> {
    s.map_values(|c: DynColumn| c@)
}

/// A column.
pub open spec fn column(header: Seq<char>, extractor: ExtractorModel, width: u16) -> ColumnModel {
    ColumnModel { header, extractor, width_percent: width }
}

/// A column with the value at a path.
pub open spec fn path_column(header: Seq<char>, path: Seq<char>, width: u16) -> ColumnModel {
    column(header, ExtractorModel::JsonPath(path), width)
}

/// The columns that a kind has of its own.
pub open spec fn own_columns(kind: Seq<char>) -> Seq<ColumnModel> {
    if kind == "Pod"@ {
        seq![
            column("READY"@, ExtractorModel::ContainerReady, 8),
            column("STATUS"@, ExtractorModel::StatusPhase, 15),
            column("RESTARTS"@, ExtractorModel::Restarts, 8),
        ]
    } else if kind == "Deployment"@ || kind == "StatefulSet"@ || kind == "ReplicaSet"@ {
        seq![column("READY"@, ExtractorModel::ReadyReplicas, 10)]
    } else if kind == "Service"@ {
        seq![
            column("TYPE"@, ExtractorModel::SpecType, 12),
            column("CLUSTER-IP"@, ExtractorModel::ClusterIP, 15),
        ]
    } else if kind == "Node"@ {
        seq![column("STATUS"@, ExtractorModel::ReadyCondition, 10)]
    } else if kind == "Namespace"@ {
        seq![column("STATUS"@, ExtractorModel::StatusPhase, 10)]
    } else if kind == "Job"@ || kind == "CronJob"@ {
        seq![path_column("STATUS"@, "status.active"@, 10)]
    } else if kind == "Ingress"@ {
        seq![path_column("CLASS"@, "spec.ingressClassName"@, 12)]
    } else if kind == "DaemonSet"@ {
        seq![
            path_column("DESIRED"@, "status.desiredNumberScheduled"@, 8),
            path_column("READY"@, "status.numberReady"@, 8),
        ]
    } else if kind == "ConfigMap"@ || kind == "Secret"@ {
        seq![path_column("DATA"@, "data"@, 10)]
    } else if kind == "PersistentVolume"@ {
        seq![
            path_column("CAPACITY"@, "spec.capacity.storage"@, 10),
            column("STATUS"@, ExtractorModel::StatusPhase, 10),
        ]
    } else if kind == "PersistentVolumeClaim"@ {
        seq![
            column("STATUS"@, ExtractorModel::StatusPhase, 10),
            path_column("VOLUME"@, "spec.volumeName"@, 15),
        ]
    } else if kind == "StorageClass"@ {
        seq![path_column("PROVISIONER"@, "provisioner"@, 20)]
    } else if kind == "CustomResourceDefinition"@ {
        seq![
            path_column("GROUP"@, "spec.group"@, 20),
            path_column("SCOPE"@, "spec.scope"@, 10),
        ]
    } else {
        Seq::empty()
    }
}

/// The columns of a kind: name, namespace where it has one, its own, age.
pub open spec fn resource_columns(kind: Seq<char>, namespaced: bool) -> Seq<ColumnModel> {
    seq![column("NAME"@, ExtractorModel::Name, 30)] + (if namespaced {
        seq![column("NAMESPACE"@, ExtractorModel::Namespace, 15)]
    } else {
        Seq::empty()
    }) + own_columns(kind) + seq![column("AGE"@, ExtractorModel::Age, 8)]
}

/// Adds a column.
fn add_column(cols: &mut Vec<DynColumn>, header: &str, extractor: ColumnExtractor, width: u16)
    ensures
        columns_model(final(cols)@) == columns_model(old(cols)@).push(
            column(header@, extractor@, width),
        ),
{
    let ghost before = cols@;
    let col = DynColumn { header: header.to_owned(), extractor, width_percent: width };
    cols.push(col);
    proof {
        assert(columns_model(cols@) =~= columns_model(before).push(col@));
    }
}

/// Adds a column with the value at a path.
fn add_path(cols: &mut Vec<DynColumn>, header: &str, path: &str, width: u16)
    ensures
        columns_model(final(cols)@) == columns_model(old(cols)@).push(
            path_column(header@, path@, width),
        ),
{
    add_column(cols, header, ColumnExtractor::JsonPath(path.to_owned()), width);
}

/// Adds the columns that a kind has of its own.
fn add_own_columns(cols: &mut Vec<DynColumn>, kind: &str)
    ensures
        columns_model(final(cols)@) == columns_model(old(cols)@) + own_columns(kind@),
{
    let ghost before = columns_model(cols@);
    if same(kind, "Pod") {
        add_column(cols, "READY", ColumnExtractor::ContainerReady, 8);
        add_column(cols, "STATUS", ColumnExtractor::StatusPhase, 15);
        add_column(cols, "RESTARTS", ColumnExtractor::Restarts, 8);
    } else if any_of(kind, "Deployment", "StatefulSet", "ReplicaSet") {
        add_column(cols, "READY", ColumnExtractor::ReadyReplicas, 10);
    } else if same(kind, "Service") {
        add_column(cols, "TYPE", ColumnExtractor::SpecType, 12);
        add_column(cols, "CLUSTER-IP", ColumnExtractor::ClusterIP, 15);
    } else if same(kind, "Node") {
        add_column(cols, "STATUS", ColumnExtractor::ReadyCondition, 10);
    } else if same(kind, "Namespace") {
        add_column(cols, "STATUS", ColumnExtractor::StatusPhase, 10);
    } else if either(kind, "Job", "CronJob") {
        add_path(cols, "STATUS", "status.active", 10);
    } else if same(kind, "Ingress") {
        add_path(cols, "CLASS", "spec.ingressClassName", 12);
    } else if same(kind, "DaemonSet") {
        add_path(cols, "DESIRED", "status.desiredNumberScheduled", 8);
        add_path(cols, "READY", "status.numberReady", 8);
    } else if either(kind, "ConfigMap", "Secret") {
        add_path(cols, "DATA", "data", 10);
    } else if same(kind, "PersistentVolume") {
        add_path(cols, "CAPACITY", "spec.capacity.storage", 10);
        add_column(cols, "STATUS", ColumnExtractor::StatusPhase, 10);
    } else if same(kind, "PersistentVolumeClaim") {
        add_column(cols, "STATUS", ColumnExtractor::StatusPhase, 10);
        add_path(cols, "VOLUME", "spec.volumeName", 15);
    } else if same(kind, "StorageClass") {
        add_path(cols, "PROVISIONER", "provisioner", 20);
    } else if same(kind, "CustomResourceDefinition") {
        add_path(cols, "GROUP", "spec.group", 20);
        add_path(cols, "SCOPE", "spec.scope", 10);
    }
    proof {
        assert(columns_model(cols@) =~= before + own_columns(kind@));
    }
}

/// The columns of a kind.
pub fn columns_for_resource(kind: &str, namespaced: bool) -> (r: Vec<DynColumn>)
    ensures
        columns_model(r@) == resource_columns(kind@, namespaced),
{
    let mut cols: Vec<DynColumn> = Vec::new();
    add_column(&mut cols, "NAME", ColumnExtractor::Name, 30);
    if namespaced {
        add_column(&mut cols, "NAMESPACE", ColumnExtractor::Namespace, 15);
    }
    add_own_columns(&mut cols, kind);
    add_column(&mut cols, "AGE", ColumnExtractor::Age, 8);
    proof {
        assert(columns_model(cols@) =~= resource_columns(kind@, namespaced));
    }
    cols
}

/// Every kind has the name first and the age last, and the namespace exactly
/// where it belongs to namespaces.
pub proof fn law_columns_frame(kind: Seq<char>, namespaced: bool)
    ensures
        ({
            let cols = resource_columns(kind, namespaced);
            &&& cols.len() >= 2
            &&& cols[0] == column("NAME"@, ExtractorModel::Name, 30)
            &&& cols.last() == column("AGE"@, ExtractorModel::Age, 8)
            &&& namespaced ==> cols[1] == column("NAMESPACE"@, ExtractorModel::Namespace, 15)
            &&& !namespaced ==> forall|i: int|
                0 <= i < cols.len() ==> !((#[trigger] cols[i]).extractor is Namespace)
        }),
{
}

// ---------------------------------------------------------------------------
// Column values
// ---------------------------------------------------------------------------

/// A member of an object's member.
pub open spec fn inner(j: Json, outer: Seq<char>, key: Seq<char>) -> Option<Json> {
    match member(j, outer) {
        Some(v) => member(v, key),
        None => None,
    }
}

/// The text of a member of an object's member, or nothing.
pub open spec fn inner_text(j: Json, outer: Seq<char>, key: Seq<char>) -> Seq<char> {
    match inner(j, outer, key) {
        Some(v) => match text_of_json(v) {
            Some(t) => t,
            None => Seq::empty(),
        },
        None => Seq::empty(),
    }
}

/// The number in a member of an object's member, or zero.
pub open spec fn inner_number(j: Json, outer: Seq<char>, key: Seq<char>) -> int {
    match inner(j, outer, key) {
        Some(v) => match signed_of(v) {
            Some(n) => n as int,
            None => 0,
        },
        None => 0,
    }
}

/// The items of a member of an object's member.
pub open spec fn inner_items(j: Json, outer: Seq<char>, key: Seq<char>) -> Option<Seq<Json>> {
    match inner(j, outer, key) {
        Some(v) => items_of(v),
        None => None,
    }
}

/// The value at a path of keys, separated by dots.
pub open spec fn at_path(j: Json, path: Seq<char>) -> Option<Json>
    decreases path.len(),
{
    let n = char_index(path, '.');
    if n >= path.len() || n < 0 {
        member(j, path)
    } else {
        match member(j, path.take(n)) {
            Some(v) => at_path(v, path.skip(n + 1)),
            None => None,
        }
    }
}

/// The value at a path as it is shown; nothing where there is none.
pub open spec fn path_text(j: Json, path: Seq<char>) -> Seq<char> {
    match at_path(j, path) {
        Some(v) => line_of(v, ""@),
        None => Seq::empty(),
    }
}

/// The test whether a condition is the one called `Ready`.
pub open spec fn is_ready_condition() -> spec_fn(Json) -> bool {
    |c: Json| member_text(c, "type"@) == Some("Ready"@)
}

/// The status of the condition `Ready`.
pub open spec fn ready_condition(j: Json) -> Seq<char> {
    match inner_items(j, "status"@, "conditions"@) {
        Some(conditions) => match first_where(conditions, is_ready_condition()) {
            Some(c) => match member_text(c, "status"@) {
                Some(t) => t,
                None => Seq::empty(),
            },
            None => Seq::empty(),
        },
        None => Seq::empty(),
    }
}

/// The restarts that a container's status reports.
pub open spec fn restarts_of(status: Json) -> int {
    match member(status, "restartCount"@) {
        Some(v) => match signed_of(v) {
            Some(n) => n as int,
            None => 0,
        },
        None => 0,
    }
}

/// The restarts that the first container statuses report.
pub open spec fn restarts_sum(statuses: Seq<Json>, n: int) -> int
    decreases n,
{
    if n <= 0 {
        0
    } else {
        restarts_sum(statuses, n - 1) + restarts_of(statuses[n - 1])
    }
}

/// The container statuses of an object.
pub open spec fn statuses_of(j: Json) -> Option<Seq<Json>> {
    inner_items(j, "status"@, "containerStatuses"@)
}

/// The test whether a container's status reports it ready.
pub open spec fn is_ready_container() -> spec_fn(Json) -> bool {
    |s: Json| member(s, "ready"@) is Some && is_true(member(s, "ready"@)->0)
}

/// The first pairs as `key=value`.
pub open spec fn pair_texts(pairs: Seq<(String, String)>, n: int) -> Seq<Seq<char>>
    decreases n,
{
    if n <= 0 {
        Seq::empty()
    } else {
        pair_texts(pairs, n - 1).push(pairs[n - 1].0@ + "="@ + pairs[n - 1].1@)
    }
}

/// The first three labels.
pub open spec fn labels_text(labels: Option<Vec<(String, String)>>) -> Seq<char> {
    match labels {
        Some(v) => joined(
            pair_texts(
                v@,
                if v@.len() < 3 {
                    v@.len() as int
                } else {
                    3
                },
            ),
            ","@,
        ),
        None => Seq::empty(),
    }
}

/// The test whether a label has a key.
pub open spec fn label_key(key: Seq<char>) -> spec_fn((String, String)) -> bool {
    |p: (String, String)| p.0@ == key
}

/// The value of a label, or nothing.
pub open spec fn label_value(labels: Option<Vec<(String, String)>>, key: Seq<char>) -> Seq<char> {
    match labels {
        Some(v) => match first_where(v@, label_key(key)) {
            Some(p) => p.1@,
            None => Seq::empty(),
        },
        None => Seq::empty(),
    }
}

/// What a column shows of an object.
pub open spec fn column_value(obj: DynamicObject, e: ExtractorModel, now: Timestamp) -> Seq<char> {
    match e {
        ExtractorModel::Name => text_or(obj.name, Seq::empty()),
        ExtractorModel::Namespace => text_or(obj.namespace, Seq::empty()),
        ExtractorModel::Age => age_column(now, obj.created),
        ExtractorModel::StatusPhase => inner_text(obj.data, "status"@, "phase"@),
        ExtractorModel::JsonPath(path) => path_text(obj.data, path),
        ExtractorModel::ReadyReplicas => signed_decimal(
            inner_number(obj.data, "status"@, "readyReplicas"@),
        ) + "/"@ + signed_decimal(inner_number(obj.data, "spec"@, "replicas"@)),
        ExtractorModel::Labels => labels_text(obj.labels),
        ExtractorModel::SpecType => inner_text(obj.data, "spec"@, "type"@),
        ExtractorModel::ClusterIP => inner_text(obj.data, "spec"@, "clusterIP"@),
        ExtractorModel::ReadyCondition => ready_condition(obj.data),
        ExtractorModel::Restarts => match statuses_of(obj.data) {
            Some(statuses) => signed_decimal(restarts_sum(statuses, statuses.len() as int)),
            None => "0"@,
        },
        ExtractorModel::ContainerReady => match statuses_of(obj.data) {
            Some(statuses) => decimal(count(statuses, is_ready_container())) + "/"@ + decimal(
                statuses.len(),
            ),
            None => "0/0"@,
        },
        ExtractorModel::ClusterLabel => label_value(obj.labels, "scalex.io/cluster"@),
    }
}

/// Whether the restarts of an object's containers can be summed up in an `i64`.
pub open spec fn restarts_fit(j: Json) -> bool {
    statuses_of(j) is Some ==> forall|n: int|
        0 <= n <= statuses_of(j)->0.len() ==> i64::MIN <= #[trigger] restarts_sum(
            statuses_of(j)->0,
            n,
        ) <= i64::MAX
}

/// Whether the columns of an object can be shown.
pub open spec fn can_be_listed(obj: DynamicObject) -> bool {
    usable(obj.created) && restarts_fit(obj.data)
}

/// A member of an object's member.
fn get_inner<'a>(j: &'a Json, outer: &str, key: &str) -> (r: Option<&'a Json>)
    ensures
        r is Some == inner(*j, outer@, key@) is Some,
        r is Some ==> *r->0 == inner(*j, outer@, key@)->0,
{
    match j.get(outer) {
        Some(v) => v.get(key),
        None => None,
    }
}

fn get_inner_text(j: &Json, outer: &str, key: &str) -> (r: String)
    ensures
        r@ == inner_text(*j, outer@, key@),
{
    match get_inner(j, outer, key) {
        Some(v) => match v.as_str() {
            Some(t) => t.to_owned(),
            None => String::new(),
        },
        None => String::new(),
    }
}

fn get_inner_number(j: &Json, outer: &str, key: &str) -> (r: i64)
    ensures
        r == inner_number(*j, outer@, key@),
{
    match get_inner(j, outer, key) {
        Some(v) => match v.as_i64() {
            Some(n) => n,
            None => 0,
        },
        None => 0,
    }
}

fn get_inner_items<'a>(j: &'a Json, outer: &str, key: &str) -> (r: Option<&'a Vec<Json>>)
    ensures
        r is Some == inner_items(*j, outer@, key@) is Some,
        r is Some ==> r->0@ == inner_items(*j, outer@, key@)->0,
{
    match get_inner(j, outer, key) {
        Some(v) => v.as_array(),
        None => None,
    }
}

/// The value at a path of keys, separated by dots.
fn find_at_path<'a>(j: &'a Json, path: &str) -> (r: Option<&'a Json>)
    ensures
        r is Some == at_path(*j, path@) is Some,
        r is Some ==> *r->0 == at_path(*j, path@)->0,
    decreases path@.len(),
{
    let (head, tail) = cut_at(path, '.');
    proof {
        lemma_char_index_bound(path@, '.');
        assert(path@.take(path@.len() as int) =~= path@);
    }
    match tail {
        None => j.get(head.as_str()),
        Some(rest) => match j.get(head.as_str()) {
            Some(v) => find_at_path(v, rest.as_str()),
            None => None,
        },
    }
}

/// The value at a path of keys, separated by dots, as it is shown; nothing
/// where there is none.
pub fn extract_json_path(data: &Json, path: &str) -> (r: String)
    ensures
        r@ == path_text(*data, path@),
{
    match find_at_path(data, path) {
        Some(v) => v.to_line(""),
        None => String::new(),
    }
}

fn find_ready_condition(j: &Json) -> (r: String)
    ensures
        r@ == ready_condition(*j),
{
    match get_inner_items(j, "status", "conditions") {
        Some(conditions) => {
            let mut i: usize = 0;
            while i < conditions.len()
                invariant
                    i <= conditions@.len(),
                    inner_items(*j, "status"@, "conditions"@) == Some(conditions@),
                    forall|k: int| 0 <= k < i ==> !is_ready_condition()(#[trigger] conditions@[k]),
                decreases conditions@.len() - i,
            {
                let found = match conditions[i].get_str("type") {
                    Some(t) => same(t, "Ready"),
                    None => false,
                };
                if found {
                    proof {
                        lemma_first_index(conditions@, i as int, is_ready_condition());
                    }
                    return match conditions[i].get_str("status") {
                        Some(t) => t.to_owned(),
                        None => String::new(),
                    };
                }
                i += 1;
            }
            proof {
                lemma_first_index(conditions@, i as int, is_ready_condition());
            }
            String::new()
        },
        None => String::new(),
    }
}

fn sum_restarts(statuses: &Vec<Json>) -> (r: i64)
    requires
        forall|n: int|
            0 <= n <= statuses@.len() ==> i64::MIN <= #[trigger] restarts_sum(statuses@, n)
                <= i64::MAX,
    ensures
        r == restarts_sum(statuses@, statuses@.len() as int),
{
    let mut total: i64 = 0;
    let mut i: usize = 0;
    while i < statuses.len()
        invariant
            i <= statuses@.len(),
            total == restarts_sum(statuses@, i as int),
            forall|n: int|
                0 <= n <= statuses@.len() ==> i64::MIN <= #[trigger] restarts_sum(statuses@, n)
                    <= i64::MAX,
        decreases statuses@.len() - i,
    {
        let n: i64 = match statuses[i].get("restartCount") {
            Some(v) => match v.as_i64() {
                Some(n) => n,
                None => 0,
            },
            None => 0,
        };
        proof {
            assert(restarts_sum(statuses@, i + 1) == total + n);
        }
        total = total + n;
        i += 1;
    }
    total
}

fn count_ready(statuses: &Vec<Json>) -> (r: usize)
    ensures
        r == count(statuses@, is_ready_container()),
{
    let mut n: usize = 0;
    let mut i: usize = 0;
    while i < statuses.len()
        invariant
            n <= i <= statuses@.len(),
            n == count(statuses@.take(i as int), is_ready_container()),
        decreases statuses@.len() - i,
    {
        proof {
            lemma_count_step(statuses@, i as int, is_ready_container());
        }
        let ready = match statuses[i].get("ready") {
            Some(v) => v.is_true(),
            None => false,
        };
        if ready {
            n += 1;
        }
        i += 1;
    }
    n
}

fn show_labels(labels: &Option<Vec<(String, String)>>) -> (r: String)
    ensures
        r@ == labels_text(*labels),
{
    match labels {
        Some(v) => {
            let n: usize = if v.len() < 3 {
                v.len()
            } else {
                3
            };
            let mut parts: Vec<String> = Vec::new();
            let mut i: usize = 0;
            proof {
                assert(texts(parts@) =~= pair_texts(v@, 0));
            }
            while i < n
                invariant
                    i <= n <= v@.len(),
                    texts(parts@) == pair_texts(v@, i as int),
                decreases n - i,
            {
                let mut part = v[i].0.clone();
                part.append("=");
                part.append(v[i].1.as_str());
                parts.push(part);
                i += 1;
            }
            join(&parts, ",")
        },
        None => String::new(),
    }
}

fn find_label(labels: &Option<Vec<(String, String)>>, key: &str) -> (r: String)
    ensures
        r@ == label_value(*labels, key@),
{
    match labels {
        Some(v) => {
            let mut i: usize = 0;
            while i < v.len()
                invariant
                    i <= v@.len(),
                    *labels == Some(*v),
                    forall|k: int| 0 <= k < i ==> !label_key(key@)(#[trigger] v@[k]),
                decreases v@.len() - i,
            {
                if same(v[i].0.as_str(), key) {
                    proof {
                        lemma_first_index(v@, i as int, label_key(key@));
                    }
                    return v[i].1.clone();
                }
                i += 1;
            }
            proof {
                lemma_first_index(v@, i as int, label_key(key@));
            }
            String::new()
        },
        None => String::new(),
    }
}

/// What a column shows of an object.
pub fn extract_column_value(obj: &DynamicObject, extractor: &ColumnExtractor, now: Timestamp) -> (r:
    String)
    requires
        now.in_range(),
        can_be_listed(*obj),
    ensures
        r@ == column_value(*obj, extractor@, now),
{
    match extractor {
        ColumnExtractor::Name => copy_or_empty(&obj.name),
        ColumnExtractor::Namespace => copy_or_empty(&obj.namespace),
        ColumnExtractor::Age => format_age_column(now, obj.created),
        ColumnExtractor::StatusPhase => get_inner_text(&obj.data, "status", "phase"),
        ColumnExtractor::JsonPath(path) => extract_json_path(&obj.data, path.as_str()),
        ColumnExtractor::ReadyReplicas => {
            let mut out = decimal_i64(get_inner_number(&obj.data, "status", "readyReplicas"));
            out.append("/");
            out.append(decimal_i64(get_inner_number(&obj.data, "spec", "replicas")).as_str());
            out
        },
        ColumnExtractor::Labels => show_labels(&obj.labels),
        ColumnExtractor::SpecType => get_inner_text(&obj.data, "spec", "type"),
        ColumnExtractor::ClusterIP => get_inner_text(&obj.data, "spec", "clusterIP"),
        ColumnExtractor::ReadyCondition => find_ready_condition(&obj.data),
        ColumnExtractor::Restarts => match get_inner_items(
            &obj.data,
            "status",
            "containerStatuses",
        ) {
            Some(statuses) => decimal_i64(sum_restarts(statuses)),
            None => "0".to_owned(),
        },
        ColumnExtractor::ContainerReady => match get_inner_items(
            &obj.data,
            "status",
            "containerStatuses",
        ) {
            Some(statuses) => {
                let mut out = decimal_usize(count_ready(statuses));
                out.append("/");
                out.append(decimal_usize(statuses.len()).as_str());
                out
            },
            None => "0/0".to_owned(),
        },
        ColumnExtractor::ClusterLabel => find_label(&obj.labels, "scalex.io/cluster"),
    }
}

// ---------------------------------------------------------------------------
// Resolution
// ---------------------------------------------------------------------------

/// How an API serves a resource, as a value.
#[verifier::ext_equal]
pub struct ApiModel {
    pub group: Seq<char>,
    pub version: Seq<char>,
    pub api_version: Seq<char>,
    pub kind: Seq<char>,
    pub plural: Seq<char>,
}

impl View for ApiResource {
    type V = ApiModel;

    open spec fn view(&self) -> ApiModel {
        ApiModel {
            group: self.group@,
            version: self.version@,
            api_version: self.api_version@,
            kind: self.kind@,
            plural: self.plural@,
        }
    }
}

/// A resolved resource as a value.
#[verifier::ext_equal]
pub struct ResolvedModel {
    pub api_resource: ApiModel,
    pub namespaced: bool,
    pub display_name: Seq<char>,
    pub command_alias: Seq<char>,
    pub columns: Seq<ColumnModel>,
}

impl View for ResolvedResource {
    type V = ResolvedModel;

    open spec fn view(&self) -> ResolvedModel {
        ResolvedModel {
            api_resource: self.api_resource@,
            namespaced: self.namespaced,
            display_name: self.display_name@,
            command_alias: self.command_alias@,
            columns: columns_model(self.columns@),
        }
    }
}

impl ApiResource {
    /// A copy of the resource.
    pub fn copy(&self) -> (r: ApiResource)
        ensures
            r@ == self@,
    {
        ApiResource {
            group: self.group.clone(),
            version: self.version.clone(),
            api_version: self.api_version.clone(),
            kind: self.kind.clone(),
            plural: self.plural.clone(),
        }
    }
}

/// Group and version together; the core group has no name.
pub open spec fn full_version(group: Seq<char>, version: Seq<char>) -> Seq<char> {
    if group.len() == 0 {
        version
    } else {
        group + "/"@ + version
    }
}

/// How the API serves a known resource.
pub open spec fn alias_api(a: AliasModel) -> ApiModel {
    ApiModel {
        group: a.group,
        version: a.version,
        api_version: full_version(a.group, a.version),
        kind: a.kind,
        plural: a.plural,
    }
}

/// A typed name without blanks around it, in lower case.
pub open spec fn normalized(input: Seq<char>) -> Seq<char> {
    trimmed(lower_ascii(input))
}

/// What a name that is an alias resolves to.
pub open spec fn resolved_alias(a: AliasModel, input: Seq<char>) -> ResolvedModel {
    ResolvedModel {
        api_resource: alias_api(a),
        namespaced: a.namespaced,
        display_name: a.kind + "s"@,
        command_alias: input,
        columns: resource_columns(a.kind, a.namespaced),
    }
}

/// What is known of a typed name before any API was asked.
pub enum Resolution {
    /// The name is an alias.
    Known(ResolvedResource),
    /// The API has to be asked for this name.
    Unknown(String),
}

/// Lowers the ASCII letters of a text.
pub fn lower_text(s: &str) -> (r: String)
    ensures
        r@ == lower_ascii(s@),
{
    let v = chars_of(s);
    let mut out: Vec<char> = Vec::new();
    let mut i: usize = 0;
    while i < v.len()
        invariant
            i <= v@.len(),
            out@ == lower_ascii(v@.take(i as int)),
        decreases v@.len() - i,
    {
        out.push(ascii_lower(v[i]));
        proof {
            assert(out@ =~= lower_ascii(v@.take(i + 1)));
        }
        i += 1;
    }
    text_of(&out)
}

/// Group and version together.
fn version_of(group: &str, version: &str) -> (r: String)
    ensures
        r@ == full_version(group@, version@),
{
    if group.is_empty() {
        version.to_owned()
    } else {
        let mut out = group.to_owned();
        out.append("/");
        out.append(version);
        out
    }
}

/// Resolves a typed name as far as that takes no API.
pub fn resolve_resource(input: &str) -> (r: Resolution)
    ensures
        match alias(normalized(input@)) {
            Some(a) => r matches Resolution::Known(found) && found@ == resolved_alias(
                a,
                normalized(input@),
            ),
            None => r matches Resolution::Unknown(name) && name@ == normalized(input@),
        },
{
    let name = trim(lower_text(input).as_str());
    match builtin_alias(name.as_str()) {
        Some((group, version, plural, kind, namespaced)) => {
            let api_resource = ApiResource {
                group: group.to_owned(),
                version: version.to_owned(),
                api_version: version_of(group, version),
                kind: kind.to_owned(),
                plural: plural.to_owned(),
            };
            let mut display_name = kind.to_owned();
            display_name.append("s");
            Resolution::Known(
                ResolvedResource {
                    columns: columns_for_resource(kind, namespaced),
                    api_resource,
                    namespaced,
                    display_name,
                    command_alias: name,
                },
            )
        },
        None => Resolution::Unknown(name),
    }
}

/// The test whether a resource that the API serves is the one of a name: its
/// plural or its kind is the name, or the kind begins with it.
pub open spec fn serves(name: Seq<char>) -> spec_fn((ApiResource, bool)) -> bool {
    |r: (ApiResource, bool)|
        lower_ascii(r.0.plural@) == name || lower_ascii(r.0.kind@) == name || has_prefix(
            lower_ascii(r.0.kind@),
            name,
        )
}

/// What a name resolves to among the resources that the API serves.
pub open spec fn discovered(served: Seq<(ApiResource, bool)>, name: Seq<char>) -> Option<
    ResolvedModel,
> {
    match first_where(served, serves(name)) {
        Some(r) => Some(
            ResolvedModel {
                api_resource: r.0@,
                namespaced: r.1,
                display_name: r.0.kind@,
                command_alias: name,
                columns: resource_columns(r.0.kind@, r.1),
            },
        ),
        None => None,
    }
}

/// Resolves a name among the resources that the API serves, each with whether
/// it belongs to namespaces.
pub fn resolve_via_discovery(served: &Vec<(ApiResource, bool)>, input: &str) -> (r: Result<
    ResolvedResource,
    String,
>)
    ensures
        match discovered(served@, input@) {
            Some(found) => r is Ok && r->Ok_0@ == found,
            None => r is Err && r->Err_0@ == "Unknown resource type: "@ + input@,
        },
{
    let mut i: usize = 0;
    while i < served.len()
        invariant
            i <= served@.len(),
            forall|k: int| 0 <= k < i ==> !serves(input@)(#[trigger] served@[k]),
        decreases served@.len() - i,
    {
        let plural = lower_text(served[i].0.plural.as_str());
        let kind = lower_text(served[i].0.kind.as_str());
        if same(plural.as_str(), input) || same(kind.as_str(), input) || starts_with(
            kind.as_str(),
            input,
        ) {
            proof {
                lemma_first_index(served@, i as int, serves(input@));
            }
            return Ok(
                ResolvedResource {
                    columns: columns_for_resource(served[i].0.kind.as_str(), served[i].1),
                    api_resource: served[i].0.copy(),
                    namespaced: served[i].1,
                    display_name: served[i].0.kind.clone(),
                    command_alias: input.to_owned(),
                },
            );
        }
        i += 1;
    }
    proof {
        lemma_first_index(served@, i as int, serves(input@));
    }
    let mut message = "Unknown resource type: ".to_owned();
    message.append(input);
    Err(message)
}

/// Where the API is asked for objects.
#[derive(Debug)]
pub enum Scope {
    /// In the whole cluster.
    Cluster,
    /// In one namespace.
    Namespace(String),
    /// In the namespace that the connection has by default.
    DefaultNamespace,
}

/// Whether a scope is one namespace.
pub open spec fn is_namespace(scope: Scope, ns: Seq<char>) -> bool {
    scope matches Scope::Namespace(name) && name@ == ns
}

/// Where the objects of a resource are listed: in the chosen namespace, if the
/// resource belongs to namespaces and one is chosen.
pub fn list_scope(namespaced: bool, namespace: Option<&str>) -> (r: Scope)
    ensures
        if namespaced && namespace is Some {
            is_namespace(r, namespace->0@)
        } else {
            r is Cluster
        },
{
    if namespaced {
        match namespace {
            Some(ns) => Scope::Namespace(ns.to_owned()),
            None => Scope::Cluster,
        }
    } else {
        Scope::Cluster
    }
}

/// Where one object of a resource is found: one that belongs to namespaces
/// takes a namespace.
pub fn object_scope(namespaced: bool, display_name: &str, namespace: Option<&str>) -> (r: Result<
    Scope,
    String,
>)
    ensures
        if !namespaced {
            r is Ok && r->Ok_0 is Cluster
        } else if namespace is Some {
            r is Ok && is_namespace(r->Ok_0, namespace->0@)
        } else {
            r is Err && r->Err_0@ == "Namespace required for namespaced resource '"@
                + display_name@ + "'"@
        },
{
    if namespaced {
        match namespace {
            Some(ns) => Ok(Scope::Namespace(ns.to_owned())),
            None => {
                let mut message = "Namespace required for namespaced resource '".to_owned();
                message.append(display_name);
                message.append("'");
                Err(message)
            },
        }
    } else {
        Ok(Scope::Cluster)
    }
}

/// The resource of a kind that the dashboard lists by itself.
pub open spec fn known_kind(kind: Seq<char>) -> Option<AliasModel> {
    if kind == "Pod"@ {
        known(""@, "pods"@, kind, true)
    } else if kind == "Deployment"@ {
        known("apps"@, "deployments"@, kind, true)
    } else if kind == "Service"@ {
        known(""@, "services"@, kind, true)
    } else if kind == "ConfigMap"@ {
        known(""@, "configmaps"@, kind, true)
    } else if kind == "Node"@ {
        known(""@, "nodes"@, kind, false)
    } else if kind == "Event"@ {
        known(""@, "events"@, kind, true)
    } else if kind == "Namespace"@ {
        known(""@, "namespaces"@, kind, false)
    } else if kind == "StatefulSet"@ {
        known("apps"@, "statefulsets"@, kind, true)
    } else if kind == "DaemonSet"@ {
        known("apps"@, "daemonsets"@, kind, true)
    } else if kind == "ReplicaSet"@ {
        known("apps"@, "replicasets"@, kind, true)
    } else if kind == "Job"@ {
        known("batch"@, "jobs"@, kind, true)
    } else if kind == "CronJob"@ {
        known("batch"@, "cronjobs"@, kind, true)
    } else if kind == "Ingress"@ {
        known("networking.k8s.io"@, "ingresses"@, kind, true)
    } else {
        None
    }
}

/// A kind that is known by itself is the one that its name in lower case stands for.
pub proof fn law_known_kinds_have_their_names(kind: Seq<char>)
    ensures
        known_kind(kind) matches Some(a) ==> alias(lower_ascii(kind)) == Some(a) && a.kind == kind,
{
    lemma_core_marks();
    lemma_workload_marks();
    lemma_other_marks();
    lemma_core_kinds();
    lemma_workload_kinds();
    lemma_other_kinds();
}

/// The group, plural and namespacing of a kind that the dashboard lists by
/// itself.
fn find_kind(kind: &str) -> (r: Option<(&'static str, &'static str, bool)>)
    ensures
        match known_kind(kind@) {
            Some(a) => r matches Some((group, plural, namespaced)) && group@ == a.group && plural@
                == a.plural && namespaced == a.namespaced,
            None => r is None,
        },
{
    if same(kind, "Pod") {
        Some(("", "pods", true))
    } else if same(kind, "Deployment") {
        Some(("apps", "deployments", true))
    } else if same(kind, "Service") {
        Some(("", "services", true))
    } else if same(kind, "ConfigMap") {
        Some(("", "configmaps", true))
    } else if same(kind, "Node") {
        Some(("", "nodes", false))
    } else if same(kind, "Event") {
        Some(("", "events", true))
    } else if same(kind, "Namespace") {
        Some(("", "namespaces", false))
    } else if same(kind, "StatefulSet") {
        Some(("apps", "statefulsets", true))
    } else if same(kind, "DaemonSet") {
        Some(("apps", "daemonsets", true))
    } else if same(kind, "ReplicaSet") {
        Some(("apps", "replicasets", true))
    } else if same(kind, "Job") {
        Some(("batch", "jobs", true))
    } else if same(kind, "CronJob") {
        Some(("batch", "cronjobs", true))
    } else if same(kind, "Ingress") {
        Some(("networking.k8s.io", "ingresses", true))
    } else {
        None
    }
}

/// Where an object of a known kind is found: resource and scope.
pub fn describe_target(kind: &str, namespace: Option<&str>) -> (r: Result<
    (ApiResource, Scope),
    String,
>)
    ensures
        match known_kind(kind@) {
            Some(a) => {
                &&& r matches Ok((api, scope))
                &&& api@ == alias_api(a)
                &&& if !a.namespaced {
                    scope is Cluster
                } else if namespace is Some {
                    is_namespace(scope, namespace->0@)
                } else {
                    scope is DefaultNamespace
                }
            },
            None => r is Err && r->Err_0@ == "Unknown resource kind: "@ + kind@,
        },
{
    match find_kind(kind) {
        Some((group, plural, namespaced)) => {
            let api = ApiResource {
                group: group.to_owned(),
                version: "v1".to_owned(),
                api_version: version_of(group, "v1"),
                kind: kind.to_owned(),
                plural: plural.to_owned(),
            };
            let scope = if namespaced {
                match namespace {
                    Some(ns) => Scope::Namespace(ns.to_owned()),
                    None => Scope::DefaultNamespace,
                }
            } else {
                Scope::Cluster
            };
            Ok((api, scope))
        },
        None => {
            let mut message = "Unknown resource kind: ".to_owned();
            message.append(kind);
            Err(message)
        },
    }
}

// ---------------------------------------------------------------------------
// Fetched objects
// ---------------------------------------------------------------------------

/// The objects of a resource view and the rows that show them.
#[derive(Debug)]
pub struct DynamicResourceData {
    pub resource: ResolvedResource,
    pub objects: Vec<DynamicObject>,
    /// A row for each object, with a text for each column.
    pub rows: Vec<Vec<String>>,
    /// Whether anything has been fetched.
    pub fetched: bool,
}

/// The first text of a row.
pub open spec fn first_text(row: Seq<String>) -> Seq<char> {
    if row.len() == 0 {
        Seq::empty()
    } else {
        row[0]@
    }
}

/// Rows go by their first text.
impl SortKey for Vec<String> {
    open spec fn sort_key(&self) -> Seq<int> {
        text_key(first_text(self@))
    }

    fn precedes(&self, other: &Self) -> (r: bool) {
        let a = if self.len() > 0 {
            self[0].as_str()
        } else {
            ""
        };
        let b = if other.len() > 0 {
            other[0].as_str()
        } else {
            ""
        };
        proof {
            reveal_strlit("");
            assert(""@ =~= Seq::<char>::empty());
        }
        text_precedes(a, b)
    }
}

/// The row that shows an object.
pub open spec fn row_of(obj: DynamicObject, columns: Seq<DynColumn>, now: Timestamp) -> Seq<
    Seq<char>,
> {
    columns.map_values(|c: DynColumn| column_value(obj, c.extractor@, now))
}

/// Whether `rows` show the objects, one row each, sorted stably by the first
/// column.
pub open spec fn shows(
    rows: Seq<Vec<String>>,
    objects: Seq<DynamicObject>,
    columns: Seq<DynColumn>,
    now: Timestamp,
) -> bool {
    exists|unsorted: Seq<Vec<String>>| #[trigger]
        shows_in_order(unsorted, objects, columns, now) && stably_sorted(unsorted, rows)
}

/// Whether each row shows the object at its position.
pub open spec fn shows_in_order(
    rows: Seq<Vec<String>>,
    objects: Seq<DynamicObject>,
    columns: Seq<DynColumn>,
    now: Timestamp,
) -> bool {
    &&& rows.len() == objects.len()
    &&& forall|i: int|
        0 <= i < rows.len() ==> texts((#[trigger] rows[i])@) == row_of(objects[i], columns, now)
}

/// Whether a text is among those of a row, without regard to the case of the
/// row's ASCII letters.
pub open spec fn row_contains(row: Seq<String>, needle: Seq<char>) -> bool {
    exists|i: int|
        0 <= i < row.len() && has_substring(lower_ascii((#[trigger] row[i])@), needle)
}

/// The test whether a row passes a search.
pub open spec fn row_passes(search: Option<Seq<char>>) -> spec_fn(Vec<String>) -> bool {
    |row: Vec<String>|
        search is None || search->0.len() == 0 || row_contains(row@, search->0)
}

/// A search as a value.
pub open spec fn search_view(search: Option<&str>) -> Option<Seq<char>> {
    match search {
        Some(s) => Some(s@),
        None => None,
    }
}

/// Tests whether a row passes a search.
fn passes(row: &Vec<String>, search: Option<&str>) -> (r: bool)
    ensures
        r == row_passes(search_view(search))(*row),
{
    match search {
        None => true,
        Some(s) => {
            if s.is_empty() {
                return true;
            }
            let needle = chars_of(s);
            let mut i: usize = 0;
            while i < row.len()
                invariant
                    i <= row@.len(),
                    search == Some(s),
                    s@.len() != 0,
                    needle@ == s@,
                    forall|k: int|
                        0 <= k < i ==> !has_substring(lower_ascii((#[trigger] row@[k])@), s@),
                decreases row@.len() - i,
            {
                if chars_contain(&chars_of(lower_text(row[i].as_str()).as_str()), &needle) {
                    return true;
                }
                i += 1;
            }
            false
        },
    }
}

/// The row that shows an object.
fn build_row(obj: &DynamicObject, columns: &Vec<DynColumn>, now: Timestamp) -> (r: Vec<String>)
    requires
        now.in_range(),
        can_be_listed(*obj),
    ensures
        texts(r@) == row_of(*obj, columns@, now),
{
    let mut row: Vec<String> = Vec::new();
    let mut i: usize = 0;
    while i < columns.len()
        invariant
            i <= columns@.len(),
            now.in_range(),
            can_be_listed(*obj),
            texts(row@) =~= row_of(*obj, columns@.take(i as int), now),
        decreases columns@.len() - i,
    {
        row.push(extract_column_value(obj, &columns[i].extractor, now));
        i += 1;
    }
    row
}

impl DynamicResourceData {
    /// A view of a resource of which nothing has been fetched yet.
    pub fn new(resource: ResolvedResource) -> (r: Self)
        ensures
            r.resource == resource,
            r.objects@.len() == 0,
            r.rows@.len() == 0,
            !r.fetched,
    {
        DynamicResourceData { resource, objects: Vec::new(), rows: Vec::new(), fetched: false }
    }

    /// Makes the rows anew from the objects, sorted by their first column.
    pub fn extract_rows(&mut self, now: Timestamp)
        requires
            now.in_range(),
            forall|i: int|
                0 <= i < old(self).objects@.len() ==> can_be_listed(
                    #[trigger] old(self).objects@[i],
                ),
        ensures
            shows(
                final(self).rows@,
                old(self).objects@,
                old(self).resource.columns@,
                now,
            ),
            final(self).resource == old(self).resource,
            final(self).objects == old(self).objects,
            final(self).fetched == old(self).fetched,
    {
        let mut rows: Vec<Vec<String>> = Vec::new();
        let mut i: usize = 0;
        while i < self.objects.len()
            invariant
                i <= self.objects@.len(),
                now.in_range(),
                forall|k: int|
                    0 <= k < self.objects@.len() ==> can_be_listed(#[trigger] self.objects@[k]),
                rows@.len() == i,
                forall|k: int|
                    0 <= k < i ==> texts((#[trigger] rows@[k])@) == row_of(
                        self.objects@[k],
                        self.resource.columns@,
                        now,
                    ),
                *self == *old(self),
            decreases self.objects@.len() - i,
        {
            let row = build_row(&self.objects[i], &self.resource.columns, now);
            rows.push(row);
            i += 1;
        }
        proof {
            assert(shows_in_order(rows@, self.objects@, self.resource.columns@, now));
        }
        stable_sort(&mut rows);
        self.rows = rows;
    }

    /// How many rows there are.
    pub fn row_count(&self) -> (r: usize)
        ensures
            r == self.rows@.len(),
    {
        self.rows.len()
    }

    /// The rows that pass a search, each with its position. The search is in
    /// lower case; one that is empty or missing lets every row pass.
    pub fn filtered_rows(&self, search_lower: Option<&str>) -> (r: Vec<(usize, &Vec<String>)>)
        ensures
            r@.map_values(|p: (usize, &Vec<String>)| p.0 as int) == positions(
                self.rows@,
                row_passes(search_view(search_lower)),
            ),
            forall|k: int|
                0 <= k < r@.len() ==> (#[trigger] r@[k]).0 < self.rows@.len() && *r@[k].1
                    == self.rows@[r@[k].0 as int],
    {
        let ghost keep = row_passes(search_view(search_lower));
        let mut out: Vec<(usize, &Vec<String>)> = Vec::new();
        let mut i: usize = 0;
        proof {
            assert(out@.map_values(|p: (usize, &Vec<String>)| p.0 as int) =~= positions(
                self.rows@.take(0),
                keep,
            ));
        }
        while i < self.rows.len()
            invariant
                i <= self.rows@.len(),
                keep == row_passes(search_view(search_lower)),
                out@.map_values(|p: (usize, &Vec<String>)| p.0 as int) == positions(
                    self.rows@.take(i as int),
                    keep,
                ),
                forall|k: int|
                    0 <= k < out@.len() ==> (#[trigger] out@[k]).0 < self.rows@.len() && *out@[k].1
                        == self.rows@[out@[k].0 as int],
            decreases self.rows@.len() - i,
        {
            let ghost before = out@;
            proof {
                lemma_positions_step(self.rows@, i as int, keep);
            }
            if passes(&self.rows[i], search_lower) {
                out.push((i, &self.rows[i]));
                proof {
                    assert(out@.map_values(|p: (usize, &Vec<String>)| p.0 as int)
                        =~= before.map_values(|p: (usize, &Vec<String>)| p.0 as int).push(
                        i as int,
                    ));
                }
            }
            i += 1;
        }
        out
    }

    /// How many rows pass a search.
    pub fn filtered_count(&self, search_lower: Option<&str>) -> (r: usize)
        ensures
            r == count(self.rows@, row_passes(search_view(search_lower))),
    {
        let ghost keep = row_passes(search_view(search_lower));
        let mut n: usize = 0;
        let mut i: usize = 0;
        while i < self.rows.len()
            invariant
                n <= i <= self.rows@.len(),
                keep == row_passes(search_view(search_lower)),
                n == count(self.rows@.take(i as int), keep),
            decreases self.rows@.len() - i,
        {
            proof {
                lemma_count_step(self.rows@, i as int, keep);
            }
            if passes(&self.rows[i], search_lower) {
                n += 1;
            }
            i += 1;
        }
        n
    }
}

/// As many rows are shown as are counted; with no search or an empty one these
/// are all rows.
pub proof fn law_filter_counts_what_it_shows(rows: Seq<Vec<String>>, search: Option<Seq<char>>)
    ensures
        positions(rows, row_passes(search)).len() == count(rows, row_passes(search)),
        count(rows, row_passes(search)) <= rows.len(),
        search is None || search->0.len() == 0 ==> count(rows, row_passes(search)) == rows.len(),
    decreases rows.len(),
{
    lemma_positions(rows, row_passes(search));
    lemma_count_bound(rows, row_passes(search));
    if rows.len() > 0 {
        law_filter_counts_what_it_shows(rows.drop_last(), search);
    }
}

/// The test whether an object has a name and, where one is asked for, a
/// namespace.
pub open spec fn is_called(name: Seq<char>, namespace: Option<Seq<char>>) -> spec_fn(
    DynamicObject,
) -> bool {
    |o: DynamicObject|
        text_is(o.name, name) && (namespace is None || text_is(o.namespace, namespace->0))
}

/// The position of the first fetched object with a name and, where one is asked
/// for, a namespace.
pub fn cached_object(data: &DynamicResourceData, name: &str, namespace: Option<&str>) -> (r: Option<
    usize,
>)
    ensures
        ({
            let i = first_index(data.objects@, is_called(name@, search_view(namespace)));
            &&& r is Some == (i < data.objects@.len())
            &&& r is Some ==> r->0 == i
        }),
{
    let ghost wanted = is_called(name@, search_view(namespace));
    let mut i: usize = 0;
    while i < data.objects.len()
        invariant
            i <= data.objects@.len(),
            wanted == is_called(name@, search_view(namespace)),
            forall|k: int| 0 <= k < i ==> !wanted(#[trigger] data.objects@[k]),
        decreases data.objects@.len() - i,
    {
        let in_namespace = match namespace {
            Some(ns) => is_text(&data.objects[i].namespace, ns),
            None => true,
        };
        if is_text(&data.objects[i].name, name) && in_namespace {
            proof {
                lemma_first_index(data.objects@, i as int, wanted);
            }
            return Some(i);
        }
        i += 1;
    }
    proof {
        lemma_first_index(data.objects@, i as int, wanted);
    }
    None
}

/// Describes the first fetched object with a name and, where one is asked for,
/// a namespace.
pub fn describe_from_cache(data: &DynamicResourceData, name: &str, namespace: Option<&str>) -> (r:
    Option<String>)
    requires
        first_where(data.objects@, is_called(name@, search_view(namespace))) matches Some(obj)
            ==> obj.wf() && usable(obj.created),
    ensures
        match first_where(data.objects@, is_called(name@, search_view(namespace))) {
            Some(obj) => r is Some && r->0@ == description(
                obj,
                data.resource.api_resource.kind@,
                created_text(obj),
            ),
            None => r is None,
        },
{
    match cached_object(data, name, namespace) {
        Some(i) => Some(
            format_describe(&data.objects[i], data.resource.api_resource.kind.as_str()),
        ),
        None => None,
    }
}

} // verus!
