//! The resources that a command can name, and how a typed name finds them.
use vstd::prelude::*;
use crate::filter::{lemma_best_score, row_score, score_row};
use crate::list::{lemma_positions, lemma_positions_step, lemma_take_all, positions};
use crate::text::{copy_texts, lower_ascii, texts};
use crate::dynamic_resource::lower_text;

verus! {

broadcast use lemma_take_all;

/// A resource that a command can name.
#[derive(Debug)]
pub struct ResourceEntry {
    /// The plural, by which the resource is shown.
    pub resource: String,
    pub singular_name: String,
    pub short_names: Vec<String>,
    /// The API group; the core group has no name.
    pub api_group: String,
    pub namespaced: bool,
}

/// A resource as a value.
#[verifier::ext_equal]
pub struct ResourceModel {
    pub resource: Seq<char>,
    pub singular_name: Seq<char>,
    pub short_names: Seq<Seq<char>>,
    pub api_group: Seq<char>,
    pub namespaced: bool,
}

impl View for ResourceEntry {
    type V = ResourceModel;

    open spec fn view(&self) -> ResourceModel {
        ResourceModel {
            resource: self.resource@,
            singular_name: self.singular_name@,
            short_names: texts(self.short_names@),
            api_group: self.api_group@,
            namespaced: self.namespaced,
        }
    }
}

/// Resources as values.
pub open spec fn resources_model(s: Seq<ResourceEntry>) -> Seq<ResourceModel> {
    s.map_values(|e: ResourceEntry| e@)
}

/// The resources that a command can name.
#[derive(Debug)]
pub struct ResourceRegistry {
    pub entries: Vec<ResourceEntry>,
}

/// A resource that a typed name finds.
#[derive(Debug, Clone, Copy, PartialEq, Eq, Structural)]
pub struct FuzzyMatch {
    pub entry_idx: usize,
    pub score: u32,
}

// ---------------------------------------------------------------------------
// Finding
// ---------------------------------------------------------------------------

/// The names of a resource.
pub open spec fn names_of(e: ResourceEntry) -> Seq<String> {
    seq![e.resource, e.singular_name] + e.short_names@
}

/// How well a resource matches a name in lower case: 100 where it is one of its
/// names, 80 where one of them begins with it, 50 where one holds it, else 0.
pub open spec fn entry_score(e: ResourceEntry, query: Seq<char>) -> int {
    row_score(names_of(e), query)
}

/// The test whether a resource matches a name with a score.
pub open spec fn has_score(query: Seq<char>, score: int) -> spec_fn(ResourceEntry) -> bool {
    |e: ResourceEntry| entry_score(e, query) == score
}

/// The match with a score at a position.
pub open spec fn match_at(score: int) -> spec_fn(int) -> FuzzyMatch {
    |i: int| FuzzyMatch { entry_idx: i as usize, score: score as u32 }
}

/// The resources that match a name with a score, in the order of the registry.
pub open spec fn scored(entries: Seq<ResourceEntry>, query: Seq<char>, score: int) -> Seq<
    FuzzyMatch,
> {
    positions(entries, has_score(query, score)).map_values(match_at(score))
}

/// The resources that match a name, the best first, and among equals in the
/// order of the registry.
pub open spec fn ranked(entries: Seq<ResourceEntry>, query: Seq<char>) -> Seq<FuzzyMatch> {
    scored(entries, query, 100) + scored(entries, query, 80) + scored(entries, query, 50)
}

/// At most a number of the first values.
pub open spec fn at_most_first<T>(s: Seq<T>, max: int) -> Seq<T> {
    if s.len() <= max {
        s
    } else {
        s.take(max)
    }
}

/// The resources that a typed name finds: at most `max`, the best first. An
/// empty name finds none.
pub open spec fn found(entries: Seq<ResourceEntry>, query: Seq<char>, max: int) -> Seq<FuzzyMatch> {
    if query.len() == 0 {
        Seq::empty()
    } else {
        at_most_first(ranked(entries, lower_ascii(query)), max)
    }
}

/// How well a resource matches a name.
fn score_entry(e: &ResourceEntry, query: &str) -> (r: i32)
    ensures
        r == entry_score(*e, query@),
{
    let mut names: Vec<String> = Vec::new();
    names.push(e.resource.clone());
    names.push(e.singular_name.clone());
    let mut shorts = copy_texts(&e.short_names);
    names.append(&mut shorts);
    proof {
        assert(names@ =~= names_of(*e));
    }
    score_row(&names, query)
}

/// Adds the resources that match a name with a score.
fn add_scored(
    out: &mut Vec<FuzzyMatch>,
    entries: &Vec<ResourceEntry>,
    query: &str,
    score: i32,
)
    requires
        score > 0,
    ensures
        final(out)@ == old(out)@ + scored(entries@, query@, score as int),
{
    let ghost before = out@;
    let ghost keep = has_score(query@, score as int);
    let ghost show = match_at(score as int);
    let mut i: usize = 0;
    proof {
        assert(before + positions(entries@.take(0), keep).map_values(show) =~= before);
    }
    while i < entries.len()
        invariant
            i <= entries@.len(),
            score > 0,
            keep == has_score(query@, score as int),
            show == match_at(score as int),
            out@ == before + positions(entries@.take(i as int), keep).map_values(show),
        decreases entries@.len() - i,
    {
        let ghost so_far = positions(entries@.take(i as int), keep);
        proof {
            lemma_positions_step(entries@, i as int, keep);
        }
        if score_entry(&entries[i], query) == score {
            let found = FuzzyMatch { entry_idx: i, score: score as u32 };
            out.push(found);
            proof {
                assert(so_far.push(i as int).map_values(show) =~= so_far.map_values(show).push(
                    found,
                ));
                assert((before + so_far.map_values(show)).push(found) =~= before
                    + so_far.map_values(show).push(found));
            }
        }
        i += 1;
    }
}

/// The resources that a typed name finds: at most `max`, the best first.
pub fn fuzzy_match(registry: &ResourceRegistry, query: &str, max: usize) -> (r: Vec<FuzzyMatch>)
    ensures
        r@ == found(registry.entries@, query@, max as int),
{
    let mut out: Vec<FuzzyMatch> = Vec::new();
    if query.is_empty() {
        return out;
    }
    let wanted = lower_text(query);
    add_scored(&mut out, &registry.entries, wanted.as_str(), 100);
    add_scored(&mut out, &registry.entries, wanted.as_str(), 80);
    add_scored(&mut out, &registry.entries, wanted.as_str(), 50);
    proof {
        assert(out@ =~= ranked(registry.entries@, lower_ascii(query@)));
    }
    if out.len() > max {
        out.truncate(max);
    }
    out
}

/// Every match is of a resource of the registry, which has that score.
pub proof fn law_matches_are_entries(
    entries: Seq<ResourceEntry>,
    query: Seq<char>,
    max: int,
    i: int,
)
    requires
        entries.len() <= usize::MAX,
        0 <= max,
        0 <= i < found(entries, query, max).len(),
    ensures
        ({
            let m = found(entries, query, max)[i];
            &&& m.entry_idx < entries.len()
            &&& m.score == entry_score(entries[m.entry_idx as int], lower_ascii(query))
            &&& m.score > 0
        }),
{
    let q = lower_ascii(query);
    let all = ranked(entries, q);
    assert(found(entries, query, max)[i] == all[i]);
    lemma_positions(entries, has_score(q, 100));
    lemma_positions(entries, has_score(q, 80));
    lemma_positions(entries, has_score(q, 50));
    let a = positions(entries, has_score(q, 100));
    let b = positions(entries, has_score(q, 80));
    let c = positions(entries, has_score(q, 50));
    if i < a.len() {
        assert(all[i] == match_at(100)(a[i]));
    } else if i < a.len() + b.len() {
        assert(all[i] == match_at(80)(b[i - a.len()]));
    } else {
        assert(all[i] == match_at(50)(c[i - a.len() - b.len()]));
    }
}

/// A resource that matches at all is found, if there is room for all that
/// match.
pub proof fn law_every_match_found(entries: Seq<ResourceEntry>, query: Seq<char>, k: int)
    requires
        entries.len() <= usize::MAX,
        query.len() > 0,
        0 <= k < entries.len(),
        entry_score(entries[k], lower_ascii(query)) > 0,
    ensures
        found(entries, query, ranked(entries, lower_ascii(query)).len() as int).contains(
            FuzzyMatch {
                entry_idx: k as usize,
                score: entry_score(entries[k], lower_ascii(query)) as u32,
            },
        ),
{
    let q = lower_ascii(query);
    let score = entry_score(entries[k], q);
    lemma_best_score(names_of(entries[k]), names_of(entries[k]).len() as int, q);
    let all = ranked(entries, q);
    let ps = positions(entries, has_score(q, score));
    lemma_holds_position(entries, has_score(q, score), k);
    let j = choose|j: int| 0 <= j < ps.len() && ps[j] == k;
    let before: int = if score == 100 {
        0
    } else if score == 80 {
        scored(entries, q, 100).len() as int
    } else {
        (scored(entries, q, 100).len() + scored(entries, q, 80).len()) as int
    };
    assert(scored(entries, q, score)[j] == match_at(score)(k));
    assert(all[before + j] == scored(entries, q, score)[j]);
}

/// The position of a value that satisfies a test is among the positions.
proof fn lemma_holds_position(
    s: Seq<ResourceEntry>,
    keep: spec_fn(ResourceEntry) -> bool,
    k: int,
)
    requires
        0 <= k < s.len(),
        keep(s[k]),
    ensures
        exists|j: int| 0 <= j < positions(s, keep).len() && positions(s, keep)[j] == k,
    decreases s.len(),
{
    let rest = s.drop_last();
    let ps = positions(s, keep);
    if k == s.len() - 1 {
        assert(ps[ps.len() - 1] == k);
    } else {
        lemma_holds_position(rest, keep, k);
        let old_ps = positions(rest, keep);
        let j = choose|j: int| 0 <= j < old_ps.len() && old_ps[j] == k;
        assert(ps[j] == k);
    }
}

// ---------------------------------------------------------------------------
// Built-in resources
// ---------------------------------------------------------------------------

/// A resource.
pub open spec fn resource(
    plural: Seq<char>,
    singular: Seq<char>,
    short_names: Seq<Seq<char>>,
    api_group: Seq<char>,
    namespaced: bool,
) -> ResourceModel {
    ResourceModel { resource: plural, singular_name: singular, short_names, api_group, namespaced }
}

/// The built-in resources of the core group.
pub open spec fn core_resources() -> Seq<ResourceModel> {
    seq![
        resource("pods"@, "pod"@, seq!["po"@], ""@, true),
        resource("services"@, "service"@, seq!["svc"@], ""@, true),
        resource("nodes"@, "node"@, seq!["no"@], ""@, false),
        resource("namespaces"@, "namespace"@, seq!["ns"@], ""@, false),
        resource("configmaps"@, "configmap"@, seq!["cm"@], ""@, true),
        resource("secrets"@, "secret"@, Seq::empty(), ""@, true),
        resource("serviceaccounts"@, "serviceaccount"@, seq!["sa"@], ""@, true),
        resource("events"@, "event"@, seq!["ev"@], ""@, true),
        resource("persistentvolumes"@, "persistentvolume"@, seq!["pv"@], ""@, false),
        resource("persistentvolumeclaims"@, "persistentvolumeclaim"@, seq!["pvc"@], ""@, true),
        resource("endpoints"@, "endpoint"@, seq!["ep"@], ""@, true),
        resource("replicationcontrollers"@, "replicationcontroller"@, seq!["rc"@], ""@, true),
    ]
}

/// The built-in resources of the workload groups.
pub open spec fn workload_resources() -> Seq<ResourceModel> {
    seq![
        resource("deployments"@, "deployment"@, seq!["deploy"@, "dep"@, "dp"@], "apps"@, true),
        resource("daemonsets"@, "daemonset"@, seq!["ds"@], "apps"@, true),
        resource("statefulsets"@, "statefulset"@, seq!["sts"@], "apps"@, true),
        resource("replicasets"@, "replicaset"@, seq!["rs"@], "apps"@, true),
        resource("jobs"@, "job"@, Seq::empty(), "batch"@, true),
        resource("cronjobs"@, "cronjob"@, seq!["cj"@], "batch"@, true),
        resource(
            "horizontalpodautoscalers"@,
            "horizontalpodautoscaler"@,
            seq!["hpa"@],
            "autoscaling"@,
            true,
        ),
    ]
}

/// The built-in resources of the other groups.
pub open spec fn other_resources() -> Seq<ResourceModel> {
    seq![
        resource("ingresses"@, "ingress"@, seq!["ing"@], "networking.k8s.io"@, true),
        resource("networkpolicies"@, "networkpolicy"@, seq!["netpol"@], "networking.k8s.io"@, true),
        resource("clusterroles"@, "clusterrole"@, seq!["cr"@], "rbac.authorization.k8s.io"@, false),
        resource(
            "clusterrolebindings"@,
            "clusterrolebinding"@,
            seq!["crb"@],
            "rbac.authorization.k8s.io"@,
            false,
        ),
        resource("roles"@, "role"@, Seq::empty(), "rbac.authorization.k8s.io"@, true),
        resource("rolebindings"@, "rolebinding"@, seq!["rb"@], "rbac.authorization.k8s.io"@, true),
        resource("storageclasses"@, "storageclass"@, seq!["sc"@], "storage.k8s.io"@, false),
        resource(
            "customresourcedefinitions"@,
            "customresourcedefinition"@,
            seq!["crd"@],
            "apiextensions.k8s.io"@,
            false,
        ),
    ]
}

/// Adds a resource.
fn register(
    v: &mut Vec<ResourceEntry>,
    plural: &str,
    singular: &str,
    short_names: Vec<String>,
    api_group: &str,
    namespaced: bool,
)
    ensures
        resources_model(final(v)@) == resources_model(old(v)@).push(
            resource(plural@, singular@, texts(short_names@), api_group@, namespaced),
        ),
{
    let ghost before = v@;
    let e = ResourceEntry {
        resource: plural.to_owned(),
        singular_name: singular.to_owned(),
        short_names,
        api_group: api_group.to_owned(),
        namespaced,
    };
    v.push(e);
    proof {
        assert(resources_model(v@) =~= resources_model(before).push(e@));
    }
}

/// No short names.
fn no_names() -> (r: Vec<String>)
    ensures
        texts(r@) == Seq::<Seq<char>>::empty(),
{
    let v: Vec<String> = Vec::new();
    proof {
        assert(texts(v@) =~= Seq::empty());
    }
    v
}

/// One short name.
fn one_name(a: &str) -> (r: Vec<String>)
    ensures
        texts(r@) == seq![a@],
{
    let mut v: Vec<String> = Vec::new();
    v.push(a.to_owned());
    proof {
        assert(texts(v@) =~= seq![a@]);
    }
    v
}

/// Three short names.
fn three_names(a: &str, b: &str, c: &str) -> (r: Vec<String>)
    ensures
        texts(r@) == seq![a@, b@, c@],
{
    let mut v: Vec<String> = Vec::new();
    v.push(a.to_owned());
    v.push(b.to_owned());
    v.push(c.to_owned());
    proof {
        assert(texts(v@) =~= seq![a@, b@, c@]);
    }
    v
}

/// Adds the built-in resources of the core group.
fn add_core(v: &mut Vec<ResourceEntry>)
    ensures
        resources_model(final(v)@) == resources_model(old(v)@) + core_resources(),
{
    let ghost before = resources_model(v@);
    register(v, "pods", "pod", one_name("po"), "", true);
    register(v, "services", "service", one_name("svc"), "", true);
    register(v, "nodes", "node", one_name("no"), "", false);
    register(v, "namespaces", "namespace", one_name("ns"), "", false);
    register(v, "configmaps", "configmap", one_name("cm"), "", true);
    register(v, "secrets", "secret", no_names(), "", true);
    register(v, "serviceaccounts", "serviceaccount", one_name("sa"), "", true);
    register(v, "events", "event", one_name("ev"), "", true);
    register(v, "persistentvolumes", "persistentvolume", one_name("pv"), "", false);
    register(v, "persistentvolumeclaims", "persistentvolumeclaim", one_name("pvc"), "", true);
    register(v, "endpoints", "endpoint", one_name("ep"), "", true);
    register(v, "replicationcontrollers", "replicationcontroller", one_name("rc"), "", true);
    proof {
        assert(resources_model(v@) =~= before + core_resources());
    }
}

/// Adds the built-in resources of the workload groups.
fn add_workload(v: &mut Vec<ResourceEntry>)
    ensures
        resources_model(final(v)@) == resources_model(old(v)@) + workload_resources(),
{
    let ghost before = resources_model(v@);
    register(v, "deployments", "deployment", three_names("deploy", "dep", "dp"), "apps", true);
    register(v, "daemonsets", "daemonset", one_name("ds"), "apps", true);
    register(v, "statefulsets", "statefulset", one_name("sts"), "apps", true);
    register(v, "replicasets", "replicaset", one_name("rs"), "apps", true);
    register(v, "jobs", "job", no_names(), "batch", true);
    register(v, "cronjobs", "cronjob", one_name("cj"), "batch", true);
    register(
        v,
        "horizontalpodautoscalers",
        "horizontalpodautoscaler",
        one_name("hpa"),
        "autoscaling",
        true,
    );
    proof {
        assert(resources_model(v@) =~= before + workload_resources());
    }
}

/// Adds the built-in resources of the other groups.
fn add_other(v: &mut Vec<ResourceEntry>)
    ensures
        resources_model(final(v)@) == resources_model(old(v)@) + other_resources(),
{
    let ghost before = resources_model(v@);
    register(v, "ingresses", "ingress", one_name("ing"), "networking.k8s.io", true);
    register(v, "networkpolicies", "networkpolicy", one_name("netpol"), "networking.k8s.io", true);
    register(v, "clusterroles", "clusterrole", one_name("cr"), "rbac.authorization.k8s.io", false);
    register(
        v,
        "clusterrolebindings",
        "clusterrolebinding",
        one_name("crb"),
        "rbac.authorization.k8s.io",
        false,
    );
    register(v, "roles", "role", no_names(), "rbac.authorization.k8s.io", true);
    register(v, "rolebindings", "rolebinding", one_name("rb"), "rbac.authorization.k8s.io", true);
    register(v, "storageclasses", "storageclass", one_name("sc"), "storage.k8s.io", false);
    register(
        v,
        "customresourcedefinitions",
        "customresourcedefinition",
        one_name("crd"),
        "apiextensions.k8s.io",
        false,
    );
    proof {
        assert(resources_model(v@) =~= before + other_resources());
    }
}

/// The built-in resources.
pub open spec fn builtin_resources() -> Seq<ResourceModel> {
    core_resources() + workload_resources() + other_resources()
}

impl ResourceRegistry {
    /// The registry of the built-in resources.
    pub fn with_builtin_resources() -> (r: Self)
        ensures
            resources_model(r.entries@) == builtin_resources(),
    {
        let mut entries: Vec<ResourceEntry> = Vec::new();
        add_core(&mut entries);
        add_workload(&mut entries);
        add_other(&mut entries);
        proof {
            assert(resources_model(entries@) =~= builtin_resources());
        }
        ResourceRegistry { entries }
    }

    /// The resources of the registry.
    pub fn entries(&self) -> (r: &Vec<ResourceEntry>)
        ensures
            *r == self.entries,
    {
        &self.entries
    }
}

} // verus!
