//! Laws of resources of any kind: what their columns show, how they are found, and
//! how one is described.
use vstd::prelude::*;
use crate::age::{age_column, Timestamp};
use crate::describe::{
    blanks, data_entries, data_part, description, entry_lines, field_part, finalizers_part,
    opt_chars, shown_namespace, indented_lines,
    items_section, members_section, metadata_part, owner_lines, owners_part, pair_lines,
    pairs_part, scalar, section, section_part, shown_value, DynamicObject,
};
use crate::dynamic_resource::{
    at_path, column_value, discovered, is_called, is_ready_condition, is_ready_container, label_key,
    normalized, own_columns, pair_texts, resolved_alias, restarts_sum, row_of, row_passes, serves,
    shows, shows_in_order, AliasModel, ApiResource, DynColumn, ExtractorModel,
};
use crate::json::{has_key, member, member_items, member_text, signed_of, Json};
use crate::list::{
    count, first_where, lemma_count_extremes, lemma_first_where, lemma_first_where_at,
};
use crate::objects::text_or;
use crate::scan::{lemma_char_index, lines};
use crate::sort::{key_less, lemma_sorted_contains, stably_sorted, SortKey};
use crate::text::{
    decimal, has_prefix, has_substring, joined, lower_ascii, occurs_at, signed_decimal, texts,
    trimmed,
};

verus! {

// ---------------------------------------------------------------------------
// Values
// ---------------------------------------------------------------------------

/// The member of an object is the first that has the key; nothing else than an
/// object has members.
pub proof fn law_members_are_found_by_key(
    members: Vec<(String, Json)>,
    line: String,
    key: Seq<char>,
    i: int,
)
    ensures
        0 <= i < members@.len() && members@[i].0@ == key && (forall|k: int|
            0 <= k < i ==> (#[trigger] members@[k]).0@ != key) ==> member(
            Json::Object { members, line },
            key,
        ) == Some(members@[i].1),
        (forall|k: int| 0 <= k < members@.len() ==> (#[trigger] members@[k]).0@ != key) ==> member(
            Json::Object { members, line },
            key,
        ) is None,
        forall|j: Json| !(j is Object) ==> #[trigger] member(j, key) is None,
{
    if 0 <= i < members@.len() && members@[i].0@ == key && (forall|k: int|
        0 <= k < i ==> (#[trigger] members@[k]).0@ != key) {
        lemma_first_where_at(members@, i, has_key(key));
    }
    lemma_first_where(members@, has_key(key));
}

/// A path leads from member to member.
pub proof fn law_paths_lead_from_member_to_member(j: Json, key: Seq<char>, rest: Seq<char>)
    requires
        !key.contains('.'),
    ensures
        at_path(j, key) == member(j, key),
        member(j, key) matches Some(v) ==> at_path(j, key + seq!['.'] + rest) == at_path(v, rest),
        member(j, key) is None ==> at_path(j, key + seq!['.'] + rest) is None,
{
    let path = key + seq!['.'] + rest;
    let n = key.len() as int;
    assert forall|i: int| 0 <= i < n implies #[trigger] key[i] != '.' && path[i] != '.' by {
        assert(key.contains(key[i]));
        assert(path[i] == key[i]);
    }
    assert forall|i: int| 0 <= i < n implies #[trigger] path[i] != '.' by {
        assert(key[i] != '.');
    }
    lemma_char_index(key, '.', n);
    lemma_char_index(path, '.', n);
    assert(path.take(n) =~= key);
    assert(path.skip(n + 1) =~= rest);
}

// ---------------------------------------------------------------------------
// Columns
// ---------------------------------------------------------------------------

/// A number for the name of a kind: by its length and its first character.
spec fn kind_mark(s: Seq<char>) -> int {
    s.len() * 128 + s[0] as int
}

proof fn lemma_kind_marks()
    ensures
        kind_mark("Pod"@) == 464,
        kind_mark("Deployment"@) == 1348,
        kind_mark("StatefulSet"@) == 1491,
        kind_mark("ReplicaSet"@) == 1362,
        kind_mark("Service"@) == 979,
        kind_mark("Node"@) == 590,
        kind_mark("Namespace"@) == 1230,
        kind_mark("Job"@) == 458,
        kind_mark("CronJob"@) == 963,
        kind_mark("Ingress"@) == 969,
        kind_mark("DaemonSet"@) == 1220,
        kind_mark("ConfigMap"@) == 1219,
        kind_mark("Secret"@) == 851,
        kind_mark("PersistentVolume"@) == 2128,
        kind_mark("PersistentVolumeClaim"@) == 2768,
        kind_mark("StorageClass"@) == 1619,
        kind_mark("CustomResourceDefinition"@) == 3139,
{
    reveal_strlit("Pod");
    reveal_strlit("Deployment");
    reveal_strlit("StatefulSet");
    reveal_strlit("ReplicaSet");
    reveal_strlit("Service");
    reveal_strlit("Node");
    reveal_strlit("Namespace");
    reveal_strlit("Job");
    reveal_strlit("CronJob");
    reveal_strlit("Ingress");
    reveal_strlit("DaemonSet");
    reveal_strlit("ConfigMap");
    reveal_strlit("Secret");
    reveal_strlit("PersistentVolume");
    reveal_strlit("PersistentVolumeClaim");
    reveal_strlit("StorageClass");
    reveal_strlit("CustomResourceDefinition");
}

/// The columns that each kind has of its own.
pub proof fn law_columns_of_a_kind(kind: Seq<char>)
    ensures
        kind == "Pod"@ ==> own_columns(kind).len() == 3 && own_columns(kind)[0].header == "READY"@
            && own_columns(kind)[1].header == "STATUS"@ && own_columns(kind)[2].header
            == "RESTARTS"@,
        kind == "Pod"@ ==> own_columns(kind)[0].extractor == ExtractorModel::ContainerReady
            && own_columns(kind)[1].extractor == ExtractorModel::StatusPhase
            && own_columns(kind)[2].extractor == ExtractorModel::Restarts,
        kind == "Deployment"@ || kind == "StatefulSet"@ || kind == "ReplicaSet"@ ==> own_columns(
            kind,
        ).len() == 1 && own_columns(kind)[0].header == "READY"@ && own_columns(kind)[0].extractor
            == ExtractorModel::ReadyReplicas,
        kind == "Service"@ ==> own_columns(kind).len() == 2 && own_columns(kind)[0].header
            == "TYPE"@ && own_columns(kind)[0].extractor == ExtractorModel::SpecType
            && own_columns(kind)[1].header == "CLUSTER-IP"@ && own_columns(kind)[1].extractor
            == ExtractorModel::ClusterIP,
        kind == "Node"@ ==> own_columns(kind).len() == 1 && own_columns(kind)[0].header
            == "STATUS"@ && own_columns(kind)[0].extractor == ExtractorModel::ReadyCondition,
        kind == "Namespace"@ ==> own_columns(kind).len() == 1 && own_columns(kind)[0].header
            == "STATUS"@ && own_columns(kind)[0].extractor == ExtractorModel::StatusPhase,
        kind == "Job"@ || kind == "CronJob"@ ==> own_columns(kind).len() == 1
            && own_columns(kind)[0].header == "STATUS"@ && own_columns(kind)[0].extractor
            == ExtractorModel::JsonPath("status.active"@),
        kind == "Ingress"@ ==> own_columns(kind).len() == 1 && own_columns(kind)[0].header
            == "CLASS"@ && own_columns(kind)[0].extractor == ExtractorModel::JsonPath(
            "spec.ingressClassName"@,
        ),
        kind == "DaemonSet"@ ==> own_columns(kind).len() == 2 && own_columns(kind)[0].header
            == "DESIRED"@ && own_columns(kind)[0].extractor == ExtractorModel::JsonPath(
            "status.desiredNumberScheduled"@,
        ) && own_columns(kind)[1].header == "READY"@ && own_columns(kind)[1].extractor
            == ExtractorModel::JsonPath("status.numberReady"@),
        kind == "ConfigMap"@ || kind == "Secret"@ ==> own_columns(kind).len() == 1
            && own_columns(kind)[0].header == "DATA"@ && own_columns(kind)[0].extractor
            == ExtractorModel::JsonPath("data"@),
        kind == "PersistentVolume"@ ==> own_columns(kind).len() == 2
            && own_columns(kind)[0].extractor == ExtractorModel::JsonPath(
            "spec.capacity.storage"@,
        ) && own_columns(kind)[1].extractor == ExtractorModel::StatusPhase,
        kind == "PersistentVolumeClaim"@ ==> own_columns(kind).len() == 2
            && own_columns(kind)[0].extractor == ExtractorModel::StatusPhase
            && own_columns(kind)[1].extractor == ExtractorModel::JsonPath("spec.volumeName"@),
        kind == "StorageClass"@ ==> own_columns(kind).len() == 1 && own_columns(kind)[0].extractor
            == ExtractorModel::JsonPath("provisioner"@),
        kind == "CustomResourceDefinition"@ ==> own_columns(kind).len() == 2
            && own_columns(kind)[0].extractor == ExtractorModel::JsonPath("spec.group"@)
            && own_columns(kind)[1].extractor == ExtractorModel::JsonPath("spec.scope"@),
{
    lemma_kind_marks();
}

/// A row holds the value of each of its columns.
pub proof fn law_rows_hold_their_columns(
    obj: DynamicObject,
    columns: Seq<DynColumn>,
    now: Timestamp,
    i: int,
)
    requires
        0 <= i < columns.len(),
    ensures
        row_of(obj, columns, now).len() == columns.len(),
        row_of(obj, columns, now)[i] == column_value(obj, columns[i].extractor@, now),
{
}

/// Name, namespace and age are those of the object.
pub proof fn law_columns_of_the_metadata(obj: DynamicObject, now: Timestamp)
    ensures
        obj.name matches Some(s) ==> column_value(obj, ExtractorModel::Name, now) == s@,
        obj.name is None ==> column_value(obj, ExtractorModel::Name, now).len() == 0,
        obj.namespace matches Some(s) ==> column_value(obj, ExtractorModel::Namespace, now) == s@,
        obj.namespace is None ==> column_value(obj, ExtractorModel::Namespace, now).len() == 0,
        column_value(obj, ExtractorModel::Age, now) == age_column(now, obj.created),
{
}

/// What stands under `spec` and `status` is shown, and nothing where it is missing.
pub proof fn law_columns_of_spec_and_status(
    obj: DynamicObject,
    now: Timestamp,
    spec_part: Json,
    status: Json,
)
    requires
        member(obj.data, "spec"@) == Some(spec_part),
        member(obj.data, "status"@) == Some(status),
    ensures
        member_text(status, "phase"@) matches Some(t) ==> column_value(
            obj,
            ExtractorModel::StatusPhase,
            now,
        ) == t,
        member_text(status, "phase"@) is None ==> column_value(
            obj,
            ExtractorModel::StatusPhase,
            now,
        ).len() == 0,
        member_text(spec_part, "type"@) matches Some(t) ==> column_value(
            obj,
            ExtractorModel::SpecType,
            now,
        ) == t,
        member_text(spec_part, "type"@) is None ==> column_value(
            obj,
            ExtractorModel::SpecType,
            now,
        ).len() == 0,
        member_text(spec_part, "clusterIP"@) matches Some(t) ==> column_value(
            obj,
            ExtractorModel::ClusterIP,
            now,
        ) == t,
        member_text(spec_part, "clusterIP"@) is None ==> column_value(
            obj,
            ExtractorModel::ClusterIP,
            now,
        ).len() == 0,
{
}

/// Ready replicas are shown out of those that are asked for, nought where a number
/// is missing.
pub proof fn law_ready_replicas_out_of_all(
    obj: DynamicObject,
    now: Timestamp,
    spec_part: Json,
    status: Json,
)
    requires
        member(obj.data, "spec"@) == Some(spec_part),
        member(obj.data, "status"@) == Some(status),
        member(spec_part, "replicas"@) is Some,
        signed_of(member(spec_part, "replicas"@)->0) is Some,
    ensures
        ({
            let all = signed_of(member(spec_part, "replicas"@)->0)->0;
            let shown = column_value(obj, ExtractorModel::ReadyReplicas, now);
            &&& member(status, "readyReplicas"@) matches Some(v) ==> (signed_of(
                v,
            ) matches Some(ready) ==> shown == signed_decimal(ready as int) + "/"@
                + signed_decimal(all as int))
            &&& member(status, "readyReplicas"@) is None ==> shown == signed_decimal(0) + "/"@
                + signed_decimal(all as int)
        }),
{
}

/// A node is as ready as the first condition says that tells it.
pub proof fn law_ready_condition(
    obj: DynamicObject,
    now: Timestamp,
    conditions: Seq<Json>,
    i: int,
)
    requires
        member(obj.data, "status"@) is Some,
        member_items(member(obj.data, "status"@)->0, "conditions"@) == Some(conditions),
    ensures
        0 <= i < conditions.len() && member_text(conditions[i], "type"@) == Some("Ready"@) && (
        forall|k: int|
            0 <= k < i ==> member_text(#[trigger] conditions[k], "type"@) != Some("Ready"@)) ==> (
        member_text(conditions[i], "status"@) matches Some(t) ==> column_value(
            obj,
            ExtractorModel::ReadyCondition,
            now,
        ) == t),
        (forall|k: int|
            0 <= k < conditions.len() ==> member_text(#[trigger] conditions[k], "type"@) != Some(
                "Ready"@,
            )) ==> column_value(obj, ExtractorModel::ReadyCondition, now).len() == 0,
{
    if 0 <= i < conditions.len() && member_text(conditions[i], "type"@) == Some("Ready"@) && (
    forall|k: int|
        0 <= k < i ==> member_text(#[trigger] conditions[k], "type"@) != Some("Ready"@)) {
        lemma_first_where_at(conditions, i, is_ready_condition());
    }
    lemma_first_where(conditions, is_ready_condition());
}

/// A status more adds its restarts; the restarts of a pod are those of all statuses,
/// and the ready containers are counted out of all.
pub proof fn law_restarts_and_ready_containers(
    obj: DynamicObject,
    now: Timestamp,
    statuses: Seq<Json>,
    n: int,
)
    requires
        member(obj.data, "status"@) is Some,
        member_items(member(obj.data, "status"@)->0, "containerStatuses"@) == Some(statuses),
        0 <= n < statuses.len(),
    ensures
        column_value(obj, ExtractorModel::Restarts, now) == signed_decimal(
            restarts_sum(statuses, statuses.len() as int),
        ),
        restarts_sum(statuses, 0) == 0,
        member(statuses[n], "restartCount"@) matches Some(v) ==> (signed_of(
            v,
        ) matches Some(r) ==> restarts_sum(statuses, n + 1) == restarts_sum(statuses, n) + r),
        member(statuses[n], "restartCount"@) is None ==> restarts_sum(statuses, n + 1)
            == restarts_sum(statuses, n),
        (forall|i: int|
            0 <= i < statuses.len() ==> member(#[trigger] statuses[i], "ready"@) == Some(
                Json::Bool(true),
            )) ==> column_value(obj, ExtractorModel::ContainerReady, now) == decimal(
            statuses.len(),
        ) + "/"@ + decimal(statuses.len()),
        (forall|i: int|
            0 <= i < statuses.len() ==> member(#[trigger] statuses[i], "ready"@) != Some(
                Json::Bool(true),
            )) ==> column_value(obj, ExtractorModel::ContainerReady, now) == decimal(0) + "/"@
            + decimal(statuses.len()),
        column_value(obj, ExtractorModel::ContainerReady, now) == decimal(
            count(statuses, |s: Json| member(s, "ready"@) == Some(Json::Bool(true))),
        ) + "/"@ + decimal(statuses.len()),
{
    let keep = is_ready_container();
    let ready = |s: Json| member(s, "ready"@) == Some(Json::Bool(true));
    assert forall|i: int| 0 <= i < statuses.len() implies keep(#[trigger] statuses[i]) == ready(
        statuses[i],
    ) by {
        if keep(statuses[i]) {
            assert(member(statuses[i], "ready"@)->0 == Json::Bool(true));
        }
    }
    crate::list::lemma_count_same(statuses, keep, ready);
    lemma_count_extremes(statuses, keep);
    if forall|i: int|
        0 <= i < statuses.len() ==> member(#[trigger] statuses[i], "ready"@) == Some(
            Json::Bool(true),
        ) {
        assert forall|i: int| 0 <= i < statuses.len() implies keep(#[trigger] statuses[i]) by {
            assert(ready(statuses[i]));
        }
    }
    if forall|i: int|
        0 <= i < statuses.len() ==> member(#[trigger] statuses[i], "ready"@) != Some(
            Json::Bool(true),
        ) {
        assert forall|i: int| 0 <= i < statuses.len() implies !keep(#[trigger] statuses[i]) by {
            assert(!ready(statuses[i]));
        }
    }
}

/// What a path leads to is shown on a line, and nothing where it leads nowhere.
pub proof fn law_columns_by_path(obj: DynamicObject, path: Seq<char>, now: Timestamp)
    ensures
        at_path(obj.data, path) is None ==> column_value(
            obj,
            ExtractorModel::JsonPath(path),
            now,
        ).len() == 0,
        at_path(obj.data, path) matches Some(Json::Text(s)) ==> column_value(
            obj,
            ExtractorModel::JsonPath(path),
            now,
        ) == s@,
        at_path(obj.data, path) matches Some(Json::Number(n)) ==> column_value(
            obj,
            ExtractorModel::JsonPath(path),
            now,
        ) == n.text@,
        at_path(obj.data, path) matches Some(Json::Bool(b)) ==> column_value(
            obj,
            ExtractorModel::JsonPath(path),
            now,
        ) == if b {
            "true"@
        } else {
            "false"@
        },
{
    reveal_strlit("");
}

/// Of the labels the first three are shown, each as its key and its value.
pub proof fn law_three_labels_are_shown(
    obj: DynamicObject,
    now: Timestamp,
    labels: Vec<(String, String)>,
)
    requires
        obj.labels == Some(labels),
    ensures
        ({
            let shown = column_value(obj, ExtractorModel::Labels, now);
            let one = labels@[0].0@ + "="@ + labels@[0].1@;
            let two = labels@[1].0@ + "="@ + labels@[1].1@;
            let three = labels@[2].0@ + "="@ + labels@[2].1@;
            &&& labels@.len() == 0 ==> shown.len() == 0
            &&& labels@.len() == 1 ==> shown == one
            &&& labels@.len() == 2 ==> shown == one + ","@ + two
            &&& labels@.len() >= 3 ==> shown == one + ","@ + two + ","@ + three
        }),
{
    reveal_with_fuel(pair_texts, 4);
    reveal_with_fuel(joined, 4);
    let v = labels@;
    if v.len() >= 2 {
        let two = pair_texts(v, 2);
        assert(two.len() == 2);
        assert(two.drop_last() =~= pair_texts(v, 1));
        if v.len() >= 3 {
            assert(pair_texts(v, 3).drop_last() =~= two);
        }
    }
}

/// The cluster of an object is what its label says.
pub proof fn law_cluster_is_read_from_its_label(
    obj: DynamicObject,
    now: Timestamp,
    labels: Vec<(String, String)>,
    i: int,
)
    requires
        obj.labels == Some(labels),
    ensures
        0 <= i < labels@.len() && labels@[i].0@ == "scalex.io/cluster"@ && (forall|k: int|
            0 <= k < i ==> (#[trigger] labels@[k]).0@ != "scalex.io/cluster"@) ==> column_value(
            obj,
            ExtractorModel::ClusterLabel,
            now,
        ) == labels@[i].1@,
        (forall|k: int|
            0 <= k < labels@.len() ==> (#[trigger] labels@[k]).0@ != "scalex.io/cluster"@)
            ==> column_value(obj, ExtractorModel::ClusterLabel, now).len() == 0,
{
    let wanted = label_key("scalex.io/cluster"@);
    if 0 <= i < labels@.len() && labels@[i].0@ == "scalex.io/cluster"@ && (forall|k: int|
        0 <= k < i ==> (#[trigger] labels@[k]).0@ != "scalex.io/cluster"@) {
        lemma_first_where_at(labels@, i, wanted);
    }
    lemma_first_where(labels@, wanted);
}

// ---------------------------------------------------------------------------
// Finding resources
// ---------------------------------------------------------------------------

/// A name is looked up without regard to case, and without blanks around it.
pub proof fn law_names_are_looked_up_in_lower_case(input: Seq<char>)
    ensures
        normalized(input) == trimmed(lower_ascii(input)),
        normalized(lower_ascii(input)) == normalized(input),
{
    assert forall|c: char| crate::text::lower_char(#[trigger] crate::text::lower_char(c))
        == crate::text::lower_char(c) by {
    }
    assert(lower_ascii(lower_ascii(input)) =~= lower_ascii(input));
}

/// A resource that a name stands for is asked for under its group and version, by
/// its plural, and is shown as its kind in the plural.
pub proof fn law_resource_of_a_name(a: AliasModel, input: Seq<char>)
    ensures
        ({
            let r = resolved_alias(a, input);
            &&& r.api_resource.group == a.group && r.api_resource.version == a.version
            &&& r.api_resource.kind == a.kind && r.api_resource.plural == a.plural
            &&& a.group.len() == 0 ==> r.api_resource.api_version == a.version
            &&& a.group.len() > 0 ==> r.api_resource.api_version == a.group + "/"@ + a.version
            &&& r.namespaced == a.namespaced
            &&& r.display_name == a.kind + "s"@
            &&& r.command_alias == input
            &&& r.columns.len() == own_columns(a.kind).len() + if a.namespaced {
                3int
            } else {
                2
            }
        }),
{
}

/// Of the resources that the cluster serves the first is taken whose plural or kind
/// is the name, or whose kind begins with it.
pub proof fn law_first_served_resource_is_taken(
    served: Seq<(ApiResource, bool)>,
    name: Seq<char>,
    i: int,
)
    ensures
        0 <= i < served.len() && answers_to(served[i].0, name) && (forall|k: int|
            0 <= k < i ==> !answers_to((#[trigger] served[k]).0, name)) ==> {
            let r = discovered(served, name);
            &&& r is Some
            &&& r->0.api_resource == served[i].0@
            &&& r->0.namespaced == served[i].1
            &&& r->0.display_name == served[i].0.kind@
            &&& r->0.command_alias == name
        },
        (forall|k: int| 0 <= k < served.len() ==> !answers_to((#[trigger] served[k]).0, name))
            ==> discovered(served, name) is None,
{
    let wanted = serves(name);
    if 0 <= i < served.len() && answers_to(served[i].0, name) && (forall|k: int|
        0 <= k < i ==> !answers_to((#[trigger] served[k]).0, name)) {
        assert forall|k: int| 0 <= k < i implies !wanted(#[trigger] served[k]) by {
            assert(!answers_to(served[k].0, name));
            lemma_answers(served[k], name);
        }
        lemma_answers(served[i], name);
        lemma_first_where_at(served, i, wanted);
    }
    lemma_first_where(served, wanted);
    if let Some(r) = first_where(served, wanted) {
        let k = choose|k: int|
            0 <= k < served.len() && #[trigger] served[k] == r && wanted(r) && forall|j: int|
                0 <= j < k ==> !wanted(#[trigger] served[j]);
        lemma_answers(served[k], name);
        assert(answers_to(served[k].0, name));
    }
}

proof fn lemma_answers(r: (ApiResource, bool), name: Seq<char>)
    ensures
        serves(name)(r) <==> answers_to(r.0, name),
{
    let kind = lower_ascii(r.0.kind@);
    if kind.len() >= name.len() {
        assert(kind.subrange(0, name.len() as int) =~= kind.take(name.len() as int));
    }
    if kind == name {
        assert(kind.take(name.len() as int) =~= name);
    }
}

/// Whether a resource answers to a name in lower case.
pub open spec fn answers_to(r: ApiResource, name: Seq<char>) -> bool {
    ||| lower_ascii(r.plural@) == name
    ||| lower_ascii(r.kind@).len() >= name.len() && lower_ascii(r.kind@).take(name.len() as int)
        == name
}

/// A row is shown without a search, or if one of its cells holds what is searched,
/// without regard to case.
pub proof fn law_rows_that_are_shown(row: Vec<String>, search: Option<Seq<char>>)
    ensures
        search is None ==> row_passes(search)(row),
        search matches Some(s) ==> (row_passes(search)(row) <==> s.len() == 0 || exists|i: int|
            0 <= i < row@.len() && has_substring(lower_ascii((#[trigger] row@[i])@), s)),
{
}

/// An object is found by its name, and by its namespace where one is given.
pub proof fn law_objects_are_found_by_name(
    o: DynamicObject,
    name: Seq<char>,
    namespace: Option<Seq<char>>,
)
    ensures
        is_called(name, namespace)(o) <==> (o.name matches Some(s) && s@ == name) && (
        namespace is None || (o.namespace matches Some(ns) && Some(ns@) == namespace)),
{
}

/// There is a row for each object, and the rows stand in the order of their first
/// cells.
pub proof fn law_a_row_for_each_object(
    rows: Seq<Vec<String>>,
    objects: Seq<DynamicObject>,
    columns: Seq<DynColumn>,
    now: Timestamp,
    i: int,
)
    requires
        shows(rows, objects, columns, now),
        0 <= i < objects.len(),
    ensures
        rows.len() == objects.len(),
        exists|k: int|
            0 <= k < rows.len() && texts((#[trigger] rows[k])@) == row_of(objects[i], columns, now),
        forall|a: int, b: int|
            0 <= a < b < rows.len() ==> !key_less(
                (#[trigger] rows[b]).sort_key(),
                (#[trigger] rows[a]).sort_key(),
            ),
{
    let unsorted = choose|unsorted: Seq<Vec<String>>| #[trigger]
        shows_in_order(unsorted, objects, columns, now) && stably_sorted(unsorted, rows);
    lemma_sorted_contains(unsorted, rows, unsorted[i]);
    assert(unsorted.contains(unsorted[i]));
    let k = choose|k: int| 0 <= k < rows.len() && rows[k] == unsorted[i];
    assert(texts(rows[k]@) == row_of(objects[i], columns, now));
}

// ---------------------------------------------------------------------------
// Descriptions
// ---------------------------------------------------------------------------

/// What stands between two texts stands in all of them together.
proof fn lemma_between(before: Seq<char>, x: Seq<char>, behind: Seq<char>)
    ensures
        has_substring(before + x + behind, x),
{
    let all = before + x + behind;
    assert(all.subrange(before.len() as int, (before.len() + x.len()) as int) =~= x);
    assert(occurs_at(all, x, before.len() as int));
}

/// What stands in a text stands in what holds the text.
proof fn lemma_within(before: Seq<char>, s: Seq<char>, behind: Seq<char>, x: Seq<char>)
    requires
        has_substring(s, x),
    ensures
        has_substring(before + s + behind, x),
{
    let at = choose|at: int| #[trigger] occurs_at(s, x, at);
    let all = before + s + behind;
    assert(all.subrange(before.len() + at, before.len() + at + x.len()) =~= s.subrange(
        at,
        at + x.len(),
    ));
    assert(occurs_at(all, x, before.len() + at));
}

/// What stands in one of two texts stands in both together.
proof fn lemma_in_sum(a: Seq<char>, b: Seq<char>, x: Seq<char>)
    ensures
        has_substring(a, x) || has_substring(b, x) ==> has_substring(a + b, x),
        has_substring(x, x),
{
    lemma_between(Seq::empty(), x, Seq::empty());
    assert(Seq::empty() + x + Seq::empty() =~= x);
    if has_substring(a, x) {
        lemma_within(Seq::empty(), a, b, x);
        assert(Seq::empty() + a + b =~= a + b);
    }
    if has_substring(b, x) {
        lemma_within(a, b, Seq::empty(), x);
        assert(a + b + Seq::empty() =~= a + b);
    }
}

/// What stands in one of three texts stands in all together.
proof fn lemma_in_parts(a: Seq<char>, b: Seq<char>, c: Seq<char>, x: Seq<char>)
    ensures
        has_substring(a, x) || has_substring(b, x) || has_substring(c, x) ==> has_substring(
            a + b + c,
            x,
        ),
{
    lemma_in_sum(a, b, x);
    lemma_in_sum(a + b, c, x);
}

/// What a text begins with, what goes on behind it begins with.
proof fn lemma_begins(a: Seq<char>, b: Seq<char>, x: Seq<char>)
    requires
        has_prefix(a, x),
    ensures
        has_prefix(a + b, x),
{
    assert((a + b).subrange(0, x.len() as int) =~= a.subrange(0, x.len() as int));
}

/// A text ends with what is added last.
proof fn lemma_ends(a: Seq<char>, b: Seq<char>)
    ensures
        (a + b).skip((a + b).len() - b.len()) == b,
{
    assert((a + b).skip((a + b).len() - b.len()) =~= b);
}

proof fn lemma_metadata_begins(
    obj: DynamicObject,
    kind: Seq<char>,
    created: Option<Seq<char>>,
    head: Seq<char>,
)
    requires
        head == "Name:         "@ + text_or(obj.name, "<unknown>"@) + "\n"@,
    ensures
        has_prefix(metadata_part(obj, kind, created), head),
{
    let p1 = field_part("Namespace:    "@, shown_namespace(obj));
    let p2 = field_part("Kind:         "@, Some(kind));
    let p3 = field_part("Created:      "@, created);
    let p4 = field_part("UID:          "@, opt_chars(obj.uid));
    let p5 = field_part("Version:      "@, opt_chars(obj.resource_version));
    let p6 = pairs_part(obj.labels, "Labels:\n"@, "Labels:       <none>\n"@, false);
    let p7 = pairs_part(obj.annotations, "Annotations:\n"@, "Annotations:  <none>\n"@, true);
    let p8 = owners_part(obj.owners);
    let p9 = finalizers_part(obj.finalizers);
    assert(head.subrange(0, head.len() as int) =~= head);
    lemma_begins(head, p1, head);
    lemma_begins(head + p1, p2, head);
    lemma_begins(head + p1 + p2, p3, head);
    lemma_begins(head + p1 + p2 + p3, p4, head);
    lemma_begins(head + p1 + p2 + p3 + p4, p5, head);
    lemma_begins(head + p1 + p2 + p3 + p4 + p5, p6, head);
    lemma_begins(head + p1 + p2 + p3 + p4 + p5 + p6, p7, head);
    lemma_begins(head + p1 + p2 + p3 + p4 + p5 + p6 + p7, p8, head);
    lemma_begins(head + p1 + p2 + p3 + p4 + p5 + p6 + p7 + p8, p9, head);
    assert(metadata_part(obj, kind, created) == head + p1 + p2 + p3 + p4 + p5 + p6 + p7 + p8 + p9);
}

/// A description begins with the name and ends by pointing at the events.
pub proof fn law_descriptions_begin_with_the_name(
    obj: DynamicObject,
    kind: Seq<char>,
    created: Option<Seq<char>>,
)
    ensures
        obj.name matches Some(name) ==> has_prefix(
            description(obj, kind, created),
            "Name:         "@ + name@ + "\n"@,
        ),
        obj.name is None ==> has_prefix(
            description(obj, kind, created),
            "Name:         "@ + "<unknown>"@ + "\n"@,
        ),
        ({
            let d = description(obj, kind, created);
            let end = "Events:       <use :events to view cluster events>\n"@;
            d.len() >= end.len() && d.skip(d.len() - end.len()) == end
        }),
{
    let name = match obj.name {
        Some(s) => s@,
        None => "<unknown>"@,
    };
    let head = "Name:         "@ + name + "\n"@;
    lemma_metadata_begins(obj, kind, created, head);
    let m = metadata_part(obj, kind, created);
    let a = section_part(obj.data, "spec"@, "Spec:\n"@);
    let b = section_part(obj.data, "status"@, "Status:\n"@);
    let c = data_part(obj.data);
    let end = "Events:       <use :events to view cluster events>\n"@;
    lemma_begins(m, "\n"@, head);
    lemma_begins(m + "\n"@, a, head);
    lemma_begins(m + "\n"@ + a, b, head);
    lemma_begins(m + "\n"@ + a + b, c, head);
    lemma_begins(m + "\n"@ + a + b + c, end, head);
    lemma_ends(m + "\n"@ + a + b + c, end);
}

/// The parts of what is said of an object's metadata stand in its description.
proof fn lemma_metadata_parts(
    obj: DynamicObject,
    kind: Seq<char>,
    created: Option<Seq<char>>,
    x: Seq<char>,
)
    ensures
        has_substring(
            field_part(
                "Namespace:    "@,
                shown_namespace(obj),
            ),
            x,
        ) ==> has_substring(description(obj, kind, created), x),
        has_substring(field_part("Kind:         "@, Some(kind)), x)
            ==> has_substring(description(obj, kind, created), x),
        has_substring(field_part("Created:      "@, created), x)
            ==> has_substring(description(obj, kind, created), x),
        has_substring(
            field_part(
                "UID:          "@,
                opt_chars(obj.uid),
            ),
            x,
        ) ==> has_substring(description(obj, kind, created), x),
        has_substring(
            field_part(
                "Version:      "@,
                opt_chars(obj.resource_version),
            ),
            x,
        ) ==> has_substring(description(obj, kind, created), x),
        has_substring(
            pairs_part(obj.labels, "Labels:\n"@, "Labels:       <none>\n"@, false),
            x,
        ) ==> has_substring(description(obj, kind, created), x),
        has_substring(
            pairs_part(obj.annotations, "Annotations:\n"@, "Annotations:  <none>\n"@, true),
            x,
        ) ==> has_substring(description(obj, kind, created), x),
        has_substring(owners_part(obj.owners), x) ==> has_substring(
            description(obj, kind, created),
            x,
        ),
        has_substring(finalizers_part(obj.finalizers), x) ==> has_substring(
            description(obj, kind, created),
            x,
        ),
        has_substring(section_part(obj.data, "spec"@, "Spec:\n"@), x) ==> has_substring(
            description(obj, kind, created),
            x,
        ),
        has_substring(section_part(obj.data, "status"@, "Status:\n"@), x) ==> has_substring(
            description(obj, kind, created),
            x,
        ),
        has_substring(data_part(obj.data), x) ==> has_substring(
            description(obj, kind, created),
            x,
        ),
{
    let name = field_part(
        "Name:         "@,
        Some(text_or(obj.name, "<unknown>"@)),
    );
    let p1 = field_part(
        "Namespace:    "@,
        shown_namespace(obj),
    );
    let p2 = field_part("Kind:         "@, Some(kind));
    let p3 = field_part("Created:      "@, created);
    let p4 = field_part("UID:          "@, opt_chars(obj.uid));
    let p5 = field_part(
        "Version:      "@,
        opt_chars(obj.resource_version),
    );
    let p6 = pairs_part(obj.labels, "Labels:\n"@, "Labels:       <none>\n"@, false);
    let p7 = pairs_part(obj.annotations, "Annotations:\n"@, "Annotations:  <none>\n"@, true);
    let p8 = owners_part(obj.owners);
    let p9 = finalizers_part(obj.finalizers);
    let m = metadata_part(obj, kind, created);
    lemma_in_sum(name, p1, x);
    lemma_in_sum(name + p1, p2, x);
    lemma_in_sum(name + p1 + p2, p3, x);
    lemma_in_sum(name + p1 + p2 + p3, p4, x);
    lemma_in_sum(name + p1 + p2 + p3 + p4, p5, x);
    lemma_in_sum(name + p1 + p2 + p3 + p4 + p5, p6, x);
    lemma_in_sum(name + p1 + p2 + p3 + p4 + p5 + p6, p7, x);
    lemma_in_sum(name + p1 + p2 + p3 + p4 + p5 + p6 + p7, p8, x);
    lemma_in_sum(name + p1 + p2 + p3 + p4 + p5 + p6 + p7 + p8, p9, x);
    assert(m == name + p1 + p2 + p3 + p4 + p5 + p6 + p7 + p8 + p9);
    let a = section_part(obj.data, "spec"@, "Spec:\n"@);
    let b = section_part(obj.data, "status"@, "Status:\n"@);
    let c = data_part(obj.data);
    let end = "Events:       <use :events to view cluster events>\n"@;
    lemma_in_sum(m, "\n"@, x);
    lemma_in_sum(m + "\n"@, a, x);
    lemma_in_sum(m + "\n"@ + a, b, x);
    lemma_in_sum(m + "\n"@ + a + b, c, x);
    lemma_in_sum(m + "\n"@ + a + b + c, end, x);
}

/// A description tells the kind, and the namespace, the time of creation, the
/// identity and the version where they are known.
pub proof fn law_descriptions_tell_the_metadata(
    obj: DynamicObject,
    kind: Seq<char>,
    created: Option<Seq<char>>,
)
    ensures
        ({
            let d = description(obj, kind, created);
            &&& has_substring(d, "Kind:         "@ + kind + "\n"@)
            &&& obj.namespace matches Some(ns) ==> (ns@.len() > 0 ==> has_substring(
                d,
                "Namespace:    "@ + ns@ + "\n"@,
            ))
            &&& created matches Some(t) ==> has_substring(d, "Created:      "@ + t + "\n"@)
            &&& obj.uid matches Some(s) ==> has_substring(d, "UID:          "@ + s@ + "\n"@)
            &&& obj.resource_version matches Some(s) ==> has_substring(
                d,
                "Version:      "@ + s@ + "\n"@,
            )
        }),
{
    let x2 = "Kind:         "@ + kind + "\n"@;
    lemma_in_sum(x2, x2, x2);
    lemma_metadata_parts(obj, kind, created, x2);
    if let Some(ns) = obj.namespace {
        let x = "Namespace:    "@ + ns@ + "\n"@;
        lemma_in_sum(x, x, x);
        lemma_metadata_parts(obj, kind, created, x);
    }
    if let Some(t) = created {
        let x = "Created:      "@ + t + "\n"@;
        lemma_in_sum(x, x, x);
        lemma_metadata_parts(obj, kind, created, x);
    }
    if let Some(s) = obj.uid {
        let x = "UID:          "@ + s@ + "\n"@;
        lemma_in_sum(x, x, x);
        lemma_metadata_parts(obj, kind, created, x);
    }
    if let Some(s) = obj.resource_version {
        let x = "Version:      "@ + s@ + "\n"@;
        lemma_in_sum(x, x, x);
        lemma_metadata_parts(obj, kind, created, x);
    }
}

proof fn lemma_pair_lines(pairs: Seq<(String, String)>, n: nat, cut: bool, i: int)
    requires
        0 <= i < n <= pairs.len(),
    ensures
        !cut ==> has_substring(
            pair_lines(pairs, n, cut),
            "  "@ + pairs[i].0@ + "="@ + pairs[i].1@ + "\n"@,
        ),
        cut ==> has_substring(
            pair_lines(pairs, n, cut),
            "  "@ + pairs[i].0@ + "="@ + shown_value(pairs[i].1@) + "\n"@,
        ),
    decreases n,
{
    let value = |k: int|
        if cut {
            shown_value(pairs[k].1@)
        } else {
            pairs[k].1@
        };
    let x = "  "@ + pairs[i].0@ + "="@ + value(i) + "\n"@;
    let before = pair_lines(pairs, (n - 1) as nat, cut);
    let last = "  "@ + pairs[n - 1].0@ + "="@ + value(n - 1) + "\n"@;
    assert(pair_lines(pairs, n, cut) =~= before + last);
    if i < n - 1 {
        lemma_pair_lines(pairs, (n - 1) as nat, cut, i);
    }
    lemma_in_sum(before, last, x);
}

/// A description lists every label with its value, and every annotation, of which
/// one of 120 bytes or less is shown whole.
pub proof fn law_descriptions_list_labels_and_annotations(
    obj: DynamicObject,
    kind: Seq<char>,
    created: Option<Seq<char>>,
    i: int,
)
    ensures
        ({
            let d = description(obj, kind, created);
            &&& obj.labels matches Some(v) ==> (0 <= i < v@.len() ==> has_substring(
                d,
                "  "@ + v@[i].0@ + "="@ + v@[i].1@ + "\n"@,
            ))
            &&& obj.annotations matches Some(v) ==> (0 <= i < v@.len() && vstd::utf8::encode_utf8(
                v@[i].1@,
            ).len() as usize <= 120 ==> has_substring(
                d,
                "  "@ + v@[i].0@ + "="@ + v@[i].1@ + "\n"@,
            ))
            &&& obj.labels is None ==> has_substring(d, "Labels:       <none>\n"@)
            &&& obj.annotations is None ==> has_substring(d, "Annotations:  <none>\n"@)
        }),
{
    if let Some(v) = obj.labels {
        if 0 <= i < v@.len() {
            let x = "  "@ + v@[i].0@ + "="@ + v@[i].1@ + "\n"@;
            lemma_pair_lines(v@, v@.len(), false, i);
            lemma_in_sum("Labels:\n"@, pair_lines(v@, v@.len(), false), x);
            lemma_metadata_parts(obj, kind, created, x);
        }
    } else {
        let x = "Labels:       <none>\n"@;
        lemma_in_sum(x, x, x);
        lemma_metadata_parts(obj, kind, created, x);
    }
    if let Some(v) = obj.annotations {
        if 0 <= i < v@.len() {
            let x = "  "@ + v@[i].0@ + "="@ + v@[i].1@ + "\n"@;
            lemma_pair_lines(v@, v@.len(), true, i);
            lemma_in_sum("Annotations:\n"@, pair_lines(v@, v@.len(), true), x);
            lemma_metadata_parts(obj, kind, created, x);
        }
    } else {
        let x = "Annotations:  <none>\n"@;
        lemma_in_sum(x, x, x);
        lemma_metadata_parts(obj, kind, created, x);
    }
}

proof fn lemma_owner_lines(owners: Seq<(String, String)>, n: nat, i: int)
    requires
        0 <= i < n <= owners.len(),
    ensures
        has_substring(
            owner_lines(owners, n),
            "  "@ + owners[i].0@ + " / "@ + owners[i].1@ + "\n"@,
        ),
    decreases n,
{
    let x = "  "@ + owners[i].0@ + " / "@ + owners[i].1@ + "\n"@;
    let before = owner_lines(owners, (n - 1) as nat);
    let last = "  "@ + owners[n - 1].0@ + " / "@ + owners[n - 1].1@ + "\n"@;
    assert(owner_lines(owners, n) =~= before + last);
    if i < n - 1 {
        lemma_owner_lines(owners, (n - 1) as nat, i);
    }
    lemma_in_sum(before, last, x);
}

proof fn lemma_indented_lines(ls: Seq<Seq<char>>, n: nat, indent: Seq<char>, i: int)
    requires
        0 <= i < n <= ls.len(),
    ensures
        has_substring(indented_lines(ls, n, indent), indent + ls[i] + "\n"@),
    decreases n,
{
    let x = indent + ls[i] + "\n"@;
    let before = indented_lines(ls, (n - 1) as nat, indent);
    let last = indent + ls[n - 1] + "\n"@;
    assert(indented_lines(ls, n, indent) =~= before + last);
    if i < n - 1 {
        lemma_indented_lines(ls, (n - 1) as nat, indent, i);
    }
    lemma_in_sum(before, last, x);
}

/// A description lists the owners of an object and what has to be done before it
/// goes.
pub proof fn law_descriptions_list_owners_and_finalizers(
    obj: DynamicObject,
    kind: Seq<char>,
    created: Option<Seq<char>>,
    i: int,
)
    ensures
        ({
            let d = description(obj, kind, created);
            &&& obj.owners matches Some(v) ==> (0 <= i < v@.len() ==> has_substring(
                d,
                "  "@ + v@[i].0@ + " / "@ + v@[i].1@ + "\n"@,
            ))
            &&& obj.finalizers matches Some(v) ==> (0 <= i < v@.len() ==> has_substring(
                d,
                "  "@ + v@[i]@ + "\n"@,
            ))
        }),
{
    if let Some(v) = obj.owners {
        if 0 <= i < v@.len() {
            let x = "  "@ + v@[i].0@ + " / "@ + v@[i].1@ + "\n"@;
            lemma_owner_lines(v@, v@.len(), i);
            lemma_in_sum("Controlled By:\n"@, owner_lines(v@, v@.len()), x);
            lemma_metadata_parts(obj, kind, created, x);
        }
    }
    if let Some(v) = obj.finalizers {
        if 0 <= i < v@.len() {
            let x = "  "@ + v@[i]@ + "\n"@;
            lemma_indented_lines(texts(v@), v@.len(), "  "@, i);
            assert(texts(v@)[i] == v@[i]@);
            lemma_in_sum("Finalizers:\n"@, indented_lines(texts(v@), v@.len(), "  "@), x);
            lemma_metadata_parts(obj, kind, created, x);
        }
    }
}

/// The spec and the status of an object stand in its description.
pub proof fn law_descriptions_show_spec_and_status(
    obj: DynamicObject,
    kind: Seq<char>,
    created: Option<Seq<char>>,
)
    ensures
        member(obj.data, "spec"@) matches Some(v) ==> has_substring(
            description(obj, kind, created),
            "Spec:\n"@ + section(v, 2),
        ),
        member(obj.data, "status"@) matches Some(v) ==> has_substring(
            description(obj, kind, created),
            "Status:\n"@ + section(v, 2),
        ),
{
    if let Some(v) = member(obj.data, "spec"@) {
        let x = "Spec:\n"@ + section(v, 2);
        lemma_in_sum(x, "\n"@, x);
        lemma_metadata_parts(obj, kind, created, x);
    }
    if let Some(v) = member(obj.data, "status"@) {
        let x = "Status:\n"@ + section(v, 2);
        lemma_in_sum(x, "\n"@, x);
        lemma_metadata_parts(obj, kind, created, x);
    }
}

/// Each member of an object stands in its section under its key: a plain value on
/// the same line, another object below it and further in.
pub proof fn law_sections_show_each_member(
    members: Vec<(String, Json)>,
    line: String,
    indent: nat,
    i: int,
)
    requires
        0 <= i < members@.len(),
    ensures
        ({
            let s = section(Json::Object { members, line }, indent);
            let key = members@[i].0@;
            match members@[i].1 {
                Json::Object { members: inner, line: inner_line } => has_substring(
                    s,
                    blanks(indent) + key + ":\n"@ + section(members@[i].1, indent + 2),
                ),
                Json::Array { items, line: inner_line } => has_substring(
                    s,
                    blanks(indent) + key + ":\n"@ + section(members@[i].1, indent),
                ),
                Json::Null => has_substring(s, blanks(indent) + key + ":  "@ + "<none>"@ + "\n"@),
                Json::Text(t) => has_substring(s, blanks(indent) + key + ":  "@ + t@ + "\n"@),
                Json::Number(n) => has_substring(
                    s,
                    blanks(indent) + key + ":  "@ + n.text@ + "\n"@,
                ),
                Json::Bool(b) => has_substring(
                    s,
                    blanks(indent) + key + ":  "@ + (if b {
                        "true"@
                    } else {
                        "false"@
                    }) + "\n"@,
                ),
            }
        }),
{
    lemma_member_shown(members, members@.len(), indent, i);
}

proof fn lemma_member_shown(members: Vec<(String, Json)>, n: nat, indent: nat, i: int)
    requires
        0 <= i < n <= members@.len(),
    ensures
        ({
            let s = members_section(members, n, indent);
            let key = members@[i].0@;
            match members@[i].1 {
                Json::Object { members: inner, line } => has_substring(
                    s,
                    blanks(indent) + key + ":\n"@ + section(members@[i].1, indent + 2),
                ),
                Json::Array { items, line } => has_substring(
                    s,
                    blanks(indent) + key + ":\n"@ + section(members@[i].1, indent),
                ),
                _ => has_substring(
                    s,
                    blanks(indent) + key + ":  "@ + scalar(members@[i].1) + "\n"@,
                ),
            }
        }),
    decreases n,
{
    let key = members@[i].0@;
    let x = match members@[i].1 {
        Json::Object { members: inner, line } => blanks(indent) + key + ":\n"@ + section(
            members@[i].1,
            indent + 2,
        ),
        Json::Array { items, line } => blanks(indent) + key + ":\n"@ + section(
            members@[i].1,
            indent,
        ),
        _ => blanks(indent) + key + ":  "@ + scalar(members@[i].1) + "\n"@,
    };
    let before = members_section(members, (n - 1) as nat, indent);
    if i < n - 1 {
        lemma_member_shown(members, (n - 1) as nat, indent, i);
        let all = members_section(members, n, indent);
        let last = all.skip(before.len() as int);
        assert(all =~= before + last);
        lemma_in_sum(before, last, x);
    } else {
        assert(members_section(members, n, indent) =~= before + x);
        lemma_in_sum(before, x, x);
    }
}

/// Each item of a list stands in its section: a plain one behind a dash, an object
/// behind its number and further in.
pub proof fn law_sections_show_each_item(items: Vec<Json>, line: String, indent: nat, i: int)
    requires
        0 <= i < items@.len(),
    ensures
        ({
            let s = section(Json::Array { items, line }, indent);
            match items@[i] {
                Json::Object { members, line: inner_line } => has_substring(
                    s,
                    blanks(indent) + "- ["@ + decimal(i as nat) + "]\n"@ + section(
                        items@[i],
                        indent + 4,
                    ),
                ),
                Json::Text(t) => has_substring(s, blanks(indent) + "- "@ + t@ + "\n"@),
                Json::Number(n) => has_substring(s, blanks(indent) + "- "@ + n.text@ + "\n"@),
                Json::Null => has_substring(s, blanks(indent) + "- "@ + "<none>"@ + "\n"@),
                _ => true,
            }
        }),
{
    lemma_item_shown(items, items@.len(), indent, i);
}

proof fn lemma_item_shown(items: Vec<Json>, n: nat, indent: nat, i: int)
    requires
        0 <= i < n <= items@.len(),
    ensures
        ({
            let s = items_section(items, n, indent);
            match items@[i] {
                Json::Object { members, line } => has_substring(
                    s,
                    blanks(indent) + "- ["@ + decimal(i as nat) + "]\n"@ + section(
                        items@[i],
                        indent + 4,
                    ),
                ),
                _ => has_substring(s, blanks(indent) + "- "@ + scalar(items@[i]) + "\n"@),
            }
        }),
    decreases n,
{
    let x = match items@[i] {
        Json::Object { members, line } => blanks(indent) + "- ["@ + decimal(i as nat) + "]\n"@
            + section(items@[i], indent + 4),
        _ => blanks(indent) + "- "@ + scalar(items@[i]) + "\n"@,
    };
    let before = items_section(items, (n - 1) as nat, indent);
    if i < n - 1 {
        lemma_item_shown(items, (n - 1) as nat, indent, i);
        let all = items_section(items, n, indent);
        let last = all.skip(before.len() as int);
        assert(all =~= before + last);
        lemma_in_sum(before, last, x);
    } else {
        assert(items_section(items, n, indent) =~= before + x);
        lemma_in_sum(before, x, x);
    }
}

/// The data of an object stand in its description: each entry under its key, its
/// lines below and further in; where there are no entries it says so.
pub proof fn law_descriptions_show_the_data(
    obj: DynamicObject,
    kind: Seq<char>,
    created: Option<Seq<char>>,
    members: Vec<(String, Json)>,
    line: String,
    i: int,
)
    requires
        member(obj.data, "data"@) == Some(Json::Object { members, line }),
    ensures
        members@.len() == 0 ==> has_substring(
            description(obj, kind, created),
            "Data:\n"@ + "  <empty>\n"@,
        ),
        0 <= i < members@.len() ==> has_substring(
            description(obj, kind, created),
            "  "@ + members@[i].0@ + ":\n"@ + entry_lines(members@[i].1),
        ),
{
    if members@.len() == 0 {
        let x = "Data:\n"@ + "  <empty>\n"@;
        lemma_in_sum(x, "\n"@, x);
        lemma_metadata_parts(obj, kind, created, x);
    }
    if 0 <= i < members@.len() {
        let x = "  "@ + members@[i].0@ + ":\n"@ + entry_lines(members@[i].1);
        let all = data_entries(members@, members@.len());
        lemma_entry_shown(members@, members@.len(), i);
        lemma_in_parts("Data:\n"@, all, "\n"@, x);
        lemma_metadata_parts(obj, kind, created, x);
    }
}

proof fn lemma_entry_shown(members: Seq<(String, Json)>, n: nat, i: int)
    requires
        0 <= i < n <= members.len(),
    ensures
        has_substring(
            data_entries(members, n),
            "  "@ + members[i].0@ + ":\n"@ + entry_lines(members[i].1),
        ),
    decreases n,
{
    let x = "  "@ + members[i].0@ + ":\n"@ + entry_lines(members[i].1);
    let before = data_entries(members, (n - 1) as nat);
    let last = "  "@ + members[n - 1].0@ + ":\n"@ + entry_lines(members[n - 1].1);
    assert(data_entries(members, n) =~= before + last);
    if i < n - 1 {
        lemma_entry_shown(members, (n - 1) as nat, i);
    }
    lemma_in_sum(before, last, x);
}

/// An entry that is a text shows each of its lines.
pub proof fn law_entries_show_each_line(s: String, i: int)
    requires
        0 <= i < lines(s@).len(),
    ensures
        has_substring(entry_lines(Json::Text(s)), "    "@ + lines(s@)[i] + "\n"@),
{
    lemma_indented_lines(lines(s@), lines(s@).len(), "    "@, i);
}

/// A value of more than 120 bytes is cut, and marked so; another is shown whole.
pub proof fn law_long_values_are_marked(v: Seq<char>)
    ensures
        vstd::utf8::encode_utf8(v).len() as usize <= 120 ==> shown_value(v) == v,
        vstd::utf8::encode_utf8(v).len() as usize > 120 ==> {
            let s = shown_value(v);
            s.len() >= 3 && s.skip(s.len() - 3) == "..."@
        },
{
    reveal_strlit("...");
    if vstd::utf8::encode_utf8(v).len() as usize > 120 {
        let s = shown_value(v);
        assert(s.skip(s.len() - 3) =~= "..."@);
    }
}

} // verus!
