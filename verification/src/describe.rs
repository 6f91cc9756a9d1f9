//! The description of an object, laid out for reading.
use vstd::prelude::*;
use vstd::utf8::{decode_utf8, encode_utf8, is_char_boundary};
use crate::age::{format_utc, usable, utc_text, Timestamp};
use crate::json::{line_of, member, Json};
use crate::objects::text_or;
use crate::scan::{lines, split_lines};
use crate::sort::text_less;
use crate::text::{decimal, decimal_usize, texts};

verus! {

/// An object of any kind.
#[derive(Debug)]
pub struct DynamicObject {
    pub name: Option<String>,
    pub namespace: Option<String>,
    pub created: Option<Timestamp>,
    pub uid: Option<String>,
    pub resource_version: Option<String>,
    /// Labels in ascending order of their keys.
    pub labels: Option<Vec<(String, String)>>,
    /// Annotations in ascending order of their keys.
    pub annotations: Option<Vec<(String, String)>>,
    /// Kind and name of each owner.
    pub owners: Option<Vec<(String, String)>>,
    pub finalizers: Option<Vec<String>>,
    /// Everything but the metadata.
    pub data: Json,
}

/// Whether the keys of pairs stand in ascending order.
pub open spec fn keys_ascend(pairs: Option<Vec<(String, String)>>) -> bool {
    pairs is Some ==> forall|i: int, j: int|
        0 <= i < j < pairs->0@.len() ==> text_less(
            (#[trigger] pairs->0@[i]).0@,
            (#[trigger] pairs->0@[j]).0@,
        )
}

/// Whether a text that is too long to be shown can be cut.
pub open spec fn can_be_cut(v: Seq<char>) -> bool {
    encode_utf8(v).len() as usize > 120 ==> is_char_boundary(encode_utf8(v), 117)
}

/// Whether every value that is too long to be shown can be cut.
pub open spec fn values_can_be_cut(pairs: Option<Vec<(String, String)>>) -> bool {
    pairs is Some ==> forall|i: int|
        0 <= i < pairs->0@.len() ==> can_be_cut((#[trigger] pairs->0@[i]).1@)
}

impl DynamicObject {
    /// Whether labels and annotations are in order, and long annotations can be
    /// cut between two characters.
    pub open spec fn wf(self) -> bool {
        &&& keys_ascend(self.labels)
        &&& keys_ascend(self.annotations)
        &&& values_can_be_cut(self.annotations)
    }
}

// ---------------------------------------------------------------------------
// JSON sections
// ---------------------------------------------------------------------------

/// A number of blanks.
pub open spec fn blanks(n: nat) -> Seq<char> {
    Seq::new(n, |i: int| ' ')
}

/// A scalar as it is shown.
pub open spec fn scalar(j: Json) -> Seq<char> {
    line_of(j, "<none>"@)
}

/// Writes a scalar as it is shown.
pub fn format_scalar(value: &Json) -> (r: String)
    ensures
        r@ == scalar(*value),
{
    value.to_line("<none>")
}

/// A value as indented lines.
pub open spec fn section(v: Json, indent: nat) -> Seq<char>
    decreases v, 0nat,
{
    match v {
        Json::Object { members, line } => members_section(members, members@.len(), indent),
        Json::Array { items, line } => items_section(items, items@.len(), indent),
        _ => blanks(indent) + scalar(v) + "\n"@,
    }
}

/// The first members of an object as indented lines.
pub open spec fn members_section(members: Vec<(String, Json)>, n: nat, indent: nat) -> Seq<char>
    decreases members, n,
{
    if n == 0 || n > members@.len() {
        Seq::empty()
    } else {
        let key = members@[n - 1].0@;
        let value = members@[n - 1].1;
        members_section(members, (n - 1) as nat, indent) + (match value {
            Json::Object { members: inner, line } => blanks(indent) + key + ":\n"@ + section(
                value,
                indent + 2,
            ),
            Json::Array { items, line } => blanks(indent) + key + ":\n"@ + items_section(
                items,
                items@.len(),
                indent,
            ),
            _ => blanks(indent) + key + ":  "@ + scalar(value) + "\n"@,
        })
    }
}

/// The first items of an array as indented lines.
pub open spec fn items_section(items: Vec<Json>, n: nat, indent: nat) -> Seq<char>
    decreases items, n,
{
    if n == 0 || n > items@.len() {
        Seq::empty()
    } else {
        let item = items@[n - 1];
        items_section(items, (n - 1) as nat, indent) + (match item {
            Json::Object { members, line } => blanks(indent) + "- ["@ + decimal((n - 1) as nat)
                + "]\n"@ + section(item, indent + 4),
            _ => blanks(indent) + "- "@ + scalar(item) + "\n"@,
        })
    }
}

/// A number of blanks, two or four more.
proof fn lemma_blanks_add(n: nat, k: nat)
    ensures
        blanks(n) + blanks(k) == blanks(n + k),
{
    assert(blanks(n) + blanks(k) =~= blanks(n + k));
}

/// Two texts one after the other.
fn joined_text(a: &str, b: &str) -> (r: String)
    ensures
        r@ == a@ + b@,
{
    let mut s = a.to_owned();
    s.append(b);
    s
}

/// A number of blanks.
fn make_blanks(n: usize) -> (r: String)
    ensures
        r@ == blanks(n as nat),
{
    let mut s = String::new();
    let mut i: usize = 0;
    proof {
        assert(s@ =~= blanks(0));
    }
    while i < n
        invariant
            i <= n,
            s@ == blanks(i as nat),
        decreases n - i,
    {
        s.push(' ');
        i += 1;
        proof {
            assert(s@ =~= blanks(i as nat));
        }
    }
    s
}

/// Adds a value as indented lines; `prefix` is the indentation.
pub fn format_json_section(out: &mut String, value: &Json, prefix: &str)
    requires
        prefix@ == blanks(prefix@.len()),
    ensures
        final(out)@ == old(out)@ + section(*value, prefix@.len()),
    decreases value, 0nat,
{
    match value {
        Json::Object { members, line: _ } => {
            format_members(out, members, prefix);
        },
        Json::Array { items, line: _ } => {
            format_items(out, items, prefix);
        },
        _ => {
            out.append(prefix);
            out.append(format_scalar(value).as_str());
            out.append("\n");
            proof {
                assert(out@ =~= old(out)@ + section(*value, prefix@.len()));
            }
        },
    }
}

fn format_members(out: &mut String, members: &Vec<(String, Json)>, prefix: &str)
    requires
        prefix@ == blanks(prefix@.len()),
    ensures
        final(out)@ == old(out)@ + members_section(*members, members@.len(), prefix@.len()),
    decreases members, members@.len() + 1,
{
    let ghost indent = prefix@.len();
    let deeper = joined_text(prefix, make_blanks(2).as_str());
    proof {
        lemma_blanks_add(indent, 2);
        assert(deeper@.len() == indent + 2);
    }
    let mut i: usize = 0;
    proof {
        assert(out@ =~= old(out)@ + members_section(*members, 0, indent));
    }
    while i < members.len()
        invariant
            i <= members@.len(),
            indent == prefix@.len(),
            prefix@ == blanks(indent),
            deeper@ == blanks(indent + 2),
            deeper@.len() == indent + 2,
            out@ == old(out)@ + members_section(*members, i as nat, indent),
        decreases members@.len() - i,
    {
        let ghost before = out@;
        let value = &members[i].1;
        out.append(prefix);
        out.append(members[i].0.as_str());
        proof {
            assert(decreases_to!(*members => members@[i as int]));
            assert(decreases_to!(members@[i as int] => members@[i as int].1));
        }
        match value {
            Json::Object { members: _, line: _ } => {
                out.append(":\n");
                format_json_section(out, value, deeper.as_str());
            },
            Json::Array { items, line: _ } => {
                out.append(":\n");
                format_items(out, items, prefix);
            },
            _ => {
                out.append(":  ");
                out.append(format_scalar(value).as_str());
                out.append("\n");
            },
        }
        i += 1;
        proof {
            assert(out@ =~= old(out)@ + members_section(*members, i as nat, indent));
        }
    }
}

fn format_items(out: &mut String, items: &Vec<Json>, prefix: &str)
    requires
        prefix@ == blanks(prefix@.len()),
    ensures
        final(out)@ == old(out)@ + items_section(*items, items@.len(), prefix@.len()),
    decreases items, items@.len() + 1,
{
    let ghost indent = prefix@.len();
    let deeper = joined_text(prefix, make_blanks(4).as_str());
    proof {
        lemma_blanks_add(indent, 4);
        assert(deeper@.len() == indent + 4);
    }
    let mut i: usize = 0;
    proof {
        assert(out@ =~= old(out)@ + items_section(*items, 0, indent));
    }
    while i < items.len()
        invariant
            i <= items@.len(),
            indent == prefix@.len(),
            prefix@ == blanks(indent),
            deeper@ == blanks(indent + 4),
            deeper@.len() == indent + 4,
            out@ == old(out)@ + items_section(*items, i as nat, indent),
        decreases items@.len() - i,
    {
        let item = &items[i];
        out.append(prefix);
        proof {
            assert(decreases_to!(*items => items@[i as int]));
        }
        if item.is_object() {
            out.append("- [");
            out.append(decimal_usize(i).as_str());
            out.append("]\n");
            format_json_section(out, item, deeper.as_str());
        } else {
            out.append("- ");
            out.append(format_scalar(item).as_str());
            out.append("\n");
        }
        i += 1;
        proof {
            assert(out@ =~= old(out)@ + items_section(*items, i as nat, indent));
        }
    }
}

// ---------------------------------------------------------------------------
// The parts of a description
// ---------------------------------------------------------------------------

/// A line with a heading and a value, where the value is there.
pub open spec fn field_part(heading: Seq<char>, value: Option<Seq<char>>) -> Seq<char> {
    match value {
        Some(v) => heading + v + "\n"@,
        None => Seq::empty(),
    }
}

/// A text that may be missing, as a value.
pub open spec fn opt_chars(t: Option<String>) -> Option<Seq<char>> {
    match t {
        Some(s) => Some(s@),
        None => None,
    }
}

/// An annotation's value as it is shown: a long one is cut.
pub open spec fn shown_value(v: Seq<char>) -> Seq<char> {
    if encode_utf8(v).len() as usize > 120 {
        decode_utf8(encode_utf8(v).subrange(0, 117)) + "..."@
    } else {
        v
    }
}

/// The first pairs as indented lines; long values are cut if so asked.
pub open spec fn pair_lines(pairs: Seq<(String, String)>, n: nat, cut: bool) -> Seq<char>
    decreases n,
{
    if n == 0 || n > pairs.len() {
        Seq::empty()
    } else {
        let p = pairs[n - 1];
        pair_lines(pairs, (n - 1) as nat, cut) + "  "@ + p.0@ + "="@ + (if cut {
            shown_value(p.1@)
        } else {
            p.1@
        }) + "\n"@
    }
}

/// Labels or annotations: the pairs under a heading, or a note that there are
/// none.
pub open spec fn pairs_part(
    pairs: Option<Vec<(String, String)>>,
    heading: Seq<char>,
    none: Seq<char>,
    cut: bool,
) -> Seq<char> {
    if pairs is Some && pairs->0@.len() > 0 {
        heading + pair_lines(pairs->0@, pairs->0@.len(), cut)
    } else {
        none
    }
}

/// The first owners as indented lines.
pub open spec fn owner_lines(owners: Seq<(String, String)>, n: nat) -> Seq<char>
    decreases n,
{
    if n == 0 || n > owners.len() {
        Seq::empty()
    } else {
        owner_lines(owners, (n - 1) as nat) + "  "@ + owners[n - 1].0@ + " / "@ + owners[n - 1].1@
            + "\n"@
    }
}

/// The owners under a heading, where there are any.
pub open spec fn owners_part(owners: Option<Vec<(String, String)>>) -> Seq<char> {
    if owners is Some && owners->0@.len() > 0 {
        "Controlled By:\n"@ + owner_lines(owners->0@, owners->0@.len())
    } else {
        Seq::empty()
    }
}

/// The first texts as lines with an indentation.
pub open spec fn indented_lines(ls: Seq<Seq<char>>, n: nat, indent: Seq<char>) -> Seq<char>
    decreases n,
{
    if n == 0 || n > ls.len() {
        Seq::empty()
    } else {
        indented_lines(ls, (n - 1) as nat, indent) + indent + ls[n - 1] + "\n"@
    }
}

/// The finalizers under a heading, where there are any.
pub open spec fn finalizers_part(finalizers: Option<Vec<String>>) -> Seq<char> {
    if finalizers is Some && finalizers->0@.len() > 0 {
        "Finalizers:\n"@ + indented_lines(
            texts(finalizers->0@),
            finalizers->0@.len(),
            "  "@,
        )
    } else {
        Seq::empty()
    }
}

/// A member of the object's data under a heading, where it is there.
pub open spec fn section_part(data: Json, key: Seq<char>, heading: Seq<char>) -> Seq<char> {
    match member(data, key) {
        Some(v) => heading + section(v, 2) + "\n"@,
        None => Seq::empty(),
    }
}

/// What a key of a config map holds: the lines of a text, or another value on
/// one line.
pub open spec fn entry_lines(v: Json) -> Seq<char> {
    match v {
        Json::Text(s) => indented_lines(lines(s@), lines(s@).len(), "    "@),
        _ => "    "@ + line_of(v, "null"@) + "\n"@,
    }
}

/// The first keys of a config map with what they hold.
pub open spec fn data_entries(members: Seq<(String, Json)>, n: nat) -> Seq<char>
    decreases n,
{
    if n == 0 || n > members.len() {
        Seq::empty()
    } else {
        data_entries(members, (n - 1) as nat) + "  "@ + members[n - 1].0@ + ":\n"@ + entry_lines(
            members[n - 1].1,
        )
    }
}

/// The data of a config map under a heading, where they are there.
pub open spec fn data_part(data: Json) -> Seq<char> {
    match member(data, "data"@) {
        Some(v) => "Data:\n"@ + (match v {
            Json::Object { members, line } => if members@.len() == 0 {
                "  <empty>\n"@
            } else {
                data_entries(members@, members@.len())
            },
            _ => section(v, 2),
        }) + "\n"@,
        None => Seq::empty(),
    }
}

/// The namespace of an object, where it is there and not empty.
pub open spec fn shown_namespace(obj: DynamicObject) -> Option<Seq<char>> {
    match obj.namespace {
        Some(ns) => if ns@.len() > 0 {
            Some(ns@)
        } else {
            None
        },
        None => None,
    }
}

/// The metadata of an object, given how its creation time reads.
pub open spec fn metadata_part(
    obj: DynamicObject,
    kind: Seq<char>,
    created: Option<Seq<char>>,
) -> Seq<
    char,
> {
    field_part("Name:         "@, Some(text_or(obj.name, "<unknown>"@))) + field_part(
        "Namespace:    "@,
        shown_namespace(obj),
    ) + field_part("Kind:         "@, Some(kind)) + field_part("Created:      "@, created)
        + field_part("UID:          "@, opt_chars(obj.uid)) + field_part(
        "Version:      "@,
        opt_chars(obj.resource_version),
    ) + pairs_part(obj.labels, "Labels:\n"@, "Labels:       <none>\n"@, false) + pairs_part(
        obj.annotations,
        "Annotations:\n"@,
        "Annotations:  <none>\n"@,
        true,
    ) + owners_part(obj.owners) + finalizers_part(obj.finalizers)
}

/// The description of an object, given how its creation time reads.
pub open spec fn description(
    obj: DynamicObject,
    kind: Seq<char>,
    created: Option<Seq<char>>,
) -> Seq<
    char,
> {
    metadata_part(obj, kind, created) + "\n"@ + section_part(obj.data, "spec"@, "Spec:\n"@)
        + section_part(obj.data, "status"@, "Status:\n"@) + data_part(obj.data)
        + "Events:       <use :events to view cluster events>\n"@
}

// ---------------------------------------------------------------------------
// Writing a description
// ---------------------------------------------------------------------------

/// Adds a line with a heading and a value.
fn add_field(out: &mut String, heading: &str, value: Option<&str>)
    ensures
        final(out)@ == old(out)@ + field_part(
            heading@,
            match value {
                Some(v) => Some(v@),
                None => None,
            },
        ),
{
    if let Some(v) = value {
        out.append(heading);
        out.append(v);
        out.append("\n");
    }
    proof {
        assert(out@ =~= old(out)@ + field_part(
            heading@,
            match value {
                Some(v) => Some(v@),
                None => None,
            },
        ));
    }
}

/// A text that may be missing.
fn opt_str(t: &Option<String>) -> (r: Option<&str>)
    ensures
        r is Some == *t is Some,
        r is Some ==> r->0@ == t->0@,
{
    match t {
        Some(s) => Some(s.as_str()),
        None => None,
    }
}

/// An annotation's value as it is shown.
fn show_value(v: &str) -> (r: String)
    requires
        can_be_cut(v@),
    ensures
        r@ == shown_value(v@),
{
    if v.len() > 120 {
        let (head, _tail) = v.split_at(117);
        proof {
            vstd::utf8::encode_utf8_decode_utf8(head@);
        }
        joined_text(head, "...")
    } else {
        v.to_owned()
    }
}

/// Adds labels or annotations.
fn add_pairs(
    out: &mut String,
    pairs: &Option<Vec<(String, String)>>,
    heading: &str,
    none: &str,
    cut: bool,
)
    requires
        cut ==> values_can_be_cut(*pairs),
    ensures
        final(out)@ == old(out)@ + pairs_part(*pairs, heading@, none@, cut),
{
    match pairs {
        Some(v) => {
            if v.len() > 0 {
                out.append(heading);
                let ghost start = out@;
                let mut i: usize = 0;
                proof {
                    assert(out@ =~= start + pair_lines(v@, 0, cut));
                }
                while i < v.len()
                    invariant
                        i <= v@.len(),
                        *pairs == Some(*v),
                        cut ==> values_can_be_cut(*pairs),
                        out@ == start + pair_lines(v@, i as nat, cut),
                    decreases v@.len() - i,
                {
                    out.append("  ");
                    out.append(v[i].0.as_str());
                    out.append("=");
                    if cut {
                        assert(can_be_cut(pairs->0@[i as int].1@));
                        out.append(show_value(v[i].1.as_str()).as_str());
                    } else {
                        out.append(v[i].1.as_str());
                    }
                    out.append("\n");
                    i += 1;
                    proof {
                        assert(out@ =~= start + pair_lines(v@, i as nat, cut));
                    }
                }
                proof {
                    assert(out@ =~= old(out)@ + pairs_part(*pairs, heading@, none@, cut));
                }
            } else {
                out.append(none);
            }
        },
        None => {
            out.append(none);
        },
    }
}

/// Adds the owners.
fn add_owners(out: &mut String, owners: &Option<Vec<(String, String)>>)
    ensures
        final(out)@ == old(out)@ + owners_part(*owners),
{
    if let Some(v) = owners {
        if v.len() > 0 {
            out.append("Controlled By:\n");
            let ghost start = out@;
            let mut i: usize = 0;
            proof {
                assert(out@ =~= start + owner_lines(v@, 0));
            }
            while i < v.len()
                invariant
                    i <= v@.len(),
                    out@ == start + owner_lines(v@, i as nat),
                decreases v@.len() - i,
            {
                out.append("  ");
                out.append(v[i].0.as_str());
                out.append(" / ");
                out.append(v[i].1.as_str());
                out.append("\n");
                i += 1;
                proof {
                    assert(out@ =~= start + owner_lines(v@, i as nat));
                }
            }
        }
    }
    proof {
        assert(out@ =~= old(out)@ + owners_part(*owners));
    }
}

/// Adds texts as lines with an indentation.
fn add_lines(out: &mut String, ls: &Vec<String>, indent: &str)
    ensures
        final(out)@ == old(out)@ + indented_lines(texts(ls@), ls@.len(), indent@),
{
    let ghost all = texts(ls@);
    let mut i: usize = 0;
    proof {
        assert(out@ =~= old(out)@ + indented_lines(all, 0, indent@));
    }
    while i < ls.len()
        invariant
            i <= ls@.len(),
            all == texts(ls@),
            out@ == old(out)@ + indented_lines(all, i as nat, indent@),
        decreases ls@.len() - i,
    {
        out.append(indent);
        out.append(ls[i].as_str());
        out.append("\n");
        i += 1;
        proof {
            assert(all[i - 1] == ls@[i - 1]@);
            assert(out@ =~= old(out)@ + indented_lines(all, i as nat, indent@));
        }
    }
}

/// Adds the finalizers.
fn add_finalizers(out: &mut String, finalizers: &Option<Vec<String>>)
    ensures
        final(out)@ == old(out)@ + finalizers_part(*finalizers),
{
    if let Some(v) = finalizers {
        if v.len() > 0 {
            out.append("Finalizers:\n");
            add_lines(out, v, "  ");
        }
    }
    proof {
        assert(out@ =~= old(out)@ + finalizers_part(*finalizers));
    }
}

/// Adds a member of the object's data.
fn add_section(out: &mut String, data: &Json, key: &str, heading: &str)
    ensures
        final(out)@ == old(out)@ + section_part(*data, key@, heading@),
{
    if let Some(v) = data.get(key) {
        out.append(heading);
        let prefix = make_blanks(2);
        format_json_section(out, v, prefix.as_str());
        out.append("\n");
    }
    proof {
        assert(out@ =~= old(out)@ + section_part(*data, key@, heading@));
    }
}

/// Adds what a key of a config map holds.
fn add_entry(out: &mut String, v: &Json)
    ensures
        final(out)@ == old(out)@ + entry_lines(*v),
{
    match v {
        Json::Text(s) => {
            let ls = split_lines(s.as_str());
            proof {
                assert(texts(ls@).len() == ls@.len());
            }
            add_lines(out, &ls, "    ");
        },
        _ => {
            out.append("    ");
            out.append(v.to_line("null").as_str());
            out.append("\n");
            proof {
                assert(out@ =~= old(out)@ + entry_lines(*v));
            }
        },
    }
}

/// Adds the keys of a config map with what they hold.
fn add_entries(out: &mut String, members: &Vec<(String, Json)>)
    ensures
        final(out)@ == old(out)@ + data_entries(members@, members@.len()),
{
    let mut i: usize = 0;
    proof {
        assert(out@ =~= old(out)@ + data_entries(members@, 0));
    }
    while i < members.len()
        invariant
            i <= members@.len(),
            out@ == old(out)@ + data_entries(members@, i as nat),
        decreases members@.len() - i,
    {
        out.append("  ");
        out.append(members[i].0.as_str());
        out.append(":\n");
        add_entry(out, &members[i].1);
        i += 1;
        proof {
            assert(out@ =~= old(out)@ + data_entries(members@, i as nat));
        }
    }
}

/// Adds the data of a config map.
fn add_data(out: &mut String, data: &Json)
    ensures
        final(out)@ == old(out)@ + data_part(*data),
{
    if let Some(v) = data.get("data") {
        out.append("Data:\n");
        match v {
            Json::Object { members, line: _ } => {
                if members.len() == 0 {
                    out.append("  <empty>\n");
                } else {
                    add_entries(out, members);
                }
            },
            _ => {
                let prefix = make_blanks(2);
                format_json_section(out, v, prefix.as_str());
            },
        }
        out.append("\n");
    }
    proof {
        assert(out@ =~= old(out)@ + data_part(*data));
    }
}

/// Describes an object, given how its creation time reads.
pub fn describe_with(obj: &DynamicObject, kind: &str, created: Option<&str>) -> (r: String)
    requires
        obj.wf(),
    ensures
        r@ == description(
            *obj,
            kind@,
            match created {
                Some(c) => Some(c@),
                None => None,
            },
        ),
{
    let name = match &obj.name {
        Some(n) => n.as_str(),
        None => "<unknown>",
    };
    let namespace = match &obj.namespace {
        Some(ns) => if ns.as_str().is_empty() {
            None
        } else {
            Some(ns.as_str())
        },
        None => None,
    };
    let mut out = String::new();
    add_field(&mut out, "Name:         ", Some(name));
    proof {
        assert(out@ =~= field_part("Name:         "@, Some(text_or(obj.name, "<unknown>"@))));
    }
    add_field(&mut out, "Namespace:    ", namespace);
    add_field(&mut out, "Kind:         ", Some(kind));
    add_field(&mut out, "Created:      ", created);
    add_field(&mut out, "UID:          ", opt_str(&obj.uid));
    add_field(&mut out, "Version:      ", opt_str(&obj.resource_version));
    add_pairs(&mut out, &obj.labels, "Labels:\n", "Labels:       <none>\n", false);
    add_pairs(&mut out, &obj.annotations, "Annotations:\n", "Annotations:  <none>\n", true);
    add_owners(&mut out, &obj.owners);
    add_finalizers(&mut out, &obj.finalizers);
    out.append("\n");
    add_section(&mut out, &obj.data, "spec", "Spec:\n");
    add_section(&mut out, &obj.data, "status", "Status:\n");
    add_data(&mut out, &obj.data);
    out.append("Events:       <use :events to view cluster events>\n");
    out
}

/// How the creation time of an object reads.
pub open spec fn created_text(obj: DynamicObject) -> Option<Seq<char>> {
    match obj.created {
        Some(t) => Some(utc_text(t)),
        None => None,
    }
}

/// Describes an object.
pub fn format_describe(obj: &DynamicObject, kind: &str) -> (r: String)
    requires
        obj.wf(),
        usable(obj.created),
    ensures
        r@ == description(*obj, kind@, created_text(*obj)),
{
    match obj.created {
        Some(t) => {
            let created = format_utc(t);
            describe_with(obj, kind, Some(created.as_str()))
        },
        None => describe_with(obj, kind, None),
    }
}

} // verus!
