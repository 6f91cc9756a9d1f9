//! What the metrics API and the system report on usage, as text.
use vstd::prelude::*;
use crate::describe::DynamicObject;
use crate::json::{member, member_items, member_text, Json};
use crate::list::{first_where, lemma_first_index};
use crate::objects::{copy_or_empty, text_or};
use crate::scan::{find_second_word, lines, second_word, split_lines};
use crate::text::{has_prefix, lemma_texts_push, starts_with, texts};

verus! {

broadcast use lemma_texts_push;

/// The usage of a node, as quantities.
#[derive(Debug)]
pub struct NodeUsage {
    pub name: String,
    pub cpu: String,
    pub memory: String,
}

/// The usage of a pod: the quantities of each container that reports them.
#[derive(Debug)]
pub struct PodUsage {
    pub name: String,
    pub namespace: String,
    pub cpu: Vec<String>,
    pub memory: Vec<String>,
}

/// The usage of a node as a value.
#[verifier::ext_equal]
pub struct NodeUsageModel {
    pub name: Seq<char>,
    pub cpu: Seq<char>,
    pub memory: Seq<char>,
}

impl View for NodeUsage {
    type V = NodeUsageModel;

    open spec fn view(&self) -> NodeUsageModel {
        NodeUsageModel { name: self.name@, cpu: self.cpu@, memory: self.memory@ }
    }
}

/// The usage of a pod as a value.
#[verifier::ext_equal]
pub struct PodUsageModel {
    pub name: Seq<char>,
    pub namespace: Seq<char>,
    pub cpu: Seq<Seq<char>>,
    pub memory: Seq<Seq<char>>,
}

impl View for PodUsage {
    type V = PodUsageModel;

    open spec fn view(&self) -> PodUsageModel {
        PodUsageModel {
            name: self.name@,
            namespace: self.namespace@,
            cpu: texts(self.cpu@),
            memory: texts(self.memory@),
        }
    }
}

/// The usage that an object reports of a node; nothing where a part is missing.
pub open spec fn node_usage(obj: DynamicObject) -> Option<NodeUsageModel> {
    match member(obj.data, "usage"@) {
        Some(usage) => match (member_text(usage, "cpu"@), member_text(usage, "memory"@)) {
            (Some(cpu), Some(memory)) => Some(
                NodeUsageModel { name: text_or(obj.name, Seq::empty()), cpu, memory },
            ),
            _ => None,
        },
        None => None,
    }
}

/// The usage that an object reports of a node.
pub fn read_node_usage(obj: &DynamicObject) -> (r: Option<NodeUsage>)
    ensures
        r is Some == node_usage(*obj) is Some,
        r is Some ==> r->0@ == node_usage(*obj)->0,
{
    match obj.data.get("usage") {
        Some(usage) => match (usage.get_str("cpu"), usage.get_str("memory")) {
            (Some(cpu), Some(memory)) => Some(
                NodeUsage {
                    name: copy_or_empty(&obj.name),
                    cpu: cpu.to_owned(),
                    memory: memory.to_owned(),
                },
            ),
            _ => None,
        },
        None => None,
    }
}

/// The test whether a container reports no usage.
pub open spec fn lacks_usage() -> spec_fn(Json) -> bool {
    |c: Json| member(c, "usage"@) is None
}

/// What the first containers report under a key; those that say nothing are left
/// out.
pub open spec fn reported(containers: Seq<Json>, key: Seq<char>, n: int) -> Seq<Seq<char>>
    decreases n,
{
    if n <= 0 {
        Seq::empty()
    } else {
        let before = reported(containers, key, n - 1);
        match member(containers[n - 1], "usage"@) {
            Some(usage) => match member_text(usage, key) {
                Some(t) => before.push(t),
                None => before,
            },
            None => before,
        }
    }
}

/// The usage that an object reports of a pod; nothing where a container reports
/// none.
pub open spec fn pod_usage(obj: DynamicObject) -> Option<PodUsageModel> {
    match member_items(obj.data, "containers"@) {
        Some(containers) => if first_where(containers, lacks_usage()) is Some {
            None
        } else {
            Some(
                PodUsageModel {
                    name: text_or(obj.name, Seq::empty()),
                    namespace: text_or(obj.namespace, Seq::empty()),
                    cpu: reported(containers, "cpu"@, containers.len() as int),
                    memory: reported(containers, "memory"@, containers.len() as int),
                },
            )
        },
        None => None,
    }
}

/// The usage that an object reports of a pod.
pub fn read_pod_usage(obj: &DynamicObject) -> (r: Option<PodUsage>)
    ensures
        r is Some == pod_usage(*obj) is Some,
        r is Some ==> r->0@ == pod_usage(*obj)->0,
{
    match obj.data.get_array("containers") {
        None => None,
        Some(containers) => {
            let mut cpu: Vec<String> = Vec::new();
            let mut memory: Vec<String> = Vec::new();
            let mut i: usize = 0;
            proof {
                assert(texts(cpu@) =~= Seq::empty());
                assert(texts(memory@) =~= Seq::empty());
            }
            while i < containers.len()
                invariant
                    i <= containers@.len(),
                    member_items(obj.data, "containers"@) == Some(containers@),
                    forall|k: int| 0 <= k < i ==> !lacks_usage()(#[trigger] containers@[k]),
                    texts(cpu@) == reported(containers@, "cpu"@, i as int),
                    texts(memory@) == reported(containers@, "memory"@, i as int),
                decreases containers@.len() - i,
            {
                match containers[i].get("usage") {
                    None => {
                        proof {
                            lemma_first_index(containers@, i as int, lacks_usage());
                        }
                        return None;
                    },
                    Some(usage) => {
                        match usage.get_str("cpu") {
                            Some(t) => {
                                cpu.push(t.to_owned());
                            },
                            None => {},
                        }
                        match usage.get_str("memory") {
                            Some(t) => {
                                memory.push(t.to_owned());
                            },
                            None => {},
                        }
                    },
                }
                i += 1;
            }
            proof {
                lemma_first_index(containers@, i as int, lacks_usage());
            }
            Some(
                PodUsage {
                    name: copy_or_empty(&obj.name),
                    namespace: copy_or_empty(&obj.namespace),
                    cpu,
                    memory,
                },
            )
        },
    }
}

/// The test whether a line of a process status gives its resident memory.
pub open spec fn is_rss_line() -> spec_fn(Seq<char>) -> bool {
    |l: Seq<char>| has_prefix(l, "VmRSS:"@)
}

/// The resident memory in a process status, as text.
pub open spec fn rss_text(status: Seq<char>) -> Option<Seq<char>> {
    match first_where(lines(status), is_rss_line()) {
        Some(line) => second_word(line),
        None => None,
    }
}

/// The resident memory in a process status, in kilobytes.
pub fn read_rss_text(status: &str) -> (r: Option<String>)
    ensures
        r is Some == rss_text(status@) is Some,
        r is Some ==> r->0@ == rss_text(status@)->0,
{
    let all = split_lines(status);
    let ghost ls = lines(status@);
    let mut i: usize = 0;
    while i < all.len()
        invariant
            i <= all@.len(),
            ls == lines(status@),
            texts(all@) == ls,
            all@.len() == ls.len(),
            forall|k: int| 0 <= k < i ==> !is_rss_line()(#[trigger] ls[k]),
        decreases all@.len() - i,
    {
        proof {
            assert(ls[i as int] == all@[i as int]@);
        }
        if starts_with(all[i].as_str(), "VmRSS:") {
            proof {
                lemma_first_index(ls, i as int, is_rss_line());
            }
            return find_second_word(all[i].as_str());
        }
        i += 1;
    }
    proof {
        lemma_first_index(ls, i as int, is_rss_line());
    }
    None
}

} // verus!
