//! Choosing a container of a pod, for its logs or for a shell.
use vstd::prelude::*;
use crate::display::{
    at_least, at_most, bold, colored, framed, greater, lemma_lines_push, less, lesser, line_of_span,
    lines_model, minus, pad, padded, repeat, repeated, span, Area, Color, Line, SpanModel, Style,
};
use crate::json::{member, member_items, member_text, unsigned_of, Json};
use crate::list::{first_where, lemma_first_index, lemma_take_all};
use crate::objects::{
    copy_or, copy_or_empty, text_or, Container, ContainerState, ContainerStatus, Pod, PodStatus,
};
use crate::text::{decimal, decimal_u64, same};

verus! {

broadcast use {lemma_lines_push, lemma_take_all};

/// What is done with the chosen container.
#[derive(Debug, Clone, Copy, PartialEq, Eq, Structural)]
pub enum ContainerAction {
    /// Show its logs.
    Logs,
    /// Open a shell in it.
    ShellExec,
}

/// The name of an action.
pub open spec fn action_label(action: ContainerAction) -> Seq<char> {
    match action {
        ContainerAction::Logs => "Logs"@,
        ContainerAction::ShellExec => "Shell"@,
    }
}

impl ContainerAction {
    /// The name of an action.
    pub fn label(&self) -> (r: &'static str)
        ensures
            r@ == action_label(*self),
    {
        match self {
            ContainerAction::Logs => "Logs",
            ContainerAction::ShellExec => "Shell",
        }
    }
}

/// A container in the list.
#[derive(Debug, Clone, PartialEq, Eq)]
pub struct ContainerInfo {
    pub name: String,
    pub is_init: bool,
    pub status: String,
    pub image: String,
    pub restarts: u32,
}

/// A container in the list, as a value.
#[verifier::ext_equal]
pub struct InfoModel {
    pub name: Seq<char>,
    pub is_init: bool,
    pub status: Seq<char>,
    pub image: Seq<char>,
    pub restarts: u32,
}

impl View for ContainerInfo {
    type V = InfoModel;

    open spec fn view(&self) -> InfoModel {
        InfoModel {
            name: self.name@,
            is_init: self.is_init,
            status: self.status@,
            image: self.image@,
            restarts: self.restarts,
        }
    }
}

/// Containers as values.
pub open spec fn infos_model(s: Seq<ContainerInfo>) -> Seq<InfoModel> {
    s.map_values(|c: ContainerInfo| c@)
}

/// One container more.
proof fn lemma_infos_push(s: Seq<ContainerInfo>, c: ContainerInfo)
    ensures
        infos_model(s.push(c)) == infos_model(s).push(c@),
{
    assert(infos_model(s.push(c)) =~= infos_model(s).push(c@));
}

/// The container that was chosen.
#[derive(Debug, Clone, PartialEq, Eq)]
pub struct ContainerSelection {
    pub pod_name: String,
    pub namespace: String,
    pub container_name: String,
    pub action: ContainerAction,
}

// ---------------------------------------------------------------------------
// The list
// ---------------------------------------------------------------------------

/// The list from which a container is chosen.
#[derive(Debug)]
pub struct ContainerSelector {
    pub visible: bool,
    pub pod_name: String,
    pub namespace: String,
    /// Init containers stand before the others.
    pub containers: Vec<ContainerInfo>,
    pub cursor: usize,
    /// The position that was chosen and not taken yet.
    pub selected: Option<usize>,
    pub action: ContainerAction,
}

/// A list as a value.
#[verifier::ext_equal]
pub struct SelectorModel {
    pub visible: bool,
    pub pod_name: Seq<char>,
    pub namespace: Seq<char>,
    pub containers: Seq<ContainerInfo>,
    pub cursor: usize,
    pub selected: Option<usize>,
    pub action: ContainerAction,
}

impl View for ContainerSelector {
    type V = SelectorModel;

    open spec fn view(&self) -> SelectorModel {
        SelectorModel {
            visible: self.visible,
            pod_name: self.pod_name@,
            namespace: self.namespace@,
            containers: self.containers@,
            cursor: self.cursor,
            selected: self.selected,
            action: self.action,
        }
    }
}

/// A hidden list.
pub open spec fn hidden_selector() -> SelectorModel {
    SelectorModel {
        visible: false,
        pod_name: Seq::empty(),
        namespace: Seq::empty(),
        containers: Seq::empty(),
        cursor: 0,
        selected: None,
        action: ContainerAction::Logs,
    }
}

/// The container that was chosen, as a value.
#[verifier::ext_equal]
pub struct SelectionModel {
    pub pod_name: Seq<char>,
    pub namespace: Seq<char>,
    pub container_name: Seq<char>,
    pub action: ContainerAction,
}

impl View for ContainerSelection {
    type V = SelectionModel;

    open spec fn view(&self) -> SelectionModel {
        SelectionModel {
            pod_name: self.pod_name@,
            namespace: self.namespace@,
            container_name: self.container_name@,
            action: self.action,
        }
    }
}

/// A list after its container at the cursor was chosen.
pub open spec fn confirmed(s: SelectorModel) -> SelectorModel {
    if s.containers.len() > 0 {
        SelectorModel { selected: Some(s.cursor), visible: false, ..s }
    } else {
        s
    }
}

/// What was chosen from a list and not taken yet.
pub open spec fn selection(s: SelectorModel) -> Option<SelectionModel> {
    if s.selected is Some && s.selected->0 < s.containers.len() {
        Some(
            SelectionModel {
                pod_name: s.pod_name,
                namespace: s.namespace,
                container_name: s.containers[s.selected->0 as int].name@,
                action: s.action,
            },
        )
    } else {
        None
    }
}

/// A list after what was chosen was taken.
pub open spec fn taken(s: SelectorModel) -> SelectorModel {
    SelectorModel { selected: None, ..s }
}

/// A list that was just opened.
pub open spec fn opened_selector(
    pod_name: Seq<char>,
    namespace: Seq<char>,
    containers: Seq<ContainerInfo>,
    action: ContainerAction,
) -> SelectorModel {
    SelectorModel {
        visible: true,
        pod_name,
        namespace,
        containers,
        cursor: 0,
        selected: None,
        action,
    }
}

impl ContainerSelector {
    /// Whether the cursor and what was chosen are positions of the list.
    pub open spec fn wf(self) -> bool {
        &&& self.containers@.len() > 0 ==> self.cursor < self.containers@.len()
        &&& self.containers@.len() == 0 ==> self.cursor == 0
        &&& self.selected is Some ==> self.selected->0 < self.containers@.len()
    }

    /// A hidden list.
    pub fn new() -> (r: Self)
        ensures
            r@ == hidden_selector(),
            r.wf(),
    {
        let s = ContainerSelector {
            visible: false,
            pod_name: String::new(),
            namespace: String::new(),
            containers: Vec::new(),
            cursor: 0,
            selected: None,
            action: ContainerAction::Logs,
        };
        proof {
            assert(s@ =~= hidden_selector());
        }
        s
    }

    /// Opens the list of a pod's containers, to show logs.
    pub fn open(&mut self, pod_name: String, namespace: String, containers: Vec<ContainerInfo>)
        ensures
            final(self)@ == opened_selector(
                pod_name@,
                namespace@,
                containers@,
                ContainerAction::Logs,
            ),
            final(self).wf(),
    {
        self.open_with_action(pod_name, namespace, containers, ContainerAction::Logs);
    }

    /// Opens the list of a pod's containers.
    pub fn open_with_action(
        &mut self,
        pod_name: String,
        namespace: String,
        containers: Vec<ContainerInfo>,
        action: ContainerAction,
    )
        ensures
            final(self)@ == opened_selector(pod_name@, namespace@, containers@, action),
            final(self).wf(),
    {
        self.pod_name = pod_name;
        self.namespace = namespace;
        self.containers = containers;
        self.cursor = 0;
        self.selected = None;
        self.action = action;
        self.visible = true;
    }

    /// Closes the list; nothing is chosen.
    pub fn close(&mut self)
        ensures
            final(self)@ == (SelectorModel {
                visible: false,
                containers: Seq::empty(),
                cursor: 0,
                selected: None,
                ..old(self)@
            }),
            final(self).wf(),
    {
        self.visible = false;
        self.containers = Vec::new();
        self.cursor = 0;
        self.selected = None;
        proof {
            assert(self.containers@ =~= Seq::empty());
        }
    }

    /// Moves the cursor up, as far as the top.
    pub fn move_up(&mut self)
        ensures
            final(self)@ == (SelectorModel {
                cursor: less(old(self).cursor as int, 1) as usize,
                ..old(self)@
            }),
            old(self).wf() ==> final(self).wf(),
    {
        if self.cursor > 0 {
            self.cursor = self.cursor - 1;
        }
    }

    /// Moves the cursor down, as far as the bottom.
    pub fn move_down(&mut self)
        ensures
            final(self)@ == (SelectorModel {
                cursor: if old(self).cursor + 1 < old(self).containers@.len() {
                    (old(self).cursor + 1) as usize
                } else {
                    old(self).cursor
                },
                ..old(self)@
            }),
            old(self).wf() ==> final(self).wf(),
    {
        if self.containers.len() > 0 && self.cursor < self.containers.len() - 1 {
            self.cursor = self.cursor + 1;
        }
    }

    /// Chooses the container at the cursor and hides the list; there is none to
    /// choose from an empty list.
    pub fn confirm(&mut self) -> (r: bool)
        ensures
            r == (old(self).containers@.len() > 0),
            final(self)@ == confirmed(old(self)@),
            old(self).wf() ==> final(self).wf(),
    {
        if self.containers.len() == 0 {
            return false;
        }
        self.selected = Some(self.cursor);
        self.visible = false;
        true
    }

    /// Takes what was chosen: it is there once.
    pub fn take_selection(&mut self) -> (r: Option<ContainerSelection>)
        ensures
            r is Some == selection(old(self)@) is Some,
            r is Some ==> r->0@ == selection(old(self)@)->0,
            final(self)@ == taken(old(self)@),
            old(self).wf() ==> final(self).wf(),
    {
        let chosen = self.selected;
        self.selected = None;
        match chosen {
            None => None,
            Some(i) => {
                if i < self.containers.len() {
                    Some(
                        ContainerSelection {
                            pod_name: self.pod_name.clone(),
                            namespace: self.namespace.clone(),
                            container_name: self.containers[i].name.clone(),
                            action: self.action,
                        },
                    )
                } else {
                    None
                }
            },
        }
    }

    /// How many containers there are.
    pub fn container_count(&self) -> (r: usize)
        ensures
            r == self.containers@.len(),
    {
        self.containers.len()
    }
}

impl Default for ContainerSelector {
    fn default() -> (r: Self)
        ensures
            r@ == hidden_selector(),
            r.wf(),
    {
        ContainerSelector::new()
    }
}

// ---------------------------------------------------------------------------
// Containers of a pod
// ---------------------------------------------------------------------------

/// A 32-bit count that was read as signed.
pub open spec fn as_unsigned(n: i32) -> int {
    if n >= 0 {
        n as int
    } else {
        n + 0x1_0000_0000
    }
}

/// The state of a container in a word.
pub open spec fn state_text(state: Option<ContainerState>) -> Seq<char> {
    match state {
        Some(s) => if s.running {
            "Running"@
        } else if s.terminated is Some {
            text_or(s.terminated->0.reason, "Terminated"@)
        } else if s.waiting is Some {
            text_or(s.waiting->0.reason, "Waiting"@)
        } else {
            "Unknown"@
        },
        None => "Unknown"@,
    }
}

/// The status of a container in a word; one without a status is pending.
pub open spec fn status_text(cs: Option<ContainerStatus>) -> Seq<char> {
    match cs {
        Some(s) => state_text(s.state),
        None => "Pending"@,
    }
}

/// The restarts of a container.
pub open spec fn status_restarts(cs: Option<ContainerStatus>) -> int {
    match cs {
        Some(s) => as_unsigned(s.restart_count),
        None => 0,
    }
}

/// The test whether a status is that of a container.
pub open spec fn status_of(name: Seq<char>) -> spec_fn(ContainerStatus) -> bool {
    |s: ContainerStatus| s.name@ == name
}

/// A container with its status.
pub open spec fn container_info(
    c: Container,
    statuses: Seq<ContainerStatus>,
    is_init: bool,
) -> InfoModel {
    let cs = first_where(statuses, status_of(c.name@));
    InfoModel {
        name: c.name@,
        is_init,
        status: status_text(cs),
        image: text_or(c.image, Seq::empty()),
        restarts: status_restarts(cs) as u32,
    }
}

/// Containers with their statuses.
pub open spec fn container_infos(
    containers: Seq<Container>,
    statuses: Seq<ContainerStatus>,
    is_init: bool,
) -> Seq<InfoModel> {
    containers.map_values(|c: Container| container_info(c, statuses, is_init))
}

/// A list that may be missing.
pub open spec fn items_or_none<T>(v: Option<Vec<T>>) -> Seq<T> {
    match v {
        Some(items) => items@,
        None => Seq::empty(),
    }
}

/// The statuses of a pod's init containers.
pub open spec fn init_statuses(status: Option<PodStatus>) -> Seq<ContainerStatus> {
    match status {
        Some(s) => items_or_none(s.init_container_statuses),
        None => Seq::empty(),
    }
}

/// The statuses of a pod's other containers.
pub open spec fn main_statuses(status: Option<PodStatus>) -> Seq<ContainerStatus> {
    match status {
        Some(s) => items_or_none(s.container_statuses),
        None => Seq::empty(),
    }
}

/// The containers of a pod, init containers first.
pub open spec fn pod_containers(pod: Pod) -> Seq<InfoModel> {
    match pod.spec {
        Some(spec) => container_infos(
            items_or_none(spec.init_containers),
            init_statuses(pod.status),
            true,
        ) + container_infos(spec.containers@, main_statuses(pod.status), false),
        None => Seq::empty(),
    }
}

/// Status and restarts of a container.
fn container_status_info(cs: Option<&ContainerStatus>) -> (r: (String, u32))
    ensures
        match cs {
            Some(s) => r.0@ == status_text(Some(*s)) && r.1 == status_restarts(Some(*s)),
            None => r.0@ == status_text(None) && r.1 == status_restarts(None),
        },
{
    match cs {
        Some(s) => {
            let restarts: u32 = if s.restart_count >= 0 {
                s.restart_count as u32
            } else {
                (s.restart_count as i64 + 0x1_0000_0000) as u32
            };
            let status = match &s.state {
                Some(st) => if st.running {
                    "Running".to_owned()
                } else {
                    match &st.terminated {
                        Some(t) => copy_or(&t.reason, "Terminated"),
                        None => match &st.waiting {
                            Some(w) => copy_or(&w.reason, "Waiting"),
                            None => "Unknown".to_owned(),
                        },
                    }
                },
                None => "Unknown".to_owned(),
            };
            (status, restarts)
        },
        None => ("Pending".to_owned(), 0),
    }
}

/// The status of a container in a list that may be missing.
fn find_status<'a>(statuses: Option<&'a Vec<ContainerStatus>>, name: &str) -> (r: Option<
    &'a ContainerStatus,
>)
    ensures
        ({
            let all = match statuses {
                Some(v) => v@,
                None => Seq::empty(),
            };
            let found = first_where(all, status_of(name@));
            &&& r is Some == found is Some
            &&& r is Some ==> *r->0 == found->0
        }),
{
    match statuses {
        Some(v) => {
            let mut i: usize = 0;
            while i < v.len()
                invariant
                    i <= v@.len(),
                    statuses == Some(v),
                    forall|k: int| 0 <= k < i ==> !status_of(name@)(#[trigger] v@[k]),
                decreases v@.len() - i,
            {
                if same(v[i].name.as_str(), name) {
                    proof {
                        lemma_first_index(v@, i as int, status_of(name@));
                    }
                    return Some(&v[i]);
                }
                i += 1;
            }
            proof {
                lemma_first_index(v@, i as int, status_of(name@));
            }
            None
        },
        None => None,
    }
}

/// Adds containers with their statuses.
fn add_containers(
    out: &mut Vec<ContainerInfo>,
    containers: &Vec<Container>,
    statuses: Option<&Vec<ContainerStatus>>,
    is_init: bool,
)
    ensures
        infos_model(final(out)@) == infos_model(old(out)@) + container_infos(
            containers@,
            match statuses {
                Some(v) => v@,
                None => Seq::empty(),
            },
            is_init,
        ),
{
    let ghost before = infos_model(out@);
    let ghost all = match statuses {
        Some(v) => v@,
        None => Seq::empty(),
    };
    let mut i: usize = 0;
    proof {
        assert(infos_model(out@) =~= before + container_infos(
            containers@.take(0),
            all,
            is_init,
        ));
    }
    while i < containers.len()
        invariant
            i <= containers@.len(),
            all == (match statuses {
                Some(v) => v@,
                None => Seq::empty(),
            }),
            infos_model(out@) == before + container_infos(
                containers@.take(i as int),
                all,
                is_init,
            ),
        decreases containers@.len() - i,
    {
        let c = &containers[i];
        let cs = find_status(statuses, c.name.as_str());
        let (status, restarts) = container_status_info(cs);
        let info = ContainerInfo {
            name: c.name.clone(),
            is_init,
            status,
            image: copy_or_empty(&c.image),
            restarts,
        };
        proof {
            lemma_infos_push(out@, info);
            assert(info@ =~= container_info(containers@[i as int], all, is_init));
        }
        out.push(info);
        proof {
            let shown = container_infos(containers@.take(i as int), all, is_init);
            assert(container_infos(containers@.take(i + 1), all, is_init) =~= shown.push(info@));
            assert((before + shown).push(info@) =~= before + shown.push(info@));
        }
        i += 1;
    }
}

/// The containers of a pod with their statuses, init containers first.
pub fn extract_containers(pod: &Pod) -> (r: Vec<ContainerInfo>)
    ensures
        infos_model(r@) == pod_containers(*pod),
{
    let mut result: Vec<ContainerInfo> = Vec::new();
    proof {
        assert(infos_model(result@) =~= Seq::empty());
    }
    match &pod.spec {
        None => result,
        Some(spec) => {
            let (inits, mains): (Option<&Vec<ContainerStatus>>, Option<&Vec<ContainerStatus>>) =
                match &pod.status {
                Some(s) => (s.init_container_statuses.as_ref(), s.container_statuses.as_ref()),
                None => (None, None),
            };
            match &spec.init_containers {
                Some(containers) => {
                    add_containers(&mut result, containers, inits, true);
                },
                None => {},
            }
            proof {
                assert(infos_model(result@) =~= container_infos(
                    items_or_none(spec.init_containers),
                    init_statuses(pod.status),
                    true,
                ));
            }
            add_containers(&mut result, &spec.containers, mains, false);
            result
        },
    }
}

// ---------------------------------------------------------------------------
// Containers of a pod that was fetched as JSON
// ---------------------------------------------------------------------------

/// The text of a member, or a default.
pub open spec fn member_text_or(j: Json, key: Seq<char>, default: Seq<char>) -> Seq<char> {
    match member_text(j, key) {
        Some(t) => t,
        None => default,
    }
}

/// The state of a container in a word.
pub open spec fn value_state_text(state: Option<Json>) -> Seq<char> {
    match state {
        Some(st) => if member(st, "running"@) is Some {
            "Running"@
        } else if member(st, "terminated"@) is Some {
            member_text_or(member(st, "terminated"@)->0, "reason"@, "Terminated"@)
        } else if member(st, "waiting"@) is Some {
            member_text_or(member(st, "waiting"@)->0, "reason"@, "Waiting"@)
        } else {
            "Unknown"@
        },
        None => "Unknown"@,
    }
}

/// The status of a container in a word; one without a status is pending.
pub open spec fn value_status_text(cs: Option<Json>) -> Seq<char> {
    match cs {
        Some(s) => value_state_text(member(s, "state"@)),
        None => "Pending"@,
    }
}

/// The low 32 bits of the restarts of a container.
pub open spec fn value_restarts(cs: Option<Json>) -> int {
    match cs {
        Some(s) => match member(s, "restartCount"@) {
            Some(n) => match unsigned_of(n) {
                Some(count) => count as int % 0x1_0000_0000,
                None => 0,
            },
            None => 0,
        },
        None => 0,
    }
}

/// The test whether a status is that of a container.
pub open spec fn value_status_of(name: Seq<char>) -> spec_fn(Json) -> bool {
    |s: Json| member_text(s, "name"@) == Some(name)
}

/// A container with its status.
pub open spec fn value_info(c: Json, statuses: Seq<Json>, is_init: bool) -> InfoModel {
    let name = member_text_or(c, "name"@, Seq::empty());
    let cs = first_where(statuses, value_status_of(name));
    InfoModel {
        name,
        is_init,
        status: value_status_text(cs),
        image: member_text_or(c, "image"@, Seq::empty()),
        restarts: value_restarts(cs) as u32,
    }
}

/// The items of a member of a value that may be missing, or none.
pub open spec fn value_items(j: Option<Json>, key: Seq<char>) -> Seq<Json> {
    match j {
        Some(v) => match member_items(v, key) {
            Some(items) => items,
            None => Seq::empty(),
        },
        None => Seq::empty(),
    }
}

/// Containers with their statuses.
pub open spec fn value_infos(containers: Seq<Json>, statuses: Seq<Json>, is_init: bool) -> Seq<
    InfoModel,
> {
    containers.map_values(|c: Json| value_info(c, statuses, is_init))
}

/// The containers of a pod, init containers first.
pub open spec fn value_containers(pod: Json) -> Seq<InfoModel> {
    let spec_part = member(pod, "spec"@);
    let status = member(pod, "status"@);
    value_infos(
        value_items(spec_part, "initContainers"@),
        value_items(status, "initContainerStatuses"@),
        true,
    ) + value_infos(
        value_items(spec_part, "containers"@),
        value_items(status, "containerStatuses"@),
        false,
    )
}

/// The text of a member, or a default.
fn get_text_or(j: &Json, key: &str, default: &str) -> (r: String)
    ensures
        r@ == member_text_or(*j, key@, default@),
{
    match j.get_str(key) {
        Some(t) => t.to_owned(),
        None => default.to_owned(),
    }
}

/// The text of a member, or nothing.
fn get_text(j: &Json, key: &str) -> (r: String)
    ensures
        r@ == member_text_or(*j, key@, Seq::empty()),
{
    match j.get_str(key) {
        Some(t) => t.to_owned(),
        None => String::new(),
    }
}

/// Status and restarts of a container.
pub fn container_status_from_value(cs: Option<&Json>) -> (r: (String, u32))
    ensures
        match cs {
            Some(s) => r.0@ == value_status_text(Some(*s)) && r.1 == value_restarts(Some(*s)),
            None => r.0@ == value_status_text(None) && r.1 == value_restarts(None),
        },
{
    match cs {
        Some(s) => {
            let count: u64 = match s.get("restartCount") {
                Some(v) => match v.as_u64() {
                    Some(n) => n,
                    None => 0,
                },
                None => 0,
            };
            let restarts: u32 = (count % 0x1_0000_0000) as u32;
            let status = match s.get("state") {
                Some(st) => if st.get("running").is_some() {
                    "Running".to_owned()
                } else {
                    match st.get("terminated") {
                        Some(t) => get_text_or(t, "reason", "Terminated"),
                        None => match st.get("waiting") {
                            Some(w) => get_text_or(w, "reason", "Waiting"),
                            None => "Unknown".to_owned(),
                        },
                    }
                },
                None => "Unknown".to_owned(),
            };
            (status, restarts)
        },
        None => ("Pending".to_owned(), 0),
    }
}

/// Items that may be missing.
pub open spec fn given_items(v: Option<&Vec<Json>>) -> Seq<Json> {
    match v {
        Some(items) => items@,
        None => Seq::empty(),
    }
}

fn find_value_status<'a>(statuses: Option<&'a Vec<Json>>, name: &str) -> (r: Option<&'a Json>)
    ensures
        ({
            let found = first_where(given_items(statuses), value_status_of(name@));
            &&& r is Some == found is Some
            &&& r is Some ==> *r->0 == found->0
        }),
{
    match statuses {
        Some(v) => {
            let mut i: usize = 0;
            while i < v.len()
                invariant
                    i <= v@.len(),
                    statuses == Some(v),
                    forall|k: int| 0 <= k < i ==> !value_status_of(name@)(#[trigger] v@[k]),
                decreases v@.len() - i,
            {
                let found = match v[i].get_str("name") {
                    Some(n) => same(n, name),
                    None => false,
                };
                if found {
                    proof {
                        lemma_first_index(v@, i as int, value_status_of(name@));
                    }
                    return Some(&v[i]);
                }
                i += 1;
            }
            proof {
                lemma_first_index(v@, i as int, value_status_of(name@));
            }
            None
        },
        None => None,
    }
}

/// Adds containers with their statuses.
fn add_values(
    out: &mut Vec<ContainerInfo>,
    containers: &Vec<Json>,
    statuses: Option<&Vec<Json>>,
    is_init: bool,
)
    ensures
        infos_model(final(out)@) == infos_model(old(out)@) + value_infos(
            containers@,
            given_items(statuses),
            is_init,
        ),
{
    let ghost before = infos_model(out@);
    let ghost all = given_items(statuses);
    let mut i: usize = 0;
    proof {
        assert(infos_model(out@) =~= before + value_infos(containers@.take(0), all, is_init));
    }
    while i < containers.len()
        invariant
            i <= containers@.len(),
            all == given_items(statuses),
            infos_model(out@) == before + value_infos(containers@.take(i as int), all, is_init),
        decreases containers@.len() - i,
    {
        let name = get_text(&containers[i], "name");
        let image = get_text(&containers[i], "image");
        let cs = find_value_status(statuses, name.as_str());
        let (status, restarts) = container_status_from_value(cs);
        let info = ContainerInfo { name, is_init, status, image, restarts };
        proof {
            lemma_infos_push(out@, info);
            assert(info@ =~= value_info(containers@[i as int], all, is_init));
        }
        out.push(info);
        proof {
            let shown = value_infos(containers@.take(i as int), all, is_init);
            assert(value_infos(containers@.take(i + 1), all, is_init) =~= shown.push(info@));
            assert((before + shown).push(info@) =~= before + shown.push(info@));
        }
        i += 1;
    }
}

/// The containers of a pod that was fetched as JSON, init containers first.
pub fn extract_containers_from_value(obj: &Json) -> (r: Vec<ContainerInfo>)
    ensures
        infos_model(r@) == value_containers(*obj),
{
    let mut result: Vec<ContainerInfo> = Vec::new();
    let (inits, mains): (Option<&Vec<Json>>, Option<&Vec<Json>>) = match obj.get("status") {
        Some(s) => (s.get_array("initContainerStatuses"), s.get_array("containerStatuses")),
        None => (None, None),
    };
    let (first, second): (Option<&Vec<Json>>, Option<&Vec<Json>>) = match obj.get("spec") {
        Some(s) => (s.get_array("initContainers"), s.get_array("containers")),
        None => (None, None),
    };
    let ghost status = member(*obj, "status"@);
    let ghost part = member(*obj, "spec"@);
    proof {
        assert(infos_model(result@) =~= Seq::empty());
        assert(given_items(inits) == value_items(status, "initContainerStatuses"@));
        assert(given_items(mains) == value_items(status, "containerStatuses"@));
        assert(given_items(first) == value_items(part, "initContainers"@));
        assert(given_items(second) == value_items(part, "containers"@));
    }
    match first {
        Some(containers) => {
            add_values(&mut result, containers, inits, true);
        },
        None => {},
    }
    let ghost so_far = value_infos(given_items(first), given_items(inits), true);
    proof {
        assert(infos_model(result@) =~= so_far);
    }
    match second {
        Some(containers) => {
            add_values(&mut result, containers, mains, false);
        },
        None => {},
    }
    proof {
        assert(infos_model(result@) =~= so_far + value_infos(
            given_items(second),
            given_items(mains),
            false,
        ));
    }
    result
}

/// In the list of a pod, no init container stands behind another container.
pub proof fn law_init_containers_first(pod: Pod, i: int, j: int)
    requires
        0 <= i < j < pod_containers(pod).len(),
        pod_containers(pod)[j].is_init,
    ensures
        pod_containers(pod)[i].is_init,
{
}

/// The same holds of a pod that was fetched as JSON.
pub proof fn law_init_containers_first_in_values(pod: Json, i: int, j: int)
    requires
        0 <= i < j < value_containers(pod).len(),
        value_containers(pod)[j].is_init,
    ensures
        value_containers(pod)[i].is_init,
{
}

// ---------------------------------------------------------------------------
// Drawing
// ---------------------------------------------------------------------------

/// What is drawn of the list.
#[derive(Debug)]
pub struct SelectorFrame {
    pub title: String,
    /// Where the popup stands, with its border.
    pub popup: Area,
    /// Where the lines stand.
    pub inner: Area,
    pub lines: Vec<Line>,
}

/// The popup of a list on a screen.
pub open spec fn selector_popup(containers: nat, area: Area) -> Area {
    let w = greater(lesser(70, less(area.width as int, 4)), 40);
    let h = lesser(lesser(containers as int % 0x1_0000 + 5, 20), less(area.height as int, 4));
    Area {
        x: (area.x + less(area.width as int, w) / 2) as u16,
        y: (area.y + less(area.height as int, h) / 2) as u16,
        width: w as u16,
        height: h as u16,
    }
}

/// The heading of the list.
pub open spec fn selector_title(s: SelectorModel) -> Seq<char> {
    " "@ + action_label(s.action) + " Container — "@ + s.pod_name + " "@
}

/// The names of the columns.
pub open spec fn selector_header() -> Seq<SpanModel> {
    line_of_span(
        " "@ + padded("CONTAINER"@, 20) + " "@ + padded("TYPE"@, 10) + " "@ + padded(
            "STATUS"@,
            10,
        ) + " "@ + "RESTARTS"@,
        bold(Color::BrightYellow),
    )
}

/// A horizontal line.
pub open spec fn rule(width: nat) -> Seq<SpanModel> {
    line_of_span(" "@ + repeated('─', width), colored(Color::Bg3))
}

/// The colour of a status.
pub open spec fn status_color(status: Seq<char>) -> Color {
    if status == "Running"@ {
        Color::BrightGreen
    } else if status == "Terminated"@ || status == "Completed"@ {
        Color::BrightRed
    } else if status == "Waiting"@ || status == "CrashLoopBackOff"@ {
        Color::BrightYellow
    } else {
        Color::Fg4
    }
}

/// The line of a container; the one at the cursor stands out.
pub open spec fn container_line(c: InfoModel, at_cursor: bool) -> Seq<SpanModel> {
    let base = if at_cursor {
        bold(Color::BrightAqua)
    } else {
        colored(Color::Fg)
    };
    let faint = if at_cursor {
        base
    } else {
        colored(Color::Fg4)
    };
    let state = if at_cursor {
        base
    } else {
        colored(status_color(c.status))
    };
    seq![
        span(
            (if at_cursor {
                "▸"@
            } else {
                " "@
            }) + " "@,
            base,
        ),
        span(padded(c.name, 20), base),
        span(
            padded(
                if c.is_init {
                    "init"@
                } else {
                    "container"@
                },
                10,
            ),
            faint,
        ),
        span(
            padded(
                if c.status.len() == 0 {
                    "-"@
                } else {
                    c.status
                },
                10,
            ),
            state,
        ),
        span(decimal(c.restarts as nat), faint),
    ]
}

/// The lines of the containers.
pub open spec fn container_lines(containers: Seq<ContainerInfo>, cursor: int) -> Seq<
    Seq<SpanModel>,
> {
    Seq::new(containers.len(), |i: int| container_line(containers[i]@, i == cursor))
}

/// The lines of the list.
pub open spec fn selector_lines(s: SelectorModel, rule_width: nat) -> Seq<Seq<SpanModel>> {
    seq![selector_header(), rule(rule_width)] + container_lines(s.containers, s.cursor as int)
        + seq![
        rule(rule_width),
        line_of_span(" ↑↓/jk: navigate  Enter: select  ESC: cancel"@, colored(Color::Fg4)),
    ]
}

fn color_of_status(status: &str) -> (r: Color)
    ensures
        r == status_color(status@),
{
    if same(status, "Running") {
        Color::BrightGreen
    } else if same(status, "Terminated") || same(status, "Completed") {
        Color::BrightRed
    } else if same(status, "Waiting") || same(status, "CrashLoopBackOff") {
        Color::BrightYellow
    } else {
        Color::Fg4
    }
}

fn build_rule(width: usize) -> (r: Line)
    ensures
        r@ == rule(width as nat),
{
    let mut text = " ".to_owned();
    text.append(repeat('─', width).as_str());
    Line::of(text, Style::colored(Color::Bg3))
}

fn build_header() -> (r: Line)
    ensures
        r@ == selector_header(),
{
    let mut text = " ".to_owned();
    text.append(pad("CONTAINER", 20).as_str());
    text.append(" ");
    text.append(pad("TYPE", 10).as_str());
    text.append(" ");
    text.append(pad("STATUS", 10).as_str());
    text.append(" ");
    text.append("RESTARTS");
    Line::of(text, Style::bold(Color::BrightYellow))
}

fn build_container_line(c: &ContainerInfo, at_cursor: bool) -> (r: Line)
    ensures
        r@ == container_line(c@, at_cursor),
{
    let base = if at_cursor {
        Style::bold(Color::BrightAqua)
    } else {
        Style::colored(Color::Fg)
    };
    let faint = if at_cursor {
        base
    } else {
        Style::colored(Color::Fg4)
    };
    let state = if at_cursor {
        base
    } else {
        Style::colored(color_of_status(c.status.as_str()))
    };
    let mark = if at_cursor {
        "▸"
    } else {
        " "
    };
    let kind = if c.is_init {
        "init"
    } else {
        "container"
    };
    let status = if c.status.as_str().is_empty() {
        "-"
    } else {
        c.status.as_str()
    };
    let mut indicator = mark.to_owned();
    indicator.append(" ");
    let mut line = Line::of(indicator, base);
    line.add_styled(pad(c.name.as_str(), 20), base);
    line.add_styled(pad(kind, 10), faint);
    line.add_styled(pad(status, 10), state);
    line.add_styled(decimal_u64(c.restarts as u64), faint);
    proof {
        assert(line@ =~= container_line(c@, at_cursor));
    }
    line
}

impl ContainerSelector {
    fn build_lines(&self, rule_width: usize) -> (r: Vec<Line>)
        ensures
            lines_model(r@) == selector_lines(self@, rule_width as nat),
    {
        let ghost head = seq![selector_header(), rule(rule_width as nat)];
        let ghost all = container_lines(self.containers@, self.cursor as int);
        let mut lines: Vec<Line> = Vec::new();
        lines.push(build_header());
        lines.push(build_rule(rule_width));
        let mut i: usize = 0;
        proof {
            assert(lines_model(lines@) =~= head + all.take(0));
        }
        while i < self.containers.len()
            invariant
                i <= self.containers@.len(),
                all == container_lines(self.containers@, self.cursor as int),
                lines_model(lines@) == head + all.take(i as int),
            decreases self.containers@.len() - i,
        {
            lines.push(build_container_line(&self.containers[i], i == self.cursor));
            proof {
                assert((head + all.take(i as int)).push(all[i as int]) =~= head + all.take(i + 1));
            }
            i += 1;
        }
        lines.push(build_rule(rule_width));
        lines.push(
            Line::of(
                " ↑↓/jk: navigate  Enter: select  ESC: cancel".to_owned(),
                Style::colored(Color::Fg4),
            ),
        );
        proof {
            assert(all.take(i as int) =~= all);
            assert(lines_model(lines@) =~= selector_lines(self@, rule_width as nat));
        }
        lines
    }

    /// Lays the list out on the screen. Nothing is drawn while it is hidden or
    /// empty, or where the screen is too small.
    pub fn render(&self, area: Area) -> (r: Option<SelectorFrame>)
        requires
            self.visible && self.containers@.len() > 0 ==> {
                &&& area.x + greater(area.width as int, 40) <= u16::MAX
                &&& area.y + area.height <= u16::MAX
                &&& self.containers@.len() as int % 0x1_0000 + 5 <= u16::MAX
            },
        ensures
            ({
                let popup = selector_popup(self.containers@.len(), area);
                &&& r is Some == (self.visible && self.containers@.len() > 0 && popup.height >= 5)
                &&& r is Some ==> {
                    &&& r->0.title@ == selector_title(self@)
                    &&& r->0.popup == popup
                    &&& r->0.inner == (Area {
                        x: (popup.x + 1) as u16,
                        y: (popup.y + 1) as u16,
                        width: (popup.width - 2) as u16,
                        height: (popup.height - 2) as u16,
                    })
                    &&& lines_model(r->0.lines@) == selector_lines(
                        self@,
                        (popup.width - 4) as nat,
                    )
                }
            }),
    {
        if !self.visible || self.containers.len() == 0 {
            return None;
        }
        let n: usize = self.containers.len();
        let rows: u16 = (n % 0x1_0000) as u16;
        let height: u16 = at_most(at_most(rows + 5, 20), minus(area.height, 4));
        let width: u16 = at_least(at_most(70, minus(area.width, 4)), 40);
        if height < 5 {
            return None;
        }
        let x: u16 = area.x + minus(area.width, width) / 2;
        let y: u16 = area.y + minus(area.height, height) / 2;
        let popup = Area { x, y, width, height };
        let inner = Area { x: x + 1, y: y + 1, width: minus(width, 2), height: minus(height, 2) };
        let mut title = framed(" ", self.action.label(), " Container — ");
        title.append(self.pod_name.as_str());
        title.append(" ");
        let lines = self.build_lines(minus(inner.width, 2) as usize);
        Some(SelectorFrame { title, popup, inner, lines })
    }
}

/// Taking right after confirming gives the container at the cursor, for the pod
/// and the action that the list was opened for; taking again gives nothing.
pub proof fn law_confirmed_container_taken_once(s: SelectorModel)
    requires
        s.cursor < s.containers.len(),
    ensures
        selection(confirmed(s)) == Some(
            SelectionModel {
                pod_name: s.pod_name,
                namespace: s.namespace,
                container_name: s.containers[s.cursor as int].name@,
                action: s.action,
            },
        ),
        selection(taken(confirmed(s))) is None,
{
}

} // verus!
