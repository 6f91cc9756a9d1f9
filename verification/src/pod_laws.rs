//! Laws of what is done with a single pod: its containers, its ports, its logs and
//! commands run in it.
use vstd::prelude::*;
use crate::container_selector::{
    confirmed, container_info, container_lines, hidden_selector, items_or_none, opened_selector,
    pod_containers, selection, selector_lines, selector_popup, state_text, status_color, status_of,
    taken, value_containers, value_info, value_restarts, value_status_of, ContainerAction,
    ContainerInfo, SelectorModel,
};
use crate::display::{Area, Color};
use crate::json::{member, member_items, member_text, unsigned_of, Json};
use crate::list::{
    collect, first_where, lemma_collect_contains, lemma_first_where, lemma_first_where_at,
};
use crate::log_viewer::{
    half_page, log_color, log_footer, log_inner, log_lines, log_popup, log_title, LogViewer,
};
use crate::objects::{
    Container, ContainerState, ContainerStatus, DeclaredPort, IntOrString, Pod, Service,
    ServicePortSpec,
};
use crate::pod_exec::{
    all_shown, commands_of, output_parts, shown, ExecMessage, ExecRequest, ScreenModel,
};
use crate::port_detect::{
    all_pod_ports, all_service_ports, declared_ports, find_named, has_port, has_service_port,
    inits_of, mains_of, named_port, pod_ports, port_named, port_text, ports_of,
    service_port_text, service_ports, show_port, show_service_port, target_of, PortModel,
    ServicePortModel, TargetModel,
};
use crate::scan::lemma_char_index_bound;
use crate::text::{decimal, has_substring};

verus! {

// ---------------------------------------------------------------------------
// Containers
// ---------------------------------------------------------------------------

/// A container that runs is shown as running; else one that ended shows why it did,
/// and else one that waits shows why.
pub proof fn law_container_states(s: ContainerState)
    ensures
        s.running ==> state_text(Some(s)) == "Running"@,
        !s.running && s.terminated is Some && s.terminated->0.reason is Some ==> state_text(
            Some(s),
        ) == s.terminated->0.reason->0@,
        !s.running && s.terminated is Some && s.terminated->0.reason is None ==> state_text(
            Some(s),
        ) == "Terminated"@,
        !s.running && s.terminated is None && s.waiting is Some && s.waiting->0.reason is Some
            ==> state_text(Some(s)) == s.waiting->0.reason->0@,
        !s.running && s.terminated is None && s.waiting is Some && s.waiting->0.reason is None
            ==> state_text(Some(s)) == "Waiting"@,
        !s.running && s.terminated is None && s.waiting is None ==> state_text(Some(s))
            == "Unknown"@,
        state_text(None) == "Unknown"@,
{
}

/// A container is listed under its name with its image, and with the state and the
/// restarts of the status that bears its name; without one it is pending.
pub proof fn law_containers_join_their_status(
    c: Container,
    statuses: Seq<ContainerStatus>,
    is_init: bool,
    i: int,
)
    ensures
        container_info(c, statuses, is_init).name == c.name@,
        container_info(c, statuses, is_init).is_init == is_init,
        c.image is Some ==> container_info(c, statuses, is_init).image == c.image->0@,
        c.image is None ==> container_info(c, statuses, is_init).image.len() == 0,
        0 <= i < statuses.len() && statuses[i].name@ == c.name@ && (forall|k: int|
            0 <= k < i ==> (#[trigger] statuses[k]).name@ != c.name@) ==> {
            &&& container_info(c, statuses, is_init).status == state_text(statuses[i].state)
            &&& statuses[i].restart_count >= 0 ==> container_info(c, statuses, is_init).restarts
                == statuses[i].restart_count
        },
        (forall|k: int| 0 <= k < statuses.len() ==> (#[trigger] statuses[k]).name@ != c.name@)
            ==> container_info(c, statuses, is_init).status == "Pending"@ && container_info(
            c,
            statuses,
            is_init,
        ).restarts == 0,
{
    let same = status_of(c.name@);
    if 0 <= i < statuses.len() && statuses[i].name@ == c.name@ && (forall|k: int|
        0 <= k < i ==> (#[trigger] statuses[k]).name@ != c.name@) {
        lemma_first_where_at(statuses, i, same);
    }
    lemma_first_where(statuses, same);
}

/// Every container of a pod is listed, the init containers before the others, each
/// with the statuses of its sort.
pub proof fn law_all_containers_listed(pod: Pod, i: int)
    requires
        pod.spec is Some,
    ensures
        ({
            let inits = items_or_none(pod.spec->0.init_containers);
            let mains = pod.spec->0.containers@;
            let all = pod_containers(pod);
            &&& all.len() == inits.len() + mains.len()
            &&& 0 <= i < inits.len() ==> all[i].name == inits[i].name@ && all[i].is_init
            &&& 0 <= i < mains.len() ==> all[inits.len() + i].name == mains[i].name@
                && !all[inits.len() + i].is_init
            &&& 0 <= i < inits.len() && pod.status is Some
                && pod.status->0.init_container_statuses is Some ==> all[i] == container_info(
                inits[i],
                pod.status->0.init_container_statuses->0@,
                true,
            )
            &&& 0 <= i < mains.len() && pod.status is Some
                && pod.status->0.container_statuses is Some ==> all[inits.len() + i] == container_info(
                mains[i],
                pod.status->0.container_statuses->0@,
                false,
            )
        }),
{
}

/// The same of a pod that is given as a value.
pub proof fn law_containers_of_a_value_join_their_status(
    c: Json,
    statuses: Seq<Json>,
    is_init: bool,
    name: Seq<char>,
    i: int,
)
    requires
        member_text(c, "name"@) == Some(name),
    ensures
        value_info(c, statuses, is_init).name == name,
        value_info(c, statuses, is_init).is_init == is_init,
        member_text(c, "image"@) is Some ==> value_info(c, statuses, is_init).image
            == member_text(c, "image"@)->0,
        member_text(c, "image"@) is None ==> value_info(c, statuses, is_init).image.len() == 0,
        0 <= i < statuses.len() && member_text(statuses[i], "name"@) == Some(name) && (forall|
            k: int,
        |
            0 <= k < i ==> member_text(#[trigger] statuses[k], "name"@) != Some(name)) ==> {
            let state = member(statuses[i], "state"@);
            let status = value_info(c, statuses, is_init).status;
            &&& state is None ==> status == "Unknown"@
            &&& state is Some && member(state->0, "running"@) is Some ==> status == "Running"@
            &&& state is Some && member(state->0, "running"@) is None && member(
                state->0,
                "terminated"@,
            ) is Some ==> (match member_text(member(state->0, "terminated"@)->0, "reason"@) {
                Some(why) => status == why,
                None => status == "Terminated"@,
            })
            &&& state is Some && member(state->0, "running"@) is None && member(
                state->0,
                "terminated"@,
            ) is None && member(state->0, "waiting"@) is Some ==> (match member_text(
                member(state->0, "waiting"@)->0,
                "reason"@,
            ) {
                Some(why) => status == why,
                None => status == "Waiting"@,
            })
            &&& state is Some && member(state->0, "running"@) is None && member(
                state->0,
                "terminated"@,
            ) is None && member(state->0, "waiting"@) is None ==> status == "Unknown"@
            &&& value_info(c, statuses, is_init).restarts == value_restarts(Some(statuses[i]))
        },
        (forall|k: int|
            0 <= k < statuses.len() ==> member_text(#[trigger] statuses[k], "name"@) != Some(name))
            ==> value_info(c, statuses, is_init).status == "Pending"@ && value_info(
            c,
            statuses,
            is_init,
        ).restarts == 0,
{
    let same = value_status_of(name);
    if 0 <= i < statuses.len() && member_text(statuses[i], "name"@) == Some(name) && (forall|k: int|
        0 <= k < i ==> member_text(#[trigger] statuses[k], "name"@) != Some(name)) {
        lemma_first_where_at(statuses, i, same);
    }
    lemma_first_where(statuses, same);
}

/// A status that is given as a value counts its restarts by the number it gives.
pub proof fn law_restarts_of_a_value(cs: Json, n: u64)
    requires
        member(cs, "restartCount"@) is Some,
        unsigned_of(member(cs, "restartCount"@)->0) == Some(n),
    ensures
        n <= u32::MAX ==> value_restarts(Some(cs)) == n,
{
}

/// Every container of a pod that is given as a value is listed, the init containers
/// before the others.
pub proof fn law_all_containers_of_a_value_listed(
    pod: Json,
    inits: Seq<Json>,
    mains: Seq<Json>,
    i: int,
)
    requires
        member(pod, "spec"@) is Some,
        member_items(member(pod, "spec"@)->0, "initContainers"@) == Some(inits),
        member_items(member(pod, "spec"@)->0, "containers"@) == Some(mains),
    ensures
        value_containers(pod).len() == inits.len() + mains.len(),
        0 <= i < inits.len() ==> value_containers(pod)[i].is_init && (match member_text(
            inits[i],
            "name"@,
        ) {
            Some(name) => value_containers(pod)[i].name == name,
            None => value_containers(pod)[i].name.len() == 0,
        }),
        0 <= i < mains.len() ==> !value_containers(pod)[inits.len() + i].is_init && (
        match member_text(mains[i], "name"@) {
            Some(name) => value_containers(pod)[inits.len() + i].name == name,
            None => value_containers(pod)[inits.len() + i].name.len() == 0,
        }),
        member(pod, "status"@) is Some && member_items(
            member(pod, "status"@)->0,
            "containerStatuses"@,
        ) is Some && 0 <= i < mains.len() ==> value_containers(pod)[inits.len() + i] == value_info(
            mains[i],
            member_items(member(pod, "status"@)->0, "containerStatuses"@)->0,
            false,
        ),
        member(pod, "status"@) is Some && member_items(
            member(pod, "status"@)->0,
            "initContainerStatuses"@,
        ) is Some && 0 <= i < inits.len() ==> value_containers(pod)[i] == value_info(
            inits[i],
            member_items(member(pod, "status"@)->0, "initContainerStatuses"@)->0,
            true,
        ),
{
}

/// The choice opens at the first container with nothing chosen; confirming chooses
/// the container at the cursor and closes it; what is handed on is that container
/// of the pod, for what the choice was opened for; and it is handed on once.
pub proof fn law_the_container_at_the_cursor_is_chosen(
    pod_name: Seq<char>,
    namespace: Seq<char>,
    containers: Seq<ContainerInfo>,
    action: ContainerAction,
    cursor: usize,
)
    requires
        cursor < containers.len(),
    ensures
        ({
            let s = opened_selector(pod_name, namespace, containers, action);
            let moved = SelectorModel { cursor, ..s };
            let done = confirmed(moved);
            &&& s.visible && s.cursor == 0 && s.selected is None
            &&& selection(s) is None
            &&& !done.visible && done.selected == Some(cursor)
            &&& selection(done) is Some
            &&& selection(done)->0.container_name == containers[cursor as int].name@
            &&& selection(done)->0.pod_name == pod_name
            &&& selection(done)->0.namespace == namespace
            &&& selection(done)->0.action == action
            &&& selection(taken(done)) is None
        }),
{
}

/// Of no containers none is chosen.
pub proof fn law_of_none_none_is_chosen(s: SelectorModel)
    requires
        s.containers.len() == 0,
    ensures
        confirmed(s) == s,
        selection(s) is None,
        !hidden_selector().visible && selection(hidden_selector()) is None,
{
}

/// The choice shows a line for each container, with its name, its sort, its state
/// and its restarts, between the head and the keys; the one at the cursor is marked.
pub proof fn law_choice_has_a_line_for_each_container(s: SelectorModel, width: nat, i: int)
    requires
        0 <= i < s.containers.len(),
    ensures
        selector_lines(s, width).len() == s.containers.len() + 4,
        ({
            let line = selector_lines(s, width)[i + 2];
            &&& line.len() == 5
            &&& line[0].content == if i == s.cursor {
                "▸"@ + " "@
            } else {
                " "@ + " "@
            }
            &&& line[1].content.len() >= s.containers[i].name@.len()
            &&& line[1].content.take(s.containers[i].name@.len() as int) == s.containers[i].name@
            &&& line[4].content == decimal(s.containers[i].restarts as nat)
        }),
{
    let line = selector_lines(s, width)[i + 2];
    assert(line == container_lines(s.containers, s.cursor as int)[i]);
    assert(line[1].content.take(s.containers[i].name@.len() as int) =~= s.containers[i].name@);
}

/// A state is green if the container runs, red if it ended and yellow if it waits.
pub proof fn law_state_colors()
    ensures
        status_color("Running"@) == Color::BrightGreen,
        status_color("Terminated"@) == Color::BrightRed,
        status_color("Completed"@) == Color::BrightRed,
        status_color("Waiting"@) == Color::BrightYellow,
        status_color("CrashLoopBackOff"@) == Color::BrightYellow,
        forall|s: Seq<char>|
            s != "Running"@ && s != "Terminated"@ && s != "Completed"@ && s != "Waiting"@ && s
                != "CrashLoopBackOff"@ ==> #[trigger] status_color(s) == Color::Fg4,
{
    reveal_strlit("Running");
    reveal_strlit("Terminated");
    reveal_strlit("Completed");
    reveal_strlit("Waiting");
    reveal_strlit("CrashLoopBackOff");
    assert("Terminated"@.len() == 10 && "Running"@.len() == 7 && "Completed"@.len() == 9);
    assert("Running"@[0] == 'R' && "Waiting"@[0] == 'W');
}

// ---------------------------------------------------------------------------
// Logs
// ---------------------------------------------------------------------------

/// The lines from the offset on are shown, as many as there is room for.
pub proof fn law_logs_show_from_the_offset(v: LogViewer, height: int, i: int)
    requires
        v.wf(),
        height >= 0,
        v.lines@.len() > 0,
    ensures
        ({
            let shown_lines = log_lines(v, height);
            &&& v.scroll_offset + height <= v.lines@.len() ==> shown_lines.len() == height
            &&& v.scroll_offset + height > v.lines@.len() ==> shown_lines.len()
                == v.lines@.len() - v.scroll_offset
            &&& 0 <= i < shown_lines.len() ==> shown_lines[i].len() == 1
                && shown_lines[i][0].content == v.lines@[v.scroll_offset + i]@
        }),
{
}

/// The foot of the logs counts the lines up to the last that is shown.
pub proof fn law_log_foot_counts_lines(v: LogViewer, height: int)
    requires
        v.wf(),
        height >= 0,
    ensures
        v.lines@.len() == 0 ==> log_footer(v, height)[1].content == " 0/0 "@,
        v.lines@.len() > 0 && v.scroll_offset + height >= v.lines@.len() ==> log_footer(
            v,
            height,
        )[1].content == " "@ + decimal(v.lines@.len()) + "/"@ + decimal(v.lines@.len()) + " "@,
        v.lines@.len() > 0 && v.scroll_offset + height < v.lines@.len() ==> log_footer(
            v,
            height,
        )[1].content == " "@ + decimal((v.scroll_offset + height) as nat) + "/"@ + decimal(
            v.lines@.len(),
        ) + " "@,
{
}

/// A log line is red if it speaks of an error, else yellow if it warns.
pub proof fn law_log_colors(line: Seq<char>)
    ensures
        log_color(line) == Color::BrightRed <==> has_substring(line, "ERROR"@) || has_substring(
            line,
            "error"@,
        ) || has_substring(line, "FATAL"@),
        log_color(line) == Color::BrightYellow <==> log_color(line) != Color::BrightRed && (
        has_substring(line, "WARN"@) || has_substring(line, "warn"@)),
        log_color(line) == Color::BrightRed || log_color(line) == Color::BrightYellow || log_color(
            line,
        ) == Color::Fg,
{
}

/// The logs name the pod and the container that they are of, and that they are
/// followed.
pub proof fn law_log_title(v: LogViewer)
    ensures
        v.auto_follow ==> log_title(v) == " Logs: "@ + v.namespace@ + "/"@ + v.pod_name@ + " ("@
            + v.container_name@ + ") "@ + " [FOLLOW]"@ + " "@,
        !v.auto_follow ==> log_title(v) == " Logs: "@ + v.namespace@ + "/"@ + v.pod_name@ + " ("@
            + v.container_name@ + ") "@ + " "@,
{
    if !v.auto_follow {
        assert(log_title(v) =~= " Logs: "@ + v.namespace@ + "/"@ + v.pod_name@ + " ("@
            + v.container_name@ + ") "@ + " "@);
    }
}

/// The logs lie within a screen of some size, two cells from each edge or nearly so.
pub proof fn law_logs_lie_within_the_screen(area: Area)
    requires
        area.width >= 44,
        area.height >= 14,
        area.x + area.width <= u16::MAX,
        area.y + area.height <= u16::MAX,
    ensures
        ({
            let popup = log_popup(area);
            let inner = log_inner(popup);
            &&& popup.x == area.x + 2 && popup.y == area.y + 2
            &&& popup.width == area.width - 4 && popup.height == area.height - 4
            &&& popup.x < inner.x && inner.x + inner.width < popup.x + popup.width
            &&& popup.y < inner.y && inner.y + inner.height < popup.y + popup.height
        }),
{
}

/// The choice of containers lies within a screen of some size, in its middle.
pub proof fn law_choice_lies_within_the_screen(containers: nat, area: Area)
    requires
        area.width >= 44,
        area.height >= 14,
        area.x + area.width <= u16::MAX,
        area.y + area.height <= u16::MAX,
        containers < 1000,
    ensures
        ({
            let popup = selector_popup(containers, area);
            let left = popup.x - area.x;
            let right = area.x + area.width - popup.x - popup.width;
            let above = popup.y - area.y;
            let below = area.y + area.height - popup.y - popup.height;
            &&& 2 <= left <= right <= left + 1
            &&& 2 <= above <= below <= above + 1
            &&& popup.width <= 70 && popup.height <= 20
            &&& containers + 5 <= 20 && containers + 5 <= area.height - 4 ==> popup.height
                == containers + 5
        }),
{
}

// ---------------------------------------------------------------------------
// Commands in a pod
// ---------------------------------------------------------------------------

/// A given command is run as it is; without one the shells are tried, bash first.
pub proof fn law_commands_tried(req: ExecRequest)
    ensures
        req.command@.len() > 0 ==> commands_of(req).len() == 1 && commands_of(req)[0].len()
            == req.command@.len(),
        req.command@.len() > 0 ==> forall|i: int|
            0 <= i < req.command@.len() ==> #[trigger] commands_of(req)[0][i] == req.command@[i]@,
        req.command@.len() == 0 ==> commands_of(req).len() == 2,
        req.command@.len() == 0 ==> commands_of(req)[0] == seq!["/bin/bash"@],
        req.command@.len() == 0 ==> commands_of(req)[1] == seq!["/bin/sh"@],
{
}

/// The first line of an output is what stands before its first line break; what
/// follows is taken apart in the same way. Nothing but line breaks is lost.
pub proof fn law_output_is_split_at_line_breaks(head: Seq<char>, rest: Seq<char>)
    requires
        !head.contains('\n'),
    ensures
        head.len() > 0 ==> output_parts(head) == seq![head],
        head.len() > 0 ==> output_parts(head + seq!['\n'] + rest) == seq![head] + output_parts(
            rest,
        ),
        head.len() == 0 ==> output_parts(head + seq!['\n'] + rest) == output_parts(rest),
        output_parts(Seq::empty()).len() == 0,
{
    let s = head + seq!['\n'] + rest;
    let n = head.len() as int;
    assert(s[n] == '\n');
    assert forall|i: int| 0 <= i < n implies #[trigger] s[i] != '\n' by {
        assert(s[i] == head[i]);
        assert(head.contains(head[i]));
    }
    assert forall|i: int| 0 <= i < n implies #[trigger] head[i] != '\n' by {
        assert(head.contains(head[i]));
    }
    crate::scan::lemma_char_index(s, '\n', n);
    crate::scan::lemma_char_index(head, '\n', n);
    assert(s.take(n) =~= head);
    assert(s.skip(n + 1) =~= rest);
    assert(Seq::<Seq<char>>::empty() + output_parts(rest) =~= output_parts(rest));
    lemma_char_index_bound(Seq::<char>::empty(), '\n');
}

/// An output is added below what is shown and the session goes on; the end of the
/// session, or an error, adds one line that says so, and ends it.
pub proof fn law_messages_are_shown(s: ScreenModel, msg: ExecMessage)
    ensures
        msg is Exited || msg is Error ==> !shown(s, msg).active && shown(s, msg).lines.len()
            == s.lines.len() + 1,
        msg is Stdout || msg is Stderr ==> shown(s, msg).active == s.active,
        msg matches ExecMessage::Error(e) ==> shown(s, msg).lines.last() == "[error: "@ + e@
            + "]"@,
        msg matches ExecMessage::Exited(None) ==> shown(s, msg).lines.last()
            == "[session exited]"@,
        msg matches ExecMessage::Exited(Some(r)) ==> shown(s, msg).lines.last()
            == "[session exited: "@ + r@ + "]"@,
        s.lines.len() <= shown(s, msg).lines.len() && shown(s, msg).lines.take(
            s.lines.len() as int,
        ) == s.lines,
{
    assert(shown(s, msg).lines.take(s.lines.len() as int) =~= s.lines);
}

/// The two outputs of a command are shown alike.
pub proof fn law_both_outputs_are_shown(s: ScreenModel, bytes: Vec<u8>)
    ensures
        shown(s, ExecMessage::Stdout(bytes)) == shown(s, ExecMessage::Stderr(bytes)),
        shown(s, ExecMessage::Stdout(bytes)).lines == s.lines + output_parts(
            crate::pod_exec::lossy_text(bytes@),
        ),
{
}

/// The messages are shown in the order in which they came.
pub proof fn law_messages_in_order(s: ScreenModel, msgs: Seq<ExecMessage>, n: int)
    requires
        0 <= n < msgs.len(),
    ensures
        all_shown(s, msgs, 0) == s,
        all_shown(s, msgs, n + 1) == shown(all_shown(s, msgs, n), msgs[n]),
{
}

// ---------------------------------------------------------------------------
// Ports
// ---------------------------------------------------------------------------

/// What the ports of some containers are.
proof fn lemma_ports_of(pod: Pod, containers: Seq<Container>, n: int, p: PortModel)
    requires
        0 <= n <= containers.len(),
    ensures
        ports_of(pod, containers, n).contains(p) <==> exists|i: int, k: int|
            0 <= i < n && 0 <= k < declared_ports(containers[i]).len() && is_shown_by(
                pod,
                #[trigger] containers[i],
                #[trigger] declared_ports(containers[i])[k],
                p,
            ),
    decreases n,
{
    if n > 0 {
        lemma_ports_of(pod, containers, n - 1, p);
        let c = containers[n - 1];
        let own = collect(declared_ports(c), has_port(), show_port(pod, c.name@));
        let before = ports_of(pod, containers, n - 1);
        let all = ports_of(pod, containers, n);
        lemma_collect_contains(declared_ports(c), has_port(), show_port(pod, c.name@), p);
        if all.contains(p) {
            let at = choose|at: int| 0 <= at < all.len() && all[at] == p;
            if at < before.len() {
                assert(before[at] == p);
                assert(before.contains(p));
            } else {
                assert(own[at - before.len()] == p);
                assert(own.contains(p));
                let k = choose|k: int|
                    0 <= k < declared_ports(c).len() && has_port()(#[trigger] declared_ports(c)[k])
                        && show_port(pod, c.name@)(declared_ports(c)[k]) == p;
                assert(is_shown_by(
                    pod,
                    containers[n - 1],
                    declared_ports(containers[n - 1])[k],
                    p,
                ));
            }
        }
        if exists|i: int, k: int|
            0 <= i < n && 0 <= k < declared_ports(containers[i]).len() && is_shown_by(
                pod,
                #[trigger] containers[i],
                #[trigger] declared_ports(containers[i])[k],
                p,
            ) {
            let (i, k) = choose|i: int, k: int|
                0 <= i < n && 0 <= k < declared_ports(containers[i]).len() && is_shown_by(
                    pod,
                    #[trigger] containers[i],
                    #[trigger] declared_ports(containers[i])[k],
                    p,
                );
            if i == n - 1 {
                assert(has_port()(declared_ports(c)[k]));
                assert(show_port(pod, c.name@)(declared_ports(c)[k]) == p);
                assert(own.contains(p));
                let at = choose|at: int| 0 <= at < own.len() && own[at] == p;
                assert(all[before.len() + at] == p);
            } else {
                assert(before.contains(p));
                let at = choose|at: int| 0 <= at < before.len() && before[at] == p;
                assert(all[at] == p);
            }
        }
    }
}

/// Whether an entry shows a port that a container declares: its number, its
/// protocol, which is TCP where none is named, and its name.
pub open spec fn is_shown_by(pod: Pod, c: Container, d: DeclaredPort, p: PortModel) -> bool {
    &&& 0 <= d.container_port <= 65535
    &&& p.container_port == d.container_port
    &&& p.container_name == c.name@
    &&& p.pod_name == match pod.meta.name {
        Some(s) => s@,
        None => Seq::empty(),
    }
    &&& p.namespace == match pod.meta.namespace {
        Some(s) => s@,
        None => Seq::empty(),
    }
    &&& p.protocol == match d.protocol {
        Some(s) => s@,
        None => "TCP"@,
    }
    &&& p.port_name == match d.name {
        Some(s) => Some(s@),
        None => None,
    }
}

/// A port is listed exactly if a container of the pod declares it, be it an init
/// container or another.
pub proof fn law_declared_ports_are_listed(pod: Pod, p: PortModel)
    ensures
        pod_ports(pod).contains(p) <==> ((exists|i: int, k: int|
            0 <= i < inits_of(pod).len() && 0 <= k < declared_ports(inits_of(pod)[i]).len()
                && is_shown_by(
                pod,
                #[trigger] inits_of(pod)[i],
                #[trigger] declared_ports(inits_of(pod)[i])[k],
                p,
            )) || (exists|i: int, k: int|
            0 <= i < mains_of(pod).len() && 0 <= k < declared_ports(mains_of(pod)[i]).len()
                && is_shown_by(
                pod,
                #[trigger] mains_of(pod)[i],
                #[trigger] declared_ports(mains_of(pod)[i])[k],
                p,
            ))),
{
    let a = ports_of(pod, inits_of(pod), inits_of(pod).len() as int);
    let b = ports_of(pod, mains_of(pod), mains_of(pod).len() as int);
    lemma_ports_of(pod, inits_of(pod), inits_of(pod).len() as int, p);
    lemma_ports_of(pod, mains_of(pod), mains_of(pod).len() as int, p);
    lemma_either(a, b, p);
}

/// What one of two lists holds, both hold together.
proof fn lemma_either<T>(a: Seq<T>, b: Seq<T>, x: T)
    ensures
        (a + b).contains(x) <==> a.contains(x) || b.contains(x),
{
    if a.contains(x) {
        let i = choose|i: int| 0 <= i < a.len() && a[i] == x;
        assert((a + b)[i] == x);
    }
    if b.contains(x) {
        let i = choose|i: int| 0 <= i < b.len() && b[i] == x;
        assert((a + b)[a.len() + i] == x);
    }
    if (a + b).contains(x) {
        let i = choose|i: int| 0 <= i < (a + b).len() && (a + b)[i] == x;
        if i < a.len() {
            assert(a[i] == x);
        } else {
            assert(b[i - a.len()] == x);
        }
    }
}

/// The containers whose ports are listed are those of the pod.
pub proof fn law_containers_with_ports(pod: Pod, c: Container)
    ensures
        pod.spec is Some ==> mains_of(pod) == pod.spec->0.containers@,
        pod.spec is Some && pod.spec->0.init_containers is Some ==> inits_of(pod)
            == pod.spec->0.init_containers->0@,
        pod.spec is Some && pod.spec->0.init_containers is None ==> inits_of(pod).len() == 0,
        pod.spec is None ==> pod_ports(pod).len() == 0,
        c.ports is Some ==> declared_ports(c) == c.ports->0@,
        c.ports is None ==> declared_ports(c).len() == 0,
{
}

/// The ports of many pods are those of each.
pub proof fn law_ports_of_many_pods(pods: Seq<Pod>, n: int, p: PortModel)
    requires
        0 <= n <= pods.len(),
    ensures
        all_pod_ports(pods, n).contains(p) <==> exists|i: int|
            0 <= i < n && pod_ports(#[trigger] pods[i]).contains(p),
    decreases n,
{
    if n > 0 {
        law_ports_of_many_pods(pods, n - 1, p);
        lemma_either(all_pod_ports(pods, n - 1), pod_ports(pods[n - 1]), p);
    }
}

/// Whether a port bears a name.
pub open spec fn bears(d: DeclaredPort, name: Seq<char>) -> bool {
    d.name matches Some(s) && s@ == name
}

/// Looking for a named port goes through the containers in order.
proof fn lemma_find_named(containers: Seq<Container>, name: Seq<char>)
    ensures
        match find_named(containers, name) {
            Some(p) => exists|i: int, k: int|
                0 <= i < containers.len() && 0 <= k < declared_ports(containers[i]).len()
                    && #[trigger] declared_ports(containers[i])[k] == p && bears(p, name),
            None => forall|i: int, k: int|
                0 <= i < containers.len() && 0 <= k < declared_ports(containers[i]).len()
                    ==> !bears(#[trigger] declared_ports(containers[i])[k], name),
        },
    decreases containers.len(),
{
    if containers.len() > 0 {
        let wanted = port_named(name);
        let ps = declared_ports(containers[0]);
        let rest = containers.drop_first();
        lemma_first_where(ps, wanted);
        lemma_find_named(rest, name);
        match first_where(ps, wanted) {
            Some(p) => {
                let k = choose|k: int|
                    0 <= k < ps.len() && #[trigger] ps[k] == p && wanted(p) && forall|j: int|
                        0 <= j < k ==> !wanted(#[trigger] ps[j]);
                assert(declared_ports(containers[0])[k] == p);
            },
            None => {
                assert forall|i: int, k: int|
                    0 <= i < containers.len() && 0 <= k < declared_ports(containers[i]).len()
                        && find_named(rest, name) is None implies !bears(
                    #[trigger] declared_ports(containers[i])[k],
                    name,
                ) by {
                    if i == 0 {
                        assert(!wanted(ps[k]));
                    } else {
                        assert(containers[i] == rest[i - 1]);
                        assert(!bears(declared_ports(rest[i - 1])[k], name));
                    }
                }
                if find_named(rest, name) is Some {
                    let p = find_named(rest, name)->0;
                    let (i, k) = choose|i: int, k: int|
                        0 <= i < rest.len() && 0 <= k < declared_ports(rest[i]).len()
                            && #[trigger] declared_ports(rest[i])[k] == p && bears(p, name);
                    assert(containers[i + 1] == rest[i]);
                    assert(declared_ports(containers[i + 1])[k] == p);
                }
            },
        }
    }
}

/// A port that is looked up by name bears that name; the containers of the pod are
/// asked before its init containers, and none is found only where no container
/// names one or what it names is no port.
pub proof fn law_ports_are_found_by_name(pod: Pod, name: Seq<char>, i: int, k: int)
    ensures
        (forall|a: int, b: int|
            0 <= a < mains_of(pod).len() && 0 <= b < declared_ports(mains_of(pod)[a]).len()
                ==> !bears(#[trigger] declared_ports(mains_of(pod)[a])[b], name)) && (
        forall|a: int, b: int|
            0 <= a < inits_of(pod).len() && 0 <= b < declared_ports(inits_of(pod)[a]).len()
                ==> !bears(#[trigger] declared_ports(inits_of(pod)[a])[b], name))
            ==> named_port(pod, name) is None,
        0 <= i < mains_of(pod).len() && 0 <= k < declared_ports(mains_of(pod)[i]).len()
            && bears(declared_ports(mains_of(pod)[i])[k], name) && named_port(
            pod,
            name,
        ) is Some ==> exists|a: int, b: int|
            0 <= a < mains_of(pod).len() && 0 <= b < declared_ports(mains_of(pod)[a]).len()
                && bears(#[trigger] declared_ports(mains_of(pod)[a])[b], name)
                && declared_ports(mains_of(pod)[a])[b].container_port == named_port(pod, name)->0,
        named_port(pod, name) matches Some(n) ==> 0 <= n <= 65535,
{
    lemma_find_named(mains_of(pod), name);
    lemma_find_named(inits_of(pod), name);
    if let Some(p) = find_named(inits_of(pod), name) {
        let (a, b) = choose|a: int, b: int|
            0 <= a < inits_of(pod).len() && 0 <= b < declared_ports(inits_of(pod)[a]).len()
                && #[trigger] declared_ports(inits_of(pod)[a])[b] == p && bears(p, name);
        assert(bears(declared_ports(inits_of(pod)[a])[b], name));
    }
}

/// The only port that bears a name is what the name stands for.
pub proof fn law_the_only_port_of_a_name(pod: Pod, name: Seq<char>, i: int, k: int)
    requires
        0 <= i < mains_of(pod).len(),
        0 <= k < declared_ports(mains_of(pod)[i]).len(),
        bears(declared_ports(mains_of(pod)[i])[k], name),
        0 <= declared_ports(mains_of(pod)[i])[k].container_port <= 65535,
        forall|a: int, b: int|
            0 <= a < mains_of(pod).len() && 0 <= b < declared_ports(mains_of(pod)[a]).len()
                && bears(#[trigger] declared_ports(mains_of(pod)[a])[b], name) ==> a == i
                && b == k,
    ensures
        named_port(pod, name) == Some(declared_ports(mains_of(pod)[i])[k].container_port as int),
{
    lemma_find_named(mains_of(pod), name);
}

/// A port of a service leads to the port that it names, by number or by name, and to
/// the same number where it names none.
pub proof fn law_service_ports_lead_to_their_target(p: ServicePortSpec)
    ensures
        p.target_port matches Some(IntOrString::Int(n)) ==> (0 <= n <= 65535 ==> target_of(p)
            == TargetModel::Number(n as u16)),
        p.target_port matches Some(IntOrString::Text(s)) ==> target_of(p) == TargetModel::Name(
            s@,
        ),
        p.target_port is None && 0 <= p.port <= 65535 ==> target_of(p) == TargetModel::Number(
            p.port as u16,
        ),
{
}

/// Whether an entry shows a port of a service.
pub open spec fn shows_service_port(
    svc: Service,
    d: ServicePortSpec,
    p: ServicePortModel,
) -> bool {
    &&& 0 <= d.port <= 65535
    &&& p.port == d.port
    &&& p.target_port == target_of(d)
    &&& p.service_name == match svc.meta.name {
        Some(s) => s@,
        None => Seq::empty(),
    }
    &&& p.namespace == match svc.meta.namespace {
        Some(s) => s@,
        None => Seq::empty(),
    }
    &&& p.protocol == match d.protocol {
        Some(s) => s@,
        None => "TCP"@,
    }
    &&& p.port_name == match d.name {
        Some(s) => Some(s@),
        None => None,
    }
    &&& d.node_port matches Some(n) ==> (0 <= n <= 65535 ==> p.node_port == Some(n as u16))
    &&& d.node_port is None ==> p.node_port is None
    &&& p.node_port matches Some(n) ==> d.node_port == Some(n as i32)
}

/// Every port of a service is listed whose number is one, and nothing else is.
pub proof fn law_service_ports_are_listed(svc: Service, ports: Vec<ServicePortSpec>, k: int)
    requires
        svc.spec is Some && svc.spec->0.ports == Some(ports),
    ensures
        0 <= k < service_ports(svc).len() ==> exists|i: int|
            0 <= i < ports@.len() && shows_service_port(
                svc,
                #[trigger] ports@[i],
                service_ports(svc)[k],
            ),
        0 <= k < ports@.len() && 0 <= ports@[k].port <= 65535 ==> exists|i: int|
            0 <= i < service_ports(svc).len() && shows_service_port(
                svc,
                ports@[k],
                #[trigger] service_ports(svc)[i],
            ),
{
    let all = service_ports(svc);
    if 0 <= k < all.len() {
        lemma_collect_contains(ports@, has_service_port(), show_service_port(svc), all[k]);
        assert(all.contains(all[k]));
        let i = choose|i: int|
            0 <= i < ports@.len() && has_service_port()(#[trigger] ports@[i])
                && show_service_port(svc)(ports@[i]) == all[k];
        assert(shows_service_port(svc, ports@[i], all[k]));
    }
    if 0 <= k < ports@.len() && 0 <= ports@[k].port <= 65535 {
        let y = show_service_port(svc)(ports@[k]);
        lemma_collect_contains(ports@, has_service_port(), show_service_port(svc), y);
        assert(has_service_port()(ports@[k]));
        assert(all.contains(y));
        let i = choose|i: int| 0 <= i < all.len() && all[i] == y;
        assert(shows_service_port(svc, ports@[k], all[i]));
    }
}

/// The ports of many services are those of each.
pub proof fn law_ports_of_many_services(svcs: Seq<Service>, n: int, p: ServicePortModel)
    requires
        0 <= n <= svcs.len(),
    ensures
        all_service_ports(svcs, n).contains(p) <==> exists|i: int|
            0 <= i < n && service_ports(#[trigger] svcs[i]).contains(p),
    decreases n,
{
    if n > 0 {
        law_ports_of_many_services(svcs, n - 1, p);
        lemma_either(all_service_ports(svcs, n - 1), service_ports(svcs[n - 1]), p);
    }
}

/// A port reads as its number and its protocol, and its name in brackets if it has
/// one.
pub proof fn law_port_reads_as_number_and_protocol(p: PortModel)
    ensures
        p.port_name is None ==> port_text(p) == decimal(p.container_port as nat) + "/"@
            + p.protocol,
        p.port_name matches Some(name) ==> port_text(p) == decimal(p.container_port as nat) + "/"@
            + p.protocol + (" ("@ + name + ")"@),
{
    if p.port_name is None {
        assert(port_text(p) =~= decimal(p.container_port as nat) + "/"@ + p.protocol);
    }
}

/// A port of a service reads as its number, its target where that differs, its port
/// on the nodes, its protocol and its name.
pub proof fn law_service_port_reads_with_target_and_node_port(p: ServicePortModel)
    ensures
        p.target_port == TargetModel::Number(p.port) && p.node_port is None && p.port_name is None
            ==> service_port_text(p) == decimal(p.port as nat) + "/"@ + p.protocol,
        p.target_port == TargetModel::Number(p.port) && p.port_name is None ==> (
        p.node_port matches Some(n) ==> service_port_text(p) == decimal(p.port as nat) + (":"@
            + decimal(n as nat)) + "/"@ + p.protocol),
        p.target_port matches TargetModel::Name(s) ==> (p.node_port is None && p.port_name is None
            ==> service_port_text(p) == decimal(p.port as nat) + ("→"@ + s) + "/"@ + p.protocol),
        p.target_port matches TargetModel::Number(t) ==> (t != p.port && p.node_port is None
            && p.port_name is None ==> service_port_text(p) == decimal(p.port as nat) + ("→"@
            + decimal(t as nat)) + "/"@ + p.protocol),
        p.target_port == TargetModel::Number(p.port) && p.node_port is None ==> (
        p.port_name matches Some(name) ==> service_port_text(p) == decimal(p.port as nat) + "/"@
            + p.protocol + (" ("@ + name + ")"@)),
{
    let number = decimal(p.port as nat);
    assert(number + Seq::<char>::empty() =~= number);
    let text = service_port_text(p);
    assert(text + Seq::<char>::empty() =~= text);
    match p.target_port {
        TargetModel::Name(s) => {
            assert(number + ("→"@ + s) + Seq::<char>::empty() =~= number + ("→"@ + s));
            assert(number + ("→"@ + s) + "/"@ + p.protocol + Seq::<char>::empty() =~= number + ("→"@
                + s) + "/"@ + p.protocol);
        },
        TargetModel::Number(t) => {
            let s = decimal(t as nat);
            assert(number + ("→"@ + s) + Seq::<char>::empty() =~= number + ("→"@ + s));
            assert(number + ("→"@ + s) + "/"@ + p.protocol + Seq::<char>::empty() =~= number + ("→"@
                + s) + "/"@ + p.protocol);
        },
    }
    assert(number + "/"@ + p.protocol + Seq::<char>::empty() =~= number + "/"@ + p.protocol);
    if let Some(n) = p.node_port {
        let node = ":"@ + decimal(n as nat);
        assert(number + node + "/"@ + p.protocol + Seq::<char>::empty() =~= number + node + "/"@
            + p.protocol);
    }
}

/// A page of the logs is half of what is in view, and never less than a line.
pub proof fn law_log_pages_are_half_a_view(height: usize)
    ensures
        half_page(height) >= 1,
        height >= 2 ==> 2 * half_page(height) <= height < 2 * half_page(height) + 2,
{
}

} // verus!
