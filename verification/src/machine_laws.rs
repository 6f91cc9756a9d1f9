//! Laws of the machines of the infrastructure and of quantities of memory.
use vstd::prelude::*;
use crate::check_laws::law_written_numbers_are_read_back;
use crate::data::ClusterSnapshot;
use crate::display::{lines_model, Area, Color};
use crate::infra::{
    is_loaded, pool_members, shows_pool, shows_vm, vm_node_map, vm_running, vm_running_total,
    vm_total, InfraSnapshot, SdiPoolInfo, SdiPoolState,
};
use crate::infra_view::{
    active_before, active_on, border_color, box_lines, card, cards, cpu_sum, detail_line,
    entries_of, grid, host_box, machine_lines, mem_sum, name_line, node_of, pool_entries, shows_box,
    state_color, summary_lines, BoxModel, CardModel, Entry, HostBox, HostFrame, UsageText,
};
use crate::json::{member, member_items, member_text, Json};
use crate::list::{
    count, lemma_count_extremes, lemma_count_positive, lemma_first_where, lemma_first_where_at,
};
use crate::metrics::{
    is_rss_line, lacks_usage, node_usage, pod_usage, reported, rss_text,
};
use crate::describe::DynamicObject;
use crate::quantity::{
    bytes_per, decimal_parts, in_unit, memory_display, memory_text, number_of, pow10, scale_of,
    shown_memory, tenths, Scale, GIB, KIB, MAX_BYTES, MIB, TIB,
};
use crate::scan::{lines, second_word};
use crate::text::{
    all_digits, decimal, digits_value, has_prefix, is_digit, is_white, text_bytes, trim_end,
    trim_start, trimmed,
};

verus! {

// ---------------------------------------------------------------------------
// Pools
// ---------------------------------------------------------------------------

/// What is kept of a machine is what is known of it.
pub proof fn law_machines_are_taken_over(info: SdiPoolInfo, state: SdiPoolState, i: int)
    requires
        shows_pool(info, state),
    ensures
        info.pool_name@ == state.pool_name@,
        info.purpose@ == state.purpose@,
        info.nodes@.len() == state.nodes@.len(),
        0 <= i < info.nodes@.len() ==> {
            let vm = info.nodes@[i];
            let from = state.nodes@[i];
            &&& vm.name@ == from.node_name@ && vm.ip@ == from.ip@ && vm.host@ == from.host@
            &&& vm.cpu == from.cpu && vm.mem_gb == from.mem_gb && vm.disk_gb == from.disk_gb
            &&& vm.status@ == from.status@ && vm.gpu == from.gpu_passthrough
        },
{
    if 0 <= i < info.nodes@.len() {
        assert(shows_vm(info.nodes@[i], state.nodes@[i]));
    }
}

/// A pool more counts its machines more, and of those that run as many as have that
/// state.
pub proof fn law_a_pool_more_counts_its_machines(pools: Seq<SdiPoolInfo>, pool: SdiPoolInfo)
    ensures
        vm_total(Seq::empty()) == 0,
        vm_running_total(Seq::empty()) == 0,
        vm_total(pools.push(pool)) == vm_total(pools) + pool.nodes@.len(),
        vm_running_total(pools.push(pool)) <= vm_running_total(pools) + pool.nodes@.len(),
        vm_running_total(pools.push(pool)) == vm_running_total(pools) <==> forall|i: int|
            0 <= i < pool.nodes@.len() ==> (#[trigger] pool.nodes@[i]).status@ != "running"@,
        vm_running_total(pools.push(pool)) == vm_running_total(pools) + pool.nodes@.len()
            <==> forall|i: int|
            0 <= i < pool.nodes@.len() ==> (#[trigger] pool.nodes@[i]).status@ == "running"@,
{
    assert(pools.push(pool).drop_last() =~= pools);
    lemma_count_extremes(pool.nodes@, vm_running());
    if forall|i: int|
        0 <= i < pool.nodes@.len() ==> (#[trigger] pool.nodes@[i]).status@ != "running"@ {
        assert forall|i: int| 0 <= i < pool.nodes@.len() implies !vm_running()(
            #[trigger] pool.nodes@[i],
        ) by {}
    }
    if forall|i: int|
        0 <= i < pool.nodes@.len() ==> (#[trigger] pool.nodes@[i]).status@ == "running"@ {
        assert forall|i: int| 0 <= i < pool.nodes@.len() implies vm_running()(
            #[trigger] pool.nodes@[i],
        ) by {}
    }
    if vm_running_total(pools.push(pool)) == vm_running_total(pools) {
        assert forall|i: int| 0 <= i < pool.nodes@.len() implies (
        #[trigger] pool.nodes@[i]).status@ != "running"@ by {
            assert(!vm_running()(pool.nodes@[i]));
        }
    }
    if vm_running_total(pools.push(pool)) == vm_running_total(pools) + pool.nodes@.len() {
        assert forall|i: int| 0 <= i < pool.nodes@.len() implies (
        #[trigger] pool.nodes@[i]).status@ == "running"@ by {
            assert(vm_running()(pool.nodes@[i]));
        }
    }
}

/// A machine stands under its name with its pool, and nothing else does.
pub proof fn law_machines_are_found_with_their_pool(
    pools: Seq<SdiPoolInfo>,
    name: Seq<char>,
    pool: Seq<char>,
)
    ensures
        vm_node_map(pools).contains((name, pool)) <==> exists|i: int, k: int|
            0 <= i < pools.len() && 0 <= k < pools[i].nodes@.len() && (
            #[trigger] pools[i].nodes@[k]).name@ == name && pools[i].pool_name@ == pool,
    decreases pools.len(),
{
    let all = vm_node_map(pools);
    if pools.len() > 0 {
        let rest = pools.drop_last();
        let own = pool_members(pools.last());
        let before = vm_node_map(rest);
        law_machines_are_found_with_their_pool(rest, name, pool);
        if all.contains((name, pool)) {
            let at = choose|at: int| 0 <= at < all.len() && all[at] == (name, pool);
            if at < before.len() {
                assert(before[at] == (name, pool));
                let (i, k) = choose|i: int, k: int|
                    0 <= i < rest.len() && 0 <= k < rest[i].nodes@.len() && (
                    #[trigger] rest[i].nodes@[k]).name@ == name && rest[i].pool_name@ == pool;
                assert(pools[i].nodes@[k].name@ == name);
            } else {
                assert(own[at - before.len()] == (name, pool));
                assert(pools[pools.len() - 1].nodes@[at - before.len()].name@ == name);
            }
        }
        if exists|i: int, k: int|
            0 <= i < pools.len() && 0 <= k < pools[i].nodes@.len() && (
            #[trigger] pools[i].nodes@[k]).name@ == name && pools[i].pool_name@ == pool {
            let (i, k) = choose|i: int, k: int|
                0 <= i < pools.len() && 0 <= k < pools[i].nodes@.len() && (
                #[trigger] pools[i].nodes@[k]).name@ == name && pools[i].pool_name@ == pool;
            if i == pools.len() - 1 {
                assert(own[k] == (name, pool));
                assert(all[before.len() + k] == (name, pool));
            } else {
                assert(rest[i].nodes@[k].name@ == name);
                let at = choose|at: int| 0 <= at < before.len() && before[at] == (name, pool);
                assert(all[at] == (name, pool));
            }
        }
    }
}

// ---------------------------------------------------------------------------
// Hosts
// ---------------------------------------------------------------------------

/// The machines that are drawn are those of all pools, each with its pool.
pub proof fn law_machines_of_all_pools_are_drawn(pools: Seq<SdiPoolInfo>, n: int, e: Entry)
    requires
        0 <= n <= pools.len(),
    ensures
        entries_of(pools, n).contains(e) <==> exists|i: int, k: int|
            0 <= i < n && 0 <= k < pools[i].nodes@.len() && #[trigger] pools[i].nodes@[k] == e.1
                && pools[i].pool_name@ == e.0,
    decreases n,
{
    if n > 0 {
        let all = entries_of(pools, n);
        let before = entries_of(pools, n - 1);
        let own = pool_entries(pools[n - 1], pools[n - 1].nodes@.len());
        law_machines_of_all_pools_are_drawn(pools, n - 1, e);
        if all.contains(e) {
            let at = choose|at: int| 0 <= at < all.len() && all[at] == e;
            if at < before.len() {
                assert(before[at] == e);
            } else {
                assert(own[at - before.len()] == e);
                assert(pools[n - 1].nodes@[at - before.len()] == e.1);
            }
        }
        if exists|i: int, k: int|
            0 <= i < n && 0 <= k < pools[i].nodes@.len() && #[trigger] pools[i].nodes@[k] == e.1
                && pools[i].pool_name@ == e.0 {
            let (i, k) = choose|i: int, k: int|
                0 <= i < n && 0 <= k < pools[i].nodes@.len() && #[trigger] pools[i].nodes@[k]
                    == e.1 && pools[i].pool_name@ == e.0;
            if i == n - 1 {
                assert(own[k] == e);
                assert(all[before.len() + k] == e);
            } else {
                assert(before.contains(e));
                let at = choose|at: int| 0 <= at < before.len() && before[at] == e;
                assert(all[at] == e);
            }
        }
    }
}

/// A machine more adds its processors and its memory to its host, and nothing to
/// another.
pub proof fn law_a_host_has_what_its_machines_have(
    entries: Seq<Entry>,
    e: Entry,
    host: Seq<char>,
)
    ensures
        cpu_sum(Seq::empty(), host) == 0,
        mem_sum(Seq::empty(), host) == 0,
        e.1.host@ == host ==> cpu_sum(entries.push(e), host) == cpu_sum(entries, host) + e.1.cpu,
        e.1.host@ == host ==> mem_sum(entries.push(e), host) == mem_sum(entries, host)
            + e.1.mem_gb,
        e.1.host@ != host ==> cpu_sum(entries.push(e), host) == cpu_sum(entries, host) && mem_sum(
            entries.push(e),
            host,
        ) == mem_sum(entries, host),
{
    assert(entries.push(e).drop_last() =~= entries);
}

/// A box names its host and says how much its machines have together; it is active
/// if one of them is of the pool that is selected, or if none is selected and it
/// has any.
pub proof fn law_a_box_sums_up_its_host(
    entries: Seq<Entry>,
    host: Seq<char>,
    pool: Option<Seq<char>>,
    snapshots: Seq<ClusterSnapshot>,
    start: nat,
)
    requires
        cpu_sum(entries, host) <= u32::MAX,
        mem_sum(entries, host) <= u32::MAX,
    ensures
        ({
            let b = host_box(entries, host, pool, snapshots, start);
            &&& b.host == host
            &&& b.total_cpu == cpu_sum(entries, host)
            &&& b.total_mem_gb == mem_sum(entries, host)
            &&& b.has_active_vms <==> exists|i: int|
                0 <= i < entries.len() && (#[trigger] entries[i]).1.host@ == host && (pool is None
                    || pool == Some(entries[i].0))
        }),
{
    let active = active_on(pool, host);
    lemma_count_positive(entries, active);
    if exists|i: int|
        0 <= i < entries.len() && (#[trigger] entries[i]).1.host@ == host && (pool is None || pool
            == Some(entries[i].0)) {
        let i = choose|i: int|
            0 <= i < entries.len() && (#[trigger] entries[i]).1.host@ == host && (pool is None
                || pool == Some(entries[i].0));
        assert(active(entries[i]));
    }
    if exists|i: int| 0 <= i < entries.len() && active(#[trigger] entries[i]) {
        let i = choose|i: int| 0 <= i < entries.len() && active(#[trigger] entries[i]);
        assert(entries[i].1.host@ == host);
    }
}

/// A card says of a machine what is known of it, and of which cluster the node is
/// that has its address.
pub proof fn law_a_card_shows_its_machine(
    e: Entry,
    pool: Option<Seq<char>>,
    snapshots: Seq<ClusterSnapshot>,
    number: nat,
)
    requires
        snapshots.len() <= usize::MAX,
        number < usize::MAX,
    ensures
        ({
            let c = card(e, pool, snapshots, number);
            &&& c.name == e.1.name@ && c.ip == e.1.ip@ && c.status == e.1.status@
            &&& c.cpu == e.1.cpu && c.mem_gb == e.1.mem_gb && c.disk_gb == e.1.disk_gb
            &&& c.gpu == e.1.gpu
            &&& c.in_selected_pool <==> pool is None || pool == Some(e.0)
            &&& c.in_selected_pool ==> c.flat_index == number
            &&& c.node is Some <==> c.cluster_name is Some
            &&& e.1.ip@.len() == 0 ==> c.node is None
        }),
        card(e, pool, snapshots, number).cluster_name matches Some(name) ==> exists|i: int, j: int|
            0 <= i < snapshots.len() && snapshots[i].name@ == name && 0 <= j
                < snapshots[i].nodes@.len() && (#[trigger] snapshots[i].nodes@[j]).internal_ip@
                == e.1.ip@,
{
    crate::infra_view::law_joined_by_address(snapshots, e.1.ip@);
    if let Some((i, j)) = node_of(snapshots, e.1.ip@) {
        assert(snapshots[i].nodes@[j].internal_ip@ == e.1.ip@);
    }
}

/// The cards of a box are those of the machines on its host.
pub proof fn law_cards_are_of_machines_on_the_host(
    entries: Seq<Entry>,
    host: Seq<char>,
    pool: Option<Seq<char>>,
    snapshots: Seq<ClusterSnapshot>,
    start: nat,
    i: int,
)
    ensures
        0 <= i < entries.len() && entries[i].1.host@ == host ==> exists|k: int|
            0 <= k < cards(entries, host, pool, snapshots, start).len() && (#[trigger] cards(
                entries,
                host,
                pool,
                snapshots,
                start,
            )[k]).name == entries[i].1.name@,
        0 <= i < cards(entries, host, pool, snapshots, start).len() ==> exists|k: int|
            0 <= k < entries.len() && (#[trigger] entries[k]).1.host@ == host
                && entries[k].1.name@ == cards(entries, host, pool, snapshots, start)[i].name,
    decreases entries.len(),
{
    if entries.len() > 0 {
        let rest = entries.drop_last();
        let before = cards(rest, host, pool, snapshots, start);
        let all = cards(entries, host, pool, snapshots, start);
        law_cards_are_of_machines_on_the_host(rest, host, pool, snapshots, start, i);
        if 0 <= i < entries.len() && entries[i].1.host@ == host {
            if i == entries.len() - 1 {
                assert(all[before.len() as int].name == entries[i].1.name@);
            } else {
                assert(rest[i] == entries[i]);
                let k = choose|k: int|
                    0 <= k < before.len() && (#[trigger] before[k]).name == entries[i].1.name@;
                assert(all[k] == before[k]);
            }
        }
        if 0 <= i < all.len() {
            if i < before.len() {
                assert(all[i] == before[i]);
                let k = choose|k: int|
                    0 <= k < rest.len() && (#[trigger] rest[k]).1.host@ == host
                        && rest[k].1.name@ == before[i].name;
                assert(entries[k] == rest[k]);
            } else {
                assert(entries[entries.len() - 1].1.host@ == host);
            }
        }
    }
}

/// The machines before a box are those of the pool on the hosts before it.
pub proof fn law_a_host_more_goes_before(
    entries: Seq<Entry>,
    hosts: Seq<Seq<char>>,
    n: int,
    pool: Option<Seq<char>>,
)
    requires
        0 <= n < hosts.len(),
    ensures
        active_before(entries, hosts, 0, pool) == 0,
        active_before(entries, hosts, n + 1, pool) == active_before(entries, hosts, n, pool)
            + count(entries, active_on(pool, hosts[n])),
{
}

// ---------------------------------------------------------------------------
// Boxes on the screen
// ---------------------------------------------------------------------------

/// A box has two lines of its own and two for each machine; the machines begin
/// behind an empty line.
pub proof fn law_a_box_has_two_lines_for_each_machine(
    b: BoxModel,
    host_used: Option<UsageText>,
    used: Seq<Option<UsageText>>,
    cursor: usize,
    width: int,
    i: int,
)
    ensures
        b.vms.len() == 0 ==> box_lines(b, host_used, used, cursor, width).len() == 2,
        b.vms.len() > 0 ==> box_lines(b, host_used, used, cursor, width).len() == 3 + 2
            * b.vms.len(),
        b.vms.len() > 0 ==> box_lines(b, host_used, used, cursor, width)[2].len() == 0,
        0 <= i < b.vms.len() ==> {
            let all = box_lines(b, host_used, used, cursor, width);
            &&& all[3 + 2 * i] == name_line(b.vms[i], cursor, width)
            &&& all[3 + 2 * i + 1] == detail_line(b.vms[i], used[i])
        },
        box_lines(b, host_used, used, cursor, width)[0].len() == 1,
        box_lines(b, host_used, used, cursor, width)[0][0].content == " Total: "@ + decimal(
            b.total_cpu as nat,
        ) + "c / "@ + decimal(b.total_mem_gb as nat) + "Gi"@,
        box_lines(b, host_used, used, cursor, width)[1].len() == 1,
        host_used is None ==> box_lines(b, host_used, used, cursor, width)[1][0].content
            == " Used:  N/A"@,
        host_used matches Some(u) ==> box_lines(b, host_used, used, cursor, width)[1][0].content
            == " Used:  "@ + u.cpu@ + "% CPU / "@ + u.mem@ + "% MEM"@,
{
    lemma_machine_lines(b.vms, used, cursor, width, b.vms.len() as int, i);
    let all = box_lines(b, host_used, used, cursor, width);
    assert(all[0] == summary_lines(b, host_used)[0]);
    assert(all[1] == summary_lines(b, host_used)[1]);
    if 0 <= i < b.vms.len() {
        let body = machine_lines(b.vms, used, cursor, width, b.vms.len() as int);
        assert(all[3 + 2 * i] == body[2 * i]);
        assert(all[3 + 2 * i + 1] == body[2 * i + 1]);
    }
}

proof fn lemma_machine_lines(
    vms: Seq<CardModel>,
    used: Seq<Option<UsageText>>,
    cursor: usize,
    width: int,
    n: int,
    i: int,
)
    requires
        0 <= n <= vms.len(),
    ensures
        machine_lines(vms, used, cursor, width, n).len() == 2 * n,
        0 <= i < n ==> machine_lines(vms, used, cursor, width, n)[2 * i] == name_line(
            vms[i],
            cursor,
            width,
        ) && machine_lines(vms, used, cursor, width, n)[2 * i + 1] == detail_line(
            vms[i],
            used[i],
        ),
    decreases n,
{
    if n > 0 {
        lemma_machine_lines(vms, used, cursor, width, n - 1, i);
    }
}

/// The first line of a machine has its name, if there is room for it, its state with
/// a dot in its color, and whether it has a graphics card; the machine at the cursor
/// stands out, and one of another pool is faint.
pub proof fn law_the_line_of_a_machine(c: CardModel, cursor: usize, width: int)
    ensures
        ({
            let line = name_line(c, cursor, width);
            &&& line.len() == if c.gpu {
                4int
            } else {
                3
            }
            &&& text_bytes(c.name) + 19 <= width ==> line[0].content == " "@ + c.name
            &&& line[1].content == " ["@ + c.status + "] "@
            &&& line[2].content == "●"@
            &&& c.gpu ==> line[3].content == " GPU"@
            &&& c.in_selected_pool ==> line[2].style.fg == Some(state_color(c.status))
            &&& !c.in_selected_pool ==> forall|k: int|
                0 <= k < line.len() ==> (#[trigger] line[k]).style.fg == Some(Color::Bg3)
                    && !line[k].style.bold
            &&& c.in_selected_pool && c.flat_index == cursor ==> line[0].style.fg == Some(
                Color::BrightYellow,
            ) && line[0].style.bold
            &&& c.in_selected_pool && c.flat_index != cursor ==> line[0].style.fg == Some(
                Color::Fg,
            ) && !line[0].style.bold
        }),
{
}

/// The second line of a machine has its size, its usage and its cluster.
pub proof fn law_the_details_of_a_machine(c: CardModel, used: Option<UsageText>)
    ensures
        ({
            let line = detail_line(c, used);
            &&& line.len() == 3
            &&& line[0].content == " "@ + decimal(c.cpu as nat) + "c "@ + decimal(c.mem_gb as nat)
                + "Gi "@ + decimal(c.disk_gb as nat) + "Gi"@
            &&& used is None ==> line[1].content == "  N/A"@
            &&& used matches Some(u) ==> line[1].content == "  CPU:"@ + u.cpu@ + "% M:"@ + u.mem@
                + "%"@
            &&& c.cluster_name matches Some(name) ==> line[2].content == " ("@ + name + ")"@
            &&& c.cluster_name is None ==> line[2].content.len() == 0
        }),
{
}

/// A machine that runs is green, one that pauses yellow and any other red; a box
/// with machines of the pool is blue.
pub proof fn law_machine_colors(status: Seq<char>)
    ensures
        status == "running"@ ==> state_color(status) == Color::BrightGreen,
        status == "paused"@ ==> state_color(status) == Color::BrightYellow,
        status != "running"@ && status != "paused"@ ==> state_color(status) == Color::BrightRed,
        border_color(true) == Color::BrightBlue,
        border_color(false) == Color::Bg3,
{
    reveal_strlit("running");
    reveal_strlit("paused");
    assert("running"@.len() == 7 && "paused"@.len() == 6);
}

/// One box fills the area; two stand side by side; more stand in two rows of two.
pub proof fn law_boxes_stand_in_a_grid()
    ensures
        grid(1) == (1int, 1int),
        grid(2) == (1int, 2int),
        forall|n: nat| n > 2 ==> #[trigger] grid(n) == (2int, 2int),
{
}

// ---------------------------------------------------------------------------
// Usage
// ---------------------------------------------------------------------------

/// The usage of a node is known exactly if both its processor and its memory are
/// reported, and is what is reported.
pub proof fn law_node_usage_is_what_is_reported(obj: DynamicObject)
    ensures
        node_usage(obj) is Some <==> member(obj.data, "usage"@) is Some && member_text(
            member(obj.data, "usage"@)->0,
            "cpu"@,
        ) is Some && member_text(member(obj.data, "usage"@)->0, "memory"@) is Some,
        node_usage(obj) matches Some(u) ==> {
            &&& Some(u.cpu) == member_text(member(obj.data, "usage"@)->0, "cpu"@)
            &&& Some(u.memory) == member_text(member(obj.data, "usage"@)->0, "memory"@)
            &&& obj.name matches Some(name) ==> u.name == name@
            &&& obj.name is None ==> u.name.len() == 0
        },
{
}

/// The usage of a pod is known exactly if each of its containers reports one; it is
/// then what the containers report, in their order.
pub proof fn law_pod_usage_is_that_of_its_containers(obj: DynamicObject, containers: Seq<Json>)
    requires
        member_items(obj.data, "containers"@) == Some(containers),
    ensures
        pod_usage(obj) is Some <==> forall|i: int|
            0 <= i < containers.len() ==> member(#[trigger] containers[i], "usage"@) is Some,
        pod_usage(obj) matches Some(u) ==> {
            &&& obj.name matches Some(name) ==> u.name == name@
            &&& obj.namespace matches Some(name) ==> u.namespace == name@
            &&& (forall|i: int|
                0 <= i < containers.len() ==> member_text(
                    member(#[trigger] containers[i], "usage"@)->0,
                    "cpu"@,
                ) is Some) ==> u.cpu.len() == containers.len() && forall|i: int|
                0 <= i < containers.len() ==> Some(#[trigger] u.cpu[i]) == member_text(
                    member(containers[i], "usage"@)->0,
                    "cpu"@,
                )
            &&& (forall|i: int|
                0 <= i < containers.len() ==> member_text(
                    member(#[trigger] containers[i], "usage"@)->0,
                    "memory"@,
                ) is Some) ==> u.memory.len() == containers.len() && forall|i: int|
                0 <= i < containers.len() ==> Some(#[trigger] u.memory[i]) == member_text(
                    member(containers[i], "usage"@)->0,
                    "memory"@,
                )
        },
{
    lemma_first_where(containers, lacks_usage());
    if pod_usage(obj) is Some {
        assert forall|i: int| 0 <= i < containers.len() implies member(
            #[trigger] containers[i],
            "usage"@,
        ) is Some by {
            assert(!lacks_usage()(containers[i]));
        }
        if forall|i: int|
            0 <= i < containers.len() ==> member_text(
                member(#[trigger] containers[i], "usage"@)->0,
                "cpu"@,
            ) is Some {
            lemma_reported(containers, "cpu"@, containers.len() as int);
        }
        if forall|i: int|
            0 <= i < containers.len() ==> member_text(
                member(#[trigger] containers[i], "usage"@)->0,
                "memory"@,
            ) is Some {
            lemma_reported(containers, "memory"@, containers.len() as int);
        }
    }
}

proof fn lemma_reported(containers: Seq<Json>, key: Seq<char>, n: int)
    requires
        0 <= n <= containers.len(),
        forall|i: int|
            0 <= i < containers.len() ==> member(#[trigger] containers[i], "usage"@) is Some
                && member_text(member(containers[i], "usage"@)->0, key) is Some,
    ensures
        reported(containers, key, n).len() == n,
        forall|i: int|
            0 <= i < n ==> Some(#[trigger] reported(containers, key, n)[i]) == member_text(
                member(containers[i], "usage"@)->0,
                key,
            ),
    decreases n,
{
    if n > 0 {
        lemma_reported(containers, key, n - 1);
        assert(member(containers[n - 1], "usage"@) is Some);
        let before = reported(containers, key, n - 1);
        let all = reported(containers, key, n);
        assert forall|i: int| 0 <= i < n implies Some(#[trigger] all[i]) == member_text(
            member(containers[i], "usage"@)->0,
            key,
        ) by {
            if i < n - 1 {
                assert(all[i] == before[i]);
            }
        }
    }
}

/// A report without containers gives no usage.
pub proof fn law_no_containers_no_usage(obj: DynamicObject)
    requires
        member_items(obj.data, "containers"@) is None,
    ensures
        pod_usage(obj) is None,
{
}

/// The memory of a process is the second word of the first line that tells it.
pub proof fn law_memory_of_a_process(status: Seq<char>, i: int)
    ensures
        0 <= i < lines(status).len() && has_prefix(lines(status)[i], "VmRSS:"@) && (forall|k: int|
            0 <= k < i ==> !has_prefix(#[trigger] lines(status)[k], "VmRSS:"@)) ==> rss_text(status)
            == second_word(lines(status)[i]),
        (forall|k: int|
            0 <= k < lines(status).len() ==> !has_prefix(#[trigger] lines(status)[k], "VmRSS:"@))
            ==> rss_text(status) is None,
{
    let all = lines(status);
    if 0 <= i < all.len() && has_prefix(all[i], "VmRSS:"@) && (forall|k: int|
        0 <= k < i ==> !has_prefix(#[trigger] lines(status)[k], "VmRSS:"@)) {
        lemma_first_where_at(all, i, is_rss_line());
    }
    lemma_first_where(all, is_rss_line());
}

// ---------------------------------------------------------------------------
// Quantities
// ---------------------------------------------------------------------------

/// A quantity is scaled by how it ends; what stands before is its number.
pub proof fn law_scales_by_suffix(number: Seq<char>)
    ensures
        scale_of(number + "Ti"@) == Scale::Tebi && number_of(number + "Ti"@) == number,
        scale_of(number + "Gi"@) == Scale::Gibi && number_of(number + "Gi"@) == number,
        scale_of(number + "Mi"@) == Scale::Mebi && number_of(number + "Mi"@) == number,
        scale_of(number + "Ki"@) == Scale::Kibi && number_of(number + "Ki"@) == number,
        scale_of(number + "n"@) == Scale::Nano && number_of(number + "n"@) == number,
        scale_of(number + "m"@) == Scale::Milli && number_of(number + "m"@) == number,
        all_digits(number) ==> scale_of(number) == Scale::One && number_of(number) == number,
{
    reveal_strlit("Ti");
    reveal_strlit("Gi");
    reveal_strlit("Mi");
    reveal_strlit("Ki");
    reveal_strlit("n");
    reveal_strlit("m");
    assert(number_of(number + "Ti"@) =~= number);
    assert(number_of(number + "Gi"@) =~= number);
    assert(number_of(number + "Mi"@) =~= number);
    assert(number_of(number + "Ki"@) =~= number);
    assert(number_of(number + "n"@) =~= number);
    assert(number_of(number + "m"@) =~= number);
    if all_digits(number) {
        assert(is_digit(number[number.len() - 1]));
        assert(number_of(number) =~= number);
    }
}

/// Each scale is 1024 of the one below it.
pub proof fn law_scales_by_1024()
    ensures
        bytes_per(Scale::One) == 1,
        bytes_per(Scale::Kibi) == 1024,
        bytes_per(Scale::Mebi) == 1024 * bytes_per(Scale::Kibi),
        bytes_per(Scale::Gibi) == 1024 * bytes_per(Scale::Mebi),
        bytes_per(Scale::Tebi) == 1024 * bytes_per(Scale::Gibi),
{
}

/// The tenths of a unit that are shown are the nearest to the bytes.
pub proof fn law_tenths_are_the_nearest(bytes: nat, unit: nat)
    requires
        unit > 0,
    ensures
        2 * (10 * bytes) <= (2 * tenths(bytes, unit) + 1) * unit,
        (2 * tenths(bytes, unit) - 1) * unit <= 2 * (10 * bytes),
{
    let t = 10 * bytes / unit;
    let rest = 10 * bytes % unit;
    assert(10 * bytes == t * unit + rest && 0 <= rest < unit) by (nonlinear_arith)
        requires
            unit > 0,
            t == 10 * bytes / unit,
            rest == 10 * bytes % unit,
    ;
    assert(2 * (10 * bytes) <= (2 * t + 1) * unit || 2 * rest > unit) by (nonlinear_arith)
        requires
            10 * bytes == t * unit + rest,
    ;
    assert(2 * (10 * bytes) <= (2 * (t + 1) + 1) * unit) by (nonlinear_arith)
        requires
            10 * bytes == t * unit + rest,
            0 <= rest < unit,
    ;
    assert((2 * t - 1) * unit <= 2 * (10 * bytes)) by (nonlinear_arith)
        requires
            10 * bytes == t * unit + rest,
            0 <= rest < unit,
    ;
    assert((2 * (t + 1) - 1) * unit <= 2 * (10 * bytes) || 2 * rest < unit) by (nonlinear_arith)
        requires
            10 * bytes == t * unit + rest,
    ;
}

/// A whole number of a unit, but less than one of the next, is shown as that number
/// and the unit.
pub proof fn law_whole_units_are_shown_whole(k: nat)
    requires
        1 <= k < 1024,
    ensures
        memory_text(k) == decimal(k) + "B"@,
        memory_text(k * 1024) == decimal(k) + "Ki"@,
        memory_text(k * 1048576) == decimal(k) + "Mi"@,
        memory_text(k * 1073741824) == decimal(k) + "Gi"@,
        memory_text(k * 1099511627776) == decimal(k) + "Ti"@,
{
    lemma_whole(k, KIB as nat);
    lemma_whole(k, MIB as nat);
    lemma_whole(k, GIB as nat);
    lemma_whole(k, TIB as nat);
}

proof fn lemma_whole(k: nat, unit: nat)
    requires
        unit > 0,
    ensures
        in_unit(k * unit, unit) == decimal(k),
{
    assert(k * unit % unit == 0 && k * unit / unit == k) by (nonlinear_arith)
        requires
            unit > 0,
    ;
}

/// Memory is shown in the largest unit that it reaches.
pub proof fn law_memory_in_the_largest_unit(bytes: nat)
    ensures
        bytes < 1024 ==> memory_text(bytes) == decimal(bytes) + "B"@,
        1024 <= bytes < 1048576 ==> has_ending(memory_text(bytes), 'K', 'i'),
        1048576 <= bytes < 1073741824 ==> has_ending(memory_text(bytes), 'M', 'i'),
        1073741824 <= bytes < 1099511627776 ==> has_ending(memory_text(bytes), 'G', 'i'),
        1099511627776 <= bytes ==> has_ending(memory_text(bytes), 'T', 'i'),
{
    reveal_strlit("Ti");
    reveal_strlit("Gi");
    reveal_strlit("Mi");
    reveal_strlit("Ki");
}

/// Whether a text ends with two characters.
pub open spec fn has_ending(s: Seq<char>, a: char, b: char) -> bool {
    s.len() >= 2 && s[s.len() - 2] == a && s[s.len() - 1] == b
}

/// A text that neither begins nor ends with a blank is not trimmed.
proof fn lemma_nothing_to_trim(s: Seq<char>)
    requires
        s.len() > 0,
        !is_white(s[0]),
        !is_white(s.last()),
    ensures
        trimmed(s) == s,
{
    assert(trim_start(s) == s);
    assert(trim_end(s) == s);
}

/// A number without a point is read as it stands.
proof fn lemma_no_point(number: Seq<char>)
    requires
        all_digits(number),
        digits_value(number) <= MAX_BYTES,
    ensures
        decimal_parts(number) == Some((digits_value(number), 0nat)),
{
    assert forall|i: int| 0 <= i < number.len() implies #[trigger] number[i] != '.' by {
        assert(is_digit(number[i]));
    }
    crate::scan::lemma_char_index(number, '.', number.len() as int);
}

/// A whole number of kibibytes, as nodes report it, is shown as that many times 1024
/// bytes, and likewise for the other scales; a plain number of 1024 or more is so
/// many bytes, and a smaller one is shown as it stands.
pub proof fn law_whole_quantities(n: nat)
    requires
        n <= 4096,
    ensures
        shown_memory(decimal(n) + "Ki"@) == Some(memory_text(n * 1024)),
        shown_memory(decimal(n) + "Mi"@) == Some(memory_text(n * 1048576)),
        shown_memory(decimal(n) + "Gi"@) == Some(memory_text(n * 1073741824)),
        shown_memory(decimal(n) + "Ti"@) == Some(memory_text(n * 1099511627776)),
        n >= 1024 ==> shown_memory(decimal(n)) == Some(memory_text(n)),
        n < 1024 ==> shown_memory(decimal(n)) == Some(decimal(n)),
{
    lemma_kibibytes(n, "Ki"@, Scale::Kibi);
    lemma_kibibytes(n, "Mi"@, Scale::Mebi);
    lemma_kibibytes(n, "Gi"@, Scale::Gibi);
    lemma_kibibytes(n, "Ti"@, Scale::Tebi);
    law_written_numbers_are_read_back(n);
    law_scales_by_suffix(decimal(n));
    lemma_no_point(decimal(n));
    let s = decimal(n);
    assert(is_digit(s[0]) && is_digit(s[s.len() - 1]));
    lemma_nothing_to_trim(s);
    assert(pow10(0) == 1);
    assert(n * bytes_per(Scale::One) == n);
    assert(n as int % 1 == 0 && n as int / 1 == n);
}

/// A number of kibibytes, as large as can be shown exactly.
pub proof fn law_kibibytes(n: nat)
    requires
        n * 1024 <= MAX_BYTES,
    ensures
        shown_memory(decimal(n) + "Ki"@) == Some(memory_text(n * 1024)),
{
    lemma_kibibytes(n, "Ki"@, Scale::Kibi);
}

proof fn lemma_kibibytes(n: nat, suffix: Seq<char>, scale: Scale)
    requires
        scale == Scale::Kibi && suffix == "Ki"@ || scale == Scale::Mebi && suffix == "Mi"@ || scale
            == Scale::Gibi && suffix == "Gi"@ || scale == Scale::Tebi && suffix == "Ti"@,
        n * bytes_per(scale) <= MAX_BYTES,
    ensures
        shown_memory(decimal(n) + suffix) == Some(memory_text(n * bytes_per(scale))),
{
    reveal_strlit("Ti");
    reveal_strlit("Gi");
    reveal_strlit("Mi");
    reveal_strlit("Ki");
    let s = decimal(n) + suffix;
    law_written_numbers_are_read_back(n);
    law_scales_by_suffix(decimal(n));
    assert(n <= MAX_BYTES) by (nonlinear_arith)
        requires
            n * bytes_per(scale) <= MAX_BYTES,
            bytes_per(scale) >= 1,
    ;
    lemma_no_point(decimal(n));
    assert(is_digit(decimal(n)[0]));
    assert(s[0] == decimal(n)[0] && s.last() == 'i');
    lemma_nothing_to_trim(s);
    assert(pow10(0) == 1);
    assert((n * bytes_per(scale)) as int % 1 == 0);
}

/// What is empty is not available; what counts in thousandths or less is shown as it
/// stands; and what can be told here is told so, whatever else is given.
pub proof fn law_other_quantities(s: Seq<char>, number: Seq<char>, otherwise: Seq<char>)
    ensures
        trimmed(s).len() == 0 ==> shown_memory(s) == Some("N/A"@),
        scale_of(trimmed(s)) == Scale::Milli || scale_of(trimmed(s)) == Scale::Nano
            ==> trimmed(s).len() > 0 && shown_memory(s) == Some(trimmed(s)),
        shown_memory(s) matches Some(t) ==> memory_display(s, otherwise) == t,
        shown_memory(s) is None ==> memory_display(s, otherwise) == otherwise,
{
}

/// A number with a point, and places behind it, counts as the digits without it over
/// as many tens.
pub proof fn law_points_divide_by_ten(before: Seq<char>, behind: Seq<char>)
    requires
        all_digits(before),
        all_digits(behind),
        behind.len() <= 9,
        digits_value(before + behind) <= MAX_BYTES,
    ensures
        decimal_parts(before + seq!['.'] + behind) == Some(
            (digits_value(before + behind), behind.len()),
        ),
        digits_value(before + behind) == digits_value(before) * pow10(behind.len()) + digits_value(
            behind,
        ),
{
    let s = before + seq!['.'] + behind;
    let n = before.len() as int;
    assert forall|i: int| 0 <= i < n implies #[trigger] s[i] != '.' by {
        assert(s[i] == before[i]);
        assert(is_digit(before[i]));
    }
    crate::scan::lemma_char_index(s, '.', n);
    assert(s.take(n) =~= before);
    assert(s.skip(n + 1) =~= behind);
    lemma_digits_add(before, behind);
}

proof fn lemma_digits_add(a: Seq<char>, b: Seq<char>)
    ensures
        digits_value(a + b) == digits_value(a) * pow10(b.len()) + digits_value(b),
    decreases b.len(),
{
    if b.len() == 0 {
        assert(a + b =~= a);
        assert(pow10(0) == 1);
    } else {
        lemma_digits_add(a, b.drop_last());
        assert((a + b).drop_last() =~= a + b.drop_last());
        let x = digits_value(a);
        let p = pow10(b.drop_last().len());
        assert((a + b).last() == b.last());
        assert(pow10(b.len()) == 10 * p);
        assert((x * p) * 10 == x * (10 * p)) by (nonlinear_arith);
    }
}

/// Where nothing could be read, no pools are shown and no machines are counted.
pub proof fn law_nothing_read_nothing_shown(snap: InfraSnapshot)
    requires
        is_loaded(snap, None),
    ensures
        snap.sdi_pools@.len() == 0,
        snap.total_vms == 0,
        snap.running_vms == 0,
{
}

/// A box is headed by its host, and shows its lines if it has room for two of ten
/// characters.
pub proof fn law_boxes_need_room(
    frame: HostFrame,
    hbox: HostBox,
    inner: Area,
    cursor: usize,
    host_used: Option<UsageText>,
    used: Seq<Option<UsageText>>,
)
    requires
        shows_box(frame, hbox, inner, cursor, host_used, used),
    ensures
        frame.title@ == " "@ + hbox.host@ + " "@,
        hbox.has_active_vms ==> frame.border == Color::BrightBlue,
        !hbox.has_active_vms ==> frame.border == Color::Bg3,
        inner.height >= 2 && inner.width >= 10 ==> frame.lines is Some,
        inner.height < 2 || inner.width < 10 ==> frame.lines is None,
        frame.lines matches Some(ls) ==> ls@.len() >= 2,
{
    if let Some(ls) = frame.lines {
        assert(lines_model(ls@).len() == ls@.len());
    }
}

/// What is neither a whole number nor can be one with a fraction is shown as it
/// stands; what may have a fraction that is not told here is left open.
pub proof fn law_unread_numbers_are_shown_as_they_stand(s: Seq<char>, i: int)
    requires
        trimmed(s) == s,
        scale_of(s) == Scale::One,
        decimal_parts(s) is None,
        0 <= i < s.len(),
    ensures
        s[i] == 'x' || s[i] == '/' || s[i] == '_' || s[i] == ':' ==> shown_memory(s) == Some(s),
        (forall|k: int|
            0 <= k < s.len() ==> is_digit(#[trigger] s[k]) || s[k] == '.' || s[k] == 'e' || s[k]
                == '-' || s[k] == '+') ==> shown_memory(s) is None,
{
    let n = crate::quantity::number_of(s);
    assert(n =~= s);
    if s[i] == 'x' || s[i] == '/' || s[i] == '_' || s[i] == ':' {
        assert(!crate::quantity::in_fraction(s[i]));
    }
    if forall|k: int|
        0 <= k < s.len() ==> is_digit(#[trigger] s[k]) || s[k] == '.' || s[k] == 'e' || s[k] == '-'
            || s[k] == '+' {
        assert forall|k: int| 0 <= k < s.len() implies crate::quantity::in_fraction(
            #[trigger] s[k],
        ) by {
            assert(is_digit(s[k]) || s[k] == '.' || s[k] == 'e' || s[k] == '-' || s[k] == '+');
        }
    }
}

} // verus!
