//! The infrastructure view: machines grouped by the hosts they run on, joined
//! with the nodes that they are.
use ratatui::layout::{Constraint, Direction, Layout, Rect};
use vstd::prelude::*;
use crate::app::App;
use crate::data::{ClusterSnapshot, NodeInfo};
use crate::display::{
    bold, colored, framed, inside, inside_border, lemma_lines_push, less, lesser, line_of_span,
    lines_model, span, Area, Color, Line, SpanModel, Style,
};
use crate::infra::{SdiPoolInfo, SdiVmInfo};
use crate::list::{count, first_index, lemma_first_index, lemma_first_index_props};
use crate::snapshot::{ascending, insert_ascending};
use crate::sort::{lemma_key_irreflexive, text_key, text_less};
use crate::text::{
    chars_of, decimal, decimal_u64, is_longer, same, text_between, text_bytes, texts,
};

verus! {

broadcast use lemma_lines_push;

/// A machine as a card of its host's box.
#[derive(Debug)]
pub struct VmCard {
    pub name: String,
    pub ip: String,
    pub status: String,
    pub cpu: u32,
    pub mem_gb: u32,
    pub disk_gb: u32,
    pub gpu: bool,
    /// The node that the machine is: the positions of its snapshot and in it.
    pub node: Option<(usize, usize)>,
    /// The cluster of that node.
    pub cluster_name: Option<String>,
    /// Whether the machine is in the pool to which the view is limited.
    pub in_selected_pool: bool,
    /// The machine's number among those in the pool, or the largest number.
    pub flat_index: usize,
}

/// A host with its machines.
#[derive(Debug)]
pub struct HostBox {
    pub host: String,
    pub total_cpu: u32,
    pub total_mem_gb: u32,
    pub vms: Vec<VmCard>,
    /// Whether some machine is in the pool to which the view is limited.
    pub has_active_vms: bool,
}

/// A card as a value.
#[verifier::ext_equal]
pub struct CardModel {
    pub name: Seq<char>,
    pub ip: Seq<char>,
    pub status: Seq<char>,
    pub cpu: u32,
    pub mem_gb: u32,
    pub disk_gb: u32,
    pub gpu: bool,
    pub node: Option<(usize, usize)>,
    pub cluster_name: Option<Seq<char>>,
    pub in_selected_pool: bool,
    pub flat_index: usize,
}

impl View for VmCard {
    type V = CardModel;

    open spec fn view(&self) -> CardModel {
        CardModel {
            name: self.name@,
            ip: self.ip@,
            status: self.status@,
            cpu: self.cpu,
            mem_gb: self.mem_gb,
            disk_gb: self.disk_gb,
            gpu: self.gpu,
            node: self.node,
            cluster_name: match self.cluster_name {
                Some(s) => Some(s@),
                None => None,
            },
            in_selected_pool: self.in_selected_pool,
            flat_index: self.flat_index,
        }
    }
}

/// Cards as values.
pub open spec fn cards_model(s: Seq<VmCard>) -> Seq<CardModel> {
    s.map_values(|c: VmCard| c@)
}

/// A box as a value.
#[verifier::ext_equal]
pub struct BoxModel {
    pub host: Seq<char>,
    pub total_cpu: u32,
    pub total_mem_gb: u32,
    pub vms: Seq<CardModel>,
    pub has_active_vms: bool,
}

impl View for HostBox {
    type V = BoxModel;

    open spec fn view(&self) -> BoxModel {
        BoxModel {
            host: self.host@,
            total_cpu: self.total_cpu,
            total_mem_gb: self.total_mem_gb,
            vms: cards_model(self.vms@),
            has_active_vms: self.has_active_vms,
        }
    }
}

/// The hosts of boxes.
pub open spec fn hosts_model(s: Seq<HostBox>) -> Seq<Seq<char>> {
    s.map_values(|b: HostBox| b.host@)
}

// ---------------------------------------------------------------------------
// Grouping
// ---------------------------------------------------------------------------

/// A machine with the name of its pool.
pub type Entry = (Seq<char>, SdiVmInfo);

/// The first machines of a pool.
pub open spec fn pool_entries(pool: SdiPoolInfo, n: nat) -> Seq<Entry> {
    Seq::new(n, |k: int| (pool.pool_name@, pool.nodes@[k]))
}

/// The machines of the first pools.
pub open spec fn entries_of(pools: Seq<SdiPoolInfo>, n: int) -> Seq<Entry>
    decreases n,
{
    if n <= 0 {
        Seq::empty()
    } else {
        entries_of(pools, n - 1) + pool_entries(pools[n - 1], pools[n - 1].nodes@.len())
    }
}

/// Whether some machine runs on a host.
pub open spec fn has_host(entries: Seq<Entry>, host: Seq<char>) -> bool {
    exists|i: int| 0 <= i < entries.len() && (#[trigger] entries[i]).1.host@ == host
}

/// Whether a machine's pool is the one to which the view is limited, if it is.
pub open spec fn in_pool(pool: Option<Seq<char>>, e: Entry) -> bool {
    pool is None || pool->0 == e.0
}

/// The test whether a machine runs on a host and is in the pool.
pub open spec fn active_on(pool: Option<Seq<char>>, host: Seq<char>) -> spec_fn(Entry) -> bool {
    |e: Entry| e.1.host@ == host && in_pool(pool, e)
}

/// The processors of the machines on a host.
pub open spec fn cpu_sum(entries: Seq<Entry>, host: Seq<char>) -> nat
    decreases entries.len(),
{
    if entries.len() == 0 {
        0
    } else {
        cpu_sum(entries.drop_last(), host) + if entries.last().1.host@ == host {
            entries.last().1.cpu as nat
        } else {
            0
        }
    }
}

/// The memory of the machines on a host.
pub open spec fn mem_sum(entries: Seq<Entry>, host: Seq<char>) -> nat
    decreases entries.len(),
{
    if entries.len() == 0 {
        0
    } else {
        mem_sum(entries.drop_last(), host) + if entries.last().1.host@ == host {
            entries.last().1.mem_gb as nat
        } else {
            0
        }
    }
}

/// The test whether a node has an address.
pub open spec fn node_at(ip: Seq<char>) -> spec_fn(NodeInfo) -> bool {
    |n: NodeInfo| n.internal_ip@ == ip
}

/// The test whether a snapshot has a node with an address.
pub open spec fn snapshot_with(ip: Seq<char>) -> spec_fn(ClusterSnapshot) -> bool {
    |s: ClusterSnapshot| first_index(s.nodes@, node_at(ip)) < s.nodes@.len()
}

/// The node with an address: the first in the first snapshot that has one. A
/// machine without an address is no node.
pub open spec fn node_of(snapshots: Seq<ClusterSnapshot>, ip: Seq<char>) -> Option<(int, int)> {
    let i = first_index(snapshots, snapshot_with(ip));
    if ip.len() > 0 && i < snapshots.len() {
        Some((i, first_index(snapshots[i].nodes@, node_at(ip))))
    } else {
        None
    }
}

/// The card of a machine with a number.
pub open spec fn card(
    e: Entry,
    pool: Option<Seq<char>>,
    snapshots: Seq<ClusterSnapshot>,
    number: nat,
) -> CardModel {
    let node = node_of(snapshots, e.1.ip@);
    CardModel {
        name: e.1.name@,
        ip: e.1.ip@,
        status: e.1.status@,
        cpu: e.1.cpu,
        mem_gb: e.1.mem_gb,
        disk_gb: e.1.disk_gb,
        gpu: e.1.gpu,
        node: match node {
            Some(p) => Some((p.0 as usize, p.1 as usize)),
            None => None,
        },
        cluster_name: match node {
            Some(p) => Some(snapshots[p.0].name@),
            None => None,
        },
        in_selected_pool: in_pool(pool, e),
        flat_index: if in_pool(pool, e) {
            number as usize
        } else {
            usize::MAX
        },
    }
}

/// The cards of the machines on a host; those in the pool are numbered from
/// `start` on.
pub open spec fn cards(
    entries: Seq<Entry>,
    host: Seq<char>,
    pool: Option<Seq<char>>,
    snapshots: Seq<ClusterSnapshot>,
    start: nat,
) -> Seq<CardModel>
    decreases entries.len(),
{
    if entries.len() == 0 {
        Seq::empty()
    } else {
        let rest = entries.drop_last();
        let before = cards(rest, host, pool, snapshots, start);
        if entries.last().1.host@ == host {
            before.push(
                card(entries.last(), pool, snapshots, start + count(rest, active_on(pool, host))),
            )
        } else {
            before
        }
    }
}

/// How many machines in the pool run on the first hosts.
pub open spec fn active_before(
    entries: Seq<Entry>,
    hosts: Seq<Seq<char>>,
    n: int,
    pool: Option<Seq<char>>,
) -> nat
    decreases n,
{
    if n <= 0 {
        0
    } else {
        active_before(entries, hosts, n - 1, pool) + count(entries, active_on(pool, hosts[n - 1]))
    }
}

/// The box of a host whose machines in the pool are numbered from `start` on.
pub open spec fn host_box(
    entries: Seq<Entry>,
    host: Seq<char>,
    pool: Option<Seq<char>>,
    snapshots: Seq<ClusterSnapshot>,
    start: nat,
) -> BoxModel {
    BoxModel {
        host,
        total_cpu: cpu_sum(entries, host) as u32,
        total_mem_gb: mem_sum(entries, host) as u32,
        vms: cards(entries, host, pool, snapshots, start),
        has_active_vms: count(entries, active_on(pool, host)) > 0,
    }
}

/// Whether boxes group machines by host: a box for each host, in ascending
/// order, and the machines in the pool numbered through.
pub open spec fn groups(
    boxes: Seq<HostBox>,
    entries: Seq<Entry>,
    pool: Option<Seq<char>>,
    snapshots: Seq<ClusterSnapshot>,
) -> bool {
    let hosts = hosts_model(boxes);
    &&& ascending(hosts)
    &&& forall|h: Seq<char>| #[trigger] hosts.contains(h) <==> has_host(entries, h)
    &&& forall|i: int|
        0 <= i < boxes.len() ==> (#[trigger] boxes[i])@ == host_box(
            entries,
            hosts[i],
            pool,
            snapshots,
            active_before(entries, hosts, i, pool),
        )
}

/// Whether the sums over each host fit.
pub open spec fn sums_fit(entries: Seq<Entry>) -> bool {
    &&& entries.len() <= usize::MAX
    &&& forall|h: Seq<char>| #[trigger] cpu_sum(entries, h) <= u32::MAX
    &&& forall|h: Seq<char>| #[trigger] mem_sum(entries, h) <= u32::MAX
}

/// The pool to which a view is limited.
pub open spec fn pool_view(pool: Option<String>) -> Option<Seq<char>> {
    match pool {
        Some(s) => Some(s@),
        None => None,
    }
}

/// The sums of the first machines are at most those of all.
proof fn lemma_sums_grow(a: Seq<Entry>, b: Seq<Entry>, host: Seq<char>)
    ensures
        cpu_sum(a, host) <= cpu_sum(a + b, host),
        mem_sum(a, host) <= mem_sum(a + b, host),
    decreases b.len(),
{
    if b.len() == 0 {
        assert(a + b =~= a);
    } else {
        assert((a + b).drop_last() =~= a + b.drop_last());
        lemma_sums_grow(a, b.drop_last(), host);
    }
}

/// The machines of the first pools are the first of all.
proof fn lemma_entries_prefix(pools: Seq<SdiPoolInfo>, i: int, n: int)
    requires
        0 <= i <= n <= pools.len(),
    ensures
        exists|rest: Seq<Entry>| entries_of(pools, n) == #[trigger] (entries_of(pools, i) + rest),
    decreases n - i,
{
    if i == n {
        assert(entries_of(pools, n) =~= entries_of(pools, i) + Seq::empty());
    } else {
        lemma_entries_prefix(pools, i, n - 1);
        let rest = choose|rest: Seq<Entry>|
            entries_of(pools, n - 1) == #[trigger] (entries_of(pools, i) + rest);
        let more = pool_entries(pools[n - 1], pools[n - 1].nodes@.len());
        assert(entries_of(pools, n) =~= entries_of(pools, i) + (rest + more));
    }
}

/// Machines up to one of a pool are the first of all.
proof fn lemma_some_prefix(pools: Seq<SdiPoolInfo>, i: int, j: int, host: Seq<char>)
    requires
        0 <= i < pools.len(),
        0 <= j <= pools[i].nodes@.len(),
    ensures
        ({
            let some = entries_of(pools, i) + pool_entries(pools[i], j as nat);
            let all = entries_of(pools, pools.len() as int);
            &&& cpu_sum(some, host) <= cpu_sum(all, host)
            &&& mem_sum(some, host) <= mem_sum(all, host)
            &&& some.len() <= all.len()
        }),
{
    let n = pools[i].nodes@.len() as int;
    let some = entries_of(pools, i) + pool_entries(pools[i], j as nat);
    let tail = pool_entries(pools[i], n as nat).skip(j);
    assert(entries_of(pools, i + 1) =~= some + tail);
    lemma_entries_prefix(pools, i + 1, pools.len() as int);
    let rest = choose|rest: Seq<Entry>|
        entries_of(pools, pools.len() as int) == #[trigger] (entries_of(pools, i + 1) + rest);
    assert(entries_of(pools, pools.len() as int) =~= some + (tail + rest));
    lemma_sums_grow(some, tail + rest, host);
}

/// Without machines none is in a pool.
proof fn lemma_active_none(hosts: Seq<Seq<char>>, n: int, pool: Option<Seq<char>>)
    ensures
        active_before(Seq::empty(), hosts, n, pool) == 0,
    decreases n,
{
    if n > 0 {
        lemma_active_none(hosts, n - 1, pool);
    }
}

/// A machine more counts for at most one of distinct hosts.
proof fn lemma_active_step(
    entries: Seq<Entry>,
    hosts: Seq<Seq<char>>,
    n: int,
    pool: Option<Seq<char>>,
)
    requires
        entries.len() > 0,
        0 <= n <= hosts.len(),
        ascending(hosts),
    ensures
        active_before(entries, hosts, n, pool) <= active_before(
            entries.drop_last(),
            hosts,
            n,
            pool,
        ) + 1,
        (forall|k: int| 0 <= k < n ==> #[trigger] hosts[k] != entries.last().1.host@)
            ==> active_before(entries, hosts, n, pool) == active_before(
            entries.drop_last(),
            hosts,
            n,
            pool,
        ),
    decreases n,
{
    if n > 0 {
        lemma_active_step(entries, hosts, n - 1, pool);
        let h = entries.last().1.host@;
        if hosts[n - 1] == h {
            assert forall|k: int| 0 <= k < n - 1 implies #[trigger] hosts[k] != h by {
                assert(text_less(hosts[k], hosts[n - 1]));
                lemma_key_irreflexive(text_key(h));
            }
        }
    }
}

/// There are no more machines in the pool on distinct hosts than machines.
proof fn lemma_active_bound(
    entries: Seq<Entry>,
    hosts: Seq<Seq<char>>,
    n: int,
    pool: Option<Seq<char>>,
)
    requires
        0 <= n <= hosts.len(),
        ascending(hosts),
    ensures
        active_before(entries, hosts, n, pool) <= entries.len(),
    decreases entries.len(),
{
    if entries.len() == 0 {
        assert(entries =~= Seq::empty());
        lemma_active_none(hosts, n, pool);
    } else {
        lemma_active_bound(entries.drop_last(), hosts, n, pool);
        lemma_active_step(entries, hosts, n, pool);
    }
}

/// The node with an address.
fn find_node(snapshots: &Vec<ClusterSnapshot>, ip: &str) -> (r: Option<(usize, usize)>)
    ensures
        match node_of(snapshots@, ip@) {
            Some((i, j)) => r matches Some((a, b)) && a == i && b == j && a < snapshots@.len(),
            None => r is None,
        },
{
    if ip.is_empty() {
        return None;
    }
    let mut i: usize = 0;
    while i < snapshots.len()
        invariant
            i <= snapshots@.len(),
            ip@.len() > 0,
            forall|k: int| 0 <= k < i ==> !snapshot_with(ip@)(#[trigger] snapshots@[k]),
        decreases snapshots@.len() - i,
    {
        let nodes = &snapshots[i].nodes;
        let mut j: usize = 0;
        while j < nodes.len()
            invariant
                j <= nodes@.len(),
                i < snapshots@.len(),
                ip@.len() > 0,
                *nodes == snapshots@[i as int].nodes,
                forall|k: int| 0 <= k < i ==> !snapshot_with(ip@)(#[trigger] snapshots@[k]),
                forall|k: int| 0 <= k < j ==> !node_at(ip@)(#[trigger] nodes@[k]),
            decreases nodes@.len() - j,
        {
            if same(nodes[j].internal_ip.as_str(), ip) {
                proof {
                    lemma_first_index(nodes@, j as int, node_at(ip@));
                    lemma_first_index(snapshots@, i as int, snapshot_with(ip@));
                }
                return Some((i, j));
            }
            j += 1;
        }
        proof {
            lemma_first_index(nodes@, j as int, node_at(ip@));
        }
        i += 1;
    }
    proof {
        lemma_first_index(snapshots@, i as int, snapshot_with(ip@));
    }
    None
}

/// The hosts of all machines, in ascending order.
fn collect_hosts(pools: &Vec<SdiPoolInfo>) -> (r: Vec<String>)
    ensures
        ascending(texts(r@)),
        forall|h: Seq<char>| #[trigger]
            texts(r@).contains(h) <==> has_host(entries_of(pools@, pools@.len() as int), h),
{
    let mut hosts: Vec<String> = Vec::new();
    let mut i: usize = 0;
    while i < pools.len()
        invariant
            i <= pools@.len(),
            ascending(texts(hosts@)),
            forall|h: Seq<char>| #[trigger]
                texts(hosts@).contains(h) <==> has_host(entries_of(pools@, i as int), h),
        decreases pools@.len() - i,
    {
        let pool = &pools[i];
        let ghost so_far = entries_of(pools@, i as int);
        let mut j: usize = 0;
        proof {
            assert(so_far + pool_entries(*pool, 0) =~= so_far);
        }
        while j < pool.nodes.len()
            invariant
                j <= pool.nodes@.len(),
                ascending(texts(hosts@)),
                forall|h: Seq<char>| #[trigger]
                    texts(hosts@).contains(h) <==> has_host(
                        so_far + pool_entries(*pool, j as nat),
                        h,
                    ),
            decreases pool.nodes@.len() - j,
        {
            let ghost before = texts(hosts@);
            let host = pool.nodes[j].host.clone();
            let ghost name = host@;
            insert_ascending(&mut hosts, host);
            proof {
                let a = so_far + pool_entries(*pool, j as nat);
                let b = so_far + pool_entries(*pool, (j + 1) as nat);
                assert(b =~= a.push((pool.pool_name@, pool.nodes@[j as int])));
                assert forall|h: Seq<char>| #[trigger] texts(hosts@).contains(h) <==> has_host(
                    b,
                    h,
                ) by {
                    assert(before.contains(h) <==> has_host(a, h));
                    if has_host(a, h) {
                        let k = choose|k: int|
                            0 <= k < a.len() && (#[trigger] a[k]).1.host@ == h;
                        assert(b[k] == a[k]);
                    }
                    if has_host(b, h) {
                        let k = choose|k: int|
                            0 <= k < b.len() && (#[trigger] b[k]).1.host@ == h;
                        if k < a.len() {
                            assert(a[k] == b[k]);
                        }
                    }
                    assert(b[b.len() - 1].1.host@ == name);
                }
            }
            j += 1;
        }
        i += 1;
    }
    hosts
}

/// The card of a machine.
fn build_card(
    vm: &SdiVmInfo,
    pool_name: &str,
    pool: &Option<String>,
    snapshots: &Vec<ClusterSnapshot>,
    number: usize,
) -> (r: VmCard)
    ensures
        r@ == card((pool_name@, *vm), pool_view(*pool), snapshots@, number as nat),
{
    let in_selected_pool = match pool {
        Some(p) => same(p.as_str(), pool_name),
        None => true,
    };
    let node = find_node(snapshots, vm.ip.as_str());
    let cluster_name = match node {
        Some((i, _)) => Some(snapshots[i].name.clone()),
        None => None,
    };
    VmCard {
        name: vm.name.clone(),
        ip: vm.ip.clone(),
        status: vm.status.clone(),
        cpu: vm.cpu,
        mem_gb: vm.mem_gb,
        disk_gb: vm.disk_gb,
        gpu: vm.gpu,
        node,
        cluster_name,
        in_selected_pool,
        flat_index: if in_selected_pool {
            number
        } else {
            usize::MAX
        },
    }
}

/// The box of a host, and the number behind its last machine in the pool.
fn build_box(
    pools: &Vec<SdiPoolInfo>,
    host: &str,
    pool: &Option<String>,
    snapshots: &Vec<ClusterSnapshot>,
    start: usize,
) -> (r: (HostBox, usize))
    requires
        sums_fit(entries_of(pools@, pools@.len() as int)),
        start + count(
            entries_of(pools@, pools@.len() as int),
            active_on(pool_view(*pool), host@),
        ) <= usize::MAX,
    ensures
        r.0@ == host_box(
            entries_of(pools@, pools@.len() as int),
            host@,
            pool_view(*pool),
            snapshots@,
            start as nat,
        ),
        r.1 == start + count(
            entries_of(pools@, pools@.len() as int),
            active_on(pool_view(*pool), host@),
        ),
{
    let ghost all = entries_of(pools@, pools@.len() as int);
    let ghost sel = pool_view(*pool);
    let ghost active = active_on(sel, host@);
    let mut total_cpu: u32 = 0;
    let mut total_mem_gb: u32 = 0;
    let mut number: usize = start;
    let mut vms: Vec<VmCard> = Vec::new();
    let mut i: usize = 0;
    proof {
        assert(cards_model(vms@) =~= Seq::empty());
    }
    while i < pools.len()
        invariant
            i <= pools@.len(),
            all == entries_of(pools@, pools@.len() as int),
            sums_fit(all),
            sel == pool_view(*pool),
            active == active_on(sel, host@),
            start + count(all, active) <= usize::MAX,
            total_cpu == cpu_sum(entries_of(pools@, i as int), host@),
            total_mem_gb == mem_sum(entries_of(pools@, i as int), host@),
            number == start + count(entries_of(pools@, i as int), active),
            cards_model(vms@) == cards(
                entries_of(pools@, i as int),
                host@,
                sel,
                snapshots@,
                start as nat,
            ),
        decreases pools@.len() - i,
    {
        let p = &pools[i];
        let ghost so_far = entries_of(pools@, i as int);
        let mut j: usize = 0;
        proof {
            assert(so_far + pool_entries(*p, 0) =~= so_far);
        }
        while j < p.nodes.len()
            invariant
                j <= p.nodes@.len(),
                i < pools@.len(),
                *p == pools@[i as int],
                so_far == entries_of(pools@, i as int),
                all == entries_of(pools@, pools@.len() as int),
                sums_fit(all),
                sel == pool_view(*pool),
                active == active_on(sel, host@),
                start + count(all, active) <= usize::MAX,
                total_cpu == cpu_sum(so_far + pool_entries(*p, j as nat), host@),
                total_mem_gb == mem_sum(so_far + pool_entries(*p, j as nat), host@),
                number == start + count(so_far + pool_entries(*p, j as nat), active),
                cards_model(vms@) == cards(
                    so_far + pool_entries(*p, j as nat),
                    host@,
                    sel,
                    snapshots@,
                    start as nat,
                ),
            decreases p.nodes@.len() - j,
        {
            let vm = &p.nodes[j];
            let ghost e = (p.pool_name@, *vm);
            let ghost a = so_far + pool_entries(*p, j as nat);
            let ghost b = so_far + pool_entries(*p, (j + 1) as nat);
            proof {
                assert(b =~= a.push(e));
                assert(b.drop_last() =~= a);
                lemma_some_prefix(pools@, i as int, j + 1, host@);
                lemma_count_prefix(pools@, i as int, j + 1, active);
                assert(cpu_sum(all, host@) <= u32::MAX);
                assert(mem_sum(all, host@) <= u32::MAX);
            }
            if same(vm.host.as_str(), host) {
                total_cpu = total_cpu + vm.cpu;
                total_mem_gb = total_mem_gb + vm.mem_gb;
                let c = build_card(vm, p.pool_name.as_str(), pool, snapshots, number);
                let ghost before = vms@;
                let counted = c.in_selected_pool;
                vms.push(c);
                if counted {
                    number = number + 1;
                }
                proof {
                    assert(cards_model(vms@) =~= cards_model(before).push(c@));
                }
            }
            j += 1;
        }
        proof {
            assert(so_far + pool_entries(*p, p.nodes@.len()) =~= entries_of(pools@, i + 1));
        }
        i += 1;
    }
    let hbox = HostBox {
        host: host.to_owned(),
        total_cpu,
        total_mem_gb,
        vms,
        has_active_vms: number > start,
    };
    (hbox, number)
}

/// Counting among the first machines gives at most what counting among all
/// gives.
proof fn lemma_count_prefix(
    pools: Seq<SdiPoolInfo>,
    i: int,
    j: int,
    keep: spec_fn(Entry) -> bool,
)
    requires
        0 <= i < pools.len(),
        0 <= j <= pools[i].nodes@.len(),
    ensures
        count(entries_of(pools, i) + pool_entries(pools[i], j as nat), keep) <= count(
            entries_of(pools, pools.len() as int),
            keep,
        ),
{
    let n = pools[i].nodes@.len() as int;
    let some = entries_of(pools, i) + pool_entries(pools[i], j as nat);
    let tail = pool_entries(pools[i], n as nat).skip(j);
    assert(entries_of(pools, i + 1) =~= some + tail);
    lemma_entries_prefix(pools, i + 1, pools.len() as int);
    let rest = choose|rest: Seq<Entry>|
        entries_of(pools, pools.len() as int) == #[trigger] (entries_of(pools, i + 1) + rest);
    assert(entries_of(pools, pools.len() as int) =~= some + (tail + rest));
    lemma_count_grows(some, tail + rest, keep);
}

/// Counting in more gives no less.
proof fn lemma_count_grows(a: Seq<Entry>, b: Seq<Entry>, keep: spec_fn(Entry) -> bool)
    ensures
        count(a, keep) <= count(a + b, keep),
    decreases b.len(),
{
    if b.len() == 0 {
        assert(a + b =~= a);
    } else {
        assert((a + b).drop_last() =~= a + b.drop_last());
        lemma_count_grows(a, b.drop_last(), keep);
    }
}

/// Groups the machines by host, each joined with the node that it is.
pub fn collect_host_boxes(app: &App) -> (r: Vec<HostBox>)
    requires
        sums_fit(entries_of(app.infra.sdi_pools@, app.infra.sdi_pools@.len() as int)),
    ensures
        groups(
            r@,
            entries_of(app.infra.sdi_pools@, app.infra.sdi_pools@.len() as int),
            pool_view(app.selected_sdi_pool),
            app.snapshots@,
        ),
{
    let pools = &app.infra.sdi_pools;
    let ghost all = entries_of(pools@, pools@.len() as int);
    let ghost sel = pool_view(app.selected_sdi_pool);
    let hosts = collect_hosts(pools);
    let ghost names = texts(hosts@);
    let mut boxes: Vec<HostBox> = Vec::new();
    let mut number: usize = 0;
    let mut i: usize = 0;
    while i < hosts.len()
        invariant
            i <= hosts@.len(),
            *pools == app.infra.sdi_pools,
            all == entries_of(pools@, pools@.len() as int),
            sel == pool_view(app.selected_sdi_pool),
            sums_fit(all),
            names == texts(hosts@),
            ascending(names),
            boxes@.len() == i,
            number == active_before(all, names, i as int, sel),
            forall|k: int|
                0 <= k < i ==> (#[trigger] boxes@[k])@ == host_box(
                    all,
                    names[k],
                    sel,
                    app.snapshots@,
                    active_before(all, names, k, sel),
                ),
        decreases hosts@.len() - i,
    {
        proof {
            lemma_active_bound(all, names, i + 1, sel);
            assert(names[i as int] == hosts@[i as int]@);
        }
        let (hbox, next) = build_box(
            pools,
            hosts[i].as_str(),
            &app.selected_sdi_pool,
            &app.snapshots,
            number,
        );
        boxes.push(hbox);
        number = next;
        i += 1;
    }
    proof {
        assert(hosts_model(boxes@) =~= names) by {
            assert forall|k: int| 0 <= k < boxes@.len() implies (#[trigger] boxes@[k]).host@
                == names[k] by {
                assert(boxes@[k]@.host == names[k]);
            }
        }
    }
    boxes
}

/// The test whether a machine runs on a host.
pub open spec fn runs_on(host: Seq<char>) -> spec_fn(Entry) -> bool {
    |e: Entry| e.1.host@ == host
}

/// A host's box has a card for each of its machines.
pub proof fn law_a_card_for_each_machine(
    entries: Seq<Entry>,
    host: Seq<char>,
    pool: Option<Seq<char>>,
    snapshots: Seq<ClusterSnapshot>,
    start: nat,
)
    ensures
        cards(entries, host, pool, snapshots, start).len() == count(entries, runs_on(host)),
    decreases entries.len(),
{
    if entries.len() > 0 {
        law_a_card_for_each_machine(entries.drop_last(), host, pool, snapshots, start);
    }
}

/// The machines of a box that are in the pool are numbered through from its
/// start on, in the order of their cards; the others have no number.
pub proof fn law_cards_numbered_through(
    entries: Seq<Entry>,
    host: Seq<char>,
    pool: Option<Seq<char>>,
    snapshots: Seq<ClusterSnapshot>,
    start: nat,
    i: int,
)
    requires
        start + count(entries, active_on(pool, host)) < usize::MAX,
        0 <= i < cards(entries, host, pool, snapshots, start).len(),
    ensures
        ({
            let all = cards(entries, host, pool, snapshots, start);
            &&& all[i].in_selected_pool ==> start <= all[i].flat_index < start + count(
                entries,
                active_on(pool, host),
            )
            &&& !all[i].in_selected_pool ==> all[i].flat_index == usize::MAX
            &&& forall|j: int|
                0 <= j < i && all[i].in_selected_pool && (
                #[trigger] all[j]).in_selected_pool ==> all[j].flat_index < all[i].flat_index
        }),
    decreases entries.len(),
{
    if entries.len() > 0 {
        let rest = entries.drop_last();
        let all = cards(entries, host, pool, snapshots, start);
        let before = cards(rest, host, pool, snapshots, start);
        if i < before.len() {
            law_cards_numbered_through(rest, host, pool, snapshots, start, i);
            assert(all[i] == before[i]);
            assert forall|j: int|
                0 <= j < i && all[i].in_selected_pool && (
                #[trigger] all[j]).in_selected_pool implies all[j].flat_index
                < all[i].flat_index by {
                assert(all[j] == before[j]);
            }
        } else {
            assert forall|j: int|
                0 <= j < i && all[i].in_selected_pool && (
                #[trigger] all[j]).in_selected_pool implies all[j].flat_index
                < all[i].flat_index by {
                assert(all[j] == before[j]);
                law_cards_numbered_through(rest, host, pool, snapshots, start, j);
            }
        }
    }
}

/// A machine is joined with a node only by its address.
pub proof fn law_joined_by_address(snapshots: Seq<ClusterSnapshot>, ip: Seq<char>)
    ensures
        match node_of(snapshots, ip) {
            Some((i, j)) => {
                &&& ip.len() > 0
                &&& 0 <= i < snapshots.len()
                &&& 0 <= j < snapshots[i].nodes@.len()
                &&& snapshots[i].nodes@[j].internal_ip@ == ip
            },
            None => ip.len() == 0 || forall|i: int, j: int|
                0 <= i < snapshots.len() && 0 <= j < snapshots[i].nodes@.len() ==> (
                #[trigger] snapshots[i].nodes@[j]).internal_ip@ != ip,
        },
{
    lemma_first_index_props(snapshots, snapshot_with(ip));
    let i = first_index(snapshots, snapshot_with(ip));
    if i < snapshots.len() {
        lemma_first_index_props(snapshots[i].nodes@, node_at(ip));
    } else if ip.len() > 0 {
        assert forall|k: int, j: int|
            0 <= k < snapshots.len() && 0 <= j < snapshots[k].nodes@.len() implies (
        #[trigger] snapshots[k].nodes@[j]).internal_ip@ != ip by {
            assert(!snapshot_with(ip)(snapshots[k]));
            lemma_first_index_props(snapshots[k].nodes@, node_at(ip));
            assert(!node_at(ip)(snapshots[k].nodes@[j]));
        }
    }
}

// ---------------------------------------------------------------------------
// Drawing
// ---------------------------------------------------------------------------

/// Rows and columns of the grid in which a number of boxes stand: at most four
/// are shown.
pub open spec fn grid(boxes: nat) -> (int, int) {
    if boxes == 1 {
        (1, 1)
    } else if boxes == 2 {
        (1, 2)
    } else {
        (2, 2)
    }
}

/// Rows and columns of the grid in which a number of boxes stand.
pub fn grid_shape(boxes: usize) -> (r: (usize, usize))
    ensures
        r.0 == grid(boxes as nat).0,
        r.1 == grid(boxes as nat).1,
{
    if boxes == 1 {
        (1, 1)
    } else if boxes == 2 {
        (1, 2)
    } else {
        (2, 2)
    }
}

/// How much of a box's or a machine's processors and memory is in use, in
/// percent, as text.
#[derive(Debug)]
pub struct UsageText {
    pub cpu: String,
    pub mem: String,
}

/// What is drawn of a host's box.
#[derive(Debug)]
pub struct HostFrame {
    pub title: String,
    pub border: Color,
    /// The lines, where there is room for them.
    pub lines: Option<Vec<Line>>,
}

/// The colour of a box's border: it stands out where it has machines in the
/// pool.
pub open spec fn border_color(has_active_vms: bool) -> Color {
    if has_active_vms {
        Color::BrightBlue
    } else {
        Color::Bg3
    }
}

/// The two lines on a host as a whole.
pub open spec fn summary_lines(b: BoxModel, used: Option<UsageText>) -> Seq<Seq<SpanModel>> {
    seq![
        line_of_span(
            " Total: "@ + decimal(b.total_cpu as nat) + "c / "@ + decimal(b.total_mem_gb as nat)
                + "Gi"@,
            colored(Color::Fg2),
        ),
        line_of_span(
            match used {
                Some(u) => " Used:  "@ + u.cpu@ + "% CPU / "@ + u.mem@ + "% MEM"@,
                None => " Used:  N/A"@,
            },
            colored(Color::Fg3),
        ),
    ]
}

/// A name as it is shown in a width: a long one is cut.
pub open spec fn shown_name(name: Seq<char>, width: int) -> Seq<char> {
    let room = less(width, 4);
    if text_bytes(name) > less(room, 15) {
        let keep = less(room, 18);
        " "@ + (if name.len() <= keep {
            name
        } else {
            name.take(keep)
        }) + "..."@
    } else {
        " "@ + name
    }
}

/// A colour, or a faint one for a machine outside of the pool.
pub open spec fn unless_faint(c: CardModel, style: Style) -> Style {
    if c.in_selected_pool {
        style
    } else {
        colored(Color::Bg3)
    }
}

/// How the name of a machine is drawn; the one at the cursor stands out.
pub open spec fn name_style(c: CardModel, cursor: usize) -> Style {
    unless_faint(
        c,
        if c.flat_index == cursor {
            bold(Color::BrightYellow)
        } else {
            colored(Color::Fg)
        },
    )
}

/// The colour of a machine's state.
pub open spec fn state_color(status: Seq<char>) -> Color {
    if status == "running"@ {
        Color::BrightGreen
    } else if status == "paused"@ {
        Color::BrightYellow
    } else {
        Color::BrightRed
    }
}

/// The line with a machine's name and state.
pub open spec fn name_line(c: CardModel, cursor: usize, width: int) -> Seq<SpanModel> {
    let line = seq![
        span(shown_name(c.name, width), name_style(c, cursor)),
        span(" ["@ + c.status + "] "@, unless_faint(c, colored(Color::Fg4))),
        span("●"@, unless_faint(c, colored(state_color(c.status)))),
    ];
    if c.gpu {
        line.push(span(" GPU"@, unless_faint(c, bold(Color::BrightPurple))))
    } else {
        line
    }
}

/// The line with what a machine has, what of it is in use, and its cluster.
pub open spec fn detail_line(c: CardModel, used: Option<UsageText>) -> Seq<SpanModel> {
    seq![
        span(
            " "@ + decimal(c.cpu as nat) + "c "@ + decimal(c.mem_gb as nat) + "Gi "@ + decimal(
                c.disk_gb as nat,
            ) + "Gi"@,
            unless_faint(c, colored(Color::Fg3)),
        ),
        span(
            match used {
                Some(u) => "  CPU:"@ + u.cpu@ + "% M:"@ + u.mem@ + "%"@,
                None => "  N/A"@,
            },
            unless_faint(
                c,
                match used {
                    Some(_) => colored(Color::BrightGreen),
                    None => colored(Color::Fg4),
                },
            ),
        ),
        span(
            match c.cluster_name {
                Some(name) => " ("@ + name + ")"@,
                None => Seq::empty(),
            },
            unless_faint(c, colored(Color::Fg3)),
        ),
    ]
}

/// The lines of the first machines of a box.
pub open spec fn machine_lines(
    vms: Seq<CardModel>,
    used: Seq<Option<UsageText>>,
    cursor: usize,
    width: int,
    n: int,
) -> Seq<Seq<SpanModel>>
    decreases n,
{
    if n <= 0 {
        Seq::empty()
    } else {
        machine_lines(vms, used, cursor, width, n - 1).push(
            name_line(vms[n - 1], cursor, width),
        ).push(detail_line(vms[n - 1], used[n - 1]))
    }
}

/// The lines of a box: the host as a whole, and below an empty line its
/// machines.
pub open spec fn box_lines(
    b: BoxModel,
    host_used: Option<UsageText>,
    used: Seq<Option<UsageText>>,
    cursor: usize,
    width: int,
) -> Seq<Seq<SpanModel>> {
    summary_lines(b, host_used) + (if b.vms.len() > 0 {
        seq![Seq::<SpanModel>::empty()]
    } else {
        Seq::empty()
    }) + machine_lines(b.vms, used, cursor, width, b.vms.len() as int)
}

fn build_summary(lines: &mut Vec<Line>, hbox: &HostBox, used: &Option<UsageText>)
    ensures
        lines_model(final(lines)@) == lines_model(old(lines)@) + summary_lines(hbox@, *used),
{
    let ghost before = lines_model(lines@);
    let mut total = " Total: ".to_owned();
    total.append(decimal_u64(hbox.total_cpu as u64).as_str());
    total.append("c / ");
    total.append(decimal_u64(hbox.total_mem_gb as u64).as_str());
    total.append("Gi");
    lines.push(Line::of(total, Style::colored(Color::Fg2)));
    let usage = match used {
        Some(u) => {
            let mut s = " Used:  ".to_owned();
            s.append(u.cpu.as_str());
            s.append("% CPU / ");
            s.append(u.mem.as_str());
            s.append("% MEM");
            s
        },
        None => " Used:  N/A".to_owned(),
    };
    lines.push(Line::of(usage, Style::colored(Color::Fg3)));
    proof {
        assert(lines_model(lines@) =~= before + summary_lines(hbox@, *used));
    }
}

fn show_name(name: &str, width: u16) -> (r: String)
    ensures
        r@ == shown_name(name@, width as int),
{
    let room: usize = if width >= 4 {
        width as usize - 4
    } else {
        0
    };
    let limit: usize = if room >= 15 {
        room - 15
    } else {
        0
    };
    let mut out = " ".to_owned();
    if is_longer(name, limit) {
        let keep: usize = if room >= 18 {
            room - 18
        } else {
            0
        };
        let v = chars_of(name);
        if v.len() <= keep {
            out.append(name);
        } else {
            proof {
                assert(v@.subrange(0, keep as int) =~= name@.take(keep as int));
            }
            out.append(text_between(&v, 0, keep).as_str());
        }
        out.append("...");
    } else {
        out.append(name);
    }
    out
}

fn style_unless_faint(c: &VmCard, style: Style) -> (r: Style)
    ensures
        r == unless_faint(c@, style),
{
    if c.in_selected_pool {
        style
    } else {
        Style::colored(Color::Bg3)
    }
}

fn build_name_line(c: &VmCard, cursor: usize, width: u16) -> (r: Line)
    ensures
        r@ == name_line(c@, cursor, width as int),
{
    let style = if c.flat_index == cursor {
        Style::bold(Color::BrightYellow)
    } else {
        Style::colored(Color::Fg)
    };
    let state = if same(c.status.as_str(), "running") {
        Color::BrightGreen
    } else if same(c.status.as_str(), "paused") {
        Color::BrightYellow
    } else {
        Color::BrightRed
    };
    let mut line = Line::of(show_name(c.name.as_str(), width), style_unless_faint(c, style));
    line.add_styled(
        framed(" [", c.status.as_str(), "] "),
        style_unless_faint(c, Style::colored(Color::Fg4)),
    );
    line.add_styled("●".to_owned(), style_unless_faint(c, Style::colored(state)));
    if c.gpu {
        line.add_styled(
            " GPU".to_owned(),
            style_unless_faint(c, Style::bold(Color::BrightPurple)),
        );
    }
    proof {
        assert(line@ =~= name_line(c@, cursor, width as int));
    }
    line
}

fn build_detail_line(c: &VmCard, used: &Option<UsageText>) -> (r: Line)
    ensures
        r@ == detail_line(c@, *used),
{
    let mut specs = " ".to_owned();
    specs.append(decimal_u64(c.cpu as u64).as_str());
    specs.append("c ");
    specs.append(decimal_u64(c.mem_gb as u64).as_str());
    specs.append("Gi ");
    specs.append(decimal_u64(c.disk_gb as u64).as_str());
    specs.append("Gi");
    let (metrics, color) = match used {
        Some(u) => {
            let mut s = "  CPU:".to_owned();
            s.append(u.cpu.as_str());
            s.append("% M:");
            s.append(u.mem.as_str());
            s.append("%");
            (s, Color::BrightGreen)
        },
        None => ("  N/A".to_owned(), Color::Fg4),
    };
    let cluster = match &c.cluster_name {
        Some(name) => framed(" (", name.as_str(), ")"),
        None => String::new(),
    };
    let faint = style_unless_faint(c, Style::colored(Color::Fg3));
    let mut line = Line::of(specs, faint);
    line.add_styled(metrics, style_unless_faint(c, Style::colored(color)));
    line.add_styled(cluster, faint);
    proof {
        assert(line@ =~= detail_line(c@, *used));
    }
    line
}

fn build_box_lines(
    hbox: &HostBox,
    host_used: &Option<UsageText>,
    used: &Vec<Option<UsageText>>,
    cursor: usize,
    width: u16,
) -> (r: Vec<Line>)
    requires
        used@.len() == hbox.vms@.len(),
    ensures
        lines_model(r@) == box_lines(hbox@, *host_used, used@, cursor, width as int),
{
    let mut lines: Vec<Line> = Vec::new();
    build_summary(&mut lines, hbox, host_used);
    if hbox.vms.len() > 0 {
        lines.push(Line::blank());
    }
    let ghost head = lines_model(lines@);
    let ghost vms = hbox@.vms;
    proof {
        assert(vms.len() == hbox.vms@.len());
        assert(head =~= summary_lines(hbox@, *host_used) + (if vms.len() > 0 {
            seq![Seq::<SpanModel>::empty()]
        } else {
            Seq::empty()
        }));
        assert(head + machine_lines(vms, used@, cursor, width as int, 0) =~= head);
    }
    let mut i: usize = 0;
    while i < hbox.vms.len()
        invariant
            i <= hbox.vms@.len(),
            used@.len() == hbox.vms@.len(),
            vms == hbox@.vms,
            vms.len() == hbox.vms@.len(),
            lines_model(lines@) == head + machine_lines(
                vms,
                used@,
                cursor,
                width as int,
                i as int,
            ),
        decreases hbox.vms@.len() - i,
    {
        let name = build_name_line(&hbox.vms[i], cursor, width);
        let detail = build_detail_line(&hbox.vms[i], &used[i]);
        proof {
            assert(vms[i as int] == hbox.vms@[i as int]@);
            let shown = machine_lines(vms, used@, cursor, width as int, i as int);
            assert((head + shown).push(name@).push(detail@) =~= head + shown.push(name@).push(
                detail@,
            ));
        }
        lines.push(name);
        lines.push(detail);
        i += 1;
    }
    lines
}

/// Whether a frame shows a host's box in what its border leaves.
pub open spec fn shows_box(
    frame: HostFrame,
    hbox: HostBox,
    inner: Area,
    cursor: usize,
    host_used: Option<UsageText>,
    used: Seq<Option<UsageText>>,
) -> bool {
    &&& frame.title@ == " "@ + hbox.host@ + " "@
    &&& frame.border == border_color(hbox.has_active_vms)
    &&& frame.lines is Some == (inner.height >= 2 && inner.width >= 10)
    &&& frame.lines is Some ==> lines_model(frame.lines->0@) == box_lines(
        hbox@,
        host_used,
        used,
        cursor,
        inner.width as int,
    )
}

/// Lays a host's box out in what its border leaves. `host_used` says what of the
/// host is in use and `used` what of each machine, where it is known.
pub fn render_host_box(
    hbox: &HostBox,
    inner: Area,
    cursor: usize,
    host_used: &Option<UsageText>,
    used: &Vec<Option<UsageText>>,
) -> (r: HostFrame)
    requires
        used@.len() == hbox.vms@.len(),
    ensures
        shows_box(r, *hbox, inner, cursor, *host_used, used@),
{
    let title = framed(" ", hbox.host.as_str(), " ");
    let border = if hbox.has_active_vms {
        Color::BrightBlue
    } else {
        Color::Bg3
    };
    let lines = if inner.height < 2 || inner.width < 10 {
        None
    } else {
        Some(build_box_lines(hbox, host_used, used, cursor, inner.width))
    };
    HostFrame { title, border, lines }
}

// ---------------------------------------------------------------------------
// The grid of boxes
// ---------------------------------------------------------------------------

/// What is in use of a host, and of each of its machines, where it is known.
#[derive(Debug)]
pub struct BoxUsage {
    pub host: Option<UsageText>,
    pub machines: Vec<Option<UsageText>>,
}

/// Whether there is an entry for each box, and in it one for each machine.
pub open spec fn usage_fits(boxes: Seq<HostBox>, usage: Seq<BoxUsage>) -> bool {
    &&& usage.len() == boxes.len()
    &&& forall|i: int|
        0 <= i < boxes.len() ==> (#[trigger] usage[i]).machines@.len() == boxes[i].vms@.len()
}

/// A box that is drawn.
#[derive(Debug)]
pub struct PlacedBox {
    /// Where the box stands, with its border.
    pub area: Area,
    /// Where its lines stand.
    pub inner: Area,
    pub frame: HostFrame,
}

/// What is drawn of the machines.
#[derive(Debug)]
pub enum InfraFrame {
    /// There are none; the line says so.
    Empty(Line),
    Boxes(Vec<PlacedBox>),
}

/// Whether a box is drawn in a cell.
pub open spec fn places_box(
    p: PlacedBox,
    hbox: HostBox,
    cell: Area,
    cursor: usize,
    usage: BoxUsage,
) -> bool {
    &&& p.area == cell
    &&& p.inner == inside(cell)
    &&& shows_box(p.frame, hbox, p.inner, cursor, usage.host, usage.machines@)
}

/// Draws boxes in cells, one in each, as far as the cells go.
pub fn place_boxes(
    boxes: &Vec<HostBox>,
    cells: &Vec<Area>,
    cursor: usize,
    usage: &Vec<BoxUsage>,
) -> (r: Vec<PlacedBox>)
    requires
        usage_fits(boxes@, usage@),
    ensures
        r@.len() == lesser(boxes@.len() as int, cells@.len() as int),
        forall|i: int|
            0 <= i < r@.len() ==> places_box(
                #[trigger] r@[i],
                boxes@[i],
                cells@[i],
                cursor,
                usage@[i],
            ),
{
    let mut out: Vec<PlacedBox> = Vec::new();
    let mut i: usize = 0;
    while i < boxes.len() && i < cells.len()
        invariant
            i <= boxes@.len(),
            i <= cells@.len(),
            out@.len() == i,
            usage_fits(boxes@, usage@),
            forall|k: int|
                0 <= k < i ==> places_box(
                    #[trigger] out@[k],
                    boxes@[k],
                    cells@[k],
                    cursor,
                    usage@[k],
                ),
        decreases boxes@.len() - i,
    {
        let area = cells[i];
        let inner = inside_border(area);
        let frame = render_host_box(
            &boxes[i],
            inner,
            cursor,
            &usage[i].host,
            &usage[i].machines,
        );
        out.push(PlacedBox { area, inner, frame });
        i += 1;
    }
    out
}

/// Where a part of one or two equal parts begins, from the start of the whole: of
/// an odd size the first part has the greater half.
pub open spec fn part_start(size: int, parts: int, i: int) -> int {
    if i <= 0 {
        0
    } else if i >= parts {
        size
    } else {
        (size + 1) / 2
    }
}

/// A part of one or two equal parts of a rectangle, below one another or side by
/// side.
pub open spec fn part_of(area: Area, vertical: bool, parts: int, i: int) -> Area {
    let size = if vertical {
        area.height as int
    } else {
        area.width as int
    };
    let from = part_start(size, parts, i);
    let to = part_start(size, parts, i + 1);
    if vertical {
        Area { y: (area.y + from) as u16, height: (to - from) as u16, ..area }
    } else {
        Area { x: (area.x + from) as u16, width: (to - from) as u16, ..area }
    }
}

/// Whether a rectangle ends at the largest coordinate or before.
pub open spec fn on_screen(area: Area) -> bool {
    area.x + area.width <= u16::MAX && area.y + area.height <= u16::MAX
}

/// `ratatui`: `Layout::split` by `Constraint::Ratio` into one or two parts of
/// equal share, below one another or side by side, without margin or spacing.
/// Across the direction of the split each part is as large as the whole. Along it
/// the first part starts where the whole does, the next where the one before ends,
/// and the last ends where the whole does. A border between two parts that would
/// fall within a row or column is rounded up, so that the first part has the
/// greater half.
#[verifier::external_body]
fn split_equally(area: Area, vertical: bool, parts: usize) -> (r: Vec<Area>)
    requires
        1 <= parts <= 2,
        on_screen(area),
    ensures
        r@.len() == parts,
        forall|i: int|
            0 <= i < parts ==> #[trigger] r@[i] == part_of(area, vertical, parts as int, i),
{
    let direction = if vertical { Direction::Vertical } else { Direction::Horizontal };
    let shares = vec![Constraint::Ratio(1, parts as u32); parts];
    let whole = Rect::new(area.x, area.y, area.width, area.height);
    let split = Layout::default().direction(direction).constraints(shares).split(whole);
    split.iter().map(|p| Area { x: p.x, y: p.y, width: p.width, height: p.height }).collect()
}

/// A cell of the grid for a number of boxes, counted row by row: the area is
/// split into rows, and each row into cells.
pub open spec fn grid_cell(area: Area, boxes: nat, i: int) -> Area {
    let (rows, cols) = grid(boxes);
    part_of(part_of(area, true, rows, i / cols), false, cols, i % cols)
}

/// The number of cells of the grid for a number of boxes.
pub open spec fn cell_count(boxes: nat) -> int {
    grid(boxes).0 * grid(boxes).1
}

/// The cells of the grid for a number of boxes, row by row.
pub fn grid_cells(area: Area, boxes: usize) -> (r: Vec<Area>)
    requires
        on_screen(area),
    ensures
        r@.len() == cell_count(boxes as nat),
        forall|i: int|
            0 <= i < r@.len() ==> #[trigger] r@[i] == grid_cell(area, boxes as nat, i),
{
    let (rows, cols) = grid_shape(boxes);
    let bands = split_equally(area, true, rows);
    let mut cells: Vec<Area> = Vec::new();
    let mut row: usize = 0;
    while row < rows
        invariant
            1 <= rows <= 2,
            1 <= cols <= 2,
            grid(boxes as nat) == (rows as int, cols as int),
            on_screen(area),
            row <= rows,
            bands@.len() == rows,
            forall|k: int|
                0 <= k < rows ==> #[trigger] bands@[k] == part_of(area, true, rows as int, k),
            cells@.len() == row * cols,
            forall|i: int|
                0 <= i < cells@.len() ==> #[trigger] cells@[i] == grid_cell(
                    area,
                    boxes as nat,
                    i,
                ),
        decreases rows - row,
    {
        proof {
            assert(on_screen(bands@[row as int]));
        }
        let mut part = split_equally(bands[row], false, cols);
        let ghost before = cells@;
        let ghost added = part@;
        cells.append(&mut part);
        proof {
            assert(cells@ == before + added);
            assert((row + 1) * cols == row * cols + cols) by (nonlinear_arith);
            assert forall|i: int| 0 <= i < cells@.len() implies #[trigger] cells@[i] == grid_cell(
                area,
                boxes as nat,
                i,
            ) by {
                if i >= before.len() {
                    lemma_cell_position(i, row as int, cols as int);
                    assert(cells@[i] == added[i - before.len()]);
                }
            }
        }
        row += 1;
    }
    cells
}

/// The row and the column of a cell that is counted row by row.
proof fn lemma_cell_position(i: int, row: int, cols: int)
    requires
        1 <= cols <= 2,
        row * cols <= i < row * cols + cols,
    ensures
        i / cols == row,
        i % cols == i - row * cols,
{
    if cols == 1 {
        assert(row * cols == row);
    } else {
        assert(row * cols == 2 * row);
    }
}

/// Whether a place lies in a rectangle.
pub open spec fn holds_place(area: Area, x: int, y: int) -> bool {
    area.x <= x < area.x + area.width && area.y <= y < area.y + area.height
}

/// The cells of a grid fill the area: a place lies in the area exactly if it lies
/// in some cell, and no place lies in two cells.
pub proof fn law_cells_fill_the_area(area: Area, boxes: nat, x: int, y: int)
    requires
        on_screen(area),
    ensures
        holds_place(area, x, y) <==> exists|i: int|
            0 <= i < cell_count(boxes) && #[trigger] holds_place(grid_cell(area, boxes, i), x, y),
        forall|i: int, j: int|
            0 <= i < cell_count(boxes) && 0 <= j < cell_count(boxes) && #[trigger] holds_place(
                grid_cell(area, boxes, i),
                x,
                y,
            ) && #[trigger] holds_place(grid_cell(area, boxes, j), x, y) ==> i == j,
{
    let (rows, cols) = grid(boxes);
    if holds_place(area, x, y) {
        let row: int = if y - area.y < part_start(area.height as int, rows, 1) {
            0
        } else {
            1
        };
        let col: int = if x - area.x < part_start(area.width as int, cols, 1) {
            0
        } else {
            1
        };
        let i = row * cols + col;
        assert(0 <= row < rows);
        assert(0 <= col < cols);
        assert(row * cols <= i < row * cols + cols);
        lemma_cell_position(i, row, cols);
        assert(holds_place(grid_cell(area, boxes, i), x, y));
    }
    assert forall|i: int|
        0 <= i < cell_count(boxes) && #[trigger] holds_place(
            grid_cell(area, boxes, i),
            x,
            y,
        ) implies holds_place(area, x, y) by {}
}

/// Cells that stand side by side adjoin, and so do cells below one another; the
/// first and the last begin and end where the area does.
pub proof fn law_cells_adjoin(area: Area, boxes: nat, i: int)
    requires
        on_screen(area),
        0 <= i < cell_count(boxes),
    ensures
        ({
            let (rows, cols) = grid(boxes);
            let cell = grid_cell(area, boxes, i);
            &&& i % cols == 0 ==> cell.x == area.x
            &&& i % cols == cols - 1 ==> cell.x + cell.width == area.x + area.width
            &&& i % cols < cols - 1 ==> {
                let right = grid_cell(area, boxes, i + 1);
                right.x == cell.x + cell.width && right.y == cell.y && right.height == cell.height
            }
            &&& i / cols == 0 ==> cell.y == area.y
            &&& i / cols == rows - 1 ==> cell.y + cell.height == area.y + area.height
            &&& i / cols < rows - 1 ==> {
                let below = grid_cell(area, boxes, i + cols);
                below.y == cell.y + cell.height && below.x == cell.x && below.width == cell.width
            }
        }),
{
}

/// The line that is shown where there are no machines.
pub open spec fn no_machines_text() -> Seq<char> {
    "  No SDI infrastructure data. Run 'scalex sdi init' first."@
}

/// Lays the hosts out on the screen, at most four of them in a grid that fills
/// the area. `usage` says what is in use of each.
pub fn render_infra_view(
    boxes: &Vec<HostBox>,
    area: Area,
    cursor: usize,
    usage: &Vec<BoxUsage>,
) -> (r: InfraFrame)
    requires
        usage_fits(boxes@, usage@),
        on_screen(area),
    ensures
        boxes@.len() == 0 <==> r is Empty,
        r matches InfraFrame::Empty(line) ==> line@ == line_of_span(
            no_machines_text(),
            colored(Color::Fg4),
        ),
        r matches InfraFrame::Boxes(placed) ==> {
            &&& placed@.len() == lesser(boxes@.len() as int, cell_count(boxes@.len()))
            &&& forall|i: int|
                0 <= i < placed@.len() ==> places_box(
                    #[trigger] placed@[i],
                    boxes@[i],
                    grid_cell(area, boxes@.len(), i),
                    cursor,
                    usage@[i],
                )
        },
{
    if boxes.len() == 0 {
        let text = "  No SDI infrastructure data. Run 'scalex sdi init' first.".to_owned();
        return InfraFrame::Empty(Line::of(text, Style::colored(Color::Fg4)));
    }
    let cells = grid_cells(area, boxes.len());
    let placed = place_boxes(boxes, &cells, cursor, usage);
    proof {
        assert forall|i: int| 0 <= i < placed@.len() implies places_box(
            #[trigger] placed@[i],
            boxes@[i],
            grid_cell(area, boxes@.len(), i),
            cursor,
            usage@[i],
        ) by {
            assert(cells@[i] == grid_cell(area, boxes@.len(), i));
        }
    }
    InfraFrame::Boxes(placed)
}

} // verus!
