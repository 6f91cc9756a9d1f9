//! The virtual machines that the clusters run on.
use vstd::prelude::*;
use crate::list::{count, lemma_take_all};
use crate::sort::{
    key_less, stable_sort, stably_sorted, text_key, text_less, text_precedes, SortKey,
};
use crate::text::same;

verus! {

broadcast use lemma_take_all;

/// All pools of virtual machines.
#[derive(Debug)]
pub struct InfraSnapshot {
    pub sdi_pools: Vec<SdiPoolInfo>,
    pub total_vms: usize,
    pub running_vms: usize,
}

/// A pool of virtual machines.
#[derive(Debug)]
pub struct SdiPoolInfo {
    pub pool_name: String,
    pub purpose: String,
    pub nodes: Vec<SdiVmInfo>,
}

/// A virtual machine.
#[derive(Debug)]
pub struct SdiVmInfo {
    pub name: String,
    pub ip: String,
    pub host: String,
    pub cpu: u32,
    pub mem_gb: u32,
    pub disk_gb: u32,
    pub status: String,
    pub gpu: bool,
}

/// A pool as its state file gives it.
#[derive(Debug)]
pub struct SdiPoolState {
    pub pool_name: String,
    pub purpose: String,
    pub nodes: Vec<SdiNodeState>,
}

/// A machine as its pool's state file gives it.
#[derive(Debug)]
pub struct SdiNodeState {
    pub node_name: String,
    pub ip: String,
    pub host: String,
    pub cpu: u32,
    pub mem_gb: u32,
    pub disk_gb: u32,
    pub status: String,
    pub gpu_passthrough: bool,
}

impl Default for InfraSnapshot {
    fn default() -> (r: InfraSnapshot)
        ensures
            r.sdi_pools@.len() == 0,
            r.total_vms == 0,
            r.running_vms == 0,
    {
        InfraSnapshot { sdi_pools: Vec::new(), total_vms: 0, running_vms: 0 }
    }
}

impl SortKey for SdiPoolState {
    /// Pools are sorted by name.
    open spec fn sort_key(&self) -> Seq<int> {
        text_key(self.pool_name@)
    }

    fn precedes(&self, other: &Self) -> (r: bool) {
        text_precedes(self.pool_name.as_str(), other.pool_name.as_str())
    }
}

/// Whether an entry shows a machine.
pub open spec fn shows_vm(info: SdiVmInfo, state: SdiNodeState) -> bool {
    &&& info.name@ == state.node_name@
    &&& info.ip@ == state.ip@
    &&& info.host@ == state.host@
    &&& info.cpu == state.cpu
    &&& info.mem_gb == state.mem_gb
    &&& info.disk_gb == state.disk_gb
    &&& info.status@ == state.status@
    &&& info.gpu == state.gpu_passthrough
}

/// Whether an entry shows a pool with all its machines, in order.
pub open spec fn shows_pool(info: SdiPoolInfo, state: SdiPoolState) -> bool {
    &&& info.pool_name@ == state.pool_name@
    &&& info.purpose@ == state.purpose@
    &&& info.nodes@.len() == state.nodes@.len()
    &&& forall|i: int|
        0 <= i < info.nodes@.len() ==> shows_vm(#[trigger] info.nodes@[i], state.nodes@[i])
}

/// Whether a machine is running.
pub open spec fn vm_running() -> spec_fn(SdiVmInfo) -> bool {
    |vm: SdiVmInfo| vm.status@ == "running"@
}

/// The number of machines in all pools.
pub open spec fn vm_total(pools: Seq<SdiPoolInfo>) -> nat
    decreases pools.len(),
{
    if pools.len() == 0 {
        0
    } else {
        vm_total(pools.drop_last()) + pools.last().nodes@.len()
    }
}

/// The number of running machines in all pools.
pub open spec fn vm_running_total(pools: Seq<SdiPoolInfo>) -> nat
    decreases pools.len(),
{
    if pools.len() == 0 {
        0
    } else {
        vm_running_total(pools.drop_last()) + count(pools.last().nodes@, vm_running())
    }
}

/// The number of machines in the state of all pools.
pub open spec fn machine_total(pools: Seq<SdiPoolState>) -> nat
    decreases pools.len(),
{
    if pools.len() == 0 {
        0
    } else {
        machine_total(pools.drop_last()) + pools.last().nodes@.len()
    }
}

/// Whether a snapshot shows pools, in order, with its counts in agreement.
pub open spec fn shows_pools(snap: InfraSnapshot, pools: Seq<SdiPoolState>) -> bool {
    &&& snap.sdi_pools@.len() == pools.len()
    &&& forall|i: int|
        0 <= i < pools.len() ==> shows_pool(#[trigger] snap.sdi_pools@[i], pools[i])
    &&& snap.total_vms == vm_total(snap.sdi_pools@)
    &&& snap.running_vms == vm_running_total(snap.sdi_pools@)
}

/// Makes a machine's entry.
pub fn node_state_to_vm_info(node: &SdiNodeState) -> (r: SdiVmInfo)
    ensures
        shows_vm(r, *node),
{
    SdiVmInfo {
        name: node.node_name.clone(),
        ip: node.ip.clone(),
        host: node.host.clone(),
        cpu: node.cpu,
        mem_gb: node.mem_gb,
        disk_gb: node.disk_gb,
        status: node.status.clone(),
        gpu: node.gpu_passthrough,
    }
}

/// Makes a pool's entry, and counts its running machines.
fn pool_info(pool: &SdiPoolState) -> (r: (SdiPoolInfo, usize))
    ensures
        shows_pool(r.0, *pool),
        r.1 == count(r.0.nodes@, vm_running()),
        r.1 <= r.0.nodes@.len(),
{
    let mut nodes: Vec<SdiVmInfo> = Vec::new();
    let mut running: usize = 0;
    let mut i: usize = 0;
    while i < pool.nodes.len()
        invariant
            running <= i <= pool.nodes@.len(),
            nodes@.len() == i,
            forall|k: int| 0 <= k < i ==> shows_vm(#[trigger] nodes@[k], pool.nodes@[k]),
            running == count(nodes@, vm_running()),
        decreases pool.nodes@.len() - i,
    {
        let vm = node_state_to_vm_info(&pool.nodes[i]);
        if same(vm.status.as_str(), "running") {
            running += 1;
        }
        let ghost before = nodes@;
        nodes.push(vm);
        i += 1;
        proof {
            assert(nodes@.drop_last() =~= before);
        }
    }
    (
        SdiPoolInfo { pool_name: pool.pool_name.clone(), purpose: pool.purpose.clone(), nodes },
        running,
    )
}

/// Makes the snapshot of the pools whose state could be read, sorted by name;
/// an empty one where reading failed.
pub fn load_sdi_state(read: Option<Vec<SdiPoolState>>) -> (r: InfraSnapshot)
    requires
        read is Some ==> machine_total(read->0@) <= usize::MAX,
    ensures
        is_loaded(r, read),
{
    match read {
        None => InfraSnapshot::default(),
        Some(pools) => {
            let mut sorted = pools;
            stable_sort(&mut sorted);
            let mut sdi_pools: Vec<SdiPoolInfo> = Vec::new();
            let mut total_vms: usize = 0;
            let mut running_vms: usize = 0;
            let mut i: usize = 0;
            proof {
                lemma_machine_total_permutation(pools@, sorted@);
            }
            while i < sorted.len()
                invariant
                    i <= sorted@.len(),
                    sdi_pools@.len() == i,
                    forall|k: int| 0 <= k < i ==> shows_pool(#[trigger] sdi_pools@[k], sorted@[k]),
                    total_vms == vm_total(sdi_pools@),
                    total_vms == machine_total(sorted@.take(i as int)),
                    running_vms == vm_running_total(sdi_pools@),
                    running_vms <= total_vms,
                    machine_total(sorted@) <= usize::MAX,
                decreases sorted@.len() - i,
            {
                let (info, running) = pool_info(&sorted[i]);
                proof {
                    assert(sorted@.take(i + 1).drop_last() =~= sorted@.take(i as int));
                    lemma_machine_total_prefix(sorted@, i + 1);
                }
                total_vms += info.nodes.len();
                running_vms += running;
                let ghost before = sdi_pools@;
                sdi_pools.push(info);
                i += 1;
                proof {
                    assert(sdi_pools@.drop_last() =~= before);
                }
            }
            let out = InfraSnapshot { sdi_pools, total_vms, running_vms };
            proof {
                assert(shows_pools(out, sorted@));
            }
            out
        },
    }
}

/// No more machines run than there are.
proof fn lemma_running_bounded(pools: Seq<SdiPoolInfo>)
    ensures
        vm_running_total(pools) <= vm_total(pools),
    decreases pools.len(),
{
    if pools.len() > 0 {
        lemma_running_bounded(pools.drop_last());
        lemma_count_bounded(pools.last().nodes@);
    }
}

/// No more machines of a pool run than it has.
proof fn lemma_count_bounded(nodes: Seq<SdiVmInfo>)
    ensures
        count(nodes, vm_running()) <= nodes.len(),
    decreases nodes.len(),
{
    if nodes.len() > 0 {
        lemma_count_bounded(nodes.drop_last());
    }
}

/// Whether a snapshot is what is made of the pools whose state could be read.
pub open spec fn is_loaded(snap: InfraSnapshot, read: Option<Vec<SdiPoolState>>) -> bool {
    match read {
        Some(pools) => exists|sorted: Seq<SdiPoolState>| #[trigger]
            stably_sorted(pools@, sorted) && shows_pools(snap, sorted),
        None => snap.sdi_pools@.len() == 0 && snap.total_vms == 0 && snap.running_vms == 0,
    }
}

/// The counts of a snapshot are those of its pools: all machines, and those that
/// run, which are no more. The pools stand in the order of their names. Where
/// nothing could be read, or no pool was there, the snapshot is empty.
pub proof fn law_counts_are_those_of_the_pools(
    snap: InfraSnapshot,
    read: Option<Vec<SdiPoolState>>,
)
    requires
        is_loaded(snap, read),
    ensures
        snap.total_vms == vm_total(snap.sdi_pools@),
        snap.running_vms == vm_running_total(snap.sdi_pools@),
        snap.running_vms <= snap.total_vms,
        forall|i: int, j: int|
            0 <= i < j < snap.sdi_pools@.len() ==> !text_less(
                (#[trigger] snap.sdi_pools@[j]).pool_name@,
                (#[trigger] snap.sdi_pools@[i]).pool_name@,
            ),
        read is None || read->0@.len() == 0 ==> snap.sdi_pools@.len() == 0 && snap.total_vms == 0
            && snap.running_vms == 0,
{
    lemma_running_bounded(snap.sdi_pools@);
    if read is Some {
        let sorted = choose|sorted: Seq<SdiPoolState>| #[trigger]
            stably_sorted(read->0@, sorted) && shows_pools(snap, sorted);
        assert forall|i: int, j: int| 0 <= i < j < snap.sdi_pools@.len() implies !text_less(
            (#[trigger] snap.sdi_pools@[j]).pool_name@,
            (#[trigger] snap.sdi_pools@[i]).pool_name@,
        ) by {
            assert(shows_pool(snap.sdi_pools@[i], sorted[i]));
            assert(shows_pool(snap.sdi_pools@[j], sorted[j]));
            assert(!key_less(sorted[j].sort_key(), sorted[i].sort_key()));
        }
    }
}

/// The sum of the sizes of pools.
spec fn adding_size() -> spec_fn(nat, SdiPoolState) -> nat {
    |sum: nat, p: SdiPoolState| sum + p.nodes@.len()
}

proof fn lemma_machine_total_fold(s: Seq<SdiPoolState>)
    ensures
        machine_total(s) == s.fold_left(0nat, adding_size()),
    decreases s.len(),
{
    reveal(Seq::fold_left);
    if s.len() > 0 {
        lemma_machine_total_fold(s.drop_last());
    }
}

/// The order of pools does not matter for the number of machines.
proof fn lemma_machine_total_permutation(a: Seq<SdiPoolState>, b: Seq<SdiPoolState>)
    requires
        a.to_multiset() == b.to_multiset(),
    ensures
        machine_total(a) == machine_total(b),
{
    lemma_machine_total_fold(a);
    lemma_machine_total_fold(b);
    vstd::seq_lib::lemma_fold_left_permutation(a, b, adding_size(), 0nat);
}

proof fn lemma_machine_total_prefix(s: Seq<SdiPoolState>, n: int)
    requires
        0 <= n <= s.len(),
    ensures
        machine_total(s.take(n)) <= machine_total(s),
    decreases s.len() - n,
{
    if n < s.len() {
        lemma_machine_total_prefix(s, n + 1);
        assert(s.take(n + 1).drop_last() =~= s.take(n));
    }
}

/// Each machine of a pool with the pool's name.
pub open spec fn pool_members(pool: SdiPoolInfo) -> Seq<(Seq<char>, Seq<char>)> {
    pool.nodes@.map_values(|vm: SdiVmInfo| (vm.name@, pool.pool_name@))
}

/// Each machine with the name of its pool, pool by pool.
pub open spec fn vm_node_map(pools: Seq<SdiPoolInfo>) -> Seq<(Seq<char>, Seq<char>)>
    decreases pools.len(),
{
    if pools.len() == 0 {
        Seq::empty()
    } else {
        vm_node_map(pools.drop_last()) + pool_members(pools.last())
    }
}

/// The pairs as values.
pub open spec fn pair_views(s: Seq<(String, String)>) -> Seq<(Seq<char>, Seq<char>)> {
    s.map_values(|p: (String, String)| (p.0@, p.1@))
}

/// Lists each machine with the name of its pool.
pub fn build_vm_node_map(infra: &InfraSnapshot) -> (r: Vec<(String, String)>)
    ensures
        pair_views(r@) == vm_node_map(infra.sdi_pools@),
{
    let mut out: Vec<(String, String)> = Vec::new();
    let mut i: usize = 0;
    proof {
        assert(pair_views(out@) =~= vm_node_map(infra.sdi_pools@.take(0)));
    }
    while i < infra.sdi_pools.len()
        invariant
            i <= infra.sdi_pools@.len(),
            pair_views(out@) == vm_node_map(infra.sdi_pools@.take(i as int)),
        decreases infra.sdi_pools@.len() - i,
    {
        let pool = &infra.sdi_pools[i];
        let ghost before = pair_views(out@);
        let mut k: usize = 0;
        proof {
            assert(pair_views(out@) =~= before + pool_members(*pool).take(0));
        }
        while k < pool.nodes.len()
            invariant
                k <= pool.nodes@.len(),
                pair_views(out@) == before + pool_members(*pool).take(k as int),
            decreases pool.nodes@.len() - k,
        {
            let ghost so_far = out@;
            let pair = (pool.nodes[k].name.clone(), pool.pool_name.clone());
            out.push(pair);
            k += 1;
            proof {
                assert(pair_views(out@) =~= pair_views(so_far).push((pair.0@, pair.1@)));
                assert(before + pool_members(*pool).take(k as int) =~= (before + pool_members(
                    *pool,
                ).take(k - 1)).push((pair.0@, pair.1@)));
            }
        }
        i += 1;
        proof {
            assert(pool_members(*pool).take(pool.nodes@.len() as int) =~= pool_members(*pool));
            assert(infra.sdi_pools@.take(i as int).drop_last() =~= infra.sdi_pools@.take(i - 1));
        }
    }
    out
}

} // verus!
