//! Distributed volume placement: how many nodes a storage policy needs,
//! which nodes receive the components, and node-failure handling.
use vstd::prelude::*;
use crate::ids::{is_uuid_text, new_uuid_v4};
use crate::text::{str_eq, string_views};

verus! {

/// Replication / erasure-coding scheme of a volume.
#[derive(Debug, Clone, Copy, PartialEq, Eq, Structural)]
pub enum RaidType {
    /// FTT=1 -> RAID-1, FTT=2 -> RAID-1 with 3 copies
    Mirroring,
    /// RAID-5 (FTT=1, min 3 nodes)
    Erasure5,
    /// RAID-6 (FTT=2, min 4 nodes)
    Erasure6,
}

/// How a volume is protected and limited.
pub struct StoragePolicy {
    pub name: String,
    /// Failures to tolerate: 0, 1 or 2.
    pub failures_to_tolerate: u8,
    pub raid_type: RaidType,
    /// Stripe width for RAID-5/6.
    pub stripe_width: u8,
    pub iops_limit: Option<u64>,
    /// Bytes per second.
    pub throughput_limit: Option<u64>,
    pub encryption: bool,
    pub compression: bool,
    pub deduplication: bool,
}

impl Default for StoragePolicy {
    /// FTT=1 mirroring with compression.
    fn default() -> (r: Self)
        ensures
            r.name@ == "default"@,
            r.failures_to_tolerate == 1,
            r.raid_type == RaidType::Mirroring,
            r.stripe_width == 1,
            r.iops_limit is None,
            r.throughput_limit is None,
            !r.encryption,
            r.compression,
            !r.deduplication,
    {
        StoragePolicy {
            name: "default".to_owned(),
            failures_to_tolerate: 1,
            raid_type: RaidType::Mirroring,
            stripe_width: 1,
            iops_limit: None,
            throughput_limit: None,
            encryption: false,
            compression: true,
            deduplication: false,
        }
    }
}

/// A distributed volume.
pub struct VsanVolume {
    /// UUID.
    pub id: String,
    pub name: String,
    pub size_gib: u64,
    pub policy: StoragePolicy,
    pub components: Vec<VolumeComponent>,
    pub state: VolumeState,
}

/// One copy (or witness) of a volume on one node.
pub struct VolumeComponent {
    /// Node hostname.
    pub node: String,
    /// Disk path, e.g. /dev/nvme0n1.
    pub disk: String,
    pub offset_gib: u64,
    /// 0 = primary, 1,2 = replicas, 255 = witness.
    pub replica_id: u8,
}

/// Health of a volume.
#[derive(Debug, Clone, Copy, PartialEq, Eq, Structural)]
pub enum VolumeState {
    Healthy,
    Degraded,
    Offline,
    Resyncing,
}

/// A node contributing disks to the pool.
pub struct VsanNode {
    pub hostname: String,
    /// IP:port of the node's NVMe-oF target.
    pub nvmeof_addr: String,
    pub disks: Vec<DiskInfo>,
    pub capacity_gib: u64,
    pub used_gib: u64,
}

/// A local disk of a node.
pub struct DiskInfo {
    pub path: String,
    pub model: String,
    pub capacity_gib: u64,
    pub nvme_ns_id: Option<u32>,
}

/// Why a volume operation failed.
#[derive(Debug)]
pub enum VsanError {
    /// Only FTT 0, 1 and 2 are supported.
    UnsupportedFtt(u8),
    /// The cluster has fewer nodes than the policy needs.
    NotEnoughNodes { need: usize, have: usize, ftt: u8 },
    /// A node chosen for a component has no disk.
    NodeHasNoDisks,
    /// No volume has this ID.
    VolumeNotFound(String),
    /// The volume has no primary (replica 0) component.
    NoPrimaryComponent,
}

/// Nodes that a policy needs, or `None` for an unsupported FTT.
pub open spec fn spec_required_nodes(ftt: u8, raid: RaidType) -> Option<usize> {
    if ftt == 0 {
        Some(1)
    } else if ftt == 1 {
        if raid == RaidType::Erasure5 {
            Some(3)
        } else {
            Some(2)
        }
    } else if ftt == 2 {
        if raid == RaidType::Erasure6 {
            Some(4)
        } else {
            Some(3)
        }
    } else {
        None
    }
}

/// Tolerating `f` failures takes at least `f + 1` nodes, and erasure
/// coding one more: mirroring needs exactly `f + 1`, RAID-5 (with FTT 1)
/// and RAID-6 (with FTT 2) need `f + 2`; more than two failures are not
/// supported.
pub proof fn lemma_nodes_for_failures(ftt: u8, raid: RaidType)
    ensures
        spec_required_nodes(ftt, raid) is None <==> ftt > 2,
        spec_required_nodes(ftt, raid) matches Some(n) ==> n >= ftt + 1,
        raid == RaidType::Mirroring && ftt <= 2 ==> spec_required_nodes(ftt, raid) == Some(
            (ftt + 1) as usize,
        ),
        raid == RaidType::Erasure5 && ftt == 1 ==> spec_required_nodes(ftt, raid) == Some(3usize),
        raid == RaidType::Erasure6 && ftt == 2 ==> spec_required_nodes(ftt, raid) == Some(4usize),
{
}

/// How many nodes a policy needs: FTT 0 -> 1; FTT 1 -> 2 (3 for RAID-5);
/// FTT 2 -> 3 (4 for RAID-6).
pub fn required_nodes(policy: &StoragePolicy) -> (r: Result<usize, VsanError>)
    ensures
        match spec_required_nodes(policy.failures_to_tolerate, policy.raid_type) {
            Some(n) => r matches Ok(m) && m == n,
            None => r matches Err(VsanError::UnsupportedFtt(f)) && f
                == policy.failures_to_tolerate,
        },
{
    match policy.failures_to_tolerate {
        0 => Ok(1),
        1 => if policy.raid_type == RaidType::Erasure5 {
            Ok(3)
        } else {
            Ok(2)
        },
        2 => if policy.raid_type == RaidType::Erasure6 {
            Ok(4)
        } else {
            Ok(3)
        },
        n => Err(VsanError::UnsupportedFtt(n)),
    }
}

/// Free space of a node.
pub open spec fn free_gib(n: VsanNode) -> int {
    n.capacity_gib - n.used_gib
}

/// Node `i` is placed before node `j`: more free space first; between
/// nodes with equal free space, the later one in the list first.
pub open spec fn ranks_before(nodes: Seq<VsanNode>, i: int, j: int) -> bool {
    free_gib(nodes[i]) > free_gib(nodes[j]) || (free_gib(nodes[i]) == free_gib(nodes[j]) && i
        > j)
}

/// Node `i` is the best of the nodes not in `chosen`.
pub open spec fn is_best_unchosen(nodes: Seq<VsanNode>, chosen: Seq<int>, i: int) -> bool {
    &&& 0 <= i < nodes.len()
    &&& !chosen.contains(i)
    &&& forall|j: int|
        0 <= j < nodes.len() && !chosen.contains(j) && j != i ==> ranks_before(nodes, i, j)
}

/// The first `k` nodes in placement order: each the best of the rest.
pub open spec fn spec_ranking(nodes: Seq<VsanNode>, k: nat) -> Seq<int>
    decreases k,
{
    if k == 0 {
        Seq::empty()
    } else {
        let prev = spec_ranking(nodes, (k - 1) as nat);
        prev.push(choose|i: int| is_best_unchosen(nodes, prev, i))
    }
}

/// The component that node `n` holds as replica `k`.
pub open spec fn spec_component(n: VsanNode, k: int) -> (Seq<char>, Seq<char>, u64, u8) {
    (n.hostname@, n.disks@[0].path@, n.used_gib, k as u8)
}

/// A component as (node, disk, offset, replica).
pub open spec fn component_view(c: VolumeComponent) -> (Seq<char>, Seq<char>, u64, u8) {
    (c.node@, c.disk@, c.offset_gib, c.replica_id)
}

proof fn lemma_best_unique(nodes: Seq<VsanNode>, chosen: Seq<int>, i: int, j: int)
    requires
        is_best_unchosen(nodes, chosen, i),
        is_best_unchosen(nodes, chosen, j),
    ensures
        i == j,
{
    if i != j {
        assert(ranks_before(nodes, i, j));
        assert(ranks_before(nodes, j, i));
    }
}

/// Indices as integers.
pub open spec fn as_ints(s: Seq<usize>) -> Seq<int> {
    s.map_values(|x: usize| x as int)
}

/// The best node not yet chosen.
fn best_unchosen(nodes: &[VsanNode], chosen: &Vec<usize>) -> (r: usize)
    requires
        chosen@.len() < nodes@.len(),
        chosen@.no_duplicates(),
        forall|k: int| 0 <= k < chosen@.len() ==> #[trigger] chosen@[k] < nodes@.len(),
        forall|k: int| 0 <= k < nodes@.len() ==> nodes@[k].used_gib <= nodes@[k].capacity_gib,
    ensures
        is_best_unchosen(nodes@, as_ints(chosen@), r as int),
{
    let ghost ch = as_ints(chosen@);
    let n = nodes.len();
    let mut best: Option<usize> = None;
    let mut i: usize = 0;
    while i < n
        invariant
            i <= n,
            n == nodes@.len(),
            ch == as_ints(chosen@),
            forall|k: int| 0 <= k < nodes@.len() ==> nodes@[k].used_gib <= nodes@[k].capacity_gib,
            match best {
                None => forall|j: int| 0 <= j < i ==> ch.contains(j),
                Some(b) => b < i && !ch.contains(b as int) && forall|j: int|
                    0 <= j < i && !ch.contains(j) && j != b ==> ranks_before(nodes@, b as int, j),
            },
        decreases n - i,
    {
        let mut taken = false;
        let mut k: usize = 0;
        while k < chosen.len()
            invariant
                k <= chosen@.len(),
                ch == as_ints(chosen@),
                taken == exists|m: int| 0 <= m < k && chosen@[m] == i,
            decreases chosen@.len() - k,
        {
            if chosen[k] == i {
                taken = true;
            }
            k = k + 1;
        }
        proof {
            if taken {
                let m = choose|m: int| 0 <= m < chosen@.len() && chosen@[m] == i;
                assert(ch[m] == i as int);
            } else {
                assert forall|m: int| 0 <= m < ch.len() implies ch[m] != i as int by {
                    assert(ch[m] == chosen@[m] as int);
                }
            }
        }
        if !taken {
            match best {
                None => {
                    best = Some(i);
                },
                Some(b) => {
                    let fi = nodes[i].capacity_gib - nodes[i].used_gib;
                    let fb = nodes[b].capacity_gib - nodes[b].used_gib;
                    if fi >= fb {
                        best = Some(i);
                        proof {
                            assert forall|j: int|
                                0 <= j < i + 1 && !ch.contains(j) && j != i implies ranks_before(
                                nodes@,
                                i as int,
                                j,
                            ) by {
                                if j != b {
                                    assert(ranks_before(nodes@, b as int, j));
                                }
                            }
                        }
                    }
                },
            }
        }
        i = i + 1;
    }
    proof {
        if best is None {
            assert(forall|j: int| 0 <= j < n ==> ch.contains(j));
            let s = vstd::set_lib::set_int_range(0, n as int);
            assert(s.subset_of(ch.to_set())) by {
                assert forall|j: int| s.contains(j) implies ch.to_set().contains(j) by {
                    assert(ch.contains(j));
                }
            }
            vstd::set_lib::lemma_int_range(0, n as int);
            ch.lemma_cardinality_of_set();
            vstd::seq_lib::seq_to_set_is_finite(ch);
            vstd::set_lib::lemma_len_subset(s, ch.to_set());
            assert(ch.len() == chosen@.len());
        }
    }
    match best {
        Some(b) => {
            assert(i == n);
            assert(is_best_unchosen(nodes@, ch, b as int));
            b
        },
        None => 0,
    }
}

} // verus!

verus! {

proof fn lemma_ranking_step(nodes: Seq<VsanNode>, k: nat, idx: int)
    requires
        is_best_unchosen(nodes, spec_ranking(nodes, k), idx),
    ensures
        spec_ranking(nodes, k + 1) == spec_ranking(nodes, k).push(idx),
{
    let prev = spec_ranking(nodes, k);
    let c = choose|i: int| is_best_unchosen(nodes, prev, i);
    assert(is_best_unchosen(nodes, prev, c));
    lemma_best_unique(nodes, prev, c, idx);
}

/// Places one component on each of the first `required` nodes in
/// placement order (most free space first); replica IDs count from 0.
/// Fails if one of those nodes has no disk.
pub fn place_components(nodes: &[VsanNode], required: usize) -> (r: Result<
    Vec<VolumeComponent>,
    VsanError,
>)
    requires
        required <= nodes@.len(),
        forall|k: int| 0 <= k < nodes@.len() ==> nodes@[k].used_gib <= nodes@[k].capacity_gib,
    ensures
        ({
            let rank = spec_ranking(nodes@, required as nat);
            let missing = exists|k: int|
                0 <= k < required && (#[trigger] nodes@[rank[k]]).disks@.len() == 0;
            &&& missing <==> r is Err
            &&& r is Err ==> r->Err_0 is NodeHasNoDisks
            &&& r is Ok ==> r->Ok_0@.len() == required && forall|k: int|
                0 <= k < required ==> component_view(#[trigger] r->Ok_0@[k]) == spec_component(
                    nodes@[rank[k]],
                    k,
                )
        }),
{
    let mut chosen: Vec<usize> = Vec::new();
    let mut comps: Vec<VolumeComponent> = Vec::new();
    let mut k: usize = 0;
    while k < required
        invariant
            k <= required,
            required <= nodes@.len(),
            forall|m: int| 0 <= m < nodes@.len() ==> nodes@[m].used_gib <= nodes@[m].capacity_gib,
            as_ints(chosen@) == spec_ranking(nodes@, k as nat),
            chosen@.len() == k,
            chosen@.no_duplicates(),
            forall|m: int| 0 <= m < chosen@.len() ==> #[trigger] chosen@[m] < nodes@.len(),
            comps@.len() == k,
            forall|m: int|
                0 <= m < k ==> (#[trigger] nodes@[spec_ranking(nodes@, k as nat)[m]]).disks@.len()
                    > 0,
            forall|m: int|
                0 <= m < k ==> component_view(#[trigger] comps@[m]) == spec_component(
                    nodes@[spec_ranking(nodes@, k as nat)[m]],
                    m,
                ),
        decreases required - k,
    {
        let idx = best_unchosen(nodes, &chosen);
        proof {
            lemma_ranking_step(nodes@, k as nat, idx as int);
        }
        let ghost before = chosen@;
        chosen.push(idx);
        proof {
            assert(as_ints(chosen@) =~= as_ints(before).push(idx as int));
            assert forall|a: int, b: int|
                0 <= a < chosen@.len() && 0 <= b < chosen@.len() && a != b implies chosen@[a]
                != chosen@[b] by {
                if a == k as int {
                    assert(as_ints(before)[b] == before[b] as int);
                } else if b == k as int {
                    assert(as_ints(before)[a] == before[a] as int);
                }
            }
        }
        let node = &nodes[idx];
        if node.disks.len() == 0 {
            proof {
                let rank = spec_ranking(nodes@, required as nat);
                lemma_ranking_prefix(nodes@, (k + 1) as nat, required as nat);
                assert(rank[k as int] == idx as int);
                assert(nodes@[rank[k as int]].disks@.len() == 0);
            }
            return Err(VsanError::NodeHasNoDisks);
        }
        let c = VolumeComponent {
            node: node.hostname.clone(),
            disk: node.disks[0].path.clone(),
            offset_gib: node.used_gib,
            replica_id: k as u8,
        };
        comps.push(c);
        proof {
            let rk = spec_ranking(nodes@, (k + 1) as nat);
            assert forall|m: int| 0 <= m < k + 1 implies component_view(#[trigger] comps@[m])
                == spec_component(nodes@[rk[m]], m) by {
                if m < k {
                    assert(rk[m] == spec_ranking(nodes@, k as nat)[m]);
                }
            }
            assert forall|m: int| 0 <= m < k + 1 implies (#[trigger] nodes@[rk[m]]).disks@.len()
                > 0 by {
                if m < k {
                    assert(rk[m] == spec_ranking(nodes@, k as nat)[m]);
                }
            }
        }
        k = k + 1;
    }
    Ok(comps)
}

/// A ranking of `m` nodes has `m` entries.
pub proof fn lemma_ranking_len(nodes: Seq<VsanNode>, m: nat)
    ensures
        spec_ranking(nodes, m).len() == m,
    decreases m,
{
    if m > 0 {
        lemma_ranking_len(nodes, (m - 1) as nat);
    }
}

/// A shorter ranking is a prefix of a longer one.
pub proof fn lemma_ranking_prefix(nodes: Seq<VsanNode>, k: nat, m: nat)
    requires
        k <= m,
    ensures
        spec_ranking(nodes, m).len() == m,
        spec_ranking(nodes, k).len() == k,
        forall|i: int| 0 <= i < k ==> spec_ranking(nodes, m)[i] == spec_ranking(nodes, k)[i],
    decreases m,
{
    lemma_ranking_len(nodes, m);
    lemma_ranking_len(nodes, k);
    if k < m {
        lemma_ranking_prefix(nodes, k, (m - 1) as nat);
        lemma_ranking_len(nodes, (m - 1) as nat);
    }
}

/// Whether a policy's volumes carry a witness besides their data: mirrored
/// copies with one or two failures tolerated.
pub open spec fn spec_has_witness(ftt: u8, raid: RaidType) -> bool {
    raid == RaidType::Mirroring && (ftt == 1 || ftt == 2)
}

/// Whether volumes under `policy` carry a witness component.
pub fn has_witness(policy: &StoragePolicy) -> (r: bool)
    ensures
        r == spec_has_witness(policy.failures_to_tolerate, policy.raid_type),
{
    policy.raid_type == RaidType::Mirroring && (policy.failures_to_tolerate == 1
        || policy.failures_to_tolerate == 2)
}

/// The replica ID of a witness component.
pub const WITNESS_REPLICA: u8 = 255;

/// The node that holds the witness of a volume whose data sits on the
/// first `data` nodes in placement order: the next node in that order when
/// the pool has one with a disk, else the primary's node.
pub open spec fn spec_witness_node(nodes: Seq<VsanNode>, data: nat) -> int {
    let next = spec_ranking(nodes, data + 1);
    if nodes.len() > data && nodes[next[data as int]].disks@.len() > 0 {
        next[data as int]
    } else {
        spec_ranking(nodes, data)[0]
    }
}

/// The first `k` nodes in placement order, as indices.
fn ranking(nodes: &[VsanNode], k: usize) -> (r: Vec<usize>)
    requires
        k <= nodes@.len(),
        forall|m: int| 0 <= m < nodes@.len() ==> nodes@[m].used_gib <= nodes@[m].capacity_gib,
    ensures
        as_ints(r@) == spec_ranking(nodes@, k as nat),
        r@.len() == k,
        forall|m: int| 0 <= m < k ==> #[trigger] r@[m] < nodes@.len(),
{
    let mut chosen: Vec<usize> = Vec::new();
    let mut i: usize = 0;
    while i < k
        invariant
            i <= k,
            k <= nodes@.len(),
            forall|m: int| 0 <= m < nodes@.len() ==> nodes@[m].used_gib <= nodes@[m].capacity_gib,
            as_ints(chosen@) == spec_ranking(nodes@, i as nat),
            chosen@.len() == i,
            chosen@.no_duplicates(),
            forall|m: int| 0 <= m < chosen@.len() ==> #[trigger] chosen@[m] < nodes@.len(),
        decreases k - i,
    {
        let idx = best_unchosen(nodes, &chosen);
        proof {
            lemma_ranking_step(nodes@, i as nat, idx as int);
        }
        let ghost before = chosen@;
        chosen.push(idx);
        proof {
            assert(as_ints(chosen@) =~= as_ints(before).push(idx as int));
            assert forall|a: int, b: int|
                0 <= a < chosen@.len() && 0 <= b < chosen@.len() && a != b implies chosen@[a]
                != chosen@[b] by {
                if a == i as int {
                    assert(as_ints(before)[b] == before[b] as int);
                } else if b == i as int {
                    assert(as_ints(before)[a] == before[a] as int);
                }
            }
        }
        i = i + 1;
    }
    chosen
}

/// The witness component of a volume whose data sits on the first `data`
/// nodes in placement order (see `spec_witness_node`), on that node's
/// first disk at its used space, with replica ID 255.
pub fn place_witness(nodes: &[VsanNode], data: usize) -> (r: VolumeComponent)
    requires
        1 <= data <= nodes@.len(),
        forall|k: int| 0 <= k < nodes@.len() ==> nodes@[k].used_gib <= nodes@[k].capacity_gib,
        nodes@[spec_ranking(nodes@, data as nat)[0]].disks@.len() > 0,
    ensures
        component_view(r) == spec_component(
            nodes@[spec_witness_node(nodes@, data as nat)],
            WITNESS_REPLICA as int,
        ),
{
    proof {
        lemma_ranking_len(nodes@, data as nat);
    }
    let idx: usize = if nodes.len() > data {
        let rk = ranking(nodes, data + 1);
        proof {
            lemma_ranking_prefix(nodes@, data as nat, (data + 1) as nat);
            assert(as_ints(rk@)[data as int] == rk@[data as int] as int);
            assert(as_ints(rk@)[0] == rk@[0] as int);
        }
        let c = rk[data];
        if nodes[c].disks.len() > 0 {
            c
        } else {
            rk[0]
        }
    } else {
        let rk = ranking(nodes, data);
        proof {
            assert(as_ints(rk@)[0] == rk@[0] as int);
        }
        rk[0]
    };
    assert(idx as int == spec_witness_node(nodes@, data as nat));
    let node = &nodes[idx];
    VolumeComponent {
        node: node.hostname.clone(),
        disk: node.disks[0].path.clone(),
        offset_gib: node.used_gib,
        replica_id: WITNESS_REPLICA,
    }
}

} // verus!

verus! {

/// No two volumes share an ID.
pub open spec fn distinct_ids(vols: Seq<VsanVolume>) -> bool {
    forall|a: int, b: int|
        0 <= a < vols.len() && 0 <= b < vols.len() && a != b ==> (#[trigger] vols[a]).id@ != (
        #[trigger] vols[b]).id@
}

/// The volumes without the one whose ID is `id` (the first, if any).
pub open spec fn without_id(vols: Seq<VsanVolume>, id: Seq<char>) -> Seq<VsanVolume> {
    let k = first_volume(vols, id);
    if k < vols.len() {
        vols.remove(k)
    } else {
        vols
    }
}

/// The pool: volumes and the nodes that hold them.
pub struct VsanCluster {
    volumes: Vec<VsanVolume>,
    nodes: Vec<VsanNode>,
}

/// Whether a volume has a component on the node named `host`.
pub open spec fn on_node(v: VsanVolume, host: Seq<char>) -> bool {
    exists|k: int| 0 <= k < v.components@.len() && (#[trigger] v.components@[k]).node@ == host
}


/// The IDs of a sequence of volumes, in order.
pub open spec fn volume_ids(s: Seq<VsanVolume>) -> Seq<Seq<char>> {
    s.map_values(|v: VsanVolume| v.id@)
}

/// Index of the first volume with ID `id`, or the count.
pub open spec fn first_volume(vols: Seq<VsanVolume>, id: Seq<char>) -> int
    decreases vols.len(),
{
    if vols.len() == 0 {
        0
    } else if vols[0].id@ == id {
        0
    } else {
        1 + first_volume(vols.drop_first(), id)
    }
}

/// Index of the first primary (replica 0) component, or the count.
pub open spec fn first_primary(cs: Seq<VolumeComponent>) -> int
    decreases cs.len(),
{
    if cs.len() == 0 {
        0
    } else if cs[0].replica_id == 0 {
        0
    } else {
        1 + first_primary(cs.drop_first())
    }
}

/// The host a VM attaches volume `id` at: the node of the first primary
/// component of the first volume with that ID; none when there is no such
/// volume or it has no primary.
pub open spec fn primary_host(vols: Seq<VsanVolume>, id: Seq<char>) -> Option<Seq<char>> {
    let i = first_volume(vols, id);
    if i < vols.len() {
        let cs = vols[i].components@;
        let k = first_primary(cs);
        if k < cs.len() {
            Some(cs[k].node@)
        } else {
            None
        }
    } else {
        None
    }
}

proof fn lemma_first_volume(vols: Seq<VsanVolume>, id: Seq<char>, i: int)
    requires
        0 <= i <= vols.len(),
        forall|j: int| 0 <= j < i ==> (#[trigger] vols[j]).id@ != id,
        i == vols.len() || vols[i].id@ == id,
    ensures
        first_volume(vols, id) == i,
    decreases vols.len(),
{
    if vols.len() > 0 && vols[0].id@ != id {
        assert forall|j: int| 0 <= j < i - 1 implies (#[trigger] vols.drop_first()[j]).id@ != id by {
            assert(vols.drop_first()[j] == vols[j + 1]);
        }
        lemma_first_volume(vols.drop_first(), id, i - 1);
    }
}

proof fn lemma_first_primary(cs: Seq<VolumeComponent>, k: int)
    requires
        0 <= k <= cs.len(),
        forall|j: int| 0 <= j < k ==> (#[trigger] cs[j]).replica_id != 0,
        k == cs.len() || cs[k].replica_id == 0,
    ensures
        first_primary(cs) == k,
    decreases cs.len(),
{
    if cs.len() > 0 && cs[0].replica_id != 0 {
        assert forall|j: int| 0 <= j < k - 1 implies (#[trigger] cs.drop_first()[j]).replica_id != 0 by {
            assert(cs.drop_first()[j] == cs[j + 1]);
        }
        lemma_first_primary(cs.drop_first(), k - 1);
    }
}

/// The predicate "has a component on `host`".
pub open spec fn on_node_pred(host: Seq<char>) -> spec_fn(VsanVolume) -> bool {
    |v: VsanVolume| on_node(v, host)
}

impl VsanCluster {
    pub closed spec fn spec_volumes(&self) -> Seq<VsanVolume> {
        self.volumes@
    }

    pub closed spec fn spec_nodes(&self) -> Seq<VsanNode> {
        self.nodes@
    }

    /// Every node's used space is within its capacity, and no two volumes
    /// share an ID.
    pub open spec fn wf(&self) -> bool {
        &&& forall|k: int|
            0 <= k < self.spec_nodes().len() ==> (#[trigger] self.spec_nodes()[k]).used_gib
                <= self.spec_nodes()[k].capacity_gib
        &&& distinct_ids(self.spec_volumes())
    }

    /// An empty pool.
    pub fn new() -> (r: Self)
        ensures
            r.wf(),
            r.spec_volumes().len() == 0,
            r.spec_nodes().len() == 0,
    {
        VsanCluster { volumes: Vec::new(), nodes: Vec::new() }
    }

    /// Adds a node to the pool.
    pub fn add_node(&mut self, node: VsanNode)
        requires
            old(self).wf(),
            node.used_gib <= node.capacity_gib,
        ensures
            final(self).wf(),
            final(self).spec_nodes() == old(self).spec_nodes().push(node),
            final(self).spec_volumes() == old(self).spec_volumes(),
    {
        self.nodes.push(node);
        assert forall|k: int| 0 <= k < self.spec_nodes().len() implies (#[trigger] self.spec_nodes()[k]).used_gib
            <= self.spec_nodes()[k].capacity_gib by {
            if k < old(self).spec_nodes().len() {
                assert(self.spec_nodes()[k] == old(self).spec_nodes()[k]);
            }
        }
    }

    /// The volume at index `i`.
    pub fn volume(&self, i: usize) -> (r: &VsanVolume)
        requires
            i < self.spec_volumes().len(),
        ensures
            *r == self.spec_volumes()[i as int],
    {
        &self.volumes[i]
    }

    /// Creates a volume under `policy`: checks the policy's FTT and that
    /// the pool has the nodes it needs, then places one component per
    /// needed node (most free space first), followed, for mirrored copies
    /// with FTT 1 or 2, by a witness (see `place_witness`). The volume gets
    /// a fresh UUID, starts healthy, and is added last, at the returned
    /// index, in place of any volume that had the same ID.
    pub fn create_volume(&mut self, name: &str, size_gib: u64, policy: StoragePolicy) -> (r: Result<
        usize,
        VsanError,
    >)
        requires
            old(self).wf(),
        ensures
            final(self).wf(),
            final(self).spec_nodes() == old(self).spec_nodes(),
            ({
                let need = spec_required_nodes(policy.failures_to_tolerate, policy.raid_type);
                let have = old(self).spec_nodes().len();
                if need is None {
                    r matches Err(VsanError::UnsupportedFtt(f)) && f == policy.failures_to_tolerate
                        && final(self).spec_volumes() == old(self).spec_volumes()
                } else if have < need->0 {
                    (r matches Err(VsanError::NotEnoughNodes { need: n, have: h, ftt: f }) && n
                        == need->0 && h == have && f == policy.failures_to_tolerate)
                        && final(self).spec_volumes() == old(self).spec_volumes()
                } else {
                    let rank = spec_ranking(old(self).spec_nodes(), need->0 as nat);
                    let missing = exists|k: int|
                        0 <= k < need->0 && (#[trigger] old(self).spec_nodes()[rank[k]]).disks@.len()
                            == 0;
                    if missing {
                        (r matches Err(VsanError::NodeHasNoDisks)) && final(self).spec_volumes()
                            == old(self).spec_volumes()
                    } else {
                        r matches Ok(i) && final(self).spec_volumes().len() == i + 1 && ({
                            let v = final(self).spec_volumes()[i as int];
                            &&& final(self).spec_volumes().subrange(0, i as int) == without_id(
                                old(self).spec_volumes(),
                                v.id@,
                            )
                            &&& is_uuid_text(v.id@)
                            &&& v.name@ == name@
                            &&& v.size_gib == size_gib
                            &&& v.policy == policy
                            &&& v.state == VolumeState::Healthy
                            &&& v.components@.len() == need->0 + (if spec_has_witness(
                                policy.failures_to_tolerate,
                                policy.raid_type,
                            ) {
                                1int
                            } else {
                                0int
                            })
                            &&& forall|k: int|
                                0 <= k < need->0 ==> component_view(#[trigger] v.components@[k])
                                    == spec_component(old(self).spec_nodes()[rank[k]], k)
                            &&& spec_has_witness(policy.failures_to_tolerate, policy.raid_type)
                                ==> component_view(v.components@[need->0 as int]) == spec_component(
                                old(self).spec_nodes()[spec_witness_node(
                                    old(self).spec_nodes(),
                                    need->0 as nat,
                                )],
                                WITNESS_REPLICA as int,
                            )
                            &&& primary_host(final(self).spec_volumes(), v.id@) == Some(
                                old(self).spec_nodes()[rank[0]].hostname@,
                            )
                        })
                    }
                }
            }),
    {
        let required = match required_nodes(&policy) {
            Ok(n) => n,
            Err(e) => {
                return Err(e);
            },
        };
        if self.nodes.len() < required {
            return Err(
                VsanError::NotEnoughNodes {
                    need: required,
                    have: self.nodes.len(),
                    ftt: policy.failures_to_tolerate,
                },
            );
        }
        let mut components = match place_components(self.nodes.as_slice(), required) {
            Ok(c) => c,
            Err(e) => {
                return Err(e);
            },
        };
        let ghost data = components@;
        if has_witness(&policy) {
            proof {
                let rank = spec_ranking(self.nodes@, required as nat);
                assert(self.nodes@[rank[0]].disks@.len() > 0);
            }
            let w = place_witness(self.nodes.as_slice(), required);
            components.push(w);
            assert forall|k: int| 0 <= k < required implies components@[k] == data[k] by {}
        }
        let id = new_uuid_v4();
        let n = self.volumes.len();
        let mut k: usize = 0;
        while k < n && !str_eq(self.volumes[k].id.as_str(), id.as_str())
            invariant
                k <= n,
                n == self.volumes@.len(),
                forall|j: int| 0 <= j < k ==> (#[trigger] self.volumes@[j]).id@ != id@,
            decreases n - k,
        {
            k = k + 1;
        }
        proof {
            lemma_first_volume(self.volumes@, id@, k as int);
        }
        let ghost before = self.volumes@;
        if k < n {
            self.volumes.remove(k);
        }
        let ghost base = self.volumes@;
        proof {
            assert(base == without_id(before, id@));
            assert forall|j: int| 0 <= j < base.len() implies (#[trigger] base[j]).id@ != id@ by {
                if k < n {
                    let oj = if j < k { j } else { j + 1 };
                    assert(base[j] == before[oj]);
                    assert(before[oj].id@ != before[k as int].id@);
                } else {
                    assert(base[j] == before[j]);
                }
            }
            assert(distinct_ids(base)) by {
                assert forall|a: int, b: int|
                    0 <= a < base.len() && 0 <= b < base.len() && a != b implies (
                    #[trigger] base[a]).id@ != (#[trigger] base[b]).id@ by {
                    if k < n {
                        let oa = if a < k { a } else { a + 1 };
                        let ob = if b < k { b } else { b + 1 };
                        assert(base[a] == before[oa]);
                        assert(base[b] == before[ob]);
                    } else {
                        assert(base[a] == before[a]);
                        assert(base[b] == before[b]);
                    }
                }
            }
        }
        let vol = VsanVolume {
            id,
            name: name.to_owned(),
            size_gib,
            policy,
            components,
            state: VolumeState::Healthy,
        };
        self.volumes.push(vol);
        let i = self.volumes.len() - 1;
        proof {
            let vols = self.spec_volumes();
            assert(vols.subrange(0, i as int) =~= base);
            let v = vols[i as int];
            let rank = spec_ranking(old(self).spec_nodes(), required as nat);
            assert(component_view(v.components@[0]) == spec_component(old(self).spec_nodes()[rank[0]], 0));
            assert forall|j: int| 0 <= j < i implies (#[trigger] vols[j]).id@ != v.id@ by {
                assert(vols[j] == base[j]);
            }
            lemma_first_volume(vols, v.id@, i as int);
            lemma_first_primary(v.components@, 0);
            assert(distinct_ids(vols)) by {
                assert forall|a: int, b: int|
                    0 <= a < vols.len() && 0 <= b < vols.len() && a != b implies (
                    #[trigger] vols[a]).id@ != (#[trigger] vols[b]).id@ by {
                    if a < i {
                        assert(vols[a] == base[a]);
                    }
                    if b < i {
                        assert(vols[b] == base[b]);
                    }
                }
            }
        }
        Ok(i)
    }

    /// The host of the primary (replica 0) component of volume `vol_id`,
    /// which a VM attaches to over NVMe-oF.
    pub fn attach_volume(&self, vol_id: &str) -> (r: Result<String, VsanError>)
        ensures
            first_volume(self.spec_volumes(), vol_id@) >= self.spec_volumes().len() ==> (r matches Err(
                VsanError::VolumeNotFound(id),
            ) && id@ == vol_id@),
            first_volume(self.spec_volumes(), vol_id@) < self.spec_volumes().len() && primary_host(
                self.spec_volumes(),
                vol_id@,
            ) is None ==> r matches Err(VsanError::NoPrimaryComponent),
            primary_host(self.spec_volumes(), vol_id@) matches Some(h) ==> (r matches Ok(host)
                && host@ == h),
    {
        let n = self.volumes.len();
        let mut i: usize = 0;
        while i < n
            invariant
                i <= n,
                n == self.spec_volumes().len(),
                forall|j: int| 0 <= j < i ==> (#[trigger] self.spec_volumes()[j]).id@ != vol_id@,
            decreases n - i,
        {
            if str_eq(self.volumes[i].id.as_str(), vol_id) {
                proof {
                    lemma_first_volume(self.spec_volumes(), vol_id@, i as int);
                }
                let comps = &self.volumes[i].components;
                let m = comps.len();
                let mut k: usize = 0;
                while k < m
                    invariant
                        k <= m,
                        i < n,
                        n == self.spec_volumes().len(),
                        *comps == self.spec_volumes()[i as int].components,
                        self.spec_volumes()[i as int].id@ == vol_id@,
                        first_volume(self.spec_volumes(), vol_id@) == i,
                        m == comps@.len(),
                        forall|j: int| 0 <= j < k ==> (#[trigger] comps@[j]).replica_id != 0,
                    decreases m - k,
                {
                    if comps[k].replica_id == 0 {
                        proof {
                            lemma_first_primary(comps@, k as int);
                        }
                        return Ok(comps[k].node.clone());
                    }
                    k = k + 1;
                }
                proof {
                    lemma_first_primary(comps@, m as int);
                }
                return Err(VsanError::NoPrimaryComponent);
            }
            i = i + 1;
        }
        proof {
            lemma_first_volume(self.spec_volumes(), vol_id@, n as int);
        }
        Err(VsanError::VolumeNotFound(vol_id.to_owned()))
    }

    /// Handles the failure of node `failed`: every volume with a component
    /// on it becomes degraded; the IDs of those volumes (to resync) are
    /// returned in order. Other volumes and all other fields are unchanged.
    pub fn handle_node_failure(&mut self, failed: &str) -> (r: Vec<String>)
        requires
            old(self).wf(),
        ensures
            final(self).wf(),
            final(self).spec_nodes() == old(self).spec_nodes(),
            final(self).spec_volumes().len() == old(self).spec_volumes().len(),
            forall|i: int|
                0 <= i < old(self).spec_volumes().len() ==> {
                    let o = #[trigger] old(self).spec_volumes()[i];
                    let v = final(self).spec_volumes()[i];
                    &&& v.id == o.id
                    &&& v.name == o.name
                    &&& v.size_gib == o.size_gib
                    &&& v.policy == o.policy
                    &&& v.components == o.components
                    &&& v.state == (if on_node(o, failed@) {
                        VolumeState::Degraded
                    } else {
                        o.state
                    })
                },
            string_views(r@) == volume_ids(
                old(self).spec_volumes().filter(on_node_pred(failed@)),
            ),
    {
        let ghost old_vols = self.volumes@;
        let ghost pred = on_node_pred(failed@);
        let mut affected: Vec<String> = Vec::new();
        let n = self.volumes.len();
        let mut i: usize = 0;
        while i < n
            invariant
                i <= n,
                n == old_vols.len(),
                self.volumes@.len() == n,
                self.nodes@ == old(self).spec_nodes(),
                old_vols == old(self).spec_volumes(),
                forall|j: int|
                    i <= j < n ==> #[trigger] self.volumes@[j] == old_vols[j],
                forall|j: int|
                    0 <= j < i ==> {
                        let o = #[trigger] old_vols[j];
                        let v = self.volumes@[j];
                        &&& v.id == o.id
                        &&& v.name == o.name
                        &&& v.size_gib == o.size_gib
                        &&& v.policy == o.policy
                        &&& v.components == o.components
                        &&& v.state == (if on_node(o, failed@) {
                            VolumeState::Degraded
                        } else {
                            o.state
                        })
                    },
                pred == on_node_pred(failed@),
                string_views(affected@) == volume_ids(old_vols.take(i as int).filter(pred)),
            decreases n - i,
        {
            let mut hit = false;
            let m = self.volumes[i].components.len();
            let mut k: usize = 0;
            while k < m
                invariant
                    k <= m,
                    i < n,
                    self.volumes@.len() == n,
                    m == self.volumes@[i as int].components@.len(),
                    hit == exists|j: int|
                        0 <= j < k && (#[trigger] self.volumes@[i as int].components@[j]).node@
                            == failed@,
                decreases m - k,
            {
                if str_eq(self.volumes[i].components[k].node.as_str(), failed) {
                    hit = true;
                }
                k = k + 1;
            }
            let ghost o = old_vols[i as int];
            assert(self.volumes@[i as int] == o);
            assert(hit == on_node(o, failed@));
            let ghost prev = old_vols.take(i as int).filter(pred);
            proof {
                old_vols.take(i as int).lemma_filter_push(o, pred);
                assert(old_vols.take(i as int).push(o) =~= old_vols.take(i + 1));
                assert(pred(o) == hit);
            }
            if hit {
                let mut v = self.volumes.remove(i);
                v.state = VolumeState::Degraded;
                let id = v.id.clone();
                self.volumes.insert(i, v);
                let ghost before = affected@;
                affected.push(id);
                proof {
                    assert(old_vols.take(i + 1).filter(pred) == prev.push(o));
                    assert(string_views(affected@) =~= string_views(before).push(o.id@));
                    assert(volume_ids(prev.push(o)) =~= volume_ids(prev).push(o.id@));
                }
            } else {
                assert(old_vols.take(i + 1).filter(pred) == prev);
            }
            i = i + 1;
        }
        assert(old_vols.take(n as int) =~= old_vols);
        assert(distinct_ids(self.spec_volumes())) by {
            assert forall|a: int, b: int|
                0 <= a < n && 0 <= b < n && a != b implies (#[trigger] self.volumes@[a]).id@ != (
                #[trigger] self.volumes@[b]).id@ by {
                assert(self.volumes@[a].id == old_vols[a].id);
                assert(self.volumes@[b].id == old_vols[b].id);
            }
        }
        affected
    }
}

} // verus!
