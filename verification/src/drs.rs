//! Distributed resource scheduling: the integer side of a migration plan.
//! Candidate scores are floating-point and ranked by the caller; this
//! module decides whether a VM's memory fits on a node, keeps one
//! migration per VM and at most five per cycle, estimates the blackout,
//! and builds the live-migration command.
use vstd::prelude::*;
use crate::text::{dec, dec_string, push_str, string_views};

verus! {

/// How far DRS acts on its recommendations.
#[derive(PartialEq, Eq, Structural, Clone, Copy, Debug)]
pub enum DrsMode {
    Manual,
    SemiAutomated,
    FullyAutomated,
}

/// The DRS commands of the command line.
pub enum DrsCmd {
    /// Cluster balance and pending recommendations.
    Status,
    /// The pending migration recommendations.
    Recommendations,
    /// Execute one VM's migration, or all of them.
    Exec { vm_id: Option<String>, all: bool, dry_run: bool },
    /// Show or set the mode.
    Mode { mode: Option<DrsMode> },
    /// The affinity rules.
    Rules,
    /// The resource pool hierarchy.
    Pools,
}

/// The most migrations one rebalancing cycle plans.
pub const MAX_MIGRATIONS_PER_CYCLE: usize = 5;

/// The estimated stop-and-copy blackout of a VM's migration: 50 ms plus
/// 1 ms per 512 MiB of memory (the memory size taken modulo 2^32).
pub open spec fn spec_blackout_ms(mem_mib: u64) -> u32 {
    (50 + (mem_mib as u32) / 512) as u32
}

/// The estimated blackout of migrating a VM with `mem_mib` of memory.
pub fn estimate_blackout_ms(mem_mib: u64) -> (r: u32)
    ensures
        r == spec_blackout_ms(mem_mib),
        50 <= r <= 50 + u32::MAX / 512,
{
    let m = mem_mib as u32;
    50 + m / 512
}

/// Whether a VM's memory fits on a node while a tenth of the node's
/// memory stays free.
pub open spec fn spec_mem_fits(vm_mem: u64, node_free: u64, node_total: u64) -> bool {
    let reserve = node_total / 10;
    let room = if node_free >= reserve {
        node_free - reserve
    } else {
        0
    };
    vm_mem <= room
}

/// The memory side of "does the VM fit on the destination".
pub fn mem_fits(vm_mem: u64, node_free: u64, node_total: u64) -> (r: bool)
    ensures
        r == spec_mem_fits(vm_mem, node_free, node_total),
        r == (vm_mem == 0 || vm_mem + node_total / 10 <= node_free),
{
    proof {
        lemma_mem_fits_keeps_a_tenth(vm_mem, node_free, node_total);
    }
    !(vm_mem > node_free.saturating_sub(node_total / 10))
}

/// A VM fits on a node exactly when, after placing it, a tenth of the
/// node's total memory is still free (a VM needing no memory always fits),
/// whatever the node's size.
pub proof fn lemma_mem_fits_keeps_a_tenth(vm_mem: u64, node_free: u64, node_total: u64)
    ensures
        spec_mem_fits(vm_mem, node_free, node_total) <==> (vm_mem == 0 || vm_mem + node_total / 10
            <= node_free),
{
}

/// Whether `v` occurs among the first `n` of `ids`.
pub open spec fn seen_before(ids: Seq<u32>, n: int, v: u32) -> bool {
    exists|j: int| 0 <= j < n && ids[j] == v
}

/// The positions of the first migration of each VM, in order.
pub open spec fn first_per_vm(ids: Seq<u32>) -> Seq<int>
    decreases ids.len(),
{
    if ids.len() == 0 {
        Seq::empty()
    } else {
        let rest = first_per_vm(ids.drop_last());
        if seen_before(ids, ids.len() - 1, ids.last()) {
            rest
        } else {
            rest.push(ids.len() - 1)
        }
    }
}

/// Which candidates a cycle executes, given their VMs in order of
/// decreasing score: the best candidate of each VM, at most five.
pub open spec fn spec_select(ids: Seq<u32>) -> Seq<int> {
    let f = first_per_vm(ids);
    if f.len() > 5 {
        f.subrange(0, 5)
    } else {
        f
    }
}

/// The first candidate of each VM keeps its place, in order; no VM twice.
proof fn lemma_first_per_vm(ids: Seq<u32>)
    ensures
        forall|k: int|
            0 <= k < first_per_vm(ids).len() ==> 0 <= #[trigger] first_per_vm(ids)[k] < ids.len()
                && !seen_before(ids, first_per_vm(ids)[k], ids[first_per_vm(ids)[k]]),
        forall|k: int, l: int|
            0 <= k < l < first_per_vm(ids).len() ==> first_per_vm(ids)[k] < first_per_vm(ids)[l],
    decreases ids.len(),
{
    if ids.len() > 0 {
        let p = ids.drop_last();
        lemma_first_per_vm(p);
        assert forall|k: int| 0 <= k < first_per_vm(p).len() implies !seen_before(
            ids,
            first_per_vm(p)[k],
            ids[first_per_vm(p)[k]],
        ) by {
            let i = first_per_vm(p)[k];
            assert(ids[i] == p[i]);
            if seen_before(ids, i, ids[i]) {
                let j = choose|j: int| 0 <= j < i && ids[j] == ids[i];
                assert(p[j] == ids[j]);
            }
        }
    }
}

/// The candidates a cycle executes: the best one of each VM (candidates
/// come in order of decreasing score), at most five, in order.
pub fn select_migrations(vm_ids: &[u32]) -> (r: Vec<usize>)
    ensures
        r@.len() == spec_select(vm_ids@).len(),
        forall|k: int| 0 <= k < r@.len() ==> #[trigger] r@[k] as int == spec_select(vm_ids@)[k],
        r@.len() <= 5,
{
    let n = vm_ids.len();
    let mut firsts: Vec<usize> = Vec::new();
    let mut i: usize = 0;
    while i < n
        invariant
            i <= n,
            n == vm_ids@.len(),
            firsts@.len() == first_per_vm(vm_ids@.subrange(0, i as int)).len(),
            forall|k: int|
                0 <= k < firsts@.len() ==> #[trigger] firsts@[k] as int == first_per_vm(
                    vm_ids@.subrange(0, i as int),
                )[k],
            forall|k: int| 0 <= k < firsts@.len() ==> #[trigger] firsts@[k] < i,
        decreases n - i,
    {
        let ghost pre = vm_ids@.subrange(0, i + 1);
        assert(pre.drop_last() =~= vm_ids@.subrange(0, i as int));
        let mut seen = false;
        let mut j: usize = 0;
        while j < i
            invariant
                j <= i,
                i < n,
                n == vm_ids@.len(),
                seen == exists|t: int| 0 <= t < j && vm_ids@[t] == vm_ids@[i as int],
            decreases i - j,
        {
            if vm_ids[j] == vm_ids[i] {
                seen = true;
            }
            j = j + 1;
        }
        proof {
            assert(seen == seen_before(pre, i as int, pre.last())) by {
                if seen {
                    let t = choose|t: int| 0 <= t < i && vm_ids@[t] == vm_ids@[i as int];
                    assert(pre[t] == vm_ids@[t]);
                }
                if seen_before(pre, i as int, pre.last()) {
                    let t = choose|t: int| 0 <= t < i && pre[t] == pre.last();
                    assert(pre[t] == vm_ids@[t]);
                }
            }
        }
        if !seen {
            firsts.push(i);
        }
        i = i + 1;
    }
    assert(vm_ids@.subrange(0, n as int) =~= vm_ids@);
    let mut r: Vec<usize> = Vec::new();
    let m = if firsts.len() > 5 {
        5
    } else {
        firsts.len()
    };
    let mut k: usize = 0;
    while k < m
        invariant
            k <= m,
            m <= firsts@.len(),
            m == spec_select(vm_ids@).len(),
            firsts@.len() == first_per_vm(vm_ids@).len(),
            forall|t: int| 0 <= t < firsts@.len() ==> #[trigger] firsts@[t] as int == first_per_vm(vm_ids@)[t],
            r@.len() == k,
            forall|t: int| 0 <= t < k ==> #[trigger] r@[t] as int == spec_select(vm_ids@)[t],
        decreases m - k,
    {
        r.push(firsts[k]);
        k = k + 1;
    }
    r
}

/// A cycle migrates each VM at most once, never more than five VMs, and
/// takes each VM's best (earliest) candidate.
pub proof fn lemma_selection(ids: Seq<u32>)
    ensures
        spec_select(ids).len() <= 5,
        forall|k: int|
            0 <= k < spec_select(ids).len() ==> 0 <= #[trigger] spec_select(ids)[k] < ids.len()
                && !seen_before(ids, spec_select(ids)[k], ids[spec_select(ids)[k]]),
        forall|k: int, l: int|
            0 <= k < l < spec_select(ids).len() ==> ids[spec_select(ids)[k]] != ids[spec_select(
                ids,
            )[l]],
{
    lemma_first_per_vm(ids);
    let f = first_per_vm(ids);
    assert forall|k: int, l: int|
        0 <= k < l < spec_select(ids).len() implies ids[spec_select(ids)[k]] != ids[spec_select(
        ids,
    )[l]] by {
        assert(spec_select(ids)[k] == f[k]);
        assert(spec_select(ids)[l] == f[l]);
        assert(f[k] < f[l]);
        assert(!seen_before(ids, f[l], ids[f[l]]));
        if ids[f[k]] == ids[f[l]] {
            assert(0 <= f[k] < f[l] && ids[f[k]] == ids[f[l]]);
        }
    }
    assert forall|k: int| 0 <= k < spec_select(ids).len() implies 0 <= #[trigger] spec_select(ids)[k]
        < ids.len() && !seen_before(ids, spec_select(ids)[k], ids[spec_select(ids)[k]]) by {
        assert(spec_select(ids)[k] == f[k]);
    }
}

/// The live-migration tool's arguments for moving a VM.
pub fn migration_args(vm_id: u32, to_node: &str) -> (r: Vec<String>)
    ensures
        string_views(r@) == seq!["--vm-id"@, dec(vm_id as nat), "--destination"@, to_node@],
{
    let mut a: Vec<String> = Vec::new();
    push_str(&mut a, "--vm-id");
    let id = dec_string(vm_id as u64);
    push_str(&mut a, id.as_str());
    push_str(&mut a, "--destination");
    push_str(&mut a, to_node);
    a
}

} // verus!
