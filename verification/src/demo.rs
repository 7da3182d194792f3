//! The demo mode's simulated VMs: an in-memory store with the lifecycle
//! of real VMs (booting, running after three seconds, stopped, deleted)
//! and the integer side of their simulated metrics. Random draws and the
//! clock are the caller's; they come in as arguments.
use vstd::prelude::*;
use crate::ids::{is_lower_hex, new_short_id};
use crate::text::{str_chars, string_from_chars, hex_char};

verus! {

/// Status of a simulated VM.
#[derive(PartialEq, Eq, Structural, Clone, Copy, Debug)]
pub enum VmStatus {
    Running,
    Stopped,
    Booting,
    Error,
}

/// The upper-case name of a simulated VM's status.
pub open spec fn demo_status_text(s: VmStatus) -> Seq<char> {
    match s {
        VmStatus::Running => "RUNNING"@,
        VmStatus::Stopped => "STOPPED"@,
        VmStatus::Booting => "BOOTING"@,
        VmStatus::Error => "ERROR"@,
    }
}

impl VmStatus {
    /// The upper-case name (`RUNNING`, `STOPPED`, `BOOTING`, `ERROR`).
    pub fn as_str(&self) -> (r: &'static str)
        ensures
            r@ == demo_status_text(*self),
    {
        match self {
            VmStatus::Running => "RUNNING",
            VmStatus::Stopped => "STOPPED",
            VmStatus::Booting => "BOOTING",
            VmStatus::Error => "ERROR",
        }
    }
}

/// The lowercase hexadecimal digits of `n`, at least two.
pub open spec fn hex_at_least2(n: nat) -> Seq<char>
    decreases n,
{
    if n < 16 {
        seq![hex_char(0), hex_char(n as int)]
    } else if n < 256 {
        seq![hex_char((n / 16) as int), hex_char((n % 16) as int)]
    } else {
        hex_at_least2(n / 16).push(hex_char((n % 16) as int))
    }
}

fn hex_digit(d: u64) -> (c: char)
    requires
        d < 16,
    ensures
        c == hex_char(d as int),
{
    if d < 10 {
        ((48 + d) as u8) as char
    } else {
        ((87 + d) as u8) as char
    }
}

fn push_hex_min2(out: &mut Vec<char>, n: u64)
    ensures
        final(out)@ == old(out)@ + hex_at_least2(n as nat),
    decreases n,
{
    if n < 16 {
        out.push(hex_digit(0));
        out.push(hex_digit(n));
    } else if n < 256 {
        out.push(hex_digit(n / 16));
        out.push(hex_digit(n % 16));
    } else {
        push_hex_min2(out, n / 16);
        out.push(hex_digit(n % 16));
    }
    assert(final(out)@ =~= old(out)@ + hex_at_least2(n as nat));
}

/// The MAC of the `num`th simulated VM: `02:aa:bb:00:00:` and `num` in
/// lowercase hex, at least two digits.
pub fn demo_mac(num: u64) -> (r: String)
    ensures
        r@ == "02:aa:bb:00:00:"@ + hex_at_least2(num as nat),
{
    let mut v = str_chars("02:aa:bb:00:00:");
    push_hex_min2(&mut v, num);
    string_from_chars(v.as_slice())
}

/// A simulated VM, without its floating-point metrics.
pub struct DemoVm {
    pub id: String,
    pub name: String,
    pub status: VmStatus,
    pub cpus: u8,
    pub mem_mib: u64,
    pub mac: String,
    pub mem_used_mib: u64,
    pub uptime_secs: u64,
    /// Seconds since the epoch.
    pub created_at: i64,
    pub started_at: Option<i64>,
}

/// The simulated VMs, in order of creation, each ID once.
pub struct DemoStore {
    vms: Vec<DemoVm>,
}

/// The position of the VM `id` among `vms`, if any.
pub open spec fn position(vms: Seq<DemoVm>, id: Seq<char>) -> Option<int> {
    if exists|i: int| 0 <= i < vms.len() && (#[trigger] vms[i]).id@ == id {
        Some(choose|i: int| 0 <= i < vms.len() && (#[trigger] vms[i]).id@ == id)
    } else {
        None
    }
}

/// `after` is `before` with a booting VM `id` added at the end (at index
/// `r`), replacing any VM that had that ID; its MAC numbers it after the
/// VMs of `before`.
pub open spec fn spec_inserted(
    before: Seq<DemoVm>,
    after: Seq<DemoVm>,
    r: int,
    id: Seq<char>,
    name: String,
    cpus: u8,
    mem_mib: u64,
    now: i64,
) -> bool {
    let base = match position(before, id) {
        Some(k) => before.remove(k),
        None => before,
    };
    &&& r == base.len()
    &&& after.len() == r + 1
    &&& after.subrange(0, r) == base
    &&& {
        let v = after[r];
        &&& v.id@ == id
        &&& v.name == name
        &&& v.status == VmStatus::Booting
        &&& v.cpus == cpus
        &&& v.mem_mib == mem_mib
        &&& v.mac@ == "02:aa:bb:00:00:"@ + hex_at_least2((before.len() + 1) as nat)
        &&& v.mem_used_mib == 0
        &&& v.uptime_secs == 0
        &&& v.created_at == now
        &&& v.started_at is None
    }
}

/// How many of `vms` are running.
pub open spec fn running_count(vms: Seq<DemoVm>) -> nat
    decreases vms.len(),
{
    if vms.len() == 0 {
        0
    } else {
        running_count(vms.drop_last()) + if vms.last().status == VmStatus::Running {
            1nat
        } else {
            0nat
        }
    }
}

/// The memory `vms` use, in MiB.
pub open spec fn mem_used_sum(vms: Seq<DemoVm>) -> nat
    decreases vms.len(),
{
    if vms.len() == 0 {
        0
    } else {
        mem_used_sum(vms.drop_last()) + vms.last().mem_used_mib as nat
    }
}

/// A prefix of the VMs uses no more memory, and runs no more VMs, than
/// all of them.
proof fn lemma_prefix_sums(vms: Seq<DemoVm>, i: int)
    requires
        0 <= i <= vms.len(),
    ensures
        mem_used_sum(vms.take(i)) <= mem_used_sum(vms),
        running_count(vms.take(i)) <= running_count(vms),
        running_count(vms) <= vms.len(),
    decreases vms.len(),
{
    if vms.len() > 0 {
        if i == vms.len() {
            assert(vms.take(i) =~= vms);
            lemma_prefix_sums(vms.drop_last(), i - 1);
        } else {
            assert(vms.take(i) =~= vms.drop_last().take(i));
            lemma_prefix_sums(vms.drop_last(), i);
        }
    }
}

/// The integer figures of the simulated node: its fixed size, the VMs
/// running on it, the memory in use and its uptime. CPU, network and load
/// figures are floating-point and the caller's.
pub struct DemoNodeFigures {
    pub hostname: String,
    pub status: String,
    pub cpu_cores: u32,
    pub mem_total_mib: u64,
    pub mem_used_mib: u64,
    pub disk_total_gib: u64,
    pub disk_used_gib: u64,
    pub vm_count: usize,
    pub uptime_secs: u64,
}

impl DemoStore {
    /// The VMs, in order of creation.
    pub closed spec fn spec_vms(&self) -> Seq<DemoVm> {
        self.vms@
    }

    /// No two VMs share an ID.
    pub open spec fn wf(&self) -> bool {
        forall|i: int, j: int|
            0 <= i < self.spec_vms().len() && 0 <= j < self.spec_vms().len() && i != j
                ==> (#[trigger] self.spec_vms()[i]).id@ != (#[trigger] self.spec_vms()[j]).id@
    }

    /// A store holding the one preloaded, running demo VM.
    pub fn new(now: i64) -> (r: DemoStore)
        ensures
            r.wf(),
            r.spec_vms().len() == 1,
            r.spec_vms()[0].id@ == "demo-preloaded-01"@,
            r.spec_vms()[0].name@ == "demo-workload"@,
            r.spec_vms()[0].status == VmStatus::Running,
            r.spec_vms()[0].cpus == 4,
            r.spec_vms()[0].mem_mib == 1024,
            r.spec_vms()[0].mem_used_mib == 412,
            r.spec_vms()[0].mac@ == "02:aa:bb:00:00:01"@,
            r.spec_vms()[0].uptime_secs == 3600,
            r.spec_vms()[0].started_at == Some(now),
    {
        let vm = DemoVm {
            id: "demo-preloaded-01".to_owned(),
            name: "demo-workload".to_owned(),
            status: VmStatus::Running,
            cpus: 4,
            mem_mib: 1024,
            mac: "02:aa:bb:00:00:01".to_owned(),
            mem_used_mib: 412,
            uptime_secs: 3600,
            created_at: now,
            started_at: Some(now),
        };
        let mut vms: Vec<DemoVm> = Vec::new();
        vms.push(vm);
        DemoStore { vms }
    }

    /// The number of VMs.
    pub fn len(&self) -> (r: usize)
        ensures
            r == self.spec_vms().len(),
    {
        self.vms.len()
    }

    /// The simulated node's integer figures, `elapsed_secs` after the
    /// store was made: `demo-node-01`, healthy, 16 cores, 64 GiB of memory
    /// of which the VMs' use plus 4 GiB for the host, a 2000 GiB disk with
    /// 340 GiB used, the count of running VMs, and a day more than the
    /// time elapsed as uptime.
    pub fn node_metrics(&self, elapsed_secs: u64) -> (r: DemoNodeFigures)
        requires
            mem_used_sum(self.spec_vms()) + 4096 <= u64::MAX,
            elapsed_secs + 86400 <= u64::MAX,
        ensures
            r.hostname@ == "demo-node-01"@,
            r.status@ == "HEALTHY"@,
            r.cpu_cores == 16,
            r.mem_total_mib == 65536,
            r.mem_used_mib == mem_used_sum(self.spec_vms()) + 4096,
            r.disk_total_gib == 2000,
            r.disk_used_gib == 340,
            r.vm_count == running_count(self.spec_vms()),
            r.uptime_secs == elapsed_secs + 86400,
    {
        let ghost vms = self.spec_vms();
        let n = self.vms.len();
        let mut running: usize = 0;
        let mut mem: u64 = 0;
        let mut i: usize = 0;
        while i < n
            invariant
                i <= n,
                n == vms.len(),
                vms == self.spec_vms(),
                mem_used_sum(vms) + 4096 <= u64::MAX,
                running == running_count(vms.take(i as int)),
                mem == mem_used_sum(vms.take(i as int)),
            decreases n - i,
        {
            assert(vms.take(i + 1).drop_last() =~= vms.take(i as int));
            proof {
                lemma_prefix_sums(vms, i + 1);
                lemma_prefix_sums(vms.take(i + 1), i + 1);
                assert(vms.take(i + 1).take(i + 1) =~= vms.take(i + 1));
            }
            if self.vms[i].status == VmStatus::Running {
                running = running + 1;
            }
            mem = mem + self.vms[i].mem_used_mib;
            i = i + 1;
        }
        assert(vms.take(n as int) =~= vms);
        DemoNodeFigures {
            hostname: "demo-node-01".to_owned(),
            status: "HEALTHY".to_owned(),
            cpu_cores: 16,
            mem_total_mib: 65536,
            mem_used_mib: mem + 4096,
            disk_total_gib: 2000,
            disk_used_gib: 340,
            vm_count: running,
            uptime_secs: elapsed_secs + 86400,
        }
    }

    /// The VM at a position.
    pub fn vm_at(&self, i: usize) -> (r: &DemoVm)
        requires
            i < self.spec_vms().len(),
        ensures
            *r == self.spec_vms()[i as int],
    {
        &self.vms[i]
    }

    fn find(&self, id: &str) -> (r: Option<usize>)
        requires
            self.wf(),
        ensures
            match r {
                Some(i) => i < self.spec_vms().len() && self.spec_vms()[i as int].id@ == id@
                    && position(self.spec_vms(), id@) == Some(i as int),
                None => position(self.spec_vms(), id@) is None,
            },
    {
        let n = self.vms.len();
        let mut i: usize = 0;
        while i < n
            invariant
                i <= n,
                n == self.spec_vms().len(),
                self.wf(),
                forall|j: int| 0 <= j < i ==> (#[trigger] self.spec_vms()[j]).id@ != id@,
            decreases n - i,
        {
            if crate::text::str_eq(self.vms[i].id.as_str(), id) {
                proof {
                    let k = choose|k: int|
                        0 <= k < self.spec_vms().len() && (#[trigger] self.spec_vms()[k]).id@
                            == id@;
                    assert(self.spec_vms()[i as int].id@ == id@);
                    if k != i {
                        assert(self.spec_vms()[k].id@ != self.spec_vms()[i as int].id@);
                    }
                }
                return Some(i);
            }
            i = i + 1;
        }
        None
    }

    /// Adds a booting VM with ID `id` at the end, in place of any VM that
    /// already has that ID; its MAC numbers it after the VMs that were
    /// there before.
    pub fn insert_vm(&mut self, id: String, name: String, cpus: u8, mem_mib: u64, now: i64) -> (r: usize)
        requires
            old(self).wf(),
            old(self).spec_vms().len() < u64::MAX,
        ensures
            final(self).wf(),
            spec_inserted(old(self).spec_vms(), final(self).spec_vms(), r as int, id@, name, cpus, mem_mib, now),
    {
        let num: u64 = self.vms.len() as u64 + 1;
        self.delete_vm(id.as_str());
        let ghost base = self.spec_vms();
        let vm = DemoVm {
            id,
            name,
            status: VmStatus::Booting,
            cpus,
            mem_mib,
            mac: demo_mac(num),
            mem_used_mib: 0,
            uptime_secs: 0,
            created_at: now,
            started_at: None,
        };
        let r = self.vms.len();
        self.vms.push(vm);
        proof {
            assert(self.spec_vms().subrange(0, r as int) =~= base);
            assert forall|j: int| 0 <= j < base.len() implies (#[trigger] base[j]).id@ != vm.id@ by {
                if base[j].id@ == vm.id@ {
                    assert(position(base, vm.id@) is Some);
                }
            }
            assert forall|i: int, j: int|
                0 <= i < self.spec_vms().len() && 0 <= j < self.spec_vms().len() && i != j
                    implies (#[trigger] self.spec_vms()[i]).id@ != (
                #[trigger] self.spec_vms()[j]).id@ by {
                if i < r && j < r {
                    assert(self.spec_vms()[i] == base[i]);
                    assert(self.spec_vms()[j] == base[j]);
                } else if i < r {
                    assert(self.spec_vms()[i] == base[i]);
                } else if j < r {
                    assert(self.spec_vms()[j] == base[j]);
                }
            }
        }
        r
    }

    /// Adds a booting VM under a fresh random ID, `vm-` followed by eight
    /// lowercase hex digits (see `insert_vm`).
    pub fn create_vm(&mut self, name: String, cpus: u8, mem_mib: u64, now: i64) -> (r: usize)
        requires
            old(self).wf(),
            old(self).spec_vms().len() < u64::MAX,
        ensures
            final(self).wf(),
            ({
                let id = final(self).spec_vms()[r as int].id@;
                &&& id.len() == 11
                &&& id.subrange(0, 3) == "vm-"@
                &&& forall|i: int| 3 <= i < 11 ==> is_lower_hex(#[trigger] id[i])
                &&& spec_inserted(old(self).spec_vms(), final(self).spec_vms(), r as int, id, name, cpus, mem_mib, now)
            }),
    {
        let id = new_short_id("vm-");
        proof {
            reveal_strlit("vm-");
        }
        self.insert_vm(id, name, cpus, mem_mib, now)
    }

    fn set_status(&mut self, id: &str, s: VmStatus)
        requires
            old(self).wf(),
        ensures
            final(self).wf(),
            final(self).spec_vms().len() == old(self).spec_vms().len(),
            forall|i: int|
                0 <= i < old(self).spec_vms().len() ==> {
                    let o = #[trigger] old(self).spec_vms()[i];
                    let v = final(self).spec_vms()[i];
                    if o.id@ == id@ {
                        v == DemoVm { status: s, ..o }
                    } else {
                        v == o
                    }
                },
    {
        match self.find(id) {
            Some(i) => {
                let mut v = self.vms.remove(i);
                v.status = s;
                self.vms.insert(i, v);
                proof {
                    assert forall|j: int|
                        0 <= j < old(self).spec_vms().len() && j != i implies old(self).spec_vms()[j].id@
                        != id@ by {
                        assert(old(self).spec_vms()[j].id@ != old(self).spec_vms()[i as int].id@);
                    }
                    assert forall|a: int, b: int|
                        0 <= a < self.spec_vms().len() && 0 <= b < self.spec_vms().len() && a != b
                            implies (#[trigger] self.spec_vms()[a]).id@ != (
                        #[trigger] self.spec_vms()[b]).id@ by {
                        assert(self.spec_vms()[a].id == old(self).spec_vms()[a].id);
                        assert(self.spec_vms()[b].id == old(self).spec_vms()[b].id);
                    }
                }
            },
            None => {
                assert forall|j: int| 0 <= j < old(self).spec_vms().len() implies old(self).spec_vms()[j].id@
                    != id@ by {
                    if old(self).spec_vms()[j].id@ == id@ {
                        assert(position(old(self).spec_vms(), id@) is Some);
                    }
                }
            },
        }
    }

    /// Stops the VM `id`, if there is one; nothing else changes.
    pub fn stop_vm(&mut self, id: &str)
        requires
            old(self).wf(),
        ensures
            final(self).wf(),
            final(self).spec_vms().len() == old(self).spec_vms().len(),
            forall|i: int|
                0 <= i < old(self).spec_vms().len() ==> {
                    let o = #[trigger] old(self).spec_vms()[i];
                    let v = final(self).spec_vms()[i];
                    if o.id@ == id@ {
                        v == DemoVm { status: VmStatus::Stopped, ..o }
                    } else {
                        v == o
                    }
                },
    {
        self.set_status(id, VmStatus::Stopped);
    }

    /// Starts the VM `id` again (it boots first), if there is one.
    pub fn start_vm(&mut self, id: &str)
        requires
            old(self).wf(),
        ensures
            final(self).wf(),
            final(self).spec_vms().len() == old(self).spec_vms().len(),
            forall|i: int|
                0 <= i < old(self).spec_vms().len() ==> {
                    let o = #[trigger] old(self).spec_vms()[i];
                    let v = final(self).spec_vms()[i];
                    if o.id@ == id@ {
                        v == DemoVm { status: VmStatus::Booting, ..o }
                    } else {
                        v == o
                    }
                },
    {
        self.set_status(id, VmStatus::Booting);
    }

    /// Removes the VM `id`, if there is one; the others keep their order.
    pub fn delete_vm(&mut self, id: &str)
        requires
            old(self).wf(),
        ensures
            final(self).wf(),
            position(final(self).spec_vms(), id@) is None,
            match position(old(self).spec_vms(), id@) {
                Some(i) => final(self).spec_vms() == old(self).spec_vms().remove(i),
                None => final(self).spec_vms() == old(self).spec_vms(),
            },
    {
        match self.find(id) {
            Some(i) => {
                self.vms.remove(i);
                proof {
                    let o = old(self).spec_vms();
                    assert forall|a: int, b: int|
                        0 <= a < self.spec_vms().len() && 0 <= b < self.spec_vms().len() && a != b
                            implies (#[trigger] self.spec_vms()[a]).id@ != (
                        #[trigger] self.spec_vms()[b]).id@ by {
                        let oa = if a < i { a } else { a + 1 };
                        let ob = if b < i { b } else { b + 1 };
                        assert(self.spec_vms()[a] == o[oa]);
                        assert(self.spec_vms()[b] == o[ob]);
                    }
                    assert forall|j: int| 0 <= j < self.spec_vms().len() implies (
                    #[trigger] self.spec_vms()[j]).id@ != id@ by {
                        let oj = if j < i { j } else { j + 1 };
                        assert(self.spec_vms()[j] == o[oj]);
                        assert(o[oj].id@ != o[i as int].id@);
                    }
                }
            },
            None => {
                proof {
                    assert forall|j: int| 0 <= j < self.spec_vms().len() implies (
                    #[trigger] self.spec_vms()[j]).id@ != id@ by {
                        if self.spec_vms()[j].id@ == id@ {
                            assert(position(self.spec_vms(), id@) is Some);
                        }
                    }
                }
            },
        }
    }
}

/// One tick of a simulated VM's lifecycle (with the random draws given):
/// a VM booting for more than three seconds runs, using `load_pct` percent
/// of its memory; a running VM's memory use moves by `jitter`, staying
/// between 128 MiB and nine tenths of its memory (the latter winning when
/// they cross), and its uptime is the time since it started.
pub fn tick(vm: &mut DemoVm, now: i64, load_pct: u64, jitter: i64)
    requires
        old(vm).mem_mib <= i64::MAX / 9,
        old(vm).mem_mib <= u64::MAX / 45,
        load_pct <= 45,
        -10 <= jitter <= 10,
        old(vm).mem_used_mib <= i64::MAX / 2,
        old(vm).status == VmStatus::Booting ==> now - old(vm).created_at <= i64::MAX && now - old(vm).created_at >= i64::MIN,
        old(vm).status == VmStatus::Running ==> (match old(vm).started_at {
            Some(t) => now - t,
            None => now - old(vm).created_at,
        }) >= i64::MIN && (match old(vm).started_at {
            Some(t) => now - t,
            None => now - old(vm).created_at,
        }) <= i64::MAX,
    ensures
        final(vm).id == old(vm).id,
        final(vm).mem_mib == old(vm).mem_mib,
        old(vm).status == VmStatus::Booting && now - old(vm).created_at > 3 ==> final(vm).status
            == VmStatus::Running && final(vm).started_at == Some(now) && final(vm).mem_used_mib
            == old(vm).mem_mib * load_pct / 100,
        old(vm).status == VmStatus::Booting && now - old(vm).created_at <= 3 ==> *final(vm) == *old(vm),
        old(vm).status == VmStatus::Running ==> final(vm).status == VmStatus::Running && ({
            let cap = old(vm).mem_mib * 9 / 10;
            let moved = old(vm).mem_used_mib + jitter;
            let lo = if moved < 128 { 128 } else { moved };
            final(vm).mem_used_mib == (if lo < cap { lo } else { cap })
        }) && final(vm).uptime_secs == ({
            let d = match old(vm).started_at {
                Some(t) => now - t,
                None => now - old(vm).created_at,
            };
            if d < 0 { 0 } else { d }
        }),
        old(vm).status == VmStatus::Stopped || old(vm).status == VmStatus::Error ==> *final(vm) == *old(vm),
{
    match vm.status {
        VmStatus::Booting => {
            if now - vm.created_at > 3 {
                vm.status = VmStatus::Running;
                vm.started_at = Some(now);
                assert(vm.mem_mib * load_pct <= u64::MAX) by (nonlinear_arith)
                    requires
                        vm.mem_mib <= u64::MAX / 45,
                        load_pct <= 45,
                ;
                vm.mem_used_mib = vm.mem_mib * load_pct / 100;
            }
        },
        VmStatus::Running => {
            let cap: i64 = (vm.mem_mib as i64) * 9 / 10;
            let moved: i64 = vm.mem_used_mib as i64 + jitter;
            let lo: i64 = if moved < 128 {
                128
            } else {
                moved
            };
            let used: i64 = if lo < cap {
                lo
            } else {
                cap
            };
            vm.mem_used_mib = used as u64;
            let since = match vm.started_at {
                Some(t) => t,
                None => vm.created_at,
            };
            let d: i64 = now - since;
            vm.uptime_secs = if d < 0 {
                0
            } else {
                d as u64
            };
        },
        _ => {},
    }
}

} // verus!
