//! Lifecycle decisions for VMs run by the VMM: the kernel command line,
//! the VMM's argument list, the MAC and tap derived from a VM's ID, the
//! address handed out by the network plugin, and the status transitions
//! of a VM's saved record. Spawning processes, PTYs and files stay with
//! the caller, which feeds the outcomes back in.
use vstd::prelude::*;
use crate::text::{
    dec, dec_string, extend_chars, find_char, find_with_prefix, first_with_prefix, has_prefix,
    index_of_char, joined, join_strings, lines, push_str, slice_chars, split_lines, str_chars,
    string_from_chars, string_views, strip_all_prefix, trim_start_matches, words, split_words,
    char_views, all_ascii,
};

verus! {

/// Status of a VM as the API reports it.
#[derive(PartialEq, Eq, Structural, Clone, Copy, Debug)]
pub enum VmStatus {
    Active,
    Stopped,
    Booting,
    Migrating,
    Error,
    ShutOff,
}

/// The upper-case name under which a status is shown.
pub open spec fn status_text(s: VmStatus) -> Seq<char> {
    match s {
        VmStatus::Active => "ACTIVE"@,
        VmStatus::Stopped => "STOPPED"@,
        VmStatus::Booting => "BOOTING"@,
        VmStatus::Migrating => "MIGRATING"@,
        VmStatus::Error => "ERROR"@,
        VmStatus::ShutOff => "SHUT_OFF"@,
    }
}

impl VmStatus {
    /// The upper-case name of the status (`ACTIVE`, `SHUT_OFF`, ...).
    pub fn as_str(&self) -> (r: &'static str)
        ensures
            r@ == status_text(*self),
    {
        match self {
            VmStatus::Active => "ACTIVE",
            VmStatus::Stopped => "STOPPED",
            VmStatus::Booting => "BOOTING",
            VmStatus::Migrating => "MIGRATING",
            VmStatus::Error => "ERROR",
            VmStatus::ShutOff => "SHUT_OFF",
        }
    }
}

/// The words of the kernel command line of a managed VM, in order.
pub open spec fn cmdline_parts(root_disk: bool, has_disk: bool, ip_config: Seq<char>) -> Seq<
    Seq<char>,
> {
    let head = seq!["earlycon=uart8250,io,0x3f8,115200n8"@, "console=ttyS0,115200"@];
    let a = if root_disk {
        head + seq!["root=/dev/vda"@, "rootfstype=ext4"@]
    } else {
        head
    };
    let b = a + seq!["rw"@, "reboot=k"@, "panic=1"@, "virtio_mmio.device=0x1000@0xd0000000:5"@];
    let c = if has_disk {
        b.push("virtio_mmio.device=0x1000@0xd0010000:6"@)
    } else {
        b
    };
    if ip_config.len() > 0 {
        c + seq![ip_config, "nameserver=1.1.1.1"@]
    } else {
        c
    }
}

/// The kernel command line of a managed VM: the serial console, the root
/// disk when `root_disk`, the virtio-net device (always), the virtio-blk
/// device when `has_disk`, and the network plugin's IP configuration with
/// a nameserver when `ip_config` is not empty; joined by single spaces.
pub fn build_vm_cmdline(root_disk: bool, has_disk: bool, ip_config: &str) -> (r: String)
    ensures
        r@ == joined(cmdline_parts(root_disk, has_disk, ip_config@), " "@),
{
    let mut p: Vec<String> = Vec::new();
    push_str(&mut p, "earlycon=uart8250,io,0x3f8,115200n8");
    push_str(&mut p, "console=ttyS0,115200");
    if root_disk {
        push_str(&mut p, "root=/dev/vda");
        push_str(&mut p, "rootfstype=ext4");
    }
    push_str(&mut p, "rw");
    push_str(&mut p, "reboot=k");
    push_str(&mut p, "panic=1");
    push_str(&mut p, "virtio_mmio.device=0x1000@0xd0000000:5");
    if has_disk {
        push_str(&mut p, "virtio_mmio.device=0x1000@0xd0010000:6");
    }
    if ip_config.unicode_len() > 0 {
        push_str(&mut p, ip_config);
        push_str(&mut p, "nameserver=1.1.1.1");
    }
    assert(string_views(p@) =~= cmdline_parts(root_disk, has_disk, ip_config@));
    join_strings(p.as_slice(), " ")
}

/// The IP address in the network plugin's configuration `k=ADDR:...`:
/// the text after the first `=` up to the next `:`; none without `=`.
pub open spec fn spec_ip_from_config(c: Seq<char>) -> Option<Seq<char>> {
    let i = index_of_char(c, '=');
    if i == c.len() {
        None
    } else {
        let rest = c.subrange(i + 1, c.len() as int);
        Some(rest.subrange(0, index_of_char(rest, ':')))
    }
}

/// The IP address in the network plugin's configuration string.
pub fn ip_from_config(ip_config: &str) -> (r: Option<String>)
    ensures
        opt_view(r) == spec_ip_from_config(ip_config@),
{
    let c = str_chars(ip_config);
    let i = find_char(c.as_slice(), '=');
    if i == c.len() {
        return None;
    }
    let rest = slice_chars(c.as_slice(), i + 1, c.len());
    let j = find_char(rest.as_slice(), ':');
    let ip = slice_chars(rest.as_slice(), 0, j);
    Some(string_from_chars(ip.as_slice()))
}

/// The marker of the line in which the network plugin reports the IP
/// configuration on its error stream.
pub open spec fn ip_config_marker() -> Seq<char> {
    "CAIMAN_IP_CONFIG="@
}

/// The IP configuration reported on the network plugin's error stream:
/// the first line that starts with the marker, with every leading
/// repetition of the marker removed; empty when no line has it.
pub open spec fn spec_ip_config_from_stderr(stderr: Seq<char>) -> Seq<char> {
    match first_with_prefix(lines(stderr), ip_config_marker()) {
        Some(l) => strip_all_prefix(l, ip_config_marker()),
        None => Seq::empty(),
    }
}

/// Extracts the IP configuration from the network plugin's error stream.
pub fn ip_config_from_stderr(stderr: &str) -> (r: String)
    ensures
        r@ == spec_ip_config_from_stderr(stderr@),
{
    let marker = str_chars("CAIMAN_IP_CONFIG=");
    let ls = split_lines(str_chars(stderr).as_slice());
    match find_with_prefix(&ls, marker.as_slice()) {
        Some(i) => {
            let t = trim_start_matches(ls[i].as_slice(), marker.as_slice());
            string_from_chars(t.as_slice())
        },
        None => String::new(),
    }
}

/// The tap of a VM: `caim` and the last eight characters of its ID (all
/// of it when shorter).
pub open spec fn spec_vm_tap(id: Seq<char>) -> Seq<char> {
    let k = if id.len() >= 8 {
        id.len() - 8
    } else {
        0
    };
    "caim"@ + id.subrange(k as int, id.len() as int)
}

/// The tap device name of the VM with ID `id`.
pub fn vm_tap_name(id: &str) -> (r: String)
    requires
        all_ascii(id@),
    ensures
        r@ == spec_vm_tap(id@),
{
    let c = str_chars(id);
    let n = c.len();
    let k = if n >= 8 {
        n - 8
    } else {
        0
    };
    let mut v = str_chars("caim");
    let tail = slice_chars(c.as_slice(), k, n);
    extend_chars(&mut v, tail.as_slice());
    string_from_chars(v.as_slice())
}

/// The characters of a VM ID that its MAC is made of: the first three
/// after every leading `vm-` is removed.
pub open spec fn vm_num(id: Seq<char>) -> Seq<char> {
    let t = strip_all_prefix(id, "vm-"@);
    if t.len() >= 3 {
        t.subrange(0, 3)
    } else {
        t
    }
}

/// The MAC of a VM: `02:aa:bb:00:` and the first two characters of its
/// number, `:` and the rest of the number.
pub open spec fn spec_vm_mac(id: Seq<char>) -> Seq<char> {
    let n = vm_num(id);
    "02:aa:bb:00:"@ + n.subrange(0, 2) + ":"@ + n.subrange(2, n.len() as int)
}

/// The MAC address of the VM with ID `id`. The ID must leave at least two
/// ASCII characters for the number (IDs made from a UUID leave three).
pub fn vm_mac(id: &str) -> (r: String)
    requires
        vm_num(id@).len() >= 2,
        all_ascii(vm_num(id@)),
    ensures
        r@ == spec_vm_mac(id@),
{
    let c = str_chars(id);
    let prefix = str_chars("vm-");
    let t = trim_start_matches(c.as_slice(), prefix.as_slice());
    let m = if t.len() >= 3 {
        3
    } else {
        t.len()
    };
    let num = slice_chars(t.as_slice(), 0, m);
    let mut v = str_chars("02:aa:bb:00:");
    let a = slice_chars(num.as_slice(), 0, 2);
    extend_chars(&mut v, a.as_slice());
    v.push(':');
    let b = slice_chars(num.as_slice(), 2, num.len());
    extend_chars(&mut v, b.as_slice());
    assert(":"@ =~= seq![':']) by {
        reveal_strlit(":");
    }
    assert(v@ =~= spec_vm_mac(id@));
    string_from_chars(v.as_slice())
}

/// A VM creation request; unset fields take their defaults.
pub struct CreateVmRequest {
    pub name: String,
    pub cpus: Option<u8>,
    pub mem_mib: Option<u64>,
    pub kernel: Option<String>,
    pub initrd: Option<String>,
    pub disk: Option<String>,
    pub base_image: Option<String>,
    pub uplink: Option<String>,
    pub cmdline: Option<String>,
    pub labels: Option<Vec<(String, String)>>,
    /// Network mode: `nat` (default), `bridge` or `none`.
    pub net_mode: Option<String>,
}

/// The view of an optional string.
pub open spec fn opt_view(o: Option<String>) -> Option<Seq<char>> {
    match o {
        Some(s) => Some(s@),
        None => None,
    }
}

/// The value of an optional string, or a default.
pub open spec fn or_default(o: Option<String>, d: Seq<char>) -> Seq<char> {
    match o {
        Some(s) => s@,
        None => d,
    }
}

/// A copy of `o`'s string, or `d`.
pub fn string_or(o: &Option<String>, d: &str) -> (r: String)
    ensures
        r@ == or_default(*o, d@),
{
    match o {
        Some(s) => s.clone(),
        None => d.to_owned(),
    }
}

/// A copy of an optional string.
pub fn copy_opt(o: &Option<String>) -> (r: Option<String>)
    ensures
        r == *o,
{
    match o {
        Some(s) => Some(s.clone()),
        None => None,
    }
}

/// Kernel booted when a request names none.
pub open spec fn default_kernel() -> Seq<char> {
    "/var/lib/caiman/kernels/vmlinuz-alpine"@
}

/// Initrd booted when a request or record names none.
pub open spec fn default_initrd() -> Seq<char> {
    "/var/lib/caiman/kernels/caiman-initrd.img"@
}

/// Base image cloned for a new VM when the request names none.
pub open spec fn default_base_image() -> Seq<char> {
    "caiman-base-1.0.img"@
}

/// Shared root disk used when the base image cannot be cloned and the
/// request names no disk.
pub open spec fn shared_rootfs() -> Seq<char> {
    "/var/lib/caiman/kernels/caiman-rootfs.img"@
}

/// The request's settings with defaults filled in.
pub struct SpawnDefaults {
    pub cpus: u8,
    pub mem_mib: u64,
    pub kernel: String,
    pub base_image: String,
    pub initrd: String,
    pub net_mode: String,
}

/// Fills in the defaults of a creation request: one vCPU, 256 MiB, the
/// default kernel, base image and initrd, and `nat` networking.
pub fn spawn_defaults(req: &CreateVmRequest) -> (r: SpawnDefaults)
    ensures
        r.cpus == (match req.cpus {
            Some(c) => c,
            None => 1u8,
        }),
        r.mem_mib == (match req.mem_mib {
            Some(m) => m,
            None => 256u64,
        }),
        r.kernel@ == or_default(req.kernel, default_kernel()),
        r.base_image@ == or_default(req.base_image, default_base_image()),
        r.initrd@ == or_default(req.initrd, default_initrd()),
        r.net_mode@ == or_default(req.net_mode, "nat"@),
{
    SpawnDefaults {
        cpus: match req.cpus {
            Some(c) => c,
            None => 1,
        },
        mem_mib: match req.mem_mib {
            Some(m) => m,
            None => 256,
        },
        kernel: string_or(&req.kernel, "/var/lib/caiman/kernels/vmlinuz-alpine"),
        base_image: string_or(&req.base_image, "caiman-base-1.0.img"),
        initrd: string_or(&req.initrd, "/var/lib/caiman/kernels/caiman-initrd.img"),
        net_mode: string_or(&req.net_mode, "nat"),
    }
}

/// The disk of a new VM: the clone of the base image when it was made,
/// else the requested disk, else the shared root disk.
pub fn choose_disk(cloned: Option<String>, requested: &Option<String>) -> (r: String)
    ensures
        r@ == (match cloned {
            Some(c) => c@,
            None => or_default(*requested, shared_rootfs()),
        }),
{
    match cloned {
        Some(c) => c,
        None => string_or(requested, "/var/lib/caiman/kernels/caiman-rootfs.img"),
    }
}

/// The part of a VM's saved state that its lifecycle reads and writes.
pub struct VmRecord {
    pub id: String,
    pub name: String,
    pub status: VmStatus,
    pub pid: Option<u32>,
    pub power_state: String,
    pub cpus: u8,
    pub mem_mib: u64,
    pub kernel: String,
    pub initrd: Option<String>,
    pub disk_path: Option<String>,
    pub tap: Option<String>,
    pub uplink: String,
    pub net_mode: Option<String>,
    pub mac: String,
    pub ip: Option<String>,
    pub node_name: String,
}

/// The record of a VM that is being set up: booting, no process yet, no
/// address yet.
pub fn booting_record(
    id: &str,
    name: &str,
    node_name: &str,
    d: &SpawnDefaults,
    disk: String,
    uplink: String,
    tap: String,
    mac: String,
) -> (r: VmRecord)
    ensures
        r.id@ == id@,
        r.name@ == name@,
        r.node_name@ == node_name@,
        r.status == VmStatus::Booting,
        r.pid is None,
        r.power_state@ == "Booting"@,
        r.cpus == d.cpus,
        r.mem_mib == d.mem_mib,
        r.kernel@ == d.kernel@,
        r.initrd == Some(d.initrd),
        r.disk_path == Some(disk),
        r.tap == Some(tap),
        r.uplink == uplink,
        r.net_mode == Some(d.net_mode),
        r.mac == mac,
        r.ip is None,
{
    VmRecord {
        id: id.to_owned(),
        name: name.to_owned(),
        status: VmStatus::Booting,
        pid: None,
        power_state: "Booting".to_owned(),
        cpus: d.cpus,
        mem_mib: d.mem_mib,
        kernel: d.kernel.clone(),
        initrd: Some(d.initrd.clone()),
        disk_path: Some(disk),
        tap: Some(tap),
        uplink,
        net_mode: Some(d.net_mode.clone()),
        mac,
        ip: None,
        node_name: node_name.to_owned(),
    }
}

/// What the VMM is started with.
pub struct LaunchSettings {
    pub kernel: String,
    pub initrd: String,
    pub disk: Option<String>,
    pub tap: String,
    pub uplink: String,
    pub net_mode: String,
    pub cpus: u8,
    pub mem_mib: u64,
}

/// The launch settings saved in a record, with defaults for what it lacks:
/// the default initrd, the tap named after the ID, `nat` networking. The
/// disk, tap, uplink and sizes are the record's own, so a restarted VM
/// comes back with the same ID, disk, tap and MAC.
pub fn launch_settings(rec: &VmRecord) -> (r: LaunchSettings)
    requires
        all_ascii(rec.id@),
    ensures
        r.kernel@ == rec.kernel@,
        r.initrd@ == or_default(rec.initrd, default_initrd()),
        r.disk == rec.disk_path,
        r.tap@ == (match rec.tap {
            Some(t) => t@,
            None => spec_vm_tap(rec.id@),
        }),
        r.uplink@ == rec.uplink@,
        r.net_mode@ == or_default(rec.net_mode, "nat"@),
        r.cpus == rec.cpus,
        r.mem_mib == rec.mem_mib,
{
    LaunchSettings {
        kernel: rec.kernel.clone(),
        initrd: string_or(&rec.initrd, "/var/lib/caiman/kernels/caiman-initrd.img"),
        disk: copy_opt(&rec.disk_path),
        tap: match &rec.tap {
            Some(t) => t.clone(),
            None => vm_tap_name(rec.id.as_str()),
        },
        uplink: rec.uplink.clone(),
        net_mode: string_or(&rec.net_mode, "nat"),
        cpus: rec.cpus,
        mem_mib: rec.mem_mib,
    }
}

/// The command line of a new VM: the request's own when it gives one;
/// else a disk-booted line when the network plugin gave no IP
/// configuration, and an initrd-booted one carrying it otherwise.
pub fn spawn_cmdline(requested: &Option<String>, ip_config: &str, has_disk: bool) -> (r: String)
    ensures
        r@ == (match *requested {
            Some(c) => c@,
            None => joined(cmdline_parts(ip_config@.len() == 0, has_disk, ip_config@), " "@),
        }),
{
    match requested {
        Some(c) => c.clone(),
        None => build_vm_cmdline(ip_config.unicode_len() == 0, has_disk, ip_config),
    }
}

/// The command line of a restarted VM: never a disk-booted one (the
/// initrd boots it), with its disk when it has one and the network
/// plugin's IP configuration when the tap had to be recreated.
pub fn restart_cmdline(s: &LaunchSettings, ip_config: &str) -> (r: String)
    ensures
        r@ == joined(cmdline_parts(false, s.disk is Some, ip_config@), " "@),
{
    build_vm_cmdline(false, s.disk.is_some(), ip_config)
}

/// The VMM's arguments for a launch.
pub open spec fn spec_vmm_args(
    id: Seq<char>,
    name: Seq<char>,
    s: LaunchSettings,
    cmdline: Seq<char>,
) -> Seq<Seq<char>> {
    let base = seq![
        "--kernel"@,
        s.kernel@,
        "--mem-mib"@,
        dec(s.mem_mib as nat),
        "--cpus"@,
        dec(s.cpus as nat),
        "--tap"@,
        s.tap@,
        "--uplink"@,
        s.uplink@,
        "--vm-id"@,
        id,
        "--vm-name"@,
        name,
        "--cmdline"@,
        cmdline,
        "--initrd"@,
        s.initrd@,
    ];
    match s.disk {
        Some(d) => base + seq!["--disk"@, d@],
        None => base,
    }
}

/// The arguments the VMM is started with.
pub fn vmm_args(id: &str, name: &str, s: &LaunchSettings, cmdline: &str) -> (r: Vec<String>)
    ensures
        string_views(r@) == spec_vmm_args(id@, name@, *s, cmdline@),
{
    let mut a: Vec<String> = Vec::new();
    push_str(&mut a, "--kernel");
    push_str(&mut a, s.kernel.as_str());
    push_str(&mut a, "--mem-mib");
    let mem = dec_string(s.mem_mib);
    push_str(&mut a, mem.as_str());
    push_str(&mut a, "--cpus");
    let cpus = dec_string(s.cpus as u64);
    push_str(&mut a, cpus.as_str());
    push_str(&mut a, "--tap");
    push_str(&mut a, s.tap.as_str());
    push_str(&mut a, "--uplink");
    push_str(&mut a, s.uplink.as_str());
    push_str(&mut a, "--vm-id");
    push_str(&mut a, id);
    push_str(&mut a, "--vm-name");
    push_str(&mut a, name);
    push_str(&mut a, "--cmdline");
    push_str(&mut a, cmdline);
    push_str(&mut a, "--initrd");
    push_str(&mut a, s.initrd.as_str());
    match &s.disk {
        Some(d) => {
            push_str(&mut a, "--disk");
            push_str(&mut a, d.as_str());
        },
        None => {},
    }
    assert(string_views(a@) =~= spec_vmm_args(id@, name@, *s, cmdline@));
    a
}

/// Records the address from the network plugin's IP configuration, when
/// it gave one; with an empty configuration the record is unchanged.
pub fn apply_ip_config(rec: &mut VmRecord, ip_config: &str)
    ensures
        ip_config@.len() == 0 ==> *final(rec) == *old(rec),
        ip_config@.len() > 0 ==> opt_view(final(rec).ip) == spec_ip_from_config(ip_config@),
        *final(rec) == (VmRecord { ip: final(rec).ip, ..*old(rec) }),
{
    if ip_config.unicode_len() > 0 {
        rec.ip = ip_from_config(ip_config);
    }
}

/// The VMM process `pid` is up: the VM is active and running.
pub fn mark_running(rec: &mut VmRecord, pid: u32)
    ensures
        final(rec).power_state@ == "Running"@,
        *final(rec) == (VmRecord {
            status: VmStatus::Active,
            pid: Some(pid),
            power_state: final(rec).power_state,
            ..*old(rec)
        }),
{
    rec.status = VmStatus::Active;
    rec.pid = Some(pid);
    rec.power_state = "Running".to_owned();
}

/// A VM restarted as process `pid` on node `node_name`: active, running,
/// on that node, with the address from the network plugin's IP
/// configuration when it gave one; everything else as it was recorded.
pub fn restart_record(rec: &mut VmRecord, pid: u32, node_name: &str, ip_config: &str)
    ensures
        final(rec).power_state@ == "Running"@,
        final(rec).node_name@ == node_name@,
        ip_config@.len() == 0 ==> final(rec).ip == old(rec).ip,
        ip_config@.len() > 0 ==> opt_view(final(rec).ip) == spec_ip_from_config(ip_config@),
        *final(rec) == (VmRecord {
            status: VmStatus::Active,
            pid: Some(pid),
            power_state: final(rec).power_state,
            node_name: final(rec).node_name,
            ip: final(rec).ip,
            ..*old(rec)
        }),
{
    apply_ip_config(rec, ip_config);
    mark_running(rec, pid);
    rec.node_name = node_name.to_owned();
}

/// The VM's process is gone (it exited, or was sent SIGTERM): the VM is
/// shut off, stopped, with no process.
pub fn mark_shut_off(rec: &mut VmRecord)
    ensures
        final(rec).power_state@ == "Stopped"@,
        *final(rec) == (VmRecord {
            status: VmStatus::ShutOff,
            pid: None,
            power_state: final(rec).power_state,
            ..*old(rec)
        }),
{
    rec.status = VmStatus::ShutOff;
    rec.pid = None;
    rec.power_state = "Stopped".to_owned();
}

/// Sending SIGTERM to the VM's process (when it has one) was done or the
/// process was already gone: the VM is shut off with no process; its
/// power state is left as it was.
pub fn mark_stopped(rec: &mut VmRecord)
    ensures
        *final(rec) == (VmRecord { status: VmStatus::ShutOff, pid: None, ..*old(rec) }),
{
    rec.status = VmStatus::ShutOff;
    rec.pid = None;
}

/// Brings a loaded record in line with reality: an active VM whose process
/// is not alive is shut off and stopped. Returns whether it changed (the
/// caller then stamps the termination time and saves it).
pub fn reconcile(rec: &mut VmRecord, alive: bool) -> (changed: bool)
    ensures
        changed == (old(rec).status == VmStatus::Active && !alive),
        changed ==> final(rec).power_state@ == "Stopped"@ && *final(rec) == (VmRecord {
            status: VmStatus::ShutOff,
            power_state: final(rec).power_state,
            ..*old(rec)
        }),
        !changed ==> *final(rec) == *old(rec),
        !(final(rec).status == VmStatus::Active && !alive),
{
    if rec.status == VmStatus::Active && !alive {
        rec.status = VmStatus::ShutOff;
        rec.power_state = "Stopped".to_owned();
        true
    } else {
        false
    }
}

/// Why a lifecycle request was refused.
pub enum VmError {
    /// The VM's process is still alive.
    AlreadyRunning { id: String, pid: u32 },
}

/// A restart is refused while the recorded process is alive (`alive` is
/// the outcome of probing that process; it is ignored when there is none).
pub fn restart_check(rec: &VmRecord, alive: bool) -> (r: Result<(), VmError>)
    ensures
        match rec.pid {
            Some(pid) => if alive {
                r matches Err(VmError::AlreadyRunning { id, pid: p }) && id@ == rec.id@ && p == pid
            } else {
                r is Ok
            },
            None => r is Ok,
        },
{
    match rec.pid {
        Some(pid) => if alive {
            Err(VmError::AlreadyRunning { id: rec.id.clone(), pid })
        } else {
            Ok(())
        },
        None => Ok(()),
    }
}

/// The network interface named by `ip route show default`: the word after
/// the first word `dev`.
pub open spec fn spec_uplink_from_route(output: Seq<char>) -> Option<Seq<char>> {
    let w = words(output);
    let i = first_word_index(w, "dev"@);
    if i + 1 < w.len() {
        Some(w[i + 1])
    } else {
        None
    }
}

/// Index of the first of `w` equal to `t`, or the length of `w`.
pub open spec fn first_word_index(w: Seq<Seq<char>>, t: Seq<char>) -> int
    decreases w.len(),
{
    if w.len() == 0 {
        0
    } else if w[0] == t {
        0
    } else {
        1 + first_word_index(w.drop_first(), t)
    }
}

proof fn lemma_first_word_index(w: Seq<Seq<char>>, t: Seq<char>, i: int)
    requires
        0 <= i <= w.len(),
        forall|j: int| 0 <= j < i ==> w[j] != t,
        i == w.len() || w[i] == t,
    ensures
        first_word_index(w, t) == i,
    decreases w.len(),
{
    if w.len() > 0 && w[0] != t {
        assert forall|j: int| 0 <= j < i - 1 implies w.drop_first()[j] != t by {
            assert(w.drop_first()[j] == w[j + 1]);
        }
        lemma_first_word_index(w.drop_first(), t, i - 1);
    }
}

/// The uplink named in the output of `ip route show default`, if any.
pub fn uplink_from_route(output: &str) -> (r: Option<String>)
    ensures
        match r {
            Some(dev) => spec_uplink_from_route(output@) == Some(dev@),
            None => spec_uplink_from_route(output@) is None,
        },
{
    let w = split_words(str_chars(output).as_slice());
    let dev = str_chars("dev");
    let ghost ws = char_views(w@);
    let n = w.len();
    let mut i: usize = 0;
    while i < n && !crate::text::chars_eq(w[i].as_slice(), dev.as_slice())
        invariant
            i <= n,
            n == w@.len(),
            ws == char_views(w@),
            forall|j: int| 0 <= j < i ==> ws[j] != dev@,
        decreases n - i,
    {
        i = i + 1;
    }
    proof {
        assert(dev@ =~= "dev"@);
        lemma_first_word_index(ws, "dev"@, i as int);
    }
    if i < n && i + 1 < n {
        Some(string_from_chars(w[i + 1].as_slice()))
    } else {
        None
    }
}


/// The uplink when nobody names one: the device of the default route;
/// else the first of `eth0`, `ens3`, `enp3s0`, `wlan0`, `bond0` that
/// `present` marks as existing; else `eth0`.
pub open spec fn spec_detect_uplink(route_dev: Option<Seq<char>>, present: Seq<bool>) -> Seq<char> {
    match route_dev {
        Some(d) => d,
        None => if present[0] {
            "eth0"@
        } else if present[1] {
            "ens3"@
        } else if present[2] {
            "enp3s0"@
        } else if present[3] {
            "wlan0"@
        } else if present[4] {
            "bond0"@
        } else {
            "eth0"@
        },
    }
}

/// Picks the uplink from `ip route show default` output (none when the
/// command could not run) and which fallback interfaces exist.
pub fn detect_uplink(route_output: Option<&str>, present: &[bool; 5]) -> (r: String)
    ensures
        r@ == spec_detect_uplink(
            match route_output {
                Some(o) => spec_uplink_from_route(o@),
                None => None,
            },
            present@,
        ),
{
    let dev = match route_output {
        Some(o) => uplink_from_route(o),
        None => None,
    };
    match dev {
        Some(d) => d,
        None => if present[0] {
            "eth0".to_owned()
        } else if present[1] {
            "ens3".to_owned()
        } else if present[2] {
            "enp3s0".to_owned()
        } else if present[3] {
            "wlan0".to_owned()
        } else if present[4] {
            "bond0".to_owned()
        } else {
            "eth0".to_owned()
        },
    }
}

} // verus!
