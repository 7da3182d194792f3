//! Virtual volumes on external arrays (iSCSI, NVMe-oF, NFS, FC, local):
//! the commands that attach and detach them, and reading back which
//! device an attachment produced. Running the commands is the caller's.
use vstd::prelude::*;
use crate::text::{
    char_views, contains_chars, contains_seq, dec, dec_string, extend_str, join_strings, joined,
    lines, push_str, split_lines, split_words, str_chars, string_from_chars, string_views, words,
};

verus! {

/// Where a volume lives.
pub enum StorageBackend {
    Iscsi(IscsiConfig),
    Nvmeof(NvmeofConfig),
    Nfs(NfsConfig),
    Fc(FcConfig),
    Local(LocalConfig),
}

/// An iSCSI target.
pub struct IscsiConfig {
    /// `192.168.1.10:3260`.
    pub portal: String,
    pub target_iqn: String,
    pub lun: u32,
    pub auth: Option<ChapAuth>,
    pub multipath: bool,
}

/// CHAP credentials.
pub struct ChapAuth {
    pub username: String,
    pub secret: String,
}

/// An NVMe-oF subsystem.
pub struct NvmeofConfig {
    pub transport: NvmeTransport,
    pub addr: String,
    pub port: u16,
    pub nqn: String,
    pub hostnqn: Option<String>,
}

/// The NVMe-oF transport.
#[derive(PartialEq, Eq, Structural, Clone, Copy, Debug)]
pub enum NvmeTransport {
    Tcp,
    Rdma,
}

/// An NFS export.
pub struct NfsConfig {
    pub server: String,
    pub export_path: String,
    pub version: NfsVersion,
    /// Mount options such as `rw`, `hard`, `rsize=1048576`.
    pub options: Vec<String>,
}

/// The NFS protocol version.
#[derive(PartialEq, Eq, Structural, Clone, Copy, Debug)]
pub enum NfsVersion {
    V3,
    V41,
    V42,
}

/// A Fibre Channel LUN.
pub struct FcConfig {
    pub wwpn: String,
    pub lun: u32,
    pub multipath: bool,
}

/// A local block device or image file.
pub struct LocalConfig {
    pub path: String,
    pub format: DiskFormat,
}

/// The format of a local image.
#[derive(PartialEq, Eq, Structural, Clone, Copy, Debug)]
pub enum DiskFormat {
    Raw,
    Qcow2,
}

/// A VM's volume on an external array.
pub struct VVol {
    pub id: String,
    pub vm_id: u32,
    pub name: String,
    pub size_gib: u64,
    pub backend: StorageBackend,
    pub policy: VVolPolicy,
    /// The device once attached (`/dev/sdb`).
    pub local_dev: Option<String>,
}

/// What the VM asks of the array.
pub struct VVolPolicy {
    pub performance_tier: PerformanceTier,
    /// A cron-like schedule such as `0 */4 * * *`.
    pub snapshot_schedule: Option<String>,
    pub encryption: bool,
    pub replication: Option<ReplicationTarget>,
}

/// Performance class on the array.
#[derive(PartialEq, Eq, Structural, Clone, Copy, Debug)]
pub enum PerformanceTier {
    Platinum,
    Gold,
    Silver,
    Bronze,
}

/// Where a volume is replicated.
pub struct ReplicationTarget {
    pub target_cluster: String,
    pub rpo_minutes: u32,
}

/// Records the device a volume was attached as.
pub fn set_attached(v: &mut VVol, dev: String)
    ensures
        *final(v) == (VVol { local_dev: Some(dev), ..*old(v) }),
{
    v.local_dev = Some(dev);
}

/// `iscsiadm` arguments that discover the targets of a portal.
pub fn iscsi_discovery_args(portal: &str) -> (r: Vec<String>)
    ensures
        string_views(r@) == seq!["-m"@, "discovery"@, "-t"@, "sendtargets"@, "-p"@, portal@],
{
    let mut a: Vec<String> = Vec::new();
    push_str(&mut a, "-m");
    push_str(&mut a, "discovery");
    push_str(&mut a, "-t");
    push_str(&mut a, "sendtargets");
    push_str(&mut a, "-p");
    push_str(&mut a, portal);
    a
}

/// `iscsiadm` arguments that log in to a target.
pub fn iscsi_login_args(c: &IscsiConfig) -> (r: Vec<String>)
    ensures
        string_views(r@) == seq![
            "-m"@,
            "node"@,
            "-T"@,
            c.target_iqn@,
            "-p"@,
            c.portal@,
            "--login"@,
        ],
{
    let mut a: Vec<String> = Vec::new();
    push_str(&mut a, "-m");
    push_str(&mut a, "node");
    push_str(&mut a, "-T");
    push_str(&mut a, c.target_iqn.as_str());
    push_str(&mut a, "-p");
    push_str(&mut a, c.portal.as_str());
    push_str(&mut a, "--login");
    a
}

/// `iscsiadm` arguments that log out of a target.
pub fn iscsi_logout_args(c: &IscsiConfig) -> (r: Vec<String>)
    ensures
        string_views(r@) == seq!["-m"@, "node"@, "-T"@, c.target_iqn@, "--logout"@],
{
    let mut a: Vec<String> = Vec::new();
    push_str(&mut a, "-m");
    push_str(&mut a, "node");
    push_str(&mut a, "-T");
    push_str(&mut a, c.target_iqn.as_str());
    push_str(&mut a, "--logout");
    a
}

/// The first line of a session listing that names an attached SCSI disk.
pub open spec fn first_attached(ls: Seq<Seq<char>>) -> Option<Seq<char>>
    decreases ls.len(),
{
    if ls.len() == 0 {
        None
    } else if contains_seq(ls[0], "Attached scsi disk"@) {
        Some(ls[0])
    } else {
        first_attached(ls.drop_first())
    }
}

/// The device of an iSCSI session (`iscsiadm -m session -P 3`): `/dev/`
/// and the last word of the first line naming an attached SCSI disk.
pub open spec fn spec_iscsi_device(out: Seq<char>) -> Option<Seq<char>> {
    match first_attached(lines(out)) {
        Some(l) => {
            let w = words(l);
            if w.len() > 0 {
                Some("/dev/"@ + w.last())
            } else {
                None
            }
        },
        None => None,
    }
}

/// The block device an iSCSI login produced, or the error naming the
/// target.
pub fn find_iscsi_device(out: &str, iqn: &str) -> (r: Result<String, String>)
    ensures
        match spec_iscsi_device(out@) {
            Some(d) => r matches Ok(dev) && dev@ == d,
            None => r matches Err(e) && e@ == "Could not find iSCSI device for "@ + iqn@,
        },
{
    let ls = split_lines(str_chars(out).as_slice());
    let marker = str_chars("Attached scsi disk");
    let ghost all = char_views(ls@);
    let n = ls.len();
    let mut i: usize = 0;
    assert(all.subrange(0, n as int) =~= all);
    while i < n
        invariant
            i <= n,
            n == ls@.len(),
            all == char_views(ls@),
            all == lines(out@),
            marker@ == "Attached scsi disk"@,
            first_attached(all.subrange(i as int, n as int)) == first_attached(all),
        decreases n - i,
    {
        let ghost rest = all.subrange(i as int, n as int);
        assert(rest[0] == ls@[i as int]@);
        if contains_chars(ls[i].as_slice(), marker.as_slice()) {
            let w = split_words(ls[i].as_slice());
            if w.len() > 0 {
                let mut v = str_chars("/dev/");
                crate::text::extend_chars(&mut v, w[w.len() - 1].as_slice());
                assert(char_views(w@).last() == w@[w@.len() - 1]@);
                return Ok(string_from_chars(v.as_slice()));
            } else {
                let mut e = str_chars("Could not find iSCSI device for ");
                extend_str(&mut e, iqn);
                return Err(string_from_chars(e.as_slice()));
            }
        }
        assert(rest.drop_first() =~= all.subrange(i + 1, n as int));
        i = i + 1;
    }
    let mut e = str_chars("Could not find iSCSI device for ");
    extend_str(&mut e, iqn);
    Err(string_from_chars(e.as_slice()))
}

/// The transport's name for `nvme connect`.
pub open spec fn transport_text(t: NvmeTransport) -> Seq<char> {
    match t {
        NvmeTransport::Tcp => "tcp"@,
        NvmeTransport::Rdma => "rdma"@,
    }
}

/// `nvme` arguments that connect to a subsystem.
pub fn nvme_connect_args(c: &NvmeofConfig) -> (r: Vec<String>)
    ensures
        string_views(r@) == seq![
            "connect"@,
            "-t"@,
            transport_text(c.transport),
            "-a"@,
            c.addr@,
            "-s"@,
            dec(c.port as nat),
            "-n"@,
            c.nqn@,
        ],
{
    let mut a: Vec<String> = Vec::new();
    push_str(&mut a, "connect");
    push_str(&mut a, "-t");
    match c.transport {
        NvmeTransport::Tcp => push_str(&mut a, "tcp"),
        NvmeTransport::Rdma => push_str(&mut a, "rdma"),
    }
    push_str(&mut a, "-a");
    push_str(&mut a, c.addr.as_str());
    push_str(&mut a, "-s");
    let port = dec_string(c.port as u64);
    push_str(&mut a, port.as_str());
    push_str(&mut a, "-n");
    push_str(&mut a, c.nqn.as_str());
    a
}

/// `nvme` arguments that disconnect from a subsystem.
pub fn nvme_disconnect_args(c: &NvmeofConfig) -> (r: Vec<String>)
    ensures
        string_views(r@) == seq!["disconnect"@, "-n"@, c.nqn@],
{
    let mut a: Vec<String> = Vec::new();
    push_str(&mut a, "disconnect");
    push_str(&mut a, "-n");
    push_str(&mut a, c.nqn.as_str());
    a
}

/// One device of `nvme list -o json`: its subsystem NQN and device path,
/// when present as strings.
pub struct NvmeListEntry {
    pub subsystem_nqn: Option<String>,
    pub device_path: Option<String>,
}

/// Whether an entry belongs to `nqn` and has a path.
pub open spec fn entry_matches(e: NvmeListEntry, nqn: Seq<char>) -> bool {
    crate::import::holds(e.subsystem_nqn, nqn) && e.device_path is Some
}

/// Index of the first entry of `nqn` with a path, or the count.
pub open spec fn first_match(es: Seq<NvmeListEntry>, nqn: Seq<char>) -> int
    decreases es.len(),
{
    if es.len() == 0 {
        0
    } else if entry_matches(es[0], nqn) {
        0
    } else {
        1 + first_match(es.drop_first(), nqn)
    }
}

/// The device path of the subsystem `nqn` in the NVMe device list: the
/// path of the first device of that subsystem that has one.
pub fn find_nvme_device(devices: &[NvmeListEntry], nqn: &str) -> (r: Result<String, String>)
    ensures
        first_match(devices@, nqn@) < devices@.len() ==> (r matches Ok(p) && Some(p) == devices@[first_match(
            devices@,
            nqn@,
        )].device_path),
        first_match(devices@, nqn@) >= devices@.len() ==> (r matches Err(e) && e@
            == "NVMe device not found for NQN "@ + nqn@),
{
    let n = devices.len();
    let mut i: usize = 0;
    assert(devices@.subrange(0, n as int) =~= devices@);
    while i < n
        invariant
            i <= n,
            n == devices@.len(),
            first_match(devices@.subrange(i as int, n as int), nqn@) + i == first_match(devices@, nqn@),
        decreases n - i,
    {
        let ghost rest = devices@.subrange(i as int, n as int);
        assert(rest[0] == devices@[i as int]);
        let hit = match &devices[i].subsystem_nqn {
            Some(s) => crate::text::str_eq(s.as_str(), nqn),
            None => false,
        };
        if hit {
            match &devices[i].device_path {
                Some(p) => {
                    return Ok(p.clone());
                },
                None => {},
            }
        }
        assert(rest.drop_first() =~= devices@.subrange(i + 1, n as int));
        i = i + 1;
    }
    assert(devices@.subrange(n as int, n as int).len() == 0);
    let mut e = str_chars("NVMe device not found for NQN ");
    extend_str(&mut e, nqn);
    Err(string_from_chars(e.as_slice()))
}

/// The NFS version's mount option value.
pub open spec fn nfs_version_text(v: NfsVersion) -> Seq<char> {
    match v {
        NfsVersion::V3 => "3"@,
        NfsVersion::V41 => "4.1"@,
        NfsVersion::V42 => "4.2"@,
    }
}

/// Where a volume's NFS export is mounted.
pub fn nfs_mount_point(vol_id: &str) -> (r: String)
    ensures
        r@ == "/mnt/caiman/nfs/"@ + vol_id@,
{
    let mut v = str_chars("/mnt/caiman/nfs/");
    extend_str(&mut v, vol_id);
    string_from_chars(v.as_slice())
}

/// `mount` arguments for an NFS export: the configured options and the
/// protocol version, joined by commas; `SERVER:EXPORT`; the mount point.
pub fn nfs_mount_args(c: &NfsConfig, mount_point: &str) -> (r: Vec<String>)
    ensures
        string_views(r@) == seq![
            "-t"@,
            "nfs"@,
            "-o"@,
            joined(string_views(c.options@).push("vers="@ + nfs_version_text(c.version)), ","@),
            c.server@ + ":"@ + c.export_path@,
            mount_point@,
        ],
{
    let mut opts: Vec<String> = Vec::new();
    let n = c.options.len();
    let mut i: usize = 0;
    while i < n
        invariant
            i <= n,
            n == c.options@.len(),
            string_views(opts@) == string_views(c.options@.subrange(0, i as int)),
        decreases n - i,
    {
        push_str(&mut opts, c.options[i].as_str());
        assert(string_views(c.options@.subrange(0, i + 1)) =~= string_views(
            c.options@.subrange(0, i as int),
        ).push(c.options@[i as int]@));
        i = i + 1;
    }
    assert(c.options@.subrange(0, n as int) =~= c.options@);
    let mut ver = str_chars("vers=");
    match c.version {
        NfsVersion::V3 => extend_str(&mut ver, "3"),
        NfsVersion::V41 => extend_str(&mut ver, "4.1"),
        NfsVersion::V42 => extend_str(&mut ver, "4.2"),
    }
    let vs = string_from_chars(ver.as_slice());
    push_str(&mut opts, vs.as_str());
    let o = join_strings(opts.as_slice(), ",");
    let mut src = str_chars(c.server.as_str());
    extend_str(&mut src, ":");
    extend_str(&mut src, c.export_path.as_str());
    let srcs = string_from_chars(src.as_slice());
    let mut a: Vec<String> = Vec::new();
    push_str(&mut a, "-t");
    push_str(&mut a, "nfs");
    push_str(&mut a, "-o");
    push_str(&mut a, o.as_str());
    push_str(&mut a, srcs.as_str());
    push_str(&mut a, mount_point);
    a
}

/// Why a Fibre Channel attachment cannot be made here.
pub fn fc_attach_error() -> (r: String)
    ensures
        r@ == "FC attachment requires HBA and fc_transport kernel module — check /sys/class/fc_host/"@,
{
    "FC attachment requires HBA and fc_transport kernel module — check /sys/class/fc_host/".to_owned()
}

/// How a volume is attached, by its backend: an iSCSI login, an NVMe-oF
/// connect, an NFS mount at the volume's mount point, a Fibre Channel LUN
/// (which cannot be attached here), or a local device used as it is.
pub enum AttachRoute {
    Iscsi,
    Nvmeof,
    Nfs { mount_point: String },
    Fc { error: String },
    Local { device: String },
}

/// How volume `v` is attached: for NFS, where it is mounted; for Fibre
/// Channel, why it cannot be; for a local backend, its device path.
pub fn attach_route(v: &VVol) -> (r: AttachRoute)
    ensures
        match v.backend {
            StorageBackend::Iscsi(_) => r is Iscsi,
            StorageBackend::Nvmeof(_) => r is Nvmeof,
            StorageBackend::Nfs(_) => r matches AttachRoute::Nfs { mount_point } && mount_point@
                == "/mnt/caiman/nfs/"@ + v.id@,
            StorageBackend::Fc(_) => r matches AttachRoute::Fc { error } && error@
                == "FC attachment requires HBA and fc_transport kernel module — check /sys/class/fc_host/"@,
            StorageBackend::Local(c) => r matches AttachRoute::Local { device } && device@ == c.path@,
        },
{
    match &v.backend {
        StorageBackend::Iscsi(_) => AttachRoute::Iscsi,
        StorageBackend::Nvmeof(_) => AttachRoute::Nvmeof,
        StorageBackend::Nfs(_) => AttachRoute::Nfs { mount_point: nfs_mount_point(v.id.as_str()) },
        StorageBackend::Fc(_) => AttachRoute::Fc { error: fc_attach_error() },
        StorageBackend::Local(c) => AttachRoute::Local { device: c.path.clone() },
    }
}

} // verus!
