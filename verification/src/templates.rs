//! VM templates: sealed images that new VMs are cloned from as empty
//! copy-on-write overlays, and restores from snapshots. This module
//! decides the files and commands of template creation and cloning, who
//! may be cloned, the sizes a clone gets, and what a restore does.
use vstd::prelude::*;
use crate::snapshots::{join_paths, path_join};
use crate::text::{
    dec, dec_string, extend_str, find_char, index_of_char, push_str, slice_chars, str_chars,
    string_from_chars, string_views, strip_all_prefix, trim_start_matches, extend_chars,
};

verus! {

/// The guest operating system family.
#[derive(PartialEq, Eq, Structural, Clone, Copy, Debug)]
pub enum OsType {
    Linux,
    Windows,
    FreeBSD,
    Other,
}

/// The settings a template's clones start with.
pub struct TemplateDefaultCfg {
    pub mem_mib: u64,
    pub cpus: u8,
    pub disk_gib: u64,
    pub uplink: String,
}

/// Where a template's image came from.
#[derive(PartialEq, Eq, Structural, Clone, Copy, Debug)]
pub enum TemplateSource {
    Snapshot,
    Upload,
    Marketplace,
    Import,
}

/// What a restore starts from.
#[derive(PartialEq, Eq, Structural, Clone, Copy, Debug)]
pub enum RestoreSource {
    Snapshot,
    Backup,
    Template,
}

/// A restore request.
pub struct RestoreRequest {
    pub source_type: RestoreSource,
    pub source_id: String,
    /// The VM to restore into; none creates a new VM.
    pub target_vm_id: Option<String>,
    pub target_name: Option<String>,
    pub target_node: Option<String>,
    /// For a partial restore: the disks or volumes to restore.
    pub disks: Option<Vec<String>>,
    /// Overwrite the existing VM (with a target VM).
    pub overwrite: bool,
}

/// The operating system a template request names: `windows`, `freebsd`,
/// and Linux for anything else or nothing.
pub fn parse_os_type(s: Option<&str>) -> (r: OsType)
    ensures
        r == (match s {
            Some(t) => if t@ == "windows"@ {
                OsType::Windows
            } else if t@ == "freebsd"@ {
                OsType::FreeBSD
            } else {
                OsType::Linux
            },
            None => OsType::Linux,
        }),
{
    match s {
        Some(t) => if crate::text::str_eq(t, "windows") {
            OsType::Windows
        } else if crate::text::str_eq(t, "freebsd") {
            OsType::FreeBSD
        } else {
            OsType::Linux
        },
        None => OsType::Linux,
    }
}

/// The clone defaults of a new template: the requested memory and vCPUs
/// (512 MiB and one when not given), a 20 GiB disk, uplink `eth0`.
pub fn template_defaults(mem: Option<u64>, cpus: Option<u8>) -> (r: TemplateDefaultCfg)
    ensures
        r.mem_mib == (match mem {
            Some(m) => m,
            None => 512u64,
        }),
        r.cpus == (match cpus {
            Some(c) => c,
            None => 1u8,
        }),
        r.disk_gib == 20,
        r.uplink@ == "eth0"@,
{
    TemplateDefaultCfg {
        mem_mib: match mem {
            Some(m) => m,
            None => 512,
        },
        cpus: match cpus {
            Some(c) => c,
            None => 1,
        },
        disk_gib: 20,
        uplink: "eth0".to_owned(),
    }
}

/// The image file of a template: `base.qcow2` in its directory.
pub fn template_image_path(base_dir: &str, tmpl_id: &str) -> (r: String)
    ensures
        r@ == path_join(path_join(base_dir@, tmpl_id@), "base.qcow2"@),
{
    let dir = join_paths(base_dir, tmpl_id);
    join_paths(dir.as_str(), "base.qcow2")
}

/// The `qemu-img` arguments that flatten a snapshot chain into a single
/// zstd-compressed qcow2 image.
pub fn flatten_args(snap_path: &str, tmpl_path: &str) -> (r: Vec<String>)
    ensures
        string_views(r@) == seq![
            "convert"@,
            "-O"@,
            "qcow2"@,
            "-c"@,
            "-o"@,
            "compression_type=zstd"@,
            snap_path@,
            tmpl_path@,
        ],
{
    let mut a: Vec<String> = Vec::new();
    push_str(&mut a, "convert");
    push_str(&mut a, "-O");
    push_str(&mut a, "qcow2");
    push_str(&mut a, "-c");
    push_str(&mut a, "-o");
    push_str(&mut a, "compression_type=zstd");
    push_str(&mut a, snap_path);
    push_str(&mut a, tmpl_path);
    a
}

/// Only published templates can be cloned.
pub fn check_clonable(tmpl_id: &str, published: bool) -> (r: Result<(), String>)
    ensures
        published ==> r is Ok,
        !published ==> (r matches Err(e) && e@ == "Template "@ + tmpl_id@ + " is not published yet"@),
{
    if published {
        Ok(())
    } else {
        let mut v = str_chars("Template ");
        extend_str(&mut v, tmpl_id);
        extend_str(&mut v, " is not published yet");
        Err(string_from_chars(v.as_slice()))
    }
}

/// The ID of a clone: `vm-` and the first group of a UUID (the text
/// before its first `-`).
pub open spec fn spec_clone_vm_id(uuid: Seq<char>) -> Seq<char> {
    "vm-"@ + uuid.subrange(0, index_of_char(uuid, '-'))
}

/// The ID of a clone, from a fresh UUID.
pub fn clone_vm_id(uuid: &str) -> (r: String)
    ensures
        r@ == spec_clone_vm_id(uuid@),
{
    let u = str_chars(uuid);
    let i = find_char(u.as_slice(), '-');
    let head = slice_chars(u.as_slice(), 0, i);
    let mut v = str_chars("vm-");
    extend_chars(&mut v, head.as_slice());
    string_from_chars(v.as_slice())
}

/// The files of a clone: its directory under `/var/lib/caiman/disks`, its
/// overlay disk, the cloud-init ISO and the user-data file beside it.
pub struct ClonePaths {
    pub vm_dir: String,
    pub disk: String,
    pub cloud_init_iso: String,
    pub user_data: String,
}

/// The files of the clone `vm_id`.
pub fn clone_paths(vm_id: &str) -> (r: ClonePaths)
    ensures
        r.vm_dir@ == path_join("/var/lib/caiman/disks"@, vm_id@),
        r.disk@ == path_join(r.vm_dir@, "disk0.qcow2"@),
        r.cloud_init_iso@ == path_join(r.vm_dir@, "cloud-init.iso"@),
        r.user_data@ == path_join(r.vm_dir@, "cloud-init.yml"@),
{
    let vm_dir = join_paths("/var/lib/caiman/disks", vm_id);
    let disk = join_paths(vm_dir.as_str(), "disk0.qcow2");
    let iso = join_paths(vm_dir.as_str(), "cloud-init.iso");
    let ud = join_paths(vm_dir.as_str(), "cloud-init.yml");
    ClonePaths { vm_dir, disk, cloud_init_iso: iso, user_data: ud }
}

/// The memory and vCPUs of a clone: the request's, else the template's.
pub fn clone_size(req_mem: Option<u64>, req_cpus: Option<u8>, d: &TemplateDefaultCfg) -> (r: (u64, u8))
    ensures
        r.0 == (match req_mem {
            Some(m) => m,
            None => d.mem_mib,
        }),
        r.1 == (match req_cpus {
            Some(c) => c,
            None => d.cpus,
        }),
{
    (
        match req_mem {
            Some(m) => m,
            None => d.mem_mib,
        },
        match req_cpus {
            Some(c) => c,
            None => d.cpus,
        },
    )
}

/// The VMM arguments that start a clone.
pub fn clone_vmm_args(vm_id: &str, mem_mib: u64, cpus: u8) -> (r: Vec<String>)
    ensures
        string_views(r@) == seq![
            "--vm-id="@ + strip_all_prefix(vm_id@, "vm-"@),
            "--kernel=/var/lib/caiman/vmlinux"@,
            "--mem-mib="@ + dec(mem_mib as nat),
            "--cpus="@ + dec(cpus as nat),
        ],
{
    let mut a: Vec<String> = Vec::new();
    let mut v = str_chars("--vm-id=");
    let id = str_chars(vm_id);
    let p = str_chars("vm-");
    let num = trim_start_matches(id.as_slice(), p.as_slice());
    extend_chars(&mut v, num.as_slice());
    let vs = string_from_chars(v.as_slice());
    push_str(&mut a, vs.as_str());
    push_str(&mut a, "--kernel=/var/lib/caiman/vmlinux");
    let mut m = str_chars("--mem-mib=");
    let ms = dec_string(mem_mib);
    extend_str(&mut m, ms.as_str());
    let mss = string_from_chars(m.as_slice());
    push_str(&mut a, mss.as_str());
    let mut c = str_chars("--cpus=");
    let cs = dec_string(cpus as u64);
    extend_str(&mut c, cs.as_str());
    let css = string_from_chars(c.as_slice());
    push_str(&mut a, css.as_str());
    a
}

/// The `cloud-localds` arguments that build a cloud-init ISO.
pub fn cloud_localds_args(iso: &str, user_data: &str) -> (r: Vec<String>)
    ensures
        string_views(r@) == seq![iso@, user_data@],
{
    let mut a: Vec<String> = Vec::new();
    push_str(&mut a, iso);
    push_str(&mut a, user_data);
    a
}

/// The `genisoimage` arguments used when `cloud-localds` is missing.
pub fn genisoimage_args(iso: &str, user_data: &str) -> (r: Vec<String>)
    ensures
        string_views(r@) == seq![
            "-output"@,
            iso@,
            "-volid"@,
            "cidata"@,
            "-joliet"@,
            "-rock"@,
            user_data@,
        ],
{
    let mut a: Vec<String> = Vec::new();
    push_str(&mut a, "-output");
    push_str(&mut a, iso);
    push_str(&mut a, "-volid");
    push_str(&mut a, "cidata");
    push_str(&mut a, "-joliet");
    push_str(&mut a, "-rock");
    push_str(&mut a, user_data);
    a
}

/// What a snapshot restore does.
pub enum RestorePlan {
    /// Stop the VM, replace its backing chain, start it again.
    InPlace { vm_id: String },
    /// Create a new VM from the chain.
    NewVm { name: String, node: Option<String> },
}

/// A restore goes into the target VM when one is named; otherwise it
/// creates a new VM, named as requested or after the snapshot's VM.
pub fn restore_plan(
    target_vm_id: Option<&str>,
    target_name: Option<&str>,
    target_node: Option<&str>,
    snap_vm_name: &str,
) -> (r: RestorePlan)
    ensures
        match target_vm_id {
            Some(v) => r matches RestorePlan::InPlace { vm_id } && vm_id@ == v@,
            None => r matches RestorePlan::NewVm { name, node } && name@ == (match target_name {
                Some(n) => n@,
                None => snap_vm_name@,
            }) && crate::vm::opt_view(node) == (match target_node {
                Some(n) => Some(n@),
                None => None,
            }),
        },
{
    match target_vm_id {
        Some(v) => RestorePlan::InPlace { vm_id: v.to_owned() },
        None => RestorePlan::NewVm {
            name: match target_name {
                Some(n) => n.to_owned(),
                None => snap_vm_name.to_owned(),
            },
            node: match target_node {
                Some(n) => Some(n.to_owned()),
                None => None,
            },
        },
    }
}

/// The message of a completed snapshot restore.
pub fn restore_message(snap_name: &str) -> (r: String)
    ensures
        r@ == "Restored from snapshot "@ + snap_name@,
{
    let mut v = str_chars("Restored from snapshot ");
    extend_str(&mut v, snap_name);
    string_from_chars(v.as_slice())
}

} // verus!
