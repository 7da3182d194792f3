//! Importing VMs from other platforms: which connector a source name
//! selects, the credentials each connector needs, how each platform's
//! description of a VM becomes a `SourceVm` (with the platform's defaults
//! for what it leaves out), reading `virsh` output, and the reply to an
//! import. The HTTP and SSH conversations are the caller's; it hands the
//! fields it read here.
use vstd::prelude::*;
use crate::text::{
    all_digits, dec, dec_string, dec_value, dec_value_capped, extend_str, find_char, index_of_char,
    lines, lowercase, parse_u32, push_str, slice_chars, spec_parse_u32, split_lines, split_words,
    str_chars, string_from_chars, string_views, to_lowercase, trim, trim_chars, words, char_views,
    has_prefix, starts_with, first_with_prefix, find_with_prefix,
};

verus! {

/// A request to list the VMs of a source platform.
pub struct DiscoverRequest {
    /// `proxmox`, `vsphere`, `libvirt`, `aws`, `openstack`, `ovirt`,
    /// `olvm`, `nutanix`, `oraclevm`, `harvester` or `ovf`.
    pub source: String,
    pub credentials: Credentials,
}

/// How to reach a source platform.
pub struct Credentials {
    pub host: Option<String>,
    pub user: Option<String>,
    pub pass: Option<String>,
    /// The Proxmox node, or the OpenStack project.
    pub port: Option<String>,
    pub key: Option<String>,
    pub secret: Option<String>,
    pub region: Option<String>,
}

/// A request to import one VM.
pub struct ImportVmRequest {
    pub source: String,
    pub vm: SourceVm,
}

/// A VM as a source platform describes it.
pub struct SourceVm {
    pub id: String,
    pub source_id: String,
    pub name: String,
    pub cpus: u32,
    pub mem_mib: u32,
    pub disk_gb: u32,
    pub os: String,
    pub status: String,
}

/// The VMs found on a source.
pub struct DiscoverResponse {
    pub source: String,
    pub vms: Vec<SourceVm>,
}

/// The reply to an import.
pub struct ImportResult {
    pub vm_id: String,
    pub name: String,
    pub status: String,
    pub message: String,
}

/// The platforms VMs are imported from.
#[derive(PartialEq, Eq, Structural, Clone, Copy, Debug)]
pub enum SourceKind {
    Proxmox,
    Vsphere,
    Libvirt,
    Aws,
    Openstack,
    Ovirt,
    Nutanix,
    Oraclevm,
    Harvester,
    Ovf,
}

/// The connector a source name selects (`olvm` is oVirt's).
pub open spec fn spec_source_kind(s: Seq<char>) -> Option<SourceKind> {
    if s == "proxmox"@ {
        Some(SourceKind::Proxmox)
    } else if s == "vsphere"@ {
        Some(SourceKind::Vsphere)
    } else if s == "libvirt"@ {
        Some(SourceKind::Libvirt)
    } else if s == "aws"@ {
        Some(SourceKind::Aws)
    } else if s == "openstack"@ {
        Some(SourceKind::Openstack)
    } else if s == "ovirt"@ || s == "olvm"@ {
        Some(SourceKind::Ovirt)
    } else if s == "nutanix"@ {
        Some(SourceKind::Nutanix)
    } else if s == "oraclevm"@ {
        Some(SourceKind::Oraclevm)
    } else if s == "harvester"@ {
        Some(SourceKind::Harvester)
    } else if s == "ovf"@ {
        Some(SourceKind::Ovf)
    } else {
        None
    }
}

/// Each documented source name selects its own connector, and no other
/// name selects one: `proxmox`, `vsphere`, `libvirt`, `aws`, `openstack`,
/// `ovirt` or `olvm`, `nutanix`, `oraclevm`, `harvester`, `ovf`.
pub proof fn lemma_source_names(s: Seq<char>)
    ensures
        spec_source_kind(s) == Some(SourceKind::Proxmox) <==> s == "proxmox"@,
        spec_source_kind(s) == Some(SourceKind::Vsphere) <==> s == "vsphere"@,
        spec_source_kind(s) == Some(SourceKind::Libvirt) <==> s == "libvirt"@,
        spec_source_kind(s) == Some(SourceKind::Aws) <==> s == "aws"@,
        spec_source_kind(s) == Some(SourceKind::Openstack) <==> s == "openstack"@,
        spec_source_kind(s) == Some(SourceKind::Ovirt) <==> (s == "ovirt"@ || s == "olvm"@),
        spec_source_kind(s) == Some(SourceKind::Nutanix) <==> s == "nutanix"@,
        spec_source_kind(s) == Some(SourceKind::Oraclevm) <==> s == "oraclevm"@,
        spec_source_kind(s) == Some(SourceKind::Harvester) <==> s == "harvester"@,
        spec_source_kind(s) == Some(SourceKind::Ovf) <==> s == "ovf"@,
{
    reveal_strlit("proxmox");
    reveal_strlit("vsphere");
    reveal_strlit("libvirt");
    reveal_strlit("aws");
    reveal_strlit("openstack");
    reveal_strlit("ovirt");
    reveal_strlit("olvm");
    reveal_strlit("nutanix");
    reveal_strlit("oraclevm");
    reveal_strlit("harvester");
    reveal_strlit("ovf");
    assert("proxmox"@[0] != "vsphere"@[0] && "proxmox"@[0] != "libvirt"@[0] && "proxmox"@[0]
        != "nutanix"@[0]);
    assert("vsphere"@[0] != "libvirt"@[0] && "vsphere"@[0] != "nutanix"@[0]);
    assert("libvirt"@[0] != "nutanix"@[0]);
    assert("openstack"@[0] != "harvester"@[0]);
    assert("aws"@[0] != "ovf"@[0]);
    assert("ovirt"@.len() == 5 && "olvm"@.len() == 4 && "oraclevm"@.len() == 8);
    assert("proxmox"@.len() == 7 && "vsphere"@.len() == 7 && "libvirt"@.len() == 7
        && "nutanix"@.len() == 7);
    assert("aws"@.len() == 3 && "ovf"@.len() == 3 && "openstack"@.len() == 9
        && "harvester"@.len() == 9);
}

fn kind_named(s: &str) -> (r: Option<SourceKind>)
    ensures
        r == spec_source_kind(s@),
{
    if crate::text::str_eq(s, "proxmox") {
        Some(SourceKind::Proxmox)
    } else if crate::text::str_eq(s, "vsphere") {
        Some(SourceKind::Vsphere)
    } else if crate::text::str_eq(s, "libvirt") {
        Some(SourceKind::Libvirt)
    } else if crate::text::str_eq(s, "aws") {
        Some(SourceKind::Aws)
    } else if crate::text::str_eq(s, "openstack") {
        Some(SourceKind::Openstack)
    } else if crate::text::str_eq(s, "ovirt") || crate::text::str_eq(s, "olvm") {
        Some(SourceKind::Ovirt)
    } else if crate::text::str_eq(s, "nutanix") {
        Some(SourceKind::Nutanix)
    } else if crate::text::str_eq(s, "oraclevm") {
        Some(SourceKind::Oraclevm)
    } else if crate::text::str_eq(s, "harvester") {
        Some(SourceKind::Harvester)
    } else if crate::text::str_eq(s, "ovf") {
        Some(SourceKind::Ovf)
    } else {
        None
    }
}

fn unknown_source(s: &str) -> (r: String)
    ensures
        r@ == "unknown source: "@ + s@,
{
    let mut v = str_chars("unknown source: ");
    extend_str(&mut v, s);
    string_from_chars(v.as_slice())
}

/// The connector that discovers VMs for a source name; any other name is
/// answered with `unknown source: NAME`.
pub fn discover_source(s: &str) -> (r: Result<SourceKind, String>)
    ensures
        match spec_source_kind(s@) {
            Some(k) => r == Ok::<SourceKind, String>(k),
            None => r matches Err(e) && e@ == "unknown source: "@ + s@,
        },
        r == Ok::<SourceKind, String>(SourceKind::Vsphere) <==> s@ == "vsphere"@,
        r == Ok::<SourceKind, String>(SourceKind::Libvirt) <==> s@ == "libvirt"@,
        r == Ok::<SourceKind, String>(SourceKind::Aws) <==> s@ == "aws"@,
        r == Ok::<SourceKind, String>(SourceKind::Openstack) <==> s@ == "openstack"@,
        r == Ok::<SourceKind, String>(SourceKind::Ovirt) <==> (s@ == "ovirt"@ || s@ == "olvm"@),
        r == Ok::<SourceKind, String>(SourceKind::Nutanix) <==> s@ == "nutanix"@,
        r == Ok::<SourceKind, String>(SourceKind::Oraclevm) <==> s@ == "oraclevm"@,
        r == Ok::<SourceKind, String>(SourceKind::Proxmox) <==> s@ == "proxmox"@,
        r == Ok::<SourceKind, String>(SourceKind::Harvester) <==> s@ == "harvester"@,
        r == Ok::<SourceKind, String>(SourceKind::Ovf) <==> s@ == "ovf"@,
{
    proof {
        lemma_source_names(s@);
    }
    match kind_named(s) {
        Some(k) => Ok(k),
        None => Err(unknown_source(s)),
    }
}

/// The connector that imports from a source; OVF sources have none.
pub fn import_source(s: &str) -> (r: Result<SourceKind, String>)
    ensures
        match spec_source_kind(s@) {
            Some(k) => if k == SourceKind::Ovf {
                r matches Err(e) && e@ == "unknown source: "@ + s@
            } else {
                r == Ok::<SourceKind, String>(k)
            },
            None => r matches Err(e) && e@ == "unknown source: "@ + s@,
        },
{
    match kind_named(s) {
        Some(SourceKind::Ovf) => Err(unknown_source(s)),
        Some(k) => Ok(k),
        None => Err(unknown_source(s)),
    }
}

/// A copy of a field that is required, or `msg` when it is missing.
pub fn required(field: &Option<String>, msg: &str) -> (r: Result<String, String>)
    ensures
        match *field {
            Some(v) => r == Ok::<String, String>(v),
            None => r matches Err(e) && e@ == msg@,
        },
{
    match field {
        Some(v) => Ok(v.clone()),
        None => Err(msg.to_owned()),
    }
}

/// The host, user and password an API connector logs in with.
pub struct ApiLogin {
    pub host: String,
    pub user: String,
    pub pass: String,
}

/// The login of an API connector: the host (missing: `host_msg`), the
/// user (`user required`), the password (`pass required`), checked in
/// that order.
pub fn api_login(creds: &Credentials, host_msg: &str) -> (r: Result<ApiLogin, String>)
    ensures
        creds.host is None ==> (r matches Err(e) && e@ == host_msg@),
        creds.host is Some && creds.user is None ==> (r matches Err(e) && e@ == "user required"@),
        creds.host is Some && creds.user is Some && creds.pass is None ==> (r matches Err(e) && e@
            == "pass required"@),
        creds.host is Some && creds.user is Some && creds.pass is Some ==> (r matches Ok(l)
            && l.host == creds.host->0 && l.user == creds.user->0 && l.pass == creds.pass->0),
{
    let host = match required(&creds.host, host_msg) {
        Ok(h) => h,
        Err(e) => {
            return Err(e);
        },
    };
    let user = match required(&creds.user, "user required") {
        Ok(u) => u,
        Err(e) => {
            return Err(e);
        },
    };
    let pass = match required(&creds.pass, "pass required") {
        Ok(p) => p,
        Err(e) => {
            return Err(e);
        },
    };
    Ok(ApiLogin { host, user, pass })
}

/// The view of an optional string, or a default.
pub open spec fn or_text(o: Option<String>, d: Seq<char>) -> Seq<char> {
    match o {
        Some(s) => s@,
        None => d,
    }
}

/// An optional number, or a default.
pub open spec fn or_num(o: Option<u64>, d: u64) -> u64 {
    match o {
        Some(n) => n,
        None => d,
    }
}

fn text_or(o: &Option<String>, d: &str) -> (r: String)
    ensures
        r@ == or_text(*o, d@),
{
    match o {
        Some(s) => s.clone(),
        None => d.to_owned(),
    }
}

fn text_or_empty(o: &Option<String>) -> (r: String)
    ensures
        r@ == or_text(*o, Seq::empty()),
{
    match o {
        Some(s) => s.clone(),
        None => String::new(),
    }
}

fn num_or(o: Option<u64>, d: u64) -> (r: u64)
    ensures
        r == or_num(o, d),
{
    match o {
        Some(n) => n,
        None => d,
    }
}

/// A VM whose ID on the source is also its ID here.
fn source_vm(id: String, name: String, cpus: u32, mem_mib: u32, disk_gb: u32, os: &str, status: String) -> (r: SourceVm)
    ensures
        r.id@ == id@,
        r.source_id@ == id@,
        r.name == name,
        r.cpus == cpus,
        r.mem_mib == mem_mib,
        r.disk_gb == disk_gb,
        r.os@ == os@,
        r.status == status,
{
    SourceVm {
        id: id.clone(),
        source_id: id,
        name,
        cpus,
        mem_mib,
        disk_gb,
        os: os.to_owned(),
        status,
    }
}

/// A Proxmox VM: the VM number as its ID; one vCPU, 512 MiB and a 10 GiB
/// disk when not given; sizes converted from bytes and truncated to 32
/// bits.
pub fn proxmox_vm(
    vmid: Option<u64>,
    name: &Option<String>,
    cpus: Option<u64>,
    maxmem: Option<u64>,
    maxdisk: Option<u64>,
    status: &Option<String>,
) -> (r: SourceVm)
    ensures
        r.id@ == dec(or_num(vmid, 0) as nat),
        r.source_id@ == r.id@,
        r.name@ == or_text(*name, "unknown"@),
        r.cpus == or_num(cpus, 1) as u32,
        r.mem_mib == (or_num(maxmem, 536870912) / 1024 / 1024) as u32,
        r.disk_gb == (or_num(maxdisk, 10737418240) / 1024 / 1024 / 1024) as u32,
        r.os@ == "Linux"@,
        r.status@ == or_text(*status, "unknown"@),
{
    let id = dec_string(num_or(vmid, 0));
    let mem = num_or(maxmem, 536870912) / 1024 / 1024;
    let disk = num_or(maxdisk, 10737418240) / 1024 / 1024 / 1024;
    source_vm(
        id,
        text_or(name, "unknown"),
        num_or(cpus, 1) as u32,
        mem as u32,
        disk as u32,
        "Linux",
        text_or(status, "unknown"),
    )
}

/// A vSphere VM: its `vm` reference as ID; one vCPU and 512 MiB when not
/// given; a 40 GB disk; the power state lowercased.
pub fn vsphere_vm(
    vm: &Option<String>,
    name: &Option<String>,
    cpu_count: Option<u64>,
    memory_mib: Option<u64>,
    power_state: &Option<String>,
) -> (r: SourceVm)
    ensures
        r.id@ == or_text(*vm, Seq::empty()),
        r.source_id@ == r.id@,
        r.name@ == or_text(*name, "unknown"@),
        r.cpus == or_num(cpu_count, 1) as u32,
        r.mem_mib == or_num(memory_mib, 512) as u32,
        r.disk_gb == 40,
        r.os@ == "Unknown"@,
        r.status@ == lowercase(or_text(*power_state, "UNKNOWN"@)),
{
    let ps = text_or(power_state, "UNKNOWN");
    source_vm(
        text_or_empty(vm),
        text_or(name, "unknown"),
        num_or(cpu_count, 1) as u32,
        num_or(memory_mib, 512) as u32,
        40,
        "Unknown",
        to_lowercase(ps.as_str()),
    )
}

/// The region an AWS discovery lists: the one given, else `us-east-1`.
pub fn aws_region(region: &Option<String>) -> (r: String)
    ensures
        r@ == or_text(*region, "us-east-1"@),
{
    text_or(region, "us-east-1")
}

/// The JMESPath query that reduces `describe-instances` to each
/// instance's ID, type, state and `Name` tag.
pub open spec fn aws_instance_query() -> Seq<char> {
    "Reservations[*].Instances[*].{id:InstanceId,type:InstanceType,state:State.Name,name:Tags[?Key=='Name']|[0].Value}"@
}

/// `aws` CLI arguments that list the EC2 instances of `region` as JSON.
pub fn aws_describe_args(region: &str) -> (r: Vec<String>)
    ensures
        string_views(r@) == seq![
            "ec2"@,
            "describe-instances"@,
            "--region"@,
            region@,
            "--query"@,
            aws_instance_query(),
            "--output"@,
            "json"@,
        ],
{
    let mut a: Vec<String> = Vec::new();
    push_str(&mut a, "ec2");
    push_str(&mut a, "describe-instances");
    push_str(&mut a, "--region");
    push_str(&mut a, region);
    push_str(&mut a, "--query");
    push_str(
        &mut a,
        "Reservations[*].Instances[*].{id:InstanceId,type:InstanceType,state:State.Name,name:Tags[?Key=='Name']|[0].Value}",
    );
    push_str(&mut a, "--output");
    push_str(&mut a, "json");
    assert(string_views(a@) =~= seq![
        "ec2"@,
        "describe-instances"@,
        "--region"@,
        region@,
        "--query"@,
        aws_instance_query(),
        "--output"@,
        "json"@,
    ]);
    a
}

/// An EC2 instance: named by its `Name` tag or else its ID; two vCPUs,
/// 2048 MiB and a 40 GB disk assumed.
pub fn aws_vm(id: &Option<String>, name: &Option<String>, state: &Option<String>) -> (r: SourceVm)
    ensures
        r.id@ == or_text(*id, Seq::empty()),
        r.source_id@ == r.id@,
        r.name@ == or_text(*name, r.id@),
        r.cpus == 2,
        r.mem_mib == 2048,
        r.disk_gb == 40,
        r.os@ == "Unknown"@,
        r.status@ == or_text(*state, "unknown"@),
{
    let i = text_or_empty(id);
    let n = text_or(name, i.as_str());
    source_vm(i, n, 2, 2048, 40, "Unknown", text_or(state, "unknown"))
}

/// An OpenStack server: the flavor's vCPUs, RAM and disk (one vCPU,
/// 512 MiB and 10 GB when not given); the status lowercased.
pub fn openstack_vm(
    id: &Option<String>,
    name: &Option<String>,
    status: &Option<String>,
    vcpus: Option<u64>,
    ram: Option<u64>,
    disk: Option<u64>,
) -> (r: SourceVm)
    ensures
        r.id@ == or_text(*id, Seq::empty()),
        r.source_id@ == r.id@,
        r.name@ == or_text(*name, "unknown"@),
        r.cpus == or_num(vcpus, 1) as u32,
        r.mem_mib == or_num(ram, 512) as u32,
        r.disk_gb == or_num(disk, 10) as u32,
        r.os@ == "Linux"@,
        r.status@ == lowercase(or_text(*status, "unknown"@)),
{
    let st = text_or(status, "unknown");
    source_vm(
        text_or_empty(id),
        text_or(name, "unknown"),
        num_or(vcpus, 1) as u32,
        num_or(ram, 512) as u32,
        num_or(disk, 10) as u32,
        "Linux",
        to_lowercase(st.as_str()),
    )
}

/// An oVirt VM: its topology's cores (one when not given), its memory in
/// bytes (512 MiB when not given); a 40 GB disk; the status lowercased.
pub fn ovirt_vm(
    id: &Option<String>,
    name: &Option<String>,
    status: &Option<String>,
    cores: Option<u64>,
    memory: Option<u64>,
) -> (r: SourceVm)
    ensures
        r.id@ == or_text(*id, Seq::empty()),
        r.source_id@ == r.id@,
        r.name@ == or_text(*name, "unknown"@),
        r.cpus == or_num(cores, 1) as u32,
        r.mem_mib == (or_num(memory, 536870912) / 1024 / 1024) as u32,
        r.disk_gb == 40,
        r.os@ == "Linux"@,
        r.status@ == lowercase(or_text(*status, "unknown"@)),
{
    let st = text_or(status, "unknown");
    source_vm(
        text_or_empty(id),
        text_or(name, "unknown"),
        num_or(cores, 1) as u32,
        (num_or(memory, 536870912) / 1024 / 1024) as u32,
        40,
        "Linux",
        to_lowercase(st.as_str()),
    )
}

/// A Nutanix VM: its UUID as ID; vCPUs per socket and memory in MiB (one
/// and 512 when not given); a 40 GB disk; the state lowercased.
pub fn nutanix_vm(
    uuid: &Option<String>,
    name: &Option<String>,
    vcpus: Option<u64>,
    memory_mib: Option<u64>,
    state: &Option<String>,
) -> (r: SourceVm)
    ensures
        r.id@ == or_text(*uuid, Seq::empty()),
        r.source_id@ == r.id@,
        r.name@ == or_text(*name, "unknown"@),
        r.cpus == or_num(vcpus, 1) as u32,
        r.mem_mib == or_num(memory_mib, 512) as u32,
        r.disk_gb == 40,
        r.os@ == "Linux"@,
        r.status@ == lowercase(or_text(*state, "unknown"@)),
{
    let st = text_or(state, "unknown");
    source_vm(
        text_or_empty(uuid),
        text_or(name, "unknown"),
        num_or(vcpus, 1) as u32,
        num_or(memory_mib, 512) as u32,
        40,
        "Linux",
        to_lowercase(st.as_str()),
    )
}

/// An Oracle VM guest: its memory in KiB (512 MiB when not given); one
/// vCPU when not given; a 40 GB disk; Oracle Linux; the run state
/// lowercased.
pub fn oraclevm_vm(
    id: &Option<String>,
    name: &Option<String>,
    cpu_count: Option<u64>,
    memory_kib: Option<u64>,
    run_state: &Option<String>,
) -> (r: SourceVm)
    ensures
        r.id@ == or_text(*id, Seq::empty()),
        r.source_id@ == r.id@,
        r.name@ == or_text(*name, "unknown"@),
        r.cpus == or_num(cpu_count, 1) as u32,
        r.mem_mib == (or_num(memory_kib, 524288) / 1024) as u32,
        r.disk_gb == 40,
        r.os@ == "Oracle Linux"@,
        r.status@ == lowercase(or_text(*run_state, "unknown"@)),
{
    let st = text_or(run_state, "unknown");
    source_vm(
        text_or_empty(id),
        text_or(name, "unknown"),
        num_or(cpu_count, 1) as u32,
        (num_or(memory_kib, 524288) / 1024) as u32,
        40,
        "Oracle Linux",
        to_lowercase(st.as_str()),
    )
}

/// A Harvester (KubeVirt) VM: `NAMESPACE/NAME` as its ID (namespace
/// `default`, name `unknown` when not given); one core when not given;
/// the memory already converted to MiB; the printable status lowercased.
pub fn harvester_vm(
    name: &Option<String>,
    namespace: &Option<String>,
    cores: Option<u64>,
    mem_mib: u32,
    status: &Option<String>,
) -> (r: SourceVm)
    ensures
        r.id@ == or_text(*namespace, "default"@) + "/"@ + or_text(*name, "unknown"@),
        r.source_id@ == r.id@,
        r.name@ == or_text(*name, "unknown"@),
        r.cpus == or_num(cores, 1) as u32,
        r.mem_mib == mem_mib,
        r.disk_gb == 40,
        r.os@ == "Linux"@,
        r.status@ == lowercase(or_text(*status, "unknown"@)),
{
    let n = text_or(name, "unknown");
    let ns = text_or(namespace, "default");
    let mut v = str_chars(ns.as_str());
    extend_str(&mut v, "/");
    extend_str(&mut v, n.as_str());
    let id = string_from_chars(v.as_slice());
    let st = text_or(status, "unknown");
    source_vm(id, n, num_or(cores, 1) as u32, mem_mib, 40, "Linux", to_lowercase(st.as_str()))
}

/// Whether a character belongs to a quantity's number: an ASCII digit or `.`.
pub open spec fn number_char() -> spec_fn(char) -> bool {
    |c: char| ('0' <= c <= '9') || c == '.'
}

/// Whether a character belongs to a quantity's suffix.
pub open spec fn suffix_char() -> spec_fn(char) -> bool {
    |c: char| !(('0' <= c <= '9') || c == '.')
}

/// The characters of `s` that are ASCII digits or `.`, in order.
pub open spec fn number_part(s: Seq<char>) -> Seq<char> {
    s.filter(number_char())
}

/// The characters of `s` that are neither ASCII digits nor `.`.
pub open spec fn suffix_part(s: Seq<char>) -> Seq<char> {
    s.filter(suffix_char())
}

/// `n` as an unsigned 32-bit value, saturated.
pub open spec fn sat32(n: nat) -> u32 {
    if n > u32::MAX {
        u32::MAX
    } else {
        n as u32
    }
}

/// Whether a quantity's number holds two `.` or more.
pub open spec fn two_dots(ds: Seq<char>) -> bool {
    exists|i: int, j: int| 0 <= i < j < ds.len() && ds[i] == '.' && ds[j] == '.'
}

/// Whether a quantity's number is a fraction: one `.` beside digits.
pub open spec fn is_fraction(ds: Seq<char>) -> bool {
    ds.contains('.') && !two_dots(ds) && ds.len() > 1
}

/// A Kubernetes memory quantity in MiB, for a number that is not a
/// fraction: the number (512 when it does not read as one: no digits, a
/// lone `.`, or two `.` or more) in units of its suffix (`Gi` 2^30 bytes,
/// `G` 10^9, `Mi` 2^20, `M` 10^6, `Ki` 2^10; anything else taken as MiB),
/// converted to MiB, rounded down and saturated.
pub open spec fn spec_k8s_mem(s: Seq<char>) -> u32 {
    let ds = number_part(s);
    let n = if ds.len() == 0 || ds.contains('.') {
        512nat
    } else {
        dec_value(ds)
    };
    let suf = suffix_part(s);
    if suf == "Gi"@ {
        sat32(n * 1024)
    } else if suf == "G"@ {
        sat32(n * 1000000000 / 1048576)
    } else if suf == "Mi"@ {
        sat32(n)
    } else if suf == "M"@ {
        sat32(n * 1000000 / 1048576)
    } else if suf == "Ki"@ {
        sat32(n / 1024)
    } else {
        sat32(n)
    }
}

proof fn lemma_filter_step(s: Seq<char>, i: int, p: spec_fn(char) -> bool)
    requires
        0 <= i < s.len(),
    ensures
        s.subrange(0, i + 1).filter(p) == if p(s[i]) {
            s.subrange(0, i).filter(p).push(s[i])
        } else {
            s.subrange(0, i).filter(p)
        },
{
    s.subrange(0, i).lemma_filter_push(s[i], p);
    assert(s.subrange(0, i).push(s[i]) =~= s.subrange(0, i + 1));
}

/// A Kubernetes memory quantity (`512Mi`, `2Gi`, `1024M`) in MiB, when its
/// number is not a fraction; `None` for a fraction (`1.5Gi`), whose value
/// is a floating-point computation left to the caller.
pub fn parse_k8s_mem(s: &str) -> (r: Option<u32>)
    ensures
        !is_fraction(number_part(s@)) ==> r == Some(spec_k8s_mem(s@)),
        is_fraction(number_part(s@)) ==> r is None,
{
    let c = str_chars(s);
    let ghost pn = number_char();
    let ghost ps = suffix_char();
    let mut num: Vec<char> = Vec::new();
    let mut suf: Vec<char> = Vec::new();
    let n = c.len();
    let mut i: usize = 0;
    assert(c@.subrange(0, 0).filter(pn) =~= Seq::<char>::empty()) by {
        reveal_with_fuel(Seq::filter, 1);
    }
    assert(c@.subrange(0, 0).filter(ps) =~= Seq::<char>::empty()) by {
        reveal_with_fuel(Seq::filter, 1);
    }
    while i < n
        invariant
            i <= n,
            n == c@.len(),
            c@ == s@,
            pn == number_char(),
            ps == suffix_char(),
            num@ == c@.subrange(0, i as int).filter(pn),
            suf@ == c@.subrange(0, i as int).filter(ps),
        decreases n - i,
    {
        proof {
            lemma_filter_step(c@, i as int, pn);
            lemma_filter_step(c@, i as int, ps);
        }
        let ch = c[i];
        assert(pn(ch) == (('0' <= ch && ch <= '9') || ch == '.'));
        assert(ps(ch) == !(('0' <= ch && ch <= '9') || ch == '.'));
        if ('0' <= ch && ch <= '9') || ch == '.' {
            num.push(ch);
        } else {
            suf.push(ch);
        }
        i = i + 1;
    }
    assert(c@.subrange(0, n as int) =~= s@);
    assert(num@ == number_part(s@));
    assert(suf@ == suffix_part(s@));
    let dot = find_char(num.as_slice(), '.');
    proof {
        crate::text::lemma_index_of_char_props(num@, '.');
    }
    let has_dot = dot < num.len();
    if has_dot {
        assert(num@.contains('.'));
        let mut k: usize = dot + 1;
        while k < num.len() && num[k] != '.'
            invariant
                dot < k <= num@.len(),
                forall|j: int| dot < j < k ==> num@[j] != '.',
            decreases num@.len() - k,
        {
            k = k + 1;
        }
        proof {
            if k < num.len() {
                assert(two_dots(num@)) by {
                    assert(num@[dot as int] == '.' && num@[k as int] == '.');
                }
            } else {
                assert(!two_dots(num@)) by {
                    if two_dots(num@) {
                        let (a, b) = choose|a: int, b: int|
                            0 <= a < b < num@.len() && num@[a] == '.' && num@[b] == '.';
                        assert(a >= dot);
                    }
                }
            }
        }
        if k == num.len() && num.len() > 1 {
            return None;
        }
    }
    proof {
        if !has_dot {
            assert forall|j: int| 0 <= j < num@.len() implies crate::text::is_digit(
                #[trigger] num@[j],
            ) by {
                assert(num@[j] != '.');
                assert(pn(num@[j])) by {
                    s@.lemma_filter_pred(pn, j);
                }
            }
            if num@.contains('.') {
                let j = choose|j: int| 0 <= j < num@.len() && num@[j] == '.';
                assert(!crate::text::is_digit(num@[j]));
            }
        }
    }
    let cap: u64 = 0x800_0000_0000;
    let v: u64 = if num.len() == 0 || has_dot {
        512
    } else {
        dec_value_capped(num.as_slice(), cap)
    };
    let ghost exact: nat = if num@.len() == 0 || num@.contains('.') {
        512nat
    } else {
        dec_value(num@)
    };
    let scaled: u64 = if crate::text::chars_eq_str(suf.as_slice(), "Gi") {
        v * 1024
    } else if crate::text::chars_eq_str(suf.as_slice(), "G") {
        v * 1953125 / 2048
    } else if crate::text::chars_eq_str(suf.as_slice(), "M") {
        v * 15625 / 16384
    } else if crate::text::chars_eq_str(suf.as_slice(), "Ki") {
        v / 1024
    } else {
        v
    };
    let r: u32 = if scaled > 0xffff_ffff {
        0xffff_ffff
    } else {
        scaled as u32
    };
    proof {
        if exact >= cap {
            assert(v == cap);
            assert(exact * 1024 > u32::MAX) by (nonlinear_arith)
                requires
                    exact >= 0x800_0000_0000,
            ;
            assert(exact * 1000000000 / 1048576 > u32::MAX) by (nonlinear_arith)
                requires
                    exact >= 0x800_0000_0000,
            ;
            assert(exact * 1000000 / 1048576 > u32::MAX) by (nonlinear_arith)
                requires
                    exact >= 0x800_0000_0000,
            ;
            assert(cap * 1953125 / 2048 > u32::MAX) by (nonlinear_arith)
                requires
                    cap == 0x800_0000_0000,
            ;
            assert(cap * 15625 / 16384 > u32::MAX) by (nonlinear_arith)
                requires
                    cap == 0x800_0000_0000,
            ;
            assert(exact / 1024 > u32::MAX) by (nonlinear_arith)
                requires
                    exact >= 0x800_0000_0000,
            ;
        } else {
            assert(v == exact);
            assert(exact * 1000000000 / 1048576 == exact * 1953125 / 2048) by (nonlinear_arith)
                requires
                    exact >= 0,
            ;
            assert(exact * 1000000 / 1048576 == exact * 15625 / 16384) by (nonlinear_arith)
                requires
                    exact >= 0,
            ;
        }
        let suf_s = suffix_part(s@);
        assert(suf@ == suf_s);
        if suf_s == "Gi"@ {
            assert(scaled == v * 1024);
        } else if suf_s == "G"@ {
            assert(scaled == v * 1953125 / 2048);
        } else if suf_s == "Mi"@ {
            reveal_strlit("Mi");
            reveal_strlit("G");
            reveal_strlit("M");
            reveal_strlit("Ki");
            reveal_strlit("Gi");
            assert(suf_s.len() == 2 && suf_s[1] == 'i' && suf_s[0] == 'M');
            assert("Ki"@[0] == 'K');
            assert(suf_s != "G"@ && suf_s != "M"@ && suf_s != "Ki"@ && suf_s != "Gi"@);
            assert(scaled == v);
        } else if suf_s == "M"@ {
            assert(scaled == v * 15625 / 16384);
        } else if suf_s == "Ki"@ {
            assert(scaled == v / 1024);
        } else {
            assert(scaled == v);
        }
        assert(r == spec_k8s_mem(s@));
    }
    Some(r)
}

/// Whether a line holds anything.
pub open spec fn nonblank() -> spec_fn(Seq<char>) -> bool {
    |t: Seq<char>| t.len() > 0
}

/// The lines of some text, each trimmed.
pub open spec fn trimmed_lines(out: Seq<char>) -> Seq<Seq<char>> {
    lines(out).map_values(|l: Seq<char>| trim(l))
}

/// The names `virsh list --all --name` printed: its lines, trimmed, the
/// blank ones left out.
pub open spec fn spec_virsh_names(out: Seq<char>) -> Seq<Seq<char>> {
    trimmed_lines(out).filter(nonblank())
}

/// The VM names in the output of `virsh list --all --name`.
pub fn virsh_names(out: &str) -> (r: Vec<String>)
    ensures
        string_views(r@) == spec_virsh_names(out@),
{
    let ls = split_lines(str_chars(out).as_slice());
    let ghost all = char_views(ls@);
    let ghost trimmed = trimmed_lines(out@);
    let ghost keep = nonblank();
    let mut r: Vec<String> = Vec::new();
    let n = ls.len();
    let mut i: usize = 0;
    assert(trimmed.subrange(0, 0).filter(keep) =~= Seq::<Seq<char>>::empty()) by {
        reveal_with_fuel(Seq::filter, 1);
    }
    while i < n
        invariant
            i <= n,
            n == ls@.len(),
            all == char_views(ls@),
            all == lines(out@),
            trimmed == trimmed_lines(out@),
            keep == nonblank(),
            string_views(r@) == trimmed.subrange(0, i as int).filter(keep),
        decreases n - i,
    {
        let t = trim_chars(ls[i].as_slice());
        proof {
            trimmed.subrange(0, i as int).lemma_filter_push(trimmed[i as int], keep);
            assert(trimmed.subrange(0, i as int).push(trimmed[i as int]) =~= trimmed.subrange(
                0,
                i + 1,
            ));
            assert(t@ == trimmed[i as int]);
        }
        assert(keep(t@) == (t@.len() > 0));
        if t.len() > 0 {
            let ghost before = r@;
            r.push(string_from_chars(t.as_slice()));
            assert(string_views(r@) =~= string_views(before).push(t@));
        }
        i = i + 1;
    }
    assert(trimmed.subrange(0, n as int) =~= trimmed);
    r
}

/// The value after the first `:` of a line, up to any further `:`.
pub open spec fn after_colon(l: Seq<char>) -> Seq<char> {
    let i = index_of_char(l, ':');
    let rest = l.subrange(i + 1, l.len() as int);
    rest.subrange(0, index_of_char(rest, ':'))
}

fn after_colon_exec(l: &[char]) -> (r: Vec<char>)
    requires
        index_of_char(l@, ':') < l@.len(),
    ensures
        r@ == after_colon(l@),
{
    let i = find_char(l, ':');
    assert(i < l.len());
    let rest = slice_chars(l, i + 1, l.len());
    let j = find_char(rest.as_slice(), ':');
    slice_chars(rest.as_slice(), 0, j)
}

/// The line of `virsh dominfo` output that starts with `key`, if any.
pub open spec fn dominfo_line(info: Seq<char>, key: Seq<char>) -> Option<Seq<char>> {
    first_with_prefix(lines(info), key)
}

/// The vCPU count in `virsh dominfo` output: the `CPU(s):` value, or 1
/// when it is missing or not a number.
pub open spec fn spec_dominfo_cpus(info: Seq<char>) -> u32 {
    match dominfo_line(info, "CPU(s):"@) {
        Some(l) => match spec_parse_u32(trim(after_colon(l))) {
            Some(n) => n,
            None => 1,
        },
        None => 1,
    }
}

/// The memory in `virsh dominfo` output: the first word of the
/// `Max memory:` value, in KiB, as MiB; 512 when it is missing or not a
/// number.
pub open spec fn spec_dominfo_mem(info: Seq<char>) -> u32 {
    match dominfo_line(info, "Max memory:"@) {
        Some(l) => {
            let w = words(trim(after_colon(l)));
            if w.len() > 0 {
                match spec_parse_u32(w[0]) {
                    Some(kib) => kib / 1024,
                    None => 512,
                }
            } else {
                512
            }
        },
        None => 512,
    }
}

/// The state in `virsh dominfo` output: the trimmed `State:` value, or
/// `unknown`.
pub open spec fn spec_dominfo_state(info: Seq<char>) -> Seq<char> {
    match dominfo_line(info, "State:"@) {
        Some(l) => trim(after_colon(l)),
        None => "unknown"@,
    }
}

proof fn lemma_prefixed_has_colon(l: Seq<char>, key: Seq<char>)
    requires
        has_prefix(l, key),
        key.len() > 0,
        key.last() == ':',
    ensures
        index_of_char(l, ':') < l.len(),
{
    let j = key.len() - 1;
    assert(l[j] == ':');
    if index_of_char(l, ':') >= l.len() {
        let k = crate::text::index_of_char(l, ':');
        lemma_index_of_char_le(l, ':', j);
    }
}

proof fn lemma_index_of_char_le(s: Seq<char>, c: char, j: int)
    requires
        0 <= j < s.len(),
        s[j] == c,
    ensures
        index_of_char(s, c) <= j,
    decreases s.len(),
{
    if s[0] != c {
        assert(s.drop_first()[j - 1] == c);
        lemma_index_of_char_le(s.drop_first(), c, j - 1);
    }
}

fn dominfo_value(ls: &Vec<Vec<char>>, key: &str) -> (r: Option<Vec<char>>)
    requires
        key@.len() > 0,
        key@.last() == ':',
    ensures
        match first_with_prefix(char_views(ls@), key@) {
            Some(l) => r matches Some(v) && v@ == trim(after_colon(l)),
            None => r is None,
        },
{
    let k = str_chars(key);
    match find_with_prefix(ls, k.as_slice()) {
        Some(i) => {
            proof {
                crate::text::lemma_first_with_prefix(char_views(ls@), k@);
                lemma_prefixed_has_colon(ls@[i as int]@, key@);
            }
            let v = after_colon_exec(ls[i].as_slice());
            Some(trim_chars(v.as_slice()))
        },
        None => None,
    }
}

/// The vCPUs, memory (MiB) and state read from `virsh dominfo` output.
pub fn parse_dominfo(info: &str) -> (r: (u32, u32, String))
    ensures
        r.0 == spec_dominfo_cpus(info@),
        r.1 == spec_dominfo_mem(info@),
        r.2@ == spec_dominfo_state(info@),
{
    let ls = split_lines(str_chars(info).as_slice());
    proof {
        reveal_strlit("CPU(s):");
        reveal_strlit("Max memory:");
        reveal_strlit("State:");
    }
    let cpus = match dominfo_value(&ls, "CPU(s):") {
        Some(v) => match parse_u32(v.as_slice()) {
            Some(n) => n,
            None => 1,
        },
        None => 1,
    };
    let mem = match dominfo_value(&ls, "Max memory:") {
        Some(v) => {
            let w = split_words(v.as_slice());
            if w.len() > 0 {
                match parse_u32(w[0].as_slice()) {
                    Some(kib) => kib / 1024,
                    None => 512,
                }
            } else {
                512
            }
        },
        None => 512,
    };
    let state = match dominfo_value(&ls, "State:") {
        Some(v) => string_from_chars(v.as_slice()),
        None => "unknown".to_owned(),
    };
    (cpus, mem, state)
}

/// A libvirt domain from its name and its `virsh dominfo` output; a
/// 40 GB disk and Linux are assumed.
pub fn libvirt_vm(name: &str, info: &str) -> (r: SourceVm)
    ensures
        r.id@ == name@,
        r.source_id@ == name@,
        r.name@ == name@,
        r.cpus == spec_dominfo_cpus(info@),
        r.mem_mib == spec_dominfo_mem(info@),
        r.disk_gb == 40,
        r.os@ == "Linux"@,
        r.status@ == spec_dominfo_state(info@),
{
    let (cpus, mem, state) = parse_dominfo(info);
    source_vm(name.to_owned(), name.to_owned(), cpus, mem, 40, "Linux", state)
}

/// `USER@HOST` for SSH.
pub open spec fn ssh_dest(user: Seq<char>, host: Seq<char>) -> Seq<char> {
    user + "@"@ + host
}

fn ssh_dest_exec(user: &str, host: &str) -> (r: String)
    ensures
        r@ == ssh_dest(user@, host@),
{
    let mut v = str_chars(user);
    extend_str(&mut v, "@");
    extend_str(&mut v, host);
    string_from_chars(v.as_slice())
}

/// The SSH arguments that list a libvirt host's domains: no host-key
/// prompt, password authentication only when a password is given.
pub fn virsh_list_args(user: &str, host: &str, pass: &str) -> (r: Vec<String>)
    ensures
        string_views(r@) == seq![
            "-o"@,
            "StrictHostKeyChecking=no"@,
            "-o"@,
            "PasswordAuthentication="@ + (if pass@.len() == 0 {
                "no"@
            } else {
                "yes"@
            }),
            ssh_dest(user@, host@),
            "virsh list --all --name"@,
        ],
{
    let mut a: Vec<String> = Vec::new();
    push_str(&mut a, "-o");
    push_str(&mut a, "StrictHostKeyChecking=no");
    push_str(&mut a, "-o");
    let mut pa = str_chars("PasswordAuthentication=");
    if pass.unicode_len() == 0 {
        extend_str(&mut pa, "no");
    } else {
        extend_str(&mut pa, "yes");
    }
    let pas = string_from_chars(pa.as_slice());
    push_str(&mut a, pas.as_str());
    let d = ssh_dest_exec(user, host);
    push_str(&mut a, d.as_str());
    push_str(&mut a, "virsh list --all --name");
    a
}

/// The SSH arguments that describe one domain (errors discarded).
pub fn dominfo_args(user: &str, host: &str, name: &str) -> (r: Vec<String>)
    ensures
        string_views(r@) == seq![
            "-o"@,
            "StrictHostKeyChecking=no"@,
            ssh_dest(user@, host@),
            "virsh dominfo "@ + name@ + " 2>/dev/null"@,
        ],
{
    let mut a: Vec<String> = Vec::new();
    push_str(&mut a, "-o");
    push_str(&mut a, "StrictHostKeyChecking=no");
    let d = ssh_dest_exec(user, host);
    push_str(&mut a, d.as_str());
    let mut c = str_chars("virsh dominfo ");
    extend_str(&mut c, name);
    extend_str(&mut c, " 2>/dev/null");
    let cs = string_from_chars(c.as_slice());
    push_str(&mut a, cs.as_str());
    a
}

/// An endpoint in an OpenStack service catalog.
pub struct CatalogEndpoint {
    pub interface: Option<String>,
    pub region: Option<String>,
    pub url: Option<String>,
}

/// A service in an OpenStack service catalog.
pub struct CatalogService {
    pub kind: Option<String>,
    pub endpoints: Option<Vec<CatalogEndpoint>>,
}

/// Whether an optional string holds `t`.
pub open spec fn holds(o: Option<String>, t: Seq<char>) -> bool {
    match o {
        Some(s) => s@ == t,
        None => false,
    }
}

fn holds_exec(o: &Option<String>, t: &str) -> (r: bool)
    ensures
        r == holds(*o, t@),
{
    match o {
        Some(s) => crate::text::str_eq(s.as_str(), t),
        None => false,
    }
}

/// Index of the first service of `s` whose type is `compute`, or its length.
pub open spec fn first_compute(s: Seq<CatalogService>) -> int
    decreases s.len(),
{
    if s.len() == 0 {
        0
    } else if holds(s[0].kind, "compute"@) {
        0
    } else {
        1 + first_compute(s.drop_first())
    }
}

/// Index of the first public endpoint in `region`, or the length.
pub open spec fn first_public(e: Seq<CatalogEndpoint>, region: Seq<char>) -> int
    decreases e.len(),
{
    if e.len() == 0 {
        0
    } else if holds(e[0].interface, "public"@) && holds(e[0].region, region) {
        0
    } else {
        1 + first_public(e.drop_first(), region)
    }
}

/// The Nova URL in a Keystone catalog: the URL of the first public
/// endpoint in `region` of the first compute service; the local default
/// when any step finds nothing.
pub open spec fn spec_nova_url(catalog: Option<Seq<CatalogService>>, region: Seq<char>) -> Seq<char> {
    let dflt = "http://localhost:8774/v2.1"@;
    match catalog {
        None => dflt,
        Some(svcs) => {
            let i = first_compute(svcs);
            if i >= svcs.len() {
                dflt
            } else {
                match svcs[i].endpoints {
                    None => dflt,
                    Some(eps) => {
                        let j = first_public(eps@, region);
                        if j >= eps@.len() {
                            dflt
                        } else {
                            or_text(eps@[j].url, dflt)
                        }
                    },
                }
            }
        },
    }
}

proof fn lemma_first_compute(s: Seq<CatalogService>, i: int)
    requires
        0 <= i <= s.len(),
        forall|j: int| 0 <= j < i ==> !holds(#[trigger] s[j].kind, "compute"@),
        i == s.len() || holds(s[i].kind, "compute"@),
    ensures
        first_compute(s) == i,
    decreases s.len(),
{
    if s.len() > 0 && !holds(s[0].kind, "compute"@) {
        assert forall|j: int| 0 <= j < i - 1 implies !holds(
            #[trigger] s.drop_first()[j].kind,
            "compute"@,
        ) by {
            assert(s.drop_first()[j] == s[j + 1]);
        }
        lemma_first_compute(s.drop_first(), i - 1);
    }
}

proof fn lemma_first_public(e: Seq<CatalogEndpoint>, region: Seq<char>, i: int)
    requires
        0 <= i <= e.len(),
        forall|j: int|
            0 <= j < i ==> !(holds(#[trigger] e[j].interface, "public"@) && holds(
                e[j].region,
                region,
            )),
        i == e.len() || (holds(e[i].interface, "public"@) && holds(e[i].region, region)),
    ensures
        first_public(e, region) == i,
    decreases e.len(),
{
    if e.len() > 0 && !(holds(e[0].interface, "public"@) && holds(e[0].region, region)) {
        assert forall|j: int| 0 <= j < i - 1 implies !(holds(
            #[trigger] e.drop_first()[j].interface,
            "public"@,
        ) && holds(e.drop_first()[j].region, region)) by {
            assert(e.drop_first()[j] == e[j + 1]);
        }
        lemma_first_public(e.drop_first(), region, i - 1);
    }
}

/// The Nova endpoint to list servers from.
pub fn nova_url(catalog: &Option<Vec<CatalogService>>, region: &str) -> (r: String)
    ensures
        r@ == spec_nova_url(
            match *catalog {
                Some(v) => Some(v@),
                None => None,
            },
            region@,
        ),
{
    let dflt = "http://localhost:8774/v2.1";
    match catalog {
        None => dflt.to_owned(),
        Some(svcs) => {
            let n = svcs.len();
            let mut i: usize = 0;
            while i < n && !holds_exec(&svcs[i].kind, "compute")
                invariant
                    i <= n,
                    n == svcs@.len(),
                    forall|j: int| 0 <= j < i ==> !holds(#[trigger] svcs@[j].kind, "compute"@),
                decreases n - i,
            {
                i = i + 1;
            }
            proof {
                lemma_first_compute(svcs@, i as int);
            }
            if i >= n {
                return dflt.to_owned();
            }
            match &svcs[i].endpoints {
                None => dflt.to_owned(),
                Some(eps) => {
                    let m = eps.len();
                    let mut j: usize = 0;
                    while j < m && !(holds_exec(&eps[j].interface, "public") && holds_exec(
                        &eps[j].region,
                        region,
                    ))
                        invariant
                            j <= m,
                            m == eps@.len(),
                            forall|k: int|
                                0 <= k < j ==> !(holds(#[trigger] eps@[k].interface, "public"@)
                                    && holds(eps@[k].region, region@)),
                        decreases m - j,
                    {
                        j = j + 1;
                    }
                    proof {
                        lemma_first_public(eps@, region@, j as int);
                    }
                    if j >= m {
                        dflt.to_owned()
                    } else {
                        text_or(&eps[j].url, dflt)
                    }
                },
            }
        },
    }
}

/// The message of an accepted import: what was queued on each platform.
pub open spec fn import_message(k: SourceKind) -> Seq<char> {
    match k {
        SourceKind::Proxmox => "VM registered in Caiman. Disk transfer queued."@,
        SourceKind::Vsphere => "VM registered. OVF export queued."@,
        SourceKind::Libvirt => "VM registered. Disk rsync queued."@,
        SourceKind::Aws => "VM registered. AMI export queued."@,
        SourceKind::Openstack => "VM registered. Glance export queued."@,
        SourceKind::Ovirt => "VM registered. oVirt export queued."@,
        SourceKind::Nutanix => "VM registered. Nutanix image export queued."@,
        SourceKind::Oraclevm => "VM registered. Oracle VM export queued."@,
        SourceKind::Harvester => "VM registered. Harvester export queued (KubeVirt -> qemu-img convert)."@,
        SourceKind::Ovf => "unknown source: ovf"@,
    }
}

/// The reply to an import of `vm` from a source with a connector: the new
/// VM's ID, its name, `imported`, and what was queued.
pub fn import_result(k: SourceKind, vm: &SourceVm, new_id: String) -> (r: ImportResult)
    requires
        k != SourceKind::Ovf,
    ensures
        r.vm_id == new_id,
        r.name@ == vm.name@,
        r.status@ == "imported"@,
        r.message@ == import_message(k),
{
    let msg = match k {
        SourceKind::Proxmox => "VM registered in Caiman. Disk transfer queued.",
        SourceKind::Vsphere => "VM registered. OVF export queued.",
        SourceKind::Libvirt => "VM registered. Disk rsync queued.",
        SourceKind::Aws => "VM registered. AMI export queued.",
        SourceKind::Openstack => "VM registered. Glance export queued.",
        SourceKind::Ovirt => "VM registered. oVirt export queued.",
        SourceKind::Nutanix => "VM registered. Nutanix image export queued.",
        SourceKind::Oraclevm => "VM registered. Oracle VM export queued.",
        SourceKind::Harvester => "VM registered. Harvester export queued (KubeVirt -> qemu-img convert).",
        SourceKind::Ovf => "unknown source: ovf",
    };
    ImportResult {
        vm_id: new_id,
        name: vm.name.clone(),
        status: "imported".to_owned(),
        message: msg.to_owned(),
    }
}

} // verus!
