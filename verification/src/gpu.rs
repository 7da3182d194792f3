//! GPUs for VMs: reading the inventory that `nvidia-smi` prints, telling
//! whether a GPU runs in MIG mode, and picking the GPU for a sharing mode
//! (full passthrough, a MIG slice, or a vGPU). Running `nvidia-smi` and
//! binding devices are the caller's.
use vstd::prelude::*;
use crate::text::{
    char_views, contains_chars, contains_seq, lines, parse_u32, parse_u64, push_str,
    spec_parse_u32, spec_parse_u64,
    split_lines, split_on, split_on_exec, str_chars, string_from_chars, string_views, trim,
    trim_chars,
};

verus! {

/// A GPU of the node.
pub struct GpuDevice {
    /// `0000:01:00.0`.
    pub pci_address: String,
    pub gpu_uuid: String,
    pub model: String,
    pub vram_mib: u64,
    pub driver_ver: String,
    pub cuda_ver: String,
    pub mig_capable: bool,
    pub vgpu_capable: bool,
    pub iommu_group: u32,
}

/// A GPU given to a VM.
pub enum GpuAllocation {
    /// The whole GPU through VFIO.
    Passthrough { gpu: GpuDevice, vfio_dev: String },
    /// A hardware partition (MIG profile such as `3g.40gb`).
    MigSlice { gpu: GpuDevice, profile: String, instance_id: u32, vfio_dev: String },
    /// A mediated vGPU (profile such as `A100-40C`).
    VGpu { gpu: GpuDevice, profile: String, vgpu_id: u32, mdev_path: String },
}

/// The `nvidia-smi` arguments of the inventory query.
pub fn inventory_query_args() -> (r: Vec<String>)
    ensures
        string_views(r@) == seq![
            "--query-gpu=pci.bus_id,gpu_uuid,name,memory.total,driver_version,compute_cap"@,
            "--format=csv,noheader,nounits"@,
        ],
{
    let mut a: Vec<String> = Vec::new();
    push_str(&mut a, "--query-gpu=pci.bus_id,gpu_uuid,name,memory.total,driver_version,compute_cap");
    push_str(&mut a, "--format=csv,noheader,nounits");
    a
}

/// One GPU of the inventory, as printed.
pub struct GpuLine {
    pub pci_address: String,
    pub gpu_uuid: String,
    pub model: String,
    pub vram_mib: u64,
    pub driver_ver: String,
    pub cuda_ver: String,
}

/// The fields of an inventory line: split at `, `; lines with fewer than
/// six fields are skipped; fields are trimmed; a memory size that is not
/// a number counts as 0.
pub open spec fn spec_gpu_line(line: Seq<char>) -> Option<(Seq<char>, Seq<char>, Seq<char>, u64, Seq<char>, Seq<char>)> {
    let p = split_on(line, ", "@);
    if p.len() < 6 {
        None
    } else {
        Some(
            (
                trim(p[0]),
                trim(p[1]),
                trim(p[2]),
                match spec_parse_u64(trim(p[3])) {
                    Some(n) => n,
                    None => 0u64,
                },
                trim(p[4]),
                trim(p[5]),
            ),
        )
    }
}

/// The fields of a parsed line, as plain values.
pub open spec fn line_view(g: GpuLine) -> (Seq<char>, Seq<char>, Seq<char>, u64, Seq<char>, Seq<char>) {
    (g.pci_address@, g.gpu_uuid@, g.model@, g.vram_mib, g.driver_ver@, g.cuda_ver@)
}

fn trimmed_string(v: &Vec<char>) -> (r: String)
    ensures
        r@ == trim(v@),
{
    let t = trim_chars(v.as_slice());
    string_from_chars(t.as_slice())
}

/// Reads one line of the inventory.
pub fn parse_gpu_line(line: &[char]) -> (r: Option<GpuLine>)
    ensures
        match spec_gpu_line(line@) {
            Some(f) => r matches Some(g) && line_view(g) == f,
            None => r is None,
        },
{
    let sep = str_chars(", ");
    proof {
        reveal_strlit(", ");
    }
    let p = split_on_exec(line, sep.as_slice());
    if p.len() < 6 {
        return None;
    }
    proof {
        assert(char_views(p@)[0] == p@[0]@);
        assert(char_views(p@)[1] == p@[1]@);
        assert(char_views(p@)[2] == p@[2]@);
        assert(char_views(p@)[3] == p@[3]@);
        assert(char_views(p@)[4] == p@[4]@);
        assert(char_views(p@)[5] == p@[5]@);
    }
    let mem = trim_chars(p[3].as_slice());
    let vram = match parse_u64(mem.as_slice()) {
        Some(n) => n,
        None => 0,
    };
    Some(
        GpuLine {
            pci_address: trimmed_string(&p[0]),
            gpu_uuid: trimmed_string(&p[1]),
            model: trimmed_string(&p[2]),
            vram_mib: vram,
            driver_ver: trimmed_string(&p[4]),
            cuda_ver: trimmed_string(&p[5]),
        },
    )
}

/// The GPUs of an inventory, one per line with all six fields, in order.
pub open spec fn spec_inventory(out: Seq<char>) -> Seq<(Seq<char>, Seq<char>, Seq<char>, u64, Seq<char>, Seq<char>)>
    decreases lines(out).len(),
{
    inventory_of(lines(out))
}

/// The GPUs of a list of inventory lines.
pub open spec fn inventory_of(ls: Seq<Seq<char>>) -> Seq<(Seq<char>, Seq<char>, Seq<char>, u64, Seq<char>, Seq<char>)>
    decreases ls.len(),
{
    if ls.len() == 0 {
        Seq::empty()
    } else {
        let rest = inventory_of(ls.drop_last());
        match spec_gpu_line(ls.last()) {
            Some(f) => rest.push(f),
            None => rest,
        }
    }
}

/// Reads the inventory that `nvidia-smi` printed.
pub fn parse_inventory(out: &str) -> (r: Vec<GpuLine>)
    ensures
        r@.map_values(|g: GpuLine| line_view(g)) == spec_inventory(out@),
{
    let ls = split_lines(str_chars(out).as_slice());
    let ghost all = char_views(ls@);
    let mut r: Vec<GpuLine> = Vec::new();
    let n = ls.len();
    let mut i: usize = 0;
    assert(r@.map_values(|g: GpuLine| line_view(g)) =~= inventory_of(all.subrange(0, 0)));
    while i < n
        invariant
            i <= n,
            n == ls@.len(),
            all == char_views(ls@),
            all == lines(out@),
            r@.map_values(|g: GpuLine| line_view(g)) == inventory_of(all.subrange(0, i as int)),
        decreases n - i,
    {
        let ghost before = r@;
        assert(all.subrange(0, i + 1).drop_last() =~= all.subrange(0, i as int));
        assert(all.subrange(0, i + 1).last() == ls@[i as int]@);
        match parse_gpu_line(ls[i].as_slice()) {
            Some(g) => {
                r.push(g);
                assert(r@.map_values(|g: GpuLine| line_view(g)) =~= before.map_values(
                    |g: GpuLine| line_view(g),
                ).push(line_view(r@.last())));
            },
            None => {},
        }
        i = i + 1;
    }
    assert(all.subrange(0, n as int) =~= all);
    r
}

/// A device from its inventory line and what was probed about it.
pub fn gpu_device(l: GpuLine, iommu_group: u32, mig_capable: bool, vgpu_capable: bool) -> (r: GpuDevice)
    ensures
        r.pci_address == l.pci_address,
        r.gpu_uuid == l.gpu_uuid,
        r.model == l.model,
        r.vram_mib == l.vram_mib,
        r.driver_ver == l.driver_ver,
        r.cuda_ver == l.cuda_ver,
        r.iommu_group == iommu_group,
        r.mig_capable == mig_capable,
        r.vgpu_capable == vgpu_capable,
{
    GpuDevice {
        pci_address: l.pci_address,
        gpu_uuid: l.gpu_uuid,
        model: l.model,
        vram_mib: l.vram_mib,
        driver_ver: l.driver_ver,
        cuda_ver: l.cuda_ver,
        mig_capable,
        vgpu_capable,
        iommu_group,
    }
}

/// Whether the MIG-mode query's output marks the GPU as MIG-capable: it
/// reports `Enabled`, or it does not say `N/A`.
pub fn mig_capable_from(out: &str) -> (r: bool)
    ensures
        r == (contains_seq(out@, "Enabled"@) || !contains_seq(out@, "N/A"@)),
{
    let o = str_chars(out);
    let en = str_chars("Enabled");
    let na = str_chars("N/A");
    contains_chars(o.as_slice(), en.as_slice()) || !contains_chars(o.as_slice(), na.as_slice())
}

/// The `nvidia-smi` arguments that ask a GPU for its current MIG mode.
pub fn mig_query_args(pci: &str) -> (r: Vec<String>)
    ensures
        string_views(r@) == seq!["-i"@, pci@, "--query-gpu=mig.mode.current"@, "--format=csv,noheader"@],
{
    let mut a: Vec<String> = Vec::new();
    push_str(&mut a, "-i");
    push_str(&mut a, pci);
    push_str(&mut a, "--query-gpu=mig.mode.current");
    push_str(&mut a, "--format=csv,noheader");
    a
}

/// The IOMMU group named by the target of a device's `iommu_group` link
/// (its last path component), when that is a number.
pub fn iommu_group_of(link_name: &str) -> (r: Option<u32>)
    ensures
        r == spec_parse_u32(link_name@),
{
    let c = str_chars(link_name);
    parse_u32(c.as_slice())
}

/// How a VM shares a GPU.
#[derive(PartialEq, Eq, Structural, Clone, Copy, Debug)]
pub enum GpuMode {
    Passthrough,
    Mig,
    VGpu,
}

/// The GPU to allocate from and the profile to use.
pub struct GpuChoice {
    pub mode: GpuMode,
    pub index: usize,
    pub profile: Option<String>,
}

/// Whether a GPU can serve MIG slices (`mig`) or vGPUs (otherwise).
pub open spec fn spec_capable(g: GpuDevice, mig: bool) -> bool {
    if mig {
        g.mig_capable
    } else {
        g.vgpu_capable
    }
}

fn capable(g: &GpuDevice, mig: bool) -> (r: bool)
    ensures
        r == spec_capable(*g, mig),
{
    if mig {
        g.mig_capable
    } else {
        g.vgpu_capable
    }
}

/// Index of the first GPU capable of the mode, or the count.
pub open spec fn first_capable(gpus: Seq<GpuDevice>, mig: bool) -> int
    decreases gpus.len(),
{
    if gpus.len() == 0 {
        0
    } else if spec_capable(gpus[0], mig) {
        0
    } else {
        1 + first_capable(gpus.drop_first(), mig)
    }
}

proof fn lemma_first_capable(gpus: Seq<GpuDevice>, mig: bool, i: int)
    requires
        0 <= i <= gpus.len(),
        forall|j: int|
            0 <= j < i ==> !spec_capable(#[trigger] gpus[j], mig),
        i == gpus.len() || spec_capable(gpus[i], mig),
    ensures
        first_capable(gpus, mig) == i,
    decreases gpus.len(),
{
    if gpus.len() > 0 && !spec_capable(gpus[0], mig) {
        assert forall|j: int|
            0 <= j < i - 1 implies !spec_capable(#[trigger] gpus.drop_first()[j], mig) by {
            assert(gpus.drop_first()[j] == gpus[j + 1]);
        }
        lemma_first_capable(gpus.drop_first(), mig, i - 1);
    }
}

fn find_capable(gpus: &[GpuDevice], mig: bool) -> (r: usize)
    ensures
        r == first_capable(gpus@, mig),
{
    let n = gpus.len();
    let mut i: usize = 0;
    while i < n && !capable(&gpus[i], mig)
        invariant
            i <= n,
            n == gpus@.len(),
            forall|j: int| 0 <= j < i ==> !spec_capable(#[trigger] gpus@[j], mig),
        decreases n - i,
    {
        i = i + 1;
    }
    proof {
        lemma_first_capable(gpus@, mig, i as int);
    }
    i
}

/// Picks the GPU for a sharing mode: there must be a GPU at all;
/// passthrough takes the first; MIG and vGPU need a profile and take the
/// first GPU capable of the mode; any other mode is refused. The errors
/// are the messages shown to the operator.
pub fn choose_gpu(mode: &str, profile: Option<&str>, gpus: &[GpuDevice]) -> (r: Result<GpuChoice, String>)
    ensures
        gpus@.len() == 0 ==> (r matches Err(e) && e@ == "No NVIDIA GPUs found on this node"@),
        gpus@.len() > 0 && mode@ == "passthrough"@ ==> (r matches Ok(c) && c.mode
            == GpuMode::Passthrough && c.index == 0 && c.profile is None),
        gpus@.len() > 0 && mode@ == "mig"@ ==> match profile {
            None => r matches Err(e) && e@ == "MIG mode requires --gpu-profile (e.g. 3g.40gb)"@,
            Some(p) => if first_capable(gpus@, true) < gpus@.len() {
                r matches Ok(c) && c.mode == GpuMode::Mig && c.index == first_capable(gpus@, true)
                    && crate::vm::opt_view(c.profile) == Some(p@)
            } else {
                r matches Err(e) && e@
                    == "No MIG-capable GPU found (requires Ampere A100/A30/H100)"@
            },
        },
        gpus@.len() > 0 && mode@ == "vgpu"@ ==> match profile {
            None => r matches Err(e) && e@ == "vGPU mode requires --gpu-profile (e.g. A100-40C)"@,
            Some(p) => if first_capable(gpus@, false) < gpus@.len() {
                r matches Ok(c) && c.mode == GpuMode::VGpu && c.index == first_capable(gpus@, false)
                    && crate::vm::opt_view(c.profile) == Some(p@)
            } else {
                r matches Err(e) && e@ == "No vGPU-capable GPU found (requires NVIDIA vGPU software)"@
            },
        },
        gpus@.len() > 0 && mode@ != "passthrough"@ && mode@ != "mig"@ && mode@ != "vgpu"@ ==> (r matches Err(e)
            && e@ == "Unknown GPU mode: "@ + mode@ + " (use: passthrough, mig, vgpu)"@),
{
    if gpus.len() == 0 {
        return Err("No NVIDIA GPUs found on this node".to_owned());
    }
    proof {
        reveal_strlit("passthrough");
        reveal_strlit("mig");
        reveal_strlit("vgpu");
        assert("passthrough"@.len() == 11 && "mig"@.len() == 3 && "vgpu"@.len() == 4);
        assert("mig"@[0] == 'm' && "vgpu"@[0] == 'v');
    }
    if crate::text::str_eq(mode, "passthrough") {
        Ok(GpuChoice { mode: GpuMode::Passthrough, index: 0, profile: None })
    } else if crate::text::str_eq(mode, "mig") {
        match profile {
            None => Err("MIG mode requires --gpu-profile (e.g. 3g.40gb)".to_owned()),
            Some(p) => {
                let i = find_capable(gpus, true);
                if i < gpus.len() {
                    Ok(GpuChoice { mode: GpuMode::Mig, index: i, profile: Some(p.to_owned()) })
                } else {
                    Err("No MIG-capable GPU found (requires Ampere A100/A30/H100)".to_owned())
                }
            },
        }
    } else if crate::text::str_eq(mode, "vgpu") {
        match profile {
            None => Err("vGPU mode requires --gpu-profile (e.g. A100-40C)".to_owned()),
            Some(p) => {
                let i = find_capable(gpus, false);
                if i < gpus.len() {
                    Ok(GpuChoice { mode: GpuMode::VGpu, index: i, profile: Some(p.to_owned()) })
                } else {
                    Err("No vGPU-capable GPU found (requires NVIDIA vGPU software)".to_owned())
                }
            },
        }
    } else {
        let mut v = str_chars("Unknown GPU mode: ");
        crate::text::extend_str(&mut v, mode);
        crate::text::extend_str(&mut v, " (use: passthrough, mig, vgpu)");
        Err(string_from_chars(v.as_slice()))
    }
}

} // verus!
