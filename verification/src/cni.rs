//! CNI plugin logic: ecosystem selection, stable VM identifiers, interface
//! naming, MAC formatting, PCI address validation and plugin lookup paths.
use vstd::prelude::*;
use vstd::string::StringSliceAdditionalSpecFns;
use crate::text::{lowercase, to_lowercase, occurs_at, contains_seq, contains_chars, 
    chars_eq, dec, extend_str, hex2, push_dec, push_hex2, slice_chars, str_chars, str_eq,
    string_from_chars, all_ascii, ascii_lower, ascii_upper, ascii_lower_char, ascii_upper_char,
};

verus! {

/// The CNI ecosystem that the plugin cooperates with.
#[derive(Debug, Clone, Copy, PartialEq, Eq, Structural)]
pub enum EcosystemKind {
    /// host-local IPAM, pure caiman XDP
    Standalone,
    /// BGP routes via Felix, Calico IPAM / NetworkPolicy
    Calico,
    /// eBPF-native, XDP coexistence via TC fallback
    Cilium,
    /// VXLAN / host-gw overlay
    Flannel,
    /// OVS-based
    Antrea,
    /// Hardware VF passthrough via vfio-pci
    SrIov,
    /// Mesh overlay with optional WireGuard encryption
    Weave,
}

/// Errors of the CNI logic.
#[derive(Debug)]
pub enum CniError {
    /// The adapter name (lowercased) is not a known ecosystem.
    UnknownAdapter(String),
    /// SR-IOV was selected but no device ID was configured.
    MissingDeviceId,
    /// The SR-IOV device ID is not a PCI address `DDDD:BB:SS.F`.
    InvalidPciAddress(String),
}

/// The ecosystem that an already-lowercased adapter name selects.
pub open spec fn spec_kind_named(l: Seq<char>) -> Option<EcosystemKind> {
    if l == "standalone"@ {
        Some(EcosystemKind::Standalone)
    } else if l == "calico"@ {
        Some(EcosystemKind::Calico)
    } else if l == "cilium"@ {
        Some(EcosystemKind::Cilium)
    } else if l == "flannel"@ {
        Some(EcosystemKind::Flannel)
    } else if l == "antrea"@ {
        Some(EcosystemKind::Antrea)
    } else if l == "sriov"@ || l == "sr-iov"@ {
        Some(EcosystemKind::SrIov)
    } else if l == "weave"@ {
        Some(EcosystemKind::Weave)
    } else {
        None
    }
}

/// Each adapter name selects its own ecosystem, and no other name selects
/// one: `standalone`, `calico`, `cilium`, `flannel`, `antrea`, `sriov` or
/// `sr-iov`, `weave`.
pub proof fn lemma_adapter_names(l: Seq<char>)
    ensures
        spec_kind_named(l) == Some(EcosystemKind::Standalone) <==> l == "standalone"@,
        spec_kind_named(l) == Some(EcosystemKind::Calico) <==> l == "calico"@,
        spec_kind_named(l) == Some(EcosystemKind::Cilium) <==> l == "cilium"@,
        spec_kind_named(l) == Some(EcosystemKind::Flannel) <==> l == "flannel"@,
        spec_kind_named(l) == Some(EcosystemKind::Antrea) <==> l == "antrea"@,
        spec_kind_named(l) == Some(EcosystemKind::SrIov) <==> (l == "sriov"@ || l == "sr-iov"@),
        spec_kind_named(l) == Some(EcosystemKind::Weave) <==> l == "weave"@,
{
    reveal_strlit("standalone");
    reveal_strlit("calico");
    reveal_strlit("cilium");
    reveal_strlit("flannel");
    reveal_strlit("antrea");
    reveal_strlit("sriov");
    reveal_strlit("sr-iov");
    reveal_strlit("weave");
    assert("standalone"@.len() == 10 && "flannel"@.len() == 7 && "sriov"@.len() == 5
        && "weave"@.len() == 5);
    assert("calico"@.len() == 6 && "cilium"@.len() == 6 && "antrea"@.len() == 6
        && "sr-iov"@.len() == 6);
    assert("calico"@[1] != "cilium"@[1] && "calico"@[0] != "antrea"@[0] && "calico"@[1]
        != "sr-iov"@[1]);
    assert("cilium"@[0] != "antrea"@[0] && "cilium"@[0] != "sr-iov"@[0] && "antrea"@[0]
        != "sr-iov"@[0]);
    assert("sriov"@[0] != "weave"@[0]);
}

/// Selects the ecosystem named by an already-lowercased adapter name.
pub fn ecosystem_from_lowercase(lower: &str) -> (r: Result<EcosystemKind, CniError>)
    ensures
        spec_kind_named(lower@) is Some ==> r == Ok::<EcosystemKind, CniError>(
            spec_kind_named(lower@)->0,
        ),
        spec_kind_named(lower@) is None ==> (r matches Err(CniError::UnknownAdapter(m))
            && m@ == lower@),
{
    if str_eq(lower, "standalone") {
        Ok(EcosystemKind::Standalone)
    } else if str_eq(lower, "calico") {
        Ok(EcosystemKind::Calico)
    } else if str_eq(lower, "cilium") {
        Ok(EcosystemKind::Cilium)
    } else if str_eq(lower, "flannel") {
        Ok(EcosystemKind::Flannel)
    } else if str_eq(lower, "antrea") {
        Ok(EcosystemKind::Antrea)
    } else if str_eq(lower, "sriov") || str_eq(lower, "sr-iov") {
        Ok(EcosystemKind::SrIov)
    } else if str_eq(lower, "weave") {
        Ok(EcosystemKind::Weave)
    } else {
        Err(CniError::UnknownAdapter(lower.to_owned()))
    }
}

impl EcosystemKind {
    /// Parses an adapter override from the CNI config, case-insensitively.
    pub fn from_str(s: &str) -> (r: Result<EcosystemKind, CniError>)
        ensures
            spec_kind_named(lowercase(s@)) is Some ==> r == Ok::<EcosystemKind, CniError>(
                spec_kind_named(lowercase(s@))->0,
            ),
            spec_kind_named(lowercase(s@)) is None ==> (r matches Err(
                CniError::UnknownAdapter(m),
            ) && m@ == lowercase(s@)),
            all_ascii(s@) && spec_kind_named(ascii_lower(s@)) is Some ==> r == Ok::<
                EcosystemKind,
                CniError,
            >(spec_kind_named(ascii_lower(s@))->0),
            all_ascii(s@) && spec_kind_named(ascii_lower(s@)) is None ==> (r matches Err(
                CniError::UnknownAdapter(m),
            ) && m@ == ascii_lower(s@)),
    {
        let lower = to_lowercase(s);
        ecosystem_from_lowercase(lower.as_str())
    }
}

/// Adapter names ignore the case of ASCII letters: writing an ASCII name
/// in capitals or in small letters selects the same adapter, or leaves it
/// unknown alike.
pub proof fn lemma_adapter_name_case(s: Seq<char>)
    requires
        all_ascii(s),
    ensures
        all_ascii(ascii_upper(s)),
        all_ascii(ascii_lower(s)),
        spec_kind_named(ascii_lower(ascii_upper(s))) == spec_kind_named(ascii_lower(s)),
        spec_kind_named(ascii_lower(ascii_lower(s))) == spec_kind_named(ascii_lower(s)),
{
    assert forall|i: int| 0 <= i < s.len() implies (#[trigger] ascii_upper(s)[i] as u32) < 128 by {
        let c = s[i];
        assert(ascii_upper(s)[i] == ascii_upper_char(c));
    }
    assert forall|i: int| 0 <= i < s.len() implies (#[trigger] ascii_lower(s)[i] as u32) < 128 by {
        let c = s[i];
        assert(ascii_lower(s)[i] == ascii_lower_char(c));
    }
    assert(ascii_lower(ascii_upper(s)) =~= ascii_lower(s)) by {
        assert forall|i: int| 0 <= i < s.len() implies ascii_lower(ascii_upper(s))[i] == ascii_lower(
            s,
        )[i] by {
            let c = s[i];
            assert(ascii_upper(s)[i] == ascii_upper_char(c));
        }
    }
    assert(ascii_lower(ascii_lower(s)) =~= ascii_lower(s)) by {
        assert forall|i: int| 0 <= i < s.len() implies ascii_lower(ascii_lower(s))[i] == ascii_lower(
            s,
        )[i] by {
            let c = s[i];
            assert(ascii_lower(s)[i] == ascii_lower_char(c));
        }
    }
}

/// FNV-1a (64-bit) of a byte string.
pub open spec fn fnv1a64(bytes: Seq<u8>) -> u64
    decreases bytes.len(),
{
    if bytes.len() == 0 {
        0xcbf2_9ce4_8422_2325u64
    } else {
        (fnv1a64(bytes.drop_last()) ^ (bytes.last() as u64)).wrapping_mul(0x100_0000_01b3u64)
    }
}

/// A stable VM ID for a container: the low 4 bytes of the FNV-1a hash of
/// the container ID's UTF-8 bytes.
pub fn stable_vm_id(container_id: &str) -> (r: u32)
    ensures
        r == (fnv1a64(container_id.spec_bytes()) & 0xffff_ffff) as u32,
{
    let bytes = container_id.as_bytes();
    let n = bytes.len();
    let mut hash: u64 = 0xcbf2_9ce4_8422_2325u64;
    let mut i: usize = 0;
    assert(bytes@.subrange(0, 0) =~= Seq::<u8>::empty());
    while i < n
        invariant
            i <= n,
            n == bytes@.len(),
            hash == fnv1a64(bytes@.subrange(0, i as int)),
        decreases n - i,
    {
        let b = bytes[i];
        hash = (hash ^ (b as u64)).wrapping_mul(0x100_0000_01b3u64);
        proof {
            assert(bytes@.subrange(0, i + 1).drop_last() =~= bytes@.subrange(0, i as int));
        }
        i = i + 1;
    }
    assert(bytes@.subrange(0, n as int) =~= bytes@);
    let low = hash & 0xffff_ffff;
    assert(low <= 0xffff_ffff) by (bit_vector)
        requires
            low == hash & 0xffff_ffff,
    ;
    low as u32
}

/// `prefix` followed by the decimal representation of `n`.
pub open spec fn numbered(prefix: Seq<char>, n: nat) -> Seq<char> {
    prefix + dec(n)
}

/// Name of the tap device of VM `vm_id`: `tap` and the decimal ID.
pub fn tap_name(vm_id: u32) -> (r: String)
    ensures
        r@ == numbered(seq!['t', 'a', 'p'], vm_id as nat),
{
    let mut v: Vec<char> = Vec::new();
    v.push('t');
    v.push('a');
    v.push('p');
    push_dec(&mut v, vm_id as u64);
    assert(v@ =~= numbered(seq!['t', 'a', 'p'], vm_id as nat));
    string_from_chars(v.as_slice())
}

/// Name of the mirror tap that chaining mode creates: `xtap` and the ID.
pub fn mirror_tap_name(vm_id: u32) -> (r: String)
    ensures
        r@ == numbered(seq!['x', 't', 'a', 'p'], vm_id as nat),
{
    let mut v: Vec<char> = Vec::new();
    v.push('x');
    v.push('t');
    v.push('a');
    v.push('p');
    push_dec(&mut v, vm_id as u64);
    assert(v@ =~= numbered(seq!['x', 't', 'a', 'p'], vm_id as nat));
    string_from_chars(v.as_slice())
}

/// A MAC address as six lowercase two-digit hex groups joined by `:`.
pub open spec fn mac_text(m: Seq<u8>) -> Seq<char> {
    hex2(m[0]) + seq![':'] + hex2(m[1]) + seq![':'] + hex2(m[2]) + seq![':'] + hex2(m[3])
        + seq![':'] + hex2(m[4]) + seq![':'] + hex2(m[5])
}

/// Formats a MAC address, e.g. `02:aa:bb:00:00:01`.
pub fn format_mac(mac: &[u8; 6]) -> (r: String)
    ensures
        r@ == mac_text(mac@),
{
    let mut v: Vec<char> = Vec::new();
    push_hex2(&mut v, mac[0]);
    v.push(':');
    push_hex2(&mut v, mac[1]);
    v.push(':');
    push_hex2(&mut v, mac[2]);
    v.push(':');
    push_hex2(&mut v, mac[3]);
    v.push(':');
    push_hex2(&mut v, mac[4]);
    v.push(':');
    push_hex2(&mut v, mac[5]);
    assert(v@ =~= mac_text(mac@));
    string_from_chars(v.as_slice())
}

/// The plugin's answer to the CNI `VERSION` command.
pub fn version_output() -> (r: String)
    ensures
        r@ == "{\"cniVersion\":\"1.0.0\",\"supportedVersions\":[\"0.3.0\",\"0.3.1\",\"0.4.0\",\"1.0.0\"]}"@,
{
    "{\"cniVersion\":\"1.0.0\",\"supportedVersions\":[\"0.3.0\",\"0.3.1\",\"0.4.0\",\"1.0.0\"]}".to_owned()
}

/// Uplink interface used when the CNI config names none.
pub fn default_uplink() -> (r: String)
    ensures
        r@ == "eth0"@,
{
    "eth0".to_owned()
}

/// BPF pin directory used when the CNI config names none.
pub fn default_bpf_pin() -> (r: String)
    ensures
        r@ == "/sys/fs/bpf/caiman"@,
{
    "/sys/fs/bpf/caiman".to_owned()
}

/// `CNI_PATH` used for IPAM plugins when the environment sets none.
pub fn default_cni_path() -> (r: String)
    ensures
        r@ == "/opt/cni/bin:/usr/libexec/cni:/usr/local/lib/cni"@,
{
    "/opt/cni/bin:/usr/libexec/cni:/usr/local/lib/cni".to_owned()
}

/// `dir/name`.
pub open spec fn join_path(dir: Seq<char>, name: Seq<char>) -> Seq<char> {
    dir + seq!['/'] + name
}

/// `dir/name` as a string.
pub fn path_in(dir: &str, name: &str) -> (r: String)
    ensures
        r@ == join_path(dir@, name@),
{
    let mut v: Vec<char> = Vec::new();
    extend_str(&mut v, dir);
    v.push('/');
    extend_str(&mut v, name);
    assert(v@ =~= join_path(dir@, name@));
    string_from_chars(v.as_slice())
}

/// Where an IPAM plugin binary is looked for, in order of preference.
pub fn cni_binary_candidates(name: &str) -> (r: Vec<String>)
    ensures
        r@.len() == 3,
        r@[0]@ == join_path("/opt/cni/bin"@, name@),
        r@[1]@ == join_path("/usr/libexec/cni"@, name@),
        r@[2]@ == join_path("/usr/local/lib/cni"@, name@),
{
    let mut r: Vec<String> = Vec::new();
    r.push(path_in("/opt/cni/bin", name));
    r.push(path_in("/usr/libexec/cni", name));
    r.push(path_in("/usr/local/lib/cni", name));
    r
}

/// The IPAM plugin binary to run: the first of the candidate paths (in
/// the order of `cni_binary_candidates`) that `present` marks as existing.
pub fn find_cni_binary(name: &str, present: &[bool; 3]) -> (r: Option<String>)
    ensures
        present[0] ==> (r matches Some(p) && p@ == join_path("/opt/cni/bin"@, name@)),
        !present[0] && present[1] ==> (r matches Some(p) && p@ == join_path(
            "/usr/libexec/cni"@,
            name@,
        )),
        !present[0] && !present[1] && present[2] ==> (r matches Some(p) && p@ == join_path(
            "/usr/local/lib/cni"@,
            name@,
        )),
        !present[0] && !present[1] && !present[2] ==> r is None,
{
    if present[0] {
        Some(path_in("/opt/cni/bin", name))
    } else if present[1] {
        Some(path_in("/usr/libexec/cni", name))
    } else if present[2] {
        Some(path_in("/usr/local/lib/cni", name))
    } else {
        None
    }
}

/// An ASCII hexadecimal digit.
pub open spec fn is_hex_digit(c: char) -> bool {
    ('0' <= c <= '9') || ('a' <= c <= 'f') || ('A' <= c <= 'F')
}

/// A PCI address `DDDD:BB:SS.F` (hex domain, bus, slot; function 0-7).
pub open spec fn spec_valid_pci(s: Seq<char>) -> bool {
    &&& s.len() == 12
    &&& is_hex_digit(s[0]) && is_hex_digit(s[1]) && is_hex_digit(s[2]) && is_hex_digit(s[3])
    &&& s[4] == ':'
    &&& is_hex_digit(s[5]) && is_hex_digit(s[6])
    &&& s[7] == ':'
    &&& is_hex_digit(s[8]) && is_hex_digit(s[9])
    &&& s[10] == '.'
    &&& '0' <= s[11] <= '7'
}

fn hex_digit(c: char) -> (r: bool)
    ensures
        r == is_hex_digit(c),
{
    ('0' <= c && c <= '9') || ('a' <= c && c <= 'f') || ('A' <= c && c <= 'F')
}

/// Whether `addr` is a PCI address `DDDD:BB:SS.F`.
pub fn is_valid_pci(addr: &str) -> (r: bool)
    ensures
        r == spec_valid_pci(addr@),
{
    let s = str_chars(addr);
    if s.len() != 12 {
        return false;
    }
    hex_digit(s[0]) && hex_digit(s[1]) && hex_digit(s[2]) && hex_digit(s[3]) && s[4] == ':'
        && hex_digit(s[5]) && hex_digit(s[6]) && s[7] == ':' && hex_digit(s[8]) && hex_digit(s[9])
        && s[10] == '.' && '0' <= s[11] && s[11] <= '7'
}

/// The SR-IOV device to pass through: the config's `deviceID`, else the
/// runtime config's, validated as a PCI address.
pub fn sriov_device_id(config_device: Option<&str>, runtime_device: Option<&str>) -> (r: Result<
    String,
    CniError,
>)
    ensures
        ({
            let chosen = if config_device is Some {
                config_device
            } else {
                runtime_device
            };
            match chosen {
                None => r matches Err(CniError::MissingDeviceId),
                Some(d) => if spec_valid_pci(d@) {
                    r matches Ok(s) && s@ == d@
                } else {
                    r matches Err(CniError::InvalidPciAddress(s)) && s@ == d@
                },
            }
        }),
{
    let chosen = match config_device {
        Some(d) => Some(d),
        None => runtime_device,
    };
    match chosen {
        None => Err(CniError::MissingDeviceId),
        Some(d) => {
            if is_valid_pci(d) {
                Ok(d.to_owned())
            } else {
                Err(CniError::InvalidPciAddress(d.to_owned()))
            }
        },
    }
}

/// State file through which SR-IOV passthrough is handed to the VMM.
pub fn sriov_state_path(container_id: &str) -> (r: String)
    ensures
        r@ == "/var/run/caiman/sriov-"@ + container_id@ + ".json"@,
{
    let mut v: Vec<char> = Vec::new();
    extend_str(&mut v, "/var/run/caiman/sriov-");
    extend_str(&mut v, container_id);
    extend_str(&mut v, ".json");
    string_from_chars(v.as_slice())
}

/// Who owns XDP on an interface, from the lowercased name of the attached
/// program: Cilium's programs, caiman's own (`kvm` programs), or another.
pub open spec fn spec_xdp_owner(lower_name: Seq<char>) -> Seq<char> {
    if contains_seq(lower_name, "cilium"@) {
        "cilium"@
    } else if contains_seq(lower_name, "kvm"@) {
        "caiman"@
    } else {
        lower_name
    }
}

/// Classifies the owner of an interface's XDP slot from the lowercased
/// program name.
pub fn xdp_owner(lower_name: &str) -> (r: String)
    ensures
        r@ == spec_xdp_owner(lower_name@),
{
    let s = str_chars(lower_name);
    let cil = str_chars("cilium");
    let kvm = str_chars("kvm");
    if contains_chars(s.as_slice(), cil.as_slice()) {
        "cilium".to_owned()
    } else if contains_chars(s.as_slice(), kvm.as_slice()) {
        "caiman".to_owned()
    } else {
        lower_name.to_owned()
    }
}

/// Who owns XDP on an interface, from the name of the attached program as
/// the kernel reports it (compared case-insensitively).
pub fn xdp_owner_of(prog_name: &str) -> (r: String)
    ensures
        r@ == spec_xdp_owner(lowercase(prog_name@)),
{
    let l = to_lowercase(prog_name);
    xdp_owner(l.as_str())
}

/// Runtime configuration passed by Multus / the container runtime.
pub struct RuntimeConfig {
    pub mac: Option<String>,
    pub bandwidth: Option<BandwidthEntry>,
    pub port_mappings: Option<Vec<PortMapping>>,
    pub device_id: Option<String>,
}

/// Bandwidth limits of the interface.
#[derive(Debug, Clone, Copy)]
pub struct BandwidthEntry {
    pub ingress_rate: u64,
    pub egress_rate: u64,
    pub ingress_burst: u64,
    pub egress_burst: u64,
}

/// A host-port to container-port mapping.
#[derive(Debug)]
pub struct PortMapping {
    pub host_port: u16,
    pub container_port: u16,
    pub protocol: String,
}

/// Antrea (Open vSwitch) adapter.
pub struct AntreaAdapter;

/// Cilium (eBPF coexistence) adapter.
pub struct CiliumAdapter;

/// SR-IOV VF passthrough adapter.
pub struct SrIovAdapter;

/// Weave Net mesh adapter.
pub struct WeaveAdapter;

} // verus!
