//! The CNI plugin's decisions: which ecosystem is active, which mode a
//! command runs in, the commands each ecosystem adapter runs, the Cilium
//! endpoint's addressing and labels, the subnet Flannel hands out, and the
//! interface a chained plugin builds on. Probing files, running commands
//! and talking to agents are the caller's.
use vstd::prelude::*;
use crate::cni::EcosystemKind;
use crate::text::{
    char_views, contains_chars, contains_seq, extend_str, first_with_prefix, has_prefix, lines,
    push_str, slice_chars, split_lines, starts_with, str_chars, string_from_chars, string_views,
    trim, trim_chars,
};

verus! {

/// What probing the node found: the agent sockets and marker files of
/// each ecosystem.
pub struct Probes {
    pub cilium_sock: bool,
    pub calico_felix_sock: bool,
    pub calico_conflist: bool,
    pub antrea_sock: bool,
    pub flannel_subnet_env: bool,
    pub flannel_conflist: bool,
    pub weave_sock: bool,
}

/// The ecosystem in order of precedence: SR-IOV (a device ID configured,
/// or `SRIOV_RESOURCE` set), Cilium, Calico, Flannel, Antrea, Weave; else
/// standalone.
pub open spec fn spec_detect(device_id_set: bool, sriov_env: bool, p: Probes) -> EcosystemKind {
    if device_id_set || sriov_env {
        EcosystemKind::SrIov
    } else if p.cilium_sock {
        EcosystemKind::Cilium
    } else if p.calico_felix_sock || p.calico_conflist {
        EcosystemKind::Calico
    } else if p.flannel_subnet_env || p.flannel_conflist {
        EcosystemKind::Flannel
    } else if p.antrea_sock {
        EcosystemKind::Antrea
    } else if p.weave_sock {
        EcosystemKind::Weave
    } else {
        EcosystemKind::Standalone
    }
}

/// Which ecosystem is detected, by what was found: SR-IOV when a device
/// is configured or `SRIOV_RESOURCE` is set; otherwise the first ecosystem
/// whose marker is present, in the order Cilium (agent socket), Calico
/// (Felix socket or conflist), Flannel (subnet file or conflist), Antrea
/// (agent socket), Weave (socket); standalone when none is.
pub proof fn lemma_detection_order(device_id_set: bool, sriov_env: bool, p: Probes)
    ensures
        ({
            let r = spec_detect(device_id_set, sriov_env, p);
            let sriov = device_id_set || sriov_env;
            let cilium = p.cilium_sock;
            let calico = p.calico_felix_sock || p.calico_conflist;
            let flannel = p.flannel_subnet_env || p.flannel_conflist;
            let antrea = p.antrea_sock;
            let weave = p.weave_sock;
            &&& (r == EcosystemKind::SrIov) <==> sriov
            &&& (r == EcosystemKind::Cilium) <==> (!sriov && cilium)
            &&& (r == EcosystemKind::Calico) <==> (!sriov && !cilium && calico)
            &&& (r == EcosystemKind::Flannel) <==> (!sriov && !cilium && !calico && flannel)
            &&& (r == EcosystemKind::Antrea) <==> (!sriov && !cilium && !calico && !flannel
                && antrea)
            &&& (r == EcosystemKind::Weave) <==> (!sriov && !cilium && !calico && !flannel
                && !antrea && weave)
            &&& (r == EcosystemKind::Standalone) <==> (!sriov && !cilium && !calico && !flannel
                && !antrea && !weave)
        }),
{
}

/// Detects the active ecosystem from what was probed.
pub fn detect_ecosystem(device_id_set: bool, sriov_env: bool, p: &Probes) -> (r: EcosystemKind)
    ensures
        r == spec_detect(device_id_set, sriov_env, *p),
        (r == EcosystemKind::SrIov) <==> (device_id_set || sriov_env),
        (r == EcosystemKind::Calico) <==> (!device_id_set && !sriov_env && !p.cilium_sock && (
        p.calico_felix_sock || p.calico_conflist)),
        (r == EcosystemKind::Flannel) <==> (!device_id_set && !sriov_env && !p.cilium_sock
            && !p.calico_felix_sock && !p.calico_conflist && (p.flannel_subnet_env
            || p.flannel_conflist)),
{
    proof {
        lemma_detection_order(device_id_set, sriov_env, *p);
    }
    if device_id_set || sriov_env {
        EcosystemKind::SrIov
    } else if p.cilium_sock {
        EcosystemKind::Cilium
    } else if p.calico_felix_sock || p.calico_conflist {
        EcosystemKind::Calico
    } else if p.flannel_subnet_env || p.flannel_conflist {
        EcosystemKind::Flannel
    } else if p.antrea_sock {
        EcosystemKind::Antrea
    } else if p.weave_sock {
        EcosystemKind::Weave
    } else {
        EcosystemKind::Standalone
    }
}

/// What a CNI invocation does.
#[derive(PartialEq, Eq, Structural, Clone, Copy, Debug)]
pub enum CniAction {
    SriovAdd,
    MultusAdd,
    ChainedAdd,
    PrimaryAdd,
    SriovDel,
    MultusDel,
    PrimaryDel,
    Check,
    Version,
}

/// The mode of a command: for `ADD`, SR-IOV first, then a Multus
/// secondary interface, then chaining when a previous result is present,
/// else the primary interface; `DEL` likewise without chaining; `CHECK`;
/// `VERSION`; anything else is refused.
pub fn cni_action(command: &str, kind: EcosystemKind, multus_secondary: bool, has_prev_result: bool) -> (r: Result<CniAction, String>)
    ensures
        command@ == "ADD"@ ==> r == Ok::<CniAction, String>(
            if kind == EcosystemKind::SrIov {
                CniAction::SriovAdd
            } else if multus_secondary {
                CniAction::MultusAdd
            } else if has_prev_result {
                CniAction::ChainedAdd
            } else {
                CniAction::PrimaryAdd
            },
        ),
        command@ == "DEL"@ ==> r == Ok::<CniAction, String>(
            if kind == EcosystemKind::SrIov {
                CniAction::SriovDel
            } else if multus_secondary {
                CniAction::MultusDel
            } else {
                CniAction::PrimaryDel
            },
        ),
        command@ == "CHECK"@ ==> r == Ok::<CniAction, String>(CniAction::Check),
        command@ == "VERSION"@ ==> r == Ok::<CniAction, String>(CniAction::Version),
        command@ != "ADD"@ && command@ != "DEL"@ && command@ != "CHECK"@ && command@ != "VERSION"@
            ==> (r matches Err(e) && e@ == "unknown CNI_COMMAND: "@ + command@),
{
    proof {
        reveal_strlit("ADD");
        reveal_strlit("DEL");
        reveal_strlit("CHECK");
        reveal_strlit("VERSION");
        assert("ADD"@[0] == 'A' && "DEL"@[0] == 'D' && "CHECK"@[0] == 'C' && "VERSION"@[0] == 'V');
    }
    if crate::text::str_eq(command, "ADD") {
        if kind == EcosystemKind::SrIov {
            Ok(CniAction::SriovAdd)
        } else if multus_secondary {
            Ok(CniAction::MultusAdd)
        } else if has_prev_result {
            Ok(CniAction::ChainedAdd)
        } else {
            Ok(CniAction::PrimaryAdd)
        }
    } else if crate::text::str_eq(command, "DEL") {
        if kind == EcosystemKind::SrIov {
            Ok(CniAction::SriovDel)
        } else if multus_secondary {
            Ok(CniAction::MultusDel)
        } else {
            Ok(CniAction::PrimaryDel)
        }
    } else if crate::text::str_eq(command, "CHECK") {
        Ok(CniAction::Check)
    } else if crate::text::str_eq(command, "VERSION") {
        Ok(CniAction::Version)
    } else {
        let mut v = str_chars("unknown CNI_COMMAND: ");
        extend_str(&mut v, command);
        Err(string_from_chars(v.as_slice()))
    }
}

/// The failure of a health check whose tap is gone.
pub fn missing_tap_message(tap: &str, container_id: &str) -> (r: String)
    ensures
        r@ == "tap device "@ + tap@ + " not found for container "@ + container_id@,
{
    let mut v = str_chars("tap device ");
    extend_str(&mut v, tap);
    extend_str(&mut v, " not found for container ");
    extend_str(&mut v, container_id);
    string_from_chars(v.as_slice())
}

/// The OVS bridge Antrea plugs VMs into.
pub open spec fn ovs_bridge() -> Seq<char> {
    "br-int"@
}

/// `ovs-vsctl` arguments that add a tap to the bridge.
pub fn ovs_add_port_args(port: &str) -> (r: Vec<String>)
    ensures
        string_views(r@) == seq!["--may-exist"@, "add-port"@, ovs_bridge(), port@],
{
    let mut a: Vec<String> = Vec::new();
    push_str(&mut a, "--may-exist");
    push_str(&mut a, "add-port");
    push_str(&mut a, "br-int");
    push_str(&mut a, port);
    a
}

/// `ovs-vsctl` arguments that remove a tap from the bridge.
pub fn ovs_del_port_args(port: &str) -> (r: Vec<String>)
    ensures
        string_views(r@) == seq!["--if-exists"@, "del-port"@, ovs_bridge(), port@],
{
    let mut a: Vec<String> = Vec::new();
    push_str(&mut a, "--if-exists");
    push_str(&mut a, "del-port");
    push_str(&mut a, "br-int");
    push_str(&mut a, port);
    a
}

/// `ovs-vsctl` arguments that tag a tap's interface for Antrea.
pub fn ovs_external_ids_args(port: &str, container_id: &str) -> (r: Vec<String>)
    ensures
        string_views(r@) == seq![
            "set"@,
            "interface"@,
            port@,
            "external-ids:container_id="@ + container_id@,
            "external-ids:attached-mac="@,
            "external-ids:antrea-type=caiman"@,
        ],
{
    let mut a: Vec<String> = Vec::new();
    push_str(&mut a, "set");
    push_str(&mut a, "interface");
    push_str(&mut a, port);
    let mut c = str_chars("external-ids:container_id=");
    extend_str(&mut c, container_id);
    let cs = string_from_chars(c.as_slice());
    push_str(&mut a, cs.as_str());
    push_str(&mut a, "external-ids:attached-mac=");
    push_str(&mut a, "external-ids:antrea-type=caiman");
    a
}

/// `ovs-vsctl` arguments that look a tap's port up.
pub fn ovs_find_port_args(port: &str) -> (r: Vec<String>)
    ensures
        string_views(r@) == seq!["find"@, "port"@, "name="@ + port@],
{
    let mut a: Vec<String> = Vec::new();
    push_str(&mut a, "find");
    push_str(&mut a, "port");
    let mut c = str_chars("name=");
    extend_str(&mut c, port);
    let cs = string_from_chars(c.as_slice());
    push_str(&mut a, cs.as_str());
    a
}

/// The failure of an Antrea health check whose port is gone.
pub fn missing_port_message(port: &str) -> (r: String)
    ensures
        r@ == "OVS port "@ + port@ + " not found in "@ + ovs_bridge(),
{
    let mut v = str_chars("OVS port ");
    extend_str(&mut v, port);
    extend_str(&mut v, " not found in br-int");
    proof {
        reveal_strlit(" not found in br-int");
        reveal_strlit(" not found in ");
        reveal_strlit("br-int");
        assert(" not found in br-int"@ =~= " not found in "@ + "br-int"@);
    }
    let r = string_from_chars(v.as_slice());
    assert(r@ =~= "OVS port "@ + port@ + " not found in "@ + ovs_bridge());
    r
}

/// `ip` arguments that put a tap on (`attach`) or take it off the Weave
/// bridge.
pub fn weave_link_args(tap: &str, attach: bool) -> (r: Vec<String>)
    ensures
        attach ==> string_views(r@) == seq!["link"@, "set"@, tap@, "master"@, "weave"@],
        !attach ==> string_views(r@) == seq!["link"@, "set"@, tap@, "nomaster"@],
{
    let mut a: Vec<String> = Vec::new();
    push_str(&mut a, "link");
    push_str(&mut a, "set");
    push_str(&mut a, tap);
    if attach {
        push_str(&mut a, "master");
        push_str(&mut a, "weave");
    } else {
        push_str(&mut a, "nomaster");
    }
    a
}

/// Whether caiman falls back to TC ingress: whenever someone (Cilium or
/// anyone else) already owns the uplink's XDP slot.
pub fn needs_tc_fallback(xdp_owner: Option<&str>) -> (r: bool)
    ensures
        r == xdp_owner is Some,
{
    xdp_owner.is_some()
}

/// `tc` arguments that add the `clsact` qdisc to the uplink.
pub fn tc_qdisc_args(uplink: &str) -> (r: Vec<String>)
    ensures
        string_views(r@) == seq!["qdisc"@, "add"@, "dev"@, uplink@, "clsact"@],
{
    let mut a: Vec<String> = Vec::new();
    push_str(&mut a, "qdisc");
    push_str(&mut a, "add");
    push_str(&mut a, "dev");
    push_str(&mut a, uplink);
    push_str(&mut a, "clsact");
    a
}

/// `tc` arguments that attach the router program at the uplink's ingress.
pub fn tc_filter_add_args(uplink: &str) -> (r: Vec<String>)
    ensures
        string_views(r@) == seq![
            "filter"@,
            "add"@,
            "dev"@,
            uplink@,
            "ingress"@,
            "bpf"@,
            "da"@,
            "obj"@,
            "/usr/local/lib/caiman/xdp_vm_router.o"@,
            "sec"@,
            "tc"@,
            "verbose"@,
        ],
{
    let mut a: Vec<String> = Vec::new();
    push_str(&mut a, "filter");
    push_str(&mut a, "add");
    push_str(&mut a, "dev");
    push_str(&mut a, uplink);
    push_str(&mut a, "ingress");
    push_str(&mut a, "bpf");
    push_str(&mut a, "da");
    push_str(&mut a, "obj");
    push_str(&mut a, "/usr/local/lib/caiman/xdp_vm_router.o");
    push_str(&mut a, "sec");
    push_str(&mut a, "tc");
    push_str(&mut a, "verbose");
    a
}

/// `tc` arguments that remove the ingress filter.
pub fn tc_filter_del_args(uplink: &str) -> (r: Vec<String>)
    ensures
        string_views(r@) == seq!["filter"@, "del"@, "dev"@, uplink@, "ingress"@],
{
    let mut a: Vec<String> = Vec::new();
    push_str(&mut a, "filter");
    push_str(&mut a, "del");
    push_str(&mut a, "dev");
    push_str(&mut a, uplink);
    push_str(&mut a, "ingress");
    a
}

/// An address registered with Cilium: IPv6 when it holds a `:`.
pub fn address_pair(addr: &str) -> (r: (Option<String>, Option<String>))
    ensures
        contains_seq(addr@, ":"@) ==> (r.0 is None && (r.1 matches Some(a) && a@ == addr@)),
        !contains_seq(addr@, ":"@) ==> ((r.0 matches Some(a) && a@ == addr@) && r.1 is None),
{
    let c = str_chars(addr);
    let colon = str_chars(":");
    if contains_chars(c.as_slice(), colon.as_slice()) {
        (None, Some(addr.to_owned()))
    } else {
        (Some(addr.to_owned()), None)
    }
}

/// The labels of a VM's Cilium endpoint: its container ID's first twelve
/// characters and the default namespace.
pub fn endpoint_labels(container_id: &str) -> (r: Vec<String>)
    requires
        container_id@.len() >= 12,
        crate::text::all_ascii(container_id@),
    ensures
        string_views(r@) == seq![
            "k8s:caiman.io/vm="@ + container_id@.subrange(0, 12),
            "k8s:io.kubernetes.pod.namespace=default"@,
        ],
{
    let c = str_chars(container_id);
    let head = slice_chars(c.as_slice(), 0, 12);
    let mut v = str_chars("k8s:caiman.io/vm=");
    crate::text::extend_chars(&mut v, head.as_slice());
    let l = string_from_chars(v.as_slice());
    let mut a: Vec<String> = Vec::new();
    push_str(&mut a, l.as_str());
    push_str(&mut a, "k8s:io.kubernetes.pod.namespace=default");
    a
}

/// The value of the last line of `ls` starting with `key`, trimmed; empty
/// when none does.
pub open spec fn last_value(ls: Seq<Seq<char>>, key: Seq<char>) -> Seq<char>
    decreases ls.len(),
{
    if ls.len() == 0 {
        Seq::empty()
    } else if has_prefix(ls.last(), key) {
        trim(ls.last().subrange(key.len() as int, ls.last().len() as int))
    } else {
        last_value(ls.drop_last(), key)
    }
}

/// The subnet and gateway Flannel hands out, from its `subnet.env`: the
/// last `FLANNEL_SUBNET=` and `FLANNEL_GATEWAY=` values; without a subnet
/// the file is refused.
pub fn parse_flannel_env(content: &str) -> (r: Result<(String, String), String>)
    ensures
        last_value(lines(content@), "FLANNEL_SUBNET="@).len() == 0 ==> (r matches Err(e) && e@
            == "FLANNEL_SUBNET not found in /run/flannel/subnet.env"@),
        last_value(lines(content@), "FLANNEL_SUBNET="@).len() > 0 ==> (r matches Ok(sg) && sg.0@
            == last_value(lines(content@), "FLANNEL_SUBNET="@) && sg.1@ == last_value(
            lines(content@),
            "FLANNEL_GATEWAY="@,
        )),
{
    let ls = split_lines(str_chars(content).as_slice());
    let ghost all = char_views(ls@);
    let sk = str_chars("FLANNEL_SUBNET=");
    let gk = str_chars("FLANNEL_GATEWAY=");
    let mut subnet: Vec<char> = Vec::new();
    let mut gateway: Vec<char> = Vec::new();
    let n = ls.len();
    let mut i: usize = 0;
    while i < n
        invariant
            i <= n,
            n == ls@.len(),
            all == char_views(ls@),
            all == lines(content@),
            sk@ == "FLANNEL_SUBNET="@,
            gk@ == "FLANNEL_GATEWAY="@,
            subnet@ == last_value(all.subrange(0, i as int), sk@),
            gateway@ == last_value(all.subrange(0, i as int), gk@),
        decreases n - i,
    {
        let ghost pre = all.subrange(0, i + 1);
        assert(pre.drop_last() =~= all.subrange(0, i as int));
        assert(pre.last() == ls@[i as int]@);
        if starts_with(ls[i].as_slice(), sk.as_slice()) {
            let v = slice_chars(ls[i].as_slice(), sk.len(), ls[i].len());
            subnet = trim_chars(v.as_slice());
        }
        if starts_with(ls[i].as_slice(), gk.as_slice()) {
            let v = slice_chars(ls[i].as_slice(), gk.len(), ls[i].len());
            gateway = trim_chars(v.as_slice());
        }
        i = i + 1;
    }
    assert(all.subrange(0, n as int) =~= all);
    if subnet.len() == 0 {
        return Err("FLANNEL_SUBNET not found in /run/flannel/subnet.env".to_owned());
    }
    Ok((string_from_chars(subnet.as_slice()), string_from_chars(gateway.as_slice())))
}

/// An interface of the previous plugin's result.
pub struct PrevInterface {
    pub name: Option<String>,
    pub sandbox: Option<String>,
}

/// Whether an interface lives in a sandbox (a non-empty sandbox path).
pub open spec fn in_sandbox(i: PrevInterface) -> bool {
    match i.sandbox {
        Some(s) => s@.len() > 0,
        None => false,
    }
}

/// Index of the first interface in a sandbox, or the count.
pub open spec fn first_sandbox(is: Seq<PrevInterface>) -> int
    decreases is.len(),
{
    if is.len() == 0 {
        0
    } else if in_sandbox(is[0]) {
        0
    } else {
        1 + first_sandbox(is.drop_first())
    }
}

/// The interface a chained plugin accelerates: the name of the first
/// interface in a sandbox (`eth0` when it has none); none without one.
pub fn chained_interface(ifaces: &[PrevInterface]) -> (r: Option<String>)
    ensures
        first_sandbox(ifaces@) >= ifaces@.len() ==> r is None,
        first_sandbox(ifaces@) < ifaces@.len() ==> (r matches Some(n) && n@ == crate::import::or_text(
            ifaces@[first_sandbox(ifaces@)].name,
            "eth0"@,
        )),
{
    let n = ifaces.len();
    let mut i: usize = 0;
    assert(ifaces@.subrange(0, n as int) =~= ifaces@);
    while i < n
        invariant
            i <= n,
            n == ifaces@.len(),
            first_sandbox(ifaces@.subrange(i as int, n as int)) + i == first_sandbox(ifaces@),
        decreases n - i,
    {
        let ghost rest = ifaces@.subrange(i as int, n as int);
        assert(rest[0] == ifaces@[i as int]);
        let hit = match &ifaces[i].sandbox {
            Some(s) => s.as_str().unicode_len() > 0,
            None => false,
        };
        if hit {
            return Some(
                match &ifaces[i].name {
                    Some(nm) => nm.clone(),
                    None => "eth0".to_owned(),
                },
            );
        }
        assert(rest.drop_first() =~= ifaces@.subrange(i + 1, n as int));
        i = i + 1;
    }
    None
}

} // verus!
