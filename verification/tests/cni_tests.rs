use caiman::cni::{
    cni_binary_candidates, default_bpf_pin, find_cni_binary, default_cni_path, default_uplink, format_mac,
    is_valid_pci, mirror_tap_name, path_in, sriov_device_id, sriov_state_path, stable_vm_id,
    tap_name, version_output, xdp_owner, xdp_owner_of, CniError, EcosystemKind,
};
use caiman::cni_flow::{
    address_pair, chained_interface, cni_action, detect_ecosystem, endpoint_labels,
    missing_port_message, missing_tap_message, needs_tc_fallback, ovs_add_port_args,
    ovs_del_port_args, ovs_external_ids_args, ovs_find_port_args, parse_flannel_env,
    tc_filter_add_args, tc_filter_del_args, tc_qdisc_args, weave_link_args, CniAction,
    PrevInterface, Probes,
};

fn no_probes() -> Probes {
    Probes {
        cilium_sock: false,
        calico_felix_sock: false,
        calico_conflist: false,
        antrea_sock: false,
        flannel_subnet_env: false,
        flannel_conflist: false,
        weave_sock: false,
    }
}

#[test]
fn adapter_names_parse_case_insensitively() {
    assert!(matches!(EcosystemKind::from_str("Calico"), Ok(EcosystemKind::Calico)));
    assert!(matches!(EcosystemKind::from_str("CILIUM"), Ok(EcosystemKind::Cilium)));
    assert!(matches!(EcosystemKind::from_str("sr-iov"), Ok(EcosystemKind::SrIov)));
    assert!(matches!(EcosystemKind::from_str("SRIOV"), Ok(EcosystemKind::SrIov)));
    assert!(matches!(EcosystemKind::from_str("weave"), Ok(EcosystemKind::Weave)));
    assert!(matches!(EcosystemKind::from_str("standalone"), Ok(EcosystemKind::Standalone)));
    assert!(matches!(EcosystemKind::from_str("Flannel"), Ok(EcosystemKind::Flannel)));
    assert!(matches!(EcosystemKind::from_str("antrea"), Ok(EcosystemKind::Antrea)));
    assert!(matches!(EcosystemKind::from_str("wEaVe"), Ok(EcosystemKind::Weave)));
    assert!(matches!(EcosystemKind::from_str("SR-IOV"), Ok(EcosystemKind::SrIov)));
}

#[test]
fn unknown_adapter_is_reported_lowercased() {
    match EcosystemKind::from_str("Kube-Router") {
        Err(CniError::UnknownAdapter(m)) => assert_eq!(m, "kube-router"),
        _ => panic!("expected an unknown adapter"),
    }
}

#[test]
fn stable_vm_id_is_fnv1a_low_bits() {
    assert_eq!(stable_vm_id(""), 0x8422_2325);
    assert_eq!(stable_vm_id("abc"), 88168267);
    assert_eq!(stable_vm_id("container-1234"), 3811094559);
    assert_eq!(stable_vm_id("abc"), stable_vm_id("abc"));
}

#[test]
fn tap_names_carry_the_vm_id() {
    assert_eq!(tap_name(42), "tap42");
    assert_eq!(tap_name(0), "tap0");
    assert_eq!(mirror_tap_name(65535), "xtap65535");
}

#[test]
fn mac_is_lowercase_hex_pairs() {
    assert_eq!(format_mac(&[0x02, 0xaa, 0xbb, 0x00, 0x00, 0x01]), "02:aa:bb:00:00:01");
    assert_eq!(format_mac(&[0xff, 0x0f, 0xf0, 0x10, 0x09, 0xab]), "ff:0f:f0:10:09:ab");
}

#[test]
fn fixed_defaults() {
    assert_eq!(
        version_output(),
        "{\"cniVersion\":\"1.0.0\",\"supportedVersions\":[\"0.3.0\",\"0.3.1\",\"0.4.0\",\"1.0.0\"]}"
    );
    assert_eq!(default_uplink(), "eth0");
    assert_eq!(default_bpf_pin(), "/sys/fs/bpf/caiman");
    assert_eq!(default_cni_path(), "/opt/cni/bin:/usr/libexec/cni:/usr/local/lib/cni");
}

#[test]
fn plugin_lookup_paths() {
    assert_eq!(path_in("/opt/cni/bin", "host-local"), "/opt/cni/bin/host-local");
    assert_eq!(
        cni_binary_candidates("dhcp"),
        vec!["/opt/cni/bin/dhcp", "/usr/libexec/cni/dhcp", "/usr/local/lib/cni/dhcp"]
    );
}

#[test]
fn pci_addresses_are_validated() {
    assert!(is_valid_pci("0000:3b:02.1"));
    assert!(is_valid_pci("ABCD:ef:1F.7"));
    assert!(!is_valid_pci("0000:3b:02.8"));
    assert!(!is_valid_pci("0000-3b:02.1"));
    assert!(!is_valid_pci("000:3b:02.1"));
    assert!(!is_valid_pci("0000:3g:02.1"));
}

#[test]
fn sriov_device_prefers_the_config() {
    assert_eq!(
        sriov_device_id(Some("0000:3b:02.1"), Some("0000:3b:02.2")).ok().unwrap(),
        "0000:3b:02.1"
    );
    assert_eq!(sriov_device_id(None, Some("0000:3b:02.2")).ok().unwrap(), "0000:3b:02.2");
    assert!(matches!(sriov_device_id(None, None), Err(CniError::MissingDeviceId)));
    match sriov_device_id(Some("eth1"), None) {
        Err(CniError::InvalidPciAddress(s)) => assert_eq!(s, "eth1"),
        _ => panic!("expected an invalid address"),
    }
}

#[test]
fn sriov_state_file_path() {
    assert_eq!(sriov_state_path("abc"), "/var/run/caiman/sriov-abc.json");
}

#[test]
fn xdp_owner_is_classified() {
    assert_eq!(xdp_owner("cilium_xdp_entry"), "cilium");
    assert_eq!(xdp_owner("kvm_router"), "caiman");
    assert_eq!(xdp_owner("other_prog"), "other_prog");
    assert_eq!(xdp_owner_of("Cilium_XDP"), "cilium");
    assert_eq!(xdp_owner_of("KVM_Router"), "caiman");
    assert_eq!(xdp_owner_of("MyProg"), "myprog");
}

#[test]
fn ecosystem_detection_precedence() {
    let mut p = no_probes();
    assert_eq!(detect_ecosystem(false, false, &p), EcosystemKind::Standalone);
    p.weave_sock = true;
    assert_eq!(detect_ecosystem(false, false, &p), EcosystemKind::Weave);
    p.antrea_sock = true;
    assert_eq!(detect_ecosystem(false, false, &p), EcosystemKind::Antrea);
    p.flannel_conflist = true;
    assert_eq!(detect_ecosystem(false, false, &p), EcosystemKind::Flannel);
    p.flannel_conflist = false;
    p.flannel_subnet_env = true;
    assert_eq!(detect_ecosystem(false, false, &p), EcosystemKind::Flannel);
    p.calico_conflist = true;
    assert_eq!(detect_ecosystem(false, false, &p), EcosystemKind::Calico);
    p.cilium_sock = true;
    assert_eq!(detect_ecosystem(false, false, &p), EcosystemKind::Cilium);
    assert_eq!(detect_ecosystem(false, true, &p), EcosystemKind::SrIov);
    assert_eq!(detect_ecosystem(true, false, &p), EcosystemKind::SrIov);
}

#[test]
fn cni_commands_select_modes() {
    assert_eq!(cni_action("ADD", EcosystemKind::SrIov, true, true).ok().unwrap(), CniAction::SriovAdd);
    assert_eq!(cni_action("ADD", EcosystemKind::Calico, true, true).ok().unwrap(), CniAction::MultusAdd);
    assert_eq!(cni_action("ADD", EcosystemKind::Calico, false, true).ok().unwrap(), CniAction::ChainedAdd);
    assert_eq!(cni_action("ADD", EcosystemKind::Calico, false, false).ok().unwrap(), CniAction::PrimaryAdd);
    assert_eq!(cni_action("DEL", EcosystemKind::SrIov, false, false).ok().unwrap(), CniAction::SriovDel);
    assert_eq!(cni_action("DEL", EcosystemKind::Weave, true, false).ok().unwrap(), CniAction::MultusDel);
    assert_eq!(cni_action("DEL", EcosystemKind::Weave, false, true).ok().unwrap(), CniAction::PrimaryDel);
    assert_eq!(cni_action("CHECK", EcosystemKind::Weave, false, true).ok().unwrap(), CniAction::Check);
    assert_eq!(cni_action("VERSION", EcosystemKind::Weave, false, true).ok().unwrap(), CniAction::Version);
    assert_eq!(cni_action("GC", EcosystemKind::Weave, false, false).err().unwrap(), "unknown CNI_COMMAND: GC");
}

#[test]
fn adapter_messages() {
    assert_eq!(missing_tap_message("tap7", "c1"), "tap device tap7 not found for container c1");
    assert_eq!(missing_port_message("tap7"), "OVS port tap7 not found in br-int");
}

#[test]
fn ovs_command_arguments() {
    assert_eq!(ovs_add_port_args("tap1"), vec!["--may-exist", "add-port", "br-int", "tap1"]);
    assert_eq!(ovs_del_port_args("tap1"), vec!["--if-exists", "del-port", "br-int", "tap1"]);
    assert_eq!(
        ovs_external_ids_args("tap1", "c9"),
        vec![
            "set",
            "interface",
            "tap1",
            "external-ids:container_id=c9",
            "external-ids:attached-mac=",
            "external-ids:antrea-type=caiman"
        ]
    );
    assert_eq!(ovs_find_port_args("tap1"), vec!["find", "port", "name=tap1"]);
}

#[test]
fn weave_and_tc_arguments() {
    assert_eq!(weave_link_args("tap3", true), vec!["link", "set", "tap3", "master", "weave"]);
    assert_eq!(weave_link_args("tap3", false), vec!["link", "set", "tap3", "nomaster"]);
    assert!(needs_tc_fallback(Some("cilium")));
    assert!(!needs_tc_fallback(None));
    assert_eq!(tc_qdisc_args("eth0"), vec!["qdisc", "add", "dev", "eth0", "clsact"]);
    assert_eq!(tc_filter_add_args("eth0").len(), 12);
    assert_eq!(tc_filter_add_args("eth0")[3], "eth0");
    assert_eq!(tc_filter_add_args("eth0")[8], "/usr/local/lib/caiman/xdp_vm_router.o");
    assert_eq!(tc_filter_del_args("eth0"), vec!["filter", "del", "dev", "eth0", "ingress"]);
}

#[test]
fn cilium_addressing_and_labels() {
    assert_eq!(address_pair("10.0.0.5"), (Some("10.0.0.5".to_string()), None));
    assert_eq!(address_pair("fd00::5"), (None, Some("fd00::5".to_string())));
    assert_eq!(
        endpoint_labels("0123456789abcdef"),
        vec!["k8s:caiman.io/vm=0123456789ab", "k8s:io.kubernetes.pod.namespace=default"]
    );
}

#[test]
fn flannel_env_is_read() {
    let env = "FLANNEL_NETWORK=10.244.0.0/16\nFLANNEL_SUBNET=10.244.1.1/24\nFLANNEL_GATEWAY= 10.244.1.1 \n";
    assert_eq!(
        parse_flannel_env(env).ok().unwrap(),
        ("10.244.1.1/24".to_string(), "10.244.1.1".to_string())
    );
    assert_eq!(
        parse_flannel_env("FLANNEL_MTU=1450\n").err().unwrap(),
        "FLANNEL_SUBNET not found in /run/flannel/subnet.env"
    );
}

#[test]
fn chained_interface_is_first_in_a_sandbox() {
    let ifaces = vec![
        PrevInterface { name: Some("cni0".to_string()), sandbox: None },
        PrevInterface { name: Some("veth1".to_string()), sandbox: Some(String::new()) },
        PrevInterface { name: Some("net1".to_string()), sandbox: Some("/var/run/netns/x".to_string()) },
    ];
    assert_eq!(chained_interface(&ifaces), Some("net1".to_string()));
    let unnamed = vec![PrevInterface { name: None, sandbox: Some("/ns".to_string()) }];
    assert_eq!(chained_interface(&unnamed), Some("eth0".to_string()));
    let none = vec![PrevInterface { name: Some("cni0".to_string()), sandbox: None }];
    assert_eq!(chained_interface(&none), None);
}

#[test]
fn plugin_binary_is_the_first_present() {
    assert_eq!(find_cni_binary("dhcp", &[false, true, true]), Some("/usr/libexec/cni/dhcp".to_string()));
    assert_eq!(find_cni_binary("dhcp", &[true, true, true]), Some("/opt/cni/bin/dhcp".to_string()));
    assert_eq!(find_cni_binary("dhcp", &[false, false, true]), Some("/usr/local/lib/cni/dhcp".to_string()));
    assert_eq!(find_cni_binary("dhcp", &[false, false, false]), None);
}
