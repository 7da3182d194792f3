use caiman::import::{
    aws_describe_args, aws_region,
    api_login, aws_vm, discover_source, dominfo_args, harvester_vm, import_result, import_source,
    libvirt_vm, nova_url, nutanix_vm, openstack_vm, oraclevm_vm, ovirt_vm, parse_dominfo,
    parse_k8s_mem, proxmox_vm, required, virsh_list_args, virsh_names, vsphere_vm,
    CatalogEndpoint, CatalogService, Credentials, SourceKind,
};

fn s(x: &str) -> Option<String> {
    Some(x.to_string())
}

fn creds() -> Credentials {
    Credentials { host: None, user: None, pass: None, port: None, key: None, secret: None, region: None }
}

#[test]
fn source_names_select_connectors() {
    assert_eq!(discover_source("proxmox").ok(), Some(SourceKind::Proxmox));
    assert_eq!(discover_source("olvm").ok(), Some(SourceKind::Ovirt));
    assert_eq!(discover_source("ovf").ok(), Some(SourceKind::Ovf));
    assert_eq!(discover_source("xen").err().unwrap(), "unknown source: xen");
    assert_eq!(import_source("harvester").ok(), Some(SourceKind::Harvester));
    assert_eq!(import_source("ovf").err().unwrap(), "unknown source: ovf");
    assert_eq!(import_source("hyperv").err().unwrap(), "unknown source: hyperv");
}

#[test]
fn logins_are_checked_in_order() {
    let mut c = creds();
    assert_eq!(api_login(&c, "host required").err().unwrap(), "host required");
    c.host = s("pve");
    assert_eq!(api_login(&c, "host required").err().unwrap(), "user required");
    c.user = s("root@pam");
    assert_eq!(api_login(&c, "host required").err().unwrap(), "pass required");
    c.pass = s("pw");
    let l = api_login(&c, "host required").ok().unwrap();
    assert_eq!((l.host.as_str(), l.user.as_str(), l.pass.as_str()), ("pve", "root@pam", "pw"));
    assert_eq!(required(&None, "region required").err().unwrap(), "region required");
    assert_eq!(required(&s("eu"), "region required").ok().unwrap(), "eu");
}

#[test]
fn proxmox_guest_defaults() {
    let v = proxmox_vm(Some(101), &s("db"), Some(4), Some(4294967296), Some(34359738368), &s("running"));
    assert_eq!((v.id.as_str(), v.source_id.as_str(), v.name.as_str()), ("101", "101", "db"));
    assert_eq!((v.cpus, v.mem_mib, v.disk_gb), (4, 4096, 32));
    assert_eq!((v.os.as_str(), v.status.as_str()), ("Linux", "running"));
    let v = proxmox_vm(None, &None, None, None, None, &None);
    assert_eq!((v.id.as_str(), v.name.as_str(), v.cpus, v.mem_mib, v.disk_gb), ("0", "unknown", 1, 512, 10));
    assert_eq!(v.status, "unknown");
}

#[test]
fn cloud_guest_defaults() {
    let v = vsphere_vm(&s("vm-17"), &None, None, None, &s("POWERED_ON"));
    assert_eq!((v.id.as_str(), v.name.as_str(), v.cpus, v.mem_mib, v.disk_gb), ("vm-17", "unknown", 1, 512, 40));
    assert_eq!(v.status, "powered_on");
    let v = aws_vm(&s("i-0abc"), &None, &s("running"));
    assert_eq!((v.name.as_str(), v.cpus, v.mem_mib, v.disk_gb, v.os.as_str()), ("i-0abc", 2, 2048, 40, "Unknown"));
    let v = openstack_vm(&s("u1"), &s("web"), &s("ACTIVE"), Some(2), Some(4096), Some(80));
    assert_eq!((v.cpus, v.mem_mib, v.disk_gb, v.status.as_str()), (2, 4096, 80, "active"));
    let v = openstack_vm(&None, &None, &None, None, None, None);
    assert_eq!((v.id.as_str(), v.cpus, v.mem_mib, v.disk_gb), ("", 1, 512, 10));
}

#[test]
fn datacenter_guest_defaults() {
    let v = ovirt_vm(&s("o1"), &s("app"), &s("Up"), Some(8), Some(8589934592));
    assert_eq!((v.cpus, v.mem_mib, v.disk_gb, v.status.as_str()), (8, 8192, 40, "up"));
    let v = nutanix_vm(&s("n1"), &None, None, Some(1024), &s("ON"));
    assert_eq!((v.id.as_str(), v.cpus, v.mem_mib, v.status.as_str()), ("n1", 1, 1024, "on"));
    let v = oraclevm_vm(&s("x"), &s("ora"), Some(2), None, &s("RUNNING"));
    assert_eq!((v.mem_mib, v.status.as_str()), (512, "running"));
    let v = oraclevm_vm(&s("x"), &s("ora"), Some(2), Some(2097152), &None);
    assert_eq!((v.mem_mib, v.status.as_str()), (2048, "unknown"));
    let v = harvester_vm(&s("vm1"), &None, Some(2), 2048, &s("Running"));
    assert_eq!((v.id.as_str(), v.name.as_str(), v.mem_mib, v.status.as_str()), ("default/vm1", "vm1", 2048, "running"));
}

#[test]
fn kubernetes_memory_quantities() {
    assert_eq!(parse_k8s_mem("512Mi"), Some(512));
    assert_eq!(parse_k8s_mem("2Gi"), Some(2048));
    assert_eq!(parse_k8s_mem("1G"), Some(953));
    assert_eq!(parse_k8s_mem("1024M"), Some(976));
    assert_eq!(parse_k8s_mem("2000M"), Some(1907));
    assert_eq!(parse_k8s_mem("4294967296G"), Some(u32::MAX));
    assert_eq!(parse_k8s_mem("100Ki"), Some(0));
    assert_eq!(parse_k8s_mem("2097152Ki"), Some(2048));
    assert_eq!(parse_k8s_mem("Gi"), Some(524288));
    assert_eq!(parse_k8s_mem("768"), Some(768));
    assert_eq!(parse_k8s_mem("1.5Gi"), None);
    assert_eq!(parse_k8s_mem("1.2.3Gi"), Some(524288));
    assert_eq!(parse_k8s_mem(".Mi"), Some(512));
}

#[test]
fn libvirt_listing_and_dominfo() {
    assert_eq!(virsh_names("web\n  db  \n\n\ncache\n"), vec!["web", "db", "cache"]);
    assert!(virsh_names("\n\n").is_empty());
    let info = "Id:             3\nName:           web\nState:          running\nCPU(s):         4\nMax memory:     4194304 KiB\n";
    assert_eq!(parse_dominfo(info), (4, 4096, "running".to_string()));
    assert_eq!(parse_dominfo(""), (1, 512, "unknown".to_string()));
    let v = libvirt_vm("web", info);
    assert_eq!((v.id.as_str(), v.cpus, v.mem_mib, v.disk_gb, v.os.as_str()), ("web", 4, 4096, 40, "Linux"));
    assert_eq!(
        virsh_list_args("root", "kvm1", ""),
        vec!["-o", "StrictHostKeyChecking=no", "-o", "PasswordAuthentication=no", "root@kvm1", "virsh list --all --name"]
    );
    assert_eq!(virsh_list_args("root", "kvm1", "pw")[3], "PasswordAuthentication=yes");
    assert_eq!(
        dominfo_args("root", "kvm1", "web"),
        vec!["-o", "StrictHostKeyChecking=no", "root@kvm1", "virsh dominfo web 2>/dev/null"]
    );
}

#[test]
fn nova_endpoint_from_catalog() {
    let dflt = "http://localhost:8774/v2.1";
    assert_eq!(nova_url(&None, "RegionOne"), dflt);
    let catalog = vec![
        CatalogService { kind: s("identity"), endpoints: Some(vec![]) },
        CatalogService {
            kind: s("compute"),
            endpoints: Some(vec![
                CatalogEndpoint { interface: s("internal"), region: s("RegionOne"), url: s("http://int:8774") },
                CatalogEndpoint { interface: s("public"), region: s("RegionTwo"), url: s("http://two:8774") },
                CatalogEndpoint { interface: s("public"), region: s("RegionOne"), url: s("http://pub:8774") },
            ]),
        },
    ];
    let cat = Some(catalog);
    assert_eq!(nova_url(&cat, "RegionOne"), "http://pub:8774");
    assert_eq!(nova_url(&cat, "RegionTwo"), "http://two:8774");
    assert_eq!(nova_url(&cat, "RegionThree"), dflt);
}

#[test]
fn import_replies() {
    let v = aws_vm(&s("i-1"), &s("web"), &None);
    let r = import_result(SourceKind::Libvirt, &v, "vm-1234".to_string());
    assert_eq!((r.vm_id.as_str(), r.name.as_str(), r.status.as_str()), ("vm-1234", "web", "imported"));
    assert_eq!(r.message, "VM registered. Disk rsync queued.");
    let r = import_result(SourceKind::Proxmox, &v, "x".to_string());
    assert_eq!(r.message, "VM registered in Caiman. Disk transfer queued.");
}

#[test]
fn aws_listing_arguments() {
    assert_eq!(aws_region(&None), "us-east-1");
    assert_eq!(aws_region(&Some("eu-west-1".to_string())), "eu-west-1");
    let a = aws_describe_args("eu-west-1");
    assert_eq!(a.len(), 8);
    assert_eq!(&a[..4], &["ec2", "describe-instances", "--region", "eu-west-1"]);
    assert_eq!(a[4], "--query");
    assert!(a[5].starts_with("Reservations[*].Instances[*].{id:InstanceId"));
    assert_eq!(&a[6..], &["--output", "json"]);
}
