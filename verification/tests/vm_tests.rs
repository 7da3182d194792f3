use caiman::vm::{
    apply_ip_config, booting_record, detect_uplink, build_vm_cmdline, choose_disk, copy_opt,
    ip_config_from_stderr, ip_from_config, launch_settings, mark_running, mark_shut_off,
    mark_stopped, reconcile, restart_check, restart_cmdline, restart_record, spawn_cmdline, spawn_defaults, string_or,
    uplink_from_route, vm_mac, vm_tap_name, vmm_args, CreateVmRequest, SpawnDefaults, VmError,
    VmRecord, VmStatus,
};

fn request(name: &str) -> CreateVmRequest {
    CreateVmRequest {
        name: name.to_string(),
        cpus: None,
        mem_mib: None,
        kernel: None,
        initrd: None,
        disk: None,
        base_image: None,
        uplink: None,
        cmdline: None,
        labels: None,
        net_mode: None,
    }
}

fn record() -> VmRecord {
    let d = spawn_defaults(&request("web"));
    booting_record(
        "vm-1a2b3c4d5e6f",
        "web",
        "node-1",
        &d,
        "/var/lib/caiman/vms/vm-1a2b3c4d5e6f.img".to_string(),
        "eth0".to_string(),
        "caim2b3c4d5e6f".to_string(),
        "02:aa:bb:00:1a:2".to_string(),
    )
}

#[test]
fn status_names() {
    assert_eq!(VmStatus::Active.as_str(), "ACTIVE");
    assert_eq!(VmStatus::ShutOff.as_str(), "SHUT_OFF");
    assert_eq!(VmStatus::Migrating.as_str(), "MIGRATING");
    assert_eq!(VmStatus::Booting.as_str(), "BOOTING");
    assert_eq!(VmStatus::Stopped.as_str(), "STOPPED");
    assert_eq!(VmStatus::Error.as_str(), "ERROR");
}

#[test]
fn kernel_cmdline_for_disk_boot() {
    assert_eq!(
        build_vm_cmdline(true, true, ""),
        "earlycon=uart8250,io,0x3f8,115200n8 console=ttyS0,115200 root=/dev/vda rootfstype=ext4 \
         rw reboot=k panic=1 virtio_mmio.device=0x1000@0xd0000000:5 \
         virtio_mmio.device=0x1000@0xd0010000:6"
    );
}

#[test]
fn kernel_cmdline_with_ip_config() {
    assert_eq!(
        build_vm_cmdline(false, false, "ip=10.0.0.2::10.0.0.1:255.255.255.0::eth0:off"),
        "earlycon=uart8250,io,0x3f8,115200n8 console=ttyS0,115200 rw reboot=k panic=1 \
         virtio_mmio.device=0x1000@0xd0000000:5 ip=10.0.0.2::10.0.0.1:255.255.255.0::eth0:off \
         nameserver=1.1.1.1"
    );
}

#[test]
fn ip_is_taken_from_the_config() {
    assert_eq!(
        ip_from_config("ip=10.0.0.2::10.0.0.1:255.255.255.0::eth0:off"),
        Some("10.0.0.2".to_string())
    );
    assert_eq!(ip_from_config("ip=10.0.0.9"), Some("10.0.0.9".to_string()));
    assert_eq!(ip_from_config("no address"), None);
}

#[test]
fn ip_config_is_found_on_stderr() {
    let err = "starting\nCAIMAN_IP_CONFIG=ip=10.0.0.2::10.0.0.1:255.255.255.0::eth0:off\nCAIMAN_IP_CONFIG=late\n";
    assert_eq!(ip_config_from_stderr(err), "ip=10.0.0.2::10.0.0.1:255.255.255.0::eth0:off");
    assert_eq!(ip_config_from_stderr("nothing here\n"), "");
}

#[test]
fn tap_and_mac_come_from_the_id() {
    assert_eq!(vm_tap_name("vm-1a2b3c4d5e6f"), "caim3c4d5e6f");
    assert_eq!(vm_tap_name("vm-42"), "caimvm-42");
    assert_eq!(vm_mac("vm-1a2b3c4d"), "02:aa:bb:00:1a:2");
    assert_eq!(vm_mac("vm-vm-ab"), "02:aa:bb:00:ab:");
}

#[test]
fn request_defaults() {
    let d = spawn_defaults(&request("db"));
    assert_eq!(d.cpus, 1);
    assert_eq!(d.mem_mib, 256);
    assert_eq!(d.kernel, "/var/lib/caiman/kernels/vmlinuz-alpine");
    assert_eq!(d.base_image, "caiman-base-1.0.img");
    assert_eq!(d.initrd, "/var/lib/caiman/kernels/caiman-initrd.img");
    assert_eq!(d.net_mode, "nat");
    let mut r = request("db");
    r.cpus = Some(4);
    r.mem_mib = Some(2048);
    r.net_mode = Some("bridge".to_string());
    let d = spawn_defaults(&r);
    assert_eq!((d.cpus, d.mem_mib, d.net_mode.as_str()), (4, 2048, "bridge"));
}

#[test]
fn disk_choice() {
    assert_eq!(choose_disk(Some("/c.img".to_string()), &Some("/r.img".to_string())), "/c.img");
    assert_eq!(choose_disk(None, &Some("/r.img".to_string())), "/r.img");
    assert_eq!(choose_disk(None, &None), "/var/lib/caiman/kernels/caiman-rootfs.img");
    assert_eq!(string_or(&None, "x"), "x");
    assert_eq!(copy_opt(&Some("y".to_string())), Some("y".to_string()));
}

#[test]
fn new_record_is_booting() {
    let r = record();
    assert_eq!(r.status, VmStatus::Booting);
    assert_eq!(r.pid, None);
    assert_eq!(r.power_state, "Booting");
    assert_eq!(r.ip, None);
    assert_eq!(r.initrd.as_deref(), Some("/var/lib/caiman/kernels/caiman-initrd.img"));
}

#[test]
fn restart_keeps_identity() {
    let r = record();
    let s = launch_settings(&r);
    assert_eq!(s.disk.as_deref(), Some("/var/lib/caiman/vms/vm-1a2b3c4d5e6f.img"));
    assert_eq!(s.tap, "caim2b3c4d5e6f");
    assert_eq!(s.uplink, "eth0");
    assert_eq!(s.net_mode, "nat");
    let mut bare = record();
    bare.tap = None;
    bare.initrd = None;
    bare.net_mode = None;
    let s = launch_settings(&bare);
    assert_eq!(s.tap, "caim3c4d5e6f");
    assert_eq!(s.initrd, "/var/lib/caiman/kernels/caiman-initrd.img");
}

#[test]
fn spawn_cmdline_prefers_the_request() {
    assert_eq!(spawn_cmdline(&Some("console=ttyS0".to_string()), "ip=1", true), "console=ttyS0");
    assert!(spawn_cmdline(&None, "", true).contains("root=/dev/vda"));
    let with_ip = spawn_cmdline(&None, "ip=10.0.0.2", false);
    assert!(!with_ip.contains("root=/dev/vda"));
    assert!(with_ip.ends_with("ip=10.0.0.2 nameserver=1.1.1.1"));
}

#[test]
fn vmm_arguments() {
    let r = record();
    let s = launch_settings(&r);
    let a = vmm_args("vm-1", "web", &s, "rw");
    assert_eq!(
        a,
        vec![
            "--kernel",
            "/var/lib/caiman/kernels/vmlinuz-alpine",
            "--mem-mib",
            "256",
            "--cpus",
            "1",
            "--tap",
            "caim2b3c4d5e6f",
            "--uplink",
            "eth0",
            "--vm-id",
            "vm-1",
            "--vm-name",
            "web",
            "--cmdline",
            "rw",
            "--initrd",
            "/var/lib/caiman/kernels/caiman-initrd.img",
            "--disk",
            "/var/lib/caiman/vms/vm-1a2b3c4d5e6f.img"
        ]
    );
}

#[test]
fn status_transitions() {
    let mut r = record();
    apply_ip_config(&mut r, "");
    assert_eq!(r.ip, None);
    apply_ip_config(&mut r, "ip=10.0.0.7::10.0.0.1");
    assert_eq!(r.ip.as_deref(), Some("10.0.0.7"));
    let (cpus, mem, kernel, uplink, tap) = (r.cpus, r.mem_mib, r.kernel.clone(), r.uplink.clone(), r.tap.clone());
    mark_running(&mut r, 4242);
    assert_eq!((r.status, r.pid, r.power_state.as_str()), (VmStatus::Active, Some(4242), "Running"));
    assert_eq!((r.cpus, r.mem_mib, &r.kernel, &r.uplink, &r.tap), (cpus, mem, &kernel, &uplink, &tap));
    assert_eq!(r.ip.as_deref(), Some("10.0.0.7"));
    assert!(matches!(restart_check(&r, true), Err(VmError::AlreadyRunning { pid: 4242, .. })));
    assert!(restart_check(&r, false).is_ok());
    assert!(!reconcile(&mut r, true));
    assert_eq!(r.status, VmStatus::Active);
    assert!(reconcile(&mut r, false));
    assert_eq!((r.status, r.power_state.as_str()), (VmStatus::ShutOff, "Stopped"));
    assert!(!reconcile(&mut r, false));
    mark_running(&mut r, 7);
    mark_stopped(&mut r);
    assert_eq!((r.status, r.pid, r.power_state.as_str()), (VmStatus::ShutOff, None, "Running"));
    mark_running(&mut r, 8);
    mark_shut_off(&mut r);
    assert_eq!((r.status, r.pid, r.power_state.as_str()), (VmStatus::ShutOff, None, "Stopped"));
    assert!(restart_check(&r, true).is_ok());
    assert_eq!(r.mac, "02:aa:bb:00:1a:2");
}

#[test]
fn uplink_from_default_route() {
    assert_eq!(
        uplink_from_route("default via 192.168.1.1 dev enp3s0 proto dhcp metric 100\n"),
        Some("enp3s0".to_string())
    );
    assert_eq!(uplink_from_route("default via 192.168.1.1"), None);
    assert_eq!(uplink_from_route("dev"), None);
}

#[test]
fn defaults_struct_is_plain() {
    let d = SpawnDefaults {
        cpus: 2,
        mem_mib: 512,
        kernel: "k".to_string(),
        base_image: "b".to_string(),
        initrd: "i".to_string(),
        net_mode: "none".to_string(),
    };
    let r = booting_record("vm-abc", "n", "h", &d, "d".to_string(), "u".to_string(), "t".to_string(), "m".to_string());
    assert_eq!((r.cpus, r.mem_mib), (2, 512));
    assert_eq!(r.net_mode.as_deref(), Some("none"));
}

#[test]
fn uplink_detection_falls_back_in_order() {
    assert_eq!(detect_uplink(Some("default via 10.0.0.1 dev br0\n"), &[true; 5]), "br0");
    assert_eq!(detect_uplink(Some("no route"), &[false, false, true, true, false]), "enp3s0");
    assert_eq!(detect_uplink(None, &[false, false, false, false, true]), "bond0");
    assert_eq!(detect_uplink(None, &[false; 5]), "eth0");
}

#[test]
fn restarted_vms_keep_their_record() {
    let mut r = record();
    mark_shut_off(&mut r);
    let before = (r.id.clone(), r.name.clone(), r.cpus, r.mem_mib, r.disk_path.clone(), r.tap.clone(), r.mac.clone(), r.uplink.clone());
    let s = launch_settings(&r);
    let line = restart_cmdline(&s, "");
    assert!(!line.contains("root="));
    assert!(line.ends_with("virtio_mmio.device=0x1000@0xd0010000:6"));
    restart_record(&mut r, 99, "node-2", "");
    assert_eq!((r.status, r.pid, r.power_state.as_str(), r.node_name.as_str()), (VmStatus::Active, Some(99), "Running", "node-2"));
    assert_eq!(r.ip, None);
    assert_eq!(before, (r.id.clone(), r.name.clone(), r.cpus, r.mem_mib, r.disk_path.clone(), r.tap.clone(), r.mac.clone(), r.uplink.clone()));
    restart_record(&mut r, 100, "node-3", "ip=10.0.0.9::10.0.0.1");
    assert_eq!(r.ip.as_deref(), Some("10.0.0.9"));
    assert!(restart_cmdline(&s, "ip=10.0.0.9::10.0.0.1").ends_with("ip=10.0.0.9::10.0.0.1 nameserver=1.1.1.1"));
}
