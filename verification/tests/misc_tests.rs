use caiman::acquire::{
    check_auth, remote_cat_command, shell_single_quote, AcquireError, ChannelEvent, Transfer,
    STDERR_CAPTURE_CAP,
};
use caiman::auth::{
    bearer_token, claims_for, login_role, missing_token, token_generation_failed,
    token_response, ErrResp, TokenRequest, JWT_EXPIRY_HOURS,
};
use caiman::cli::{api_url_or_default, chain_indent, list_path, parse_labels, short_id};
use caiman::demo::{demo_mac, tick, DemoStore, DemoVm, VmStatus};
use caiman::drs::{estimate_blackout_ms, mem_fits, migration_args, select_migrations};
use caiman::gpu::{
    choose_gpu, gpu_device, inventory_query_args, iommu_group_of, mig_capable_from, mig_query_args,
    parse_gpu_line,
    parse_inventory, GpuDevice, GpuMode,
};
use caiman::ids::{new_short_id, new_uuid, short_id_from};
use caiman::kvm::{check_api_version, irq_routes, IrqChip, IOAPIC_IRQS, KVM_API_VERSION, LEGACY_IRQS};
use caiman::procfs::{
    cluster_memory, counted_block_device, cpu_ticks_delta, cpu_ticks_fit, disk_stat_ios, iface_vm_id,
    kernel_version, listed_status, meminfo_kib, net_dev_totals, net_dev_totals_checked, node_id, numbered_vm_id, numeric_fields,
    process_uptime, state_file_vm, status_changed, sum_percpu, unknown_ifindex, vmrss_mib,
    VmSeen,
};
use caiman::sorting::{chars_le, sort_strings};

fn chars(s: &str) -> Vec<char> {
    s.chars().collect()
}

fn gpu(mig: bool, vgpu: bool) -> GpuDevice {
    GpuDevice {
        pci_address: "0000:01:00.0".to_string(),
        gpu_uuid: "GPU-1".to_string(),
        model: "A100".to_string(),
        vram_mib: 40960,
        driver_ver: "535".to_string(),
        cuda_ver: "8.0".to_string(),
        mig_capable: mig,
        vgpu_capable: vgpu,
        iommu_group: 7,
    }
}

#[test]
fn logins_and_roles() {
    let r = TokenRequest { username: "root".to_string(), password: "toor".to_string() };
    assert_eq!(login_role(&r).ok().unwrap(), "admin");
    let r = TokenRequest { username: "admin".to_string(), password: "admin123".to_string() };
    assert_eq!(login_role(&r).ok().unwrap(), "admin");
    let r = TokenRequest { username: "alice".to_string(), password: "1234".to_string() };
    assert_eq!(login_role(&r).ok().unwrap(), "operator");
    let r = TokenRequest { username: "root".to_string(), password: "abc".to_string() };
    assert_eq!(login_role(&r).err().unwrap().message(), "Invalid credentials");
    let r = TokenRequest { username: "admin".to_string(), password: "wrongpw".to_string() };
    assert_eq!(login_role(&r).err().unwrap().message(), "Invalid credentials");
}

#[test]
fn claims_expire_after_a_day() {
    assert_eq!(JWT_EXPIRY_HOURS, 24);
    let c = claims_for("alice", "operator", "local", 1_700_000_000);
    assert_eq!((c.sub.as_str(), c.role.as_str(), c.provider.as_str()), ("alice", "operator", "local"));
    assert_eq!(c.iat, 1_700_000_000);
    assert_eq!(c.exp, 1_700_086_400);
    let t = token_response("tok".to_string(), "alice", "operator", "2024-01-01T00:00:00Z".to_string());
    assert_eq!((t.token.as_str(), t.username.as_str(), t.role.as_str()), ("tok", "alice", "operator"));
}

#[test]
fn auth_refusals_and_headers() {
    assert_eq!(token_generation_failed().message(), "Token generation failed");
    assert_eq!(missing_token().message(), "Missing or invalid token");
    assert_eq!(ErrResp::new("x").message(), "x");
    assert_eq!(bearer_token(Some("Bearer abc.def")), Some("abc.def".to_string()));
    assert_eq!(bearer_token(Some("Basic abc")), None);
    assert_eq!(bearer_token(None), None);
}

#[test]
fn cli_helpers() {
    assert_eq!(api_url_or_default(None), "http://localhost:8765");
    assert_eq!(api_url_or_default(Some("https://api:1")), "https://api:1");
    assert_eq!(short_id("0123456789abcdef", 8), "01234567");
    assert_eq!(short_id("abc", 8), "abc");
    assert_eq!(list_path("/api/v1/snapshots", Some("vm-1")), "/api/v1/snapshots?vm_id=vm-1");
    assert_eq!(list_path("/api/v1/snapshots", None), "/api/v1/snapshots");
    let labels = vec!["app=web".to_string(), "bad".to_string(), "k=a=b".to_string()];
    assert_eq!(
        parse_labels(&labels),
        vec![("app".to_string(), "web".to_string()), ("k".to_string(), "a=b".to_string())]
    );
    assert_eq!(chain_indent(0), "  ");
    assert_eq!(chain_indent(2), "      ");
}

#[test]
fn demo_store_lifecycle() {
    let mut s = DemoStore::new(1000);
    assert_eq!(s.len(), 1);
    let v = s.vm_at(0);
    assert_eq!((v.id.as_str(), v.name.as_str(), v.status), ("demo-preloaded-01", "demo-workload", VmStatus::Running));
    assert_eq!((v.cpus, v.mem_mib, v.mem_used_mib, v.mac.as_str()), (4, 1024, 412, "02:aa:bb:00:00:01"));
    let i = s.insert_vm("vm-a".to_string(), "a".to_string(), 2, 512, 2000);
    assert_eq!(i, 1);
    assert_eq!(s.vm_at(1).mac, "02:aa:bb:00:00:02");
    assert_eq!(s.vm_at(1).status, VmStatus::Booting);
    s.stop_vm("vm-a");
    assert_eq!(s.vm_at(1).status, VmStatus::Stopped);
    s.start_vm("vm-a");
    assert_eq!(s.vm_at(1).status, VmStatus::Booting);
    s.stop_vm("missing");
    s.delete_vm("demo-preloaded-01");
    assert_eq!(s.len(), 1);
    assert_eq!(s.vm_at(0).id, "vm-a");
    assert_eq!(VmStatus::Running.as_str(), "RUNNING");
    assert_eq!(VmStatus::Booting.as_str(), "BOOTING");
}

#[test]
fn demo_vms_get_fresh_ids() {
    let mut s = DemoStore::new(1000);
    let i = s.create_vm("web".to_string(), 1, 256, 1500);
    assert_eq!(i, 1);
    let v = s.vm_at(1);
    assert_eq!(v.id.len(), 11);
    assert!(v.id.starts_with("vm-"));
    assert!(v.id[3..].chars().all(|c| c.is_ascii_hexdigit() && !c.is_ascii_uppercase()));
    assert_eq!((v.name.as_str(), v.cpus, v.mem_mib, v.created_at), ("web", 1, 256, 1500));
    // an ID that is already there is replaced, and the new VM goes last
    let j = s.insert_vm("demo-preloaded-01".to_string(), "again".to_string(), 2, 512, 1600);
    assert_eq!((j, s.len()), (1, 2));
    assert_eq!(s.vm_at(1).name, "again");
    assert_eq!(s.vm_at(1).mac, "02:aa:bb:00:00:03");
    assert_eq!(s.vm_at(1).status, VmStatus::Booting);
}

#[test]
fn demo_node_figures() {
    let mut s = DemoStore::new(1000);
    s.insert_vm("vm-b".to_string(), "b".to_string(), 2, 512, 1100);
    let n = s.node_metrics(60);
    assert_eq!((n.hostname.as_str(), n.status.as_str(), n.cpu_cores), ("demo-node-01", "HEALTHY", 16));
    assert_eq!((n.mem_total_mib, n.mem_used_mib), (65536, 412 + 4096));
    assert_eq!((n.disk_total_gib, n.disk_used_gib), (2000, 340));
    assert_eq!((n.vm_count, n.uptime_secs), (1, 86460));
}

#[test]
fn demo_macs() {
    assert_eq!(demo_mac(10), "02:aa:bb:00:00:0a");
    assert_eq!(demo_mac(255), "02:aa:bb:00:00:ff");
    assert_eq!(demo_mac(300), "02:aa:bb:00:00:12c");
}

#[test]
fn demo_ticks() {
    let mut v = DemoVm {
        id: "d".to_string(),
        name: "d".to_string(),
        status: VmStatus::Booting,
        cpus: 1,
        mem_mib: 1000,
        mac: String::new(),
        mem_used_mib: 0,
        uptime_secs: 0,
        created_at: 100,
        started_at: None,
    };
    tick(&mut v, 102, 30, 0);
    assert_eq!(v.status, VmStatus::Booting);
    tick(&mut v, 104, 30, 0);
    assert_eq!((v.status, v.started_at, v.mem_used_mib), (VmStatus::Running, Some(104), 300));
    tick(&mut v, 110, 30, -10);
    assert_eq!((v.mem_used_mib, v.uptime_secs), (290, 6));
    v.mem_used_mib = 895;
    tick(&mut v, 111, 0, 10);
    assert_eq!(v.mem_used_mib, 900);
    v.mem_used_mib = 120;
    tick(&mut v, 111, 0, 0);
    assert_eq!(v.mem_used_mib, 128);
}

#[test]
fn drs_decisions() {
    assert_eq!(estimate_blackout_ms(1024), 52);
    assert_eq!(estimate_blackout_ms(0), 50);
    assert!(mem_fits(1000, 2000, 10000));
    assert!(!mem_fits(1001, 2000, 10000));
    assert!(!mem_fits(1, 100, 10000));
    assert_eq!(select_migrations(&[3, 3, 5, 1, 5, 7, 8, 9, 10]), vec![0, 2, 3, 5, 6]);
    assert_eq!(select_migrations(&[4, 4, 4]), vec![0]);
    assert!(select_migrations(&[]).is_empty());
    assert_eq!(migration_args(42, "node-b"), vec!["--vm-id", "42", "--destination", "node-b"]);
}

#[test]
fn gpu_inventory() {
    assert_eq!(
        inventory_query_args(),
        vec!["--query-gpu=pci.bus_id,gpu_uuid,name,memory.total,driver_version,compute_cap", "--format=csv,noheader,nounits"]
    );
    let l = parse_gpu_line(&chars("00000000:01:00.0, GPU-abc, NVIDIA A100-SXM4-40GB, 40960, 535.104.05, 8.0")).unwrap();
    assert_eq!((l.pci_address.as_str(), l.model.as_str(), l.vram_mib, l.cuda_ver.as_str()), ("00000000:01:00.0", "NVIDIA A100-SXM4-40GB", 40960, "8.0"));
    assert!(parse_gpu_line(&chars("a, b, c")).is_none());
    let l = parse_gpu_line(&chars("a, b, c, lots, e, f")).unwrap();
    assert_eq!(l.vram_mib, 0);
    let inv = parse_inventory("a, b, c, 1, e, f\nshort\ng, h, i, 2, j, k\n");
    assert_eq!(inv.len(), 2);
    assert_eq!(inv[1].vram_mib, 2);
    let d = gpu_device(inv.into_iter().next().unwrap(), 9, true, false);
    assert_eq!((d.iommu_group, d.mig_capable, d.vgpu_capable, d.model.as_str()), (9, true, false, "c"));
    assert!(mig_capable_from("Enabled"));
    assert!(!mig_capable_from("N/A"));
    assert!(mig_capable_from("Disabled"));
    assert_eq!(
        mig_query_args("0000:01:00.0"),
        vec!["-i", "0000:01:00.0", "--query-gpu=mig.mode.current", "--format=csv,noheader"]
    );
    assert_eq!(iommu_group_of("15"), Some(15));
    assert_eq!(iommu_group_of("x15"), None);
}

#[test]
fn gpu_choice() {
    assert_eq!(choose_gpu("passthrough", None, &[]).err().unwrap(), "No NVIDIA GPUs found on this node");
    let gpus = vec![gpu(false, true), gpu(true, false)];
    let c = choose_gpu("passthrough", None, &gpus).ok().unwrap();
    assert_eq!((c.mode, c.index, c.profile), (GpuMode::Passthrough, 0, None));
    let c = choose_gpu("mig", Some("3g.40gb"), &gpus).ok().unwrap();
    assert_eq!((c.mode, c.index, c.profile.as_deref()), (GpuMode::Mig, 1, Some("3g.40gb")));
    let c = choose_gpu("vgpu", Some("A100-40C"), &gpus).ok().unwrap();
    assert_eq!((c.mode, c.index), (GpuMode::VGpu, 0));
    assert_eq!(choose_gpu("mig", None, &gpus).err().unwrap(), "MIG mode requires --gpu-profile (e.g. 3g.40gb)");
    assert_eq!(choose_gpu("vgpu", None, &gpus).err().unwrap(), "vGPU mode requires --gpu-profile (e.g. A100-40C)");
    let plain = vec![gpu(false, false)];
    assert_eq!(choose_gpu("mig", Some("x"), &plain).err().unwrap(), "No MIG-capable GPU found (requires Ampere A100/A30/H100)");
    assert_eq!(choose_gpu("vgpu", Some("x"), &plain).err().unwrap(), "No vGPU-capable GPU found (requires NVIDIA vGPU software)");
    assert_eq!(choose_gpu("sriov", None, &plain).err().unwrap(), "Unknown GPU mode: sriov (use: passthrough, mig, vgpu)");
}

#[test]
fn identifiers() {
    assert_ne!(new_short_id("x-"), new_short_id("x-"));
    assert_eq!(short_id_from("snap-", "0123abcd-ffff"), "snap-0123abcd");
    let s = new_short_id("bk-");
    assert_eq!(s.len(), 11);
    assert!(s.starts_with("bk-"));
    assert!(s[3..].chars().all(|c| c.is_ascii_hexdigit() && !c.is_ascii_uppercase()));
    let u = new_uuid();
    assert_eq!(u.len(), 36);
    assert_eq!(u.matches('-').count(), 4);
    assert_eq!(&u[14..15], "4");
    assert_ne!(u, new_uuid());
}

#[test]
fn kvm_routing_table() {
    assert_eq!(KVM_API_VERSION, 12);
    assert_eq!((LEGACY_IRQS, IOAPIC_IRQS), (16, 24));
    assert!(check_api_version(12).is_ok());
    assert_eq!(check_api_version(11).err().unwrap(), "unexpected KVM API version 11 (expected 12)");
    assert_eq!(check_api_version(-3).err().unwrap(), "unexpected KVM API version -3 (expected 12)");
    let r = irq_routes();
    assert_eq!(r.len(), 40);
    assert_eq!((r[3].gsi, r[3].chip, r[3].pin), (3, IrqChip::PicMaster, 3));
    assert_eq!((r[9].gsi, r[9].chip, r[9].pin), (9, IrqChip::PicSlave, 1));
    assert_eq!((r[20].gsi, r[20].chip, r[20].pin), (4, IrqChip::Ioapic, 4));
}

#[test]
fn proc_files() {
    assert_eq!(numeric_fields("12 abc 7 -3 99"), vec![12, 7, 99]);
    assert_eq!(disk_stat_ios("  100 0 800 5 200 0 1600 9 0 10 14"), Some((100, 200)));
    assert_eq!(disk_stat_ios("1 2 3"), None);
    assert!(counted_block_device("nvme0n1"));
    assert!(!counted_block_device("loop3"));
    assert!(!counted_block_device("dm-0"));
    let net = "Inter-|   Receive\n face |bytes\n    lo: 500 1 0 0 0 0 0 0 500 1 0 0 0 0 0 0\n  eth0: 1000 10 0 0 0 0 0 0 2000 20 0 0 0 0 0 0\n  eth1: 5 1 0 0 0 0 0 0 7 1 0 0 0 0 0 0\n";
    assert_eq!(net_dev_totals(net), (1005, 2007));
    assert_eq!(net_dev_totals_checked(net), Some((1005, 2007)));
    let huge = format!("h1\nh2\n a: {m} 0 0 0 0 0 0 0 1 0\n b: {m} 0 0 0 0 0 0 0 1 0\n", m = u64::MAX);
    assert_eq!(net_dev_totals_checked(&huge), None);
    // words 13 and 14 (utime, stime), counting from 0
    let stat = |u: u64, s: u64| format!("1 (x) S 0 0 0 0 0 0 0 0 0 0 {} {} 7 9 20 0 1 0 500 0", u, s);
    assert_eq!(cpu_ticks_delta(&stat(10, 5), &stat(30, 10)), Some(25));
    assert_eq!(cpu_ticks_delta(&stat(30, 10), &stat(10, 5)), Some(0));
    assert_eq!(cpu_ticks_delta("1 2", &stat(1, 1)), None);
    assert!(cpu_ticks_fit(&stat(10, 5)));
    assert!(cpu_ticks_fit("1 2"));
    assert!(!cpu_ticks_fit(&stat(u64::MAX, 1)));
    assert_eq!(cpu_ticks_delta("1 (x) S 0 0 0 0 0 0 0 0 0 0 x 5 0", &stat(1, 1)), None);
    let stat = |u: u64, s: u64| format!("1 (x) S 0 0 0 0 0 0 0 0 0 0 {} {} 0 0 20 0 1 0 500 0", u, s);
    assert_eq!(vmrss_mib("Name: x\nVmRSS:\t  204800 kB\n"), 200);
    assert_eq!(vmrss_mib("Name: x\n"), 0);
    assert_eq!(process_uptime(&stat(0, 0), 100), 95);
    assert_eq!(process_uptime("short", 100), 0);
    assert_eq!(kernel_version("Linux version 6.8.0-31-generic (buildd@x)"), "6.8.0-31-generic");
    assert_eq!(kernel_version("Linux"), "unknown");
    assert_eq!(node_id("host1"), "n-host1");
    let mi = "MemTotal:       16318676 kB\nMemFree:         1234 kB\nMemAvailable:   8000000 kB\n";
    assert_eq!(meminfo_kib(mi, "MemTotal:"), 16318676);
    assert_eq!(meminfo_kib(mi, "MemAvailable:"), 8000000);
    assert_eq!(meminfo_kib(mi, "SwapTotal:"), 0);
}

#[test]
fn state_and_interface_names() {
    assert_eq!(state_file_vm("vm-007.json"), Some("vm-007".to_string()));
    assert_eq!(state_file_vm("a.b.json"), Some("a.b".to_string()));
    assert_eq!(state_file_vm(".json"), None);
    assert_eq!(state_file_vm("notes.txt"), None);
    assert_eq!(numbered_vm_id(7), "vm-007");
    assert_eq!(numbered_vm_id(42), "vm-042");
    assert_eq!(numbered_vm_id(1234), "vm-1234");
    assert_eq!(listed_status(false, Some("RUNNING")), "STOPPED");
    assert_eq!(listed_status(true, Some("BOOTING")), "BOOTING");
    assert_eq!(listed_status(true, None), "RUNNING");
    assert_eq!(iface_vm_id("12\n", "tap5", 12), Some("vm-005".to_string()));
    assert_eq!(iface_vm_id("13\n", "tap5", 12), None);
    assert_eq!(iface_vm_id("12\n", "eth0", 12), None);
    assert_eq!(unknown_ifindex(33), "ifindex-33");
}

#[test]
fn counters_and_sums() {
    let mut cpu0 = 3u64.to_le_bytes().to_vec();
    cpu0.extend_from_slice(&300u64.to_le_bytes());
    let mut cpu1 = 4u64.to_le_bytes().to_vec();
    cpu1.extend_from_slice(&400u64.to_le_bytes());
    assert_eq!(sum_percpu(&vec![cpu0, cpu1, vec![1, 2]]), (7, 700));
    let seen = vec![
        VmSeen { id: "vm-1".to_string(), status: "RUNNING".to_string() },
        VmSeen { id: "vm-2".to_string(), status: "STOPPED".to_string() },
    ];
    assert!(status_changed(&seen, "vm-1", "STOPPED"));
    assert!(!status_changed(&seen, "vm-2", "STOPPED"));
    assert!(!status_changed(&seen, "vm-3", "RUNNING"));
    assert_eq!(cluster_memory(&[(100, 400), (50, 200)]), (150, 600));
}

#[test]
fn remote_acquisition() {
    assert_eq!(shell_single_quote("/var/lib/x.img"), "'/var/lib/x.img'");
    assert_eq!(shell_single_quote("it's"), "'it'\\''s'");
    assert_eq!(remote_cat_command("/a b"), "cat '/a b'");
    assert!(check_auth(true).is_ok());
    assert!(matches!(check_auth(false), Err(AcquireError::AuthFailed)));
    assert_eq!(AcquireError::AuthFailed.message(), "ssh authentication failed");
    assert_eq!(AcquireError::Key("bad".to_string()).message(), "key error: bad");
}

#[test]
fn transfer_outcomes() {
    let mut t = Transfer::new();
    t.on_event(ChannelEvent::Data { len: 100 });
    t.on_event(ChannelEvent::Data { len: 50 });
    t.on_event(ChannelEvent::ExtendedData { data: b"ignored".to_vec(), ext: 2 });
    t.on_event(ChannelEvent::Other);
    t.on_event(ChannelEvent::ExitStatus { status: 0 });
    assert_eq!(t.finish().ok(), Some(150));
    let mut t = Transfer::new();
    t.on_event(ChannelEvent::ExtendedData { data: b"no such file".to_vec(), ext: 1 });
    t.on_event(ChannelEvent::ExitStatus { status: 1 });
    match t.finish() {
        Err(e) => assert_eq!(e.message(), "remote command failed (code 1): no such file"),
        Ok(_) => panic!("expected a failure"),
    }
    let mut t = Transfer::new();
    t.on_event(ChannelEvent::ExtendedData { data: vec![b'x'; STDERR_CAPTURE_CAP + 10], ext: 1 });
    t.on_event(ChannelEvent::ExtendedData { data: vec![0xff, b'y'], ext: 1 });
    assert_eq!(t.stderr.len(), STDERR_CAPTURE_CAP);
    match t.finish() {
        Err(AcquireError::RemoteCommandFailed { code, stderr }) => {
            assert_eq!(code, u32::MAX);
            assert_eq!(stderr.len(), STDERR_CAPTURE_CAP);
        }
        _ => panic!("expected a failure without exit status"),
    }
    let mut t = Transfer::new();
    t.on_event(ChannelEvent::ExtendedData { data: vec![b'o', 0xff, b'k'], ext: 1 });
    t.on_event(ChannelEvent::ExitStatus { status: 2 });
    match t.finish() {
        Err(AcquireError::RemoteCommandFailed { stderr, .. }) => assert_eq!(stderr, "o\u{fffd}k"),
        _ => panic!("expected a failure"),
    }
}

#[test]
fn string_sorting() {
    assert!(chars_le(&chars("abc"), &chars("abd")));
    assert!(chars_le(&chars("ab"), &chars("abc")));
    assert!(!chars_le(&chars("b"), &chars("abc")));
    let sorted = sort_strings(vec![chars("tier=frontend"), chars("app=web"), chars("env=prod")]);
    let out: Vec<String> = sorted.into_iter().map(|v| v.into_iter().collect()).collect();
    assert_eq!(out, vec!["app=web", "env=prod", "tier=frontend"]);
}
