use caiman::snapshots::{
    build_chain, check_delete, children, commit_args, copy_record, depths_consistent, join_paths, latest_unsealed,
    needs_quiesce, overlay_checksum, overlay_create_args, overlay_path, parse_consistency,
    snapshot_parent, size_mib_of, virtual_size_mib, vm_disk_path, ChainError, DeleteError,
    SnapshotConsistency, SnapshotRecord,
};
use caiman::vsan::{
    has_witness, place_components, place_witness, required_nodes, DiskInfo, RaidType, StoragePolicy, VolumeState,
    VsanCluster, VsanError, VsanNode,
};
use caiman::vvols::{
    fc_attach_error, find_iscsi_device, find_nvme_device, iscsi_discovery_args, iscsi_login_args,
    iscsi_logout_args, nfs_mount_args, nfs_mount_point, nvme_connect_args, nvme_disconnect_args,
    attach_route, set_attached, AttachRoute, IscsiConfig, NfsConfig, NfsVersion, NvmeListEntry, NvmeTransport, NvmeofConfig,
    LocalConfig, DiskFormat, PerformanceTier, StorageBackend, VVol, VVolPolicy,
};

fn node(host: &str, cap: u64, used: u64, disks: usize) -> VsanNode {
    let mut d = Vec::new();
    for i in 0..disks {
        d.push(DiskInfo {
            path: format!("/dev/nvme{}n1", i),
            model: "m".to_string(),
            capacity_gib: cap,
            nvme_ns_id: Some(1),
        });
    }
    VsanNode {
        hostname: host.to_string(),
        nvmeof_addr: format!("{}:4420", host),
        disks: d,
        capacity_gib: cap,
        used_gib: used,
    }
}

fn policy(ftt: u8, raid: RaidType) -> StoragePolicy {
    let mut p = StoragePolicy::default();
    p.failures_to_tolerate = ftt;
    p.raid_type = raid;
    p
}

fn snap(id: &str, parent: Option<&str>, depth: u32, sealed: bool) -> SnapshotRecord {
    SnapshotRecord {
        id: id.to_string(),
        vm_id: "vm-1".to_string(),
        name: id.to_string(),
        image_path: format!("/snap/{}.qcow2", id),
        parent_id: parent.map(|p| p.to_string()),
        depth,
        sealed,
        consistency: SnapshotConsistency::CrashConsistent,
        disk_mib: 0,
        actual_mib: 0,
        checksum: String::new(),
    }
}

#[test]
fn default_policy_is_mirrored_ftt1() {
    let p = StoragePolicy::default();
    assert_eq!(p.name, "default");
    assert_eq!(p.failures_to_tolerate, 1);
    assert_eq!(p.raid_type, RaidType::Mirroring);
    assert!(p.compression && !p.encryption && !p.deduplication);
}

#[test]
fn nodes_needed_per_policy() {
    assert_eq!(required_nodes(&policy(0, RaidType::Mirroring)).ok(), Some(1));
    assert_eq!(required_nodes(&policy(1, RaidType::Mirroring)).ok(), Some(2));
    assert_eq!(required_nodes(&policy(1, RaidType::Erasure5)).ok(), Some(3));
    assert_eq!(required_nodes(&policy(2, RaidType::Mirroring)).ok(), Some(3));
    assert_eq!(required_nodes(&policy(2, RaidType::Erasure6)).ok(), Some(4));
    assert!(matches!(required_nodes(&policy(3, RaidType::Mirroring)), Err(VsanError::UnsupportedFtt(3))));
}

#[test]
fn components_go_to_the_freest_nodes() {
    let nodes = vec![node("a", 100, 90, 1), node("b", 100, 10, 1), node("c", 100, 50, 1)];
    let comps = place_components(&nodes, 2).ok().unwrap();
    assert_eq!(comps.len(), 2);
    assert_eq!((comps[0].node.as_str(), comps[0].replica_id, comps[0].offset_gib), ("b", 0, 10));
    assert_eq!((comps[1].node.as_str(), comps[1].replica_id, comps[1].offset_gib), ("c", 1, 50));
    assert_eq!(comps[0].disk, "/dev/nvme0n1");
}

#[test]
fn equal_free_space_prefers_the_later_node() {
    let nodes = vec![node("a", 100, 0, 1), node("b", 100, 0, 1)];
    let comps = place_components(&nodes, 1).ok().unwrap();
    assert_eq!(comps[0].node, "b");
}

#[test]
fn a_chosen_node_without_disks_fails_placement() {
    let nodes = vec![node("a", 100, 0, 0), node("b", 10, 0, 1)];
    assert!(matches!(place_components(&nodes, 1), Err(VsanError::NodeHasNoDisks)));
    assert!(place_components(&nodes[1..], 1).is_ok());
}

#[test]
fn volume_lifecycle() {
    let mut c = VsanCluster::new();
    assert!(matches!(
        c.create_volume("v", 10, policy(1, RaidType::Mirroring)),
        Err(VsanError::NotEnoughNodes { need: 2, have: 0, ftt: 1 })
    ));
    c.add_node(node("a", 100, 20, 1));
    c.add_node(node("b", 100, 40, 1));
    c.add_node(node("c", 100, 60, 1));
    let i = c.create_volume("data", 10, policy(1, RaidType::Mirroring)).ok().unwrap();
    let v = c.volume(i);
    assert_eq!(v.name, "data");
    assert_eq!(v.size_gib, 10);
    assert_eq!(v.state, VolumeState::Healthy);
    assert_eq!(v.components.len(), 3);
    assert_eq!((v.components[0].node.as_str(), v.components[0].replica_id), ("a", 0));
    assert_eq!((v.components[1].node.as_str(), v.components[1].replica_id), ("b", 1));
    assert_eq!((v.components[2].node.as_str(), v.components[2].replica_id, v.components[2].offset_gib), ("c", 255, 60));
    assert_eq!(v.id.len(), 36);
    assert_eq!(&v.id[14..15], "4");
    assert_eq!(v.id.matches('-').count(), 4);
    let id = v.id.clone();
    assert_eq!(c.attach_volume(&id).ok().unwrap(), "a");
    assert!(matches!(c.attach_volume("nope"), Err(VsanError::VolumeNotFound(_))));
    let j = c.create_volume("solo", 1, policy(0, RaidType::Mirroring)).ok().unwrap();
    let solo = c.volume(j).id.clone();
    assert_eq!(c.volume(j).components.len(), 1);
    let affected = c.handle_node_failure("b");
    assert_eq!(affected, vec![id.clone()]);
    assert_eq!(c.volume(i).state, VolumeState::Degraded);
    assert_eq!(c.volume(j).state, VolumeState::Healthy);
    assert!(c.handle_node_failure("zzz").is_empty());
    assert_ne!(solo, id);
}

#[test]
fn mirrored_volumes_get_a_witness() {
    let mut c = VsanCluster::new();
    c.add_node(node("a", 100, 20, 1));
    c.add_node(node("b", 100, 40, 1));
    // two nodes: the witness shares the primary's node
    let i = c.create_volume("two", 5, policy(1, RaidType::Mirroring)).ok().unwrap();
    let v = c.volume(i);
    assert_eq!(v.components.len(), 3);
    assert_eq!((v.components[2].node.as_str(), v.components[2].replica_id), ("a", 255));
    // a data node without disks fails the volume
    c.add_node(node("d", 100, 0, 0));
    assert!(matches!(c.create_volume("x", 5, policy(1, RaidType::Mirroring)), Err(VsanError::NodeHasNoDisks)));
    // the next node in placement order holds the witness when it has a disk
    let nodes = vec![node("a", 100, 20, 1), node("b", 100, 40, 1), node("e", 100, 90, 1), node("f", 100, 95, 0)];
    assert_eq!(place_witness(&nodes, 2).node, "e");
    assert_eq!(place_witness(&nodes, 3).node, "a");
    // FTT 2 mirroring: three copies and a witness; erasure coding: none
    let nodes = vec![node("a", 100, 10, 1), node("b", 100, 20, 1), node("c", 100, 30, 1), node("e", 100, 40, 1)];
    assert_eq!(place_witness(&nodes, 3).node, "e");
    assert!(has_witness(&policy(2, RaidType::Mirroring)));
    assert!(!has_witness(&policy(1, RaidType::Erasure5)));
    assert!(!has_witness(&policy(0, RaidType::Mirroring)));
}

#[test]
fn consistency_parsing() {
    assert_eq!(parse_consistency(Some("quiesced")), SnapshotConsistency::Quiesced);
    assert_eq!(parse_consistency(Some("offline")), SnapshotConsistency::Offline);
    assert_eq!(parse_consistency(Some("crash")), SnapshotConsistency::CrashConsistent);
    assert_eq!(parse_consistency(None), SnapshotConsistency::CrashConsistent);
    assert!(needs_quiesce(SnapshotConsistency::Quiesced));
    assert!(!needs_quiesce(SnapshotConsistency::Offline));
}

#[test]
fn snapshot_paths() {
    assert_eq!(join_paths("/a", "b"), "/a/b");
    assert_eq!(join_paths("/a/", "b"), "/a/b");
    assert_eq!(join_paths("/a", "/b"), "/b");
    assert_eq!(join_paths("", "b"), "b");
    assert_eq!(vm_disk_path("/var/lib/caiman", "vm-42"), "/var/lib/caiman/42.img");
    assert_eq!(overlay_path("/snaps", "vm-42", "s1"), "/snaps/vm-42/s1.qcow2");
    assert_eq!(
        overlay_create_args("/base.img", "/o.qcow2"),
        vec!["create", "-f", "qcow2", "-b", "/base.img", "-F", "qcow2", "/o.qcow2"]
    );
    assert_eq!(commit_args("/o.qcow2"), vec!["commit", "/o.qcow2"]);
}

#[test]
fn new_snapshot_builds_on_latest_unsealed() {
    let cat = vec![snap("s1", None, 0, false), snap("s2", Some("s1"), 1, true), snap("s3", Some("s1"), 1, false)];
    assert_eq!(latest_unsealed(&cat, "vm-1"), Some(2));
    assert_eq!(latest_unsealed(&cat, "vm-2"), None);
    let p = snapshot_parent(Some(&cat[2]), "/base.img");
    assert_eq!(p.parent_id.as_deref(), Some("s3"));
    assert_eq!(p.backing, "/snap/s3.qcow2");
    assert_eq!(p.depth, 2);
    let p = snapshot_parent(None, "/base.img");
    assert_eq!((p.parent_id, p.backing.as_str(), p.depth), (None, "/base.img", 0));
}

#[test]
fn chain_is_oldest_first() {
    let cat = vec![snap("s1", None, 0, false), snap("s2", Some("s1"), 1, false)];
    let s3 = snap("s3", Some("s2"), 2, false);
    let chain = build_chain(&s3, &cat).ok().unwrap();
    let ids: Vec<&str> = chain.iter().map(|s| s.id.as_str()).collect();
    assert_eq!(ids, vec!["s1", "s2", "s3"]);
    let orphan = snap("s9", Some("gone"), 1, false);
    assert!(matches!(build_chain(&orphan, &cat), Err(ChainError::NotFound(_))));
    assert!(depths_consistent(&cat));
    let bad = vec![snap("a", Some("b"), 0, false), snap("b", Some("a"), 1, false)];
    assert!(!depths_consistent(&bad));
    let root = snap("s0", None, 0, false);
    assert_eq!(build_chain(&root, &cat).ok().unwrap().len(), 1);
}

#[test]
fn sealed_snapshots_are_kept() {
    assert!(matches!(check_delete(&snap("s1", None, 0, true)), Err(DeleteError::Sealed(id)) if id == "s1"));
    assert!(check_delete(&snap("s1", None, 0, false)).is_ok());
    assert_eq!(
        check_delete(&snap("s7", None, 0, true)).err().unwrap().message(),
        "Cannot delete sealed snapshot s7 — unseal first"
    );
    let cat = vec![snap("s1", None, 0, false), snap("s2", Some("s1"), 1, false), snap("s3", Some("s2"), 2, false), snap("s4", Some("s1"), 1, false)];
    assert_eq!(children(&cat, "s1"), vec![1, 3]);
    assert!(children(&cat, "s4").is_empty());
    let c = copy_record(&cat[2]);
    assert_eq!((c.id.as_str(), c.parent_id.as_deref(), c.depth), ("s3", Some("s2"), 2));
}

#[test]
fn overlay_checksum_is_blake3_hex() {
    assert_eq!(
        overlay_checksum(b"abc"),
        "6437b3ac38465133ffb63b75273a8db548c558465d79db03fd359c6cd5bd9d85"
    );
    assert_eq!(overlay_checksum(b"").len(), 64);
}

#[test]
fn virtual_size_is_read_from_json() {
    assert_eq!(virtual_size_mib(br#"{"virtual-size": 10737418240, "format": "qcow2"}"#), Some(10240));
    assert_eq!(virtual_size_mib(br#"{"format": "qcow2"}"#), Some(0));
    assert_eq!(virtual_size_mib(b"not json"), None);
    assert_eq!(size_mib_of(Some(Some(3 * 1048576 + 5))), Some(3));
    assert_eq!(size_mib_of(Some(None)), Some(0));
    assert_eq!(size_mib_of(None), None);
}

#[test]
fn iscsi_commands() {
    let c = IscsiConfig {
        portal: "192.168.1.10:3260".to_string(),
        target_iqn: "iqn.2024-01.io.caiman:vol1".to_string(),
        lun: 0,
        auth: None,
        multipath: false,
    };
    assert_eq!(
        iscsi_discovery_args(&c.portal),
        vec!["-m", "discovery", "-t", "sendtargets", "-p", "192.168.1.10:3260"]
    );
    assert_eq!(
        iscsi_login_args(&c),
        vec!["-m", "node", "-T", "iqn.2024-01.io.caiman:vol1", "-p", "192.168.1.10:3260", "--login"]
    );
    assert_eq!(iscsi_logout_args(&c), vec!["-m", "node", "-T", "iqn.2024-01.io.caiman:vol1", "--logout"]);
    let out = "Target: x\n\t\tAttached SCSI devices:\n\t\t\tAttached scsi disk sdb\t\tState: running\n";
    assert_eq!(find_iscsi_device(out, "iqn.x").ok().unwrap(), "/dev/running");
    let out2 = "\t\t\tAttached scsi disk sdc\n";
    assert_eq!(find_iscsi_device(out2, "iqn.x").ok().unwrap(), "/dev/sdc");
    assert_eq!(find_iscsi_device("", "iqn.x").err().unwrap(), "Could not find iSCSI device for iqn.x");
}

#[test]
fn nvme_commands() {
    let c = NvmeofConfig {
        transport: NvmeTransport::Rdma,
        addr: "10.0.0.9".to_string(),
        port: 4420,
        nqn: "nqn.2024-01.io.caiman:vol2".to_string(),
        hostnqn: None,
    };
    assert_eq!(
        nvme_connect_args(&c),
        vec!["connect", "-t", "rdma", "-a", "10.0.0.9", "-s", "4420", "-n", "nqn.2024-01.io.caiman:vol2"]
    );
    assert_eq!(nvme_disconnect_args(&c), vec!["disconnect", "-n", "nqn.2024-01.io.caiman:vol2"]);
    let devs = vec![
        NvmeListEntry { subsystem_nqn: Some("other".to_string()), device_path: Some("/dev/nvme0n1".to_string()) },
        NvmeListEntry { subsystem_nqn: Some(c.nqn.clone()), device_path: None },
        NvmeListEntry { subsystem_nqn: Some(c.nqn.clone()), device_path: Some("/dev/nvme2n1".to_string()) },
    ];
    assert_eq!(find_nvme_device(&devs, &c.nqn).ok().unwrap(), "/dev/nvme2n1");
    assert_eq!(
        find_nvme_device(&devs[..1], &c.nqn).err().unwrap(),
        "NVMe device not found for NQN nqn.2024-01.io.caiman:vol2"
    );
}

#[test]
fn nfs_and_fc() {
    let c = NfsConfig {
        server: "nas".to_string(),
        export_path: "/export/v".to_string(),
        version: NfsVersion::V41,
        options: vec!["rw".to_string(), "hard".to_string()],
    };
    assert_eq!(nfs_mount_point("v1"), "/mnt/caiman/nfs/v1");
    assert_eq!(
        nfs_mount_args(&c, "/mnt/caiman/nfs/v1"),
        vec!["-t", "nfs", "-o", "rw,hard,vers=4.1", "nas:/export/v", "/mnt/caiman/nfs/v1"]
    );
    assert_eq!(
        fc_attach_error(),
        "FC attachment requires HBA and fc_transport kernel module — check /sys/class/fc_host/"
    );
}

#[test]
fn attaching_records_the_device() {
    let mut v = VVol {
        id: "v1".to_string(),
        vm_id: 3,
        name: "data".to_string(),
        size_gib: 20,
        backend: StorageBackend::Local(LocalConfig { path: "/img".to_string(), format: DiskFormat::Raw }),
        policy: VVolPolicy {
            performance_tier: PerformanceTier::Gold,
            snapshot_schedule: None,
            encryption: false,
            replication: None,
        },
        local_dev: None,
    };
    set_attached(&mut v, "/dev/sdb".to_string());
    assert_eq!(v.local_dev.as_deref(), Some("/dev/sdb"));
    assert_eq!((v.id.as_str(), v.vm_id, v.size_gib), ("v1", 3, 20));
    assert_eq!(v.name, "data");
    assert_eq!(v.policy.performance_tier, PerformanceTier::Gold);
    assert!(matches!(attach_route(&v), AttachRoute::Local { device } if device == "/img"));
    v.backend = StorageBackend::Nfs(NfsConfig {
        server: "nas".to_string(),
        export_path: "/vols".to_string(),
        version: NfsVersion::V42,
        options: vec![],
    });
    assert!(matches!(attach_route(&v), AttachRoute::Nfs { mount_point } if mount_point == "/mnt/caiman/nfs/v1"));
}
