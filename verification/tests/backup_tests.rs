use caiman::backup::{
    backup_args, backup_type_name, find_vm_disk, parse_backup_type, parse_restic_output,
    parse_target_string, password_env_var, repo_path, restic_command_args, restore_args,
    restore_path, retention_args, summary_figures, BackupTarget, BackupType, ResticLine,
    RetentionPolicy,
};
use caiman::style::{color_status, color_status_bup, format_uptime, highlight_json, JsonLine, Palette};
use caiman::templates::{
    check_clonable, clone_paths, clone_size, clone_vm_id, clone_vmm_args, cloud_localds_args,
    flatten_args, genisoimage_args, parse_os_type, restore_message, restore_plan,
    template_defaults, template_image_path, OsType, RestorePlan,
};

#[test]
fn backup_kinds() {
    assert_eq!(parse_backup_type(Some("incremental")), BackupType::Incremental);
    assert_eq!(parse_backup_type(Some("differential")), BackupType::Differential);
    assert_eq!(parse_backup_type(Some("weekly")), BackupType::Full);
    assert_eq!(parse_backup_type(None), BackupType::Full);
    assert_eq!(backup_type_name(BackupType::Incremental), "Incremental");
    assert_eq!(backup_type_name(BackupType::Full), "Full");
}

#[test]
fn repositories_of_targets() {
    let s3 = BackupTarget::S3 { bucket: "b".to_string(), prefix: "p".to_string(), endpoint: None };
    assert_eq!(repo_path(&s3), "s3:s3.amazonaws.com/b/p");
    let minio = BackupTarget::S3 {
        bucket: "b".to_string(),
        prefix: "p".to_string(),
        endpoint: Some("minio:9000".to_string()),
    };
    assert_eq!(repo_path(&minio), "s3:minio:9000/b/p");
    let nfs = BackupTarget::Nfs {
        server: "nas".to_string(),
        export: "/e".to_string(),
        mount_path: "/mnt/x".to_string(),
    };
    assert_eq!(repo_path(&nfs), "/mnt/x");
    let restic = BackupTarget::Restic { repo: "rest:http://h/".to_string(), password_env: "PW".to_string() };
    assert_eq!(repo_path(&restic), "rest:http://h/");
    assert_eq!(password_env_var(&restic), "PW");
    assert_eq!(password_env_var(&nfs), "CAIMAN_BACKUP_PASSWORD");
    assert_eq!(repo_path(&BackupTarget::Local { path: "/b".to_string() }), "/b");
}

#[test]
fn backup_command_line() {
    assert_eq!(find_vm_disk("/var/lib/caiman", "vm-12"), "/var/lib/caiman/12.img");
    assert_eq!(
        backup_args("vm-12", "web", BackupType::Incremental, &Some("abc123".to_string()), "/d.img"),
        vec![
            "backup",
            "--json",
            "--tag=vm=vm-12,name=web,type=Incremental",
            "--compression=max",
            "--parent=abc123",
            "/d.img"
        ]
    );
    assert_eq!(backup_args("v", "n", BackupType::Full, &None, "/d").len(), 5);
    assert_eq!(
        restic_command_args("/repo", &["snapshots".to_string(), "--json".to_string()]),
        vec!["-r", "/repo", "snapshots", "--json"]
    );
}

#[test]
fn retention_passes_set_rules() {
    let mut p = RetentionPolicy::default();
    assert_eq!(retention_args("vm-1", &p), vec!["forget", "--prune", "--tag=vm=vm-1"]);
    p.keep_daily = Some(7);
    p.keep_yearly = Some(2);
    p.keep_within_days = Some(30);
    assert_eq!(
        retention_args("vm-1", &p),
        vec!["forget", "--prune", "--tag=vm=vm-1", "--keep-daily=7", "--keep-yearly=2"]
    );
}

#[test]
fn restore_command_line() {
    assert_eq!(restore_path(None, "vm-3"), "/var/lib/caiman/restore/vm-3");
    assert_eq!(restore_path(Some("/tmp/r"), "vm-3"), "/tmp/r");
    assert_eq!(restore_args("abc", "/tmp/r"), vec!["restore", "abc", "--target=/tmp/r"]);
}

#[test]
fn restic_summary_is_read() {
    let out = "{\"message_type\":\"status\",\"percent_done\":0.5}\n\
               {\"message_type\":\"summary\",\"snapshot_id\":\"1f2e3d\",\"data_added\":10485760,\"total_bytes_processed\":52428800}\n";
    assert_eq!(parse_restic_output(out), ("1f2e3d".to_string(), 10, 50, 40));
    assert_eq!(parse_restic_output("garbage\n"), ("unknown".to_string(), 0, 0, 0));
    assert_eq!(parse_restic_output(""), ("unknown".to_string(), 0, 0, 0));
}

#[test]
fn summary_figures_fill_missing_fields() {
    let l = ResticLine {
        message_type: Some("summary".to_string()),
        snapshot_id: None,
        data_added: Some(5 * 1048576),
        total_bytes_processed: Some(3 * 1048576),
    };
    assert_eq!(summary_figures(&l), (String::new(), 5, 3, 0));
}

#[test]
fn command_line_targets() {
    match parse_target_string("s3://bucket/nightly") {
        BackupTarget::S3 { bucket, prefix, endpoint } => {
            assert_eq!((bucket.as_str(), prefix.as_str(), endpoint), ("bucket", "nightly", None))
        }
        _ => panic!("expected S3"),
    }
    match parse_target_string("s3://bucket") {
        BackupTarget::S3 { prefix, .. } => assert_eq!(prefix, "caiman"),
        _ => panic!("expected S3"),
    }
    match parse_target_string("nfs://nas:/vol/bk") {
        BackupTarget::Nfs { server, export, mount_path } => {
            assert_eq!(server, "nas");
            assert_eq!(export, "/vol/bk");
            assert_eq!(mount_path, "/mnt/caiman-backup/nas");
        }
        _ => panic!("expected NFS"),
    }
    match parse_target_string("nfs://nas") {
        BackupTarget::Nfs { export, .. } => assert_eq!(export, "/backup"),
        _ => panic!("expected NFS"),
    }
    match parse_target_string("/srv/backups") {
        BackupTarget::Local { path } => assert_eq!(path, "/srv/backups"),
        _ => panic!("expected a local path"),
    }
    assert_eq!(repo_path(&parse_target_string("s3://b/p")), "s3:s3.amazonaws.com/b/p");
}

#[test]
fn template_settings() {
    assert_eq!(parse_os_type(Some("windows")), OsType::Windows);
    assert_eq!(parse_os_type(Some("freebsd")), OsType::FreeBSD);
    assert_eq!(parse_os_type(Some("plan9")), OsType::Linux);
    assert_eq!(parse_os_type(None), OsType::Linux);
    let d = template_defaults(None, None);
    assert_eq!((d.mem_mib, d.cpus, d.disk_gib, d.uplink.as_str()), (512, 1, 20, "eth0"));
    let d = template_defaults(Some(2048), Some(4));
    assert_eq!((d.mem_mib, d.cpus), (2048, 4));
    assert_eq!(clone_size(None, Some(2), &d), (2048, 2));
    assert_eq!(clone_size(Some(64), None, &d), (64, 4));
}

#[test]
fn template_files_and_commands() {
    assert_eq!(template_image_path("/var/lib/caiman/templates", "t1"), "/var/lib/caiman/templates/t1/base.qcow2");
    assert_eq!(
        flatten_args("/s.qcow2", "/t.qcow2"),
        vec!["convert", "-O", "qcow2", "-c", "-o", "compression_type=zstd", "/s.qcow2", "/t.qcow2"]
    );
    assert!(check_clonable("t1", true).is_ok());
    assert_eq!(check_clonable("t1", false).err().unwrap(), "Template t1 is not published yet");
    assert_eq!(clone_vm_id("3f2a9c1e-1111-4222-8333-444455556666"), "vm-3f2a9c1e");
    let p = clone_paths("vm-3f2a9c1e");
    assert_eq!(p.vm_dir, "/var/lib/caiman/disks/vm-3f2a9c1e");
    assert_eq!(p.disk, "/var/lib/caiman/disks/vm-3f2a9c1e/disk0.qcow2");
    assert_eq!(p.cloud_init_iso, "/var/lib/caiman/disks/vm-3f2a9c1e/cloud-init.iso");
    assert_eq!(p.user_data, "/var/lib/caiman/disks/vm-3f2a9c1e/cloud-init.yml");
    assert_eq!(
        clone_vmm_args("vm-3f2a9c1e", 1024, 2),
        vec!["--vm-id=3f2a9c1e", "--kernel=/var/lib/caiman/vmlinux", "--mem-mib=1024", "--cpus=2"]
    );
    assert_eq!(cloud_localds_args("/c.iso", "/u.yml"), vec!["/c.iso", "/u.yml"]);
    assert_eq!(
        genisoimage_args("/c.iso", "/u.yml"),
        vec!["-output", "/c.iso", "-volid", "cidata", "-joliet", "-rock", "/u.yml"]
    );
}

#[test]
fn restore_plans() {
    assert!(matches!(restore_plan(Some("vm-1"), Some("x"), None, "web"), RestorePlan::InPlace { vm_id } if vm_id == "vm-1"));
    match restore_plan(None, None, Some("node-2"), "web") {
        RestorePlan::NewVm { name, node } => {
            assert_eq!(name, "web");
            assert_eq!(node.as_deref(), Some("node-2"));
        }
        _ => panic!("expected a new VM"),
    }
    match restore_plan(None, Some("copy"), None, "web") {
        RestorePlan::NewVm { name, node } => assert_eq!((name.as_str(), node), ("copy", None)),
        _ => panic!("expected a new VM"),
    }
    assert_eq!(restore_message("nightly"), "Restored from snapshot nightly");
}

#[test]
fn status_colors() {
    assert_eq!(color_status("RUNNING").color, Palette::Bright);
    assert_eq!(color_status("MIGRATING").color, Palette::Blue);
    assert_eq!(color_status("HIGH_LOAD").color, Palette::Amber);
    assert_eq!(color_status("DENY").color, Palette::Red);
    assert_eq!(color_status("HEALTHY").color, Palette::Green);
    assert_eq!(color_status("STOPPED").color, Palette::Dim);
    let s = color_status("weird");
    assert_eq!((s.text.as_str(), s.color), ("weird", Palette::White));
    let b = color_status_bup("Completed");
    assert_eq!((b.text.as_str(), b.color), ("COMPLETED", Palette::Bright));
    let b = color_status_bup("Verifying");
    assert_eq!((b.text.as_str(), b.color), ("VERIFYING", Palette::Amber));
    let b = color_status_bup("Pending");
    assert_eq!((b.text.as_str(), b.color), ("Pending", Palette::Dim));
    assert_eq!(Palette::Bright.rgb(), (118, 255, 3));
    assert_eq!(Palette::Amber.rgb(), (255, 179, 0));
}

#[test]
fn uptimes() {
    assert_eq!(format_uptime(0), "0m");
    assert_eq!(format_uptime(59), "0m");
    assert_eq!(format_uptime(3 * 60 + 5), "3m");
    assert_eq!(format_uptime(4 * 3600 + 5 * 60), "4h 5m");
    assert_eq!(format_uptime(2 * 86400 + 3 * 3600 + 59 * 60), "2d 3h");
}

fn field(j: &JsonLine) -> (&str, &str, &str, Option<Palette>) {
    match j {
        JsonLine::Field { indent, key, value, value_color } => {
            (indent.as_str(), key.as_str(), value.as_str(), *value_color)
        }
        JsonLine::Plain(_) => panic!("expected a field"),
    }
}

#[test]
fn json_is_colored_by_value_kind() {
    let text = "{\n  \"name\": \"web\",\n  \"cpus\": 4,\n  \"up\": true,\n  \"delta\": -2,\n  \"tags\": [\n    \"a\"\n  ],\n  \"none\": null\n}";
    let out = highlight_json(text);
    assert_eq!(out.len(), 10);
    assert!(matches!(&out[0], JsonLine::Plain(l) if l == "{"));
    assert_eq!(field(&out[1]), ("  ", "\"name\"", "web", Some(Palette::Green)));
    assert_eq!(field(&out[2]), ("  ", "\"cpus\"", "4", Some(Palette::Amber)));
    assert_eq!(field(&out[3]), ("  ", "\"up\"", "true,", None));
    assert_eq!(field(&out[4]), ("  ", "\"delta\"", "-2", Some(Palette::Amber)));
    assert_eq!(field(&out[5]), ("  ", "\"tags\"", "[", None));
    assert!(matches!(&out[6], JsonLine::Plain(l) if l == "    \"a\""));
    assert_eq!(field(&out[8]), ("  ", "\"none\"", "null", None));
    assert!(matches!(&out[9], JsonLine::Plain(l) if l == "}"));
    let last = highlight_json("{\"ok\": false}");
    assert!(matches!(&last[0], JsonLine::Plain(_)));
    assert_eq!(field(&highlight_json("\"ok\": false")[0]).3, Some(Palette::Blue));
}

#[test]
fn numeric_values_beyond_ascii() {
    assert_eq!(field(&highlight_json("\"n\": \u{663}\u{662},")[0]).2, "\u{663}\u{662}");
    assert_eq!(field(&highlight_json("\"n\": \u{663}\u{662},")[0]).3, Some(Palette::Amber));
    assert_eq!(field(&highlight_json("\"n\": \u{e9}t\u{e9}")[0]).3, None);
}
