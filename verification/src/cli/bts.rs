//! The snapshot, backup and template commands.
use vstd::prelude::*;

verus! {

/// `caiman snapshot`.
pub enum SnapCmd {
    List { vm: Option<String> },
    /// `consistency` is `quiesced`, `crash-consistent` (default) or
    /// `offline`; labels are `key=value`.
    Take { vm_id: String, name: String, description: Option<String>, consistency: String, label: Vec<String> },
    Restore { snap_id: String, to: Option<String>, name: Option<String>, node: Option<String> },
    Clone { snap_id: String, name: String, node: Option<String>, start: bool },
    Chain { vm_id: String },
    Seal { snap_id: String },
    Delete { snap_id: String, confirm: bool },
}

/// `caiman backup`.
pub enum BackupCmd {
    List { vm: Option<String> },
    /// `type` is `full` (default), `incremental` or `differential`.
    Start { vm_id: String, target: String, kind: String, parent: Option<String>, description: Option<String> },
    Restore { backup_id: String, to: Option<String>, name: Option<String> },
    Verify { backup_id: String },
    Delete { backup_id: String },
    Schedule { action: ScheduleAction },
    Stats,
}

/// `caiman backup schedule`.
pub enum ScheduleAction {
    List,
    Create { vm: Option<String>, name: String, cron: String, target: String, kind: String, keep_daily: u32, keep_weekly: u32 },
    Delete { id: String },
}

/// `caiman template`.
pub enum TmplCmd {
    List,
    Get { tmpl_id: String },
    Create {
        from_snapshot: String,
        name: String,
        version: String,
        os_version: String,
        description: Option<String>,
        cloud_init: Option<String>,
        default_mem: u64,
        default_cpus: u8,
    },
    Clone { tmpl_id: String, name: String, node: Option<String>, mem: Option<u64>, cpus: Option<u8>, start: bool },
    Publish { tmpl_id: String },
    Unpublish { tmpl_id: String },
    Delete { tmpl_id: String },
}

} // verus!
