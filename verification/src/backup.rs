//! Backups through Restic: where a target's repository is, the Restic
//! argument lists for a backup, a retention pass and a restore, reading
//! the summary Restic prints, and the command-line forms of a target.
use vstd::prelude::*;
use crate::vm::opt_view;
use crate::text::{
    dec, dec_string, extend_chars, extend_str, find_char, has_prefix, index_of_char, lines,
    push_str, slice_chars, split_lines, starts_with, str_chars, string_from_chars, string_views,
    strip_all_prefix, trim_start_matches, char_views,
};

verus! {

/// Where a backup is kept.
pub enum BackupTarget {
    S3 { bucket: String, prefix: String, endpoint: Option<String> },
    Nfs { server: String, export: String, mount_path: String },
    Local { path: String },
    Restic { repo: String, password_env: String },
}

/// Kind of backup.
#[derive(PartialEq, Eq, Structural, Clone, Copy, Debug)]
pub enum BackupType {
    Full,
    Incremental,
    Differential,
}

/// Progress of a backup.
#[derive(PartialEq, Eq, Structural, Clone, Copy, Debug)]
pub enum BackupStatus {
    Pending,
    Running,
    Completed,
    Failed,
    Verifying,
    Expired,
}

/// How many backups of each period to keep; unset means no rule.
#[derive(Clone, Copy, Debug)]
pub struct RetentionPolicy {
    pub keep_hourly: Option<u32>,
    pub keep_daily: Option<u32>,
    pub keep_weekly: Option<u32>,
    pub keep_monthly: Option<u32>,
    pub keep_yearly: Option<u32>,
    pub keep_within_days: Option<u32>,
}

impl Default for RetentionPolicy {
    /// No retention rule at all.
    fn default() -> (r: Self)
        ensures
            r.keep_hourly is None && r.keep_daily is None && r.keep_weekly is None
                && r.keep_monthly is None && r.keep_yearly is None && r.keep_within_days is None,
    {
        RetentionPolicy {
            keep_hourly: None,
            keep_daily: None,
            keep_weekly: None,
            keep_monthly: None,
            keep_yearly: None,
            keep_within_days: None,
        }
    }
}

/// The kind of backup named in a request: `incremental`, `differential`,
/// and a full backup for anything else or nothing.
pub fn parse_backup_type(s: Option<&str>) -> (r: BackupType)
    ensures
        r == (match s {
            Some(t) => if t@ == "incremental"@ {
                BackupType::Incremental
            } else if t@ == "differential"@ {
                BackupType::Differential
            } else {
                BackupType::Full
            },
            None => BackupType::Full,
        }),
{
    match s {
        Some(t) => if crate::text::str_eq(t, "incremental") {
            BackupType::Incremental
        } else if crate::text::str_eq(t, "differential") {
            BackupType::Differential
        } else {
            BackupType::Full
        },
        None => BackupType::Full,
    }
}

/// The name of a kind of backup as it is recorded and tagged.
pub open spec fn backup_type_text(t: BackupType) -> Seq<char> {
    match t {
        BackupType::Full => "Full"@,
        BackupType::Incremental => "Incremental"@,
        BackupType::Differential => "Differential"@,
    }
}

/// The name of a kind of backup (`Full`, `Incremental`, `Differential`).
pub fn backup_type_name(t: BackupType) -> (r: &'static str)
    ensures
        r@ == backup_type_text(t),
{
    match t {
        BackupType::Full => "Full",
        BackupType::Incremental => "Incremental",
        BackupType::Differential => "Differential",
    }
}

/// The Restic repository of a target.
pub open spec fn spec_repo_path(t: BackupTarget) -> Seq<char> {
    match t {
        BackupTarget::S3 { bucket, prefix, endpoint } => {
            let ep = match endpoint {
                Some(e) => e@,
                None => "s3.amazonaws.com"@,
            };
            "s3:"@ + ep + "/"@ + bucket@ + "/"@ + prefix@
        },
        BackupTarget::Nfs { mount_path, .. } => mount_path@,
        BackupTarget::Local { path } => path@,
        BackupTarget::Restic { repo, .. } => repo@,
    }
}

/// The Restic repository of a target: `s3:ENDPOINT/BUCKET/PREFIX` (with
/// the AWS endpoint by default), the NFS mount path, the local path, or
/// the given repository.
pub fn repo_path(t: &BackupTarget) -> (r: String)
    ensures
        r@ == spec_repo_path(*t),
{
    match t {
        BackupTarget::S3 { bucket, prefix, endpoint } => {
            let mut v = str_chars("s3:");
            match endpoint {
                Some(e) => extend_str(&mut v, e.as_str()),
                None => extend_str(&mut v, "s3.amazonaws.com"),
            }
            extend_str(&mut v, "/");
            extend_str(&mut v, bucket.as_str());
            extend_str(&mut v, "/");
            extend_str(&mut v, prefix.as_str());
            string_from_chars(v.as_slice())
        },
        BackupTarget::Nfs { mount_path, .. } => mount_path.clone(),
        BackupTarget::Local { path } => path.clone(),
        BackupTarget::Restic { repo, .. } => repo.clone(),
    }
}

/// The environment variable that holds the repository password: the
/// target's own for a Restic target, `CAIMAN_BACKUP_PASSWORD` otherwise.
pub fn password_env_var(t: &BackupTarget) -> (r: String)
    ensures
        r@ == (match *t {
            BackupTarget::Restic { password_env, .. } => password_env@,
            _ => "CAIMAN_BACKUP_PASSWORD"@,
        }),
{
    match t {
        BackupTarget::Restic { password_env, .. } => password_env.clone(),
        _ => "CAIMAN_BACKUP_PASSWORD".to_owned(),
    }
}

/// The disk image of a VM: `STATE_DIR/NUM.img`, where `NUM` is the ID
/// without its leading `vm-` prefixes.
pub open spec fn spec_vm_disk(state_dir: Seq<char>, vm_id: Seq<char>) -> Seq<char> {
    state_dir + "/"@ + strip_all_prefix(vm_id, "vm-"@) + ".img"@
}

/// The disk image of a VM in the state directory.
pub fn find_vm_disk(state_dir: &str, vm_id: &str) -> (r: String)
    ensures
        r@ == spec_vm_disk(state_dir@, vm_id@),
{
    let mut v = str_chars(state_dir);
    extend_str(&mut v, "/");
    let id = str_chars(vm_id);
    let p = str_chars("vm-");
    let num = trim_start_matches(id.as_slice(), p.as_slice());
    extend_chars(&mut v, num.as_slice());
    extend_str(&mut v, ".img");
    string_from_chars(v.as_slice())
}

/// The Restic tag of a VM's backups.
pub open spec fn spec_backup_tags(vm_id: Seq<char>, vm_name: Seq<char>, t: BackupType) -> Seq<char> {
    "vm="@ + vm_id + ",name="@ + vm_name + ",type="@ + backup_type_text(t)
}

/// The arguments of a Restic backup of `disk_path`, on top of the parent
/// snapshot when one is known.
pub open spec fn spec_backup_args(
    vm_id: Seq<char>,
    vm_name: Seq<char>,
    t: BackupType,
    parent_restic_id: Option<Seq<char>>,
    disk_path: Seq<char>,
) -> Seq<Seq<char>> {
    let base = seq![
        "backup"@,
        "--json"@,
        "--tag="@ + spec_backup_tags(vm_id, vm_name, t),
        "--compression=max"@,
    ];
    let with_parent = match parent_restic_id {
        Some(p) => base.push("--parent="@ + p),
        None => base,
    };
    with_parent.push(disk_path)
}


/// The arguments of the Restic backup of a VM's disk.
pub fn backup_args(
    vm_id: &str,
    vm_name: &str,
    t: BackupType,
    parent_restic_id: &Option<String>,
    disk_path: &str,
) -> (r: Vec<String>)
    ensures
        string_views(r@) == spec_backup_args(
            vm_id@,
            vm_name@,
            t,
            opt_view(*parent_restic_id),
            disk_path@,
        ),
{
    let mut a: Vec<String> = Vec::new();
    push_str(&mut a, "backup");
    push_str(&mut a, "--json");
    let mut tag = str_chars("--tag=vm=");
    extend_str(&mut tag, vm_id);
    extend_str(&mut tag, ",name=");
    extend_str(&mut tag, vm_name);
    extend_str(&mut tag, ",type=");
    extend_str(&mut tag, backup_type_name(t));
    let tag_s = string_from_chars(tag.as_slice());
    proof {
        assert("--tag=vm="@ =~= "--tag="@ + "vm="@) by {
            reveal_strlit("--tag=vm=");
            reveal_strlit("--tag=");
            reveal_strlit("vm=");
        }
        assert(tag_s@ =~= "--tag="@ + spec_backup_tags(vm_id@, vm_name@, t));
    }
    push_str(&mut a, tag_s.as_str());
    push_str(&mut a, "--compression=max");
    match parent_restic_id {
        Some(p) => {
            let mut pv = str_chars("--parent=");
            extend_str(&mut pv, p.as_str());
            let ps = string_from_chars(pv.as_slice());
            push_str(&mut a, ps.as_str());
        },
        None => {},
    }
    push_str(&mut a, disk_path);
    assert(string_views(a@) =~= spec_backup_args(
        vm_id@,
        vm_name@,
        t,
        opt_view(*parent_restic_id),
        disk_path@,
    ));
    a
}

/// `--keep-PERIOD=N` for a rule that is set.
pub open spec fn keep_arg(o: Option<u32>, flag: Seq<char>) -> Seq<Seq<char>> {
    match o {
        Some(n) => seq![flag + dec(n as nat)],
        None => Seq::empty(),
    }
}

/// The arguments of the Restic retention pass over a VM's backups: forget
/// and prune those tagged with the VM, keeping what each set rule keeps.
/// (The `keep_within_days` rule is not passed on.)
pub open spec fn spec_retention_args(vm_id: Seq<char>, p: RetentionPolicy) -> Seq<Seq<char>> {
    seq!["forget"@, "--prune"@, "--tag=vm="@ + vm_id] + keep_arg(p.keep_hourly, "--keep-hourly="@)
        + keep_arg(p.keep_daily, "--keep-daily="@) + keep_arg(p.keep_weekly, "--keep-weekly="@)
        + keep_arg(p.keep_monthly, "--keep-monthly="@) + keep_arg(p.keep_yearly, "--keep-yearly="@)
}

fn push_keep(a: &mut Vec<String>, o: Option<u32>, flag: &str)
    ensures
        string_views(final(a)@) == string_views(old(a)@) + keep_arg(o, flag@),
{
    match o {
        Some(n) => {
            let mut v = str_chars(flag);
            let d = dec_string(n as u64);
            extend_str(&mut v, d.as_str());
            let s = string_from_chars(v.as_slice());
            push_str(a, s.as_str());
            assert(string_views(a@) =~= string_views(old(a)@) + keep_arg(o, flag@));
        },
        None => {
            assert(string_views(a@) =~= string_views(old(a)@) + keep_arg(o, flag@));
        },
    }
}

/// The arguments of the retention pass for a VM's backups.
pub fn retention_args(vm_id: &str, p: &RetentionPolicy) -> (r: Vec<String>)
    ensures
        string_views(r@) == spec_retention_args(vm_id@, *p),
        forall|j: int|
            0 <= j < 5 ==> carries_rule(string_views(r@), #[trigger] keep_flag(j), keep_rule(*p, j)),
{
    proof {
        assert forall|j: int| 0 <= j < 5 implies carries_rule(
            spec_retention_args(vm_id@, *p),
            #[trigger] keep_flag(j),
            keep_rule(*p, j),
        ) by {
            lemma_retention_rules(vm_id@, *p, j);
        }
    }
    let mut a: Vec<String> = Vec::new();
    push_str(&mut a, "forget");
    push_str(&mut a, "--prune");
    let mut t = str_chars("--tag=vm=");
    extend_str(&mut t, vm_id);
    let ts = string_from_chars(t.as_slice());
    push_str(&mut a, ts.as_str());
    assert(string_views(a@) =~= seq!["forget"@, "--prune"@, "--tag=vm="@ + vm_id@]);
    push_keep(&mut a, p.keep_hourly, "--keep-hourly=");
    push_keep(&mut a, p.keep_daily, "--keep-daily=");
    push_keep(&mut a, p.keep_weekly, "--keep-weekly=");
    push_keep(&mut a, p.keep_monthly, "--keep-monthly=");
    push_keep(&mut a, p.keep_yearly, "--keep-yearly=");
    a
}

/// The number of retention rules that are passed on to Restic.
pub open spec fn passed_rules(p: RetentionPolicy) -> nat {
    (if p.keep_hourly is Some { 1nat } else { 0nat }) + (if p.keep_daily is Some {
        1nat
    } else {
        0nat
    }) + (if p.keep_weekly is Some { 1nat } else { 0nat }) + (if p.keep_monthly is Some {
        1nat
    } else {
        0nat
    }) + (if p.keep_yearly is Some { 1nat } else { 0nat })
}

/// A retention pass carries the three selection arguments and one
/// `--keep-*` argument per rule that is set (the within-days rule aside).
pub proof fn lemma_retention_arg_count(vm_id: Seq<char>, p: RetentionPolicy)
    ensures
        spec_retention_args(vm_id, p).len() == 3 + passed_rules(p),
{
}

/// `args` passes on the retention rule `flag` as `o` sets it: when the
/// rule keeps `n`, `flag` followed by `n` is among the arguments, and every
/// argument that begins with `flag` is exactly that one.
pub open spec fn carries_rule(args: Seq<Seq<char>>, flag: Seq<char>, o: Option<u32>) -> bool {
    &&& (o matches Some(n) ==> args.contains(flag + dec(n as nat)))
    &&& forall|i: int|
        0 <= i < args.len() && has_prefix(#[trigger] args[i], flag) ==> (o matches Some(n)
            && args[i] == flag + dec(n as nat))
}

/// Every argument that begins with `flag` is `flag` followed by the count
/// that `o` keeps.
pub open spec fn only_rule(args: Seq<Seq<char>>, flag: Seq<char>, o: Option<u32>) -> bool {
    forall|i: int|
        0 <= i < args.len() && has_prefix(#[trigger] args[i], flag) ==> (o matches Some(n)
            && args[i] == flag + dec(n as nat))
}

/// A word whose character `k` differs from that of `f` does not begin with `f`.
proof fn lemma_no_prefix(g: Seq<char>, x: Seq<char>, f: Seq<char>, k: int)
    requires
        0 <= k < f.len(),
        k < g.len(),
        f[k] != g[k],
    ensures
        !has_prefix(g + x, f),
{
    if has_prefix(g + x, f) {
        assert((g + x).subrange(0, f.len() as int)[k] == f[k]);
        assert((g + x)[k] == g[k]);
    }
}

proof fn lemma_only_rule_concat(a: Seq<Seq<char>>, b: Seq<Seq<char>>, f: Seq<char>, o: Option<u32>)
    requires
        only_rule(a, f, o),
        only_rule(b, f, o),
    ensures
        only_rule(a + b, f, o),
{
    assert forall|i: int| 0 <= i < (a + b).len() && has_prefix(#[trigger] (a + b)[i], f) implies (o
        matches Some(n) && (a + b)[i] == f + dec(n as nat)) by {
        if i < a.len() {
            assert((a + b)[i] == a[i]);
        } else {
            assert((a + b)[i] == b[i - a.len()]);
        }
    }
}

/// The retention flags, in the order they are passed.
pub open spec fn keep_flag(j: int) -> Seq<char> {
    if j == 0 {
        "--keep-hourly="@
    } else if j == 1 {
        "--keep-daily="@
    } else if j == 2 {
        "--keep-weekly="@
    } else if j == 3 {
        "--keep-monthly="@
    } else {
        "--keep-yearly="@
    }
}

/// The retention rule a flag passes on.
pub open spec fn keep_rule(p: RetentionPolicy, j: int) -> Option<u32> {
    if j == 0 {
        p.keep_hourly
    } else if j == 1 {
        p.keep_daily
    } else if j == 2 {
        p.keep_weekly
    } else if j == 3 {
        p.keep_monthly
    } else {
        p.keep_yearly
    }
}

proof fn lemma_flags_differ(j: int, m: int)
    requires
        0 <= j < 5,
        0 <= m < 5,
    ensures
        keep_flag(j).len() > 7,
        j != m ==> keep_flag(j)[7] != keep_flag(m)[7],
        keep_flag(j)[0] == '-' && keep_flag(j)[2] == 'k',
{
    reveal_strlit("--keep-hourly=");
    reveal_strlit("--keep-daily=");
    reveal_strlit("--keep-weekly=");
    reveal_strlit("--keep-monthly=");
    reveal_strlit("--keep-yearly=");
}

/// Under flag `f` (rule `j`), the other rules' arguments are silent.
proof fn lemma_other_rule(o: Option<u32>, m: int, j: int, q: Option<u32>)
    requires
        0 <= j < 5,
        0 <= m < 5,
        m != j,
    ensures
        only_rule(keep_arg(o, keep_flag(m)), keep_flag(j), q),
{
    lemma_flags_differ(j, m);
    lemma_flags_differ(m, j);
    assert forall|i: int| 0 <= i < keep_arg(o, keep_flag(m)).len() && has_prefix(
        #[trigger] keep_arg(o, keep_flag(m))[i],
        keep_flag(j),
    ) implies (q matches Some(n) && keep_arg(o, keep_flag(m))[i] == keep_flag(j) + dec(n as nat)) by {
        let n = o->0;
        lemma_no_prefix(keep_flag(m), dec(n as nat), keep_flag(j), 7);
    }
}

/// A retention pass passes on each rule as it is set: for every period
/// (hourly, daily, weekly, monthly, yearly), a rule keeping `n` appears as
/// `--keep-PERIOD=n`, and no other argument begins with `--keep-PERIOD=`;
/// an unset rule has no such argument.
pub proof fn lemma_retention_rules(vm_id: Seq<char>, p: RetentionPolicy, j: int)
    requires
        0 <= j < 5,
    ensures
        carries_rule(spec_retention_args(vm_id, p), keep_flag(j), keep_rule(p, j)),
{
    let f = keep_flag(j);
    let o = keep_rule(p, j);
    reveal_strlit("forget");
    reveal_strlit("--prune");
    reveal_strlit("--tag=vm=");
    lemma_flags_differ(j, j);
    let head = seq!["forget"@, "--prune"@, "--tag=vm="@ + vm_id];
    assert(only_rule(head, f, o)) by {
        assert forall|i: int| 0 <= i < head.len() && has_prefix(#[trigger] head[i], f) implies (o
            matches Some(n) && head[i] == f + dec(n as nat)) by {
            if i == 0 {
                lemma_no_prefix("forget"@, Seq::<char>::empty(), f, 0);
                assert("forget"@ + Seq::<char>::empty() =~= "forget"@);
            } else if i == 1 {
                lemma_no_prefix("--prune"@, Seq::<char>::empty(), f, 2);
                assert("--prune"@ + Seq::<char>::empty() =~= "--prune"@);
            } else {
                lemma_no_prefix("--tag=vm="@, vm_id, f, 2);
            }
        }
    }
    let ks = Seq::new(5, |m: int| keep_arg(keep_rule(p, m), keep_flag(m)));
    assert forall|m: int| 0 <= m < 5 implies only_rule(#[trigger] ks[m], f, o) by {
        if m == j {
            assert forall|i: int| 0 <= i < ks[m].len() && has_prefix(#[trigger] ks[m][i], f) implies (o
                matches Some(n) && ks[m][i] == f + dec(n as nat)) by {}
        } else {
            lemma_other_rule(keep_rule(p, m), m, j, o);
        }
    }
    let a1 = head + ks[0];
    let a2 = a1 + ks[1];
    let a3 = a2 + ks[2];
    let a4 = a3 + ks[3];
    let a5 = a4 + ks[4];
    lemma_only_rule_concat(head, ks[0], f, o);
    lemma_only_rule_concat(a1, ks[1], f, o);
    lemma_only_rule_concat(a2, ks[2], f, o);
    lemma_only_rule_concat(a3, ks[3], f, o);
    lemma_only_rule_concat(a4, ks[4], f, o);
    reveal_strlit("--keep-hourly=");
    reveal_strlit("--keep-daily=");
    reveal_strlit("--keep-weekly=");
    reveal_strlit("--keep-monthly=");
    reveal_strlit("--keep-yearly=");
    assert(a5 == spec_retention_args(vm_id, p));
    if o is Some {
        let x = f + dec(o->0 as nat);
        assert(ks[j] =~= seq![x]);
        let pos = head.len() + (if j >= 1 { ks[0].len() } else { 0 }) + (if j >= 2 {
            ks[1].len()
        } else {
            0
        }) + (if j >= 3 { ks[2].len() } else { 0 }) + (if j >= 4 { ks[3].len() } else { 0 });
        assert(a5[pos as int] == x);
    }
}

/// The full argument list of a Restic run on a repository.
pub fn restic_command_args(repo: &str, args: &[String]) -> (r: Vec<String>)
    ensures
        string_views(r@) == seq!["-r"@, repo@] + string_views(args@),
{
    let mut a: Vec<String> = Vec::new();
    push_str(&mut a, "-r");
    push_str(&mut a, repo);
    let n = args.len();
    let mut i: usize = 0;
    while i < n
        invariant
            i <= n,
            n == args@.len(),
            string_views(a@) == seq!["-r"@, repo@] + string_views(args@.subrange(0, i as int)),
        decreases n - i,
    {
        push_str(&mut a, args[i].as_str());
        assert(string_views(args@.subrange(0, i + 1)) =~= string_views(
            args@.subrange(0, i as int),
        ).push(args@[i as int]@));
        i = i + 1;
    }
    assert(args@.subrange(0, n as int) =~= args@);
    a
}

/// The directory a backup is restored into: the given path, or
/// `/var/lib/caiman/restore/VM`.
pub fn restore_path(target_path: Option<&str>, vm_id: &str) -> (r: String)
    ensures
        r@ == (match target_path {
            Some(p) => p@,
            None => "/var/lib/caiman/restore/"@ + vm_id@,
        }),
{
    match target_path {
        Some(p) => p.to_owned(),
        None => {
            let mut v = str_chars("/var/lib/caiman/restore/");
            extend_str(&mut v, vm_id);
            string_from_chars(v.as_slice())
        },
    }
}

/// The arguments of a Restic restore of snapshot `restic_id`.
pub fn restore_args(restic_id: &str, restore_path: &str) -> (r: Vec<String>)
    ensures
        string_views(r@) == seq!["restore"@, restic_id@, "--target="@ + restore_path@],
{
    let mut a: Vec<String> = Vec::new();
    push_str(&mut a, "restore");
    push_str(&mut a, restic_id);
    let mut v = str_chars("--target=");
    extend_str(&mut v, restore_path);
    let s = string_from_chars(v.as_slice());
    push_str(&mut a, s.as_str());
    assert(string_views(a@) =~= seq!["restore"@, restic_id@, "--target="@ + restore_path@]);
    a
}

/// The fields of one line of Restic's JSON output that a backup reads.
pub struct ResticLine {
    pub message_type: Option<String>,
    pub snapshot_id: Option<String>,
    pub data_added: Option<u64>,
    pub total_bytes_processed: Option<u64>,
}

/// The fields of a line of Restic's JSON output, as plain values.
pub open spec fn line_fields(l: ResticLine) -> (
    Option<Seq<char>>,
    Option<Seq<char>>,
    Option<u64>,
    Option<u64>,
) {
    (opt_view(l.message_type), opt_view(l.snapshot_id), l.data_added, l.total_bytes_processed)
}

/// What `serde_json` reads from one line of text: `None` when the line is
/// not JSON; else each field, present when it has the expected JSON type.
pub uninterp spec fn json_line_fields(line: Seq<char>) -> Option<
    (Option<Seq<char>>, Option<Seq<char>>, Option<u64>, Option<u64>),
>;

/// Parses a line with `serde_json::from_str` into a `serde_json::Value`
/// and reads `message_type` and `snapshot_id` with `as_str`, and
/// `data_added` and `total_bytes_processed` with `as_u64`. The result is
/// a function of the line alone; which lines parse is not stated.
#[verifier::external_body]
fn read_restic_line(line: &str) -> (r: Option<ResticLine>)
    ensures
        json_line_fields(line@) == (match r {
            Some(l) => Some(line_fields(l)),
            None => None,
        }),
{
    match serde_json::from_str::<serde_json::Value>(line) {
        Ok(v) => Some(
            ResticLine {
                message_type: v["message_type"].as_str().map(String::from),
                snapshot_id: v["snapshot_id"].as_str().map(String::from),
                data_added: v["data_added"].as_u64(),
                total_bytes_processed: v["total_bytes_processed"].as_u64(),
            },
        ),
        Err(_) => None,
    }
}

/// Whether parsed fields are those of Restic's summary line.
pub open spec fn is_summary(f: (Option<Seq<char>>, Option<Seq<char>>, Option<u64>, Option<u64>)) -> bool {
    f.0 == Some("summary"@)
}

/// The summary among the lines `ls`: the last one that parses as JSON with
/// `message_type` "summary".
pub open spec fn last_summary(ls: Seq<Seq<char>>) -> Option<
    (Option<Seq<char>>, Option<Seq<char>>, Option<u64>, Option<u64>),
>
    decreases ls.len(),
{
    if ls.len() == 0 {
        None
    } else {
        match json_line_fields(ls.last()) {
            Some(f) => if is_summary(f) {
                Some(f)
            } else {
                last_summary(ls.drop_last())
            },
            None => last_summary(ls.drop_last()),
        }
    }
}

/// The figures of a backup: the Restic snapshot ID, the MiB added, the
/// MiB processed, and the MiB that deduplication saved.
pub open spec fn spec_summary_figures(
    f: (Option<Seq<char>>, Option<Seq<char>>, Option<u64>, Option<u64>),
) -> (Seq<char>, u64, u64, u64) {
    let id = match f.1 {
        Some(s) => s,
        None => Seq::empty(),
    };
    let size = (match f.2 {
        Some(n) => n,
        None => 0u64,
    }) / 1048576u64;
    let raw = (match f.3 {
        Some(n) => n,
        None => 0u64,
    }) / 1048576u64;
    let dedup = if raw >= size {
        (raw - size) as u64
    } else {
        0u64
    };
    (id, size as u64, raw as u64, dedup)
}

/// The figures of a backup from the fields of Restic's summary line:
/// missing fields count as empty or zero; sizes are in whole MiB.
pub fn summary_figures(l: &ResticLine) -> (r: (String, u64, u64, u64))
    ensures
        (r.0@, r.1, r.2, r.3) == spec_summary_figures(line_fields(*l)),
{
    let id = match &l.snapshot_id {
        Some(s) => s.clone(),
        None => String::new(),
    };
    let size = match l.data_added {
        Some(n) => n,
        None => 0,
    } / (1024 * 1024);
    let raw = match l.total_bytes_processed {
        Some(n) => n,
        None => 0,
    } / (1024 * 1024);
    let dedup = raw.saturating_sub(size);
    (id, size, raw, dedup)
}

/// The figures of a backup from Restic's JSON output; `unknown` and zeros
/// when no line is a summary.
pub fn parse_restic_output(output: &str) -> (r: (String, u64, u64, u64))
    ensures
        match last_summary(lines(output@)) {
            Some(f) => (r.0@, r.1, r.2, r.3) == spec_summary_figures(f),
            None => r.0@ == "unknown"@ && r.1 == 0 && r.2 == 0 && r.3 == 0,
        },
{
    let ls = split_lines(str_chars(output).as_slice());
    let ghost all = char_views(ls@);
    let mut i: usize = ls.len();
    assert(all.subrange(0, i as int) =~= all);
    while i > 0
        invariant
            i <= ls@.len(),
            all == char_views(ls@),
            all == lines(output@),
            last_summary(all.subrange(0, i as int)) == last_summary(all),
        decreases i,
    {
        let ghost pre = all.subrange(0, i as int);
        assert(pre.last() == ls@[i - 1]@);
        assert(pre.drop_last() =~= all.subrange(0, i - 1));
        let line = string_from_chars(ls[i - 1].as_slice());
        match read_restic_line(line.as_str()) {
            Some(l) => {
                let is_sum = match &l.message_type {
                    Some(m) => crate::text::str_eq(m.as_str(), "summary"),
                    None => false,
                };
                if is_sum {
                    return summary_figures(&l);
                }
            },
            None => {},
        }
        i = i - 1;
    }
    ("unknown".to_owned(), 0, 0, 0)
}

/// `s` split at its first `c`, or all of `s` and `default` without one.
pub open spec fn split_once_or(s: Seq<char>, c: char, default: Seq<char>) -> (Seq<char>, Seq<char>) {
    let i = index_of_char(s, c);
    if i == s.len() {
        (s, default)
    } else {
        (s.subrange(0, i), s.subrange(i + 1, s.len() as int))
    }
}

fn split_once_or_exec(s: &[char], c: char, default: &str) -> (r: (String, String))
    ensures
        (r.0@, r.1@) == split_once_or(s@, c, default@),
{
    let i = find_char(s, c);
    if i == s.len() {
        (string_from_chars(s), default.to_owned())
    } else {
        let a = slice_chars(s, 0, i);
        let b = slice_chars(s, i + 1, s.len());
        (string_from_chars(a.as_slice()), string_from_chars(b.as_slice()))
    }
}

/// The repository that the command-line form of a target leads to.
pub open spec fn spec_target_text_repo(s: Seq<char>) -> Seq<char> {
    if has_prefix(s, "s3://"@) {
        let (bucket, prefix) = split_once_or(strip_all_prefix(s, "s3://"@), '/', "caiman"@);
        "s3:"@ + "s3.amazonaws.com"@ + "/"@ + bucket + "/"@ + prefix
    } else if has_prefix(s, "nfs://"@) {
        let (server, _) = split_once_or(strip_all_prefix(s, "nfs://"@), ':', "/backup"@);
        "/mnt/caiman-backup/"@ + server
    } else {
        s
    }
}

/// Reads a target written on the command line: `s3://BUCKET/PREFIX`
/// (prefix `caiman` when absent, default endpoint), `nfs://SERVER:EXPORT`
/// (export `/backup` when absent, mounted under
/// `/mnt/caiman-backup/SERVER`), or else a local path. Every leading
/// repetition of the scheme is dropped. The repository of the result is
/// `spec_target_text_repo` of the text.
pub fn parse_target_string(s: &str) -> (r: BackupTarget)
    ensures
        has_prefix(s@, "s3://"@) ==> (r matches BackupTarget::S3 { bucket, prefix, endpoint }
            && endpoint is None && (bucket@, prefix@) == split_once_or(
            strip_all_prefix(s@, "s3://"@),
            '/',
            "caiman"@,
        )),
        !has_prefix(s@, "s3://"@) && has_prefix(s@, "nfs://"@) ==> (r matches BackupTarget::Nfs {
            server,
            export,
            mount_path,
        } && (server@, export@) == split_once_or(strip_all_prefix(s@, "nfs://"@), ':', "/backup"@)
            && mount_path@ == "/mnt/caiman-backup/"@ + server@),
        !has_prefix(s@, "s3://"@) && !has_prefix(s@, "nfs://"@) ==> (r matches BackupTarget::Local {
            path,
        } && path@ == s@),
        spec_repo_path(r) == spec_target_text_repo(s@),
{
    let c = str_chars(s);
    let s3 = str_chars("s3://");
    let nfs = str_chars("nfs://");
    if starts_with(c.as_slice(), s3.as_slice()) {
        let rest = trim_start_matches(c.as_slice(), s3.as_slice());
        let (bucket, prefix) = split_once_or_exec(rest.as_slice(), '/', "caiman");
        BackupTarget::S3 { bucket, prefix, endpoint: None }
    } else if starts_with(c.as_slice(), nfs.as_slice()) {
        let rest = trim_start_matches(c.as_slice(), nfs.as_slice());
        let (server, export) = split_once_or_exec(rest.as_slice(), ':', "/backup");
        let mut m = str_chars("/mnt/caiman-backup/");
        extend_str(&mut m, server.as_str());
        let mount_path = string_from_chars(m.as_slice());
        BackupTarget::Nfs { server, export, mount_path }
    } else {
        BackupTarget::Local { path: s.to_owned() }
    }
}

} // verus!
