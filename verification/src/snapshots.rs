//! Copy-on-write snapshot chains: each snapshot is a qcow2 overlay whose
//! backing file is its parent. This module decides where overlays go, how
//! they are created, what a new snapshot's parent and depth are, how a
//! chain is rebuilt from the catalog, and which snapshots a delete must
//! merge into. Running `qemu-img` and the catalog's database are the
//! caller's.
use vstd::prelude::*;
use crate::ids::is_lower_hex;
use crate::text::{extend_str, push_str, str_chars, string_from_chars, string_views, strip_all_prefix, trim_start_matches, extend_chars};

verus! {

/// How the VM was treated while its snapshot was taken.
#[derive(PartialEq, Eq, Structural, Clone, Copy, Debug)]
pub enum SnapshotConsistency {
    /// Paused during the snapshot (best).
    Quiesced,
    /// Taken while running.
    CrashConsistent,
    /// The VM was stopped.
    Offline,
}

/// The consistency a snapshot request names: `quiesced`, `offline`, and
/// crash-consistent for anything else or nothing.
pub fn parse_consistency(s: Option<&str>) -> (r: SnapshotConsistency)
    ensures
        r == (match s {
            Some(t) => if t@ == "quiesced"@ {
                SnapshotConsistency::Quiesced
            } else if t@ == "offline"@ {
                SnapshotConsistency::Offline
            } else {
                SnapshotConsistency::CrashConsistent
            },
            None => SnapshotConsistency::CrashConsistent,
        }),
{
    match s {
        Some(t) => if crate::text::str_eq(t, "quiesced") {
            SnapshotConsistency::Quiesced
        } else if crate::text::str_eq(t, "offline") {
            SnapshotConsistency::Offline
        } else {
            SnapshotConsistency::CrashConsistent
        },
        None => SnapshotConsistency::CrashConsistent,
    }
}

/// Whether the VM is paused around the overlay's creation.
pub fn needs_quiesce(c: SnapshotConsistency) -> (r: bool)
    ensures
        r == (c == SnapshotConsistency::Quiesced),
{
    match c {
        SnapshotConsistency::Quiesced => true,
        _ => false,
    }
}

/// A snapshot as the catalog records it.
pub struct SnapshotRecord {
    pub id: String,
    pub vm_id: String,
    pub name: String,
    pub image_path: String,
    /// None: the snapshot's backing file is the VM's base image.
    pub parent_id: Option<String>,
    /// 0 for a snapshot of the base image, N for the Nth delta.
    pub depth: u32,
    pub sealed: bool,
    pub consistency: SnapshotConsistency,
    pub disk_mib: u64,
    pub actual_mib: u64,
    pub checksum: String,
}

/// `base` joined with `p` as `PathBuf::join` does on Unix: an absolute `p`
/// replaces `base`; a separator is put between them unless `base` is
/// empty or already ends in one.
pub open spec fn path_join(base: Seq<char>, p: Seq<char>) -> Seq<char> {
    if p.len() > 0 && p[0] == '/' {
        p
    } else if base.len() > 0 && base.last() != '/' {
        base + seq!['/'] + p
    } else {
        base + p
    }
}

/// `base` joined with `p`.
pub fn join_paths(base: &str, p: &str) -> (r: String)
    ensures
        r@ == path_join(base@, p@),
{
    let b = str_chars(base);
    let q = str_chars(p);
    if q.len() > 0 && q[0] == '/' {
        return p.to_owned();
    }
    let mut v = b;
    if v.len() > 0 && v[v.len() - 1] != '/' {
        v.push('/');
    }
    extend_chars(&mut v, q.as_slice());
    assert(v@ =~= path_join(base@, p@));
    string_from_chars(v.as_slice())
}

/// The disk image of a VM under the state directory: `NUM.img` joined to
/// it, `NUM` being the ID without its leading `vm-` prefixes.
pub open spec fn spec_snapshot_disk(state_dir: Seq<char>, vm_id: Seq<char>) -> Seq<char> {
    path_join(state_dir, strip_all_prefix(vm_id, "vm-"@) + ".img"@)
}

/// The disk image of a VM, where snapshots of it start.
pub fn vm_disk_path(state_dir: &str, vm_id: &str) -> (r: String)
    ensures
        r@ == spec_snapshot_disk(state_dir@, vm_id@),
{
    let id = str_chars(vm_id);
    let p = str_chars("vm-");
    let mut num = trim_start_matches(id.as_slice(), p.as_slice());
    extend_str(&mut num, ".img");
    let name = string_from_chars(num.as_slice());
    join_paths(state_dir, name.as_str())
}

/// The overlay file of a snapshot: `SNAP_ID.qcow2` in the VM's directory
/// under the snapshot directory.
pub open spec fn spec_overlay_path(base_dir: Seq<char>, vm_id: Seq<char>, snap_id: Seq<char>) -> Seq<
    char,
> {
    path_join(path_join(base_dir, vm_id), snap_id + ".qcow2"@)
}

/// The overlay file of a snapshot.
pub fn overlay_path(base_dir: &str, vm_id: &str, snap_id: &str) -> (r: String)
    ensures
        r@ == spec_overlay_path(base_dir@, vm_id@, snap_id@),
{
    let dir = join_paths(base_dir, vm_id);
    let mut f = str_chars(snap_id);
    extend_str(&mut f, ".qcow2");
    let file = string_from_chars(f.as_slice());
    join_paths(dir.as_str(), file.as_str())
}

/// The `qemu-img` arguments that create an empty qcow2 overlay of
/// `backing` at `overlay`.
pub fn overlay_create_args(backing: &str, overlay: &str) -> (r: Vec<String>)
    ensures
        string_views(r@) == seq![
            "create"@,
            "-f"@,
            "qcow2"@,
            "-b"@,
            backing@,
            "-F"@,
            "qcow2"@,
            overlay@,
        ],
{
    let mut a: Vec<String> = Vec::new();
    push_str(&mut a, "create");
    push_str(&mut a, "-f");
    push_str(&mut a, "qcow2");
    push_str(&mut a, "-b");
    push_str(&mut a, backing);
    push_str(&mut a, "-F");
    push_str(&mut a, "qcow2");
    push_str(&mut a, overlay);
    a
}

/// The `qemu-img` arguments that merge an overlay into its backing file.
pub fn commit_args(image_path: &str) -> (r: Vec<String>)
    ensures
        string_views(r@) == seq!["commit"@, image_path@],
{
    let mut a: Vec<String> = Vec::new();
    push_str(&mut a, "commit");
    push_str(&mut a, image_path);
    a
}

/// A copy of a snapshot record.
pub fn copy_record(s: &SnapshotRecord) -> (r: SnapshotRecord)
    ensures
        r == *s,
{
    SnapshotRecord {
        id: s.id.clone(),
        vm_id: s.vm_id.clone(),
        name: s.name.clone(),
        image_path: s.image_path.clone(),
        parent_id: match &s.parent_id {
            Some(p) => Some(p.clone()),
            None => None,
        },
        depth: s.depth,
        sealed: s.sealed,
        consistency: s.consistency,
        disk_mib: s.disk_mib,
        actual_mib: s.actual_mib,
        checksum: s.checksum.clone(),
    }
}

/// The newest snapshot of a VM that is not sealed, in a catalog listed in
/// creation order: the last such entry.
pub open spec fn spec_latest_unsealed(cat: Seq<SnapshotRecord>, vm_id: Seq<char>) -> Option<int>
    decreases cat.len(),
{
    if cat.len() == 0 {
        None
    } else if cat.last().vm_id@ == vm_id && !cat.last().sealed {
        Some(cat.len() - 1)
    } else {
        spec_latest_unsealed(cat.drop_last(), vm_id)
    }
}

/// A snapshot just added to the catalog, unsealed, is the one the VM's
/// next snapshot builds on.
pub proof fn lemma_new_snapshot_is_latest(cat: Seq<SnapshotRecord>, new: SnapshotRecord)
    requires
        !new.sealed,
    ensures
        spec_latest_unsealed(cat.push(new), new.vm_id@) == Some(cat.len() as int),
{
    assert(cat.push(new).last() == new);
}

/// The index of the snapshot a new snapshot of `vm_id` builds on.
pub fn latest_unsealed(cat: &[SnapshotRecord], vm_id: &str) -> (r: Option<usize>)
    ensures
        r matches Some(i) ==> spec_latest_unsealed(cat@, vm_id@) == Some(i as int),
        r is None ==> spec_latest_unsealed(cat@, vm_id@) is None,
{
    let mut i: usize = cat.len();
    assert(cat@.subrange(0, i as int) =~= cat@);
    while i > 0
        invariant
            i <= cat@.len(),
            spec_latest_unsealed(cat@.subrange(0, i as int), vm_id@) == spec_latest_unsealed(
                cat@,
                vm_id@,
            ),
        decreases i,
    {
        let ghost pre = cat@.subrange(0, i as int);
        assert(pre.last() == cat@[i - 1]);
        assert(pre.drop_last() =~= cat@.subrange(0, i - 1));
        if crate::text::str_eq(cat[i - 1].vm_id.as_str(), vm_id) && !cat[i - 1].sealed {
            return Some(i - 1);
        }
        i = i - 1;
    }
    None
}

/// Where a new snapshot hangs: its parent's ID (none on the base image),
/// the backing file of its overlay, and its depth.
pub struct SnapshotParent {
    pub parent_id: Option<String>,
    pub backing: String,
    pub depth: u32,
}

/// A new snapshot builds on the latest unsealed one (one level deeper, on
/// its overlay), or on the VM's base image at depth 0.
pub fn snapshot_parent(parent: Option<&SnapshotRecord>, base_image: &str) -> (r: SnapshotParent)
    requires
        parent matches Some(p) ==> p.depth < u32::MAX,
    ensures
        match parent {
            Some(p) => r.parent_id == Some(p.id) && r.backing@ == p.image_path@ && r.depth
                == p.depth + 1,
            None => r.parent_id is None && r.backing@ == base_image@ && r.depth == 0,
        },
{
    match parent {
        Some(p) => SnapshotParent {
            parent_id: Some(p.id.clone()),
            backing: p.image_path.clone(),
            depth: p.depth + 1,
        },
        None => SnapshotParent { parent_id: None, backing: base_image.to_owned(), depth: 0 },
    }
}

/// The first catalog entry with ID `id`.
pub open spec fn lookup(cat: Seq<SnapshotRecord>, id: Seq<char>) -> Option<SnapshotRecord>
    decreases cat.len(),
{
    if cat.len() == 0 {
        None
    } else if cat[0].id@ == id {
        Some(cat[0])
    } else {
        lookup(cat.drop_first(), id)
    }
}

/// Whether the link `parent` names the snapshot `id`.
pub open spec fn links_to(parent: Option<String>, id: Seq<char>) -> bool {
    match parent {
        Some(p) => p@ == id,
        None => false,
    }
}

/// Parents are shallower than their children: what every snapshot made
/// by `snapshot_parent` satisfies, and what keeps chains finite.
pub open spec fn depths_ok(cat: Seq<SnapshotRecord>) -> bool {
    forall|i: int, j: int|
        0 <= i < cat.len() && 0 <= j < cat.len() && links_to(
            #[trigger] cat[i].parent_id,
            (#[trigger] cat[j].id)@,
        ) ==> cat[j].depth < cat[i].depth
}

fn links_exec(parent: &Option<String>, id: &String) -> (r: bool)
    ensures
        r == links_to(*parent, id@),
{
    match parent {
        Some(p) => crate::text::str_eq(p.as_str(), id.as_str()),
        None => false,
    }
}

/// Whether every parent in a catalog is shallower than its children (the
/// condition under which chains can be rebuilt).
pub fn depths_consistent(cat: &[SnapshotRecord]) -> (r: bool)
    ensures
        r == depths_ok(cat@),
{
    let n = cat.len();
    let mut i: usize = 0;
    while i < n
        invariant
            i <= n,
            n == cat@.len(),
            forall|a: int, b: int|
                0 <= a < i && 0 <= b < n && links_to(#[trigger] cat@[a].parent_id, (#[trigger] cat@[b].id)@)
                    ==> cat@[b].depth < cat@[a].depth,
        decreases n - i,
    {
        let mut j: usize = 0;
        while j < n
            invariant
                i < n,
                j <= n,
                n == cat@.len(),
                forall|a: int, b: int|
                    0 <= a < i && 0 <= b < n && links_to(#[trigger] cat@[a].parent_id, (#[trigger] cat@[b].id)@)
                        ==> cat@[b].depth < cat@[a].depth,
                forall|b: int|
                    0 <= b < j && links_to(cat@[i as int].parent_id, (#[trigger] cat@[b].id)@)
                        ==> cat@[b].depth < cat@[i as int].depth,
            decreases n - j,
        {
            if links_exec(&cat[i].parent_id, &cat[j].id) && !(cat[j].depth < cat[i].depth) {
                return false;
            }
            j = j + 1;
        }
        i = i + 1;
    }
    true
}

/// No two catalog entries share an ID.
pub open spec fn unique_ids(cat: Seq<SnapshotRecord>) -> bool {
    forall|i: int, j: int|
        0 <= i < cat.len() && 0 <= j < cat.len() && i != j ==> (#[trigger] cat[i].id)@ != (
        #[trigger] cat[j].id)@
}

/// Adding a snapshot made on top of a catalog entry (one level deeper than
/// it, under a fresh ID that nothing links to) keeps parents shallower
/// than their children, so every chain stays finite.
pub proof fn lemma_new_snapshot_keeps_depths(cat: Seq<SnapshotRecord>, new: SnapshotRecord)
    requires
        depths_ok(cat),
        unique_ids(cat),
        forall|i: int|
            0 <= i < cat.len() ==> (#[trigger] cat[i].id)@ != new.id@ && !links_to(
                cat[i].parent_id,
                new.id@,
            ),
        !links_to(new.parent_id, new.id@),
        new.parent_id matches Some(p) ==> exists|k: int|
            0 <= k < cat.len() && (#[trigger] cat[k].id)@ == p@ && new.depth == cat[k].depth + 1,
    ensures
        depths_ok(cat.push(new)),
{
    let c2 = cat.push(new);
    assert forall|i: int, j: int|
        0 <= i < c2.len() && 0 <= j < c2.len() && links_to(
            #[trigger] c2[i].parent_id,
            (#[trigger] c2[j].id)@,
        ) implies c2[j].depth < c2[i].depth by {
        if i < cat.len() && j < cat.len() {
            assert(c2[i] == cat[i] && c2[j] == cat[j]);
            assert(links_to(cat[i].parent_id, cat[j].id@));
        } else if i < cat.len() {
            assert(c2[i] == cat[i]);
            assert(c2[j] == new);
            assert(cat[i].id@ != new.id@);
            assert(!links_to(cat[i].parent_id, new.id@));
        } else if j < cat.len() {
            assert(c2[j] == cat[j]);
            let p = new.parent_id->0;
            let k = choose|k: int|
                0 <= k < cat.len() && (#[trigger] cat[k].id)@ == p@ && new.depth == cat[k].depth + 1;
            if k != j {
                assert(cat[k].id@ != cat[j].id@);
            }
        }
    }
}

/// The ancestors reached from the link `parent`, oldest first, below
/// depth `d`; `None` when a link leads to no entry.
pub open spec fn ancestors(cat: Seq<SnapshotRecord>, parent: Option<String>, d: nat) -> Option<
    Seq<SnapshotRecord>,
>
    decreases d,
{
    match parent {
        None => Some(Seq::empty()),
        Some(id) => match lookup(cat, id@) {
            None => None,
            Some(q) => if q.depth < d {
                match ancestors(cat, q.parent_id, q.depth as nat) {
                    Some(c) => Some(c.push(q)),
                    None => None,
                }
            } else {
                None
            },
        },
    }
}

/// Why a chain could not be rebuilt.
pub enum ChainError {
    /// An ancestor is missing from the catalog.
    NotFound(String),
}

fn find_record(cat: &[SnapshotRecord], id: &str) -> (r: Option<usize>)
    ensures
        match r {
            Some(i) => i < cat@.len() && lookup(cat@, id@) == Some(cat@[i as int]),
            None => lookup(cat@, id@) is None,
        },
{
    let n = cat.len();
    let mut i: usize = 0;
    assert(cat@.subrange(0, n as int) =~= cat@);
    while i < n
        invariant
            i <= n,
            n == cat@.len(),
            lookup(cat@.subrange(i as int, n as int), id@) == lookup(cat@, id@),
        decreases n - i,
    {
        let ghost rest = cat@.subrange(i as int, n as int);
        assert(rest[0] == cat@[i as int]);
        if crate::text::str_eq(cat[i].id.as_str(), id) {
            return Some(i);
        }
        assert(rest.drop_first() =~= cat@.subrange(i + 1, n as int));
        i = i + 1;
    }
    None
}

proof fn lemma_lookup_in(cat: Seq<SnapshotRecord>, id: Seq<char>)
    ensures
        lookup(cat, id) matches Some(q) ==> q.id@ == id && exists|j: int|
            0 <= j < cat.len() && cat[j] == q,
    decreases cat.len(),
{
    if cat.len() > 0 && cat[0].id@ != id {
        lemma_lookup_in(cat.drop_first(), id);
        if let Some(q) = lookup(cat, id) {
            let j = choose|j: int| 0 <= j < cat.drop_first().len() && cat.drop_first()[j] == q;
            assert(cat[j + 1] == q);
        }
    }
}

/// The chain of a snapshot, oldest first and ending with it: its
/// ancestors through the parent links, looked up in the catalog.
pub fn build_chain(snap: &SnapshotRecord, cat: &[SnapshotRecord]) -> (r: Result<
    Vec<SnapshotRecord>,
    ChainError,
>)
    requires
        depths_ok(cat@.push(*snap)),
    ensures
        match ancestors(cat@, snap.parent_id, snap.depth as nat) {
            Some(c) => r matches Ok(chain) && chain@ == c.push(*snap),
            None => r is Err,
        },
{
    let mut rev: Vec<SnapshotRecord> = Vec::new();
    rev.push(copy_record(snap));
    let mut current: Option<String> = match &snap.parent_id {
        Some(p) => Some(p.clone()),
        None => None,
    };
    let mut d: u32 = snap.depth;
    let ghost whole = ancestors(cat@, snap.parent_id, snap.depth as nat);
    proof {
        assert forall|j: int|
            0 <= j < cat@.len() && links_to(current, (#[trigger] cat@[j]).id@) implies cat@[j].depth
            < d by {
            let cp = cat@.push(*snap);
            assert(cp[cat@.len() as int] == *snap);
            assert(cp[j] == cat@[j]);
        }
        assert(rev@.reverse() =~= seq![*snap]);
        assert(rev@.reverse().drop_last() =~= Seq::<SnapshotRecord>::empty());
        assert(whole == match ancestors(cat@, current, d as nat) {
            Some(c) => Some(c + rev@.reverse().drop_last()),
            None => None,
        }) by {
            if let Some(c) = ancestors(cat@, current, d as nat) {
                assert(c + Seq::<SnapshotRecord>::empty() =~= c);
            }
        }
    }
    loop
        invariant
            depths_ok(cat@.push(*snap)),
            whole == ancestors(cat@, snap.parent_id, snap.depth as nat),
            rev@.len() >= 1,
            // what is still to be found, followed by what was found, is the chain
            whole == (match ancestors(cat@, current, d as nat) {
                Some(c) => Some(c + rev@.reverse().drop_last()),
                None => None,
            }),
            rev@.reverse().last() == *snap,
            forall|j: int|
                0 <= j < cat@.len() && links_to(current, (#[trigger] cat@[j]).id@) ==> cat@[j].depth < d,
        ensures
            current is None,
            whole == Some(rev@.reverse().drop_last()),
            rev@.reverse().last() == *snap,
        decreases d,
    {
        match current {
            None => {
                assert(rev@.reverse().drop_last() =~= Seq::<SnapshotRecord>::empty() + rev@.reverse().drop_last());
                break;
            },
            Some(pid) => {
                assert(current == Some(pid));
                match find_record(cat, pid.as_str()) {
                    None => {
                        assert(ancestors(cat@, Some(pid), d as nat) is None);
                        return Err(ChainError::NotFound(pid));
                    },
                    Some(i) => {
                        proof {
                            lemma_lookup_in(cat@, pid@);
                        }
                        let q = copy_record(&cat[i]);
                        let qd = q.depth;
                        assert(links_to(Some(pid), cat@[i as int].id@));
                        assert(qd < d);
                        let ghost old_rest = rev@.reverse().drop_last();
                        let next = match &q.parent_id {
                            Some(p) => Some(p.clone()),
                            None => None,
                        };
                        proof {
                            assert forall|j: int|
                                0 <= j < cat@.len() && links_to(next, (#[trigger] cat@[j]).id@) implies cat@[j].depth < qd by {
                                let cp = cat@.push(*snap);
                                assert(cp[i as int] == cat@[i as int]);
                                assert(cp[j] == cat@[j]);
                            }
                        }
                        let ghost before = rev@;
                        rev.push(q);
                        proof {
                            assert(rev@.reverse() =~= seq![cat@[i as int]] + before.reverse());
                            assert(rev@.reverse().drop_last() =~= seq![cat@[i as int]]
                                + before.reverse().drop_last());
                        }
                        proof {
                            assert(next == q.parent_id);
                            assert(ancestors(cat@, Some(pid), d as nat) == match ancestors(
                                cat@,
                                q.parent_id,
                                qd as nat,
                            ) {
                                Some(c) => Some(c.push(q)),
                                None => None,
                            });
                            if let Some(c) = ancestors(cat@, q.parent_id, qd as nat) {
                                assert(c.push(q) + old_rest =~= c + rev@.reverse().drop_last());
                            }
                        }
                        current = next;
                        d = qd;
                    },
                }
            },
        }
    }
    let mut chain: Vec<SnapshotRecord> = Vec::new();
    let n = rev.len();
    let mut k: usize = n;
    while k > 0
        invariant
            k <= n,
            n == rev@.len(),
            chain@ == rev@.subrange(k as int, n as int).reverse(),
        decreases k,
    {
        let ghost before = chain@;
        let item = copy_record(&rev[k - 1]);
        chain.push(item);
        k = k - 1;
        assert(chain@ =~= rev@.subrange(k as int, n as int).reverse());
    }
    proof {
        assert(rev@.subrange(0, n as int) =~= rev@);
        assert(rev@.reverse() =~= rev@.reverse().drop_last().push(*snap));
    }
    Ok(chain)
}

/// Why a delete was refused.
pub enum DeleteError {
    /// Sealed snapshots are kept; unseal first.
    Sealed(String),
}

impl DeleteError {
    /// The text of the refusal.
    pub open spec fn spec_message(&self) -> Seq<char> {
        match self {
            DeleteError::Sealed(id) => "Cannot delete sealed snapshot "@ + id@ + " — unseal first"@,
        }
    }

    /// The text of the refusal: `Cannot delete sealed snapshot <id> —
    /// unseal first`.
    pub fn message(&self) -> (r: String)
        ensures
            r@ == self.spec_message(),
    {
        match self {
            DeleteError::Sealed(id) => {
                let mut v: Vec<char> = Vec::new();
                extend_str(&mut v, "Cannot delete sealed snapshot ");
                extend_str(&mut v, id.as_str());
                extend_str(&mut v, " — unseal first");
                string_from_chars(v.as_slice())
            },
        }
    }
}

/// A sealed snapshot cannot be deleted.
pub fn check_delete(snap: &SnapshotRecord) -> (r: Result<(), DeleteError>)
    ensures
        snap.sealed ==> (r matches Err(DeleteError::Sealed(id)) && id@ == snap.id@),
        !snap.sealed ==> r is Ok,
{
    if snap.sealed {
        Err(DeleteError::Sealed(snap.id.clone()))
    } else {
        Ok(())
    }
}

/// The positions of the snapshots whose parent is `parent_id`, in order:
/// the overlays that a delete merges the snapshot's delta into.
pub fn children(cat: &[SnapshotRecord], parent_id: &str) -> (r: Vec<usize>)
    ensures
        forall|k: int| 0 <= k < r@.len() ==> (#[trigger] r@[k]) < cat@.len() && links_to(cat@[r@[k] as int].parent_id, parent_id@),
        forall|k: int, l: int| 0 <= k < l < r@.len() ==> r@[k] < r@[l],
        forall|j: int|
            0 <= j < cat@.len() && links_to(#[trigger] cat@[j].parent_id, parent_id@) ==> r@.contains(j as usize),
{
    let mut r: Vec<usize> = Vec::new();
    let n = cat.len();
    let mut i: usize = 0;
    while i < n
        invariant
            i <= n,
            n == cat@.len(),
            forall|k: int| 0 <= k < r@.len() ==> (#[trigger] r@[k]) < i && links_to(cat@[r@[k] as int].parent_id, parent_id@),
            forall|k: int, l: int| 0 <= k < l < r@.len() ==> r@[k] < r@[l],
            forall|j: int|
                0 <= j < i && links_to(#[trigger] cat@[j].parent_id, parent_id@) ==> r@.contains(j as usize),
        decreases n - i,
    {
        let is_child = match &cat[i].parent_id {
            Some(p) => crate::text::str_eq(p.as_str(), parent_id),
            None => false,
        };
        if is_child {
            let ghost before = r@;
            r.push(i);
            proof {
                assert forall|j: int|
                    0 <= j < i + 1 && links_to(#[trigger] cat@[j].parent_id, parent_id@) implies r@.contains(j as usize) by {
                    if j < i {
                        let k = choose|k: int| 0 <= k < before.len() && before[k] == j as usize;
                        assert(r@[k] == j as usize);
                    } else {
                        assert(r@[before.len() as int] == j as usize);
                    }
                }
            }
        }
        i = i + 1;
    }
    r
}

/// The lowercase hex BLAKE3 digest of some bytes.
pub uninterp spec fn blake3_hex_of(data: Seq<u8>) -> Seq<char>;

/// Calls `blake3::hash(data).to_hex()`: the digest is a function of the
/// data alone; the crate documents its hex form as 64 lowercase hex digits.
#[verifier::external_body]
pub(crate) fn blake3_hex(data: &[u8]) -> (r: String)
    ensures
        r@ == blake3_hex_of(data@),
        r@.len() == 64,
        forall|i: int| 0 <= i < 64 ==> is_lower_hex(#[trigger] r@[i]),
{
    blake3::hash(data).to_hex().to_string()
}

/// The checksum recorded for an overlay file's contents.
pub fn overlay_checksum(data: &[u8]) -> (r: String)
    ensures
        r@ == blake3_hex_of(data@),
        r@.len() == 64,
{
    blake3_hex(data)
}

/// What `serde_json` finds under `virtual-size` in some bytes: `None` when
/// they are not JSON; else the field when it is an unsigned integer.
pub uninterp spec fn json_virtual_size(out: Seq<u8>) -> Option<Option<u64>>;

/// Parses `qemu-img info --output=json` output with
/// `serde_json::from_slice` and reads `virtual-size` with `as_u64`. The
/// result is a function of the bytes alone.
#[verifier::external_body]
fn read_virtual_size(out: &[u8]) -> (r: Option<Option<u64>>)
    ensures
        r == json_virtual_size(out@),
{
    match serde_json::from_slice::<serde_json::Value>(out) {
        Ok(v) => Some(v["virtual-size"].as_u64()),
        Err(_) => None,
    }
}

/// The virtual size of an overlay in whole MiB, from `qemu-img info`'s
/// JSON output: `None` when the output is not JSON; 0 when the field is
/// missing.
pub fn virtual_size_mib(out: &[u8]) -> (r: Option<u64>)
    ensures
        match json_virtual_size(out@) {
            None => r is None,
            Some(f) => r == Some(
                (match f {
                    Some(n) => n,
                    None => 0u64,
                }) / 1048576u64,
            ),
        },
{
    size_mib_of(read_virtual_size(out))
}

/// The virtual size in whole MiB from what was read of `qemu-img info`'s
/// output: `None` when it was not JSON; 0 MiB when the field is missing.
pub fn size_mib_of(read: Option<Option<u64>>) -> (r: Option<u64>)
    ensures
        match read {
            None => r is None,
            Some(f) => r == Some(
                (match f {
                    Some(n) => n,
                    None => 0u64,
                }) / 1048576u64,
            ),
        },
{
    match read {
        None => None,
        Some(f) => Some(
            match f {
                Some(n) => n,
                None => 0,
            } / 1048576,
        ),
    }
}

} // verus!
