//! The command line's commands, and the small decisions its handlers make
//! before calling the API: request paths, short IDs, `key=value` labels,
//! and the indentation of a snapshot tree.
use vstd::prelude::*;
use crate::text::{extend_str, find_char, index_of_char, slice_chars, str_chars, string_from_chars};

pub mod bts;
pub mod microseg;

verus! {

/// `caiman microseg`.
pub enum MicrosegCmd {
    /// Manage micro-segmentation policies.
    Policy { action: PolicyAction },
    /// Tail the audit log of denied flows.
    Audit { follow: bool, limit: usize },
    /// Deny statistics.
    Stats,
}

/// `caiman microseg policy`.
pub enum PolicyAction {
    List,
    Get { name: String },
    Apply { file: String },
    Delete { name: String, namespace: Option<String> },
}

/// `caiman node`.
pub enum NodeCmd {
    List,
    Get { node_id: String },
    Drain { node_id: String },
    Uncordon { node_id: String },
    Top,
}

/// `caiman cluster`.
pub enum ClusterCmd {
    Status,
    Summary,
}

/// `caiman storage`.
pub enum StorageCmd {
    Vsan(VsanCmd),
    Vvols(VvolCmd),
}

/// `caiman storage vsan`.
pub enum VsanCmd {
    List,
    Create { name: String, size: u64, ftt: u8 },
    Delete { id: String },
    Snapshot { id: String },
}

/// `caiman storage vvols`.
pub enum VvolCmd {
    List,
}

/// `caiman gpu`.
pub enum GpuCmd {
    List,
    Allocate { vm_id: String, profile: String, mode: String },
    Release { vm_id: String },
}

/// `caiman config`.
pub enum ConfigCmd {
    Show,
    /// Set a key (`caiman config set KEY VALUE`).
    SetKey { key: String, value: String },
    Login { api_url: Option<String> },
    Logout,
    Contexts,
}

/// The API's address when none is configured.
pub open spec fn default_api_url() -> Seq<char> {
    "http://localhost:8765"@
}

/// The configured API address, or the default.
pub fn api_url_or_default(configured: Option<&str>) -> (r: String)
    ensures
        r@ == (match configured {
            Some(u) => u@,
            None => default_api_url(),
        }),
{
    match configured {
        Some(u) => u.to_owned(),
        None => "http://localhost:8765".to_owned(),
    }
}

/// The first `n` characters of `s` (all of it when shorter): how IDs are
/// shortened in listings.
pub fn short_id(s: &str, n: usize) -> (r: String)
    ensures
        r@ == s@.subrange(0, if s@.len() < n { s@.len() as int } else { n as int }),
{
    let c = str_chars(s);
    let k = if c.len() < n {
        c.len()
    } else {
        n
    };
    let t = slice_chars(c.as_slice(), 0, k);
    string_from_chars(t.as_slice())
}

/// A list endpoint, narrowed to one VM when one is given:
/// `PATH?vm_id=VM`.
pub fn list_path(path: &str, vm: Option<&str>) -> (r: String)
    ensures
        r@ == (match vm {
            Some(v) => path@ + "?vm_id="@ + v@,
            None => path@,
        }),
{
    match vm {
        Some(v) => {
            let mut p = str_chars(path);
            extend_str(&mut p, "?vm_id=");
            extend_str(&mut p, v);
            string_from_chars(p.as_slice())
        },
        None => path.to_owned(),
    }
}

/// The labels given as `key=value`: each one with an `=`, split at its
/// first `=`, in order; the others are ignored.
pub open spec fn spec_labels(ls: Seq<Seq<char>>) -> Seq<(Seq<char>, Seq<char>)>
    decreases ls.len(),
{
    if ls.len() == 0 {
        Seq::empty()
    } else {
        let rest = spec_labels(ls.drop_last());
        let l = ls.last();
        let i = index_of_char(l, '=');
        if i < l.len() {
            rest.push((l.subrange(0, i), l.subrange(i + 1, l.len() as int)))
        } else {
            rest
        }
    }
}

/// The views of a list of label pairs.
pub open spec fn pair_views(v: Seq<(String, String)>) -> Seq<(Seq<char>, Seq<char>)> {
    v.map_values(|p: (String, String)| (p.0@, p.1@))
}

/// Reads `key=value` labels.
pub fn parse_labels(labels: &[String]) -> (r: Vec<(String, String)>)
    ensures
        pair_views(r@) == spec_labels(labels@.map_values(|s: String| s@)),
{
    let ghost views = labels@.map_values(|s: String| s@);
    let mut r: Vec<(String, String)> = Vec::new();
    let n = labels.len();
    let mut i: usize = 0;
    while i < n
        invariant
            i <= n,
            n == labels@.len(),
            views == labels@.map_values(|s: String| s@),
            pair_views(r@) == spec_labels(views.subrange(0, i as int)),
        decreases n - i,
    {
        assert(views.subrange(0, i + 1).drop_last() =~= views.subrange(0, i as int));
        assert(views.subrange(0, i + 1).last() == labels@[i as int]@);
        let c = str_chars(labels[i].as_str());
        let j = find_char(c.as_slice(), '=');
        if j < c.len() {
            let k = slice_chars(c.as_slice(), 0, j);
            let v = slice_chars(c.as_slice(), j + 1, c.len());
            let ghost before = r@;
            r.push((string_from_chars(k.as_slice()), string_from_chars(v.as_slice())));
            assert(pair_views(r@) =~= pair_views(before).push((k@, v@)));
        }
        i = i + 1;
    }
    assert(views.subrange(0, n as int) =~= views);
    r
}

/// The indentation of a snapshot at `depth` in a chain tree: two spaces
/// per level, plus one level.
pub fn chain_indent(depth: u64) -> (r: String)
    requires
        depth < u64::MAX,
    ensures
        r@.len() == 2 * (depth + 1),
        forall|i: int| 0 <= i < r@.len() ==> r@[i] == ' ',
{
    let mut v: Vec<char> = Vec::new();
    let mut k: u64 = 0;
    while k <= depth
        invariant
            k <= depth + 1,
            depth < u64::MAX,
            v@.len() == 2 * k,
            forall|i: int| 0 <= i < v@.len() ==> v@[i] == ' ',
        decreases depth + 1 - k,
    {
        v.push(' ');
        v.push(' ');
        k = k + 1;
    }
    string_from_chars(v.as_slice())
}

} // verus!
