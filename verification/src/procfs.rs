//! Reading the kernel's text interfaces for the collectors: `/proc`
//! status, stat and net/dev files, `/sys/block/*/stat`, `/proc/version`,
//! and the names under the state and network directories. Everything here
//! is integer; rates in Mbps and percentages are computed by the caller.
use vstd::prelude::*;
use crate::text::{
    char_views, dec, extend_chars, extend_str, first_with_prefix, has_prefix, lines, parse_u32,
    parse_u64, push_dec, slice_chars, spec_parse_u32, spec_parse_u64, split_lines, split_words,
    starts_with, str_chars, strip_all_prefix, strip_all_suffix, string_from_chars, trim,
    trim_chars, trim_end_char, words,
};

verus! {

/// The numbers among some words, in order (words that are not unsigned
/// 64-bit numbers are skipped).
pub open spec fn numbers_of(ws: Seq<Seq<char>>) -> Seq<u64>
    decreases ws.len(),
{
    if ws.len() == 0 {
        Seq::empty()
    } else {
        let rest = numbers_of(ws.drop_last());
        match spec_parse_u64(ws.last()) {
            Some(n) => rest.push(n),
            None => rest,
        }
    }
}

/// The numbers among the whitespace-separated words of `text`.
pub fn numeric_fields(text: &str) -> (r: Vec<u64>)
    ensures
        r@ == numbers_of(words(text@)),
{
    let ws = split_words(str_chars(text).as_slice());
    let ghost all = char_views(ws@);
    let mut r: Vec<u64> = Vec::new();
    let n = ws.len();
    let mut i: usize = 0;
    while i < n
        invariant
            i <= n,
            n == ws@.len(),
            all == char_views(ws@),
            all == words(text@),
            r@ == numbers_of(all.subrange(0, i as int)),
        decreases n - i,
    {
        assert(all.subrange(0, i + 1).drop_last() =~= all.subrange(0, i as int));
        assert(all.subrange(0, i + 1).last() == ws@[i as int]@);
        match parse_u64(ws[i].as_slice()) {
            Some(v) => r.push(v),
            None => {},
        }
        i = i + 1;
    }
    assert(all.subrange(0, n as int) =~= all);
    r
}

/// The completed reads and writes of a block device from its `stat`
/// file: its first and fifth numbers, when it has at least eight.
pub fn disk_stat_ios(stat: &str) -> (r: Option<(u64, u64)>)
    ensures
        numbers_of(words(stat@)).len() >= 8 ==> r == Some(
            (numbers_of(words(stat@))[0], numbers_of(words(stat@))[4]),
        ),
        numbers_of(words(stat@)).len() < 8 ==> r is None,
{
    let f = numeric_fields(stat);
    if f.len() >= 8 {
        Some((f[0], f[4]))
    } else {
        None
    }
}

/// Whether a block device counts toward the node's I/O (loop and
/// device-mapper devices do not).
pub fn counted_block_device(name: &str) -> (r: bool)
    ensures
        r == !(has_prefix(name@, "loop"@) || has_prefix(name@, "dm-"@)),
{
    let c = str_chars(name);
    let lp = str_chars("loop");
    let dm = str_chars("dm-");
    !(starts_with(c.as_slice(), lp.as_slice()) || starts_with(c.as_slice(), dm.as_slice()))
}

/// The byte counters of one `/proc/net/dev` row: received (second word)
/// and transmitted (tenth), zero where not a number; none for short rows
/// and for the loopback interface.
pub open spec fn net_row(line: Seq<char>) -> Option<(u64, u64)> {
    let w = words(line);
    if w.len() < 10 {
        None
    } else if strip_all_suffix(w[0], ':') == "lo"@ {
        None
    } else {
        Some(
            (
                match spec_parse_u64(w[1]) {
                    Some(n) => n,
                    None => 0u64,
                },
                match spec_parse_u64(w[9]) {
                    Some(n) => n,
                    None => 0u64,
                },
            ),
        )
    }
}


/// The received and transmitted byte totals of the rows of
/// `/proc/net/dev` (its two header lines skipped).
pub open spec fn net_totals(ls: Seq<Seq<char>>) -> (nat, nat)
    decreases ls.len(),
{
    if ls.len() <= 2 {
        (0, 0)
    } else {
        let (rx, tx) = net_totals(ls.drop_last());
        match net_row(ls.last()) {
            Some((r, t)) => (rx + r as nat, tx + t as nat),
            None => (rx, tx),
        }
    }
}

fn net_row_exec(line: &[char]) -> (r: Option<(u64, u64)>)
    ensures
        r == net_row(line@),
{
    let w = split_words(line);
    if w.len() < 10 {
        return None;
    }
    let name = trim_end_char(w[0].as_slice(), ':');
    assert(char_views(w@)[0] == w@[0]@);
    assert(char_views(w@)[1] == w@[1]@);
    assert(char_views(w@)[9] == w@[9]@);
    if crate::text::chars_eq_str(name.as_slice(), "lo") {
        return None;
    }
    let rx = match parse_u64(w[1].as_slice()) {
        Some(n) => n,
        None => 0,
    };
    let tx = match parse_u64(w[9].as_slice()) {
        Some(n) => n,
        None => 0,
    };
    Some((rx, tx))
}

/// The byte totals of all interfaces but loopback in `/proc/net/dev`
/// text (the totals must fit in 64 bits, as the counters they add up).
pub fn net_dev_totals(data: &str) -> (r: (u64, u64))
    requires
        net_totals(lines(data@)).0 <= u64::MAX,
        net_totals(lines(data@)).1 <= u64::MAX,
    ensures
        r.0 == net_totals(lines(data@)).0,
        r.1 == net_totals(lines(data@)).1,
{
    let ls = split_lines(str_chars(data).as_slice());
    let ghost all = char_views(ls@);
    let n = ls.len();
    let mut rx: u64 = 0;
    let mut tx: u64 = 0;
    let mut i: usize = 0;
    while i < n
        invariant
            i <= n,
            n == ls@.len(),
            all == char_views(ls@),
            all == lines(data@),
            net_totals(all).0 <= u64::MAX,
            net_totals(all).1 <= u64::MAX,
            rx == net_totals(all.subrange(0, i as int)).0,
            tx == net_totals(all.subrange(0, i as int)).1,
        decreases n - i,
    {
        let ghost pre = all.subrange(0, i + 1);
        assert(pre.drop_last() =~= all.subrange(0, i as int));
        assert(pre.last() == ls@[i as int]@);
        proof {
            lemma_net_totals_mono(all, i + 1);
        }
        if i >= 2 {
            match net_row_exec(ls[i].as_slice()) {
                Some((r, t)) => {
                    rx = rx + r;
                    tx = tx + t;
                },
                None => {},
            }
        }
        i = i + 1;
    }
    assert(all.subrange(0, n as int) =~= all);
    (rx, tx)
}

/// The byte totals of `/proc/net/dev` text, or none when a total does not
/// fit in 64 bits.
pub fn net_dev_totals_checked(data: &str) -> (r: Option<(u64, u64)>)
    ensures
        match r {
            Some(t) => t.0 == net_totals(lines(data@)).0 && t.1 == net_totals(lines(data@)).1,
            None => net_totals(lines(data@)).0 > u64::MAX || net_totals(lines(data@)).1 > u64::MAX,
        },
{
    let ls = split_lines(str_chars(data).as_slice());
    let ghost all = char_views(ls@);
    let n = ls.len();
    let mut rx: u64 = 0;
    let mut tx: u64 = 0;
    let mut i: usize = 0;
    while i < n
        invariant
            i <= n,
            n == ls@.len(),
            all == char_views(ls@),
            all == lines(data@),
            rx == net_totals(all.subrange(0, i as int)).0,
            tx == net_totals(all.subrange(0, i as int)).1,
        decreases n - i,
    {
        let ghost pre = all.subrange(0, i + 1);
        assert(pre.drop_last() =~= all.subrange(0, i as int));
        assert(pre.last() == ls@[i as int]@);
        proof {
            lemma_net_totals_mono(all, i + 1);
        }
        if i >= 2 {
            match net_row_exec(ls[i].as_slice()) {
                Some((r, t)) => {
                    match (rx.checked_add(r), tx.checked_add(t)) {
                        (Some(a), Some(b)) => {
                            rx = a;
                            tx = b;
                        },
                        _ => {
                            return None;
                        },
                    }
                },
                None => {},
            }
        }
        i = i + 1;
    }
    assert(all.subrange(0, n as int) =~= all);
    Some((rx, tx))
}

proof fn lemma_net_totals_mono(ls: Seq<Seq<char>>, k: int)
    requires
        0 <= k <= ls.len(),
    ensures
        net_totals(ls.subrange(0, k)).0 <= net_totals(ls).0,
        net_totals(ls.subrange(0, k)).1 <= net_totals(ls).1,
    decreases ls.len() - k,
{
    if k < ls.len() {
        lemma_net_totals_mono(ls, k + 1);
        assert(ls.subrange(0, k + 1).drop_last() =~= ls.subrange(0, k));
    } else {
        assert(ls.subrange(0, k) =~= ls);
    }
}

/// The first number on the first line of `/proc/meminfo` text that
/// starts with `key` (in KiB); 0 when there is no such line or number.
pub open spec fn spec_meminfo_kib(text: Seq<char>, key: Seq<char>) -> u64 {
    match first_with_prefix(lines(text), key) {
        Some(l) => {
            let f = numbers_of(words(l));
            if f.len() > 0 {
                f[0]
            } else {
                0
            }
        },
        None => 0,
    }
}

/// Reads a `/proc/meminfo` field such as `MemTotal:` (in KiB).
pub fn meminfo_kib(text: &str, key: &str) -> (r: u64)
    ensures
        r == spec_meminfo_kib(text@, key@),
{
    let ls = split_lines(str_chars(text).as_slice());
    let k = str_chars(key);
    match crate::text::find_with_prefix(&ls, k.as_slice()) {
        Some(i) => {
            let line = string_from_chars(ls[i].as_slice());
            let f = numeric_fields(line.as_str());
            if f.len() > 0 {
                f[0]
            } else {
                0
            }
        },
        None => 0,
    }
}

/// The CPU time (user plus system ticks) in a process's `stat` text: the
/// sum of its whitespace-separated words 13 and 14 (counting from 0:
/// `utime` and `stime`); none when the text has fewer than fifteen words
/// or either of those is not a number.
pub open spec fn cpu_ticks(stat: Seq<char>) -> Option<nat> {
    let w = words(stat);
    if w.len() < 15 {
        None
    } else {
        match (spec_parse_u64(w[13]), spec_parse_u64(w[14])) {
            (Some(u), Some(s)) => Some((u + s) as nat),
            _ => None,
        }
    }
}

/// The `utime` and `stime` words of a `stat` text, parsed.
fn stat_times(stat: &str) -> (r: Option<(u64, u64)>)
    ensures
        ({
            let w = words(stat@);
            if w.len() < 15 {
                r is None
            } else {
                match (spec_parse_u64(w[13]), spec_parse_u64(w[14])) {
                    (Some(u), Some(s)) => r == Some((u, s)),
                    _ => r is None,
                }
            }
        }),
{
    let ws = split_words(str_chars(stat).as_slice());
    assert(char_views(ws@) == words(stat@));
    if ws.len() < 15 {
        return None;
    }
    assert(char_views(ws@)[13] == ws@[13]@);
    assert(char_views(ws@)[14] == ws@[14]@);
    match (parse_u64(ws[13].as_slice()), parse_u64(ws[14].as_slice())) {
        (Some(u), Some(s)) => Some((u, s)),
        _ => None,
    }
}

/// Whether the CPU time in a `stat` text fits in 64 bits (the condition
/// `cpu_ticks_delta` asks of each reading; an unusable reading has none).
pub fn cpu_ticks_fit(stat: &str) -> (r: bool)
    ensures
        r == (cpu_ticks(stat@) matches Some(t) ==> t <= u64::MAX),
{
    match stat_times(stat) {
        Some((u, s)) => u.checked_add(s).is_some(),
        None => true,
    }
}

/// The CPU ticks a process used between two readings of its `stat` file
/// (zero when the count went down); none when either reading is unusable.
pub fn cpu_ticks_delta(stat1: &str, stat2: &str) -> (r: Option<u64>)
    requires
        cpu_ticks(stat1@) matches Some(t) ==> t <= u64::MAX,
        cpu_ticks(stat2@) matches Some(t) ==> t <= u64::MAX,
    ensures
        match (cpu_ticks(stat1@), cpu_ticks(stat2@)) {
            (Some(a), Some(b)) => r == Some((if b >= a { b - a } else { 0 }) as u64),
            _ => r is None,
        },
{
    match (stat_times(stat1), stat_times(stat2)) {
        (Some((u1, s1)), Some((u2, s2))) => {
            let c1 = u1 + s1;
            let c2 = u2 + s2;
            Some(c2.saturating_sub(c1))
        },
        _ => None,
    }
}

/// A process's resident memory in MiB from its `status` text: the first
/// word after the first `VmRSS:` line's label, in KiB (0 when missing or
/// not a number).
pub open spec fn spec_vmrss_mib(status: Seq<char>) -> u64 {
    match first_with_prefix(lines(status), "VmRSS:"@) {
        Some(l) => {
            let w = words(l.subrange(6, l.len() as int));
            if w.len() > 0 {
                match spec_parse_u64(w[0]) {
                    Some(n) => n / 1024,
                    None => 0,
                }
            } else {
                0
            }
        },
        None => 0,
    }
}

/// The resident memory of a process, in MiB.
pub fn vmrss_mib(status: &str) -> (r: u64)
    ensures
        r == spec_vmrss_mib(status@),
{
    let ls = split_lines(str_chars(status).as_slice());
    let key = str_chars("VmRSS:");
    proof {
        reveal_strlit("VmRSS:");
    }
    match crate::text::find_with_prefix(&ls, key.as_slice()) {
        Some(i) => {
            proof {
                crate::text::lemma_first_with_prefix(char_views(ls@), key@);
            }
            let rest = slice_chars(ls[i].as_slice(), 6, ls[i].len());
            let w = split_words(rest.as_slice());
            if w.len() > 0 {
                assert(char_views(w@)[0] == w@[0]@);
                match parse_u64(w[0].as_slice()) {
                    Some(n) => n / 1024,
                    None => 0,
                }
            } else {
                0
            }
        },
        None => 0,
    }
}

/// How long a process has run, in seconds: the system uptime minus its
/// start time (the 22nd word of its `stat`, in ticks of 1/100 s; 0 when
/// not a number), never below zero; 0 for a short `stat`.
pub open spec fn spec_process_uptime(stat: Seq<char>, system_uptime: u64) -> u64 {
    let w = words(stat);
    if w.len() < 22 {
        0
    } else {
        let start = match spec_parse_u64(w[21]) {
            Some(n) => n,
            None => 0u64,
        };
        let s = start / 100;
        if system_uptime >= s {
            (system_uptime - s) as u64
        } else {
            0
        }
    }
}

/// How long a process has run, in seconds.
pub fn process_uptime(stat: &str, system_uptime: u64) -> (r: u64)
    ensures
        r == spec_process_uptime(stat@, system_uptime),
{
    let w = split_words(str_chars(stat).as_slice());
    if w.len() < 22 {
        return 0;
    }
    assert(char_views(w@)[21] == w@[21]@);
    let start = match parse_u64(w[21].as_slice()) {
        Some(n) => n,
        None => 0,
    };
    system_uptime.saturating_sub(start / 100)
}

/// The kernel version in `/proc/version`: its third word, or `unknown`.
pub fn kernel_version(text: &str) -> (r: String)
    ensures
        words(text@).len() >= 3 ==> r@ == words(text@)[2],
        words(text@).len() < 3 ==> r@ == "unknown"@,
{
    let w = split_words(str_chars(text).as_slice());
    if w.len() >= 3 {
        assert(char_views(w@)[2] == w@[2]@);
        string_from_chars(w[2].as_slice())
    } else {
        "unknown".to_owned()
    }
}

/// The ID of a node: `n-` and its host name.
pub fn node_id(hostname: &str) -> (r: String)
    ensures
        r@ == "n-"@ + hostname@,
{
    let mut v = str_chars("n-");
    extend_str(&mut v, hostname);
    string_from_chars(v.as_slice())
}

/// Index of the last `.` in `s`, or -1.
pub open spec fn last_dot(s: Seq<char>) -> int
    decreases s.len(),
{
    if s.len() == 0 {
        -1
    } else if s.last() == '.' {
        s.len() - 1
    } else {
        last_dot(s.drop_last())
    }
}

proof fn lemma_last_dot(s: Seq<char>)
    ensures
        -1 <= last_dot(s) < s.len(),
        last_dot(s) >= 0 ==> s[last_dot(s)] == '.',
        forall|j: int| last_dot(s) < j < s.len() ==> s[j] != '.',
    decreases s.len(),
{
    if s.len() > 0 && s.last() != '.' {
        lemma_last_dot(s.drop_last());
        assert forall|j: int| last_dot(s) < j < s.len() implies s[j] != '.' by {
            if j < s.len() - 1 {
                assert(s[j] == s.drop_last()[j]);
            }
        }
    }
}

/// The VM a state file is about: a file name with the extension `json`
/// (after its last `.`, which is not its first character) gives the name
/// before that `.`.
pub open spec fn spec_state_file_vm(name: Seq<char>) -> Option<Seq<char>> {
    let d = last_dot(name);
    if d > 0 && name.subrange(d + 1, name.len() as int) == "json"@ {
        Some(name.subrange(0, d))
    } else {
        None
    }
}

/// The VM named by a state file's name, if it is one.
pub fn state_file_vm(name: &str) -> (r: Option<String>)
    ensures
        match spec_state_file_vm(name@) {
            Some(v) => r matches Some(s) && s@ == v,
            None => r is None,
        },
{
    let c = str_chars(name);
    proof {
        lemma_last_dot(c@);
    }
    let mut k = c.len();
    while k > 0 && c[k - 1] != '.'
        invariant
            k <= c@.len(),
            c@ == name@,
            forall|j: int| k <= j < c@.len() ==> c@[j] != '.',
            -1 <= last_dot(c@) < c@.len(),
            last_dot(c@) >= 0 ==> c@[last_dot(c@)] == '.',
            forall|j: int| last_dot(c@) < j < c@.len() ==> c@[j] != '.',
        decreases k,
    {
        k = k - 1;
    }
    if k <= 1 {
        proof {
            if last_dot(c@) > 0 {
                assert(c@[last_dot(c@)] == '.');
            }
        }
        return None;
    }
    let d = k - 1;
    assert(last_dot(c@) == d as int);
    let ext = slice_chars(c.as_slice(), d + 1, c.len());
    if crate::text::chars_eq_str(ext.as_slice(), "json") {
        let stem = slice_chars(c.as_slice(), 0, d);
        Some(string_from_chars(stem.as_slice()))
    } else {
        None
    }
}

/// `n` in decimal, zero-padded to at least three digits.
pub open spec fn dec3(n: nat) -> Seq<char> {
    if n < 10 {
        seq!['0', '0'] + dec(n)
    } else if n < 100 {
        seq!['0'] + dec(n)
    } else {
        dec(n)
    }
}

/// The ID of VM number `n`: `vm-` and the number, at least three digits.
pub fn numbered_vm_id(n: u32) -> (r: String)
    ensures
        r@ == "vm-"@ + dec3(n as nat),
{
    let mut v = str_chars("vm-");
    let ghost head = v@;
    if n < 10 {
        v.push('0');
        v.push('0');
    } else if n < 100 {
        v.push('0');
    }
    push_dec(&mut v, n as u64);
    assert(v@ =~= "vm-"@ + dec3(n as nat));
    string_from_chars(v.as_slice())
}

/// The status a VM is listed with: stopped when its process is gone,
/// else its recorded status (running by default).
pub fn listed_status(alive: bool, recorded: Option<&str>) -> (r: String)
    ensures
        !alive ==> r@ == "STOPPED"@,
        alive ==> r@ == (match recorded {
            Some(s) => s@,
            None => "RUNNING"@,
        }),
{
    if !alive {
        "STOPPED".to_owned()
    } else {
        match recorded {
            Some(s) => s.to_owned(),
            None => "RUNNING".to_owned(),
        }
    }
}

/// The VM a tap interface belongs to: `tap` and a 32-bit number `N`
/// gives VM `N`.
pub open spec fn spec_tap_vm(name: Seq<char>) -> Option<u32> {
    if has_prefix(name, "tap"@) {
        spec_parse_u32(name.subrange(3, name.len() as int))
    } else {
        None
    }
}

/// Matches one network interface against an interface index: when its
/// `ifindex` file holds that index and it is a VM's tap, that VM's ID.
pub fn iface_vm_id(ifindex_text: &str, name: &str, ifindex: u32) -> (r: Option<String>)
    ensures
        spec_parse_u32(crate::text::trim(ifindex_text@)) == Some(ifindex) && spec_tap_vm(name@) is Some
            ==> (r matches Some(s) && s@ == "vm-"@ + dec3(spec_tap_vm(name@)->0 as nat)),
        !(spec_parse_u32(crate::text::trim(ifindex_text@)) == Some(ifindex) && spec_tap_vm(name@) is Some)
            ==> r is None,
{
    let t = trim_chars(str_chars(ifindex_text).as_slice());
    match parse_u32(t.as_slice()) {
        Some(i) => {
            if i != ifindex {
                return None;
            }
        },
        None => {
            return None;
        },
    }
    let c = str_chars(name);
    let tap = str_chars("tap");
    proof {
        reveal_strlit("tap");
    }
    if !starts_with(c.as_slice(), tap.as_slice()) {
        return None;
    }
    let rest = slice_chars(c.as_slice(), 3, c.len());
    match parse_u32(rest.as_slice()) {
        Some(id) => Some(numbered_vm_id(id)),
        None => None,
    }
}

/// The name given to an interface index that is no VM's tap.
pub fn unknown_ifindex(ifindex: u32) -> (r: String)
    ensures
        r@ == "ifindex-"@ + dec(ifindex as nat),
{
    let mut v = str_chars("ifindex-");
    push_dec(&mut v, ifindex as u64);
    string_from_chars(v.as_slice())
}

/// The little-endian 64-bit value at `off` in `v`, or 0 when `v` is too
/// short.
pub open spec fn le_u64_or0(v: Seq<u8>, off: int) -> nat {
    if off + 8 <= v.len() {
        v[off] as nat + v[off + 1] as nat * 0x100 + v[off + 2] as nat * 0x1_0000 + v[off + 3] as nat
            * 0x100_0000 + v[off + 4] as nat * 0x1_0000_0000 + v[off + 5] as nat * 0x100_0000_0000
            + v[off + 6] as nat * 0x1_0000_0000_0000 + v[off + 7] as nat * 0x100_0000_0000_0000
    } else {
        0
    }
}

fn le_u64_at(v: &[u8], off: usize) -> (r: u64)
    requires
        off <= 8,
    ensures
        r == le_u64_or0(v@, off as int),
{
    if v.len() < off + 8 {
        return 0;
    }
    let r: u64 = v[off] as u64 + v[off + 1] as u64 * 0x100 + v[off + 2] as u64 * 0x1_0000
        + v[off + 3] as u64 * 0x100_0000 + v[off + 4] as u64 * 0x1_0000_0000 + v[off + 5] as u64
        * 0x100_0000_0000 + v[off + 6] as u64 * 0x1_0000_0000_0000 + v[off + 7] as u64
        * 0x100_0000_0000_0000;
    r
}

/// The packet and byte totals over a per-CPU statistics entry: each
/// CPU's value holds the packets then the bytes, little-endian (missing
/// counters count as 0).
pub open spec fn percpu_totals(vals: Seq<Seq<u8>>) -> (nat, nat)
    decreases vals.len(),
{
    if vals.len() == 0 {
        (0, 0)
    } else {
        let (p, b) = percpu_totals(vals.drop_last());
        (p + le_u64_or0(vals.last(), 0), b + le_u64_or0(vals.last(), 8))
    }
}

proof fn lemma_percpu_mono(vals: Seq<Seq<u8>>, k: int)
    requires
        0 <= k <= vals.len(),
    ensures
        percpu_totals(vals.subrange(0, k)).0 <= percpu_totals(vals).0,
        percpu_totals(vals.subrange(0, k)).1 <= percpu_totals(vals).1,
    decreases vals.len() - k,
{
    if k < vals.len() {
        lemma_percpu_mono(vals, k + 1);
        assert(vals.subrange(0, k + 1).drop_last() =~= vals.subrange(0, k));
    } else {
        assert(vals.subrange(0, k) =~= vals);
    }
}

/// The received packets and bytes of a VM, summed over CPUs (the totals
/// fit in 64 bits, as the counters they add up).
pub fn sum_percpu(vals: &Vec<Vec<u8>>) -> (r: (u64, u64))
    requires
        percpu_totals(vals@.map_values(|v: Vec<u8>| v@)).0 <= u64::MAX,
        percpu_totals(vals@.map_values(|v: Vec<u8>| v@)).1 <= u64::MAX,
    ensures
        r.0 == percpu_totals(vals@.map_values(|v: Vec<u8>| v@)).0,
        r.1 == percpu_totals(vals@.map_values(|v: Vec<u8>| v@)).1,
{
    let ghost all = vals@.map_values(|v: Vec<u8>| v@);
    let n = vals.len();
    let mut p: u64 = 0;
    let mut b: u64 = 0;
    let mut i: usize = 0;
    while i < n
        invariant
            i <= n,
            n == vals@.len(),
            all == vals@.map_values(|v: Vec<u8>| v@),
            percpu_totals(all).0 <= u64::MAX,
            percpu_totals(all).1 <= u64::MAX,
            p == percpu_totals(all.subrange(0, i as int)).0,
            b == percpu_totals(all.subrange(0, i as int)).1,
        decreases n - i,
    {
        let ghost pre = all.subrange(0, i + 1);
        assert(pre.drop_last() =~= all.subrange(0, i as int));
        assert(pre.last() == vals@[i as int]@);
        proof {
            lemma_percpu_mono(all, i + 1);
        }
        let pk = le_u64_at(vals[i].as_slice(), 0);
        let by = le_u64_at(vals[i].as_slice(), 8);
        p = p + pk;
        b = b + by;
        i = i + 1;
    }
    assert(all.subrange(0, n as int) =~= all);
    (p, b)
}

/// A VM's identity and status as one collection cycle saw them.
pub struct VmSeen {
    pub id: String,
    pub status: String,
}

/// The status the previous cycle saw for VM `id`: that of its first entry.
pub open spec fn previous_status(old: Seq<VmSeen>, id: Seq<char>) -> Option<Seq<char>>
    decreases old.len(),
{
    if old.len() == 0 {
        None
    } else if old[0].id@ == id {
        Some(old[0].status@)
    } else {
        previous_status(old.drop_first(), id)
    }
}

/// Whether a status-change event is due for a VM: the previous cycle saw
/// it with another status (a VM seen for the first time raises none).
pub fn status_changed(old: &[VmSeen], id: &str, status: &str) -> (r: bool)
    ensures
        r == (match previous_status(old@, id@) {
            Some(s) => s != status@,
            None => false,
        }),
{
    let n = old.len();
    let mut i: usize = 0;
    assert(old@.subrange(0, n as int) =~= old@);
    while i < n
        invariant
            i <= n,
            n == old@.len(),
            previous_status(old@.subrange(i as int, n as int), id@) == previous_status(old@, id@),
        decreases n - i,
    {
        let ghost rest = old@.subrange(i as int, n as int);
        assert(rest[0] == old@[i as int]);
        if crate::text::str_eq(old[i].id.as_str(), id) {
            return !crate::text::str_eq(old[i].status.as_str(), status);
        }
        assert(rest.drop_first() =~= old@.subrange(i + 1, n as int));
        i = i + 1;
    }
    false
}

/// The memory totals of the nodes (used, total), in MiB.
pub open spec fn mem_sums(nodes: Seq<(u64, u64)>) -> (nat, nat)
    decreases nodes.len(),
{
    if nodes.len() == 0 {
        (0, 0)
    } else {
        let (u, t) = mem_sums(nodes.drop_last());
        (u + nodes.last().0 as nat, t + nodes.last().1 as nat)
    }
}

proof fn lemma_mem_sums_mono(nodes: Seq<(u64, u64)>, k: int)
    requires
        0 <= k <= nodes.len(),
    ensures
        mem_sums(nodes.subrange(0, k)).0 <= mem_sums(nodes).0,
        mem_sums(nodes.subrange(0, k)).1 <= mem_sums(nodes).1,
    decreases nodes.len() - k,
{
    if k < nodes.len() {
        lemma_mem_sums_mono(nodes, k + 1);
        assert(nodes.subrange(0, k + 1).drop_last() =~= nodes.subrange(0, k));
    } else {
        assert(nodes.subrange(0, k) =~= nodes);
    }
}

/// The cluster's memory in use and in total, summed over its nodes'
/// (used, total) pairs (the sums fit in 64 bits).
pub fn cluster_memory(nodes: &[(u64, u64)]) -> (r: (u64, u64))
    requires
        mem_sums(nodes@).0 <= u64::MAX,
        mem_sums(nodes@).1 <= u64::MAX,
    ensures
        r.0 == mem_sums(nodes@).0,
        r.1 == mem_sums(nodes@).1,
{
    let n = nodes.len();
    let mut u: u64 = 0;
    let mut t: u64 = 0;
    let mut i: usize = 0;
    while i < n
        invariant
            i <= n,
            n == nodes@.len(),
            mem_sums(nodes@).0 <= u64::MAX,
            mem_sums(nodes@).1 <= u64::MAX,
            u == mem_sums(nodes@.subrange(0, i as int)).0,
            t == mem_sums(nodes@.subrange(0, i as int)).1,
        decreases n - i,
    {
        assert(nodes@.subrange(0, i + 1).drop_last() =~= nodes@.subrange(0, i as int));
        proof {
            lemma_mem_sums_mono(nodes@, i + 1);
        }
        let (nu, nt) = nodes[i];
        u = u + nu;
        t = t + nt;
        i = i + 1;
    }
    assert(nodes@.subrange(0, n as int) =~= nodes@);
    (u, t)
}

} // verus!
