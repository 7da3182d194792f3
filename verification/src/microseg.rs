//! Micro-segmentation policies: label sets to numeric identities, and
//! policies to (source, destination, protocol, port) map entries.
use vstd::prelude::*;
use vstd::relations::sorted_by;
use vstd::utf8::encode_utf8;
use crate::sorting::{lex_leq, sort_strings, views};
use crate::text::{extend_chars, str_chars, str_eq, string_from_chars};

verus! {

/// A MicroSegPolicy object.
pub struct MicroSegPolicy {
    pub metadata: PolicyMeta,
    pub spec: PolicySpec,
}

/// Name and namespace of a policy.
pub struct PolicyMeta {
    pub name: String,
    pub namespace: String,
}

/// What a policy selects and decides.
pub struct PolicySpec {
    pub priority: u8,
    pub action: PolicyAction,
    pub from: Vec<LabelSelector>,
    pub to: Vec<LabelSelector>,
    pub ports: Option<Vec<PortRule>>,
}

/// The decision of a policy.
#[derive(Debug, Clone, Copy, PartialEq, Eq, Structural)]
pub enum PolicyAction {
    Allow,
    Deny,
    Log,
}

/// A set of `key=value` labels that a VM must carry (keys distinct).
pub struct LabelSelector {
    pub match_labels: Vec<(String, String)>,
}

/// A protocol/port restriction; `None` means any.
pub struct PortRule {
    pub protocol: Option<String>,
    pub port: Option<u16>,
}

/// A change to the set of policies.
pub enum PolicyEvent {
    Added(MicroSegPolicy),
    Modified(MicroSegPolicy),
    Deleted(String),
}

/// Verdict stored in the BPF policy map.
#[derive(Debug, Clone, Copy, PartialEq, Eq, Structural)]
pub enum Verdict {
    Allow,
    Deny,
    Log,
}

/// Key of a BPF policy map entry.
#[derive(Debug, Clone, Copy, PartialEq, Eq, Structural)]
pub struct PolicyKey {
    pub src_id: u32,
    pub dst_id: u32,
    pub proto: u8,
    pub dst_port: u16,
}

/// Value of a BPF policy map entry.
#[derive(Debug, Clone, Copy, PartialEq, Eq, Structural)]
pub struct PolicyVal {
    pub verdict: Verdict,
    pub priority: u8,
    pub rule_id: u32,
}

/// `key=value` for each label.
pub open spec fn label_texts(labels: Seq<(String, String)>) -> Seq<Seq<char>> {
    labels.map_values(|p: (String, String)| p.0@ + seq!['='] + p.1@)
}

/// Strings joined with `,`.
pub open spec fn join_comma(s: Seq<Seq<char>>) -> Seq<char>
    decreases s.len(),
{
    if s.len() == 0 {
        Seq::empty()
    } else if s.len() == 1 {
        s[0]
    } else {
        join_comma(s.drop_last()) + seq![','] + s.last()
    }
}

/// FNV-1a (32-bit) of a byte string.
pub open spec fn fnv1a32(bytes: Seq<u8>) -> u32
    decreases bytes.len(),
{
    if bytes.len() == 0 {
        0x811c_9dc5u32
    } else {
        (fnv1a32(bytes.drop_last()) ^ (bytes.last() as u32)).wrapping_mul(0x0100_0193u32)
    }
}

/// Identities 0 (unknown) and 1 (host) are reserved: they map to 2 and 3.
pub open spec fn reserve_low(h: u32) -> u32 {
    if h < 2 {
        (h + 2) as u32
    } else {
        h
    }
}

/// The identity of a label set given as `key=value` texts: FNV-32 of the
/// sorted texts joined by `,`, with the reserved values moved up.
pub open spec fn identity_of_texts(texts: Seq<Seq<char>>) -> u32 {
    reserve_low(fnv1a32(encode_utf8(join_comma(texts.sort_by(lex_leq())))))
}

fn fnv1a32_bytes(bytes: &[u8]) -> (r: u32)
    ensures
        r == fnv1a32(bytes@),
{
    let n = bytes.len();
    let mut hash: u32 = 0x811c_9dc5u32;
    let mut i: usize = 0;
    assert(bytes@.subrange(0, 0) =~= Seq::<u8>::empty());
    while i < n
        invariant
            i <= n,
            n == bytes@.len(),
            hash == fnv1a32(bytes@.subrange(0, i as int)),
        decreases n - i,
    {
        hash = (hash ^ (bytes[i] as u32)).wrapping_mul(0x0100_0193u32);
        proof {
            assert(bytes@.subrange(0, i + 1).drop_last() =~= bytes@.subrange(0, i as int));
        }
        i = i + 1;
    }
    assert(bytes@.subrange(0, n as int) =~= bytes@);
    hash
}

fn join_with_commas(items: &Vec<Vec<char>>) -> (r: Vec<char>)
    ensures
        r@ == join_comma(views(items@)),
{
    let mut out: Vec<char> = Vec::new();
    let n = items.len();
    let mut i: usize = 0;
    while i < n
        invariant
            i <= n,
            n == items@.len(),
            out@ == join_comma(views(items@).take(i as int)),
        decreases n - i,
    {
        proof {
            let t = views(items@).take(i + 1);
            assert(t.drop_last() =~= views(items@).take(i as int));
            assert(t.last() == items@[i as int]@);
        }
        if i > 0 {
            out.push(',');
        }
        extend_chars(&mut out, items[i].as_slice());
        proof {
            if i == 0 {
                assert(out@ =~= views(items@).take(1)[0]);
            }
        }
        i = i + 1;
    }
    assert(views(items@).take(n as int) =~= views(items@));
    out
}

/// The numeric identity of a label set: FNV-32 of its `key=value` pairs,
/// sorted and joined by `,`; never 0 (unknown) or 1 (host).
pub fn labels_to_identity(labels: &[(String, String)]) -> (r: u32)
    ensures
        r == identity_of_texts(label_texts(labels@)),
        r >= 2,
{
    let mut texts: Vec<Vec<char>> = Vec::new();
    let n = labels.len();
    let mut i: usize = 0;
    while i < n
        invariant
            i <= n,
            n == labels@.len(),
            views(texts@) == label_texts(labels@).take(i as int),
        decreases n - i,
    {
        let mut t = str_chars(labels[i].0.as_str());
        t.push('=');
        let v = str_chars(labels[i].1.as_str());
        extend_chars(&mut t, v.as_slice());
        let ghost li = labels@[i as int];
        assert(t@ == li.0@ + seq!['='] + li.1@);
        assert(label_texts(labels@)[i as int] == li.0@ + seq!['='] + li.1@);
        let ghost before = views(texts@);
        texts.push(t);
        proof {
            assert(views(texts@) =~= before.push(li.0@ + seq!['='] + li.1@));
            assert(views(texts@) =~= label_texts(labels@).take(i + 1));
        }
        i = i + 1;
    }
    assert(label_texts(labels@).take(n as int) =~= label_texts(labels@));
    let sorted = sort_strings(texts);
    let combined = join_with_commas(&sorted);
    let s = string_from_chars(combined.as_slice());
    let bytes = s.as_str().as_bytes();
    let hash = fnv1a32_bytes(bytes);
    if hash < 2 {
        hash + 2
    } else {
        hash
    }
}

/// The identity of a label set does not depend on the order in which its
/// labels are listed: any two lists with the same `key=value` pairs (as a
/// multiset) get the same identity.
pub proof fn lemma_identity_order_independent(a: Seq<Seq<char>>, b: Seq<Seq<char>>)
    requires
        a.to_multiset() == b.to_multiset(),
    ensures
        identity_of_texts(a) == identity_of_texts(b),
{
    crate::sorting::lemma_lex_total_ordering();
    a.lemma_sort_by_ensures(lex_leq());
    b.lemma_sort_by_ensures(lex_leq());
    vstd::seq_lib::lemma_sorted_unique(a.sort_by(lex_leq()), b.sort_by(lex_leq()), lex_leq());
}

/// IP protocol number for a port rule's protocol name (0: any).
pub open spec fn spec_proto_num(name: Option<Seq<char>>) -> u8 {
    match name {
        Some(n) => if n == "TCP"@ || n == "tcp"@ {
            6
        } else if n == "UDP"@ || n == "udp"@ {
            17
        } else if n == "ICMP"@ || n == "icmp"@ {
            1
        } else {
            0
        },
        None => 0,
    }
}

/// Port rules name their protocol in capitals (as Kubernetes writes them)
/// or in small letters, and each name gets its IANA number: TCP 6, UDP 17,
/// ICMP 1; no name, or any other, means any protocol (0).
pub proof fn lemma_proto_numbers(n: Seq<char>)
    ensures
        spec_proto_num(Some(n)) == 6 <==> (n == "TCP"@ || n == "tcp"@),
        spec_proto_num(Some(n)) == 17 <==> (n == "UDP"@ || n == "udp"@),
        spec_proto_num(Some(n)) == 1 <==> (n == "ICMP"@ || n == "icmp"@),
        spec_proto_num(Some(n)) == 0 <==> !(n == "TCP"@ || n == "tcp"@ || n == "UDP"@ || n
            == "udp"@ || n == "ICMP"@ || n == "icmp"@),
        spec_proto_num(None) == 0,
{
    reveal_strlit("TCP");
    reveal_strlit("tcp");
    reveal_strlit("UDP");
    reveal_strlit("udp");
    reveal_strlit("ICMP");
    reveal_strlit("icmp");
    assert("UDP"@[0] != "TCP"@[0] && "UDP"@[0] != "tcp"@[0]);
    assert("udp"@[0] != "TCP"@[0] && "udp"@[0] != "tcp"@[0]);
    assert("ICMP"@.len() != "TCP"@.len() && "ICMP"@.len() != "UDP"@.len());
    assert("icmp"@.len() != "tcp"@.len() && "icmp"@.len() != "udp"@.len());
    assert("ICMP"@.len() != "tcp"@.len() && "ICMP"@.len() != "udp"@.len());
    assert("icmp"@.len() != "TCP"@.len() && "icmp"@.len() != "UDP"@.len());
}

/// IP protocol number for a protocol name: TCP 6, UDP 17, ICMP 1 (in
/// capitals or small letters), else 0.
pub fn proto_num(name: Option<&str>) -> (r: u8)
    ensures
        r == spec_proto_num(
            match name {
                Some(n) => Some(n@),
                None => None,
            },
        ),
        r == 6 <==> (name matches Some(n) && (n@ == "TCP"@ || n@ == "tcp"@)),
        r == 17 <==> (name matches Some(n) && (n@ == "UDP"@ || n@ == "udp"@)),
        r == 1 <==> (name matches Some(n) && (n@ == "ICMP"@ || n@ == "icmp"@)),
        r == 0 || r == 1 || r == 6 || r == 17,
{
    proof {
        if let Some(n) = name {
            lemma_proto_numbers(n@);
        }
    }
    match name {
        Some(n) => {
            if str_eq(n, "TCP") || str_eq(n, "tcp") {
                6
            } else if str_eq(n, "UDP") || str_eq(n, "udp") {
                17
            } else if str_eq(n, "ICMP") || str_eq(n, "icmp") {
                1
            } else {
                0
            }
        },
        None => 0,
    }
}

} // verus!

verus! {

/// The map entries for one (source, destination) pair: one any-protocol,
/// any-port entry when the policy names no ports, else one per port rule.
pub open spec fn rule_cell(s: u32, d: u32, ports: Seq<(u8, u16)>, v: PolicyVal) -> Seq<
    (PolicyKey, PolicyVal),
> {
    if ports.len() == 0 {
        seq![(PolicyKey { src_id: s, dst_id: d, proto: 0, dst_port: 0 }, v)]
    } else {
        ports.map_values(
            |p: (u8, u16)| (PolicyKey { src_id: s, dst_id: d, proto: p.0, dst_port: p.1 }, v),
        )
    }
}

/// One entry per port rule for the pair (`s`, `d`).
pub open spec fn port_entries(s: u32, d: u32, ports: Seq<(u8, u16)>, v: PolicyVal) -> Seq<
    (PolicyKey, PolicyVal),
> {
    ports.map_values(
        |p: (u8, u16)| (PolicyKey { src_id: s, dst_id: d, proto: p.0, dst_port: p.1 }, v),
    )
}

/// The entries for source `s` and every destination, in order.
pub open spec fn rule_row(s: u32, dst: Seq<u32>, ports: Seq<(u8, u16)>, v: PolicyVal) -> Seq<
    (PolicyKey, PolicyVal),
>
    decreases dst.len(),
{
    if dst.len() == 0 {
        Seq::empty()
    } else {
        rule_row(s, dst.drop_last(), ports, v) + rule_cell(s, dst.last(), ports, v)
    }
}

/// All entries of a policy: sources outermost, then destinations, then ports.
pub open spec fn spec_rules(src: Seq<u32>, dst: Seq<u32>, ports: Seq<(u8, u16)>, v: PolicyVal) -> Seq<
    (PolicyKey, PolicyVal),
>
    decreases src.len(),
{
    if src.len() == 0 {
        Seq::empty()
    } else {
        spec_rules(src.drop_last(), dst, ports, v) + rule_row(src.last(), dst, ports, v)
    }
}

/// Expands identities and ports into policy map entries.
pub fn compile_rules(src: &[u32], dst: &[u32], ports: &[(u8, u16)], v: PolicyVal) -> (r: Vec<
    (PolicyKey, PolicyVal),
>)
    ensures
        r@ == spec_rules(src@, dst@, ports@, v),
{
    let mut out: Vec<(PolicyKey, PolicyVal)> = Vec::new();
    let ns = src.len();
    let nd = dst.len();
    let np = ports.len();
    let mut i: usize = 0;
    while i < ns
        invariant
            i <= ns,
            ns == src@.len(),
            nd == dst@.len(),
            np == ports@.len(),
            out@ == spec_rules(src@.take(i as int), dst@, ports@, v),
        decreases ns - i,
    {
        let s = src[i];
        let ghost base = out@;
        let mut j: usize = 0;
        assert(dst@.take(0) =~= Seq::<u32>::empty());
        while j < nd
            invariant
                j <= nd,
                ns == src@.len(),
                nd == dst@.len(),
                np == ports@.len(),
                i < ns,
                s == src@[i as int],
                out@ == base + rule_row(s, dst@.take(j as int), ports@, v),
            decreases nd - j,
        {
            let d = dst[j];
            let ghost before = out@;
            if np == 0 {
                out.push((PolicyKey { src_id: s, dst_id: d, proto: 0, dst_port: 0 }, v));
            } else {
                let mut k: usize = 0;
                while k < np
                    invariant
                        k <= np,
                        np == ports@.len(),
                        np > 0,
                        out@ == before + port_entries(s, d, ports@.take(k as int), v),
                    decreases np - k,
                {
                    let p = ports[k];
                    out.push((PolicyKey { src_id: s, dst_id: d, proto: p.0, dst_port: p.1 }, v));
                    proof {
                        assert(port_entries(s, d, ports@.take(k + 1), v) =~= port_entries(
                            s,
                            d,
                            ports@.take(k as int),
                            v,
                        ).push((PolicyKey { src_id: s, dst_id: d, proto: p.0, dst_port: p.1 }, v)));
                        assert(out@ =~= before + port_entries(s, d, ports@.take(k + 1), v));
                    }
                    k = k + 1;
                }
                assert(ports@.take(np as int) =~= ports@);
            }
            proof {
                assert(dst@.take(j + 1).drop_last() =~= dst@.take(j as int));
                assert(out@ =~= base + rule_row(s, dst@.take(j + 1), ports@, v));
            }
            j = j + 1;
        }
        proof {
            assert(dst@.take(nd as int) =~= dst@);
            assert(src@.take(i + 1).drop_last() =~= src@.take(i as int));
        }
        i = i + 1;
    }
    assert(src@.take(ns as int) =~= src@);
    out
}

/// A policy expands to sources x destinations x max(1, ports) entries.
pub proof fn lemma_rule_count(src: Seq<u32>, dst: Seq<u32>, ports: Seq<(u8, u16)>, v: PolicyVal)
    ensures
        spec_rules(src, dst, ports, v).len() == src.len() * dst.len() * (if ports.len() == 0 {
            1
        } else {
            ports.len() as int
        }),
    decreases src.len(),
{
    let m: int = if ports.len() == 0 {
        1
    } else {
        ports.len() as int
    };
    if src.len() > 0 {
        lemma_rule_count(src.drop_last(), dst, ports, v);
        lemma_row_count(src.last(), dst, ports, v);
        assert(src.drop_last().len() * dst.len() * m + dst.len() * m == src.len() * dst.len() * m)
            by (nonlinear_arith)
            requires
                src.drop_last().len() + 1 == src.len(),
        ;
    } else {
        assert(src.len() * dst.len() * m == 0) by (nonlinear_arith)
            requires
                src.len() == 0,
        ;
    }
}

proof fn lemma_row_count(s: u32, dst: Seq<u32>, ports: Seq<(u8, u16)>, v: PolicyVal)
    ensures
        rule_row(s, dst, ports, v).len() == dst.len() * (if ports.len() == 0 {
            1
        } else {
            ports.len() as int
        }),
    decreases dst.len(),
{
    let m: int = if ports.len() == 0 {
        1
    } else {
        ports.len() as int
    };
    if dst.len() > 0 {
        lemma_row_count(s, dst.drop_last(), ports, v);
        assert(dst.drop_last().len() * m + m == dst.len() * m) by (nonlinear_arith)
            requires
                dst.drop_last().len() + 1 == dst.len(),
        ;
    } else {
        assert(dst.len() * m == 0) by (nonlinear_arith)
            requires
                dst.len() == 0,
        ;
    }
}

/// The map verdict of a policy action.
pub open spec fn spec_verdict(a: PolicyAction) -> Verdict {
    match a {
        PolicyAction::Allow => Verdict::Allow,
        PolicyAction::Deny => Verdict::Deny,
        PolicyAction::Log => Verdict::Log,
    }
}

/// The identities that a list of selectors resolves to, in order.
pub open spec fn spec_identities(sels: Seq<LabelSelector>) -> Seq<u32> {
    sels.map_values(|s: LabelSelector| identity_of_texts(label_texts(s.match_labels@)))
}

/// A port rule as (protocol number, port), `None` meaning 0 (any).
pub open spec fn spec_port_pair(r: PortRule) -> (u8, u16) {
    (
        spec_proto_num(
            match r.protocol {
                Some(s) => Some(s@),
                None => None,
            },
        ),
        match r.port {
            Some(p) => p,
            None => 0,
        },
    )
}

/// The (protocol, port) pairs of a policy; none when it names no ports.
pub open spec fn spec_policy_ports(p: PolicySpec) -> Seq<(u8, u16)> {
    match p.ports {
        Some(v) => v@.map_values(|r: PortRule| spec_port_pair(r)),
        None => Seq::empty(),
    }
}

/// All BPF map entries that a policy compiles to.
pub open spec fn spec_compile(p: MicroSegPolicy) -> Seq<(PolicyKey, PolicyVal)> {
    spec_rules(
        spec_identities(p.spec.from@),
        spec_identities(p.spec.to@),
        spec_policy_ports(p.spec),
        PolicyVal { verdict: spec_verdict(p.spec.action), priority: p.spec.priority, rule_id: 0 },
    )
}

/// Resolves label selectors to identities.
pub fn resolve_identities(sels: &[LabelSelector]) -> (r: Vec<u32>)
    ensures
        r@ == spec_identities(sels@),
{
    let mut ids: Vec<u32> = Vec::new();
    let n = sels.len();
    let mut i: usize = 0;
    while i < n
        invariant
            i <= n,
            n == sels@.len(),
            ids@ == spec_identities(sels@).take(i as int),
        decreases n - i,
    {
        let id = labels_to_identity(sels[i].match_labels.as_slice());
        ids.push(id);
        assert(ids@ =~= spec_identities(sels@).take(i + 1));
        i = i + 1;
    }
    assert(spec_identities(sels@).take(n as int) =~= spec_identities(sels@));
    ids
}

/// Compiles a policy into its BPF map entries.
pub fn compile_policy(p: &MicroSegPolicy) -> (r: Vec<(PolicyKey, PolicyVal)>)
    ensures
        r@ == spec_compile(*p),
{
    let verdict = match p.spec.action {
        PolicyAction::Allow => Verdict::Allow,
        PolicyAction::Deny => Verdict::Deny,
        PolicyAction::Log => Verdict::Log,
    };
    let src = resolve_identities(p.spec.from.as_slice());
    let dst = resolve_identities(p.spec.to.as_slice());
    let mut ports: Vec<(u8, u16)> = Vec::new();
    match &p.spec.ports {
        Some(rules) => {
            let n = rules.len();
            let mut i: usize = 0;
            while i < n
                invariant
                    i <= n,
                    n == rules@.len(),
                    ports@ == rules@.map_values(|r: PortRule| spec_port_pair(r)).take(i as int),
                decreases n - i,
            {
                let proto = match &rules[i].protocol {
                    Some(s) => proto_num(Some(s.as_str())),
                    None => proto_num(None),
                };
                let port = match rules[i].port {
                    Some(x) => x,
                    None => 0,
                };
                ports.push((proto, port));
                assert(ports@ =~= rules@.map_values(|r: PortRule| spec_port_pair(r)).take(i + 1));
                i = i + 1;
            }
            assert(rules@.map_values(|r: PortRule| spec_port_pair(r)).take(n as int)
                =~= rules@.map_values(|r: PortRule| spec_port_pair(r)));
        },
        None => {
            assert(ports@ =~= Seq::<(u8, u16)>::empty());
        },
    }
    let v = PolicyVal { verdict, priority: p.spec.priority, rule_id: 0 };
    compile_rules(src.as_slice(), dst.as_slice(), ports.as_slice(), v)
}

} // verus!

verus! {

/// The store key of a policy: `namespace/name`.
pub open spec fn spec_policy_key(m: PolicyMeta) -> Seq<char> {
    m.namespace@ + seq!['/'] + m.name@
}

/// Builds the store key of a policy.
pub fn policy_key(m: &PolicyMeta) -> (r: String)
    ensures
        r@ == spec_policy_key(*m),
{
    let mut v = str_chars(m.namespace.as_str());
    v.push('/');
    let n = str_chars(m.name.as_str());
    extend_chars(&mut v, n.as_slice());
    string_from_chars(v.as_slice())
}

/// What the BPF policy map needs after an event.
#[derive(Debug, Clone, Copy, PartialEq, Eq, Structural)]
pub enum MapUpdate {
    /// Compile the policy stored at this index into the map.
    Compile(usize),
    /// Clear the map and compile every stored policy again.
    RecompileAll,
}

/// Index of the first entry with key `k`, or -1.
pub open spec fn find_key(keys: Seq<Seq<char>>, k: Seq<char>) -> int
    decreases keys.len(),
{
    if keys.len() == 0 {
        -1
    } else if keys[0] == k {
        0
    } else {
        let r = find_key(keys.drop_first(), k);
        if r < 0 {
            -1
        } else {
            r + 1
        }
    }
}

proof fn lemma_find_key(keys: Seq<Seq<char>>, k: Seq<char>)
    ensures
        -1 <= find_key(keys, k) < keys.len(),
        find_key(keys, k) >= 0 ==> keys[find_key(keys, k)] == k,
        find_key(keys, k) < 0 <==> !keys.contains(k),
        forall|j: int| 0 <= j < find_key(keys, k) ==> keys[j] != k,
    decreases keys.len(),
{
    if keys.len() > 0 && keys[0] != k {
        lemma_find_key(keys.drop_first(), k);
        let r = find_key(keys.drop_first(), k);
        if r < 0 {
            assert forall|j: int| 0 <= j < keys.len() implies keys[j] != k by {
                if j > 0 {
                    assert(keys[j] == keys.drop_first()[j - 1]);
                }
            }
        } else {
            assert(keys[r + 1] == keys.drop_first()[r]);
            assert forall|j: int| 0 <= j < r + 1 implies keys[j] != k by {
                if j > 0 {
                    assert(keys[j] == keys.drop_first()[j - 1]);
                }
            }
        }
    } else if keys.len() > 0 {
        assert(keys.contains(k));
    }
}

/// The policies currently known, keyed by `namespace/name`.
pub struct PolicyStore {
    entries: Vec<(String, MicroSegPolicy)>,
}

impl PolicyStore {
    /// The keys, in store order.
    pub closed spec fn keys(&self) -> Seq<Seq<char>> {
        self.entries@.map_values(|e: (String, MicroSegPolicy)| e.0@)
    }

    /// The stored policies, in store order.
    pub closed spec fn policies(&self) -> Seq<MicroSegPolicy> {
        self.entries@.map_values(|e: (String, MicroSegPolicy)| e.1)
    }

    /// No key is stored twice.
    pub open spec fn wf(&self) -> bool {
        self.keys().no_duplicates() && self.keys().len() == self.policies().len()
    }

    /// The policy stored under key `k`, if any.
    pub open spec fn lookup(&self, k: Seq<char>) -> Option<MicroSegPolicy> {
        let i = find_key(self.keys(), k);
        if i < 0 {
            None
        } else {
            Some(self.policies()[i])
        }
    }

    /// An empty store.
    pub fn new() -> (r: Self)
        ensures
            r.wf(),
            r.keys().len() == 0,
    {
        let r = PolicyStore { entries: Vec::new() };
        assert(r.keys() =~= Seq::<Seq<char>>::empty());
        r
    }

    /// Number of stored policies.
    pub fn len(&self) -> (r: usize)
        ensures
            r == self.keys().len(),
    {
        self.entries.len()
    }

    /// The policy stored at index `i`.
    pub fn policy_at(&self, i: usize) -> (r: &MicroSegPolicy)
        requires
            i < self.keys().len(),
        ensures
            *r == self.policies()[i as int],
    {
        &self.entries[i].1
    }

    fn index_of(&self, k: &str) -> (r: Option<usize>)
        ensures
            match r {
                Some(i) => i as int == find_key(self.keys(), k@),
                None => find_key(self.keys(), k@) < 0,
            },
    {
        proof {
            lemma_find_key(self.keys(), k@);
        }
        let n = self.entries.len();
        let mut i: usize = 0;
        while i < n
            invariant
                i <= n,
                n == self.keys().len(),
                forall|j: int| 0 <= j < i ==> self.keys()[j] != k@,
                -1 <= find_key(self.keys(), k@) < self.keys().len(),
                find_key(self.keys(), k@) >= 0 ==> self.keys()[find_key(self.keys(), k@)] == k@,
                forall|j: int| 0 <= j < find_key(self.keys(), k@) ==> self.keys()[j] != k@,
            decreases n - i,
        {
            if str_eq(self.entries[i].0.as_str(), k) {
                assert(self.keys()[i as int] == k@);
                proof {
                    lemma_find_key(self.keys(), k@);
                    assert(self.keys().contains(k@));
                }
                return Some(i);
            }
            i = i + 1;
        }
        None
    }

    /// Applies a policy event and says how the map must change: an added or
    /// modified policy is stored under its key (replacing any previous one)
    /// and compiled; a deleted one is dropped and everything recompiled.
    pub fn apply(&mut self, ev: PolicyEvent) -> (r: MapUpdate)
        requires
            old(self).wf(),
        ensures
            final(self).wf(),
            match ev {
                PolicyEvent::Added(p) | PolicyEvent::Modified(p) => {
                    let k = spec_policy_key(p.metadata);
                    &&& final(self).lookup(k) == Some(p)
                    &&& forall|k2: Seq<char>| k2 != k ==> #[trigger] final(self).lookup(k2)
                        == old(self).lookup(k2)
                    &&& r matches MapUpdate::Compile(i) && i < final(self).keys().len()
                        && final(self).policies()[i as int] == p
                },
                PolicyEvent::Deleted(n) => {
                    &&& final(self).lookup(n@) is None
                    &&& forall|k2: Seq<char>| k2 != n@ ==> #[trigger] final(self).lookup(k2)
                        == old(self).lookup(k2)
                    &&& r == MapUpdate::RecompileAll
                },
            },
    {
        match ev {
            PolicyEvent::Added(p) => self.upsert(p),
            PolicyEvent::Modified(p) => self.upsert(p),
            PolicyEvent::Deleted(n) => {
                self.remove_key(n.as_str());
                MapUpdate::RecompileAll
            },
        }
    }

    fn upsert(&mut self, p: MicroSegPolicy) -> (r: MapUpdate)
        requires
            old(self).wf(),
        ensures
            final(self).wf(),
            final(self).lookup(spec_policy_key(p.metadata)) == Some(p),
            forall|k2: Seq<char>|
                k2 != spec_policy_key(p.metadata) ==> #[trigger] final(self).lookup(k2) == old(
                    self,
                ).lookup(k2),
            r matches MapUpdate::Compile(i) && i < final(self).keys().len()
                && final(self).policies()[i as int] == p,
    {
        let key = policy_key(&p.metadata);
        let ghost k = key@;
        let ghost ok = old(self).keys();
        let ghost op = old(self).policies();
        proof {
            lemma_find_key(ok, k);
        }
        match self.index_of(key.as_str()) {
            Some(i) => {
                self.entries.set(i, (key, p));
                proof {
                    assert(self.keys() =~= ok);
                    assert(self.policies() =~= op.update(i as int, p));
                    assert forall|k2: Seq<char>| k2 != k implies #[trigger] self.lookup(k2)
                        == old(self).lookup(k2) by {
                        lemma_find_key(ok, k2);
                        if find_key(ok, k2) >= 0 {
                            assert(find_key(ok, k2) != i);
                        }
                    }
                }
                MapUpdate::Compile(i)
            },
            None => {
                self.entries.push((key, p));
                let i = self.entries.len() - 1;
                proof {
                    assert(self.keys() =~= ok.push(k));
                    assert(self.policies() =~= op.push(p));
                    assert(!ok.contains(k));
                    lemma_find_key(self.keys(), k);
                    assert(self.keys()[ok.len() as int] == k);
                    assert(forall|j: int| 0 <= j < ok.len() ==> self.keys()[j] == ok[j]);
                    assert(find_key(self.keys(), k) == ok.len()) by {
                        let f = find_key(self.keys(), k);
                        if f < ok.len() && f >= 0 {
                            assert(ok[f] == k);
                        }
                    }
                    assert forall|k2: Seq<char>| k2 != k implies #[trigger] self.lookup(k2)
                        == old(self).lookup(k2) by {
                        lemma_find_key(ok, k2);
                        lemma_find_key(self.keys(), k2);
                        let f = find_key(ok, k2);
                        let g = find_key(self.keys(), k2);
                        if f >= 0 {
                            assert(self.keys()[f] == k2);
                            if g < f {
                                assert(ok[g] == k2);
                            }
                            assert(g == f);
                        } else {
                            if g >= 0 {
                                if g < ok.len() {
                                    assert(ok[g] == k2);
                                    assert(ok.contains(k2));
                                }
                            }
                        }
                    }
                    assert(self.keys().no_duplicates());
                }
                MapUpdate::Compile(i)
            },
        }
    }

    fn remove_key(&mut self, k: &str)
        requires
            old(self).wf(),
        ensures
            final(self).wf(),
            final(self).lookup(k@) is None,
            forall|k2: Seq<char>| k2 != k@ ==> #[trigger] final(self).lookup(k2) == old(
                self,
            ).lookup(k2),
    {
        let ghost ok = old(self).keys();
        let ghost op = old(self).policies();
        proof {
            lemma_find_key(ok, k@);
        }
        match self.index_of(k) {
            Some(i) => {
                self.entries.remove(i);
                proof {
                    let nk = self.keys();
                    assert(nk =~= ok.remove(i as int));
                    assert(self.policies() =~= op.remove(i as int));
                    assert(nk.no_duplicates()) by {
                        assert forall|a: int, b: int|
                            0 <= a < b < nk.len() implies nk[a] != nk[b] by {
                            let a2 = if a < i {
                                a
                            } else {
                                a + 1
                            };
                            let b2 = if b < i {
                                b
                            } else {
                                b + 1
                            };
                            assert(nk[a] == ok[a2] && nk[b] == ok[b2]);
                        }
                    }
                    lemma_find_key(nk, k@);
                    assert(!nk.contains(k@)) by {
                        if nk.contains(k@) {
                            let j = choose|j: int| 0 <= j < nk.len() && nk[j] == k@;
                            let j2 = if j < i {
                                j
                            } else {
                                j + 1
                            };
                            assert(ok[j2] == k@);
                            assert(ok[i as int] == k@);
                        }
                    }
                    assert forall|k2: Seq<char>| k2 != k@ implies #[trigger] self.lookup(k2)
                        == old(self).lookup(k2) by {
                        lemma_find_key(ok, k2);
                        lemma_find_key(nk, k2);
                        let f = find_key(ok, k2);
                        let g = find_key(nk, k2);
                        if f >= 0 {
                            assert(f != i);
                            let f2 = if f < i {
                                f
                            } else {
                                f - 1
                            };
                            assert(nk[f2] == k2);
                            assert(g >= 0);
                            let g2 = if g < i {
                                g
                            } else {
                                g + 1
                            };
                            assert(ok[g2] == k2);
                            assert(g2 == f);
                        } else {
                            if g >= 0 {
                                let g2 = if g < i {
                                    g
                                } else {
                                    g + 1
                                };
                                assert(ok[g2] == k2);
                                assert(ok.contains(k2));
                            }
                        }
                    }
                }
            },
            None => {},
        }
    }
}

} // verus!
