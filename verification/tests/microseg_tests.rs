use caiman::microseg::{
    compile_policy, compile_rules, labels_to_identity, policy_key, proto_num,
    resolve_identities, LabelSelector, MapUpdate, MicroSegPolicy, PolicyAction, PolicyEvent,
    PolicyKey, PolicyMeta, PolicySpec, PolicyStore, PolicyVal, PortRule, Verdict,
};

fn pair(k: &str, v: &str) -> (String, String) {
    (k.to_string(), v.to_string())
}

fn selector(labels: &[(&str, &str)]) -> LabelSelector {
    LabelSelector { match_labels: labels.iter().map(|(k, v)| pair(k, v)).collect() }
}

fn policy(name: &str, action: PolicyAction, ports: Option<Vec<PortRule>>) -> MicroSegPolicy {
    MicroSegPolicy {
        metadata: PolicyMeta { name: name.to_string(), namespace: "prod".to_string() },
        spec: PolicySpec {
            priority: 10,
            action,
            from: vec![selector(&[("app", "web")])],
            to: vec![selector(&[("env", "prod")]), selector(&[("app", "web"), ("tier", "frontend")])],
            ports,
        },
    }
}

#[test]
fn identity_is_fnv32_of_sorted_labels() {
    assert_eq!(labels_to_identity(&[pair("app", "web")]), 1600443547);
    assert_eq!(labels_to_identity(&[pair("app", "web"), pair("tier", "frontend")]), 32131304);
}

#[test]
fn identity_ignores_label_order() {
    let a = labels_to_identity(&[pair("tier", "frontend"), pair("app", "web")]);
    let b = labels_to_identity(&[pair("app", "web"), pair("tier", "frontend")]);
    assert_eq!(a, b);
    assert!(labels_to_identity(&[]) >= 2);
}

#[test]
fn protocol_numbers() {
    assert_eq!(proto_num(Some("TCP")), 6);
    assert_eq!(proto_num(Some("udp")), 17);
    assert_eq!(proto_num(Some("ICMP")), 1);
    assert_eq!(proto_num(Some("sctp")), 0);
    assert_eq!(proto_num(None), 0);
}

#[test]
fn rules_expand_sources_destinations_and_ports() {
    let v = PolicyVal { verdict: Verdict::Deny, priority: 3, rule_id: 0 };
    let r = compile_rules(&[1, 2], &[7, 8, 9], &[(6, 443), (17, 53)], v);
    assert_eq!(r.len(), 12);
    assert_eq!(r[0].0, PolicyKey { src_id: 1, dst_id: 7, proto: 6, dst_port: 443 });
    assert_eq!(r[1].0, PolicyKey { src_id: 1, dst_id: 7, proto: 17, dst_port: 53 });
    assert_eq!(r[11].0, PolicyKey { src_id: 2, dst_id: 9, proto: 17, dst_port: 53 });
    let any = compile_rules(&[1], &[7, 8], &[], v);
    assert_eq!(any.len(), 2);
    assert_eq!(any[1].0, PolicyKey { src_id: 1, dst_id: 8, proto: 0, dst_port: 0 });
    assert!(compile_rules(&[], &[7], &[(6, 80)], v).is_empty());
}

#[test]
fn policies_compile_to_map_entries() {
    let ids = resolve_identities(&[selector(&[("app", "web")]), selector(&[("env", "prod")])]);
    assert_eq!(ids, vec![1600443547, 587031810]);
    let p = policy(
        "web-to-db",
        PolicyAction::Allow,
        Some(vec![
            PortRule { protocol: Some("TCP".to_string()), port: Some(5432) },
            PortRule { protocol: None, port: None },
        ]),
    );
    let r = compile_policy(&p);
    assert_eq!(r.len(), 4);
    assert_eq!(r[0].0, PolicyKey { src_id: 1600443547, dst_id: 587031810, proto: 6, dst_port: 5432 });
    assert_eq!(r[1].0, PolicyKey { src_id: 1600443547, dst_id: 587031810, proto: 0, dst_port: 0 });
    assert_eq!(r[2].0.dst_id, 32131304);
    assert_eq!(r[0].1, PolicyVal { verdict: Verdict::Allow, priority: 10, rule_id: 0 });
    let d = compile_policy(&policy("deny-all", PolicyAction::Deny, None));
    assert_eq!(d.len(), 2);
    assert_eq!(d[0].1.verdict, Verdict::Deny);
}

#[test]
fn store_keeps_one_policy_per_key() {
    let mut s = PolicyStore::new();
    assert_eq!(s.len(), 0);
    assert_eq!(policy_key(&policy("a", PolicyAction::Log, None).metadata), "prod/a");
    assert_eq!(s.apply(PolicyEvent::Added(policy("a", PolicyAction::Log, None))), MapUpdate::Compile(0));
    assert_eq!(s.apply(PolicyEvent::Added(policy("b", PolicyAction::Deny, None))), MapUpdate::Compile(1));
    assert_eq!(s.apply(PolicyEvent::Modified(policy("a", PolicyAction::Allow, None))), MapUpdate::Compile(0));
    assert_eq!(s.len(), 2);
    assert_eq!(s.policy_at(0).spec.action, PolicyAction::Allow);
    assert_eq!(s.apply(PolicyEvent::Deleted("prod/a".to_string())), MapUpdate::RecompileAll);
    assert_eq!(s.len(), 1);
    assert_eq!(s.policy_at(0).metadata.name, "b");
    assert_eq!(s.apply(PolicyEvent::Deleted("prod/zzz".to_string())), MapUpdate::RecompileAll);
    assert_eq!(s.len(), 1);
}
