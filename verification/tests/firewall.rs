use netavark_firewall::bridge::{add_firewalld_if_possible, rm_firewalld_if_possible};
use netavark_firewall::builders::{get_network_chains, get_port_forwarding_chains};
use netavark_firewall::chain::{rule_removed, should_remove_chain, Chain, TeardownPolicy};
use netavark_firewall::decimal::u16_dec;
use netavark_firewall::driver::validate_port_forward;
use netavark_firewall::naming::chain_name;
use netavark_firewall::types::{FirewallError, PortForwardConfig, PortMapping, Subnet};

fn v4_subnet() -> Subnet {
    Subnet { cidr: String::from("10.89.0.0/24"), ipv6: false }
}

fn v6_subnet() -> Subnet {
    Subnet { cidr: String::from("fd00::/64"), ipv6: true }
}

fn pf_config(
    v4: Option<&str>,
    sub4: Option<Subnet>,
    v6: Option<&str>,
    sub6: Option<Subnet>,
) -> PortForwardConfig {
    PortForwardConfig {
        network_hash_name: String::from("abc123"),
        container_ip_v4: v4.map(String::from),
        subnet_v4: sub4,
        container_ip_v6: v6.map(String::from),
        subnet_v6: sub6,
        port_mappings: vec![PortMapping {
            protocol: String::from("tcp"),
            host_port: 8080,
            container_port: 80,
        }],
    }
}

fn assert_chains_equal(a: &[Chain], b: &[Chain]) {
    assert_eq!(a.len(), b.len());
    for (ca, cb) in a.iter().zip(b.iter()) {
        assert_eq!(ca.table, cb.table);
        assert_eq!(ca.name, cb.name);
        assert_eq!(ca.ipv6, cb.ipv6);
        assert_eq!(ca.create, cb.create);
        assert_eq!(ca.td_policy, cb.td_policy);
        assert_eq!(ca.rules.len(), cb.rules.len());
        for (ra, rb) in ca.rules.iter().zip(cb.rules.iter()) {
            assert_eq!(ra.rule, rb.rule);
            assert_eq!(ra.td_policy, rb.td_policy);
        }
    }
}

#[test]
fn chain_name_keeps_short_hash() {
    let name = chain_name("NETAVARK-", "abc123");
    assert_eq!(name, "NETAVARK-abc123");
}

#[test]
fn chain_name_truncates_long_hash() {
    let hash = "0123456789abcdef0123456789abcdef01234567";
    let name = chain_name("NETAVARK-", hash);
    assert_eq!(name, "NETAVARK-0123456789abc");
    assert_eq!(name.len(), 9 + 13);
    assert!(name.len() <= 28);
}

#[test]
fn chain_name_is_deterministic() {
    let hash = "fedcba9876543210";
    assert_eq!(chain_name("NETAVARK-", hash), chain_name("NETAVARK-", hash));
}

#[test]
fn u16_decimal_notation() {
    assert_eq!(u16_dec(0), "0");
    assert_eq!(u16_dec(8), "8");
    assert_eq!(u16_dec(80), "80");
    assert_eq!(u16_dec(8080), "8080");
    assert_eq!(u16_dec(65535), "65535");
}

#[test]
fn network_chains_are_deterministic() {
    let subnet = v4_subnet();
    let a = get_network_chains(&subnet, "abc123", false);
    let b = get_network_chains(&subnet, "abc123", false);
    assert_chains_equal(&a, &b);
}

#[test]
fn network_chains_example_scenario() {
    let subnet = v4_subnet();
    let chains = get_network_chains(&subnet, "abc123", false);
    assert_eq!(chains.len(), 4);

    let nat = &chains[0];
    assert_eq!(nat.table, "nat");
    assert_eq!(nat.name, "NETAVARK-abc123");
    assert!(!nat.ipv6);
    assert!(nat.create);
    assert_eq!(nat.td_policy, Some(TeardownPolicy::OnComplete));
    assert_eq!(nat.rules.len(), 2);
    assert_eq!(nat.rules[0].rule, "-d 10.89.0.0/24 -j ACCEPT");
    assert_eq!(nat.rules[1].rule, "! -d 224.0.0.0/4 -j MASQUERADE");

    let post = &chains[1];
    assert_eq!(post.table, "nat");
    assert_eq!(post.name, "POSTROUTING");
    assert!(!post.create);
    assert_eq!(post.td_policy, Some(TeardownPolicy::Never));
    assert_eq!(post.rules.len(), 1);
    assert_eq!(post.rules[0].rule, "-s 10.89.0.0/24 -j NETAVARK-abc123");

    let fwd = &chains[2];
    assert_eq!(fwd.table, "filter");
    assert_eq!(fwd.name, "NETAVARK_FORWARD");
    assert_eq!(fwd.td_policy, Some(TeardownPolicy::Never));
    assert_eq!(fwd.rules.len(), 2);
    assert_eq!(
        fwd.rules[0].rule,
        "-d 10.89.0.0/24 -m conntrack --ctstate RELATED,ESTABLISHED -j ACCEPT"
    );
    assert_eq!(fwd.rules[0].td_policy, Some(TeardownPolicy::OnComplete));
    assert_eq!(fwd.rules[1].rule, "-s 10.89.0.0/24 -j ACCEPT");

    let dispatch = &chains[3];
    assert_eq!(dispatch.table, "filter");
    assert_eq!(dispatch.name, "FORWARD");
    assert_eq!(dispatch.td_policy, None);
    assert_eq!(dispatch.rules.len(), 1);
    assert_eq!(dispatch.rules[0].rule, "-j NETAVARK_FORWARD");
    assert_eq!(dispatch.rules[0].td_policy, Some(TeardownPolicy::Never));
}

#[test]
fn network_chains_ipv6_uses_ipv6_exclusion() {
    let subnet = v6_subnet();
    let chains = get_network_chains(&subnet, "abc123", true);
    assert!(chains.iter().all(|c| c.ipv6));
    assert_eq!(chains[0].rules[1].rule, "! -d ff00::/8 -j MASQUERADE");
}

#[test]
fn chain_names_bounded_for_any_hash() {
    let long_hash = "a".repeat(200);
    let subnet = v4_subnet();
    for c in get_network_chains(&subnet, &long_hash, false) {
        assert!(c.name.len() <= 28);
    }
    let cfg = pf_config(Some("10.89.0.2"), Some(v4_subnet()), None, None);
    let mut cfg_long = cfg;
    cfg_long.network_hash_name = long_hash.clone();
    for c in get_port_forwarding_chains(&cfg_long, "10.89.0.2", &v4_subnet(), false) {
        assert!(c.name.len() <= 28);
    }
}

#[test]
fn port_forwarding_chains_example_scenario() {
    let cfg = pf_config(Some("10.89.0.2"), Some(v4_subnet()), None, None);
    let chains = get_port_forwarding_chains(&cfg, "10.89.0.2", &v4_subnet(), false);
    assert_eq!(chains.len(), 3);

    let dn = &chains[0];
    assert_eq!(dn.table, "nat");
    assert_eq!(dn.name, "NETAVARK-DN-abc123");
    assert!(dn.create);
    assert_eq!(dn.td_policy, Some(TeardownPolicy::OnComplete));
    assert_eq!(dn.rules.len(), 2);
    assert_eq!(dn.rules[0].rule, "-s 10.89.0.0/24 -p tcp --dport 8080 -j MASQUERADE");
    assert_eq!(
        dn.rules[1].rule,
        "-p tcp --dport 8080 -j DNAT --to-destination 10.89.0.2:80"
    );

    let dispatch = &chains[1];
    assert_eq!(dispatch.name, "NETAVARK-HOSTPORT-DNAT");
    assert_eq!(dispatch.td_policy, Some(TeardownPolicy::Never));
    assert_eq!(dispatch.rules.len(), 1);
    assert_eq!(dispatch.rules[0].rule, "-p tcp --dport 8080 -j NETAVARK-DN-abc123");
    assert_eq!(dispatch.rules[0].td_policy, Some(TeardownPolicy::OnComplete));

    let pre = &chains[2];
    assert_eq!(pre.name, "PREROUTING");
    assert_eq!(pre.td_policy, None);
    assert_eq!(pre.rules[0].rule, "-j NETAVARK-HOSTPORT-DNAT -m addrtype --dst-type LOCAL");
    assert_eq!(pre.rules[0].td_policy, Some(TeardownPolicy::Never));
}

#[test]
fn port_forwarding_chains_are_deterministic() {
    let cfg = pf_config(Some("10.89.0.2"), Some(v4_subnet()), None, None);
    let a = get_port_forwarding_chains(&cfg, "10.89.0.2", &v4_subnet(), false);
    let b = get_port_forwarding_chains(&cfg, "10.89.0.2", &v4_subnet(), false);
    assert_chains_equal(&a, &b);
}

#[test]
fn port_forwarding_ipv6_target_is_bracketed() {
    let cfg = pf_config(None, None, Some("fd00::2"), Some(v6_subnet()));
    let chains = get_port_forwarding_chains(&cfg, "fd00::2", &v6_subnet(), true);
    assert!(chains.iter().all(|c| c.ipv6));
    assert_eq!(
        chains[0].rules[1].rule,
        "-p tcp --dport 8080 -j DNAT --to-destination [fd00::2]:80"
    );
}

#[test]
fn dual_stack_v4_only_builds_no_ipv6_chain() {
    let chains = get_port_forwarding_chains(
        &pf_config(Some("10.89.0.2"), Some(v4_subnet()), None, None),
        "10.89.0.2",
        &v4_subnet(),
        false,
    );
    assert!(chains.iter().all(|c| !c.ipv6));
}

#[test]
fn policy_gating_rules() {
    assert!(rule_removed(&None, false));
    assert!(rule_removed(&None, true));
    assert!(!rule_removed(&Some(TeardownPolicy::Never), false));
    assert!(!rule_removed(&Some(TeardownPolicy::Never), true));
    assert!(!rule_removed(&Some(TeardownPolicy::OnComplete), false));
    assert!(rule_removed(&Some(TeardownPolicy::OnComplete), true));
}

#[test]
fn policy_gating_chains() {
    assert!(!should_remove_chain(&None, true));
    assert!(!should_remove_chain(&None, false));
    assert!(!should_remove_chain(&Some(TeardownPolicy::Never), true));
    assert!(!should_remove_chain(&Some(TeardownPolicy::Never), false));
    assert!(should_remove_chain(&Some(TeardownPolicy::OnComplete), true));
    assert!(!should_remove_chain(&Some(TeardownPolicy::OnComplete), false));
}

#[test]
fn port_forward_v4_address_without_subnet_is_rejected() {
    let cfg = pf_config(Some("10.89.0.2"), None, None, None);
    assert!(matches!(
        validate_port_forward(&cfg),
        Err(FirewallError::ConfigIpv4SubnetMissing)
    ));
}

#[test]
fn port_forward_v6_address_without_subnet_is_rejected() {
    let cfg = pf_config(None, None, Some("fd00::2"), None);
    assert!(matches!(
        validate_port_forward(&cfg),
        Err(FirewallError::ConfigIpv6SubnetMissing)
    ));
}

#[test]
fn port_forward_v4_violation_reported_before_v6() {
    let cfg = pf_config(Some("10.89.0.2"), None, Some("fd00::2"), None);
    assert!(matches!(
        validate_port_forward(&cfg),
        Err(FirewallError::ConfigIpv4SubnetMissing)
    ));
}

#[test]
fn port_forward_single_stack_requests_are_accepted() {
    let v4_only = pf_config(Some("10.89.0.2"), Some(v4_subnet()), None, None);
    assert!(validate_port_forward(&v4_only).is_ok());
    let v6_only = pf_config(None, None, Some("fd00::2"), Some(v6_subnet()));
    assert!(validate_port_forward(&v6_only).is_ok());
    let none = pf_config(None, None, None, None);
    assert!(validate_port_forward(&none).is_ok());
}

#[test]
fn bridge_failure_is_inert() {
    let subnet = v4_subnet();
    add_firewalld_if_possible(&subnet);
    rm_firewalld_if_possible(&subnet);
}

#[test]
fn error_messages() {
    let e = FirewallError::Table(String::from("bad rule"));
    assert_eq!(e.message(), "bad rule");
    assert_eq!(
        FirewallError::ConfigIpv4SubnetMissing.message(),
        "ipv4 address provided but no v4 subnet provided"
    );
    assert_eq!(
        FirewallError::ConfigIpv6SubnetMissing.message(),
        "ipv6 address provided but no v6 subnet provided"
    );
}

#[test]
fn port_forwarding_two_mappings_in_order() {
    let mut cfg = pf_config(Some("10.89.0.2"), Some(v4_subnet()), None, None);
    cfg.port_mappings.push(PortMapping {
        protocol: String::from("udp"),
        host_port: 53,
        container_port: 5353,
    });
    let chains = get_port_forwarding_chains(&cfg, "10.89.0.2", &v4_subnet(), false);
    let dn = &chains[0];
    assert_eq!(dn.rules.len(), 4);
    assert_eq!(dn.rules[0].rule, "-s 10.89.0.0/24 -p tcp --dport 8080 -j MASQUERADE");
    assert_eq!(
        dn.rules[1].rule,
        "-p tcp --dport 8080 -j DNAT --to-destination 10.89.0.2:80"
    );
    assert_eq!(dn.rules[2].rule, "-s 10.89.0.0/24 -p udp --dport 53 -j MASQUERADE");
    assert_eq!(
        dn.rules[3].rule,
        "-p udp --dport 53 -j DNAT --to-destination 10.89.0.2:5353"
    );
    let dispatch = &chains[1];
    assert_eq!(dispatch.rules.len(), 2);
    assert_eq!(dispatch.rules[0].rule, "-p tcp --dport 8080 -j NETAVARK-DN-abc123");
    assert_eq!(dispatch.rules[1].rule, "-p udp --dport 53 -j NETAVARK-DN-abc123");
}

#[test]
fn port_forwarding_without_mappings_builds_empty_chains() {
    let mut cfg = pf_config(Some("10.89.0.2"), Some(v4_subnet()), None, None);
    cfg.port_mappings.clear();
    let chains = get_port_forwarding_chains(&cfg, "10.89.0.2", &v4_subnet(), false);
    assert_eq!(chains.len(), 3);
    assert!(chains[0].rules.is_empty());
    assert!(chains[1].rules.is_empty());
    assert_eq!(chains[2].rules.len(), 1);
}
