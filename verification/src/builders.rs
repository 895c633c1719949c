//! Chain builders: the rule templates behind network NAT and port forwarding.
//!
//! Both builders are pure: they only describe intended rule-table state, as a
//! sequence of [`Chain`] descriptors, and the result is pinned to a spec
//! function of the inputs, so repeated calls with equal inputs produce equal
//! chains (retries converge on the same names and rules).
use vstd::prelude::*;
use vstd::string::*;

use crate::chain::{Chain, ChainModel, ChainRule, ChainRuleModel, TeardownPolicy};
use crate::chain::{view_chains, view_rules};
use crate::decimal::{spec_dec, u16_dec};
use crate::naming::{
    chain_name, lemma_chain_name_length_bound, spec_chain_name, spec_truncated_hash,
    MAX_CHAIN_NAME_LEN, MAX_HASH_SIZE,
};
use crate::types::{PortForwardConfig, PortForwardConfigModel, PortMappingModel, Subnet, SubnetModel};

verus! {

/// Destinations excluded from masquerading: the multicast range of the
/// subnet's address family.
pub open spec fn spec_masquerade_exclusion(ipv6: bool) -> Seq<char> {
    if ipv6 {
        "ff00::/8"@
    } else {
        "224.0.0.0/4"@
    }
}

/// The network's own NAT chain: accepts traffic towards the subnet and
/// masquerades the rest.  Owned by the network, deleted on complete teardown.
pub open spec fn spec_network_nat_chain(subnet: SubnetModel, hash: Seq<char>, ipv6: bool) -> ChainModel {
    ChainModel {
        table: "nat"@,
        name: spec_chain_name("NETAVARK-"@, hash),
        ipv6,
        create: true,
        rules: seq![
            ChainRuleModel { rule: "-d "@ + subnet.cidr + " -j ACCEPT"@, td_policy: None },
            ChainRuleModel {
                rule: "! -d "@ + spec_masquerade_exclusion(ipv6) + " -j MASQUERADE"@,
                td_policy: None,
            },
        ],
        td_policy: Some(TeardownPolicy::OnComplete),
    }
}

/// The jump from the built-in `POSTROUTING` chain into the network's NAT
/// chain.  The chain is shared kernel infrastructure and never deleted; the
/// jump rule itself belongs to the network and is always removed.
pub open spec fn spec_postrouting_chain(subnet: SubnetModel, hash: Seq<char>, ipv6: bool) -> ChainModel {
    ChainModel {
        table: "nat"@,
        name: "POSTROUTING"@,
        ipv6,
        create: false,
        rules: seq![
            ChainRuleModel {
                rule: "-s "@ + subnet.cidr + " -j "@ + spec_chain_name("NETAVARK-"@, hash),
                td_policy: None,
            },
        ],
        td_policy: Some(TeardownPolicy::Never),
    }
}

/// The shared forwarding chain: per-subnet accept rules live here.  The chain
/// is shared by all networks and never deleted; its per-subnet rules belong
/// to the network and leave only on a complete teardown.
pub open spec fn spec_forward_isolation_chain(subnet: SubnetModel, ipv6: bool) -> ChainModel {
    ChainModel {
        table: "filter"@,
        name: "NETAVARK_FORWARD"@,
        ipv6,
        create: true,
        rules: seq![
            ChainRuleModel {
                rule: "-d "@ + subnet.cidr + " -m conntrack --ctstate RELATED,ESTABLISHED -j ACCEPT"@,
                td_policy: Some(TeardownPolicy::OnComplete),
            },
            ChainRuleModel {
                rule: "-s "@ + subnet.cidr + " -j ACCEPT"@,
                td_policy: Some(TeardownPolicy::OnComplete),
            },
        ],
        td_policy: Some(TeardownPolicy::Never),
    }
}

/// The jump from the built-in `FORWARD` chain into the shared forwarding
/// chain: process-wide dispatch, never created nor deleted here, and its one
/// rule is never removed.
pub open spec fn spec_forward_dispatch_chain(ipv6: bool) -> ChainModel {
    ChainModel {
        table: "filter"@,
        name: "FORWARD"@,
        ipv6,
        create: false,
        rules: seq![
            ChainRuleModel {
                rule: "-j NETAVARK_FORWARD"@,
                td_policy: Some(TeardownPolicy::Never),
            },
        ],
        td_policy: None,
    }
}

/// The chains that one subnet of one network needs, in application order.
pub open spec fn spec_network_chains(subnet: SubnetModel, hash: Seq<char>, ipv6: bool) -> Seq<ChainModel> {
    seq![
        spec_network_nat_chain(subnet, hash, ipv6),
        spec_postrouting_chain(subnet, hash, ipv6),
        spec_forward_isolation_chain(subnet, ipv6),
        spec_forward_dispatch_chain(ipv6),
    ]
}

/// Determinism: the chain set is a function of the subnet, the network hash
/// and the address family alone, so two builds from equal inputs agree in
/// every name and rule template.
pub proof fn lemma_network_chains_deterministic(
    c1: Seq<ChainModel>,
    c2: Seq<ChainModel>,
    subnet: SubnetModel,
    hash: Seq<char>,
    ipv6: bool,
)
    requires
        c1 == spec_network_chains(subnet, hash, ipv6),
        c2 == spec_network_chains(subnet, hash, ipv6),
    ensures
        c1 == c2,
{
}

/// Name-length bound: whatever the length of the network hash, every chain
/// name a builder generates stays within the platform ceiling, and the hash
/// contributes at most [`MAX_HASH_SIZE`] of its characters.
pub proof fn lemma_network_chain_names_bounded(subnet: SubnetModel, hash: Seq<char>, ipv6: bool)
    ensures
        forall|i: int|
            0 <= i < spec_network_chains(subnet, hash, ipv6).len()
                ==> (#[trigger] spec_network_chains(subnet, hash, ipv6)[i]).name.len()
                <= MAX_CHAIN_NAME_LEN,
        spec_truncated_hash(hash).len() <= MAX_HASH_SIZE,
{
    reveal_strlit("NETAVARK-");
    reveal_strlit("POSTROUTING");
    reveal_strlit("NETAVARK_FORWARD");
    reveal_strlit("FORWARD");
    lemma_chain_name_length_bound("NETAVARK-"@, hash);
    assert forall|i: int| 0 <= i < spec_network_chains(subnet, hash, ipv6).len() implies (
    #[trigger] spec_network_chains(subnet, hash, ipv6)[i]).name.len() <= MAX_CHAIN_NAME_LEN by {
        if i == 0 {
        } else if i == 1 {
        } else if i == 2 {
        } else {
        }
    }
}

/// Name-length bound for the port-forwarding chains, as in
/// [`lemma_network_chain_names_bounded`].
pub proof fn lemma_port_forwarding_chain_names_bounded(
    cfg: PortForwardConfigModel,
    ip: Seq<char>,
    subnet: SubnetModel,
    ipv6: bool,
)
    ensures
        forall|i: int|
            0 <= i < spec_port_forwarding_chains(cfg, ip, subnet, ipv6).len()
                ==> (#[trigger] spec_port_forwarding_chains(cfg, ip, subnet, ipv6)[i]).name.len()
                <= MAX_CHAIN_NAME_LEN,
        spec_truncated_hash(cfg.network_hash_name).len() <= MAX_HASH_SIZE,
{
    reveal_strlit("NETAVARK-DN-");
    reveal_strlit("NETAVARK-HOSTPORT-DNAT");
    reveal_strlit("PREROUTING");
    lemma_chain_name_length_bound("NETAVARK-DN-"@, cfg.network_hash_name);
    assert forall|i: int| 0 <= i < spec_port_forwarding_chains(cfg, ip, subnet, ipv6).len() implies (
    #[trigger] spec_port_forwarding_chains(cfg, ip, subnet, ipv6)[i]).name.len()
        <= MAX_CHAIN_NAME_LEN by {
        if i == 0 {
        } else if i == 1 {
        } else {
        }
    }
}

fn mk_rule(rule: String, td_policy: Option<TeardownPolicy>) -> (r: ChainRule)
    ensures
        r@ == (ChainRuleModel { rule: rule@, td_policy }),
{
    ChainRule { rule, td_policy }
}

/// Builds the chains for one subnet of one network.  The result is exactly
/// [`spec_network_chains`] of the inputs.
pub fn get_network_chains(subnet: &Subnet, network_hash_name: &str, is_ipv6: bool) -> (r: Vec<Chain>)
    ensures
        view_chains(r@) == spec_network_chains(subnet@, network_hash_name@, is_ipv6),
{
    let exclusion: &str = if is_ipv6 { "ff00::/8" } else { "224.0.0.0/4" };
    let nat_name = chain_name("NETAVARK-", network_hash_name);

    let mut nat_rules: Vec<ChainRule> = Vec::new();
    nat_rules.push(mk_rule(
        String::from_str("-d ").concat(subnet.cidr.as_str()).concat(" -j ACCEPT"),
        None,
    ));
    nat_rules.push(mk_rule(
        String::from_str("! -d ").concat(exclusion).concat(" -j MASQUERADE"),
        None,
    ));
    let nat_chain = Chain {
        table: String::from_str("nat"),
        name: nat_name,
        ipv6: is_ipv6,
        create: true,
        rules: nat_rules,
        td_policy: Some(TeardownPolicy::OnComplete),
    };
    proof {
        assert(view_rules(nat_chain.rules@) =~= spec_network_nat_chain(
            subnet@,
            network_hash_name@,
            is_ipv6,
        ).rules);
        assert(nat_chain@ == spec_network_nat_chain(subnet@, network_hash_name@, is_ipv6));
    }

    let jump_name = chain_name("NETAVARK-", network_hash_name);
    let mut post_rules: Vec<ChainRule> = Vec::new();
    post_rules.push(mk_rule(
        String::from_str("-s ").concat(subnet.cidr.as_str()).concat(" -j ").concat(
            jump_name.as_str(),
        ),
        None,
    ));
    let post_chain = Chain {
        table: String::from_str("nat"),
        name: String::from_str("POSTROUTING"),
        ipv6: is_ipv6,
        create: false,
        rules: post_rules,
        td_policy: Some(TeardownPolicy::Never),
    };
    proof {
        assert(view_rules(post_chain.rules@) =~= spec_postrouting_chain(
            subnet@,
            network_hash_name@,
            is_ipv6,
        ).rules);
        assert(post_chain@ == spec_postrouting_chain(subnet@, network_hash_name@, is_ipv6));
    }

    let mut fwd_rules: Vec<ChainRule> = Vec::new();
    fwd_rules.push(mk_rule(
        String::from_str("-d ").concat(subnet.cidr.as_str()).concat(
            " -m conntrack --ctstate RELATED,ESTABLISHED -j ACCEPT",
        ),
        Some(TeardownPolicy::OnComplete),
    ));
    fwd_rules.push(mk_rule(
        String::from_str("-s ").concat(subnet.cidr.as_str()).concat(" -j ACCEPT"),
        Some(TeardownPolicy::OnComplete),
    ));
    let fwd_chain = Chain {
        table: String::from_str("filter"),
        name: String::from_str("NETAVARK_FORWARD"),
        ipv6: is_ipv6,
        create: true,
        rules: fwd_rules,
        td_policy: Some(TeardownPolicy::Never),
    };
    proof {
        assert(view_rules(fwd_chain.rules@) =~= spec_forward_isolation_chain(
            subnet@,
            is_ipv6,
        ).rules);
        assert(fwd_chain@ == spec_forward_isolation_chain(subnet@, is_ipv6));
    }

    let mut dispatch_rules: Vec<ChainRule> = Vec::new();
    dispatch_rules.push(mk_rule(
        String::from_str("-j NETAVARK_FORWARD"),
        Some(TeardownPolicy::Never),
    ));
    let dispatch_chain = Chain {
        table: String::from_str("filter"),
        name: String::from_str("FORWARD"),
        ipv6: is_ipv6,
        create: false,
        rules: dispatch_rules,
        td_policy: None,
    };
    proof {
        assert(view_rules(dispatch_chain.rules@) =~= spec_forward_dispatch_chain(is_ipv6).rules);
        assert(dispatch_chain@ == spec_forward_dispatch_chain(is_ipv6));
    }

    let mut r: Vec<Chain> = Vec::new();
    r.push(nat_chain);
    r.push(post_chain);
    r.push(fwd_chain);
    r.push(dispatch_chain);
    proof {
        assert(view_chains(r@) =~= spec_network_chains(subnet@, network_hash_name@, is_ipv6));
    }
    r
}

/// The DNAT target for one container address and port, bracketed for IPv6.
pub open spec fn spec_ip_port_target(ip: Seq<char>, port: u16, ipv6: bool) -> Seq<char> {
    if ipv6 {
        "["@ + ip + "]:"@ + spec_dec(port as nat)
    } else {
        ip + ":"@ + spec_dec(port as nat)
    }
}

/// The two rules one port mapping contributes to the container's DNAT chain:
/// a hairpin masquerade for traffic from the subnet itself, and the DNAT
/// redirect to the container.  Both belong to this container alone.
pub open spec fn spec_dn_mapping_rules(
    m: PortMappingModel,
    cidr: Seq<char>,
    ip: Seq<char>,
    ipv6: bool,
) -> Seq<ChainRuleModel> {
    seq![
        ChainRuleModel {
            rule: "-s "@ + cidr + " -p "@ + m.protocol + " --dport "@ + spec_dec(
                m.host_port as nat,
            ) + " -j MASQUERADE"@,
            td_policy: None,
        },
        ChainRuleModel {
            rule: "-p "@ + m.protocol + " --dport "@ + spec_dec(m.host_port as nat)
                + " -j DNAT --to-destination "@ + spec_ip_port_target(ip, m.container_port, ipv6),
            td_policy: None,
        },
    ]
}

/// All rules of the container's DNAT chain, two per mapping, in order.
pub open spec fn spec_dn_rules(
    ms: Seq<PortMappingModel>,
    cidr: Seq<char>,
    ip: Seq<char>,
    ipv6: bool,
) -> Seq<ChainRuleModel>
    decreases ms.len(),
{
    if ms.len() == 0 {
        Seq::empty()
    } else {
        spec_dn_rules(ms.drop_last(), cidr, ip, ipv6) + spec_dn_mapping_rules(
            ms.last(),
            cidr,
            ip,
            ipv6,
        )
    }
}

/// The jump one port mapping contributes to the shared host-port dispatch
/// chain.  It leaves only when the network's forwarding context does.
pub open spec fn spec_jump_rule(m: PortMappingModel, dn_name: Seq<char>) -> ChainRuleModel {
    ChainRuleModel {
        rule: "-p "@ + m.protocol + " --dport "@ + spec_dec(m.host_port as nat) + " -j "@ + dn_name,
        td_policy: Some(TeardownPolicy::OnComplete),
    }
}

/// All jump rules of the shared host-port dispatch chain, one per mapping.
pub open spec fn spec_jump_rules(ms: Seq<PortMappingModel>, dn_name: Seq<char>) -> Seq<ChainRuleModel>
    decreases ms.len(),
{
    if ms.len() == 0 {
        Seq::empty()
    } else {
        spec_jump_rules(ms.drop_last(), dn_name).push(spec_jump_rule(ms.last(), dn_name))
    }
}

/// The container's own DNAT chain.  Owned by the forwarding context, deleted
/// on complete teardown.
pub open spec fn spec_dn_chain(
    cfg: PortForwardConfigModel,
    ip: Seq<char>,
    subnet: SubnetModel,
    ipv6: bool,
) -> ChainModel {
    ChainModel {
        table: "nat"@,
        name: spec_chain_name("NETAVARK-DN-"@, cfg.network_hash_name),
        ipv6,
        create: true,
        rules: spec_dn_rules(cfg.port_mappings, subnet.cidr, ip, ipv6),
        td_policy: Some(TeardownPolicy::OnComplete),
    }
}

/// The shared host-port dispatch chain holding one jump per forwarded port.
/// Shared by all containers, never deleted.
pub open spec fn spec_hostport_dnat_chain(cfg: PortForwardConfigModel, ipv6: bool) -> ChainModel {
    ChainModel {
        table: "nat"@,
        name: "NETAVARK-HOSTPORT-DNAT"@,
        ipv6,
        create: true,
        rules: spec_jump_rules(
            cfg.port_mappings,
            spec_chain_name("NETAVARK-DN-"@, cfg.network_hash_name),
        ),
        td_policy: Some(TeardownPolicy::Never),
    }
}

/// The jump from the built-in `PREROUTING` chain into the host-port dispatch
/// chain: process-wide dispatch, never created nor deleted here, its one rule
/// never removed.
pub open spec fn spec_prerouting_chain(ipv6: bool) -> ChainModel {
    ChainModel {
        table: "nat"@,
        name: "PREROUTING"@,
        ipv6,
        create: false,
        rules: seq![
            ChainRuleModel {
                rule: "-j NETAVARK-HOSTPORT-DNAT -m addrtype --dst-type LOCAL"@,
                td_policy: Some(TeardownPolicy::Never),
            },
        ],
        td_policy: None,
    }
}

/// The chains implementing the forwarded ports of one container address, in
/// application order.
pub open spec fn spec_port_forwarding_chains(
    cfg: PortForwardConfigModel,
    ip: Seq<char>,
    subnet: SubnetModel,
    ipv6: bool,
) -> Seq<ChainModel> {
    seq![
        spec_dn_chain(cfg, ip, subnet, ipv6),
        spec_hostport_dnat_chain(cfg, ipv6),
        spec_prerouting_chain(ipv6),
    ]
}

/// Builds the forwarding chains for one container address.  The result is
/// exactly [`spec_port_forwarding_chains`] of the inputs.
pub fn get_port_forwarding_chains(
    cfg: &PortForwardConfig,
    container_ip: &str,
    subnet: &Subnet,
    is_ipv6: bool,
) -> (r: Vec<Chain>)
    ensures
        view_chains(r@) == spec_port_forwarding_chains(cfg@, container_ip@, subnet@, is_ipv6),
{
    let dn_name = chain_name("NETAVARK-DN-", cfg.network_hash_name.as_str());
    let ghost ms = cfg@.port_mappings;

    let mut dn_rules: Vec<ChainRule> = Vec::new();
    let mut jump_rules: Vec<ChainRule> = Vec::new();
    let mut i: usize = 0;
    while i < cfg.port_mappings.len()
        invariant
            i <= cfg.port_mappings.len(),
            ms == cfg@.port_mappings,
            ms.len() == cfg.port_mappings@.len(),
            view_rules(dn_rules@) == spec_dn_rules(ms.take(i as int), subnet@.cidr, container_ip@, is_ipv6),
            view_rules(jump_rules@) == spec_jump_rules(ms.take(i as int), dn_name@),
        decreases cfg.port_mappings.len() - i,
    {
        let m = &cfg.port_mappings[i];
        let hp = u16_dec(m.host_port);
        let cp = u16_dec(m.container_port);
        let masq = String::from_str("-s ").concat(subnet.cidr.as_str()).concat(" -p ").concat(
            m.protocol.as_str(),
        ).concat(" --dport ").concat(hp.as_str()).concat(" -j MASQUERADE");
        let target = if is_ipv6 {
            String::from_str("[").concat(container_ip).concat("]:").concat(cp.as_str())
        } else {
            String::from_str(container_ip).concat(":").concat(cp.as_str())
        };
        let dnat = String::from_str("-p ").concat(m.protocol.as_str()).concat(" --dport ").concat(
            hp.as_str(),
        ).concat(" -j DNAT --to-destination ").concat(target.as_str());
        dn_rules.push(mk_rule(masq, None));
        dn_rules.push(mk_rule(dnat, None));
        let jump = String::from_str("-p ").concat(m.protocol.as_str()).concat(" --dport ").concat(
            hp.as_str(),
        ).concat(" -j ").concat(dn_name.as_str());
        jump_rules.push(mk_rule(jump, Some(TeardownPolicy::OnComplete)));
        proof {
            assert(ms.take(i as int + 1).drop_last() =~= ms.take(i as int));
            assert(ms.take(i as int + 1).last() == ms[i as int]);
            assert(ms[i as int] == cfg.port_mappings@[i as int]@);
            assert(view_rules(dn_rules@) =~= spec_dn_rules(
                ms.take(i as int + 1),
                subnet@.cidr,
                container_ip@,
                is_ipv6,
            ));
            assert(view_rules(jump_rules@) =~= spec_jump_rules(ms.take(i as int + 1), dn_name@));
        }
        i += 1;
    }
    proof {
        assert(ms.take(ms.len() as int) =~= ms);
    }

    let dn_chain = Chain {
        table: String::from_str("nat"),
        name: dn_name,
        ipv6: is_ipv6,
        create: true,
        rules: dn_rules,
        td_policy: Some(TeardownPolicy::OnComplete),
    };
    proof {
        assert(dn_chain@ == spec_dn_chain(cfg@, container_ip@, subnet@, is_ipv6));
    }

    let hostport_chain = Chain {
        table: String::from_str("nat"),
        name: String::from_str("NETAVARK-HOSTPORT-DNAT"),
        ipv6: is_ipv6,
        create: true,
        rules: jump_rules,
        td_policy: Some(TeardownPolicy::Never),
    };
    proof {
        assert(hostport_chain@ == spec_hostport_dnat_chain(cfg@, is_ipv6));
    }

    let mut pre_rules: Vec<ChainRule> = Vec::new();
    pre_rules.push(mk_rule(
        String::from_str("-j NETAVARK-HOSTPORT-DNAT -m addrtype --dst-type LOCAL"),
        Some(TeardownPolicy::Never),
    ));
    let pre_chain = Chain {
        table: String::from_str("nat"),
        name: String::from_str("PREROUTING"),
        ipv6: is_ipv6,
        create: false,
        rules: pre_rules,
        td_policy: None,
    };
    proof {
        assert(view_rules(pre_chain.rules@) =~= spec_prerouting_chain(is_ipv6).rules);
        assert(pre_chain@ == spec_prerouting_chain(is_ipv6));
    }

    let mut r: Vec<Chain> = Vec::new();
    r.push(dn_chain);
    r.push(hostport_chain);
    r.push(pre_chain);
    proof {
        assert(view_chains(r@) =~= spec_port_forwarding_chains(
            cfg@,
            container_ip@,
            subnet@,
            is_ipv6,
        ));
    }
    r
}

} // verus!
