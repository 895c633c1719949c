//! Mathematical model of the kernel rule table and the lifecycle transitions.
//!
//! The table is a map from a chain key (address family, table name, chain
//! name) to the ordered rules of that chain.  The transitions mirror the
//! chain operations of the driver: rule insertion checks for presence first,
//! rule removal and chain deletion tolerate absence, and removal is gated by
//! the teardown policies.  The laws at the end state the convergence
//! guarantees the driver owes its caller: repeating a setup or a teardown
//! changes nothing, teardown policies gate deletion exactly, and the two
//! address families never touch each other's chains.
use vstd::prelude::*;

use crate::chain::{spec_chain_removed, spec_rule_removed, ChainModel, ChainRuleModel, TeardownPolicy};
use crate::builders::{spec_network_chains, spec_port_forwarding_chains};
use crate::types::{
    PortForwardConfigModel, SetupNetworkModel, SubnetModel, TearDownNetworkModel,
    TeardownPortForwardModel,
};

verus! {

/// Identifies one chain: address family, rule table, chain name.
pub type ChainKey = (bool, Seq<char>, Seq<char>);

/// The modelled rule-table state: each existing chain's rules, in order.
pub type RuleTable = Map<ChainKey, Seq<Seq<char>>>;

/// The key of a chain descriptor.
pub open spec fn chain_key(c: ChainModel) -> ChainKey {
    (c.ipv6, c.table, c.name)
}

/// Whether chain `k` exists and holds rule `r`.
pub open spec fn table_has_rule(t: RuleTable, k: ChainKey, r: Seq<char>) -> bool {
    t.dom().contains(k) && t[k].contains(r)
}

/// Creates chain `k` empty when absent; otherwise changes nothing.
pub open spec fn table_ensure_chain(t: RuleTable, k: ChainKey) -> RuleTable {
    if t.dom().contains(k) {
        t
    } else {
        t.insert(k, Seq::empty())
    }
}

/// Appends rule `r` to chain `k` unless the chain already holds it; creates
/// the chain when absent.
pub open spec fn table_add_rule(t: RuleTable, k: ChainKey, r: Seq<char>) -> RuleTable {
    if !t.dom().contains(k) {
        t.insert(k, seq![r])
    } else if t[k].contains(r) {
        t
    } else {
        t.insert(k, t[k].push(r))
    }
}

/// `s` with every occurrence of `r` removed, order kept.
pub open spec fn rules_without(s: Seq<Seq<char>>, r: Seq<char>) -> Seq<Seq<char>>
    decreases s.len(),
{
    if s.len() == 0 {
        s
    } else if s.last() == r {
        rules_without(s.drop_last(), r)
    } else {
        rules_without(s.drop_last(), r).push(s.last())
    }
}

/// Deletes rule `r` from chain `k`; a missing chain or rule changes nothing.
pub open spec fn table_remove_rule(t: RuleTable, k: ChainKey, r: Seq<char>) -> RuleTable {
    if t.dom().contains(k) && t[k].contains(r) {
        t.insert(k, rules_without(t[k], r))
    } else {
        t
    }
}

/// Deletes chain `k`; a missing chain changes nothing.
pub open spec fn table_delete_chain(t: RuleTable, k: ChainKey) -> RuleTable {
    if t.dom().contains(k) {
        t.remove(k)
    } else {
        t
    }
}

/// Adds the rules to chain `k` in order, each only when absent.
pub open spec fn add_rules_seq(t: RuleTable, k: ChainKey, rs: Seq<ChainRuleModel>) -> RuleTable
    decreases rs.len(),
{
    if rs.len() == 0 {
        t
    } else {
        table_add_rule(add_rules_seq(t, k, rs.drop_last()), k, rs.last().rule)
    }
}

/// What one chain's `add_rules` intends: the chain exists and holds its rule
/// templates.
pub open spec fn chain_apply_add(t: RuleTable, c: ChainModel) -> RuleTable {
    add_rules_seq(table_ensure_chain(t, chain_key(c)), chain_key(c), c.rules)
}

/// Removes the chain's rules whose policy admits removal under `complete`.
pub open spec fn remove_rules_seq(
    t: RuleTable,
    k: ChainKey,
    rs: Seq<ChainRuleModel>,
    complete: bool,
) -> RuleTable
    decreases rs.len(),
{
    if rs.len() == 0 {
        t
    } else {
        let t1 = remove_rules_seq(t, k, rs.drop_last(), complete);
        if spec_rule_removed(rs.last().td_policy, complete) {
            table_remove_rule(t1, k, rs.last().rule)
        } else {
            t1
        }
    }
}

/// What one chain's `remove_rules` intends.
pub open spec fn chain_apply_remove_rules(t: RuleTable, c: ChainModel, complete: bool) -> RuleTable {
    remove_rules_seq(t, chain_key(c), c.rules, complete)
}

/// What the policy-gated chain deletion intends.
pub open spec fn chain_apply_delete(t: RuleTable, c: ChainModel, complete: bool) -> RuleTable {
    if spec_chain_removed(c.td_policy, complete) {
        table_delete_chain(t, chain_key(c))
    } else {
        t
    }
}

/// Applies `add_rules` for every chain, in order.
pub open spec fn chains_apply_add(t: RuleTable, cs: Seq<ChainModel>) -> RuleTable
    decreases cs.len(),
{
    if cs.len() == 0 {
        t
    } else {
        chain_apply_add(chains_apply_add(t, cs.drop_last()), cs.last())
    }
}

/// Applies `remove_rules` for every chain, in order.
pub open spec fn chains_apply_remove_rules(t: RuleTable, cs: Seq<ChainModel>, complete: bool) -> RuleTable
    decreases cs.len(),
{
    if cs.len() == 0 {
        t
    } else {
        chain_apply_remove_rules(chains_apply_remove_rules(t, cs.drop_last(), complete), cs.last(), complete)
    }
}

/// Applies the policy-gated deletion for every chain, in order.
pub open spec fn chains_apply_delete(t: RuleTable, cs: Seq<ChainModel>, complete: bool) -> RuleTable
    decreases cs.len(),
{
    if cs.len() == 0 {
        t
    } else {
        chain_apply_delete(chains_apply_delete(t, cs.drop_last(), complete), cs.last(), complete)
    }
}

/// A full teardown pass over a chain set: first every chain's rules, gated by
/// `rules_complete`, then every chain itself, gated by `delete_complete`.
pub open spec fn chains_teardown(
    t: RuleTable,
    cs: Seq<ChainModel>,
    rules_complete: bool,
    delete_complete: bool,
) -> RuleTable {
    chains_apply_delete(chains_apply_remove_rules(t, cs, rules_complete), cs, delete_complete)
}

/// The chains of one subnet of a network.
pub open spec fn subnet_chains(s: SubnetModel, hash: Seq<char>) -> Seq<ChainModel> {
    spec_network_chains(s, hash, s.ipv6)
}

/// Network setup over all subnets, in order.
pub open spec fn setup_subnets(t: RuleTable, subs: Seq<SubnetModel>, hash: Seq<char>) -> RuleTable
    decreases subs.len(),
{
    if subs.len() == 0 {
        t
    } else {
        chains_apply_add(setup_subnets(t, subs.drop_last(), hash), subnet_chains(subs.last(), hash))
    }
}

/// The end state `setup_network` intends for a request.
pub open spec fn spec_setup_network(t: RuleTable, req: SetupNetworkModel) -> RuleTable {
    match req.net.subnets {
        None => t,
        Some(subs) => setup_subnets(t, subs, req.network_hash_name),
    }
}

/// Network teardown over all subnets, in order.  Rule removal runs with the
/// complete flag fixed to true: this path is defined for complete network
/// removal only.  Chain deletion is still gated by the request's own flag.
pub open spec fn teardown_subnets(
    t: RuleTable,
    subs: Seq<SubnetModel>,
    hash: Seq<char>,
    complete: bool,
) -> RuleTable
    decreases subs.len(),
{
    if subs.len() == 0 {
        t
    } else {
        chains_teardown(
            teardown_subnets(t, subs.drop_last(), hash, complete),
            subnet_chains(subs.last(), hash),
            true,
            complete,
        )
    }
}

/// The end state `teardown_network` intends for a request.
pub open spec fn spec_teardown_network(t: RuleTable, req: TearDownNetworkModel) -> RuleTable {
    match req.config.net.subnets {
        None => t,
        Some(subs) => teardown_subnets(t, subs, req.config.network_hash_name, req.complete_teardown),
    }
}

/// The port-forwarding chains a request asks for: the IPv4 set when an IPv4
/// address with its subnet is present, then the IPv6 set likewise.
pub open spec fn spec_pf_chain_list(cfg: PortForwardConfigModel) -> Seq<ChainModel> {
    (match (cfg.container_ip_v4, cfg.subnet_v4) {
        (Some(ip), Some(sub)) => spec_port_forwarding_chains(cfg, ip, sub, false),
        _ => Seq::empty(),
    }) + (match (cfg.container_ip_v6, cfg.subnet_v6) {
        (Some(ip), Some(sub)) => spec_port_forwarding_chains(cfg, ip, sub, true),
        _ => Seq::empty(),
    })
}

/// The end state `setup_port_forward` intends for a valid request.
pub open spec fn spec_setup_port_forward(t: RuleTable, cfg: PortForwardConfigModel) -> RuleTable {
    chains_apply_add(t, spec_pf_chain_list(cfg))
}

/// The end state `teardown_port_forward` intends for a valid request.
pub open spec fn spec_teardown_port_forward(t: RuleTable, tear: TeardownPortForwardModel) -> RuleTable {
    chains_teardown(t, spec_pf_chain_list(tear.config), tear.complete_teardown, tear.complete_teardown)
}

/// Chain `c` is saturated in `t`: it exists and holds each of its templates.
pub open spec fn chain_saturated(t: RuleTable, c: ChainModel) -> bool {
    &&& t.dom().contains(chain_key(c))
    &&& forall|i: int|
        0 <= i < c.rules.len() ==> table_has_rule(t, chain_key(c), (#[trigger] c.rules[i]).rule)
}

/// Every chain of `cs` is saturated in `t`.
pub open spec fn chains_all_saturated(t: RuleTable, cs: Seq<ChainModel>) -> bool {
    forall|j: int| 0 <= j < cs.len() ==> chain_saturated(t, #[trigger] cs[j])
}

proof fn lemma_add_rule_preserves(t: RuleTable, k: ChainKey, r: Seq<char>, k2: ChainKey, r2: Seq<char>)
    ensures
        t.dom().contains(k2) ==> table_add_rule(t, k, r).dom().contains(k2),
        table_has_rule(t, k2, r2) ==> table_has_rule(table_add_rule(t, k, r), k2, r2),
        table_has_rule(table_add_rule(t, k, r), k, r),
{
    let t1 = table_add_rule(t, k, r);
    if table_has_rule(t, k2, r2) && k2 == k && !t[k].contains(r) {
        let i = choose|i: int| 0 <= i < t[k].len() && t[k][i] == r2;
        assert(t[k].push(r)[i] == r2);
    }
    if !t.dom().contains(k) {
        assert(t1[k] == seq![r]);
        assert(t1[k][0] == r);
    } else if !t[k].contains(r) {
        assert(t1[k] == t[k].push(r));
        assert(t1[k][t[k].len() as int] == r);
    }
}

proof fn lemma_add_rules_seq_preserves(
    t: RuleTable,
    k: ChainKey,
    rs: Seq<ChainRuleModel>,
    k2: ChainKey,
    r2: Seq<char>,
)
    ensures
        t.dom().contains(k2) ==> add_rules_seq(t, k, rs).dom().contains(k2),
        table_has_rule(t, k2, r2) ==> table_has_rule(add_rules_seq(t, k, rs), k2, r2),
    decreases rs.len(),
{
    if rs.len() > 0 {
        lemma_add_rules_seq_preserves(t, k, rs.drop_last(), k2, r2);
        lemma_add_rule_preserves(add_rules_seq(t, k, rs.drop_last()), k, rs.last().rule, k2, r2);
    }
}

proof fn lemma_add_rules_seq_saturates(t: RuleTable, k: ChainKey, rs: Seq<ChainRuleModel>)
    ensures
        t.dom().contains(k) ==> add_rules_seq(t, k, rs).dom().contains(k),
        forall|i: int|
            0 <= i < rs.len() ==> table_has_rule(add_rules_seq(t, k, rs), k, (#[trigger] rs[i]).rule),
    decreases rs.len(),
{
    if rs.len() > 0 {
        let tp = add_rules_seq(t, k, rs.drop_last());
        lemma_add_rules_seq_saturates(t, k, rs.drop_last());
        assert forall|i: int|
            0 <= i < rs.len() implies table_has_rule(
            add_rules_seq(t, k, rs),
            k,
            (#[trigger] rs[i]).rule,
        ) by {
            lemma_add_rule_preserves(tp, k, rs.last().rule, k, rs[i].rule);
            if i < rs.len() - 1 {
                assert(rs.drop_last()[i] == rs[i]);
            } else {
                assert(rs[i] == rs.last());
            }
        }
    }
}

proof fn lemma_chain_apply_add_preserves(t: RuleTable, c: ChainModel, k2: ChainKey, r2: Seq<char>)
    ensures
        t.dom().contains(k2) ==> chain_apply_add(t, c).dom().contains(k2),
        table_has_rule(t, k2, r2) ==> table_has_rule(chain_apply_add(t, c), k2, r2),
{
    lemma_add_rules_seq_preserves(table_ensure_chain(t, chain_key(c)), chain_key(c), c.rules, k2, r2);
}

proof fn lemma_chain_apply_add_saturates(t: RuleTable, c: ChainModel)
    ensures
        chain_saturated(chain_apply_add(t, c), c),
{
    let k = chain_key(c);
    let t0 = table_ensure_chain(t, k);
    assert(t0.dom().contains(k));
    lemma_add_rules_seq_saturates(t0, k, c.rules);
}

proof fn lemma_chain_apply_add_preserves_saturated(t: RuleTable, c: ChainModel, c2: ChainModel)
    requires
        chain_saturated(t, c2),
    ensures
        chain_saturated(chain_apply_add(t, c), c2),
{
    lemma_chain_apply_add_preserves(t, c, chain_key(c2), Seq::empty());
    assert forall|i: int|
        0 <= i < c2.rules.len() implies table_has_rule(
        chain_apply_add(t, c),
        chain_key(c2),
        (#[trigger] c2.rules[i]).rule,
    ) by {
        lemma_chain_apply_add_preserves(t, c, chain_key(c2), c2.rules[i].rule);
    }
}

proof fn lemma_chains_apply_add_preserves_saturated(t: RuleTable, cs: Seq<ChainModel>, c2: ChainModel)
    requires
        chain_saturated(t, c2),
    ensures
        chain_saturated(chains_apply_add(t, cs), c2),
    decreases cs.len(),
{
    if cs.len() > 0 {
        lemma_chains_apply_add_preserves_saturated(t, cs.drop_last(), c2);
        lemma_chain_apply_add_preserves_saturated(chains_apply_add(t, cs.drop_last()), cs.last(), c2);
    }
}

proof fn lemma_chains_apply_add_saturates_all(t: RuleTable, cs: Seq<ChainModel>)
    ensures
        chains_all_saturated(chains_apply_add(t, cs), cs),
    decreases cs.len(),
{
    if cs.len() > 0 {
        let tp = chains_apply_add(t, cs.drop_last());
        lemma_chains_apply_add_saturates_all(t, cs.drop_last());
        assert forall|j: int|
            0 <= j < cs.len() implies chain_saturated(chains_apply_add(t, cs), #[trigger] cs[j]) by {
            if j < cs.len() - 1 {
                assert(cs.drop_last()[j] == cs[j]);
                assert(chain_saturated(tp, cs[j]));
                lemma_chain_apply_add_preserves_saturated(tp, cs.last(), cs[j]);
            } else {
                lemma_chain_apply_add_saturates(tp, cs.last());
                assert(cs[j] == cs.last());
            }
        }
    }
}

proof fn lemma_add_rules_seq_noop(t: RuleTable, k: ChainKey, rs: Seq<ChainRuleModel>)
    requires
        forall|i: int| 0 <= i < rs.len() ==> table_has_rule(t, k, (#[trigger] rs[i]).rule),
    ensures
        add_rules_seq(t, k, rs) == t,
    decreases rs.len(),
{
    if rs.len() > 0 {
        assert forall|i: int|
            0 <= i < rs.drop_last().len() implies table_has_rule(
            t,
            k,
            (#[trigger] rs.drop_last()[i]).rule,
        ) by {
            assert(rs.drop_last()[i] == rs[i]);
        }
        lemma_add_rules_seq_noop(t, k, rs.drop_last());
        assert(table_has_rule(t, k, rs.last().rule));
    }
}

proof fn lemma_chain_apply_add_noop(t: RuleTable, c: ChainModel)
    requires
        chain_saturated(t, c),
    ensures
        chain_apply_add(t, c) == t,
{
    lemma_add_rules_seq_noop(t, chain_key(c), c.rules);
}

proof fn lemma_chains_apply_add_noop(t: RuleTable, cs: Seq<ChainModel>)
    requires
        chains_all_saturated(t, cs),
    ensures
        chains_apply_add(t, cs) == t,
    decreases cs.len(),
{
    if cs.len() > 0 {
        assert forall|j: int|
            0 <= j < cs.drop_last().len() implies chain_saturated(t, #[trigger] cs.drop_last()[j]) by {
            assert(cs.drop_last()[j] == cs[j]);
        }
        lemma_chains_apply_add_noop(t, cs.drop_last());
        assert(chain_saturated(t, cs.last()));
        lemma_chain_apply_add_noop(t, cs.last());
    }
}

/// Applying the setup of a chain set twice leaves exactly the state of
/// applying it once: the second pass finds every chain present and every rule
/// already in place.
pub proof fn lemma_chains_setup_idempotent(t: RuleTable, cs: Seq<ChainModel>)
    ensures
        chains_apply_add(chains_apply_add(t, cs), cs) == chains_apply_add(t, cs),
{
    lemma_chains_apply_add_saturates_all(t, cs);
    lemma_chains_apply_add_noop(chains_apply_add(t, cs), cs);
}

proof fn lemma_setup_subnets_preserves_saturated(
    t: RuleTable,
    subs: Seq<SubnetModel>,
    hash: Seq<char>,
    c2: ChainModel,
)
    requires
        chain_saturated(t, c2),
    ensures
        chain_saturated(setup_subnets(t, subs, hash), c2),
    decreases subs.len(),
{
    if subs.len() > 0 {
        lemma_setup_subnets_preserves_saturated(t, subs.drop_last(), hash, c2);
        lemma_chains_apply_add_preserves_saturated(
            setup_subnets(t, subs.drop_last(), hash),
            subnet_chains(subs.last(), hash),
            c2,
        );
    }
}

proof fn lemma_setup_subnets_saturates_all(t: RuleTable, subs: Seq<SubnetModel>, hash: Seq<char>)
    ensures
        forall|j: int|
            0 <= j < subs.len() ==> chains_all_saturated(
                setup_subnets(t, subs, hash),
                subnet_chains(#[trigger] subs[j], hash),
            ),
    decreases subs.len(),
{
    if subs.len() > 0 {
        let tp = setup_subnets(t, subs.drop_last(), hash);
        lemma_setup_subnets_saturates_all(t, subs.drop_last(), hash);
        assert forall|j: int|
            0 <= j < subs.len() implies chains_all_saturated(
            setup_subnets(t, subs, hash),
            subnet_chains(#[trigger] subs[j], hash),
        ) by {
            let cs = subnet_chains(subs[j], hash);
            if j < subs.len() - 1 {
                assert(subs.drop_last()[j] == subs[j]);
                assert(chains_all_saturated(tp, cs));
                assert forall|i: int|
                    0 <= i < cs.len() implies chain_saturated(
                    setup_subnets(t, subs, hash),
                    #[trigger] cs[i],
                ) by {
                    lemma_chains_apply_add_preserves_saturated(
                        tp,
                        subnet_chains(subs.last(), hash),
                        cs[i],
                    );
                }
            } else {
                assert(subs[j] == subs.last());
                lemma_chains_apply_add_saturates_all(tp, cs);
            }
        }
    }
}

proof fn lemma_setup_subnets_noop(t: RuleTable, subs: Seq<SubnetModel>, hash: Seq<char>)
    requires
        forall|j: int|
            0 <= j < subs.len() ==> chains_all_saturated(t, subnet_chains(#[trigger] subs[j], hash)),
    ensures
        setup_subnets(t, subs, hash) == t,
    decreases subs.len(),
{
    if subs.len() > 0 {
        assert forall|j: int|
            0 <= j < subs.drop_last().len() implies chains_all_saturated(
            t,
            subnet_chains(#[trigger] subs.drop_last()[j], hash),
        ) by {
            assert(subs.drop_last()[j] == subs[j]);
        }
        lemma_setup_subnets_noop(t, subs.drop_last(), hash);
        assert(chains_all_saturated(t, subnet_chains(subs.last(), hash)));
        lemma_chains_apply_add_noop(t, subnet_chains(subs.last(), hash));
    }
}

/// Idempotent setup: running `setup_network` twice with the same request
/// intends the same rule-table end state as running it once, so a retry after
/// a success adds no duplicate rule and no duplicate chain.
pub proof fn lemma_setup_network_idempotent(t: RuleTable, req: SetupNetworkModel)
    ensures
        spec_setup_network(spec_setup_network(t, req), req) == spec_setup_network(t, req),
{
    match req.net.subnets {
        None => {},
        Some(subs) => {
            lemma_setup_subnets_saturates_all(t, subs, req.network_hash_name);
            lemma_setup_subnets_noop(
                setup_subnets(t, subs, req.network_hash_name),
                subs,
                req.network_hash_name,
            );
        },
    }
}

/// Idempotent setup for port forwarding: as in
/// [`lemma_setup_network_idempotent`].
pub proof fn lemma_setup_port_forward_idempotent(t: RuleTable, cfg: PortForwardConfigModel)
    ensures
        spec_setup_port_forward(spec_setup_port_forward(t, cfg), cfg) == spec_setup_port_forward(
            t,
            cfg,
        ),
{
    lemma_chains_setup_idempotent(t, spec_pf_chain_list(cfg));
}

proof fn lemma_add_rules_seq_frame(t: RuleTable, k: ChainKey, rs: Seq<ChainRuleModel>, k2: ChainKey)
    requires
        k != k2,
    ensures
        add_rules_seq(t, k, rs).dom().contains(k2) == t.dom().contains(k2),
        t.dom().contains(k2) ==> add_rules_seq(t, k, rs)[k2] == t[k2],
    decreases rs.len(),
{
    if rs.len() > 0 {
        lemma_add_rules_seq_frame(t, k, rs.drop_last(), k2);
    }
}

proof fn lemma_chain_apply_add_frame(t: RuleTable, c: ChainModel, k2: ChainKey)
    requires
        chain_key(c) != k2,
    ensures
        chain_apply_add(t, c).dom().contains(k2) == t.dom().contains(k2),
        t.dom().contains(k2) ==> chain_apply_add(t, c)[k2] == t[k2],
{
    lemma_add_rules_seq_frame(table_ensure_chain(t, chain_key(c)), chain_key(c), c.rules, k2);
}

proof fn lemma_chains_apply_add_frame(t: RuleTable, cs: Seq<ChainModel>, k2: ChainKey)
    requires
        forall|j: int| 0 <= j < cs.len() ==> chain_key(#[trigger] cs[j]) != k2,
    ensures
        chains_apply_add(t, cs).dom().contains(k2) == t.dom().contains(k2),
        t.dom().contains(k2) ==> chains_apply_add(t, cs)[k2] == t[k2],
    decreases cs.len(),
{
    if cs.len() > 0 {
        assert forall|j: int|
            0 <= j < cs.drop_last().len() implies chain_key(#[trigger] cs.drop_last()[j]) != k2 by {
            assert(cs.drop_last()[j] == cs[j]);
        }
        lemma_chains_apply_add_frame(t, cs.drop_last(), k2);
        assert(chain_key(cs.last()) != k2);
        lemma_chain_apply_add_frame(chains_apply_add(t, cs.drop_last()), cs.last(), k2);
    }
}

/// Dual-stack independence, IPv4 side: a request carrying no IPv6 address
/// touches no IPv6 chain — every IPv6 key keeps exactly the chains and rules
/// it had.
pub proof fn lemma_dual_stack_v4_only(t: RuleTable, cfg: PortForwardConfigModel, k: ChainKey)
    requires
        cfg.container_ip_v6 is None || cfg.subnet_v6 is None,
        k.0 == true,
    ensures
        spec_setup_port_forward(t, cfg).dom().contains(k) == t.dom().contains(k),
        t.dom().contains(k) ==> spec_setup_port_forward(t, cfg)[k] == t[k],
{
    let cs = spec_pf_chain_list(cfg);
    assert forall|j: int| 0 <= j < cs.len() implies chain_key(#[trigger] cs[j]) != k by {
        assert(cs[j].ipv6 == false);
    }
    lemma_chains_apply_add_frame(t, cs, k);
}

/// Dual-stack independence, IPv6 side: a request carrying no IPv4 address
/// touches no IPv4 chain.
pub proof fn lemma_dual_stack_v6_only(t: RuleTable, cfg: PortForwardConfigModel, k: ChainKey)
    requires
        cfg.container_ip_v4 is None || cfg.subnet_v4 is None,
        k.0 == false,
    ensures
        spec_setup_port_forward(t, cfg).dom().contains(k) == t.dom().contains(k),
        t.dom().contains(k) ==> spec_setup_port_forward(t, cfg)[k] == t[k],
{
    let cs = spec_pf_chain_list(cfg);
    assert forall|j: int| 0 <= j < cs.len() implies chain_key(#[trigger] cs[j]) != k by {
        assert(cs[j].ipv6 == true);
    }
    lemma_chains_apply_add_frame(t, cs, k);
}

/// Chain `c` is cleaned in `t` for scope `complete`: none of its removable
/// rules is present any more.
pub open spec fn chain_cleaned(t: RuleTable, c: ChainModel, complete: bool) -> bool {
    forall|i: int|
        0 <= i < c.rules.len() && spec_rule_removed((#[trigger] c.rules[i]).td_policy, complete)
            ==> !table_has_rule(t, chain_key(c), c.rules[i].rule)
}

/// The policy-gated deletion of chain `c` has nothing left to do in `t`.
pub open spec fn chain_delete_done(t: RuleTable, c: ChainModel, complete: bool) -> bool {
    spec_chain_removed(c.td_policy, complete) ==> !t.dom().contains(chain_key(c))
}

/// Every chain of `cs` is cleaned in `t`.
pub open spec fn chains_all_cleaned(t: RuleTable, cs: Seq<ChainModel>, complete: bool) -> bool {
    forall|j: int| 0 <= j < cs.len() ==> chain_cleaned(t, #[trigger] cs[j], complete)
}

/// Every chain of `cs` has its gated deletion done in `t`.
pub open spec fn chains_all_delete_done(t: RuleTable, cs: Seq<ChainModel>, complete: bool) -> bool {
    forall|j: int| 0 <= j < cs.len() ==> chain_delete_done(t, #[trigger] cs[j], complete)
}

proof fn lemma_rules_without_subset(s: Seq<Seq<char>>, r: Seq<char>, x: Seq<char>)
    ensures
        rules_without(s, r).contains(x) ==> s.contains(x),
    decreases s.len(),
{
    if s.len() > 0 {
        lemma_rules_without_subset(s.drop_last(), r, x);
        if rules_without(s, r).contains(x) {
            if s.last() == r {
                let i = choose|i: int|
                    0 <= i < s.drop_last().len() && s.drop_last()[i] == x;
                assert(s[i] == x);
            } else {
                let res = rules_without(s.drop_last(), r).push(s.last());
                let i = choose|i: int| 0 <= i < res.len() && res[i] == x;
                if i < res.len() - 1 {
                    assert(rules_without(s.drop_last(), r)[i] == x);
                    let i2 = choose|i2: int|
                        0 <= i2 < s.drop_last().len() && s.drop_last()[i2] == x;
                    assert(s[i2] == x);
                } else {
                    assert(s[s.len() - 1] == x);
                }
            }
        }
    }
}

proof fn lemma_rules_without_not_contains(s: Seq<Seq<char>>, r: Seq<char>)
    ensures
        !rules_without(s, r).contains(r),
    decreases s.len(),
{
    if s.len() > 0 {
        lemma_rules_without_not_contains(s.drop_last(), r);
        if s.last() != r {
            let res = rules_without(s.drop_last(), r).push(s.last());
            if res.contains(r) {
                let i = choose|i: int| 0 <= i < res.len() && res[i] == r;
                if i < res.len() - 1 {
                    assert(rules_without(s.drop_last(), r)[i] == r);
                } else {
                    assert(res[i] == s.last());
                }
            }
        }
    }
}

proof fn lemma_remove_rule_effects(t: RuleTable, k: ChainKey, r: Seq<char>, k2: ChainKey, r2: Seq<char>)
    ensures
        table_remove_rule(t, k, r).dom().contains(k2) == t.dom().contains(k2),
        !table_has_rule(t, k2, r2) ==> !table_has_rule(table_remove_rule(t, k, r), k2, r2),
        !table_has_rule(table_remove_rule(t, k, r), k, r),
{
    if t.dom().contains(k) && t[k].contains(r) {
        lemma_rules_without_not_contains(t[k], r);
        if !table_has_rule(t, k2, r2) && k2 == k {
            lemma_rules_without_subset(t[k], r, r2);
        }
    }
}

proof fn lemma_remove_rules_seq_preserves(
    t: RuleTable,
    k: ChainKey,
    rs: Seq<ChainRuleModel>,
    complete: bool,
    k2: ChainKey,
    r2: Seq<char>,
)
    ensures
        remove_rules_seq(t, k, rs, complete).dom().contains(k2) == t.dom().contains(k2),
        !table_has_rule(t, k2, r2) ==> !table_has_rule(remove_rules_seq(t, k, rs, complete), k2, r2),
    decreases rs.len(),
{
    if rs.len() > 0 {
        lemma_remove_rules_seq_preserves(t, k, rs.drop_last(), complete, k2, r2);
        if spec_rule_removed(rs.last().td_policy, complete) {
            lemma_remove_rule_effects(
                remove_rules_seq(t, k, rs.drop_last(), complete),
                k,
                rs.last().rule,
                k2,
                r2,
            );
        }
    }
}

proof fn lemma_remove_rules_seq_cleans(t: RuleTable, k: ChainKey, rs: Seq<ChainRuleModel>, complete: bool)
    ensures
        forall|i: int|
            0 <= i < rs.len() && spec_rule_removed((#[trigger] rs[i]).td_policy, complete)
                ==> !table_has_rule(remove_rules_seq(t, k, rs, complete), k, rs[i].rule),
    decreases rs.len(),
{
    if rs.len() > 0 {
        let tp = remove_rules_seq(t, k, rs.drop_last(), complete);
        lemma_remove_rules_seq_cleans(t, k, rs.drop_last(), complete);
        assert forall|i: int|
            0 <= i < rs.len() && spec_rule_removed((#[trigger] rs[i]).td_policy, complete) implies
            !table_has_rule(remove_rules_seq(t, k, rs, complete), k, rs[i].rule) by {
            if i < rs.len() - 1 {
                assert(rs.drop_last()[i] == rs[i]);
                if spec_rule_removed(rs.last().td_policy, complete) {
                    lemma_remove_rule_effects(tp, k, rs.last().rule, k, rs[i].rule);
                }
            } else {
                assert(rs[i] == rs.last());
                lemma_remove_rule_effects(tp, k, rs.last().rule, k, rs[i].rule);
            }
        }
    }
}

proof fn lemma_remove_rules_seq_noop(t: RuleTable, k: ChainKey, rs: Seq<ChainRuleModel>, complete: bool)
    requires
        forall|i: int|
            0 <= i < rs.len() && spec_rule_removed((#[trigger] rs[i]).td_policy, complete)
                ==> !table_has_rule(t, k, rs[i].rule),
    ensures
        remove_rules_seq(t, k, rs, complete) == t,
    decreases rs.len(),
{
    if rs.len() > 0 {
        assert forall|i: int|
            0 <= i < rs.drop_last().len() && spec_rule_removed(
            (#[trigger] rs.drop_last()[i]).td_policy,
            complete,
        ) implies !table_has_rule(t, k, rs.drop_last()[i].rule) by {
            assert(rs.drop_last()[i] == rs[i]);
        }
        lemma_remove_rules_seq_noop(t, k, rs.drop_last(), complete);
    }
}

proof fn lemma_chains_remove_rules_preserves(
    t: RuleTable,
    cs: Seq<ChainModel>,
    complete: bool,
    k2: ChainKey,
    r2: Seq<char>,
)
    ensures
        chains_apply_remove_rules(t, cs, complete).dom().contains(k2) == t.dom().contains(k2),
        !table_has_rule(t, k2, r2) ==> !table_has_rule(
            chains_apply_remove_rules(t, cs, complete),
            k2,
            r2,
        ),
    decreases cs.len(),
{
    if cs.len() > 0 {
        lemma_chains_remove_rules_preserves(t, cs.drop_last(), complete, k2, r2);
        lemma_remove_rules_seq_preserves(
            chains_apply_remove_rules(t, cs.drop_last(), complete),
            chain_key(cs.last()),
            cs.last().rules,
            complete,
            k2,
            r2,
        );
    }
}

proof fn lemma_chains_remove_rules_preserves_cleaned(
    t: RuleTable,
    cs: Seq<ChainModel>,
    complete: bool,
    c2: ChainModel,
    complete2: bool,
)
    requires
        chain_cleaned(t, c2, complete2),
    ensures
        chain_cleaned(chains_apply_remove_rules(t, cs, complete), c2, complete2),
{
    assert forall|i: int|
        0 <= i < c2.rules.len() && spec_rule_removed((#[trigger] c2.rules[i]).td_policy, complete2)
            implies !table_has_rule(
        chains_apply_remove_rules(t, cs, complete),
        chain_key(c2),
        c2.rules[i].rule,
    ) by {
        lemma_chains_remove_rules_preserves(t, cs, complete, chain_key(c2), c2.rules[i].rule);
    }
}

proof fn lemma_chains_remove_rules_cleans_all(t: RuleTable, cs: Seq<ChainModel>, complete: bool)
    ensures
        chains_all_cleaned(chains_apply_remove_rules(t, cs, complete), cs, complete),
    decreases cs.len(),
{
    if cs.len() > 0 {
        let tp = chains_apply_remove_rules(t, cs.drop_last(), complete);
        lemma_chains_remove_rules_cleans_all(t, cs.drop_last(), complete);
        assert forall|j: int|
            0 <= j < cs.len() implies chain_cleaned(
            chains_apply_remove_rules(t, cs, complete),
            #[trigger] cs[j],
            complete,
        ) by {
            if j < cs.len() - 1 {
                assert(cs.drop_last()[j] == cs[j]);
                assert(chain_cleaned(tp, cs[j], complete));
                assert forall|i: int|
                    0 <= i < cs[j].rules.len() && spec_rule_removed(
                    (#[trigger] cs[j].rules[i]).td_policy,
                    complete,
                ) implies !table_has_rule(
                    chains_apply_remove_rules(t, cs, complete),
                    chain_key(cs[j]),
                    cs[j].rules[i].rule,
                ) by {
                    lemma_remove_rules_seq_preserves(
                        tp,
                        chain_key(cs.last()),
                        cs.last().rules,
                        complete,
                        chain_key(cs[j]),
                        cs[j].rules[i].rule,
                    );
                }
            } else {
                assert(cs[j] == cs.last());
                lemma_remove_rules_seq_cleans(tp, chain_key(cs.last()), cs.last().rules, complete);
            }
        }
    }
}

proof fn lemma_chains_remove_rules_noop(t: RuleTable, cs: Seq<ChainModel>, complete: bool)
    requires
        chains_all_cleaned(t, cs, complete),
    ensures
        chains_apply_remove_rules(t, cs, complete) == t,
    decreases cs.len(),
{
    if cs.len() > 0 {
        assert forall|j: int|
            0 <= j < cs.drop_last().len() implies chain_cleaned(t, #[trigger] cs.drop_last()[j], complete) by {
            assert(cs.drop_last()[j] == cs[j]);
        }
        lemma_chains_remove_rules_noop(t, cs.drop_last(), complete);
        assert(chain_cleaned(t, cs.last(), complete));
        lemma_remove_rules_seq_noop(t, chain_key(cs.last()), cs.last().rules, complete);
    }
}

proof fn lemma_delete_chain_effects(t: RuleTable, k: ChainKey, k2: ChainKey, r2: Seq<char>)
    ensures
        !table_delete_chain(t, k).dom().contains(k),
        !t.dom().contains(k2) ==> !table_delete_chain(t, k).dom().contains(k2),
        !table_has_rule(t, k2, r2) ==> !table_has_rule(table_delete_chain(t, k), k2, r2),
{
}

proof fn lemma_chains_apply_delete_preserves_notdom(
    t: RuleTable,
    cs: Seq<ChainModel>,
    complete: bool,
    k2: ChainKey,
)
    requires
        !t.dom().contains(k2),
    ensures
        !chains_apply_delete(t, cs, complete).dom().contains(k2),
    decreases cs.len(),
{
    if cs.len() > 0 {
        lemma_chains_apply_delete_preserves_notdom(t, cs.drop_last(), complete, k2);
    }
}

proof fn lemma_chains_apply_delete_preserves_cleaned(
    t: RuleTable,
    cs: Seq<ChainModel>,
    complete: bool,
    c2: ChainModel,
    complete2: bool,
)
    requires
        chain_cleaned(t, c2, complete2),
    ensures
        chain_cleaned(chains_apply_delete(t, cs, complete), c2, complete2),
    decreases cs.len(),
{
    if cs.len() > 0 {
        lemma_chains_apply_delete_preserves_cleaned(t, cs.drop_last(), complete, c2, complete2);
    }
}

proof fn lemma_chains_apply_delete_done_all(t: RuleTable, cs: Seq<ChainModel>, complete: bool)
    ensures
        chains_all_delete_done(chains_apply_delete(t, cs, complete), cs, complete),
    decreases cs.len(),
{
    if cs.len() > 0 {
        let tp = chains_apply_delete(t, cs.drop_last(), complete);
        lemma_chains_apply_delete_done_all(t, cs.drop_last(), complete);
        assert forall|j: int|
            0 <= j < cs.len() implies chain_delete_done(
            chains_apply_delete(t, cs, complete),
            #[trigger] cs[j],
            complete,
        ) by {
            if j < cs.len() - 1 {
                assert(cs.drop_last()[j] == cs[j]);
                assert(chain_delete_done(tp, cs[j], complete));
            } else {
                assert(cs[j] == cs.last());
            }
        }
    }
}

proof fn lemma_chains_apply_delete_preserves_done(
    t: RuleTable,
    cs: Seq<ChainModel>,
    complete: bool,
    c2: ChainModel,
    complete2: bool,
)
    requires
        chain_delete_done(t, c2, complete2),
    ensures
        chain_delete_done(chains_apply_delete(t, cs, complete), c2, complete2),
{
    if spec_chain_removed(c2.td_policy, complete2) {
        lemma_chains_apply_delete_preserves_notdom(t, cs, complete, chain_key(c2));
    }
}

proof fn lemma_chains_apply_delete_noop(t: RuleTable, cs: Seq<ChainModel>, complete: bool)
    requires
        chains_all_delete_done(t, cs, complete),
    ensures
        chains_apply_delete(t, cs, complete) == t,
    decreases cs.len(),
{
    if cs.len() > 0 {
        assert forall|j: int|
            0 <= j < cs.drop_last().len() implies chain_delete_done(
            t,
            #[trigger] cs.drop_last()[j],
            complete,
        ) by {
            assert(cs.drop_last()[j] == cs[j]);
        }
        lemma_chains_apply_delete_noop(t, cs.drop_last(), complete);
        assert(chain_delete_done(t, cs.last(), complete));
    }
}

/// Applying a teardown pass twice leaves exactly the state of applying it
/// once: the second pass finds every removable rule gone and every deletable
/// chain gone, and treats absence as success.
pub proof fn lemma_chains_teardown_idempotent(
    t: RuleTable,
    cs: Seq<ChainModel>,
    rules_complete: bool,
    delete_complete: bool,
)
    ensures
        chains_teardown(
            chains_teardown(t, cs, rules_complete, delete_complete),
            cs,
            rules_complete,
            delete_complete,
        ) == chains_teardown(t, cs, rules_complete, delete_complete),
{
    let t1 = chains_apply_remove_rules(t, cs, rules_complete);
    let t2 = chains_apply_delete(t1, cs, delete_complete);
    lemma_chains_remove_rules_cleans_all(t, cs, rules_complete);
    assert forall|j: int|
        0 <= j < cs.len() implies chain_cleaned(t2, #[trigger] cs[j], rules_complete) by {
        lemma_chains_apply_delete_preserves_cleaned(t1, cs, delete_complete, cs[j], rules_complete);
    }
    lemma_chains_apply_delete_done_all(t1, cs, delete_complete);
    lemma_chains_remove_rules_noop(t2, cs, rules_complete);
    lemma_chains_apply_delete_noop(t2, cs, delete_complete);
}

proof fn lemma_teardown_subnets_state_all(
    t: RuleTable,
    subs: Seq<SubnetModel>,
    hash: Seq<char>,
    complete: bool,
)
    ensures
        forall|j: int|
            0 <= j < subs.len() ==> chains_all_cleaned(
                teardown_subnets(t, subs, hash, complete),
                subnet_chains(#[trigger] subs[j], hash),
                true,
            ) && chains_all_delete_done(
                teardown_subnets(t, subs, hash, complete),
                subnet_chains(subs[j], hash),
                complete,
            ),
    decreases subs.len(),
{
    if subs.len() > 0 {
        let tp = teardown_subnets(t, subs.drop_last(), hash, complete);
        let last_cs = subnet_chains(subs.last(), hash);
        let tr = chains_apply_remove_rules(tp, last_cs, true);
        lemma_teardown_subnets_state_all(t, subs.drop_last(), hash, complete);
        assert forall|j: int|
            0 <= j < subs.len() implies chains_all_cleaned(
            teardown_subnets(t, subs, hash, complete),
            subnet_chains(#[trigger] subs[j], hash),
            true,
        ) && chains_all_delete_done(
            teardown_subnets(t, subs, hash, complete),
            subnet_chains(subs[j], hash),
            complete,
        ) by {
            let cs = subnet_chains(subs[j], hash);
            if j < subs.len() - 1 {
                assert(subs.drop_last()[j] == subs[j]);
                assert(chains_all_cleaned(tp, cs, true));
                assert(chains_all_delete_done(tp, cs, complete));
                assert forall|i: int|
                    0 <= i < cs.len() implies chain_cleaned(
                    teardown_subnets(t, subs, hash, complete),
                    #[trigger] cs[i],
                    true,
                ) && chain_delete_done(
                    teardown_subnets(t, subs, hash, complete),
                    cs[i],
                    complete,
                ) by {
                    lemma_chains_remove_rules_preserves_cleaned(tp, last_cs, true, cs[i], true);
                    lemma_chains_apply_delete_preserves_cleaned(tr, last_cs, complete, cs[i], true);
                    assert(chain_delete_done(tr, cs[i], complete)) by {
                        if spec_chain_removed(cs[i].td_policy, complete) {
                            lemma_chains_remove_rules_preserves(
                                tp,
                                last_cs,
                                true,
                                chain_key(cs[i]),
                                Seq::empty(),
                            );
                        }
                    }
                    lemma_chains_apply_delete_preserves_done(tr, last_cs, complete, cs[i], complete);
                }
            } else {
                assert(subs[j] == subs.last());
                lemma_chains_remove_rules_cleans_all(tp, cs, true);
                assert forall|i: int|
                    0 <= i < cs.len() implies chain_cleaned(
                    teardown_subnets(t, subs, hash, complete),
                    #[trigger] cs[i],
                    true,
                ) by {
                    lemma_chains_apply_delete_preserves_cleaned(tr, cs, complete, cs[i], true);
                }
                lemma_chains_apply_delete_done_all(tr, cs, complete);
            }
        }
    }
}

proof fn lemma_teardown_subnets_noop(
    t: RuleTable,
    subs: Seq<SubnetModel>,
    hash: Seq<char>,
    complete: bool,
)
    requires
        forall|j: int|
            0 <= j < subs.len() ==> chains_all_cleaned(t, subnet_chains(#[trigger] subs[j], hash), true)
                && chains_all_delete_done(t, subnet_chains(subs[j], hash), complete),
    ensures
        teardown_subnets(t, subs, hash, complete) == t,
    decreases subs.len(),
{
    if subs.len() > 0 {
        assert forall|j: int|
            0 <= j < subs.drop_last().len() implies chains_all_cleaned(
            t,
            subnet_chains(#[trigger] subs.drop_last()[j], hash),
            true,
        ) && chains_all_delete_done(t, subnet_chains(subs.drop_last()[j], hash), complete) by {
            assert(subs.drop_last()[j] == subs[j]);
        }
        lemma_teardown_subnets_noop(t, subs.drop_last(), hash, complete);
        assert(chains_all_cleaned(t, subnet_chains(subs.last(), hash), true));
        assert(chains_all_delete_done(t, subnet_chains(subs.last(), hash), complete));
        lemma_chains_remove_rules_noop(t, subnet_chains(subs.last(), hash), true);
        lemma_chains_apply_delete_noop(t, subnet_chains(subs.last(), hash), complete);
    }
}

/// Idempotent teardown: running `teardown_network` on an already-torn-down
/// network intends no further change — absent rules and absent chains are
/// treated as success, so retries converge.
pub proof fn lemma_teardown_network_idempotent(t: RuleTable, req: TearDownNetworkModel)
    ensures
        spec_teardown_network(spec_teardown_network(t, req), req) == spec_teardown_network(t, req),
{
    match req.config.net.subnets {
        None => {},
        Some(subs) => {
            lemma_teardown_subnets_state_all(t, subs, req.config.network_hash_name, req.complete_teardown);
            lemma_teardown_subnets_noop(
                teardown_subnets(t, subs, req.config.network_hash_name, req.complete_teardown),
                subs,
                req.config.network_hash_name,
                req.complete_teardown,
            );
        },
    }
}

/// Idempotent teardown for port forwarding: as in
/// [`lemma_teardown_network_idempotent`].
pub proof fn lemma_teardown_port_forward_idempotent(t: RuleTable, tear: TeardownPortForwardModel)
    ensures
        spec_teardown_port_forward(spec_teardown_port_forward(t, tear), tear)
            == spec_teardown_port_forward(t, tear),
{
    lemma_chains_teardown_idempotent(
        t,
        spec_pf_chain_list(tear.config),
        tear.complete_teardown,
        tear.complete_teardown,
    );
}

proof fn lemma_chains_apply_delete_key_frame(
    t: RuleTable,
    cs: Seq<ChainModel>,
    complete: bool,
    k: ChainKey,
)
    requires
        forall|j: int|
            0 <= j < cs.len() && chain_key(#[trigger] cs[j]) == k ==> !spec_chain_removed(
                cs[j].td_policy,
                complete,
            ),
    ensures
        chains_apply_delete(t, cs, complete).dom().contains(k) == t.dom().contains(k),
    decreases cs.len(),
{
    if cs.len() > 0 {
        assert forall|j: int|
            0 <= j < cs.drop_last().len() && chain_key(#[trigger] cs.drop_last()[j]) == k implies
            !spec_chain_removed(cs.drop_last()[j].td_policy, complete) by {
            assert(cs.drop_last()[j] == cs[j]);
        }
        lemma_chains_apply_delete_key_frame(t, cs.drop_last(), complete, k);
        assert(cs[cs.len() - 1] == cs.last());
    }
}

/// Policy gating, `Never` side: a teardown pass never deletes a chain tagged
/// `Never`, whatever the teardown scope — the chain exists afterwards exactly
/// when it existed before.
pub proof fn lemma_never_chain_never_deleted(
    t: RuleTable,
    cs: Seq<ChainModel>,
    rules_complete: bool,
    delete_complete: bool,
    k: ChainKey,
)
    requires
        forall|j: int|
            0 <= j < cs.len() && chain_key(#[trigger] cs[j]) == k ==> cs[j].td_policy == Some(
                TeardownPolicy::Never,
            ),
    ensures
        chains_teardown(t, cs, rules_complete, delete_complete).dom().contains(k) == t.dom()
            .contains(k),
{
    lemma_chains_remove_rules_preserves(t, cs, rules_complete, k, Seq::empty());
    lemma_chains_apply_delete_key_frame(
        chains_apply_remove_rules(t, cs, rules_complete),
        cs,
        delete_complete,
        k,
    );
}

/// Policy gating, `OnComplete` side: a chain tagged `OnComplete` is gone
/// after a complete teardown, and untouched as a chain by a non-complete one.
pub proof fn lemma_on_complete_deleted_iff(
    t: RuleTable,
    cs: Seq<ChainModel>,
    rules_complete: bool,
    j: int,
)
    requires
        0 <= j < cs.len(),
        cs[j].td_policy == Some(TeardownPolicy::OnComplete),
    ensures
        !chains_teardown(t, cs, rules_complete, true).dom().contains(chain_key(cs[j])),
        chains_teardown(t, cs, rules_complete, false).dom().contains(chain_key(cs[j])) == t.dom()
            .contains(chain_key(cs[j])),
{
    let t1 = chains_apply_remove_rules(t, cs, rules_complete);
    lemma_chains_apply_delete_done_all(t1, cs, true);
    assert(chain_delete_done(chains_apply_delete(t1, cs, true), cs[j], true));
    lemma_chains_remove_rules_preserves(t, cs, rules_complete, chain_key(cs[j]), Seq::empty());
    assert forall|i: int|
        0 <= i < cs.len() && chain_key(#[trigger] cs[i]) == chain_key(cs[j]) implies
        !spec_chain_removed(cs[i].td_policy, false) by {}
    lemma_chains_apply_delete_key_frame(t1, cs, false, chain_key(cs[j]));
}

} // verus!
