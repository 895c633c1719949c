//! The iptables-backed firewall driver: the four lifecycle operations.
//!
//! The driver holds one long-lived rule-table connection per address family
//! and no other state; chain descriptors are rebuilt deterministically on
//! every call, so retries converge on the same kernel objects.  The intended
//! end state of each operation is the corresponding transition of
//! [`crate::model`]; what the kernel reports back decides only between `Ok`
//! and a `Table` error.
use vstd::prelude::*;

use crate::bridge;
use crate::builders::{get_network_chains, get_port_forwarding_chains};
use crate::chain::{rule_removed, should_remove_chain, spec_rule_removed, Chain};
use crate::types::{
    FirewallError, PortForwardConfig, PortForwardConfigModel, SetupNetwork, TearDownNetwork,
    TeardownPortForward,
};

verus! {

/// Rule-table connection type of the iptables crate, opaque to this library.
#[verifier::external_type_specification]
#[verifier::external_body]
pub struct ExIPTables(iptables::IPTables);

/// Relies on iptables::new: picks the iptables or ip6tables command and reads
/// its version; no rule table is touched.
#[verifier::external_body]
fn ipt_new(is_ipv6: bool) -> (r: Result<iptables::IPTables, String>) {
    iptables::new(is_ipv6).map_err(|e| e.to_string())
}

/// Relies on IPTables::chain_exists: reports whether listing the chain
/// succeeded; a missing chain is false, not an error.
#[verifier::external_body]
fn ipt_chain_exists(conn: &iptables::IPTables, table: &str, chain: &str) -> (r: Result<
    bool,
    String,
>) {
    conn.chain_exists(table, chain).map_err(|e| e.to_string())
}

/// Relies on IPTables::new_chain: creates a user-defined chain.
#[verifier::external_body]
fn ipt_new_chain(conn: &iptables::IPTables, table: &str, chain: &str) -> (r: Result<(), String>) {
    conn.new_chain(table, chain).map_err(|e| e.to_string())
}

/// Relies on IPTables::exists: reports whether the chain holds the rule; a
/// missing chain or rule is false, not an error.
#[verifier::external_body]
fn ipt_exists(conn: &iptables::IPTables, table: &str, chain: &str, rule: &str) -> (r: Result<
    bool,
    String,
>) {
    conn.exists(table, chain, rule).map_err(|e| e.to_string())
}

/// Relies on IPTables::append: appends the rule to the chain.
#[verifier::external_body]
fn ipt_append(conn: &iptables::IPTables, table: &str, chain: &str, rule: &str) -> (r: Result<
    (),
    String,
>) {
    conn.append(table, chain, rule).map_err(|e| e.to_string())
}

/// Relies on IPTables::delete: deletes the rule from the chain.
#[verifier::external_body]
fn ipt_delete(conn: &iptables::IPTables, table: &str, chain: &str, rule: &str) -> (r: Result<
    (),
    String,
>) {
    conn.delete(table, chain, rule).map_err(|e| e.to_string())
}

/// Relies on IPTables::flush_chain: deletes all rules of the chain.
#[verifier::external_body]
fn ipt_flush_chain(conn: &iptables::IPTables, table: &str, chain: &str) -> (r: Result<(), String>) {
    conn.flush_chain(table, chain).map_err(|e| e.to_string())
}

/// Relies on IPTables::delete_chain: deletes the user-defined chain.
#[verifier::external_body]
fn ipt_delete_chain(conn: &iptables::IPTables, table: &str, chain: &str) -> (r: Result<(), String>) {
    conn.delete_chain(table, chain).map_err(|e| e.to_string())
}

impl Chain {
    /// Idempotently installs this chain: creates it when this driver owns its
    /// creation and it is absent, then appends each rule the chain does not
    /// already hold — the intent of [`crate::model::chain_apply_add`].
    pub fn add_rules(&self, conn: &iptables::IPTables) -> (r: Result<(), FirewallError>)
        ensures
            r matches Err(e) ==> e is Table,
            !self.create && self.rules@.len() == 0 ==> r is Ok,
    {
        if self.create {
            match ipt_chain_exists(conn, self.table.as_str(), self.name.as_str()) {
                Ok(true) => {},
                Ok(false) => {
                    match ipt_new_chain(conn, self.table.as_str(), self.name.as_str()) {
                        Ok(()) => {},
                        Err(m) => {
                            return Err(FirewallError::Table(m));
                        },
                    }
                },
                Err(m) => {
                    return Err(FirewallError::Table(m));
                },
            }
        }
        let mut i: usize = 0;
        while i < self.rules.len()
            invariant
                i <= self.rules.len(),
            decreases self.rules.len() - i,
        {
            let rule = &self.rules[i];
            match ipt_exists(conn, self.table.as_str(), self.name.as_str(), rule.rule.as_str()) {
                Ok(true) => {},
                Ok(false) => {
                    match ipt_append(
                        conn,
                        self.table.as_str(),
                        self.name.as_str(),
                        rule.rule.as_str(),
                    ) {
                        Ok(()) => {},
                        Err(m) => {
                            return Err(FirewallError::Table(m));
                        },
                    }
                },
                Err(m) => {
                    return Err(FirewallError::Table(m));
                },
            }
            i += 1;
        }
        Ok(())
    }

    /// Removes this chain's rules whose policy admits removal under
    /// `complete`; an already absent rule or chain is success, so the call is
    /// safe to retry — the intent of
    /// [`crate::model::chain_apply_remove_rules`].
    pub fn remove_rules(&self, conn: &iptables::IPTables, complete: bool) -> (r: Result<
        (),
        FirewallError,
    >)
        ensures
            r matches Err(e) ==> e is Table,
            (forall|i: int|
                0 <= i < self.rules@.len() ==> !spec_rule_removed(
                    (#[trigger] self.rules@[i]).td_policy,
                    complete,
                )) ==> r is Ok,
    {
        let mut i: usize = 0;
        while i < self.rules.len()
            invariant
                i <= self.rules.len(),
            decreases self.rules.len() - i,
        {
            let rule = &self.rules[i];
            if rule_removed(&rule.td_policy, complete) {
                match ipt_exists(conn, self.table.as_str(), self.name.as_str(), rule.rule.as_str()) {
                    Ok(true) => {
                        match ipt_delete(
                            conn,
                            self.table.as_str(),
                            self.name.as_str(),
                            rule.rule.as_str(),
                        ) {
                            Ok(()) => {},
                            Err(m) => {
                                return Err(FirewallError::Table(m));
                            },
                        }
                    },
                    Ok(false) => {},
                    Err(m) => {
                        return Err(FirewallError::Table(m));
                    },
                }
            }
            i += 1;
        }
        Ok(())
    }

    /// Deletes the chain itself, flushing it first; an already absent chain
    /// is success — the intent of [`crate::model::table_delete_chain`].  The
    /// caller gates this on the chain's policy and the teardown scope.
    pub fn remove(&self, conn: &iptables::IPTables) -> (r: Result<(), FirewallError>)
        ensures
            r matches Err(e) ==> e is Table,
    {
        match ipt_chain_exists(conn, self.table.as_str(), self.name.as_str()) {
            Ok(true) => {},
            Ok(false) => {
                return Ok(());
            },
            Err(m) => {
                return Err(FirewallError::Table(m));
            },
        }
        match ipt_flush_chain(conn, self.table.as_str(), self.name.as_str()) {
            Ok(()) => {},
            Err(m) => {
                return Err(FirewallError::Table(m));
            },
        }
        match ipt_delete_chain(conn, self.table.as_str(), self.name.as_str()) {
            Ok(()) => Ok(()),
            Err(m) => Err(FirewallError::Table(m)),
        }
    }
}

/// Firewall driver backed by the iptables and ip6tables commands: one
/// long-lived rule-table connection per address family, no other state.
pub struct IptablesDriver {
    conn: iptables::IPTables,
    conn6: iptables::IPTables,
}

/// Creates the driver with its two rule-table connections.
pub fn new() -> (r: Result<IptablesDriver, FirewallError>)
    ensures
        r matches Err(e) ==> e is Table,
{
    let conn = match ipt_new(false) {
        Ok(c) => c,
        Err(m) => {
            return Err(FirewallError::Table(m));
        },
    };
    let conn6 = match ipt_new(true) {
        Ok(c) => c,
        Err(m) => {
            return Err(FirewallError::Table(m));
        },
    };
    Ok(IptablesDriver { conn, conn6 })
}

/// The request carries an IPv4 address without its required IPv4 subnet.
pub open spec fn v4_violation(cfg: PortForwardConfigModel) -> bool {
    cfg.container_ip_v4 is Some && cfg.subnet_v4 is None
}

/// The request carries an IPv6 address without its required IPv6 subnet.
pub open spec fn v6_violation(cfg: PortForwardConfigModel) -> bool {
    cfg.container_ip_v6 is Some && cfg.subnet_v6 is None
}

/// Checks the address/subnet contract of a port-forward request: an address
/// present without its matching subnet is a configuration error, IPv4
/// reported first; a request without violations is accepted.
pub fn validate_port_forward(cfg: &PortForwardConfig) -> (r: Result<(), FirewallError>)
    ensures
        v4_violation(cfg@) ==> r == Err::<(), FirewallError>(
            FirewallError::ConfigIpv4SubnetMissing,
        ),
        !v4_violation(cfg@) && v6_violation(cfg@) ==> r == Err::<(), FirewallError>(
            FirewallError::ConfigIpv6SubnetMissing,
        ),
        !v4_violation(cfg@) && !v6_violation(cfg@) ==> r == Ok::<(), FirewallError>(()),
{
    if cfg.container_ip_v4.is_some() && cfg.subnet_v4.is_none() {
        return Err(FirewallError::ConfigIpv4SubnetMissing);
    }
    if cfg.container_ip_v6.is_some() && cfg.subnet_v6.is_none() {
        return Err(FirewallError::ConfigIpv6SubnetMissing);
    }
    Ok(())
}

impl IptablesDriver {
    /// Installs the chains and rules of every subnet of the network — exactly
    /// [`crate::builders::spec_network_chains`] per subnet, so the intended
    /// end state is [`crate::model::spec_setup_network`] — failing fast on
    /// the first rule-table error.  After each subnet succeeds, the firewalld
    /// bridge is notified best-effort; the bridge call returns nothing and
    /// swallows every failure inside [`crate::bridge`], so no value of the
    /// bridge collaborator reaches this function's result or the chains it
    /// applies — the contract below is proved with no assumption about it.
    pub fn setup_network(&self, network_setup: SetupNetwork) -> (r: Result<(), FirewallError>)
        ensures
            network_setup@.net.subnets is None ==> r is Ok,
            network_setup@.net.subnets matches Some(s) && s.len() == 0 ==> r is Ok,
            r matches Err(e) ==> e is Table,
    {
        if let Some(subnets) = &network_setup.net.subnets {
            let mut i: usize = 0;
            while i < subnets.len()
                invariant
                    i <= subnets.len(),
                    network_setup@.net.subnets matches Some(s) && s.len() == subnets@.len(),
                decreases subnets.len() - i,
            {
                let subnet = &subnets[i];
                let conn = if subnet.ipv6 {
                    &self.conn6
                } else {
                    &self.conn
                };
                let chains = get_network_chains(
                    subnet,
                    network_setup.network_hash_name.as_str(),
                    subnet.ipv6,
                );
                let mut j: usize = 0;
                while j < chains.len()
                    invariant
                        j <= chains.len(),
                        network_setup@.net.subnets matches Some(s) && s.len() > 0,
                    decreases chains.len() - j,
                {
                    match chains[j].add_rules(conn) {
                        Ok(()) => {},
                        Err(e) => {
                            return Err(e);
                        },
                    }
                    j += 1;
                }
                bridge::add_firewalld_if_possible(subnet);
                i += 1;
            }
        }
        Ok(())
    }

    /// Removes every subnet's rules — this path is defined for complete
    /// network removal only, so rule removal always runs with the complete
    /// flag — then deletes each chain exactly when its policy is `OnComplete`
    /// and the request asks for a complete teardown, and finally un-notifies
    /// the bridge — which, as in [`Self::setup_network`], returns nothing and
    /// cannot affect the outcome.  The intended end state is
    /// [`crate::model::spec_teardown_network`].
    pub fn teardown_network(&self, tear: TearDownNetwork) -> (r: Result<(), FirewallError>)
        ensures
            tear@.config.net.subnets is None ==> r is Ok,
            tear@.config.net.subnets matches Some(s) && s.len() == 0 ==> r is Ok,
            r matches Err(e) ==> e is Table,
    {
        if let Some(subnets) = &tear.config.net.subnets {
            let mut i: usize = 0;
            while i < subnets.len()
                invariant
                    i <= subnets.len(),
                    tear@.config.net.subnets matches Some(s) && s.len() == subnets@.len(),
                decreases subnets.len() - i,
            {
                let subnet = &subnets[i];
                let conn = if subnet.ipv6 {
                    &self.conn6
                } else {
                    &self.conn
                };
                let chains = get_network_chains(
                    subnet,
                    tear.config.network_hash_name.as_str(),
                    subnet.ipv6,
                );
                let mut j: usize = 0;
                while j < chains.len()
                    invariant
                        j <= chains.len(),
                        tear@.config.net.subnets matches Some(s) && s.len() > 0,
                    decreases chains.len() - j,
                {
                    match chains[j].remove_rules(conn, true) {
                        Ok(()) => {},
                        Err(e) => {
                            return Err(e);
                        },
                    }
                    j += 1;
                }
                let mut j2: usize = 0;
                while j2 < chains.len()
                    invariant
                        j2 <= chains.len(),
                        tear@.config.net.subnets matches Some(s) && s.len() > 0,
                    decreases chains.len() - j2,
                {
                    if should_remove_chain(&chains[j2].td_policy, tear.complete_teardown) {
                        match chains[j2].remove(conn) {
                            Ok(()) => {},
                            Err(e) => {
                                return Err(e);
                            },
                        }
                    }
                    j2 += 1;
                }
                if tear.complete_teardown {
                    bridge::rm_firewalld_if_possible(subnet);
                }
                i += 1;
            }
        }
        Ok(())
    }

    /// Validates the address/subnet contract up front — a violation fails
    /// before any rule table is touched — then installs the forwarding
    /// chains of each present address family, IPv4 first, failing fast.  The
    /// intended end state is [`crate::model::spec_setup_port_forward`].
    pub fn setup_port_forward(&self, setup_portfw: PortForwardConfig) -> (r: Result<
        (),
        FirewallError,
    >)
        ensures
            v4_violation(setup_portfw@) ==> r == Err::<(), FirewallError>(
                FirewallError::ConfigIpv4SubnetMissing,
            ),
            !v4_violation(setup_portfw@) && v6_violation(setup_portfw@) ==> r == Err::<
                (),
                FirewallError,
            >(FirewallError::ConfigIpv6SubnetMissing),
            r matches Err(e) && e is ConfigIpv4SubnetMissing ==> v4_violation(setup_portfw@),
            r matches Err(e) && e is ConfigIpv6SubnetMissing ==> v6_violation(setup_portfw@),
            !v4_violation(setup_portfw@) && !v6_violation(setup_portfw@) ==> (r is Ok || (
            r matches Err(e) && e is Table)),
            setup_portfw@.container_ip_v4 is None && setup_portfw@.container_ip_v6 is None
                ==> r is Ok,
    {
        match validate_port_forward(&setup_portfw) {
            Ok(()) => {},
            Err(e) => {
                return Err(e);
            },
        }
        if let Some(v4) = &setup_portfw.container_ip_v4 {
            if let Some(subnet) = &setup_portfw.subnet_v4 {
                let chains = get_port_forwarding_chains(&setup_portfw, v4.as_str(), subnet, false);
                let mut j: usize = 0;
                while j < chains.len()
                    invariant
                        j <= chains.len(),
                        !v4_violation(setup_portfw@),
                        !v6_violation(setup_portfw@),
                        setup_portfw@.container_ip_v4 is Some,
                    decreases chains.len() - j,
                {
                    match chains[j].add_rules(&self.conn) {
                        Ok(()) => {},
                        Err(e) => {
                            return Err(e);
                        },
                    }
                    j += 1;
                }
            }
        }
        if let Some(v6) = &setup_portfw.container_ip_v6 {
            if let Some(subnet) = &setup_portfw.subnet_v6 {
                let chains = get_port_forwarding_chains(&setup_portfw, v6.as_str(), subnet, true);
                let mut j: usize = 0;
                while j < chains.len()
                    invariant
                        j <= chains.len(),
                        !v4_violation(setup_portfw@),
                        !v6_violation(setup_portfw@),
                        setup_portfw@.container_ip_v6 is Some,
                    decreases chains.len() - j,
                {
                    match chains[j].add_rules(&self.conn6) {
                        Ok(()) => {},
                        Err(e) => {
                            return Err(e);
                        },
                    }
                    j += 1;
                }
            }
        }
        Ok(())
    }

    /// Mirror of the setup: validates the contract up front, then per present
    /// address family removes the forwarding rules under the request's
    /// complete flag and deletes each chain its policy and that flag agree
    /// on.  Both address families are attempted even when the first fails —
    /// the first error is reported afterwards — so a retry after a partial
    /// removal still converges.  The intended end state is
    /// [`crate::model::spec_teardown_port_forward`].
    pub fn teardown_port_forward(&self, tear: TeardownPortForward) -> (r: Result<
        (),
        FirewallError,
    >)
        ensures
            v4_violation(tear@.config) ==> r == Err::<(), FirewallError>(
                FirewallError::ConfigIpv4SubnetMissing,
            ),
            !v4_violation(tear@.config) && v6_violation(tear@.config) ==> r == Err::<
                (),
                FirewallError,
            >(FirewallError::ConfigIpv6SubnetMissing),
            r matches Err(e) && e is ConfigIpv4SubnetMissing ==> v4_violation(tear@.config),
            r matches Err(e) && e is ConfigIpv6SubnetMissing ==> v6_violation(tear@.config),
            !v4_violation(tear@.config) && !v6_violation(tear@.config) ==> (r is Ok || (
            r matches Err(e) && e is Table)),
            tear@.config.container_ip_v4 is None && tear@.config.container_ip_v6 is None
                ==> r is Ok,
    {
        match validate_port_forward(&tear.config) {
            Ok(()) => {},
            Err(e) => {
                return Err(e);
            },
        }
        let mut first_err: Option<FirewallError> = None;
        if let Some(v4) = &tear.config.container_ip_v4 {
            if let Some(subnet) = &tear.config.subnet_v4 {
                let chains = get_port_forwarding_chains(&tear.config, v4.as_str(), subnet, false);
                match self.teardown_chain_set(&chains, false, tear.complete_teardown) {
                    Ok(()) => {},
                    Err(e) => {
                        first_err = Some(e);
                    },
                }
            }
        }
        if let Some(v6) = &tear.config.container_ip_v6 {
            if let Some(subnet) = &tear.config.subnet_v6 {
                let chains = get_port_forwarding_chains(&tear.config, v6.as_str(), subnet, true);
                match self.teardown_chain_set(&chains, true, tear.complete_teardown) {
                    Ok(()) => {},
                    Err(e) => {
                        if first_err.is_none() {
                            first_err = Some(e);
                        }
                    },
                }
            }
        }
        match first_err {
            None => Ok(()),
            Some(e) => Err(e),
        }
    }

    /// One teardown pass over a chain set: every chain's removable rules,
    /// then the policy-gated chain deletions — the intent of
    /// [`crate::model::chains_teardown`].
    fn teardown_chain_set(&self, chains: &Vec<Chain>, ipv6: bool, complete: bool) -> (r: Result<
        (),
        FirewallError,
    >)
        ensures
            r matches Err(e) ==> e is Table,
    {
        let conn = if ipv6 {
            &self.conn6
        } else {
            &self.conn
        };
        let mut j: usize = 0;
        while j < chains.len()
            invariant
                j <= chains.len(),
            decreases chains.len() - j,
        {
            match chains[j].remove_rules(conn, complete) {
                Ok(()) => {},
                Err(e) => {
                    return Err(e);
                },
            }
            j += 1;
        }
        let mut j2: usize = 0;
        while j2 < chains.len()
            invariant
                j2 <= chains.len(),
            decreases chains.len() - j2,
        {
            if should_remove_chain(&chains[j2].td_policy, complete) {
                match chains[j2].remove(conn) {
                    Ok(()) => {},
                    Err(e) => {
                        return Err(e);
                    },
                }
            }
            j2 += 1;
        }
        Ok(())
    }
}

} // verus!
