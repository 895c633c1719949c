//! Chain descriptors and teardown policies.
//!
//! A [`Chain`] is a stateless description of one named rule-table chain: the
//! table it lives in, its address family, the rule templates that populate
//! it, and the policy that says when the chain itself may be deleted.  The
//! descriptors are rebuilt deterministically on every lifecycle call; the
//! kernel's rule table is the only persisted state.
use vstd::prelude::*;

verus! {

/// When a chain, or a rule, may be torn down automatically.
#[derive(Clone, Copy, PartialEq, Eq, Structural, Debug)]
pub enum TeardownPolicy {
    /// Delete only when the entire network or port-forward context is being
    /// torn down.
    OnComplete,
    /// Never delete: the object is long-lived infrastructure shared by many
    /// networks.
    Never,
}

/// One rule template, tagged with the policy that gates its removal.  A rule
/// without a policy belongs to the requesting entity alone and is removed by
/// every teardown that reaches it.
pub struct ChainRule {
    pub rule: String,
    pub td_policy: Option<TeardownPolicy>,
}

/// Mathematical image of a [`ChainRule`].
pub struct ChainRuleModel {
    pub rule: Seq<char>,
    pub td_policy: Option<TeardownPolicy>,
}

impl View for ChainRule {
    type V = ChainRuleModel;

    open spec fn view(&self) -> ChainRuleModel {
        ChainRuleModel { rule: self.rule@, td_policy: self.td_policy }
    }
}

/// One named rule-table chain together with the operations' inputs: where it
/// lives, whether this driver creates it, what rules it receives, and when it
/// may be deleted.  A chain without a policy is an always-present dispatch
/// chain maintained outside this lifecycle; no chain-level deletion applies.
pub struct Chain {
    /// Rule table holding the chain, e.g. `nat` or `filter`.
    pub table: String,
    /// The chain's name.
    pub name: String,
    /// Address family the chain belongs to.
    pub ipv6: bool,
    /// Whether this driver creates the chain when it is absent (false for
    /// built-in chains such as `POSTROUTING`).
    pub create: bool,
    /// The rule templates this lifecycle owns in the chain, in order.
    pub rules: Vec<ChainRule>,
    /// When the chain itself may be deleted.
    pub td_policy: Option<TeardownPolicy>,
}

/// Mathematical image of a [`Chain`].
pub struct ChainModel {
    pub table: Seq<char>,
    pub name: Seq<char>,
    pub ipv6: bool,
    pub create: bool,
    pub rules: Seq<ChainRuleModel>,
    pub td_policy: Option<TeardownPolicy>,
}

pub open spec fn view_rules(v: Seq<ChainRule>) -> Seq<ChainRuleModel> {
    v.map_values(|r: ChainRule| r@)
}

impl View for Chain {
    type V = ChainModel;

    open spec fn view(&self) -> ChainModel {
        ChainModel {
            table: self.table@,
            name: self.name@,
            ipv6: self.ipv6,
            create: self.create,
            rules: view_rules(self.rules@),
            td_policy: self.td_policy,
        }
    }
}

/// The view of a sequence of chains.
pub open spec fn view_chains(v: Seq<Chain>) -> Seq<ChainModel> {
    v.map_values(|c: Chain| c@)
}

/// Whether a teardown with the given `complete` scope removes a rule tagged
/// with `policy`: untagged rules always, `OnComplete` rules only on a
/// complete teardown, `Never` rules never.
pub open spec fn spec_rule_removed(policy: Option<TeardownPolicy>, complete: bool) -> bool {
    match policy {
        None => true,
        Some(TeardownPolicy::OnComplete) => complete,
        Some(TeardownPolicy::Never) => false,
    }
}

/// Exec mirror of [`spec_rule_removed`].
pub fn rule_removed(policy: &Option<TeardownPolicy>, complete: bool) -> (r: bool)
    ensures
        r == spec_rule_removed(*policy, complete),
{
    match policy {
        None => true,
        Some(TeardownPolicy::OnComplete) => complete,
        Some(TeardownPolicy::Never) => false,
    }
}

/// Whether a teardown with the given `complete` scope deletes the chain
/// itself: only a chain tagged `OnComplete`, and only on a complete teardown.
pub open spec fn spec_chain_removed(policy: Option<TeardownPolicy>, complete: bool) -> bool {
    complete && policy == Some(TeardownPolicy::OnComplete)
}

/// Exec mirror of [`spec_chain_removed`].
pub fn should_remove_chain(policy: &Option<TeardownPolicy>, complete: bool) -> (r: bool)
    ensures
        r == spec_chain_removed(*policy, complete),
{
    match policy {
        Some(TeardownPolicy::OnComplete) => complete,
        _ => false,
    }
}

/// Policy gating: a chain or rule tagged `Never` is never torn down, whatever
/// the teardown scope; one tagged `OnComplete` is deleted if and only if the
/// teardown is complete.
pub proof fn lemma_policy_gating(complete: bool)
    ensures
        !spec_chain_removed(Some(TeardownPolicy::Never), complete),
        !spec_rule_removed(Some(TeardownPolicy::Never), complete),
        spec_chain_removed(Some(TeardownPolicy::OnComplete), complete) <==> complete,
        spec_rule_removed(Some(TeardownPolicy::OnComplete), complete) <==> complete,
        spec_rule_removed(None, complete),
        !spec_chain_removed(None, complete),
{
}

} // verus!
