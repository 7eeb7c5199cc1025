//! Properties that relate several commands of the ledger.
use vstd::prelude::*;

use crate::contract::{
    claim_target, claimable, contract_key_of, executed, lemma_reward_keys_unique, level_key,
    rule_key, Ledger,
};
use crate::msg::{ContractKind, ContractType, ExecuteMsg, RewardStatus, RuleDetails, UserLevel};
use crate::state::{lemma_reward_id_injective, reward_id_text, rule_id_text};
use crate::store::{contains_key, index_of, lemma_index_of, lemma_put_get, lemma_without_unique};

verus! {

/// `run` is a sequence of ledger states in which each state follows from the
/// one before by a successful `DistributeReward` of the administrator.
pub open spec fn distribution_run(run: Seq<Ledger>, admin: Seq<char>, times: Seq<u64>, msgs: Seq<
    ExecuteMsg,
>) -> bool {
    &&& msgs.len() + 1 == run.len()
    &&& times.len() == msgs.len()
    &&& forall|k: int|
        0 <= k < msgs.len() ==> (#[trigger] msgs[k]) is DistributeReward && executed(
            run[k],
            run[k + 1],
            admin,
            msgs[k],
            times[k],
        )
}

/// Starting from a fresh ledger, the rewards that successive distributions
/// issue are named `reward_0`, `reward_1`, ... in call order, whichever users
/// they go to, and no name is issued twice.
pub proof fn lemma_reward_ids_in_call_order(
    run: Seq<Ledger>,
    admin: Seq<char>,
    times: Seq<u64>,
    msgs: Seq<ExecuteMsg>,
)
    requires
        distribution_run(run, admin, times, msgs),
        run[0].reward_counter == 0,
    ensures
        forall|k: int|
            0 <= k < msgs.len() ==> #[trigger] run[k + 1].rewards@.last().reward_id@
                == reward_id_text(k as nat),
        forall|j: int, k: int|
            0 <= j < k < msgs.len() ==> #[trigger] run[j + 1].rewards@.last().reward_id@
                != #[trigger] run[k + 1].rewards@.last().reward_id@,
{
    lemma_counters_follow_calls(run, admin, times, msgs, msgs.len() as int);
    assert forall|k: int|
        0 <= k < msgs.len() implies #[trigger] run[k + 1].rewards@.last().reward_id@
            == reward_id_text(k as nat) by {
        assert(executed(run[k], run[k + 1], admin, msgs[k], times[k]));
    }
    assert forall|j: int, k: int|
        0 <= j < k < msgs.len() implies #[trigger] run[j + 1].rewards@.last().reward_id@
            != #[trigger] run[k + 1].rewards@.last().reward_id@ by {
        if reward_id_text(j as nat) == reward_id_text(k as nat) {
            lemma_reward_id_injective(j as nat, k as nat);
        }
    }
}

proof fn lemma_counters_follow_calls(
    run: Seq<Ledger>,
    admin: Seq<char>,
    times: Seq<u64>,
    msgs: Seq<ExecuteMsg>,
    n: int,
)
    requires
        distribution_run(run, admin, times, msgs),
        run[0].reward_counter == 0,
        0 <= n <= msgs.len(),
    ensures
        forall|k: int| 0 <= k <= n ==> #[trigger] run[k].reward_counter == k,
    decreases n,
{
    if n > 0 {
        lemma_counters_follow_calls(run, admin, times, msgs, n - 1);
        assert(executed(run[n - 1], run[n], admin, msgs[n - 1], times[n - 1]));
        assert forall|k: int| 0 <= k <= n implies #[trigger] run[k].reward_counter == k by {
            if k < n {
                assert(run[k].reward_counter == k);
            }
        }
    }
}

/// Claiming a pending reward of one's own marks it claimed at the time of the
/// call, and a second claim of it is refused.
pub proof fn lemma_claim_once(l1: Ledger, l2: Ledger, caller: Seq<char>, reward_id: String, now: u64)
    requires
        l1.wf(),
        l2.wf(),
        claimable(l1, caller, reward_id@),
        executed(l1, l2, caller, ExecuteMsg::ClaimReward { reward_id }, now),
    ensures
        ({
            let i = claim_target(l1, caller, reward_id@);
            &&& claim_target(l2, caller, reward_id@) == i
            &&& l2.rewards@[i].status == RewardStatus::Claimed
            &&& l2.rewards@[i].claimed_at == Some(now)
        }),
        !claimable(l2, caller, reward_id@),
{
    let i = claim_target(l1, caller, reward_id@);
    lemma_reward_keys_unique(l2);
    lemma_index_of(l2.rewards@, crate::contract::reward_key(), i);
}

/// A created rule is stored under the identifier that the ledger assigned,
/// whatever identifier it came with, with equal creation and update times;
/// updating it under that identifier keeps the identifier and sets the update
/// time; deleting it removes it.
pub proof fn lemma_rule_lifecycle(
    l0: Ledger,
    l1: Ledger,
    l2: Ledger,
    l3: Ledger,
    admin: Seq<char>,
    rule: RuleDetails,
    rule_id: String,
    update: RuleDetails,
    t1: u64,
    t2: u64,
    t3: u64,
)
    requires
        l0.wf(),
        l1.wf(),
        l2.wf(),
        rule_id@ == rule_id_text(l0.rule_counter as nat),
        executed(l0, l1, admin, ExecuteMsg::CreateRule { rule }, t1),
        executed(l1, l2, admin, ExecuteMsg::UpdateRule { rule_id, rule: update }, t2),
        executed(l2, l3, admin, ExecuteMsg::DeleteRule { rule_id }, t3),
    ensures
        contains_key(l1.rules@, rule_key(), rule_id@),
        ({
            let created = l1.rules@[index_of(l1.rules@, rule_key(), rule_id@)];
            &&& created.rule_id@ == rule_id_text(l0.rule_counter as nat)
            &&& created.created_at == created.updated_at
            &&& created.rule_name == rule.rule_name
        }),
        contains_key(l2.rules@, rule_key(), rule_id@),
        ({
            let updated = l2.rules@[index_of(l2.rules@, rule_key(), rule_id@)];
            &&& updated.rule_id@ == rule_id@
            &&& updated.updated_at == t2
        }),
        !contains_key(l3.rules@, rule_key(), rule_id@),
{
    let saved = choose|saved: RuleDetails|
        crate::contract::stamped(saved, rule, rule_id_text(l0.rule_counter as nat), t1, t1)
            && l1.rules@ == crate::store::put(l0.rules@, rule_key(), saved);
    lemma_put_get(l0.rules@, rule_key(), saved);
    let upd = RuleDetails { rule_id: rule_id, updated_at: t2, ..update };
    lemma_put_get(l1.rules@, rule_key(), upd);
    lemma_without_unique(l2.rules@, rule_key(), rule_id@);
}

/// Registering the same contract type twice keeps only the second address:
/// exactly one registration of that type remains.
pub proof fn lemma_register_last_wins(
    l0: Ledger,
    l1: Ledger,
    l2: Ledger,
    admin: Seq<char>,
    first: String,
    second: String,
    t1: u64,
    t2: u64,
)
    requires
        l0.wf(),
        l1.wf(),
        l2.wf(),
        executed(
            l0,
            l1,
            admin,
            ExecuteMsg::RegisterContract { contract_type: ContractType::Ft, contract_addr: Ok(first) },
            t1,
        ),
        executed(
            l1,
            l2,
            admin,
            ExecuteMsg::RegisterContract {
                contract_type: ContractType::Ft,
                contract_addr: Ok(second),
            },
            t2,
        ),
    ensures
        contains_key(l2.contracts@, contract_key_of(), ContractKind::Ft),
        ({
            let p = index_of(l2.contracts@, contract_key_of(), ContractKind::Ft);
            &&& l2.contracts@[p].contract_addr == second
            &&& forall|i: int|
                0 <= i < l2.contracts@.len() && #[trigger] l2.contracts@[i].contract_type@
                    == ContractKind::Ft ==> i == p
        }),
{
    let saved = choose|saved: crate::msg::ContractInfo|
        saved.contract_type == ContractType::Ft && saved.contract_addr == second
            && saved.status == crate::msg::ContractStatus::Active && saved.capabilities@.len() == 0
            && saved.registered_at == t2 && l2.contracts@ == crate::store::put(
            l1.contracts@,
            contract_key_of(),
            saved,
        );
    lemma_put_get(l1.contracts@, contract_key_of(), saved);
    let p = index_of(l2.contracts@, contract_key_of(), ContractKind::Ft);
    assert forall|i: int|
        0 <= i < l2.contracts@.len() && #[trigger] l2.contracts@[i].contract_type@
            == ContractKind::Ft implies i == p by {
        assert(contract_key_of()(l2.contracts@[i]) == contract_key_of()(l2.contracts@[p]));
    }
}

/// Setting the points of a user never seen creates a Bronze record with those
/// points and every other figure zero or unset; setting them again changes
/// the points alone.
pub proof fn lemma_user_level_points(
    l0: Ledger,
    l1: Ledger,
    l2: Ledger,
    admin: Seq<char>,
    user: String,
    again: String,
    p1: u32,
    p2: u32,
    t1: u64,
    t2: u64,
)
    requires
        l0.wf(),
        l1.wf(),
        l2.wf(),
        again@ == user@,
        !contains_key(l0.user_levels@, level_key(), user@),
        executed(l0, l1, admin, ExecuteMsg::UpdateUserLevel { user, points: p1 }, t1),
        executed(l1, l2, admin, ExecuteMsg::UpdateUserLevel { user: again, points: p2 }, t2),
    ensures
        contains_key(l1.user_levels@, level_key(), user@),
        ({
            let first = l1.user_levels@[index_of(l1.user_levels@, level_key(), user@)];
            let second = l2.user_levels@[index_of(l2.user_levels@, level_key(), user@)];
            &&& first.user@ == user@
            &&& first.level == UserLevel::Bronze
            &&& first.points == p1
            &&& first.level_up_count == 0
            &&& first.last_level_up.is_none()
            &&& first.total_rewards == 0
            &&& second.points == p2
            &&& second.user == first.user
            &&& second.level == first.level
            &&& second.level_up_count == first.level_up_count
            &&& second.last_level_up == first.last_level_up
            &&& second.total_rewards == first.total_rewards
        }),
{
    let first = crate::contract::level_with_points(l0.user_levels@, user, p1);
    lemma_put_get(l0.user_levels@, level_key(), first);
    let second = crate::contract::level_with_points(l1.user_levels@, again, p2);
    lemma_put_get(l1.user_levels@, level_key(), second);
}

} // verus!
