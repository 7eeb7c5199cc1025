//! The ledger: its stores, the commands that change them and the queries that read them.
use vstd::prelude::*;

use crate::error::ContractError;
use crate::msg::{
    kind_label, ActivityType, ContractInfo, ContractKind, ContractStatus, ContractType, ExecuteMsg,
    IncentiveConfig, InstantiateMsg, QueryMsg, RewardStatus, RewardType, RuleDetails, UserLevel,
    UserLevelInfo, UserReward,
};
use crate::state::{
    decimal, decimal_text, get_next_reward_id, get_next_rule_id, lemma_reward_id_injective,
    reward_id_text, rule_id_text, SystemStats,
};
use crate::store::{
    contains_key, index_of, keys_unique, lemma_index_of, lemma_put_unique, lemma_without_unique,
    put, without,
};

verus! {

/// The smallest number of points that can be exchanged for tokens.
pub const MIN_POINTS_EXCHANGE: u128 = 1000;

// ===== Responses =====

/// One key and value of the audit record that a command emits.
pub struct Attribute {
    pub key: String,
    pub value: String,
}

/// What a successful command or instantiation emits.
pub struct Response {
    pub attributes: Vec<Attribute>,
}

/// The attributes of a response as pairs of texts.
pub open spec fn attribute_pairs(attrs: Seq<Attribute>) -> Seq<(Seq<char>, Seq<char>)> {
    attrs.map_values(|a: Attribute| (a.key@, a.value@))
}

impl Response {
    /// A response with no attributes.
    pub fn new() -> (r: Response)
        ensures
            r.attributes@.len() == 0,
    {
        Response { attributes: Vec::new() }
    }

    /// The response with one more attribute at the end.
    pub fn add_attribute(self, key: &str, value: String) -> (r: Response)
        ensures
            attribute_pairs(r.attributes@) == attribute_pairs(self.attributes@).push((key@, value@)),
    {
        let mut attributes = self.attributes;
        attributes.push(Attribute { key: String::from_str(key), value });
        assert(attribute_pairs(attributes@) =~= attribute_pairs(self.attributes@).push(
            (key@, value@),
        ));
        Response { attributes }
    }
}

// ===== Keys of the stores =====

/// Rewards are named by their identifier.
pub open spec fn reward_key() -> spec_fn(UserReward) -> Seq<char> {
    |r: UserReward| r.reward_id@
}

/// Rules are keyed by their identifier.
pub open spec fn rule_key() -> spec_fn(RuleDetails) -> Seq<char> {
    |r: RuleDetails| r.rule_id@
}

/// Registrations are keyed by their contract type.
pub open spec fn contract_key_of() -> spec_fn(ContractInfo) -> ContractKind {
    |c: ContractInfo| c.contract_type@
}

/// Progression records are keyed by their user.
pub open spec fn level_key() -> spec_fn(UserLevelInfo) -> Seq<char> {
    |l: UserLevelInfo| l.user@
}

/// The rewards of `user`, in the order in which they were created.
pub open spec fn rewards_of(rewards: Seq<UserReward>, user: Seq<char>) -> Seq<UserReward> {
    rewards.filter(|r: UserReward| r.user@ == user)
}

/// `r` is the reward issued when the counter read `n`: pending, neither claimed nor expiring.
pub open spec fn is_new_reward(
    r: UserReward,
    n: nat,
    user: String,
    amount: u128,
    activity_type: ActivityType,
    now: u64,
) -> bool {
    &&& r.reward_id@ == reward_id_text(n)
    &&& r.user == user
    &&& r.amount == amount
    &&& r.reward_type == RewardType::Token
    &&& r.activity_type == activity_type
    &&& r.created_at == now
    &&& r.claimed_at.is_none()
    &&& r.expires_at.is_none()
    &&& r.status == RewardStatus::Pending
}

/// The activity recorded for an exchange of points.
pub open spec fn is_points_exchange(a: ActivityType) -> bool {
    a is Custom && a->Custom_activity_id@ == "points_exchange"@
}

/// `r` after a successful claim at `now`.
pub open spec fn claimed(r: UserReward, now: u64) -> UserReward {
    UserReward { status: RewardStatus::Claimed, claimed_at: Some(now), ..r }
}

/// The answer to a query.
pub enum QueryAnswer<'a> {
    Config(IncentiveConfig),
    UserRewards(Vec<UserReward>),
    Rules(&'a Vec<RuleDetails>),
    Contracts(&'a Vec<ContractInfo>),
    UserLevel(UserLevelInfo),
    SystemStats(SystemStats),
}

// ===== The ledger =====

/// All the stores of the incentive ledger.
pub struct Ledger {
    pub admin: String,
    pub config: IncentiveConfig,
    /// Every reward, in creation order.
    pub rewards: Vec<UserReward>,
    pub reward_counter: u64,
    pub rules: Vec<RuleDetails>,
    pub rule_counter: u64,
    pub contracts: Vec<ContractInfo>,
    pub user_levels: Vec<UserLevelInfo>,
}

/// `l2` differs from `l1` at most in its rewards and reward counter.
pub open spec fn same_but_rewards(l1: Ledger, l2: Ledger) -> bool {
    &&& l2.admin == l1.admin
    &&& l2.config == l1.config
    &&& l2.rules == l1.rules
    &&& l2.rule_counter == l1.rule_counter
    &&& l2.contracts == l1.contracts
    &&& l2.user_levels == l1.user_levels
}

/// `l2` is `l1` with one more reward, issued under the next identifier.
pub open spec fn reward_issued(
    l1: Ledger,
    l2: Ledger,
    user: String,
    amount: u128,
    activity_type: ActivityType,
    now: u64,
) -> bool {
    &&& same_but_rewards(l1, l2)
    &&& l2.reward_counter == l1.reward_counter + 1
    &&& l2.rewards@.len() == l1.rewards@.len() + 1
    &&& l2.rewards@.drop_last() == l1.rewards@
    &&& is_new_reward(l2.rewards@.last(), l1.reward_counter as nat, user, amount, activity_type, now)
}

/// `l2` differs from `l1` at most in its rules and rule counter.
pub open spec fn same_but_rules(l1: Ledger, l2: Ledger) -> bool {
    &&& l2.admin == l1.admin
    &&& l2.config == l1.config
    &&& l2.rewards == l1.rewards
    &&& l2.reward_counter == l1.reward_counter
    &&& l2.contracts == l1.contracts
    &&& l2.user_levels == l1.user_levels
}

/// `l2` differs from `l1` at most in its contract registrations.
pub open spec fn same_but_contracts(l1: Ledger, l2: Ledger) -> bool {
    &&& l2.admin == l1.admin
    &&& l2.config == l1.config
    &&& l2.rewards == l1.rewards
    &&& l2.reward_counter == l1.reward_counter
    &&& l2.rules == l1.rules
    &&& l2.rule_counter == l1.rule_counter
    &&& l2.user_levels == l1.user_levels
}

/// `l2` differs from `l1` at most in its progression records.
pub open spec fn same_but_levels(l1: Ledger, l2: Ledger) -> bool {
    &&& l2.admin == l1.admin
    &&& l2.config == l1.config
    &&& l2.rewards == l1.rewards
    &&& l2.reward_counter == l1.reward_counter
    &&& l2.rules == l1.rules
    &&& l2.rule_counter == l1.rule_counter
    &&& l2.contracts == l1.contracts
}

/// The progression record of `user` once its points are set: the stored one
/// with new points, or a fresh Bronze record.
pub open spec fn level_with_points(levels: Seq<UserLevelInfo>, user: String, points: u32) -> UserLevelInfo {
    if contains_key(levels, level_key(), user@) {
        UserLevelInfo { points, ..levels[index_of(levels, level_key(), user@)] }
    } else {
        UserLevelInfo {
            user,
            level: UserLevel::Bronze,
            points,
            level_up_count: 0,
            last_level_up: None,
            total_rewards: 0,
        }
    }
}

/// Whether command `msg` of `caller` succeeds on `l`.
pub open spec fn succeeds(l: Ledger, caller: Seq<char>, msg: ExecuteMsg) -> bool {
    match msg {
        ExecuteMsg::ClaimReward { reward_id } => claimable(l, caller, reward_id@),
        _ => caller == l.admin@ && match msg {
            ExecuteMsg::DistributeReward { .. } => l.reward_counter < u64::MAX,
            ExecuteMsg::MintForPoints { points_amount, .. } => points_amount >= MIN_POINTS_EXCHANGE
                && l.reward_counter < u64::MAX,
            ExecuteMsg::CreateRule { .. } => l.rule_counter < u64::MAX,
            ExecuteMsg::RegisterContract { contract_addr, .. } => contract_addr is Ok,
            _ => true,
        },
    }
}

/// The effect of a successful command `msg` issued by `caller` at `now`.
pub open spec fn executed(l1: Ledger, l2: Ledger, caller: Seq<char>, msg: ExecuteMsg, now: u64) -> bool {
    match msg {
        ExecuteMsg::DistributeReward { user, amount, activity_type } => reward_issued(
            l1,
            l2,
            user,
            amount,
            activity_type,
            now,
        ),
        ExecuteMsg::ClaimReward { reward_id } => {
            let i = claim_target(l1, caller, reward_id@);
            &&& claimable(l1, caller, reward_id@)
            &&& same_but_rewards(l1, l2)
            &&& l2.reward_counter == l1.reward_counter
            &&& l2.rewards@ == l1.rewards@.update(i, claimed(l1.rewards@[i], now))
        },
        ExecuteMsg::MintForPoints { user, points_amount } => {
            &&& points_amount >= MIN_POINTS_EXCHANGE
            &&& reward_issued(l1, l2, user, points_amount, l2.rewards@.last().activity_type, now)
            &&& is_points_exchange(l2.rewards@.last().activity_type)
        },
        ExecuteMsg::CreateRule { rule } => {
            &&& same_but_rules(l1, l2)
            &&& l2.rule_counter == l1.rule_counter + 1
            &&& exists|saved: RuleDetails|
                stamped(saved, rule, rule_id_text(l1.rule_counter as nat), now, now) && l2.rules@
                    == put(l1.rules@, rule_key(), saved)
        },
        ExecuteMsg::UpdateRule { rule_id, rule } => {
            &&& same_but_rules(l1, l2)
            &&& l2.rule_counter == l1.rule_counter
            &&& l2.rules@ == put(
                l1.rules@,
                rule_key(),
                RuleDetails { rule_id: rule_id, updated_at: now, ..rule },
            )
        },
        ExecuteMsg::DeleteRule { rule_id } => {
            &&& same_but_rules(l1, l2)
            &&& l2.rule_counter == l1.rule_counter
            &&& l2.rules@ == without(l1.rules@, rule_key(), rule_id@)
        },
        ExecuteMsg::RegisterContract { contract_type, contract_addr } => {
            &&& same_but_contracts(l1, l2)
            &&& exists|saved: ContractInfo|
                saved.contract_type == contract_type && saved.contract_addr == contract_addr->Ok_0
                    && saved.status == ContractStatus::Active && saved.capabilities@.len() == 0
                    && saved.registered_at == now && l2.contracts@ == put(
                    l1.contracts@,
                    contract_key_of(),
                    saved,
                )
        },
        ExecuteMsg::UpdateUserLevel { user, points } => {
            &&& same_but_levels(l1, l2)
            &&& l2.user_levels@ == put(
                l1.user_levels@,
                level_key(),
                level_with_points(l1.user_levels@, user, points),
            )
        },
        ExecuteMsg::UpdateConfig { config } => l2 == (Ledger { config, ..l1 }),
    }
}

/// The names of the users of a sequence of rewards, in order.
pub open spec fn user_names(rewards: Seq<UserReward>) -> Seq<Seq<char>> {
    rewards.map_values(|r: UserReward| r.user@)
}

/// The users that hold at least one reward.
pub open spec fn reward_users(rewards: Seq<UserReward>) -> Set<Seq<char>> {
    user_names(rewards).to_set()
}

/// The sum of the amounts of a sequence of rewards.
pub open spec fn total_amount(rewards: Seq<UserReward>) -> int
    decreases rewards.len(),
{
    if rewards.len() == 0 {
        0
    } else {
        total_amount(rewards.drop_last()) + rewards.last().amount
    }
}

/// Every figure of the statistics fits its field.
pub open spec fn stats_fit(l: Ledger) -> bool {
    &&& reward_users(l.rewards@).len() <= u32::MAX
    &&& total_amount(l.rewards@) <= u128::MAX
    &&& l.rules@.len() <= u32::MAX
    &&& l.contracts@.len() <= u32::MAX
}

proof fn lemma_total_amount_prefix(s: Seq<UserReward>, i: int)
    requires
        0 <= i <= s.len(),
    ensures
        total_amount(s.subrange(0, i)) <= total_amount(s),
    decreases s.len() - i,
{
    if i < s.len() {
        lemma_total_amount_prefix(s, i + 1);
        assert(s.subrange(0, i + 1).drop_last() == s.subrange(0, i));
    } else {
        assert(s.subrange(0, i) == s);
    }
}

/// The sum of all reward amounts, if it fits.
fn sum_amounts(rewards: &Vec<UserReward>) -> (r: Option<u128>)
    ensures
        r is Some <==> total_amount(rewards@) <= u128::MAX,
        r is Some ==> r->Some_0 == total_amount(rewards@),
{
    let mut total: u128 = 0;
    let mut i: usize = 0;
    while i < rewards.len()
        invariant
            i <= rewards@.len(),
            total == total_amount(rewards@.subrange(0, i as int)),
        decreases rewards@.len() - i,
    {
        assert(rewards@.subrange(0, i + 1).drop_last() == rewards@.subrange(0, i as int));
        if total > u128::MAX - rewards[i].amount {
            proof {
                lemma_total_amount_prefix(rewards@, i + 1);
            }
            return None;
        }
        total = total + rewards[i].amount;
        i = i + 1;
    }
    assert(rewards@.subrange(0, rewards@.len() as int) == rewards@);
    Some(total)
}

/// The number of distinct users that hold a reward.
fn count_users(rewards: &Vec<UserReward>) -> (r: usize)
    ensures
        r == reward_users(rewards@).len(),
{
    let mut seen: Vec<String> = Vec::new();
    let mut i: usize = 0;
    while i < rewards.len()
        invariant
            i <= rewards@.len(),
            seen@.map_values(|s: String| s@).no_duplicates(),
            seen@.map_values(|s: String| s@).to_set() == user_names(
                rewards@.subrange(0, i as int),
            ).to_set(),
        decreases rewards@.len() - i,
    {
        let ghost before = seen@.map_values(|s: String| s@);
        let user = &rewards[i].user;
        let mut found = false;
        let mut j: usize = 0;
        while j < seen.len()
            invariant
                j <= seen@.len(),
                before == seen@.map_values(|s: String| s@),
                found == (exists|k: int| 0 <= k < j && before[k] == user@),
            decreases seen@.len() - j,
        {
            assert(before[j as int] == seen@[j as int]@);
            if seen[j] == *user {
                found = true;
            }
            j = j + 1;
        }
        let ghost names = user_names(rewards@.subrange(0, i as int));
        assert(user_names(rewards@.subrange(0, i + 1)) =~= names + seq![user@]);
        proof {
            Seq::lemma_to_set_insert_commutes(names, user@);
        }
        if !found {
            seen.push(user.clone());
            assert(seen@.map_values(|s: String| s@) =~= before + seq![user@]);
            proof {
                Seq::lemma_to_set_insert_commutes(before, user@);
            }
        } else {
            assert(before.contains(user@));
            assert(before.to_set().insert(user@) =~= before.to_set());
        }
        i = i + 1;
    }
    assert(rewards@.subrange(0, rewards@.len() as int) == rewards@);
    proof {
        seen@.map_values(|s: String| s@).unique_seq_to_set();
    }
    seen.len()
}

/// Whether no two rules share an identifier.
fn rules_unique(rules: &Vec<RuleDetails>) -> (r: bool)
    ensures
        r == keys_unique(rules@, rule_key()),
{
    let mut i: usize = 0;
    while i < rules.len()
        invariant
            i <= rules@.len(),
            forall|a: int, b: int|
                0 <= a < i && 0 <= b < rules@.len() && a != b ==> #[trigger] rules@[a].rule_id@
                    != #[trigger] rules@[b].rule_id@,
        decreases rules@.len() - i,
    {
        let mut j: usize = 0;
        while j < rules.len()
            invariant
                i < rules@.len(),
                j <= rules@.len(),
                forall|a: int, b: int|
                    0 <= a < i && 0 <= b < rules@.len() && a != b ==> #[trigger] rules@[a].rule_id@
                        != #[trigger] rules@[b].rule_id@,
                forall|b: int| 0 <= b < j && b != i ==> rules@[i as int].rule_id@ != #[trigger] rules@[b].rule_id@,
            decreases rules@.len() - j,
        {
            if j != i && rules[i].rule_id == rules[j].rule_id {
                assert(rule_key()(rules@[i as int]) == rule_key()(rules@[j as int]));
                return false;
            }
            j = j + 1;
        }
        i = i + 1;
    }
    assert forall|a: int, b: int|
        0 <= a < rules@.len() && 0 <= b < rules@.len() && #[trigger] rule_key()(rules@[a])
            == #[trigger] rule_key()(rules@[b]) implies a == b by {
        if a != b {
            assert(rules@[a].rule_id@ != rules@[b].rule_id@);
        }
    }
    true
}

/// Whether no two registrations share a contract type.
fn contracts_unique(contracts: &Vec<ContractInfo>) -> (r: bool)
    ensures
        r == keys_unique(contracts@, contract_key_of()),
{
    let mut i: usize = 0;
    while i < contracts.len()
        invariant
            i <= contracts@.len(),
            forall|a: int, b: int|
                0 <= a < i && 0 <= b < contracts@.len() && a != b
                    ==> #[trigger] contracts@[a].contract_type@ != #[trigger] contracts@[b].contract_type@,
        decreases contracts@.len() - i,
    {
        let mut j: usize = 0;
        while j < contracts.len()
            invariant
                i < contracts@.len(),
                j <= contracts@.len(),
                forall|a: int, b: int|
                    0 <= a < i && 0 <= b < contracts@.len() && a != b
                        ==> #[trigger] contracts@[a].contract_type@ != #[trigger] contracts@[b].contract_type@,
                forall|b: int|
                    0 <= b < j && b != i ==> contracts@[i as int].contract_type@
                        != #[trigger] contracts@[b].contract_type@,
            decreases contracts@.len() - j,
        {
            if j != i && contracts[i].contract_type.same_kind(&contracts[j].contract_type) {
                assert(contract_key_of()(contracts@[i as int]) == contract_key_of()(contracts@[j as int]));
                return false;
            }
            j = j + 1;
        }
        i = i + 1;
    }
    assert forall|a: int, b: int|
        0 <= a < contracts@.len() && 0 <= b < contracts@.len() && #[trigger] contract_key_of()(
            contracts@[a],
        ) == #[trigger] contract_key_of()(contracts@[b]) implies a == b by {
        if a != b {
            assert(contracts@[a].contract_type@ != contracts@[b].contract_type@);
        }
    }
    true
}

/// Whether no two progression records share a user.
fn levels_unique(levels: &Vec<UserLevelInfo>) -> (r: bool)
    ensures
        r == keys_unique(levels@, level_key()),
{
    let mut i: usize = 0;
    while i < levels.len()
        invariant
            i <= levels@.len(),
            forall|a: int, b: int|
                0 <= a < i && 0 <= b < levels@.len() && a != b ==> #[trigger] levels@[a].user@
                    != #[trigger] levels@[b].user@,
        decreases levels@.len() - i,
    {
        let mut j: usize = 0;
        while j < levels.len()
            invariant
                i < levels@.len(),
                j <= levels@.len(),
                forall|a: int, b: int|
                    0 <= a < i && 0 <= b < levels@.len() && a != b ==> #[trigger] levels@[a].user@
                        != #[trigger] levels@[b].user@,
                forall|b: int| 0 <= b < j && b != i ==> levels@[i as int].user@ != #[trigger] levels@[b].user@,
            decreases levels@.len() - j,
        {
            if j != i && levels[i].user == levels[j].user {
                assert(level_key()(levels@[i as int]) == level_key()(levels@[j as int]));
                return false;
            }
            j = j + 1;
        }
        i = i + 1;
    }
    assert forall|a: int, b: int|
        0 <= a < levels@.len() && 0 <= b < levels@.len() && #[trigger] level_key()(levels@[a])
            == #[trigger] level_key()(levels@[b]) implies a == b by {
        if a != b {
            assert(levels@[a].user@ != levels@[b].user@);
        }
    }
    true
}

/// `saved` is `rule` stored under identifier `id` with the given time stamps.
pub open spec fn stamped(
    saved: RuleDetails,
    rule: RuleDetails,
    id: Seq<char>,
    created_at: u64,
    updated_at: u64,
) -> bool {
    &&& saved.rule_id@ == id
    &&& saved.rule_name == rule.rule_name
    &&& saved.rule_type == rule.rule_type
    &&& saved.conditions == rule.conditions
    &&& saved.rewards == rule.rewards
    &&& saved.enabled == rule.enabled
    &&& saved.created_at == created_at
    &&& saved.updated_at == updated_at
}

/// Position of the reward that `caller` may claim as `reward_id`, or -1:
/// the reward of that name, provided it belongs to `caller`.
pub open spec fn claim_target(l: Ledger, caller: Seq<char>, reward_id: Seq<char>) -> int {
    let i = index_of(l.rewards@, reward_key(), reward_id);
    if i >= 0 && l.rewards@[i].user@ == caller {
        i
    } else {
        -1
    }
}

/// `caller` holds a pending reward named `reward_id`.
pub open spec fn claimable(l: Ledger, caller: Seq<char>, reward_id: Seq<char>) -> bool {
    let i = claim_target(l, caller, reward_id);
    i >= 0 && l.rewards@[i].status == RewardStatus::Pending
}

/// Reward names are unique in a consistent ledger.
pub proof fn lemma_reward_keys_unique(l: Ledger)
    requires
        l.wf(),
    ensures
        keys_unique(l.rewards@, reward_key()),
{
    assert forall|i: int, j: int|
        0 <= i < l.rewards@.len() && 0 <= j < l.rewards@.len() && #[trigger] reward_key()(
            l.rewards@[i],
        ) == #[trigger] reward_key()(l.rewards@[j]) implies i == j by {
        assert(l.rewards@[i].reward_id@ == reward_id_text(i as nat));
        assert(l.rewards@[j].reward_id@ == reward_id_text(j as nat));
        lemma_reward_id_injective(i as nat, j as nat);
    }
}

/// The result is the error `Unauthorized`.
pub open spec fn is_unauthorized<T>(r: Result<T, ContractError>) -> bool {
    r is Err && r->Err_0 is Unauthorized
}

impl Ledger {
    /// The stores are consistent: the `n`-th reward is named `reward_<n>`, one
    /// per counter value issued, and every keyed store holds one record per key.
    pub open spec fn wf(&self) -> bool {
        &&& self.rewards@.len() == self.reward_counter
        &&& forall|i: int|
            0 <= i < self.rewards@.len() ==> #[trigger] self.rewards@[i].reward_id@
                == reward_id_text(i as nat)
        &&& keys_unique(self.rules@, rule_key())
        &&& keys_unique(self.contracts@, contract_key_of())
        &&& keys_unique(self.user_levels@, level_key())
    }

    /// Whether the stores are consistent, as `wf` states; a ledger rebuilt from
    /// outside data is checked with it before any command runs on it.
    pub fn is_consistent(&self) -> (r: bool)
        ensures
            r == self.wf(),
    {
        if self.rewards.len() as u64 != self.reward_counter {
            return false;
        }
        let mut i: usize = 0;
        while i < self.rewards.len()
            invariant
                i <= self.rewards@.len(),
                forall|k: int| 0 <= k < i ==> #[trigger] self.rewards@[k].reward_id@ == reward_id_text(k as nat),
            decreases self.rewards@.len() - i,
        {
            let mut n = i as u64;
            let expected = match get_next_reward_id(&mut n) {
                Ok(id) => id,
                Err(_) => {
                    return false;
                },
            };
            if self.rewards[i].reward_id != expected {
                return false;
            }
            i = i + 1;
        }
        rules_unique(&self.rules) && contracts_unique(&self.contracts) && levels_unique(
            &self.user_levels,
        )
    }

    /// Succeeds exactly when `caller` is the administrator.
    pub fn check_admin(&self, caller: &String) -> (r: Result<(), ContractError>)
        ensures
            r is Ok <==> caller@ == self.admin@,
            r is Err ==> is_unauthorized(r),
    {
        if *caller == self.admin {
            Ok(())
        } else {
            Err(ContractError::Unauthorized {})
        }
    }

    /// Appends a pending reward under the next identifier, which it returns.
    fn issue_reward(
        &mut self,
        user: String,
        amount: u128,
        activity_type: ActivityType,
        now: u64,
    ) -> (r: Result<String, ContractError>)
        requires
            old(self).wf(),
        ensures
            final(self).wf(),
            r is Ok <==> old(self).reward_counter < u64::MAX,
            r is Ok ==> reward_issued(*old(self), *final(self), user, amount, activity_type, now)
                && r->Ok_0@ == reward_id_text(old(self).reward_counter as nat),
            r is Err ==> *final(self) == *old(self) && r->Err_0 is SystemError,
    {
        let reward_id = get_next_reward_id(&mut self.reward_counter)?;
        let id_out = reward_id.clone();
        let reward = UserReward {
            reward_id,
            user,
            amount,
            reward_type: RewardType::Token,
            activity_type,
            created_at: now,
            claimed_at: None,
            expires_at: None,
            status: RewardStatus::Pending,
        };
        self.rewards.push(reward);
        assert(self.rewards@.drop_last() =~= old(self).rewards@);
        Ok(id_out)
    }

    /// Records a pending token reward of `amount` for `user`.
    pub fn execute_distribute_reward(
        &mut self,
        caller: &String,
        user: String,
        amount: u128,
        activity_type: ActivityType,
        now: u64,
    ) -> (r: Result<Response, ContractError>)
        requires
            old(self).wf(),
        ensures
            final(self).wf(),
            r is Ok <==> caller@ == old(self).admin@ && old(self).reward_counter < u64::MAX,
            caller@ != old(self).admin@ ==> is_unauthorized(r),
            r is Err ==> *final(self) == *old(self),
            r is Ok ==> reward_issued(*old(self), *final(self), user, amount, activity_type, now)
                && attribute_pairs(r->Ok_0.attributes@) == seq![
                ("method"@, "distribute_reward"@),
                ("user"@, user@),
                ("reward_id"@, reward_id_text(old(self).reward_counter as nat)),
                ("amount"@, decimal(amount as nat)),
            ],
    {
        self.check_admin(caller)?;
        let user_out = user.clone();
        let reward_id = self.issue_reward(user, amount, activity_type, now)?;
        let resp = Response::new().add_attribute("method", String::from_str("distribute_reward"));
        let resp = resp.add_attribute("user", user_out);
        let resp = resp.add_attribute("reward_id", reward_id);
        let resp = resp.add_attribute("amount", decimal_text(amount));
        assert(attribute_pairs(resp.attributes@) =~= seq![
            ("method"@, "distribute_reward"@),
            ("user"@, user@),
            ("reward_id"@, reward_id_text(old(self).reward_counter as nat)),
            ("amount"@, decimal(amount as nat)),
        ]);
        Ok(resp)
    }

    /// Exchanges `points_amount` points, at least the minimum, for a pending
    /// token reward of the same amount.
    pub fn execute_mint_for_points(
        &mut self,
        caller: &String,
        user: String,
        points_amount: u128,
        now: u64,
    ) -> (r: Result<Response, ContractError>)
        requires
            old(self).wf(),
        ensures
            final(self).wf(),
            r is Ok <==> caller@ == old(self).admin@ && points_amount >= MIN_POINTS_EXCHANGE
                && old(self).reward_counter < u64::MAX,
            caller@ != old(self).admin@ ==> is_unauthorized(r),
            caller@ == old(self).admin@ && points_amount < MIN_POINTS_EXCHANGE ==> r is Err
                && r->Err_0 is InvalidAmount,
            r is Err ==> *final(self) == *old(self),
            r is Ok ==> reward_issued(
                *old(self),
                *final(self),
                user,
                points_amount,
                final(self).rewards@.last().activity_type,
                now,
            ) && is_points_exchange(final(self).rewards@.last().activity_type)
                && attribute_pairs(r->Ok_0.attributes@) == seq![
                ("method"@, "mint_for_points"@),
                ("user"@, user@),
                ("points_amount"@, decimal(points_amount as nat)),
                ("reward_id"@, reward_id_text(old(self).reward_counter as nat)),
            ],
    {
        self.check_admin(caller)?;
        if points_amount < MIN_POINTS_EXCHANGE {
            return Err(ContractError::InvalidAmount {});
        }
        let user_out = user.clone();
        let activity_type = ActivityType::Custom {
            activity_id: String::from_str("points_exchange"),
        };
        let reward_id = self.issue_reward(user, points_amount, activity_type, now)?;
        let resp = Response::new().add_attribute("method", String::from_str("mint_for_points"));
        let resp = resp.add_attribute("user", user_out);
        let resp = resp.add_attribute("points_amount", decimal_text(points_amount));
        let resp = resp.add_attribute("reward_id", reward_id);
        assert(attribute_pairs(resp.attributes@) =~= seq![
            ("method"@, "mint_for_points"@),
            ("user"@, user@),
            ("points_amount"@, decimal(points_amount as nat)),
            ("reward_id"@, reward_id_text(old(self).reward_counter as nat)),
        ]);
        Ok(resp)
    }

    /// Position of the reward named `reward_id`, if any.
    fn find_reward(&self, reward_id: &String) -> (r: Option<usize>)
        ensures
            match r {
                Some(i) => i < self.rewards@.len() && self.rewards@[i as int].reward_id@
                    == reward_id@,
                None => !contains_key(self.rewards@, reward_key(), reward_id@),
            },
    {
        let mut i: usize = 0;
        while i < self.rewards.len()
            invariant
                i <= self.rewards@.len(),
                forall|k: int| 0 <= k < i ==> #[trigger] self.rewards@[k].reward_id@ != reward_id@,
            decreases self.rewards@.len() - i,
        {
            if self.rewards[i].reward_id == *reward_id {
                return Some(i);
            }
            i = i + 1;
        }
        None
    }

    /// Marks the pending reward `reward_id` of `caller` as claimed at `now`.
    /// A reward of another user is not found; one that is no longer pending
    /// gives the error that names its state.
    pub fn execute_claim_reward(&mut self, caller: &String, reward_id: String, now: u64) -> (r:
        Result<Response, ContractError>)
        requires
            old(self).wf(),
        ensures
            final(self).wf(),
            r is Ok <==> claimable(*old(self), caller@, reward_id@),
            ({
                let i = claim_target(*old(self), caller@, reward_id@);
                &&& i < 0 ==> r is Err && r->Err_0 is RewardNotFound
                &&& i >= 0 ==> match old(self).rewards@[i].status {
                    RewardStatus::Pending => r is Ok,
                    RewardStatus::Claimed => r is Err && r->Err_0 is RewardAlreadyClaimed,
                    RewardStatus::Expired => r is Err && r->Err_0 is RewardExpired,
                    RewardStatus::Cancelled => r is Err && r->Err_0 is OperationNotAllowed,
                }
                &&& r is Ok ==> same_but_rewards(*old(self), *final(self))
                    && final(self).reward_counter == old(self).reward_counter
                    && final(self).rewards@ == old(self).rewards@.update(
                    i,
                    claimed(old(self).rewards@[i], now),
                )
            }),
            r is Err ==> *final(self) == *old(self),
            r is Ok ==> attribute_pairs(r->Ok_0.attributes@) == seq![
                ("method"@, "claim_reward"@),
                ("reward_id"@, reward_id@),
                ("user"@, caller@),
            ],
    {
        proof {
            lemma_reward_keys_unique(*self);
        }
        let i = match self.find_reward(&reward_id) {
            Some(i) => i,
            None => {
                return Err(ContractError::RewardNotFound {});
            },
        };
        proof {
            lemma_index_of(self.rewards@, reward_key(), i as int);
        }
        if self.rewards[i].user != *caller {
            return Err(ContractError::RewardNotFound {});
        }
        match self.rewards[i].status {
            RewardStatus::Pending => {},
            RewardStatus::Claimed => {
                return Err(ContractError::RewardAlreadyClaimed {});
            },
            RewardStatus::Expired => {
                return Err(ContractError::RewardExpired {});
            },
            RewardStatus::Cancelled => {
                return Err(ContractError::OperationNotAllowed {});
            },
        }
        let mut record = self.rewards[i].clone();
        record.status = RewardStatus::Claimed;
        record.claimed_at = Some(now);
        self.rewards[i] = record;
        let resp = Response::new().add_attribute("method", String::from_str("claim_reward"));
        let resp = resp.add_attribute("reward_id", reward_id);
        let resp = resp.add_attribute("user", caller.clone());
        assert(attribute_pairs(resp.attributes@) =~= seq![
            ("method"@, "claim_reward"@),
            ("reward_id"@, reward_id@),
            ("user"@, caller@),
        ]);
        assert(self.rewards@ =~= old(self).rewards@.update(
            i as int,
            claimed(old(self).rewards@[i as int], now),
        ));
        Ok(resp)
    }

    /// Position of the rule named `rule_id`, if any.
    fn find_rule(&self, rule_id: &String) -> (r: Option<usize>)
        ensures
            match r {
                Some(i) => i < self.rules@.len() && self.rules@[i as int].rule_id@ == rule_id@,
                None => !contains_key(self.rules@, rule_key(), rule_id@),
            },
    {
        let mut i: usize = 0;
        while i < self.rules.len()
            invariant
                i <= self.rules@.len(),
                forall|k: int| 0 <= k < i ==> #[trigger] self.rules@[k].rule_id@ != rule_id@,
            decreases self.rules@.len() - i,
        {
            if self.rules[i].rule_id == *rule_id {
                return Some(i);
            }
            i = i + 1;
        }
        None
    }

    /// Writes `rule` under its identifier, replacing the rule stored there.
    fn put_rule(&mut self, rule: RuleDetails)
        requires
            old(self).wf(),
        ensures
            final(self).wf(),
            final(self).rules@ == put(old(self).rules@, rule_key(), rule),
            same_but_rules(*old(self), *final(self)),
            final(self).rule_counter == old(self).rule_counter,
    {
        proof {
            lemma_put_unique(self.rules@, rule_key(), rule);
        }
        match self.find_rule(&rule.rule_id) {
            Some(i) => {
                proof {
                    lemma_index_of(self.rules@, rule_key(), i as int);
                }
                self.rules[i] = rule;
            },
            None => {
                self.rules.push(rule);
            },
        }
    }

    /// Stores `rule` under a fresh identifier, with both time stamps set to `now`.
    pub fn execute_create_rule(&mut self, caller: &String, rule: RuleDetails, now: u64) -> (r:
        Result<Response, ContractError>)
        requires
            old(self).wf(),
        ensures
            final(self).wf(),
            r is Ok <==> caller@ == old(self).admin@ && old(self).rule_counter < u64::MAX,
            caller@ != old(self).admin@ ==> is_unauthorized(r),
            r is Err ==> *final(self) == *old(self),
            r is Ok ==> same_but_rules(*old(self), *final(self)) && final(self).rule_counter
                == old(self).rule_counter + 1 && (exists|saved: RuleDetails|
                stamped(saved, rule, rule_id_text(old(self).rule_counter as nat), now, now)
                    && final(self).rules@ == put(old(self).rules@, rule_key(), saved))
                && attribute_pairs(r->Ok_0.attributes@) == seq![
                ("method"@, "create_rule"@),
                ("rule_id"@, rule_id_text(old(self).rule_counter as nat)),
            ],
    {
        self.check_admin(caller)?;
        let rule_id = get_next_rule_id(&mut self.rule_counter)?;
        let mut rule = rule;
        rule.rule_id = rule_id.clone();
        rule.created_at = now;
        rule.updated_at = now;
        self.put_rule(rule);
        let resp = Response::new().add_attribute("method", String::from_str("create_rule"));
        let resp = resp.add_attribute("rule_id", rule_id);
        assert(attribute_pairs(resp.attributes@) =~= seq![
            ("method"@, "create_rule"@),
            ("rule_id"@, rule_id_text(old(self).rule_counter as nat)),
        ]);
        Ok(resp)
    }

    /// Writes `rule` under `rule_id`, whether or not a rule was stored there,
    /// with its update time set to `now`.
    pub fn execute_update_rule(
        &mut self,
        caller: &String,
        rule_id: String,
        rule: RuleDetails,
        now: u64,
    ) -> (r: Result<Response, ContractError>)
        requires
            old(self).wf(),
        ensures
            final(self).wf(),
            r is Ok <==> caller@ == old(self).admin@,
            caller@ != old(self).admin@ ==> is_unauthorized(r),
            r is Err ==> *final(self) == *old(self),
            r is Ok ==> same_but_rules(*old(self), *final(self)) && final(self).rule_counter
                == old(self).rule_counter && final(self).rules@ == put(
                old(self).rules@,
                rule_key(),
                RuleDetails { rule_id: rule_id, updated_at: now, ..rule },
            ) && attribute_pairs(r->Ok_0.attributes@) == seq![
                ("method"@, "update_rule"@),
                ("rule_id"@, rule_id@),
            ],
    {
        self.check_admin(caller)?;
        let mut rule = rule;
        rule.rule_id = rule_id.clone();
        rule.updated_at = now;
        self.put_rule(rule);
        let resp = Response::new().add_attribute("method", String::from_str("update_rule"));
        let resp = resp.add_attribute("rule_id", rule_id);
        assert(attribute_pairs(resp.attributes@) =~= seq![
            ("method"@, "update_rule"@),
            ("rule_id"@, rule_id@),
        ]);
        Ok(resp)
    }

    /// Removes the rule `rule_id`; removing an absent rule is no error.
    pub fn execute_delete_rule(&mut self, caller: &String, rule_id: String) -> (r: Result<
        Response,
        ContractError,
    >)
        requires
            old(self).wf(),
        ensures
            final(self).wf(),
            r is Ok <==> caller@ == old(self).admin@,
            caller@ != old(self).admin@ ==> is_unauthorized(r),
            r is Err ==> *final(self) == *old(self),
            r is Ok ==> same_but_rules(*old(self), *final(self)) && final(self).rule_counter
                == old(self).rule_counter && final(self).rules@ == without(
                old(self).rules@,
                rule_key(),
                rule_id@,
            ) && attribute_pairs(r->Ok_0.attributes@) == seq![
                ("method"@, "delete_rule"@),
                ("rule_id"@, rule_id@),
            ],
    {
        self.check_admin(caller)?;
        proof {
            lemma_without_unique(self.rules@, rule_key(), rule_id@);
        }
        match self.find_rule(&rule_id) {
            Some(i) => {
                proof {
                    lemma_index_of(self.rules@, rule_key(), i as int);
                }
                self.rules.remove(i);
            },
            None => {},
        }
        let resp = Response::new().add_attribute("method", String::from_str("delete_rule"));
        let resp = resp.add_attribute("rule_id", rule_id);
        assert(attribute_pairs(resp.attributes@) =~= seq![
            ("method"@, "delete_rule"@),
            ("rule_id"@, rule_id@),
        ]);
        Ok(resp)
    }

    /// Position of the registration for `contract_type`, if any.
    fn find_contract(&self, contract_type: &ContractType) -> (r: Option<usize>)
        ensures
            match r {
                Some(i) => i < self.contracts@.len() && self.contracts@[i as int].contract_type@
                    == contract_type@,
                None => !contains_key(self.contracts@, contract_key_of(), contract_type@),
            },
    {
        let mut i: usize = 0;
        while i < self.contracts.len()
            invariant
                i <= self.contracts@.len(),
                forall|k: int|
                    0 <= k < i ==> #[trigger] self.contracts@[k].contract_type@ != contract_type@,
            decreases self.contracts@.len() - i,
        {
            if self.contracts[i].contract_type.same_kind(contract_type) {
                return Some(i);
            }
            i = i + 1;
        }
        None
    }

    /// Registers the contract of `contract_type` at the address that the host
    /// validated, as active with no capabilities, replacing any earlier
    /// registration of that type.
    pub fn execute_register_contract(
        &mut self,
        caller: &String,
        contract_type: ContractType,
        contract_addr: Result<String, String>,
        now: u64,
    ) -> (r: Result<Response, ContractError>)
        requires
            old(self).wf(),
        ensures
            final(self).wf(),
            r is Ok <==> caller@ == old(self).admin@ && contract_addr is Ok,
            caller@ != old(self).admin@ ==> is_unauthorized(r),
            caller@ == old(self).admin@ && contract_addr is Err ==> r == Err::<
                Response,
                ContractError,
            >(ContractError::Std { msg: contract_addr->Err_0 }),
            r is Err ==> *final(self) == *old(self),
            r is Ok ==> same_but_contracts(*old(self), *final(self)) && (exists|saved: ContractInfo|
                saved.contract_type == contract_type && saved.contract_addr == contract_addr->Ok_0
                    && saved.status == ContractStatus::Active && saved.capabilities@.len() == 0
                    && saved.registered_at == now && final(self).contracts@ == put(
                    old(self).contracts@,
                    contract_key_of(),
                    saved,
                )) && attribute_pairs(r->Ok_0.attributes@) == seq![
                ("method"@, "register_contract"@),
                ("contract_type"@, kind_label(contract_type@)),
            ],
    {
        self.check_admin(caller)?;
        let addr = match contract_addr {
            Ok(a) => a,
            Err(msg) => {
                return Err(ContractError::Std { msg });
            },
        };
        let label = contract_type.label();
        let info = ContractInfo {
            contract_type,
            contract_addr: addr,
            status: ContractStatus::Active,
            capabilities: Vec::new(),
            registered_at: now,
        };
        proof {
            lemma_put_unique(self.contracts@, contract_key_of(), info);
        }
        match self.find_contract(&info.contract_type) {
            Some(i) => {
                proof {
                    lemma_index_of(self.contracts@, contract_key_of(), i as int);
                }
                self.contracts[i] = info;
            },
            None => {
                self.contracts.push(info);
            },
        }
        let resp = Response::new().add_attribute("method", String::from_str("register_contract"));
        let resp = resp.add_attribute("contract_type", label);
        assert(attribute_pairs(resp.attributes@) =~= seq![
            ("method"@, "register_contract"@),
            ("contract_type"@, kind_label(contract_type@)),
        ]);
        Ok(resp)
    }

    /// Position of the progression record of `user`, if any.
    fn find_level(&self, user: &String) -> (r: Option<usize>)
        ensures
            match r {
                Some(i) => i < self.user_levels@.len() && self.user_levels@[i as int].user@
                    == user@,
                None => !contains_key(self.user_levels@, level_key(), user@),
            },
    {
        let mut i: usize = 0;
        while i < self.user_levels.len()
            invariant
                i <= self.user_levels@.len(),
                forall|k: int| 0 <= k < i ==> #[trigger] self.user_levels@[k].user@ != user@,
            decreases self.user_levels@.len() - i,
        {
            if self.user_levels[i].user == *user {
                return Some(i);
            }
            i = i + 1;
        }
        None
    }

    /// Sets the points of `user`, creating a Bronze record with nothing else
    /// set for a user never seen; no other field changes.
    pub fn execute_update_user_level(&mut self, caller: &String, user: String, points: u32) -> (r:
        Result<Response, ContractError>)
        requires
            old(self).wf(),
        ensures
            final(self).wf(),
            r is Ok <==> caller@ == old(self).admin@,
            caller@ != old(self).admin@ ==> is_unauthorized(r),
            r is Err ==> *final(self) == *old(self),
            r is Ok ==> same_but_levels(*old(self), *final(self)) && final(self).user_levels@
                == put(
                old(self).user_levels@,
                level_key(),
                level_with_points(old(self).user_levels@, user, points),
            ) && attribute_pairs(r->Ok_0.attributes@) == seq![
                ("method"@, "update_user_level"@),
                ("user"@, user@),
                ("points"@, decimal(points as nat)),
            ],
    {
        self.check_admin(caller)?;
        let record = match self.find_level(&user) {
            Some(i) => {
                proof {
                    lemma_index_of(self.user_levels@, level_key(), i as int);
                }
                let mut record = self.user_levels[i].clone();
                record.points = points;
                record
            },
            None => UserLevelInfo {
                user: user.clone(),
                level: UserLevel::Bronze,
                points,
                level_up_count: 0,
                last_level_up: None,
                total_rewards: 0,
            },
        };
        assert(record == level_with_points(old(self).user_levels@, user, points));
        proof {
            lemma_put_unique(self.user_levels@, level_key(), record);
        }
        match self.find_level(&user) {
            Some(i) => {
                proof {
                    lemma_index_of(self.user_levels@, level_key(), i as int);
                }
                self.user_levels[i] = record;
            },
            None => {
                self.user_levels.push(record);
            },
        }
        let resp = Response::new().add_attribute("method", String::from_str("update_user_level"));
        let resp = resp.add_attribute("user", user);
        let resp = resp.add_attribute("points", decimal_text(points as u128));
        assert(attribute_pairs(resp.attributes@) =~= seq![
            ("method"@, "update_user_level"@),
            ("user"@, user@),
            ("points"@, decimal(points as nat)),
        ]);
        Ok(resp)
    }

    /// Replaces the configuration.
    pub fn execute_update_config(&mut self, caller: &String, config: IncentiveConfig) -> (r: Result<
        Response,
        ContractError,
    >)
        requires
            old(self).wf(),
        ensures
            final(self).wf(),
            r is Ok <==> caller@ == old(self).admin@,
            caller@ != old(self).admin@ ==> is_unauthorized(r),
            r is Err ==> *final(self) == *old(self),
            r is Ok ==> *final(self) == (Ledger { config, ..*old(self) })
                && attribute_pairs(r->Ok_0.attributes@) == seq![("method"@, "update_config"@)],
    {
        self.check_admin(caller)?;
        self.config = config;
        let resp = Response::new().add_attribute("method", String::from_str("update_config"));
        assert(attribute_pairs(resp.attributes@) =~= seq![("method"@, "update_config"@)]);
        Ok(resp)
    }

    /// The configuration.
    pub fn query_config(&self) -> (r: IncentiveConfig)
        ensures
            r == self.config,
    {
        self.config
    }

    /// The rewards of `user` in creation order; none for a user never rewarded.
    pub fn query_user_rewards(&self, user: &String) -> (r: Vec<UserReward>)
        ensures
            r@ == rewards_of(self.rewards@, user@),
    {
        let mut out: Vec<UserReward> = Vec::new();
        let mut i: usize = 0;
        while i < self.rewards.len()
            invariant
                i <= self.rewards@.len(),
                out@ == rewards_of(self.rewards@.subrange(0, i as int), user@),
            decreases self.rewards@.len() - i,
        {
            let ghost prefix = self.rewards@.subrange(0, i as int);
            assert(self.rewards@.subrange(0, i + 1).drop_last() == prefix);
            assert(self.rewards@.subrange(0, i + 1).last() == self.rewards@[i as int]);
            proof {
                reveal(Seq::filter);
            }
            if self.rewards[i].user == *user {
                out.push(self.rewards[i].clone());
            }
            i = i + 1;
        }
        assert(self.rewards@.subrange(0, self.rewards@.len() as int) == self.rewards@);
        out
    }

    /// Every rule, in the order in which their identifiers were first written.
    pub fn query_rules(&self) -> (r: &Vec<RuleDetails>)
        ensures
            *r == self.rules,
    {
        &self.rules
    }

    /// Every contract registration, one per contract type.
    pub fn query_contracts(&self) -> (r: &Vec<ContractInfo>)
        ensures
            *r == self.contracts,
    {
        &self.contracts
    }

    /// The progression record of `user`; `UserNotFound` if none was ever created.
    pub fn query_user_level(&self, user: &String) -> (r: Result<UserLevelInfo, ContractError>)
        requires
            self.wf(),
        ensures
            contains_key(self.user_levels@, level_key(), user@) ==> r == Ok::<
                UserLevelInfo,
                ContractError,
            >(self.user_levels@[index_of(self.user_levels@, level_key(), user@)]),
            !contains_key(self.user_levels@, level_key(), user@) ==> r is Err && r->Err_0 is UserNotFound,
    {
        match self.find_level(user) {
            Some(i) => {
                proof {
                    lemma_index_of(self.user_levels@, level_key(), i as int);
                }
                Ok(self.user_levels[i].clone())
            },
            None => Err(ContractError::UserNotFound {}),
        }
    }

    /// Summary of the stores as of `now`: distinct rewarded users, the sum of
    /// all reward amounts whatever their status, and the numbers of rules and
    /// of registrations. Fails with `SystemError` when a figure does not fit
    /// its field.
    pub fn query_system_stats(&self, now: u64) -> (r: Result<SystemStats, ContractError>)
        ensures
            r is Ok <==> stats_fit(*self),
            r is Ok ==> r->Ok_0 == (SystemStats {
                total_users: reward_users(self.rewards@).len() as u32,
                total_rewards_distributed: total_amount(self.rewards@) as u128,
                total_rules: self.rules@.len() as u32,
                total_contracts: self.contracts@.len() as u32,
                last_updated: now,
            }),
            r is Err ==> r->Err_0 is SystemError,
    {
        let users = count_users(&self.rewards);
        let total = match sum_amounts(&self.rewards) {
            Some(t) => t,
            None => {
                return Err(ContractError::SystemError { msg: String::from_str("reward total overflows") });
            },
        };
        if users > u32::MAX as usize || self.rules.len() > u32::MAX as usize
            || self.contracts.len() > u32::MAX as usize {
            return Err(ContractError::SystemError { msg: String::from_str("count overflows") });
        }
        Ok(
            SystemStats {
                total_users: users as u32,
                total_rewards_distributed: total,
                total_rules: self.rules.len() as u32,
                total_contracts: self.contracts.len() as u32,
                last_updated: now,
            },
        )
    }

}

/// Creates the ledger. The administrator is the one named, or else `caller`.
pub fn instantiate(caller: &String, msg: InstantiateMsg) -> (r: (Ledger, Response))
    ensures
        r.0.wf(),
        r.0.admin@ == (match msg.admin {
            Some(a) => a@,
            None => caller@,
        }),
        r.0.config == msg.config,
        r.0.rewards@.len() == 0,
        r.0.reward_counter == 0,
        r.0.rules@.len() == 0,
        r.0.rule_counter == 0,
        r.0.contracts@.len() == 0,
        r.0.user_levels@.len() == 0,
        attribute_pairs(r.1.attributes@) == seq![
            ("method"@, "instantiate"@),
            ("admin"@, r.0.admin@),
        ],
{
    let admin = match msg.admin {
        Some(a) => a,
        None => caller.clone(),
    };
    let resp = Response::new().add_attribute("method", String::from_str("instantiate"));
    let resp = resp.add_attribute("admin", admin.clone());
    let ledger = Ledger {
        admin,
        config: msg.config,
        rewards: Vec::new(),
        reward_counter: 0,
        rules: Vec::new(),
        rule_counter: 0,
        contracts: Vec::new(),
        user_levels: Vec::new(),
    };
    assert(attribute_pairs(resp.attributes@) =~= seq![
        ("method"@, "instantiate"@),
        ("admin"@, ledger.admin@),
    ]);
    (ledger, resp)
}


/// Runs one command on behalf of `caller` at time `now`. A command either
/// succeeds with its effect or fails leaving every store as it was; all but
/// `ClaimReward` are refused to anyone but the administrator.
pub fn execute(ledger: &mut Ledger, caller: &String, msg: ExecuteMsg, now: u64) -> (r: Result<
    Response,
    ContractError,
>)
    requires
        old(ledger).wf(),
    ensures
        final(ledger).wf(),
        r is Ok <==> succeeds(*old(ledger), caller@, msg),
        r is Err ==> *final(ledger) == *old(ledger),
        !(msg is ClaimReward) && caller@ != old(ledger).admin@ ==> is_unauthorized(r),
        r is Ok ==> executed(*old(ledger), *final(ledger), caller@, msg, now),
{
    match msg {
        ExecuteMsg::DistributeReward { user, amount, activity_type } => {
            ledger.execute_distribute_reward(caller, user, amount, activity_type, now)
        },
        ExecuteMsg::ClaimReward { reward_id } => {
            ledger.execute_claim_reward(caller, reward_id, now)
        },
        ExecuteMsg::MintForPoints { user, points_amount } => {
            ledger.execute_mint_for_points(caller, user, points_amount, now)
        },
        ExecuteMsg::CreateRule { rule } => { ledger.execute_create_rule(caller, rule, now) },
        ExecuteMsg::UpdateRule { rule_id, rule } => {
            ledger.execute_update_rule(caller, rule_id, rule, now)
        },
        ExecuteMsg::DeleteRule { rule_id } => { ledger.execute_delete_rule(caller, rule_id) },
        ExecuteMsg::RegisterContract { contract_type, contract_addr } => {
            ledger.execute_register_contract(caller, contract_type, contract_addr, now)
        },
        ExecuteMsg::UpdateUserLevel { user, points } => {
            ledger.execute_update_user_level(caller, user, points)
        },
        ExecuteMsg::UpdateConfig { config } => { ledger.execute_update_config(caller, config) },
    }
}


/// Answers one query at time `now`.
pub fn query<'a>(ledger: &'a Ledger, msg: &QueryMsg, now: u64) -> (r: Result<QueryAnswer<'a>, ContractError>)
    requires
        ledger.wf(),
    ensures
        msg is Config ==> r == Ok::<QueryAnswer, ContractError>(QueryAnswer::Config(ledger.config)),
        msg is UserRewards ==> r is Ok && r->Ok_0 is UserRewards && r->Ok_0->UserRewards_0@
            == rewards_of(ledger.rewards@, msg->UserRewards_user@),
        msg is Rules ==> r == Ok::<QueryAnswer, ContractError>(QueryAnswer::Rules(&ledger.rules)),
        msg is Contracts ==> r == Ok::<QueryAnswer, ContractError>(
            QueryAnswer::Contracts(&ledger.contracts),
        ),
        msg is UserLevel ==> ({
            let user = msg->UserLevel_user@;
            if contains_key(ledger.user_levels@, level_key(), user) {
                r == Ok::<QueryAnswer, ContractError>(
                    QueryAnswer::UserLevel(
                        ledger.user_levels@[index_of(ledger.user_levels@, level_key(), user)],
                    ),
                )
            } else {
                r is Err && r->Err_0 is UserNotFound
            }
        }),
        msg is SystemStats ==> (r is Ok <==> stats_fit(*ledger)),
        msg is SystemStats && r is Ok ==> r->Ok_0 == QueryAnswer::SystemStats(
            SystemStats {
                total_users: reward_users(ledger.rewards@).len() as u32,
                total_rewards_distributed: total_amount(ledger.rewards@) as u128,
                total_rules: ledger.rules@.len() as u32,
                total_contracts: ledger.contracts@.len() as u32,
                last_updated: now,
            },
        ),
{
    match msg {
        QueryMsg::Config {} => Ok(QueryAnswer::Config(ledger.query_config())),
        QueryMsg::UserRewards { user } => Ok(
            QueryAnswer::UserRewards(ledger.query_user_rewards(user)),
        ),
        QueryMsg::Rules {} => Ok(QueryAnswer::Rules(ledger.query_rules())),
        QueryMsg::Contracts {} => Ok(QueryAnswer::Contracts(ledger.query_contracts())),
        QueryMsg::UserLevel { user } => match ledger.query_user_level(user) {
            Ok(l) => Ok(QueryAnswer::UserLevel(l)),
            Err(e) => Err(e),
        },
        QueryMsg::SystemStats {} => match ledger.query_system_stats(now) {
            Ok(s) => Ok(QueryAnswer::SystemStats(s)),
            Err(e) => Err(e),
        },
    }
}

} // verus!
