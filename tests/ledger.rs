use luckee_incentive::{
    decimal_text, execute, get_next_reward_id, get_next_rule_id, instantiate, query, ActivityType,
    ConditionOperator, ConditionType, ContractError, ContractStatus, ContractType, ExecuteMsg,
    IncentiveConfig, InstantiateMsg, Ledger, QueryAnswer, QueryMsg, Response, RewardDefinition,
    RewardStatus, RewardType, RuleCondition, RuleDetails, RuleType, UserLevel,
};

fn config() -> IncentiveConfig {
    IncentiveConfig { max_rewards_per_user: 1000, reward_expiration_days: 30, auto_claim_enabled: true }
}

fn setup() -> Ledger {
    let msg = InstantiateMsg { admin: None, config: config() };
    instantiate(&"creator".to_string(), msg).0
}

fn attrs(r: &Response) -> Vec<(String, String)> {
    r.attributes.iter().map(|a| (a.key.clone(), a.value.clone())).collect()
}

fn pair(k: &str, v: &str) -> (String, String) {
    (k.to_string(), v.to_string())
}

fn blind_box() -> ActivityType {
    ActivityType::BlindBoxOpen { nft_kind: "rare".to_string(), box_id: "box1".to_string() }
}

fn sample_rule(id: &str) -> RuleDetails {
    RuleDetails {
        rule_id: id.to_string(),
        rule_name: "open boxes".to_string(),
        rule_type: RuleType::ActivityBased,
        conditions: vec![RuleCondition {
            condition_type: ConditionType::ActivityType,
            operator: ConditionOperator::Equals,
            value: "blind_box".to_string(),
        }],
        rewards: vec![RewardDefinition {
            reward_type: RewardType::Token,
            amount: 10,
            multiplier: 1_000_000_000_000_000_000,
            conditions: vec![],
        }],
        enabled: true,
        created_at: 1,
        updated_at: 2,
    }
}

trait CloneForTest {
    fn clone_for_test(&self) -> Ledger;
}

impl CloneForTest for Ledger {
    fn clone_for_test(&self) -> Ledger {
        Ledger {
            admin: self.admin.clone(),
            config: self.config,
            rewards: self.rewards.clone(),
            reward_counter: self.reward_counter,
            rules: self.rules.clone(),
            rule_counter: self.rule_counter,
            contracts: self.contracts.clone(),
            user_levels: self.user_levels.clone(),
        }
    }
}

fn rewards_of(l: &Ledger, user: &str) -> Vec<luckee_incentive::UserReward> {
    match query(l, &QueryMsg::UserRewards { user: user.to_string() }, 0) {
        Ok(QueryAnswer::UserRewards(v)) => v,
        _ => panic!("user rewards query failed"),
    }
}

fn rules_of(l: &Ledger) -> Vec<RuleDetails> {
    match query(l, &QueryMsg::Rules {}, 0) {
        Ok(QueryAnswer::Rules(v)) => v.clone(),
        _ => panic!("rules query failed"),
    }
}

#[test]
fn test_instantiate() {
    let msg = InstantiateMsg { admin: None, config: config() };
    let (ledger, res) = instantiate(&"creator".to_string(), msg);
    assert_eq!(ledger.admin, "creator");
    assert_eq!(attrs(&res), vec![pair("method", "instantiate"), pair("admin", "creator")]);
}

#[test]
fn test_query_config() {
    let ledger = setup();
    match query(&ledger, &QueryMsg::Config {}, 0) {
        Ok(QueryAnswer::Config(c)) => assert_eq!(1000, c.max_rewards_per_user),
        _ => panic!("config query failed"),
    }
}

#[test]
fn test_distribute_reward() {
    let mut ledger = setup();
    let msg = ExecuteMsg::DistributeReward {
        user: "luckee1user123456789012345678901234567890".to_string(),
        amount: 1000,
        activity_type: blind_box(),
    };
    let res = execute(&mut ledger, &"creator".to_string(), msg, 100).unwrap();
    assert_eq!(res.attributes.len(), 4);
}

#[test]
fn test_unauthorized_access() {
    let mut ledger = setup();
    let msg = ExecuteMsg::DistributeReward {
        user: "luckee1user223456789012345678901234567890".to_string(),
        amount: 1000,
        activity_type: blind_box(),
    };
    let res = execute(&mut ledger, &"user".to_string(), msg, 100);
    assert!(res.is_err());
}

#[test]
fn explicit_admin_replaces_caller() {
    let msg = InstantiateMsg { admin: Some("boss".to_string()), config: config() };
    let (ledger, _) = instantiate(&"creator".to_string(), msg);
    assert_eq!(ledger.admin, "boss");
}

#[test]
fn reward_ids_follow_call_order_across_users() {
    let mut ledger = setup();
    let admin = "creator".to_string();
    for (k, user) in ["a", "b", "a", "c"].iter().enumerate() {
        let msg = ExecuteMsg::DistributeReward { user: user.to_string(), amount: 5, activity_type: blind_box() };
        let res = execute(&mut ledger, &admin, msg, 10).unwrap();
        assert_eq!(res.attributes[2].value, format!("reward_{}", k));
    }
    let ids: Vec<String> = rewards_of(&ledger, "a").into_iter().map(|r| r.reward_id).collect();
    assert_eq!(ids, vec!["reward_0".to_string(), "reward_2".to_string()]);
}

#[test]
fn distribute_response_attributes() {
    let mut ledger = setup();
    let msg = ExecuteMsg::DistributeReward { user: "u1".to_string(), amount: 1234, activity_type: blind_box() };
    let res = execute(&mut ledger, &"creator".to_string(), msg, 10).unwrap();
    assert_eq!(
        attrs(&res),
        vec![
            pair("method", "distribute_reward"),
            pair("user", "u1"),
            pair("reward_id", "reward_0"),
            pair("amount", "1234"),
        ]
    );
}

#[test]
fn non_admin_changes_nothing() {
    let mut ledger = setup();
    let admin = "creator".to_string();
    let intruder = "mallory".to_string();
    execute(&mut ledger, &admin, ExecuteMsg::CreateRule { rule: sample_rule("x") }, 5).unwrap();
    execute(
        &mut ledger,
        &admin,
        ExecuteMsg::DistributeReward { user: "u".to_string(), amount: 1, activity_type: blind_box() },
        5,
    )
    .unwrap();
    let before_rewards = rewards_of(&ledger, "u");
    let before_rules = rules_of(&ledger);
    let msgs = vec![
        ExecuteMsg::DistributeReward { user: "u".to_string(), amount: 1, activity_type: blind_box() },
        ExecuteMsg::MintForPoints { user: "u".to_string(), points_amount: 5000 },
        ExecuteMsg::CreateRule { rule: sample_rule("y") },
        ExecuteMsg::UpdateRule { rule_id: "rule_0".to_string(), rule: sample_rule("z") },
        ExecuteMsg::DeleteRule { rule_id: "rule_0".to_string() },
        ExecuteMsg::RegisterContract { contract_type: ContractType::Ft, contract_addr: Ok("addr".to_string()) },
        ExecuteMsg::UpdateUserLevel { user: "u".to_string(), points: 7 },
        ExecuteMsg::UpdateConfig {
            config: IncentiveConfig { max_rewards_per_user: 1, reward_expiration_days: 1, auto_claim_enabled: false },
        },
    ];
    for msg in msgs {
        let res = execute(&mut ledger, &intruder, msg, 6);
        assert_eq!(res.err(), Some(ContractError::Unauthorized {}));
    }
    assert_eq!(rewards_of(&ledger, "u"), before_rewards);
    assert_eq!(rules_of(&ledger), before_rules);
    assert_eq!(ledger.reward_counter, 1);
    assert_eq!(ledger.rule_counter, 1);
    assert!(ledger.contracts.is_empty());
    assert!(ledger.user_levels.is_empty());
    assert_eq!(ledger.config, config());
}

#[test]
fn claim_marks_claimed_once() {
    let mut ledger = setup();
    let admin = "creator".to_string();
    execute(
        &mut ledger,
        &admin,
        ExecuteMsg::DistributeReward { user: "u1".to_string(), amount: 9, activity_type: blind_box() },
        10,
    )
    .unwrap();
    let res = execute(&mut ledger, &"u1".to_string(), ExecuteMsg::ClaimReward { reward_id: "reward_0".to_string() }, 77)
        .unwrap();
    assert_eq!(
        attrs(&res),
        vec![pair("method", "claim_reward"), pair("reward_id", "reward_0"), pair("user", "u1")]
    );
    let r = &rewards_of(&ledger, "u1")[0];
    assert_eq!(r.status, RewardStatus::Claimed);
    assert_eq!(r.claimed_at, Some(77));
    let again = execute(&mut ledger, &"u1".to_string(), ExecuteMsg::ClaimReward { reward_id: "reward_0".to_string() }, 78);
    assert_eq!(again.err(), Some(ContractError::RewardAlreadyClaimed {}));
    assert_eq!(rewards_of(&ledger, "u1")[0].claimed_at, Some(77));
}

#[test]
fn claim_of_another_users_reward_is_not_found() {
    let mut ledger = setup();
    execute(
        &mut ledger,
        &"creator".to_string(),
        ExecuteMsg::DistributeReward { user: "u1".to_string(), amount: 9, activity_type: blind_box() },
        10,
    )
    .unwrap();
    let res = execute(&mut ledger, &"u2".to_string(), ExecuteMsg::ClaimReward { reward_id: "reward_0".to_string() }, 11);
    assert_eq!(res.err(), Some(ContractError::RewardNotFound {}));
    let res = execute(&mut ledger, &"u1".to_string(), ExecuteMsg::ClaimReward { reward_id: "reward_9".to_string() }, 11);
    assert_eq!(res.err(), Some(ContractError::RewardNotFound {}));
    assert_eq!(rewards_of(&ledger, "u1")[0].status, RewardStatus::Pending);
}

#[test]
fn claim_of_expired_or_cancelled_reward_is_refused() {
    let mut ledger = setup();
    let admin = "creator".to_string();
    for _ in 0..2 {
        execute(
            &mut ledger,
            &admin,
            ExecuteMsg::DistributeReward { user: "u1".to_string(), amount: 1, activity_type: blind_box() },
            10,
        )
        .unwrap();
    }
    ledger.rewards[0].status = RewardStatus::Expired;
    ledger.rewards[1].status = RewardStatus::Cancelled;
    let user = "u1".to_string();
    let res = execute(&mut ledger, &user, ExecuteMsg::ClaimReward { reward_id: "reward_0".to_string() }, 11);
    assert_eq!(res.err(), Some(ContractError::RewardExpired {}));
    let res = execute(&mut ledger, &user, ExecuteMsg::ClaimReward { reward_id: "reward_1".to_string() }, 11);
    assert_eq!(res.err(), Some(ContractError::OperationNotAllowed {}));
}

#[test]
fn mint_for_points_threshold() {
    let mut ledger = setup();
    let admin = "creator".to_string();
    let res = execute(&mut ledger, &admin, ExecuteMsg::MintForPoints { user: "u".to_string(), points_amount: 999 }, 3);
    assert_eq!(res.err(), Some(ContractError::InvalidAmount {}));
    assert_eq!(ledger.reward_counter, 0);
    let res = execute(&mut ledger, &admin, ExecuteMsg::MintForPoints { user: "u".to_string(), points_amount: 1000 }, 3)
        .unwrap();
    assert_eq!(
        attrs(&res),
        vec![
            pair("method", "mint_for_points"),
            pair("user", "u"),
            pair("points_amount", "1000"),
            pair("reward_id", "reward_0"),
        ]
    );
    let r = &rewards_of(&ledger, "u")[0];
    assert_eq!(r.amount, 1000);
    assert_eq!(r.reward_type, RewardType::Token);
    assert_eq!(r.activity_type, ActivityType::Custom { activity_id: "points_exchange".to_string() });
    assert_eq!(r.status, RewardStatus::Pending);
    assert_eq!(r.created_at, 3);
}

#[test]
fn rule_lifecycle() {
    let mut ledger = setup();
    let admin = "creator".to_string();
    let res = execute(&mut ledger, &admin, ExecuteMsg::CreateRule { rule: sample_rule("client_id") }, 40).unwrap();
    assert_eq!(attrs(&res), vec![pair("method", "create_rule"), pair("rule_id", "rule_0")]);
    let rules = rules_of(&ledger);
    assert_eq!(rules.len(), 1);
    assert_eq!(rules[0].rule_id, "rule_0");
    assert_eq!(rules[0].created_at, 40);
    assert_eq!(rules[0].updated_at, 40);
    assert_eq!(rules[0].rule_name, "open boxes");

    let mut changed = sample_rule("other");
    changed.enabled = false;
    execute(&mut ledger, &admin, ExecuteMsg::UpdateRule { rule_id: "rule_0".to_string(), rule: changed }, 50).unwrap();
    let rules = rules_of(&ledger);
    assert_eq!(rules.len(), 1);
    assert_eq!(rules[0].rule_id, "rule_0");
    assert_eq!(rules[0].updated_at, 50);
    assert!(!rules[0].enabled);

    execute(&mut ledger, &admin, ExecuteMsg::DeleteRule { rule_id: "rule_0".to_string() }, 60).unwrap();
    assert!(rules_of(&ledger).is_empty());
    execute(&mut ledger, &admin, ExecuteMsg::DeleteRule { rule_id: "rule_0".to_string() }, 61).unwrap();
    let res = execute(&mut ledger, &admin, ExecuteMsg::CreateRule { rule: sample_rule("") }, 70).unwrap();
    assert_eq!(res.attributes[1].value, "rule_1");
}

#[test]
fn update_of_unknown_rule_inserts_it() {
    let mut ledger = setup();
    execute(
        &mut ledger,
        &"creator".to_string(),
        ExecuteMsg::UpdateRule { rule_id: "custom".to_string(), rule: sample_rule("x") },
        9,
    )
    .unwrap();
    let rules = rules_of(&ledger);
    assert_eq!(rules.len(), 1);
    assert_eq!(rules[0].rule_id, "custom");
    assert_eq!(rules[0].created_at, 1);
    assert_eq!(rules[0].updated_at, 9);
}

#[test]
fn register_contract_last_write_wins() {
    let mut ledger = setup();
    let admin = "creator".to_string();
    let res = execute(
        &mut ledger,
        &admin,
        ExecuteMsg::RegisterContract { contract_type: ContractType::Ft, contract_addr: Ok("addr_one".to_string()) },
        1,
    )
    .unwrap();
    assert_eq!(attrs(&res), vec![pair("method", "register_contract"), pair("contract_type", "Ft")]);
    execute(
        &mut ledger,
        &admin,
        ExecuteMsg::RegisterContract { contract_type: ContractType::Ft, contract_addr: Ok("addr_two".to_string()) },
        2,
    )
    .unwrap();
    match query(&ledger, &QueryMsg::Contracts {}, 0) {
        Ok(QueryAnswer::Contracts(cs)) => {
            assert_eq!(cs.len(), 1);
            assert_eq!(cs[0].contract_addr, "addr_two");
            assert_eq!(cs[0].status, ContractStatus::Active);
            assert!(cs[0].capabilities.is_empty());
            assert_eq!(cs[0].registered_at, 2);
        }
        _ => panic!("contracts query failed"),
    }
}

#[test]
fn register_contract_with_refused_address() {
    let mut ledger = setup();
    let res = execute(
        &mut ledger,
        &"creator".to_string(),
        ExecuteMsg::RegisterContract {
            contract_type: ContractType::Custom("game".to_string()),
            contract_addr: Err("invalid address".to_string()),
        },
        1,
    );
    assert_eq!(res.err(), Some(ContractError::Std { msg: "invalid address".to_string() }));
    assert!(ledger.contracts.is_empty());
}

#[test]
fn custom_contract_types_are_distinct_keys() {
    let mut ledger = setup();
    let admin = "creator".to_string();
    for (name, addr) in [("a", "x"), ("b", "y"), ("a", "z")] {
        execute(
            &mut ledger,
            &admin,
            ExecuteMsg::RegisterContract {
                contract_type: ContractType::Custom(name.to_string()),
                contract_addr: Ok(addr.to_string()),
            },
            1,
        )
        .unwrap();
    }
    assert_eq!(ledger.contracts.len(), 2);
    assert_eq!(ledger.contracts[0].contract_addr, "z");
    assert_eq!(ledger.contracts[1].contract_addr, "y");
    assert_eq!(ContractType::Custom("a".to_string()).label(), "Custom:a");
}

#[test]
fn contract_type_keys() {
    assert_eq!(ContractType::Ft.key(), vec![b"ft".to_vec()]);
    assert_eq!(ContractType::BlindBox.key(), vec![b"blind_box".to_vec()]);
    assert_eq!(ContractType::Nft.key(), vec![b"nft".to_vec()]);
    assert_eq!(ContractType::Custom("game".to_string()).key(), vec![b"custom".to_vec(), b"game".to_vec()]);
}

#[test]
fn user_level_created_then_points_updated() {
    let mut ledger = setup();
    let admin = "creator".to_string();
    match query(&ledger, &QueryMsg::UserLevel { user: "u".to_string() }, 0) {
        Err(e) => assert_eq!(e, ContractError::UserNotFound {}),
        Ok(_) => panic!("unknown user has a level"),
    }
    let res = execute(&mut ledger, &admin, ExecuteMsg::UpdateUserLevel { user: "u".to_string(), points: 150 }, 0).unwrap();
    assert_eq!(attrs(&res), vec![pair("method", "update_user_level"), pair("user", "u"), pair("points", "150")]);
    let first = match query(&ledger, &QueryMsg::UserLevel { user: "u".to_string() }, 0) {
        Ok(QueryAnswer::UserLevel(l)) => l,
        _ => panic!("level query failed"),
    };
    assert_eq!(first.user, "u");
    assert_eq!(first.level, UserLevel::Bronze);
    assert_eq!(first.points, 150);
    assert_eq!(first.level_up_count, 0);
    assert_eq!(first.last_level_up, None);
    assert_eq!(first.total_rewards, 0);
    ledger.user_levels[0].level = UserLevel::Gold;
    execute(&mut ledger, &admin, ExecuteMsg::UpdateUserLevel { user: "u".to_string(), points: 20 }, 0).unwrap();
    assert_eq!(ledger.user_levels.len(), 1);
    assert_eq!(ledger.user_levels[0].points, 20);
    assert_eq!(ledger.user_levels[0].level, UserLevel::Gold);
}

#[test]
fn update_config_replaces_it() {
    let mut ledger = setup();
    let new = IncentiveConfig { max_rewards_per_user: 5, reward_expiration_days: 7, auto_claim_enabled: false };
    let res = execute(&mut ledger, &"creator".to_string(), ExecuteMsg::UpdateConfig { config: new }, 0).unwrap();
    assert_eq!(attrs(&res), vec![pair("method", "update_config")]);
    assert_eq!(ledger.query_config(), new);
}

#[test]
fn system_stats_are_computed() {
    let mut ledger = setup();
    let admin = "creator".to_string();
    for (user, amount) in [("a", 10u128), ("b", 20), ("a", 30)] {
        execute(
            &mut ledger,
            &admin,
            ExecuteMsg::DistributeReward { user: user.to_string(), amount, activity_type: blind_box() },
            1,
        )
        .unwrap();
    }
    execute(&mut ledger, &admin, ExecuteMsg::CreateRule { rule: sample_rule("") }, 1).unwrap();
    match query(&ledger, &QueryMsg::SystemStats {}, 99) {
        Ok(QueryAnswer::SystemStats(s)) => {
            assert_eq!(s.total_users, 2);
            assert_eq!(s.total_rewards_distributed, 60);
            assert_eq!(s.total_rules, 1);
            assert_eq!(s.total_contracts, 0);
            assert_eq!(s.last_updated, 99);
        }
        _ => panic!("stats query failed"),
    }
}

#[test]
fn system_stats_overflow_is_reported() {
    let mut ledger = setup();
    let admin = "creator".to_string();
    for _ in 0..2 {
        execute(
            &mut ledger,
            &admin,
            ExecuteMsg::DistributeReward { user: "a".to_string(), amount: u128::MAX, activity_type: blind_box() },
            1,
        )
        .unwrap();
    }
    assert!(matches!(ledger.query_system_stats(0), Err(ContractError::SystemError { .. })));
}

#[test]
fn identifier_counters() {
    let mut c: u64 = 41;
    assert_eq!(get_next_reward_id(&mut c).unwrap(), "reward_41");
    assert_eq!(c, 42);
    assert_eq!(get_next_rule_id(&mut c).unwrap(), "rule_42");
    let mut full = u64::MAX;
    assert!(matches!(get_next_reward_id(&mut full), Err(ContractError::SystemError { .. })));
    assert_eq!(full, u64::MAX);
}

#[test]
fn decimal_text_values() {
    assert_eq!(decimal_text(0), "0");
    assert_eq!(decimal_text(7), "7");
    assert_eq!(decimal_text(10), "10");
    assert_eq!(decimal_text(1907), "1907");
    assert_eq!(decimal_text(u128::MAX), u128::MAX.to_string());
}

#[test]
fn end_to_end_claim() {
    let mut ledger = setup();
    execute(
        &mut ledger,
        &"creator".to_string(),
        ExecuteMsg::DistributeReward {
            user: "u1".to_string(),
            amount: 500,
            activity_type: ActivityType::Referral { referrer: "u0".to_string() },
        },
        1000,
    )
    .unwrap();
    let before = rewards_of(&ledger, "u1");
    assert_eq!(before.len(), 1);
    assert_eq!(before[0].amount, 500);
    assert_eq!(before[0].status, RewardStatus::Pending);
    assert_eq!(before[0].claimed_at, None);
    execute(&mut ledger, &"u1".to_string(), ExecuteMsg::ClaimReward { reward_id: "reward_0".to_string() }, 2000)
        .unwrap();
    let after = rewards_of(&ledger, "u1");
    assert_eq!(after.len(), 1);
    assert_eq!(after[0].status, RewardStatus::Claimed);
    assert_eq!(after[0].claimed_at, Some(2000));
    assert!(rewards_of(&ledger, "nobody").is_empty());
}

#[test]
fn consistency_check() {
    let mut ledger = setup();
    let admin = "creator".to_string();
    assert!(ledger.is_consistent());
    execute(
        &mut ledger,
        &admin,
        ExecuteMsg::DistributeReward { user: "u".to_string(), amount: 1, activity_type: blind_box() },
        1,
    )
    .unwrap();
    execute(&mut ledger, &admin, ExecuteMsg::CreateRule { rule: sample_rule("") }, 1).unwrap();
    assert!(ledger.is_consistent());
    let mut renamed = ledger.clone_for_test();
    renamed.rewards[0].reward_id = "reward_7".to_string();
    assert!(!renamed.is_consistent());
    let mut doubled = ledger.clone_for_test();
    doubled.rules.push(doubled.rules[0].clone());
    assert!(!doubled.is_consistent());
    let mut miscounted = ledger.clone_for_test();
    miscounted.reward_counter = 5;
    assert!(!miscounted.is_consistent());
}
