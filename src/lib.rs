//! An incentive ledger: per-user reward grants, administrator-defined rules,
//! registrations of collaborating contracts and per-user progression records,
//! all changed only through commands that a single administrator authorizes.
pub mod contract;
pub mod error;
pub mod laws;
pub mod msg;
pub mod state;
pub mod store;

pub use crate::contract::{
    execute, instantiate, query, Attribute, Ledger, QueryAnswer, Response, MIN_POINTS_EXCHANGE,
};
pub use crate::error::ContractError;
pub use crate::msg::{
    ActivityType, ConditionOperator, ConditionType, ContractInfo, ContractKind, ContractStatus,
    ContractType, ExecuteMsg, ExecuteResponse, IncentiveConfig, InstantiateMsg,
    InstantiateResponse, QueryMsg, QueryResponse, RewardCondition, RewardDefinition, RewardStatus,
    RewardType, RuleCondition, RuleDetails, RuleType, UserLevel, UserLevelInfo, UserReward,
};
pub use crate::state::{decimal_text, get_next_reward_id, get_next_rule_id, SystemStats};
