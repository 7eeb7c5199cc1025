//! Messages and records of the incentive ledger.
//!
//! Amounts are whole token units held as `u128`; instants are nanoseconds
//! since the epoch held as `u64`; addresses are the host's canonical text.
use vstd::prelude::*;

verus! {

// ===== Instantiation =====

/// Parameters given once, when the ledger is created.
pub struct InstantiateMsg {
    /// The administrator; when absent, the creating caller becomes administrator.
    /// The host has already checked its address format.
    pub admin: Option<String>,
    pub config: IncentiveConfig,
}

/// Settings of the ledger. The cap on rewards per user and the expiration
/// period are recorded for the host and its clients; the ledger itself does
/// not enforce them.
#[derive(Clone, Copy, Debug, PartialEq, Eq, Structural)]
pub struct IncentiveConfig {
    pub max_rewards_per_user: u32,
    pub reward_expiration_days: u64,
    pub auto_claim_enabled: bool,
}

// ===== Commands =====

/// A mutating command. Every command but `ClaimReward` is reserved to the administrator.
pub enum ExecuteMsg {
    DistributeReward { user: String, amount: u128, activity_type: ActivityType },
    ClaimReward { reward_id: String },
    MintForPoints { user: String, points_amount: u128 },
    CreateRule { rule: RuleDetails },
    UpdateRule { rule_id: String, rule: RuleDetails },
    DeleteRule { rule_id: String },
    /// `contract_addr` carries the host validator's verdict on the address that
    /// was sent: its canonical form, or the reason it was refused.
    RegisterContract { contract_type: ContractType, contract_addr: Result<String, String> },
    UpdateUserLevel { user: String, points: u32 },
    UpdateConfig { config: IncentiveConfig },
}

// ===== Queries =====

/// A read-only request; no authorization is needed.
pub enum QueryMsg {
    Config {},
    UserRewards { user: String },
    Rules {},
    Contracts {},
    UserLevel { user: String },
    SystemStats {},
}

// ===== Records =====

/// What earned a reward.
#[derive(Debug, PartialEq, Eq)]
pub enum ActivityType {
    BlindBoxOpen { nft_kind: String, box_id: String },
    NftExchange { nft_id: String, amount: u128 },
    Referral { referrer: String },
    LevelUp { new_level: UserLevel },
    Custom { activity_id: String },
}

impl Clone for ActivityType {
    fn clone(&self) -> (r: Self)
        ensures
            r == *self,
    {
        match self {
            ActivityType::BlindBoxOpen { nft_kind, box_id } => ActivityType::BlindBoxOpen {
                nft_kind: nft_kind.clone(),
                box_id: box_id.clone(),
            },
            ActivityType::NftExchange { nft_id, amount } => ActivityType::NftExchange {
                nft_id: nft_id.clone(),
                amount: *amount,
            },
            ActivityType::Referral { referrer } => ActivityType::Referral {
                referrer: referrer.clone(),
            },
            ActivityType::LevelUp { new_level } => ActivityType::LevelUp { new_level: *new_level },
            ActivityType::Custom { activity_id } => ActivityType::Custom {
                activity_id: activity_id.clone(),
            },
        }
    }
}

/// Progression tiers, in ascending order.
#[derive(Clone, Copy, Debug, PartialEq, Eq, Structural, PartialOrd, Ord)]
pub enum UserLevel {
    Bronze,
    Silver,
    Gold,
    Platinum,
    Diamond,
    Master,
    GrandMaster,
}

/// The kind of a collaborating contract; registrations are keyed by it.
#[derive(Debug, PartialEq, Eq)]
pub enum ContractType {
    Ft,
    BlindBox,
    Nft,
    Custom(String),
}

/// The identity of a contract type, as registrations compare it.
pub enum ContractKind {
    Ft,
    BlindBox,
    Nft,
    Custom(Seq<char>),
}

impl View for ContractType {
    type V = ContractKind;

    open spec fn view(&self) -> ContractKind {
        match self {
            ContractType::Ft => ContractKind::Ft,
            ContractType::BlindBox => ContractKind::BlindBox,
            ContractType::Nft => ContractKind::Nft,
            ContractType::Custom(name) => ContractKind::Custom(name@),
        }
    }
}

/// The byte segments of the storage key of a contract type: a fixed tag for the
/// built-in kinds, the tag `custom` followed by the name for a custom one.
pub open spec fn contract_key(t: ContractKind) -> Seq<Seq<u8>> {
    match t {
        ContractKind::Ft => seq![vstd::utf8::encode_utf8("ft"@)],
        ContractKind::BlindBox => seq![vstd::utf8::encode_utf8("blind_box"@)],
        ContractKind::Nft => seq![vstd::utf8::encode_utf8("nft"@)],
        ContractKind::Custom(name) => seq![vstd::utf8::encode_utf8("custom"@), vstd::utf8::encode_utf8(name)],
    }
}

impl Clone for ContractType {
    fn clone(&self) -> (r: Self)
        ensures
            r == *self,
    {
        match self {
            ContractType::Ft => ContractType::Ft,
            ContractType::BlindBox => ContractType::BlindBox,
            ContractType::Nft => ContractType::Nft,
            ContractType::Custom(name) => ContractType::Custom(name.clone()),
        }
    }
}

/// The text that names a contract type in audit records.
pub open spec fn kind_label(k: ContractKind) -> Seq<char> {
    match k {
        ContractKind::Ft => "Ft"@,
        ContractKind::BlindBox => "BlindBox"@,
        ContractKind::Nft => "Nft"@,
        ContractKind::Custom(name) => "Custom:"@ + name,
    }
}

impl ContractType {
    /// The text that names this contract type in audit records.
    pub fn label(&self) -> (r: String)
        ensures
            r@ == kind_label(self@),
    {
        match self {
            ContractType::Ft => String::from_str("Ft"),
            ContractType::BlindBox => String::from_str("BlindBox"),
            ContractType::Nft => String::from_str("Nft"),
            ContractType::Custom(name) => {
                let mut s = String::from_str("Custom:");
                s.append(name.as_str());
                s
            },
        }
    }

    /// The byte segments of this type's storage key.
    pub fn key(&self) -> (r: Vec<Vec<u8>>)
        ensures
            r@.map_values(|v: Vec<u8>| v@) == contract_key(self@),
    {
        let mut r: Vec<Vec<u8>> = Vec::new();
        match self {
            ContractType::Ft => r.push("ft".as_bytes_vec()),
            ContractType::BlindBox => r.push("blind_box".as_bytes_vec()),
            ContractType::Nft => r.push("nft".as_bytes_vec()),
            ContractType::Custom(name) => {
                r.push("custom".as_bytes_vec());
                r.push(name.as_str().as_bytes_vec());
            },
        }
        assert(r@.map_values(|v: Vec<u8>| v@) =~= contract_key(self@));
        r
    }

    /// Whether two contract types are the same registration key.
    pub fn same_kind(&self, other: &ContractType) -> (r: bool)
        ensures
            r == (self@ == other@),
    {
        match self {
            ContractType::Ft => matches!(other, ContractType::Ft),
            ContractType::BlindBox => matches!(other, ContractType::BlindBox),
            ContractType::Nft => matches!(other, ContractType::Nft),
            ContractType::Custom(a) => match other {
                ContractType::Custom(b) => *a == *b,
                _ => false,
            },
        }
    }
}

#[derive(Clone, Debug, PartialEq, Eq)]
pub struct RuleDetails {
    pub rule_id: String,
    pub rule_name: String,
    pub rule_type: RuleType,
    pub conditions: Vec<RuleCondition>,
    pub rewards: Vec<RewardDefinition>,
    pub enabled: bool,
    pub created_at: u64,
    pub updated_at: u64,
}

#[derive(Clone, Copy, Debug, PartialEq, Eq, Structural)]
pub enum RuleType {
    ActivityBased,
    LevelBased,
    TimeBased,
    Custom,
}

#[derive(Clone, Debug, PartialEq, Eq)]
pub struct RuleCondition {
    pub condition_type: ConditionType,
    pub operator: ConditionOperator,
    pub value: String,
}

#[derive(Clone, Copy, Debug, PartialEq, Eq, Structural)]
pub enum ConditionType {
    ActivityType,
    UserLevel,
    TimeRange,
    Amount,
    Custom,
}

#[derive(Clone, Copy, Debug, PartialEq, Eq, Structural)]
pub enum ConditionOperator {
    Equals,
    NotEquals,
    GreaterThan,
    LessThan,
    Contains,
    In,
}

/// A reward template of a rule. `multiplier` is a fixed-point number with
/// eighteen decimal places, held as its integer count of 10^-18 units.
#[derive(Clone, Debug, PartialEq, Eq)]
pub struct RewardDefinition {
    pub reward_type: RewardType,
    pub amount: u128,
    pub multiplier: u128,
    pub conditions: Vec<RewardCondition>,
}

#[derive(Clone, Copy, Debug, PartialEq, Eq, Structural)]
pub enum RewardType {
    Token,
    Nft,
    LevelPoints,
    Custom,
}

#[derive(Clone, Debug, PartialEq, Eq)]
pub struct RewardCondition {
    pub condition_type: String,
    pub value: String,
}

/// A recorded grant of value to a user.
#[derive(Debug, PartialEq, Eq)]
pub struct UserReward {
    pub reward_id: String,
    pub user: String,
    pub amount: u128,
    pub reward_type: RewardType,
    pub activity_type: ActivityType,
    pub created_at: u64,
    pub claimed_at: Option<u64>,
    pub expires_at: Option<u64>,
    pub status: RewardStatus,
}

impl Clone for UserReward {
    fn clone(&self) -> (r: Self)
        ensures
            r == *self,
    {
        UserReward {
            reward_id: self.reward_id.clone(),
            user: self.user.clone(),
            amount: self.amount,
            reward_type: self.reward_type,
            activity_type: self.activity_type.clone(),
            created_at: self.created_at,
            claimed_at: self.claimed_at,
            expires_at: self.expires_at,
            status: self.status,
        }
    }
}

/// Lifecycle of a reward: `Pending` may become any of the three others, which are final.
#[derive(Clone, Copy, Debug, PartialEq, Eq, Structural)]
pub enum RewardStatus {
    Pending,
    Claimed,
    Expired,
    Cancelled,
}

/// The registration of a collaborating contract.
#[derive(Clone, Debug, PartialEq, Eq)]
pub struct ContractInfo {
    pub contract_type: ContractType,
    pub contract_addr: String,
    pub status: ContractStatus,
    pub capabilities: Vec<String>,
    pub registered_at: u64,
}

#[derive(Clone, Copy, Debug, PartialEq, Eq, Structural)]
pub enum ContractStatus {
    Active,
    Inactive,
    Suspended,
}

/// The progression record of one user.
#[derive(Debug, PartialEq, Eq)]
pub struct UserLevelInfo {
    pub user: String,
    pub level: UserLevel,
    pub points: u32,
    pub level_up_count: u32,
    pub last_level_up: Option<u64>,
    pub total_rewards: u128,
}

impl Clone for UserLevelInfo {
    fn clone(&self) -> (r: Self)
        ensures
            r == *self,
    {
        UserLevelInfo {
            user: self.user.clone(),
            level: self.level,
            points: self.points,
            level_up_count: self.level_up_count,
            last_level_up: self.last_level_up,
            total_rewards: self.total_rewards,
        }
    }
}

// ===== Responses =====

#[derive(Clone, Debug, PartialEq, Eq)]
pub struct InstantiateResponse {
    pub contract_addr: String,
    pub config: IncentiveConfig,
}

#[derive(Clone, Debug, PartialEq, Eq)]
pub struct ExecuteResponse {
    pub success: bool,
    pub message: String,
    pub data: Option<String>,
}

#[derive(Clone, Debug, PartialEq, Eq)]
pub struct QueryResponse<T> {
    pub data: T,
    pub timestamp: u64,
}

} // verus!
