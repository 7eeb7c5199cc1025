//! The errors that a command or a query can end with.
use vstd::prelude::*;

verus! {

#[derive(Debug, PartialEq, Eq)]
pub enum ContractError {
    /// A failure reported by the host, such as an address it refused.
    Std { msg: String },
    Unauthorized {},
    RewardNotFound {},
    RuleNotFound {},
    ContractNotFound {},
    UserNotFound {},
    InvalidAmount {},
    RewardAlreadyClaimed {},
    RewardExpired {},
    RuleAlreadyExists {},
    ContractAlreadyRegistered {},
    InvalidConfiguration {},
    InsufficientBalance {},
    OperationNotAllowed {},
    SystemError { msg: String },
}

} // verus!
