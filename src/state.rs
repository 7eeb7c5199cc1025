//! Identifier generation and the statistics record.
use vstd::prelude::*;

use crate::error::ContractError;

verus! {

/// Read-only summary of the ledger.
#[derive(Clone, Copy, Debug, PartialEq, Eq, Structural)]
pub struct SystemStats {
    pub total_users: u32,
    pub total_rewards_distributed: u128,
    pub total_rules: u32,
    pub total_contracts: u32,
    pub last_updated: u64,
}

/// The character of a decimal digit.
pub open spec fn digit_char(d: nat) -> char {
    if d == 0 {
        '0'
    } else if d == 1 {
        '1'
    } else if d == 2 {
        '2'
    } else if d == 3 {
        '3'
    } else if d == 4 {
        '4'
    } else if d == 5 {
        '5'
    } else if d == 6 {
        '6'
    } else if d == 7 {
        '7'
    } else if d == 8 {
        '8'
    } else {
        '9'
    }
}

/// The decimal representation of `n`, without leading zeros.
pub open spec fn decimal(n: nat) -> Seq<char>
    decreases n,
{
    if n < 10 {
        seq![digit_char(n)]
    } else {
        decimal(n / 10).push(digit_char(n % 10))
    }
}

proof fn lemma_decimal_len(n: nat)
    ensures
        decimal(n).len() >= 1,
        n >= 10 ==> decimal(n).len() >= 2,
    decreases n,
{
    if n >= 10 {
        lemma_decimal_len(n / 10);
    }
}

/// Distinct numbers have distinct decimal representations.
pub proof fn lemma_decimal_injective(a: nat, b: nat)
    requires
        decimal(a) == decimal(b),
    ensures
        a == b,
    decreases a,
{
    lemma_decimal_len(a);
    lemma_decimal_len(b);
    if a >= 10 && b >= 10 {
        assert(decimal(a).drop_last() == decimal(a / 10));
        assert(decimal(b).drop_last() == decimal(b / 10));
        lemma_decimal_injective(a / 10, b / 10);
        assert(decimal(a).last() == digit_char(a % 10));
        assert(decimal(b).last() == digit_char(b % 10));
        assert(a % 10 == b % 10);
        assert(a == 10 * (a / 10) + a % 10) by (nonlinear_arith);
        assert(b == 10 * (b / 10) + b % 10) by (nonlinear_arith);
    } else if a < 10 && b < 10 {
        assert(decimal(a)[0] == digit_char(a));
        assert(decimal(b)[0] == digit_char(b));
    }
}

/// Identifiers issued for distinct counter values differ.
pub proof fn lemma_reward_id_injective(a: nat, b: nat)
    requires
        reward_id_text(a) == reward_id_text(b),
    ensures
        a == b,
{
    let p = "reward_"@;
    assert(decimal(a) =~= reward_id_text(a).subrange(p.len() as int, reward_id_text(a).len() as int));
    assert(decimal(b) =~= reward_id_text(b).subrange(p.len() as int, reward_id_text(b).len() as int));
    lemma_decimal_injective(a, b);
}

/// The identifier of the reward issued when the reward counter reads `n`.
pub open spec fn reward_id_text(n: nat) -> Seq<char> {
    "reward_"@ + decimal(n)
}

/// The identifier of the rule created when the rule counter reads `n`.
pub open spec fn rule_id_text(n: nat) -> Seq<char> {
    "rule_"@ + decimal(n)
}

fn digit_text(d: u128) -> (r: &'static str)
    requires
        d < 10,
    ensures
        r@ == seq![digit_char(d as nat)],
{
    if d == 0 {
        proof { reveal_strlit("0"); }
        "0"
    } else if d == 1 {
        proof { reveal_strlit("1"); }
        "1"
    } else if d == 2 {
        proof { reveal_strlit("2"); }
        "2"
    } else if d == 3 {
        proof { reveal_strlit("3"); }
        "3"
    } else if d == 4 {
        proof { reveal_strlit("4"); }
        "4"
    } else if d == 5 {
        proof { reveal_strlit("5"); }
        "5"
    } else if d == 6 {
        proof { reveal_strlit("6"); }
        "6"
    } else if d == 7 {
        proof { reveal_strlit("7"); }
        "7"
    } else if d == 8 {
        proof { reveal_strlit("8"); }
        "8"
    } else {
        proof { reveal_strlit("9"); }
        "9"
    }
}

/// Writes `n` in decimal.
pub fn decimal_text(n: u128) -> (r: String)
    ensures
        r@ == decimal(n as nat),
    decreases n,
{
    if n < 10 {
        String::from_str(digit_text(n))
    } else {
        let mut s = decimal_text(n / 10);
        s.append(digit_text(n % 10));
        s
    }
}

/// Takes the next value of a counter, or fails when the counter is exhausted.
fn take_next(counter: &mut u64) -> (r: Result<u64, ContractError>)
    ensures
        match r {
            Ok(n) => n == *old(counter) && *final(counter) == *old(counter) + 1,
            Err(e) => *old(counter) == u64::MAX && *final(counter) == *old(counter)
                && e is SystemError,
        },
{
    if *counter == u64::MAX {
        return Err(ContractError::SystemError { msg: String::from_str("identifier counter exhausted") });
    }
    let n = *counter;
    *counter = n + 1;
    Ok(n)
}

/// Issues the next reward identifier, `reward_<n>` for the counter's value `n`,
/// and advances the counter.
pub fn get_next_reward_id(counter: &mut u64) -> (r: Result<String, ContractError>)
    ensures
        match r {
            Ok(id) => id@ == reward_id_text(*old(counter) as nat) && *final(counter) == *old(
                counter,
            ) + 1,
            Err(e) => *old(counter) == u64::MAX && *final(counter) == *old(counter)
                && e is SystemError,
        },
{
    let n = take_next(counter)?;
    let mut id = String::from_str("reward_");
    id.append(decimal_text(n as u128).as_str());
    Ok(id)
}

/// Issues the next rule identifier, `rule_<n>` for the counter's value `n`,
/// and advances the counter.
pub fn get_next_rule_id(counter: &mut u64) -> (r: Result<String, ContractError>)
    ensures
        match r {
            Ok(id) => id@ == rule_id_text(*old(counter) as nat) && *final(counter) == *old(
                counter,
            ) + 1,
            Err(e) => *old(counter) == u64::MAX && *final(counter) == *old(counter)
                && e is SystemError,
        },
{
    let n = take_next(counter)?;
    let mut id = String::from_str("rule_");
    id.append(decimal_text(n as u128).as_str());
    Ok(id)
}

} // verus!
