use vstd::prelude::*;

use crate::balance::{Balance, BalanceId, Balances};
use crate::balance_error::BalanceError;

verus! {

pub type BalanceResponse = Result<Balance, BalanceError>;

/// The question what the account `id` holds.
#[derive(Debug, Clone, Copy, PartialEq, Eq, Structural)]
pub struct BalanceQuery {
    pub id: BalanceId,
}

impl BalanceQuery {
    pub fn new(id: BalanceId) -> (r: Self)
        ensures
            r == (BalanceQuery { id }),
    {
        Self { id }
    }
}

/// Answers questions about accounts from the ledger.
#[derive(Debug, Clone, Copy, PartialEq, Eq, Structural)]
pub struct BalanceQueryApi;

impl BalanceQueryApi {
    pub fn new() -> (r: Self)
        ensures
            r == BalanceQueryApi,
    {
        BalanceQueryApi
    }

    /// A copy of the account that the ledger holds under the id, or
    /// `BalanceNotFound`.
    pub fn get_balance(&self, balances: &Balances, query: BalanceQuery) -> (r: BalanceResponse)
        requires
            balances.wf(),
        ensures
            balances@.contains_key(query.id) ==> r == Ok::<Balance, BalanceError>(
                Balance { id: query.id, amount: balances@[query.id] },
            ),
            !balances@.contains_key(query.id) ==> r == Err::<Balance, BalanceError>(
                BalanceError::BalanceNotFound(query.id),
            ),
    {
        match balances.get_balance(query.id) {
            Ok(balance) => Ok(*balance),
            Err(balance_error) => Err(balance_error),
        }
    }
}

} // verus!
