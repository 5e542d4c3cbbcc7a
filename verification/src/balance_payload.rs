use vstd::prelude::*;

use crate::balance::{BalanceAmount, BalanceId};
use crate::create_balance_api::CreateBalanceCommand;
use crate::deposit_balance_api::DepositBalanceCommand;
use crate::transfer_balance_api::TransferBalanceCommand;
use crate::withdraw_balance_api::WithdrawBalanceCommand;

verus! {

/// The body of a request to open an account.
#[derive(Debug, Clone, Copy, PartialEq, Eq, Structural)]
pub struct CreateBalanceRequest {
    pub id: BalanceId,
}

impl CreateBalanceRequest {
    /// The command that the request asks for.
    pub fn command(&self) -> (r: CreateBalanceCommand)
        ensures
            r == (CreateBalanceCommand { id: self.id }),
    {
        CreateBalanceCommand::new(self.id)
    }
}

/// The body of a request to credit an account.
#[derive(Debug, Clone, Copy, PartialEq, Eq, Structural)]
pub struct DepositBalanceRequest {
    pub id: BalanceId,
    pub amount: BalanceAmount,
}

impl DepositBalanceRequest {
    /// The command that the request asks for.
    pub fn command(&self) -> (r: DepositBalanceCommand)
        ensures
            r == (DepositBalanceCommand { id: self.id, amount: self.amount }),
    {
        DepositBalanceCommand::new(self.id, self.amount)
    }
}

/// The body of a request to debit an account.
#[derive(Debug, Clone, Copy, PartialEq, Eq, Structural)]
pub struct WithdrawBalanceRequest {
    pub id: BalanceId,
    pub amount: BalanceAmount,
}

impl WithdrawBalanceRequest {
    /// The command that the request asks for.
    pub fn command(&self) -> (r: WithdrawBalanceCommand)
        ensures
            r == (WithdrawBalanceCommand { id: self.id, amount: self.amount }),
    {
        WithdrawBalanceCommand::new(self.id, self.amount)
    }
}

/// The body of a request to move an amount between two accounts.
#[derive(Debug, Clone, Copy, PartialEq, Eq, Structural)]
pub struct TransferBalanceRequest {
    pub from_id: BalanceId,
    pub to_id: BalanceId,
    pub amount: BalanceAmount,
}

impl TransferBalanceRequest {
    /// The command that the request asks for.
    pub fn command(&self) -> (r: TransferBalanceCommand)
        ensures
            r == (TransferBalanceCommand {
                from_id: self.from_id,
                to_id: self.to_id,
                amount: self.amount,
            }),
    {
        TransferBalanceCommand::new(self.from_id, self.to_id, self.amount)
    }
}

} // verus!
