use vstd::prelude::*;

use crate::balance::Balance;
use crate::balance_error::BalanceError;
use crate::balance_payload::{
    DepositBalanceRequest, TransferBalanceRequest, WithdrawBalanceRequest,
};
use crate::encoding::{decimal, decimal_text, decimal_text_wide, joined};

verus! {

/// The answer to a request that was carried out.
#[derive(Debug)]
pub struct SuccessResponse<T> {
    pub code: u16,
    pub data: T,
}

/// The answer to a request that was refused.
#[derive(Debug)]
pub struct ErrorResponse {
    pub code: u16,
    pub message: String,
}

/// What a request is answered with.
pub type Answer = Result<SuccessResponse<String>, ErrorResponse>;

/// The answer to a request that was refused with `e`: code 400 and the
/// error in words.
pub fn refusal(e: &BalanceError) -> (r: ErrorResponse)
    ensures
        r.code == 400,
        r.message@ == e.spec_message(),
{
    ErrorResponse { code: 400, message: e.message() }
}

/// The text that answers a creation that was carried out.
pub open spec fn spec_created_text(id: u64) -> Seq<char> {
    "Balance created with id: "@ + decimal(id as nat)
}

/// The text that answers a deposit that was carried out.
pub open spec fn spec_deposited_text(id: u64, amount: u128) -> Seq<char> {
    "Balance deposited with id: "@ + decimal(id as nat) + ", amount: "@ + decimal(amount as nat)
}

/// The text that answers a withdrawal that was carried out.
pub open spec fn spec_withdrawn_text(id: u64, amount: u128) -> Seq<char> {
    "Balance withdrawn with id: "@ + decimal(id as nat) + ", amount: "@ + decimal(amount as nat)
}

/// The text that answers a transfer that was carried out.
pub open spec fn spec_transferred_text(from_id: u64, to_id: u64, amount: u128) -> Seq<char> {
    "Balance transferred from "@ + decimal(from_id as nat) + " to "@ + decimal(to_id as nat)
        + " with amount: "@ + decimal(amount as nat)
}

/// The text that answers a balance lookup that was refused.
pub open spec fn spec_lookup_refused_text(e: BalanceError) -> Seq<char> {
    "Error getting balance: "@ + e.spec_message()
}

/// The answer to a request to open an account, given how the command
/// ended: code 200 and the new id in words, or the refusal.
pub fn create_balance_answer(result: &Result<u64, BalanceError>) -> (r: Answer)
    ensures
        match *result {
            Ok(id) => r is Ok && r->Ok_0.code == 200 && r->Ok_0.data@ == spec_created_text(id),
            Err(e) => r is Err && r->Err_0.code == 400 && r->Err_0.message@ == e.spec_message(),
        },
{
    match result {
        Ok(id) => Ok(
            SuccessResponse {
                code: 200,
                data: joined("Balance created with id: ", decimal_text(*id).as_str()),
            },
        ),
        Err(e) => Err(refusal(e)),
    }
}

/// The answer to a request to credit an account, given how the command
/// ended: code 200 and what was deposited in words, or the refusal.
pub fn deposit_balance_answer(
    request: &DepositBalanceRequest,
    result: &Result<(), BalanceError>,
) -> (r: Answer)
    ensures
        match *result {
            Ok(_) => r is Ok && r->Ok_0.code == 200 && r->Ok_0.data@ == spec_deposited_text(
                request.id,
                request.amount,
            ),
            Err(e) => r is Err && r->Err_0.code == 400 && r->Err_0.message@ == e.spec_message(),
        },
{
    match result {
        Ok(_) => {
            let account = joined(
                "Balance deposited with id: ",
                decimal_text(request.id).as_str(),
            );
            let label = joined(account.as_str(), ", amount: ");
            Ok(
                SuccessResponse {
                    code: 200,
                    data: joined(label.as_str(), decimal_text_wide(request.amount).as_str()),
                },
            )
        },
        Err(e) => Err(refusal(e)),
    }
}

/// The answer to a request to debit an account, given how the command
/// ended: code 200 and what was withdrawn in words, or the refusal.
pub fn withdraw_balance_answer(
    request: &WithdrawBalanceRequest,
    result: &Result<(), BalanceError>,
) -> (r: Answer)
    ensures
        match *result {
            Ok(_) => r is Ok && r->Ok_0.code == 200 && r->Ok_0.data@ == spec_withdrawn_text(
                request.id,
                request.amount,
            ),
            Err(e) => r is Err && r->Err_0.code == 400 && r->Err_0.message@ == e.spec_message(),
        },
{
    match result {
        Ok(_) => {
            let account = joined(
                "Balance withdrawn with id: ",
                decimal_text(request.id).as_str(),
            );
            let label = joined(account.as_str(), ", amount: ");
            Ok(
                SuccessResponse {
                    code: 200,
                    data: joined(label.as_str(), decimal_text_wide(request.amount).as_str()),
                },
            )
        },
        Err(e) => Err(refusal(e)),
    }
}

/// The answer to a request to move an amount, given how the command
/// ended: code 200 and what was moved in words, or the refusal.
pub fn transfer_balance_answer(
    request: &TransferBalanceRequest,
    result: &Result<(), BalanceError>,
) -> (r: Answer)
    ensures
        match *result {
            Ok(_) => r is Ok && r->Ok_0.code == 200 && r->Ok_0.data@ == spec_transferred_text(
                request.from_id,
                request.to_id,
                request.amount,
            ),
            Err(e) => r is Err && r->Err_0.code == 400 && r->Err_0.message@ == e.spec_message(),
        },
{
    match result {
        Ok(_) => {
            let source = joined(
                "Balance transferred from ",
                decimal_text(request.from_id).as_str(),
            );
            let to = joined(source.as_str(), " to ");
            let target = joined(to.as_str(), decimal_text(request.to_id).as_str());
            let label = joined(target.as_str(), " with amount: ");
            Ok(
                SuccessResponse {
                    code: 200,
                    data: joined(label.as_str(), decimal_text_wide(request.amount).as_str()),
                },
            )
        },
        Err(e) => Err(refusal(e)),
    }
}

/// The answer to a balance lookup, given how the query ended: the
/// account, or the refusal in words.
pub fn get_balance_answer(result: &Result<Balance, BalanceError>) -> (r: Result<Balance, String>)
    ensures
        match *result {
            Ok(balance) => r == Ok::<Balance, String>(balance),
            Err(e) => r is Err && r->Err_0@ == spec_lookup_refused_text(e),
        },
{
    match result {
        Ok(balance) => Ok(*balance),
        Err(e) => Err(joined("Error getting balance: ", e.message().as_str())),
    }
}

} // verus!
