use vstd::prelude::*;

use crate::balance::{
    lemma_withdraw_then_deposit, spec_withdraw, Balance, BalanceAmount, BalanceId, Balances,
    LedgerMap, Void,
};
use crate::balance_error::BalanceError;
use crate::balance_event::{BalanceEventType, BalanceWithdrawnEvent, EventRecord};
use crate::balance_event_repository::BalanceEventRepository;
use crate::balance_repository::BalanceRepository;
use crate::consistency::{
    balances_match, committed, event_at, events_dense, has_room, lemma_commit_one,
    refused_by_store,
};
use crate::encoding::encoded_id_amount;
use crate::layout::last_event_id_of;
use crate::store::{KeyValueStore, StoreMap};
use crate::transaction::Transaction;

verus! {

pub type WithdrawBalanceResponse = Result<Void, BalanceError>;

/// The command to debit `amount` from the account `id`.
#[derive(Debug, Clone, Copy, PartialEq, Eq, Structural)]
pub struct WithdrawBalanceCommand {
    pub id: BalanceId,
    pub amount: BalanceAmount,
}

impl WithdrawBalanceCommand {
    pub fn new(id: BalanceId, amount: BalanceAmount) -> (r: Self)
        ensures
            r == (WithdrawBalanceCommand { id, amount }),
    {
        Self { id, amount }
    }
}

/// How a withdraw command ends: what is returned, and what has become of
/// the ledger and of the store.
pub open spec fn withdraw_outcome(
    ledger: LedgerMap,
    before: StoreMap,
    command: WithdrawBalanceCommand,
    r: WithdrawBalanceResponse,
    ledger_after: LedgerMap,
    after: StoreMap,
) -> bool {
    match spec_withdraw(ledger, command.id, command.amount) {
        Err(e) => r == Err::<Void, BalanceError>(e) && ledger_after == ledger && after == before,
        Ok(changed) => match r {
            Ok(()) => {
                &&& ledger_after == changed
                &&& committed(
                    before,
                    after,
                    seq![Balance { id: command.id, amount: changed[command.id] }],
                    BalanceEventType::BalanceWithdrawn,
                    encoded_id_amount(command.id, command.amount),
                )
                &&& BalanceWithdrawnEvent::parse(
                    encoded_id_amount(command.id, command.amount),
                ) == Some(
                    BalanceWithdrawnEvent { id: command.id, amount: command.amount },
                )
            },
            Err(e) => refused_by_store(e, before) && ledger_after == ledger && after == before,
        },
    }
}

/// An accepted withdrawal and its event agree: the account holds what it
/// held less the amount, and the event that became the last one is a
/// `BalanceWithdrawn` event with this account and this amount.
pub proof fn lemma_withdraw_event_follows_ledger(
    ledger: LedgerMap,
    before: StoreMap,
    command: WithdrawBalanceCommand,
    r: WithdrawBalanceResponse,
    ledger_after: LedgerMap,
    after: StoreMap,
)
    requires
        withdraw_outcome(ledger, before, command, r, ledger_after, after),
        r is Ok,
    ensures
        ledger.contains_key(command.id),
        ledger[command.id] >= command.amount,
        ledger_after == ledger.insert(command.id, (ledger[command.id] - command.amount) as u128),
        ledger_after[command.id] == ledger[command.id] - command.amount,
        last_event_id_of(after) == Some((last_event_id_of(before)->Some_0 + 1) as u64),
        ({
            let record = event_at(after, last_event_id_of(after)->Some_0)->Some_0;
            &&& event_at(after, last_event_id_of(after)->Some_0) is Some
            &&& record.event_type == BalanceEventType::BalanceWithdrawn
            &&& BalanceWithdrawnEvent::parse(record.data) == Some(
                BalanceWithdrawnEvent { id: command.id, amount: command.amount },
            )
        }),
{
}

/// Carries out withdrawals on a ledger and its store.
#[derive(Debug, Clone, Copy, PartialEq, Eq, Structural)]
pub struct WithdrawBalanceApi {
    pub transaction: Transaction,
}

impl WithdrawBalanceApi {
    pub fn new() -> (r: Self)
        ensures
            r == (WithdrawBalanceApi { transaction: Transaction }),
    {
        WithdrawBalanceApi { transaction: Transaction::new() }
    }

    /// Debits the account in the ledger, then commits the account's
    /// record and a `BalanceWithdrawn` event in one batch. A command that
    /// the ledger refuses changes nothing. Where the store fails, the
    /// ledger is put back as it was and nothing is persisted. On a store
    /// that does not fail and has room for the event, the command
    /// succeeds whenever the ledger accepts it.
    pub fn withdraw<S: KeyValueStore>(
        &self,
        balances: &mut Balances,
        store: &mut S,
        command: WithdrawBalanceCommand,
    ) -> (r: WithdrawBalanceResponse)
        requires
            old(balances).wf(),
            old(store).valid(),
        ensures
            final(balances).wf(),
            final(store).valid(),
            withdraw_outcome(
                old(balances)@,
                old(store).contents(),
                command,
                r,
                final(balances)@,
                final(store).contents(),
            ),
            balances_match(old(balances)@, old(store).contents()) ==> balances_match(
                final(balances)@,
                final(store).contents(),
            ),
            events_dense(old(store).contents()) ==> events_dense(final(store).contents()),
            old(store).reliable() ==> final(store).reliable(),
            old(store).reliable() && has_room(old(store).contents()) ==> (r is Ok
                <==> spec_withdraw(
                old(balances)@,
                command.id,
                command.amount,
            )
                is Ok),
    {
        match balances.withdraw(command.id, command.amount) {
            Ok(()) => {},
            Err(e) => {
                return Err(e);
            },
        }
        match self.withdraw_in_transaction(balances, store, command) {
            Ok(_) => {
                assert(balances@.insert(command.id, balances@[command.id]) =~= balances@);
                Ok(())
            },
            Err(e) => {
                proof {
                    lemma_withdraw_then_deposit(old(balances)@, command.id, command.amount);
                }
                let _ = balances.deposit(command.id, command.amount);
                Err(e)
            },
        }
    }

    /// Stages the account's record and the `BalanceWithdrawn` event of a
    /// withdrawal that the ledger has accepted, and commits them.
    pub fn withdraw_in_transaction<S: KeyValueStore>(
        &self,
        balances: &Balances,
        store: &mut S,
        command: WithdrawBalanceCommand,
    ) -> (r: WithdrawBalanceResponse)
        requires
            balances.wf(),
            old(store).valid(),
        ensures
            final(store).valid(),
            old(store).reliable() ==> final(store).reliable(),
            old(store).reliable() && has_room(old(store).contents())
                && balances@.contains_key(command.id) ==> r is Ok,
            match r {
                Ok(()) => {
                    &&& balances@.contains_key(command.id)
                    &&& committed(
                        old(store).contents(),
                        final(store).contents(),
                        seq![Balance { id: command.id, amount: balances@[command.id] }],
                        BalanceEventType::BalanceWithdrawn,
                        encoded_id_amount(command.id, command.amount),
                    )
                    &&& BalanceWithdrawnEvent::parse(
                        encoded_id_amount(command.id, command.amount),
                    ) == Some(BalanceWithdrawnEvent { id: command.id, amount: command.amount })
                    &&& events_dense(old(store).contents()) ==> events_dense(
                        final(store).contents(),
                    )
                    &&& forall|ledger: Map<u64, u128>|
                        balances_match(ledger, old(store).contents())
                            ==> #[trigger] balances_match(
                            ledger.insert(command.id, balances@[command.id]),
                            final(store).contents(),
                        )
                },
                Err(e) => {
                    &&& final(store).contents() == old(store).contents()
                    &&& if balances@.contains_key(command.id) {
                        refused_by_store(e, old(store).contents())
                    } else {
                        e == BalanceError::BalanceNotFound(command.id)
                    }
                },
            },
    {
        let balance = match balances.get_balance(command.id) {
            Ok(balance) => *balance,
            Err(e) => {
                return Err(e);
            },
        };
        let payload = BalanceWithdrawnEvent { id: command.id, amount: command.amount }.bytes();
        let mut context = self.transaction.start();
        BalanceRepository::new(&*store).persist_in_transaction(balance, &mut context);
        let staged = BalanceEventRepository::new(&*store).persist_in_transaction(
            BalanceEventType::BalanceWithdrawn,
            payload,
            &mut context,
        );
        let id = match staged {
            Ok(id) => id,
            Err(e) => {
                context.rollback();
                return Err(BalanceError::Storage(e));
            },
        };
        let ghost staged_writes = context@;
        let ghost record = EventRecord {
            id,
            event_type: BalanceEventType::BalanceWithdrawn,
            data: encoded_id_amount(command.id, command.amount),
        };
        match context.commit(store) {
            Ok(()) => {
                proof {
                    assert forall|ledger: Map<u64, u128>|
                        balances_match(ledger, old(store).contents())
                        implies #[trigger] balances_match(
                        ledger.insert(command.id, balances@[command.id]),
                        store.contents(),
                    ) by {
                        lemma_commit_one(
                            ledger,
                            old(store).contents(),
                            store.contents(),
                            balance,
                            record,
                            staged_writes,
                        );
                    }
                    lemma_commit_one(
                        Map::empty(),
                        old(store).contents(),
                        store.contents(),
                        balance,
                        record,
                        staged_writes,
                    );
                }
                Ok(())
            },
            Err(e) => Err(BalanceError::Storage(e)),
        }
    }
}

} // verus!
