use vstd::prelude::*;

use crate::balance::{
    lemma_transfer_back, lemma_transfer_keeps_total, lemma_transfer_touches_two, spec_transfer,
    total, Balance, BalanceAmount, BalanceId, Balances, LedgerMap, Void,
};
use crate::balance_error::BalanceError;
use crate::balance_event::{BalanceEventType, BalanceTransferredEvent, EventRecord};
use crate::balance_event_repository::BalanceEventRepository;
use crate::balance_repository::BalanceRepository;
use crate::consistency::{
    balances_match, committed, event_at, events_dense, has_room, lemma_commit_two,
    refused_by_store,
};
use crate::encoding::encoded_transfer;
use crate::layout::last_event_id_of;
use crate::store::{KeyValueStore, StoreMap};
use crate::transaction::Transaction;

verus! {

pub type TransferBalanceResponse = Result<Void, BalanceError>;

/// The command to move `amount` from the account `from_id` to the
/// account `to_id`.
#[derive(Debug, Clone, Copy, PartialEq, Eq, Structural)]
pub struct TransferBalanceCommand {
    pub from_id: BalanceId,
    pub to_id: BalanceId,
    pub amount: BalanceAmount,
}

impl TransferBalanceCommand {
    pub fn new(from_id: BalanceId, to_id: BalanceId, amount: BalanceAmount) -> (r: Self)
        ensures
            r == (TransferBalanceCommand { from_id, to_id, amount }),
    {
        Self { from_id, to_id, amount }
    }
}

/// How a transfer command ends: what is returned, and what has become of
/// the ledger and of the store.
pub open spec fn transfer_outcome(
    ledger: LedgerMap,
    before: StoreMap,
    command: TransferBalanceCommand,
    r: TransferBalanceResponse,
    ledger_after: LedgerMap,
    after: StoreMap,
) -> bool {
    match spec_transfer(ledger, command.from_id, command.to_id, command.amount) {
        Err(e) => r == Err::<Void, BalanceError>(e) && ledger_after == ledger
            && after == before,
        Ok(changed) => match r {
            Ok(()) => {
                &&& ledger_after == changed
                &&& committed(
                    before,
                    after,
                    seq![
                        Balance { id: command.from_id, amount: changed[command.from_id] },
                        Balance { id: command.to_id, amount: changed[command.to_id] },
                    ],
                    BalanceEventType::BalanceTransferred,
                    encoded_transfer(command.from_id, command.to_id, command.amount),
                )
                &&& BalanceTransferredEvent::parse(
                    encoded_transfer(command.from_id, command.to_id, command.amount),
                ) == Some(
                    BalanceTransferredEvent {
                        from_id: command.from_id,
                        to_id: command.to_id,
                        amount: command.amount,
                    },
                )
            },
            Err(e) => refused_by_store(e, before) && ledger_after == ledger && after == before,
        },
    }
}

/// An accepted transfer and its event agree: between two accounts the
/// source holds what it held less the amount and the target what it held
/// plus the amount, a transfer within one account leaves it as it was,
/// and the event that became the last one is a `BalanceTransferred` event
/// with these accounts and this amount.
pub proof fn lemma_transfer_event_follows_ledger(
    ledger: LedgerMap,
    before: StoreMap,
    command: TransferBalanceCommand,
    r: TransferBalanceResponse,
    ledger_after: LedgerMap,
    after: StoreMap,
)
    requires
        transfer_outcome(ledger, before, command, r, ledger_after, after),
        r is Ok,
    ensures
        ledger.contains_key(command.from_id),
        ledger.contains_key(command.to_id),
        ledger[command.from_id] >= command.amount,
        command.from_id != command.to_id ==> ledger_after[command.from_id]
            == ledger[command.from_id] - command.amount && ledger_after[command.to_id]
            == ledger[command.to_id] + command.amount,
        command.from_id == command.to_id ==> ledger_after == ledger,
        total(ledger_after) == total(ledger),
        last_event_id_of(after) == Some((last_event_id_of(before)->Some_0 + 1) as u64),
        ({
            let record = event_at(after, last_event_id_of(after)->Some_0)->Some_0;
            &&& event_at(after, last_event_id_of(after)->Some_0) is Some
            &&& record.event_type == BalanceEventType::BalanceTransferred
            &&& BalanceTransferredEvent::parse(record.data) == Some(
                BalanceTransferredEvent {
                    from_id: command.from_id,
                    to_id: command.to_id,
                    amount: command.amount,
                },
            )
        }),
{
    lemma_transfer_touches_two(ledger, command.from_id, command.to_id, command.amount);
    lemma_transfer_keeps_total(ledger, command.from_id, command.to_id, command.amount);
}

/// Carries out transfers on a ledger and its store.
#[derive(Debug, Clone, Copy, PartialEq, Eq, Structural)]
pub struct TransferBalanceApi {
    pub transaction: Transaction,
}

impl TransferBalanceApi {
    pub fn new() -> (r: Self)
        ensures
            r == (TransferBalanceApi { transaction: Transaction }),
    {
        TransferBalanceApi { transaction: Transaction::new() }
    }

    /// Moves the amount in the ledger, then commits the records of both
    /// accounts and a `BalanceTransferred` event in one batch. The sum of
    /// all amounts stays what it was. A command that the ledger refuses
    /// changes nothing. Where the store fails, both accounts are put back
    /// as they were and nothing is persisted. On a store that does not
    /// fail and has room for the event, the command succeeds whenever the
    /// ledger accepts it.
    pub fn transfer<S: KeyValueStore>(
        &self,
        balances: &mut Balances,
        store: &mut S,
        command: TransferBalanceCommand,
    ) -> (r: TransferBalanceResponse)
        requires
            old(balances).wf(),
            old(store).valid(),
        ensures
            final(balances).wf(),
            final(store).valid(),
            total(final(balances)@) == total(old(balances)@),
            transfer_outcome(
                old(balances)@,
                old(store).contents(),
                command,
                r,
                final(balances)@,
                final(store).contents(),
            ),
            balances_match(old(balances)@, old(store).contents()) ==> balances_match(
                final(balances)@,
                final(store).contents(),
            ),
            events_dense(old(store).contents()) ==> events_dense(final(store).contents()),
            old(store).reliable() ==> final(store).reliable(),
            old(store).reliable() && has_room(old(store).contents()) ==> (r is Ok
                <==> spec_transfer(
                old(balances)@,
                command.from_id,
                command.to_id,
                command.amount,
            )
                is Ok),
    {
        match balances.transfer(command.from_id, command.to_id, command.amount) {
            Ok(()) => {},
            Err(e) => {
                return Err(e);
            },
        }
        proof {
            lemma_transfer_touches_two(
                old(balances)@,
                command.from_id,
                command.to_id,
                command.amount,
            );
        }
        match self.transfer_in_transaction(balances, store, command) {
            Ok(_) => Ok(()),
            Err(e) => {
                proof {
                    lemma_transfer_back(
                        old(balances)@,
                        command.from_id,
                        command.to_id,
                        command.amount,
                    );
                }
                let _ = balances.transfer(command.to_id, command.from_id, command.amount);
                Err(e)
            },
        }
    }

    /// Stages the records of both accounts and the `BalanceTransferred`
    /// event of a transfer that the ledger has accepted, and commits
    /// them.
    pub fn transfer_in_transaction<S: KeyValueStore>(
        &self,
        balances: &Balances,
        store: &mut S,
        command: TransferBalanceCommand,
    ) -> (r: TransferBalanceResponse)
        requires
            balances.wf(),
            old(store).valid(),
        ensures
            final(store).valid(),
            old(store).reliable() ==> final(store).reliable(),
            old(store).reliable() && has_room(old(store).contents())
                && balances@.contains_key(command.from_id) && balances@.contains_key(
                command.to_id,
            ) ==> r is Ok,
            match r {
                Ok(()) => {
                    &&& balances@.contains_key(command.from_id)
                    &&& balances@.contains_key(command.to_id)
                    &&& committed(
                        old(store).contents(),
                        final(store).contents(),
                        seq![
                            Balance { id: command.from_id, amount: balances@[command.from_id] },
                            Balance { id: command.to_id, amount: balances@[command.to_id] },
                        ],
                        BalanceEventType::BalanceTransferred,
                        encoded_transfer(command.from_id, command.to_id, command.amount),
                    )
                    &&& BalanceTransferredEvent::parse(
                        encoded_transfer(command.from_id, command.to_id, command.amount),
                    ) == Some(
                        BalanceTransferredEvent {
                            from_id: command.from_id,
                            to_id: command.to_id,
                            amount: command.amount,
                        },
                    )
                    &&& events_dense(old(store).contents()) ==> events_dense(
                        final(store).contents(),
                    )
                    &&& forall|ledger: Map<u64, u128>|
                        balances_match(ledger, old(store).contents())
                            ==> #[trigger] balances_match(
                            ledger.insert(command.from_id, balances@[command.from_id]).insert(
                                command.to_id,
                                balances@[command.to_id],
                            ),
                            final(store).contents(),
                        )
                },
                Err(e) => {
                    &&& final(store).contents() == old(store).contents()
                    &&& if !balances@.contains_key(command.from_id) {
                        e == BalanceError::BalanceNotFound(command.from_id)
                    } else if !balances@.contains_key(command.to_id) {
                        e == BalanceError::BalanceNotFound(command.to_id)
                    } else {
                        refused_by_store(e, old(store).contents())
                    }
                },
            },
    {
        let from_balance = match balances.get_balance(command.from_id) {
            Ok(balance) => *balance,
            Err(e) => {
                return Err(e);
            },
        };
        let to_balance = match balances.get_balance(command.to_id) {
            Ok(balance) => *balance,
            Err(e) => {
                return Err(e);
            },
        };
        let payload = BalanceTransferredEvent {
            from_id: command.from_id,
            to_id: command.to_id,
            amount: command.amount,
        }.bytes();
        let mut context = self.transaction.start();
        BalanceRepository::new(&*store).persist_in_transaction(from_balance, &mut context);
        BalanceRepository::new(&*store).persist_in_transaction(to_balance, &mut context);
        let staged = BalanceEventRepository::new(&*store).persist_in_transaction(
            BalanceEventType::BalanceTransferred,
            payload,
            &mut context,
        );
        let id = match staged {
            Ok(id) => id,
            Err(e) => {
                context.rollback();
                return Err(BalanceError::Storage(e));
            },
        };
        let ghost staged_writes = context@;
        let ghost record = EventRecord {
            id,
            event_type: BalanceEventType::BalanceTransferred,
            data: encoded_transfer(command.from_id, command.to_id, command.amount),
        };
        match context.commit(store) {
            Ok(()) => {
                proof {
                    assert forall|ledger: Map<u64, u128>|
                        balances_match(ledger, old(store).contents())
                        implies #[trigger] balances_match(
                        ledger.insert(command.from_id, balances@[command.from_id]).insert(
                            command.to_id,
                            balances@[command.to_id],
                        ),
                        store.contents(),
                    ) by {
                        lemma_commit_two(
                            ledger,
                            old(store).contents(),
                            store.contents(),
                            from_balance,
                            to_balance,
                            record,
                            staged_writes,
                        );
                    }
                    lemma_commit_two(
                        Map::empty(),
                        old(store).contents(),
                        store.contents(),
                        from_balance,
                        to_balance,
                        record,
                        staged_writes,
                    );
                }
                Ok(())
            },
            Err(e) => Err(BalanceError::Storage(e)),
        }
    }
}

} // verus!
