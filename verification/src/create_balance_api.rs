use vstd::prelude::*;

use crate::balance::{spec_create, Balance, BalanceId, Balances, LedgerMap};
use crate::balance_error::BalanceError;
use crate::balance_event::{BalanceCreatedEvent, BalanceEventType, EventRecord};
use crate::balance_event_repository::BalanceEventRepository;
use crate::balance_repository::BalanceRepository;
use crate::consistency::{
    balances_match, committed, event_at, events_dense, has_room, lemma_commit_one,
    refused_by_store,
};
use crate::encoding::encoded_id;
use crate::layout::last_event_id_of;
use crate::store::{KeyValueStore, StoreMap};
use crate::transaction::Transaction;

verus! {

pub type CreateBalanceResponse = Result<BalanceId, BalanceError>;

/// The command to open an account under `id`.
#[derive(Debug, Clone, Copy, PartialEq, Eq, Structural)]
pub struct CreateBalanceCommand {
    pub id: BalanceId,
}

impl CreateBalanceCommand {
    pub fn new(id: BalanceId) -> (r: Self)
        ensures
            r == (CreateBalanceCommand { id }),
    {
        Self { id }
    }
}

/// How a create command ends: what is returned, and what has become of
/// the ledger and of the store.
pub open spec fn create_outcome(
    ledger: LedgerMap,
    before: StoreMap,
    command: CreateBalanceCommand,
    r: CreateBalanceResponse,
    ledger_after: LedgerMap,
    after: StoreMap,
) -> bool {
    match spec_create(ledger, command.id) {
        Err(e) => r == Err::<BalanceId, BalanceError>(e) && ledger_after == ledger && after
            == before,
        Ok(changed) => match r {
            Ok(id) => {
                &&& id == command.id
                &&& ledger_after == changed
                &&& committed(
                    before,
                    after,
                    seq![Balance { id: command.id, amount: 0 }],
                    BalanceEventType::BalanceCreated,
                    encoded_id(command.id),
                )
                &&& BalanceCreatedEvent::parse(encoded_id(command.id)) == Some(
                    BalanceCreatedEvent { id: command.id },
                )
            },
            Err(e) => refused_by_store(e, before) && ledger_after == ledger && after == before,
        },
    }
}

/// An accepted creation and its event agree: the account is new and
/// holds nothing, and the event that became the last one is a
/// `BalanceCreated` event with this account.
pub proof fn lemma_create_event_follows_ledger(
    ledger: LedgerMap,
    before: StoreMap,
    command: CreateBalanceCommand,
    r: CreateBalanceResponse,
    ledger_after: LedgerMap,
    after: StoreMap,
)
    requires
        create_outcome(ledger, before, command, r, ledger_after, after),
        r is Ok,
    ensures
        !ledger.contains_key(command.id),
        ledger_after == ledger.insert(command.id, 0),
        last_event_id_of(after) == Some((last_event_id_of(before)->Some_0 + 1) as u64),
        ({
            let record = event_at(after, last_event_id_of(after)->Some_0)->Some_0;
            &&& event_at(after, last_event_id_of(after)->Some_0) is Some
            &&& record.event_type == BalanceEventType::BalanceCreated
            &&& BalanceCreatedEvent::parse(record.data) == Some(
                BalanceCreatedEvent { id: command.id },
            )
        }),
{
}

/// Carries out account creations on a ledger and its store.
#[derive(Debug, Clone, Copy, PartialEq, Eq, Structural)]
pub struct CreateBalanceApi {
    pub transaction: Transaction,
}

impl CreateBalanceApi {
    pub fn new() -> (r: Self)
        ensures
            r == (CreateBalanceApi { transaction: Transaction }),
    {
        CreateBalanceApi { transaction: Transaction::new() }
    }

    /// Opens the account in the ledger, then commits its record and a
    /// `BalanceCreated` event in one batch, and returns the id. A command
    /// that the ledger refuses changes nothing. Where the store fails,
    /// the ledger is put back as it was and nothing is persisted. On a
    /// store that does not fail and has room for the event, the command
    /// succeeds whenever the ledger accepts it.
    pub fn create_balance<S: KeyValueStore>(
        &self,
        balances: &mut Balances,
        store: &mut S,
        command: CreateBalanceCommand,
    ) -> (r: CreateBalanceResponse)
        requires
            old(balances).wf(),
            old(store).valid(),
        ensures
            final(balances).wf(),
            final(store).valid(),
            create_outcome(
                old(balances)@,
                old(store).contents(),
                command,
                r,
                final(balances)@,
                final(store).contents(),
            ),
            balances_match(old(balances)@, old(store).contents()) ==> balances_match(
                final(balances)@,
                final(store).contents(),
            ),
            events_dense(old(store).contents()) ==> events_dense(final(store).contents()),
            old(store).reliable() ==> final(store).reliable(),
            old(store).reliable() && has_room(old(store).contents()) ==> (r is Ok
                <==> spec_create(
                old(balances)@,
                command.id,
            )
                is Ok),
    {
        match balances.create_balance(command.id) {
            Ok(()) => {},
            Err(e) => {
                return Err(e);
            },
        }
        match self.create_balance_in_transaction(store, command) {
            Ok(id) => Ok(id),
            Err(e) => {
                balances.forget(command.id);
                assert(balances@ =~= old(balances)@);
                Err(e)
            },
        }
    }

    /// Stages the record of a new account and its `BalanceCreated` event,
    /// commits them, and returns the account's id.
    pub fn create_balance_in_transaction<S: KeyValueStore>(
        &self,
        store: &mut S,
        command: CreateBalanceCommand,
    ) -> (r: CreateBalanceResponse)
        requires
            old(store).valid(),
        ensures
            final(store).valid(),
            old(store).reliable() ==> final(store).reliable(),
            old(store).reliable() && has_room(old(store).contents()) ==> r is Ok,
            match r {
                Ok(id) => {
                    &&& id == command.id
                    &&& committed(
                        old(store).contents(),
                        final(store).contents(),
                        seq![Balance { id: command.id, amount: 0 }],
                        BalanceEventType::BalanceCreated,
                        encoded_id(command.id),
                    )
                    &&& BalanceCreatedEvent::parse(encoded_id(command.id)) == Some(
                        BalanceCreatedEvent { id: command.id },
                    )
                    &&& events_dense(old(store).contents()) ==> events_dense(
                        final(store).contents(),
                    )
                    &&& forall|ledger: Map<u64, u128>|
                        balances_match(ledger, old(store).contents())
                            ==> #[trigger] balances_match(
                            ledger.insert(command.id, 0),
                            final(store).contents(),
                        )
                },
                Err(e) => final(store).contents() == old(store).contents() && refused_by_store(
                    e,
                    old(store).contents(),
                ),
            },
    {
        let balance = Balance { id: command.id, amount: 0 };
        let payload = BalanceCreatedEvent { id: command.id }.bytes();
        let mut context = self.transaction.start();
        BalanceRepository::new(&*store).persist_in_transaction(balance, &mut context);
        let staged = BalanceEventRepository::new(&*store).persist_in_transaction(
            BalanceEventType::BalanceCreated,
            payload,
            &mut context,
        );
        let id = match staged {
            Ok(id) => id,
            Err(e) => {
                context.rollback();
                return Err(BalanceError::Storage(e));
            },
        };
        let ghost staged_writes = context@;
        let ghost record = EventRecord {
            id,
            event_type: BalanceEventType::BalanceCreated,
            data: encoded_id(command.id),
        };
        match context.commit(store) {
            Ok(()) => {
                proof {
                    assert forall|ledger: Map<u64, u128>|
                        balances_match(ledger, old(store).contents())
                        implies #[trigger] balances_match(
                        ledger.insert(command.id, 0),
                        store.contents(),
                    ) by {
                        lemma_commit_one(
                            ledger,
                            old(store).contents(),
                            store.contents(),
                            balance,
                            record,
                            staged_writes,
                        );
                    }
                    lemma_commit_one(
                        Map::empty(),
                        old(store).contents(),
                        store.contents(),
                        balance,
                        record,
                        staged_writes,
                    );
                }
                Ok(command.id)
            },
            Err(e) => Err(BalanceError::Storage(e)),
        }
    }
}

} // verus!
