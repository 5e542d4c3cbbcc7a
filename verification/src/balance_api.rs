use vstd::prelude::*;

use crate::balance::{
    spec_create, spec_deposit, spec_transfer, spec_withdraw, total, Balance, Balances, LedgerMap,
};
use crate::balance_error::{BalanceError, StorageError};
use crate::balance_query_api::{BalanceQuery, BalanceQueryApi, BalanceResponse};
use crate::balance_repository::{sound_balance_record, BalanceRepository};
use crate::codec::{be_bytes, from_be, lemma_be_of_from_be, lemma_be_round_trip};
use crate::consistency::{
    balance_at, balances_match, events_dense, has_room, lemma_store_determines_ledger,
};
use crate::create_balance_api::{
    create_outcome, CreateBalanceApi, CreateBalanceCommand, CreateBalanceResponse,
};
use crate::deposit_balance_api::{
    deposit_outcome, DepositBalanceApi, DepositBalanceCommand, DepositBalanceResponse,
};
use crate::store::{KeyValueStore, Partition, StoreMap};
use crate::transfer_balance_api::{
    transfer_outcome, TransferBalanceApi, TransferBalanceCommand, TransferBalanceResponse,
};
use crate::withdraw_balance_api::{
    withdraw_outcome, WithdrawBalanceApi, WithdrawBalanceCommand, WithdrawBalanceResponse,
};

verus! {

/// In a store that holds a ledger, every record of the balances
/// partition is sound.
pub proof fn lemma_matched_store_is_sound(ledger: LedgerMap, contents: StoreMap, key: Seq<u8>)
    requires
        balances_match(ledger, contents),
        contents.contains_key((Partition::Balances, key)),
    ensures
        sound_balance_record(key, contents[(Partition::Balances, key)]),
{
    lemma_be_of_from_be(key);
    assert(ledger.contains_key(from_be(key)));
    assert(balance_at(contents, from_be(key)) is Some);
}

/// The command service: the ledger, the store it is persisted to, and
/// the handlers of the commands. One command runs at a time.
pub struct BalanceApi<S: KeyValueStore> {
    balances: Balances,
    store: S,
    create_balance_api: CreateBalanceApi,
    deposit_balance_api: DepositBalanceApi,
    withdraw_balance_api: WithdrawBalanceApi,
    transfer_balance_api: TransferBalanceApi,
    balance_query_api: BalanceQueryApi,
}

impl<S: KeyValueStore> BalanceApi<S> {
    /// The ledger in memory.
    pub closed spec fn ledger(&self) -> LedgerMap {
        self.balances@
    }

    /// What the store holds.
    pub closed spec fn contents(&self) -> StoreMap {
        self.store.contents()
    }

    /// The store does not fail.
    pub closed spec fn reliable(&self) -> bool {
        self.store.reliable()
    }

    /// The store holds the ledger that is in memory.
    pub closed spec fn wf(&self) -> bool {
        &&& self.balances.wf()
        &&& self.store.valid()
        &&& balances_match(self.balances@, self.store.contents())
    }

    /// After every command the store holds, for every account of the
    /// ledger, a record with the account's amount, and holds no record
    /// for any other id.
    pub proof fn lemma_store_holds_ledger(&self, id: u64)
        requires
            self.wf(),
        ensures
            balances_match(self.ledger(), self.contents()),
            self.ledger().contains_key(id) ==> balance_at(self.contents(), id) == Some(
                Balance { id, amount: self.ledger()[id] },
            ),
            !self.ledger().contains_key(id) ==> !self.contents().contains_key(
                (Partition::Balances, be_bytes(id)),
            ),
    {
        if !self.ledger().contains_key(id) {
            lemma_be_round_trip(id);
        }
    }

    /// A restart brings the ledger back: a service built on the store
    /// that another service left behind holds the ledger that the other
    /// held after its last command.
    pub proof fn lemma_recovery(&self, left_behind: &Self)
        requires
            self.wf(),
            left_behind.wf(),
            self.contents() == left_behind.contents(),
        ensures
            self.ledger() == left_behind.ledger(),
    {
        lemma_store_determines_ledger(self.ledger(), left_behind.ledger(), self.contents());
    }

    /// Takes over a store and rebuilds the ledger from the account
    /// records in it. The ledger that comes out is the one that the store
    /// holds; a store in which a record of the balances partition is not
    /// sound is turned down. A store that does not fail is taken over
    /// whenever all its account records are sound.
    pub fn new(store: S) -> (r: Result<Self, StorageError>)
        requires
            store.valid(),
        ensures
            store.reliable() ==> !(r matches Err(StorageError::Unavailable)),
            match r {
                Ok(api) => api.wf() && api.contents() == store.contents() && api.reliable()
                    == store.reliable(),
                Err(StorageError::CorruptRecord) => forall|ledger: LedgerMap|
                    !balances_match(ledger, store.contents()),
                Err(e) => e == StorageError::Unavailable,
            },
    {
        let balances = match Self::load_balances(&store) {
            Ok(balances) => balances,
            Err(e) => {
                return Err(e);
            },
        };
        Ok(
            BalanceApi {
                balances,
                store,
                create_balance_api: CreateBalanceApi::new(),
                deposit_balance_api: DepositBalanceApi::new(),
                withdraw_balance_api: WithdrawBalanceApi::new(),
                transfer_balance_api: TransferBalanceApi::new(),
                balance_query_api: BalanceQueryApi::new(),
            },
        )
    }

    /// Rebuilds the ledger from the account records of a store.
    pub fn load_balances(store: &S) -> (r: Result<Balances, StorageError>)
        requires
            store.valid(),
        ensures
            store.reliable() ==> !(r matches Err(StorageError::Unavailable)),
            match r {
                Ok(balances) => balances.wf() && balances_match(balances@, store.contents()),
                Err(StorageError::CorruptRecord) => forall|ledger: LedgerMap|
                    !balances_match(ledger, store.contents()),
                Err(e) => e == StorageError::Unavailable,
            },
    {
        let accounts = match BalanceRepository::new(store).load_all() {
            Ok(accounts) => accounts,
            Err(e) => {
                proof {
                    if e == StorageError::CorruptRecord {
                        let key = choose|key: Seq<u8>| #[trigger]
                            store.contents().contains_key((Partition::Balances, key))
                                && !sound_balance_record(
                                key,
                                store.contents()[(Partition::Balances, key)],
                            );
                        assert forall|ledger: LedgerMap|
                            !balances_match(ledger, store.contents()) by {
                            if balances_match(ledger, store.contents()) {
                                lemma_matched_store_is_sound(ledger, store.contents(), key);
                            }
                        }
                    }
                }
                return Err(e);
            },
        };
        let mut balances = Balances::new();
        let mut i: usize = 0;
        while i < accounts.len()
            invariant
                i <= accounts.len(),
                balances.wf(),
                forall|id: u64| #[trigger]
                    balances@.contains_key(id) ==> exists|k: int|
                        0 <= k < i && (#[trigger] accounts[k]) == (Balance {
                            id,
                            amount: balances@[id],
                        }),
                forall|k: int|
                    0 <= k < i ==> balances@.contains_key((#[trigger] accounts[k]).id),
                forall|k: int|
                    #![trigger accounts[k]]
                    0 <= k < accounts.len() ==> balance_at(store.contents(), accounts[k].id)
                        == Some(accounts[k]),
            decreases accounts.len() - i,
        {
            let ghost before = balances@;
            balances.put(accounts[i]);
            proof {
                assert forall|id: u64| #[trigger] balances@.contains_key(id) implies exists|k: int|
                    0 <= k < i + 1 && (#[trigger] accounts[k]) == (Balance {
                        id,
                        amount: balances@[id],
                    }) by {
                    if id == accounts[i as int].id {
                        assert(accounts[i as int] == (Balance { id, amount: balances@[id] }));
                    } else {
                        assert(before.contains_key(id));
                        let k = choose|k: int|
                            0 <= k < i && (#[trigger] accounts[k]) == (Balance {
                                id,
                                amount: before[id],
                            });
                        assert(accounts[k] == (Balance { id, amount: balances@[id] }));
                    }
                }
            }
            i = i + 1;
        }
        proof {
            let contents = store.contents();
            assert forall|id: u64| #[trigger] balances@.contains_key(id) implies balance_at(
                contents,
                id,
            ) == Some(Balance { id, amount: balances@[id] }) by {
                let k = choose|k: int|
                    0 <= k < i && (#[trigger] accounts[k]) == (Balance {
                        id,
                        amount: balances@[id],
                    });
                assert(balance_at(contents, accounts[k].id) == Some(accounts[k]));
            }
            assert forall|key: Seq<u8>| #[trigger]
                contents.contains_key((Partition::Balances, key)) implies key.len() == 8
                && balances@.contains_key(from_be(key)) by {
                let k = choose|k: int|
                    0 <= k < accounts.len() && be_bytes((#[trigger] accounts[k]).id) == key;
                lemma_be_round_trip(accounts[k].id);
            }
        }
        Ok(balances)
    }

    /// The store.
    pub fn store(&self) -> (r: &S)
        ensures
            r.contents() == self.contents(),
            r.reliable() == self.reliable(),
            self.wf() ==> r.valid(),
    {
        &self.store
    }

    /// The ledger.
    pub fn balances(&self) -> (r: &Balances)
        ensures
            r@ == self.ledger(),
            self.wf() ==> r.wf(),
    {
        &self.balances
    }

    /// Gives the store back and drops the ledger.
    pub fn into_store(self) -> (r: S)
        ensures
            r.contents() == self.contents(),
            r.reliable() == self.reliable(),
            self.wf() ==> r.valid() && balances_match(self.ledger(), r.contents()),
    {
        self.store
    }

    /// Opens an account and commits its record and a `BalanceCreated`
    /// event.
    pub fn create_balance(&mut self, command: CreateBalanceCommand) -> (r: CreateBalanceResponse)
        requires
            old(self).wf(),
        ensures
            final(self).wf(),
            create_outcome(
                old(self).ledger(),
                old(self).contents(),
                command,
                r,
                final(self).ledger(),
                final(self).contents(),
            ),
            events_dense(old(self).contents()) ==> events_dense(final(self).contents()),
            old(self).reliable() ==> final(self).reliable(),
            old(self).reliable() && has_room(old(self).contents()) ==> (r is Ok
                <==> spec_create(old(self).ledger(), command.id) is Ok),
    {
        self.create_balance_api.create_balance(&mut self.balances, &mut self.store, command)
    }

    /// Credits an account and commits its record and a
    /// `BalanceDeposited` event.
    pub fn deposit(&mut self, command: DepositBalanceCommand) -> (r: DepositBalanceResponse)
        requires
            old(self).wf(),
        ensures
            final(self).wf(),
            deposit_outcome(
                old(self).ledger(),
                old(self).contents(),
                command,
                r,
                final(self).ledger(),
                final(self).contents(),
            ),
            events_dense(old(self).contents()) ==> events_dense(final(self).contents()),
            old(self).reliable() ==> final(self).reliable(),
            old(self).reliable() && has_room(old(self).contents()) ==> (r is Ok
                <==> spec_deposit(
                old(self).ledger(),
                command.id,
                command.amount,
            ) is Ok),
    {
        self.deposit_balance_api.deposit(&mut self.balances, &mut self.store, command)
    }

    /// Debits an account and commits its record and a
    /// `BalanceWithdrawn` event.
    pub fn withdraw(&mut self, command: WithdrawBalanceCommand) -> (r: WithdrawBalanceResponse)
        requires
            old(self).wf(),
        ensures
            final(self).wf(),
            withdraw_outcome(
                old(self).ledger(),
                old(self).contents(),
                command,
                r,
                final(self).ledger(),
                final(self).contents(),
            ),
            events_dense(old(self).contents()) ==> events_dense(final(self).contents()),
            old(self).reliable() ==> final(self).reliable(),
            old(self).reliable() && has_room(old(self).contents()) ==> (r is Ok
                <==> spec_withdraw(
                old(self).ledger(),
                command.id,
                command.amount,
            ) is Ok),
    {
        self.withdraw_balance_api.withdraw(&mut self.balances, &mut self.store, command)
    }

    /// Moves an amount between two accounts and commits both records and
    /// a `BalanceTransferred` event. The sum of all amounts stays what it
    /// was.
    pub fn transfer(&mut self, command: TransferBalanceCommand) -> (r: TransferBalanceResponse)
        requires
            old(self).wf(),
        ensures
            final(self).wf(),
            transfer_outcome(
                old(self).ledger(),
                old(self).contents(),
                command,
                r,
                final(self).ledger(),
                final(self).contents(),
            ),
            total(final(self).ledger()) == total(old(self).ledger()),
            events_dense(old(self).contents()) ==> events_dense(final(self).contents()),
            old(self).reliable() ==> final(self).reliable(),
            old(self).reliable() && has_room(old(self).contents()) ==> (r is Ok
                <==> spec_transfer(
                old(self).ledger(),
                command.from_id,
                command.to_id,
                command.amount,
            ) is Ok),
    {
        self.transfer_balance_api.transfer(&mut self.balances, &mut self.store, command)
    }

    /// A copy of the account that the ledger holds under the id.
    pub fn get_balance(&self, query: BalanceQuery) -> (r: BalanceResponse)
        requires
            self.wf(),
        ensures
            self.ledger().contains_key(query.id) ==> r == Ok::<Balance, BalanceError>(
                Balance { id: query.id, amount: self.ledger()[query.id] },
            ),
            !self.ledger().contains_key(query.id) ==> r == Err::<Balance, BalanceError>(
                BalanceError::BalanceNotFound(query.id),
            ),
    {
        self.balance_query_api.get_balance(&self.balances, query)
    }
}

} // verus!
