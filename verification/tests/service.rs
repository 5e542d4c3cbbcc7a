use balance_ledger::balance::{Balance, Balances};
use balance_ledger::balance_api::BalanceApi;
use balance_ledger::balance_error::{BalanceError, StorageError, StoreFailure};
use balance_ledger::balance_event::{
    BalanceCreatedEvent, BalanceDepositedEvent, BalanceEvent, BalanceEventType,
    BalanceTransferredEvent, BalanceWithdrawnEvent,
};
use balance_ledger::balance_event_repository::BalanceEventRepository;
use balance_ledger::balance_query_api::BalanceQuery;
use balance_ledger::balance_repository::BalanceRepository;
use balance_ledger::codec::to_be_bytes;
use balance_ledger::create_balance_api::{CreateBalanceApi, CreateBalanceCommand};
use balance_ledger::deposit_balance_api::{DepositBalanceApi, DepositBalanceCommand};
use balance_ledger::layout::last_event_id_key;
use balance_ledger::memory_store::MemoryStore;
use balance_ledger::store::{Entry, KeyValueStore, Partition, StagedWrite};
use balance_ledger::transfer_balance_api::{TransferBalanceApi, TransferBalanceCommand};
use balance_ledger::withdraw_balance_api::{WithdrawBalanceApi, WithdrawBalanceCommand};

fn fresh() -> BalanceApi<MemoryStore> {
    BalanceApi::new(MemoryStore::new()).unwrap()
}

fn last_event_id(store: &MemoryStore) -> u64 {
    BalanceEventRepository::new(store).last_event_id().unwrap()
}

fn events(store: &MemoryStore) -> Vec<BalanceEvent> {
    BalanceEventRepository::new(store)
        .read(1, u64::MAX)
        .unwrap()
}

fn kinds(store: &MemoryStore) -> Vec<BalanceEventType> {
    events(store).iter().map(|e| e.event_type).collect()
}

fn stored(store: &MemoryStore, id: u64) -> Option<Balance> {
    BalanceRepository::new(store).get(id).unwrap()
}

fn amount(api: &BalanceApi<MemoryStore>, id: u64) -> u128 {
    api.get_balance(BalanceQuery::new(id)).unwrap().amount()
}

/// A store that hands every read to a store in memory and turns every
/// write down.
struct ReadOnlyStore {
    inner: MemoryStore,
}

impl KeyValueStore for ReadOnlyStore {
    fn get(&self, partition: Partition, key: &[u8]) -> Result<Option<Vec<u8>>, StoreFailure> {
        self.inner.get(partition, key)
    }

    fn scan(&self, partition: Partition) -> Result<Vec<Entry>, StoreFailure> {
        self.inner.scan(partition)
    }

    fn write(&mut self, _writes: &Vec<StagedWrite>) -> Result<(), StoreFailure> {
        Err(StoreFailure)
    }
}

/// A store that turns every read and write down.
struct DeadStore;

impl KeyValueStore for DeadStore {
    fn get(&self, _partition: Partition, _key: &[u8]) -> Result<Option<Vec<u8>>, StoreFailure> {
        Err(StoreFailure)
    }

    fn scan(&self, _partition: Partition) -> Result<Vec<Entry>, StoreFailure> {
        Err(StoreFailure)
    }

    fn write(&mut self, _writes: &Vec<StagedWrite>) -> Result<(), StoreFailure> {
        Err(StoreFailure)
    }
}

fn put(store: &mut MemoryStore, partition: Partition, key: Vec<u8>, value: Vec<u8>) {
    store
        .write(&vec![StagedWrite {
            partition,
            key,
            value,
        }])
        .unwrap();
}

#[test]
fn create_twice_leaves_one_created_event() {
    let mut api = fresh();
    assert!(matches!(
        api.create_balance(CreateBalanceCommand::new(1)),
        Ok(1)
    ));
    assert!(matches!(
        api.create_balance(CreateBalanceCommand::new(1)),
        Err(BalanceError::BalanceAlreadyExists(1))
    ));
    let log = events(api.store());
    assert_eq!(log.len(), 1);
    assert_eq!(log[0].id, 1);
    assert_eq!(log[0].event_type, BalanceEventType::BalanceCreated);
    assert_eq!(
        BalanceCreatedEvent::from_bytes(&log[0].data),
        Some(BalanceCreatedEvent { id: 1 })
    );
    assert_eq!(last_event_id(api.store()), 1);
}

#[test]
fn create_deposit_withdraw_leaves_sixty_and_three_events() {
    let mut api = fresh();
    api.create_balance(CreateBalanceCommand::new(1)).unwrap();
    api.deposit(DepositBalanceCommand::new(1, 100)).unwrap();
    api.withdraw(WithdrawBalanceCommand::new(1, 40)).unwrap();
    assert_eq!(amount(&api, 1), 60);
    assert_eq!(last_event_id(api.store()), 3);
    assert_eq!(
        kinds(api.store()),
        vec![
            BalanceEventType::BalanceCreated,
            BalanceEventType::BalanceDeposited,
            BalanceEventType::BalanceWithdrawn
        ]
    );
    let log = events(api.store());
    assert_eq!(
        BalanceDepositedEvent::from_bytes(&log[1].data),
        Some(BalanceDepositedEvent { id: 1, amount: 100 })
    );
    assert_eq!(
        BalanceWithdrawnEvent::from_bytes(&log[2].data),
        Some(BalanceWithdrawnEvent { id: 1, amount: 40 })
    );
    assert_eq!(stored(api.store(), 1), Some(Balance { id: 1, amount: 60 }));
}

#[test]
fn transfer_moves_thirty_and_is_the_fourth_event() {
    let mut api = fresh();
    api.create_balance(CreateBalanceCommand::new(1)).unwrap();
    api.create_balance(CreateBalanceCommand::new(2)).unwrap();
    api.deposit(DepositBalanceCommand::new(1, 50)).unwrap();
    api.transfer(TransferBalanceCommand::new(1, 2, 30)).unwrap();
    assert_eq!(amount(&api, 1), 20);
    assert_eq!(amount(&api, 2), 30);
    assert_eq!(last_event_id(api.store()), 4);
    let log = events(api.store());
    assert_eq!(log.len(), 4);
    assert_eq!(log[3].id, 4);
    assert_eq!(log[3].event_type, BalanceEventType::BalanceTransferred);
    assert_eq!(
        BalanceTransferredEvent::from_bytes(&log[3].data),
        Some(BalanceTransferredEvent {
            from_id: 1,
            to_id: 2,
            amount: 30
        })
    );
    assert_eq!(stored(api.store(), 1), Some(Balance { id: 1, amount: 20 }));
    assert_eq!(stored(api.store(), 2), Some(Balance { id: 2, amount: 30 }));
}

#[test]
fn withdraw_without_funds_leaves_no_event() {
    let mut api = fresh();
    api.create_balance(CreateBalanceCommand::new(1)).unwrap();
    assert!(matches!(
        api.withdraw(WithdrawBalanceCommand::new(1, 5)),
        Err(BalanceError::InsufficientFunds {
            balance: 0,
            amount: 5
        })
    ));
    assert_eq!(last_event_id(api.store()), 1);
    assert_eq!(
        kinds(api.store()),
        vec![BalanceEventType::BalanceCreated]
    );
    assert_eq!(amount(&api, 1), 0);
}

#[test]
fn deposit_to_an_unknown_account_persists_nothing() {
    let mut api = fresh();
    assert!(matches!(
        api.deposit(DepositBalanceCommand::new(99, 10)),
        Err(BalanceError::BalanceNotFound(99))
    ));
    let key = to_be_bytes(99);
    assert_eq!(api.store().get(Partition::Balances, &key), Ok(None));
    assert_eq!(api.store().get(Partition::Events, &key), Ok(None));
    assert!(api.store().scan(Partition::Balances).unwrap().is_empty());
    assert!(api.store().scan(Partition::Events).unwrap().is_empty());
    assert_eq!(last_event_id(api.store()), 0);
}

#[test]
fn restart_rebuilds_the_ledger_from_the_store() {
    let mut api = fresh();
    api.create_balance(CreateBalanceCommand::new(1)).unwrap();
    api.deposit(DepositBalanceCommand::new(1, 100)).unwrap();
    api.withdraw(WithdrawBalanceCommand::new(1, 40)).unwrap();
    let store = api.into_store();
    let mut restarted = BalanceApi::new(store).unwrap();
    assert_eq!(amount(&restarted, 1), 60);
    assert!(matches!(
        restarted.get_balance(BalanceQuery::new(2)),
        Err(BalanceError::BalanceNotFound(2))
    ));
    assert_eq!(last_event_id(restarted.store()), 3);
    restarted.deposit(DepositBalanceCommand::new(1, 1)).unwrap();
    assert_eq!(last_event_id(restarted.store()), 4);
    assert_eq!(amount(&restarted, 1), 61);
}

#[test]
fn store_records_hold_the_ledger_amounts_after_every_command() {
    let mut api = fresh();
    let ids = [1u64, 2, 3, 300, u64::MAX];
    for id in ids {
        api.create_balance(CreateBalanceCommand::new(id)).unwrap();
        for known in ids {
            let in_ledger = api.get_balance(BalanceQuery::new(known)).ok();
            assert_eq!(stored(api.store(), known), in_ledger);
        }
    }
    api.deposit(DepositBalanceCommand::new(300, 1000)).unwrap();
    api.transfer(TransferBalanceCommand::new(300, u64::MAX, 999))
        .unwrap();
    api.withdraw(WithdrawBalanceCommand::new(u64::MAX, 9)).unwrap();
    assert!(api.withdraw(WithdrawBalanceCommand::new(1, 9)).is_err());
    for known in ids {
        let in_ledger = api.get_balance(BalanceQuery::new(known)).ok();
        assert_eq!(stored(api.store(), known), in_ledger);
    }
    assert_eq!(amount(&api, 300), 1);
    assert_eq!(amount(&api, u64::MAX), 990);
    assert_eq!(api.store().scan(Partition::Balances).unwrap().len(), 5);
}

#[test]
fn event_ids_are_dense_and_each_record_names_its_id() {
    let mut api = fresh();
    api.create_balance(CreateBalanceCommand::new(1)).unwrap();
    api.create_balance(CreateBalanceCommand::new(2)).unwrap();
    for round in 0..20u128 {
        api.deposit(DepositBalanceCommand::new(1, round)).unwrap();
        let _ = api.transfer(TransferBalanceCommand::new(1, 2, 3));
        let _ = api.withdraw(WithdrawBalanceCommand::new(2, 100));
    }
    let last = last_event_id(api.store());
    for id in 1..=last {
        let bytes = api
            .store()
            .get(Partition::Events, &to_be_bytes(id))
            .unwrap()
            .unwrap();
        assert_eq!(BalanceEvent::from_bytes(&bytes).unwrap().id, id);
    }
    assert_eq!(
        api.store().get(Partition::Events, &to_be_bytes(last + 1)),
        Ok(None)
    );
    // the events and the counter
    assert_eq!(
        api.store().scan(Partition::Events).unwrap().len() as u64,
        last + 1
    );
}

#[test]
fn deposit_of_zero_still_leaves_an_event() {
    let mut api = fresh();
    api.create_balance(CreateBalanceCommand::new(1)).unwrap();
    api.deposit(DepositBalanceCommand::new(1, 0)).unwrap();
    api.withdraw(WithdrawBalanceCommand::new(1, 0)).unwrap();
    assert_eq!(last_event_id(api.store()), 3);
    assert_eq!(amount(&api, 1), 0);
}

#[test]
fn transfer_to_the_same_account_leaves_an_event_and_the_amount() {
    let mut api = fresh();
    api.create_balance(CreateBalanceCommand::new(1)).unwrap();
    api.deposit(DepositBalanceCommand::new(1, 10)).unwrap();
    api.transfer(TransferBalanceCommand::new(1, 1, 4)).unwrap();
    assert_eq!(amount(&api, 1), 10);
    assert_eq!(stored(api.store(), 1), Some(Balance { id: 1, amount: 10 }));
    assert_eq!(last_event_id(api.store()), 3);
    assert_eq!(
        kinds(api.store())[2],
        BalanceEventType::BalanceTransferred
    );
}

#[test]
fn deposit_overflow_persists_nothing() {
    let mut api = fresh();
    api.create_balance(CreateBalanceCommand::new(1)).unwrap();
    api.deposit(DepositBalanceCommand::new(1, u128::MAX)).unwrap();
    assert!(matches!(
        api.deposit(DepositBalanceCommand::new(1, 1)),
        Err(BalanceError::Overflow)
    ));
    assert_eq!(last_event_id(api.store()), 2);
    assert_eq!(amount(&api, 1), u128::MAX);
}

#[test]
fn transfer_overflow_persists_nothing_and_restores_the_source() {
    let mut api = fresh();
    api.create_balance(CreateBalanceCommand::new(1)).unwrap();
    api.create_balance(CreateBalanceCommand::new(2)).unwrap();
    api.deposit(DepositBalanceCommand::new(1, 5)).unwrap();
    api.deposit(DepositBalanceCommand::new(2, u128::MAX)).unwrap();
    assert!(matches!(
        api.transfer(TransferBalanceCommand::new(1, 2, 1)),
        Err(BalanceError::Overflow)
    ));
    assert_eq!(amount(&api, 1), 5);
    assert_eq!(amount(&api, 2), u128::MAX);
    assert_eq!(last_event_id(api.store()), 4);
}

#[test]
fn failed_write_puts_the_ledger_back() {
    let mut inner = BalanceApi::new(MemoryStore::new()).unwrap();
    inner.create_balance(CreateBalanceCommand::new(1)).unwrap();
    inner.create_balance(CreateBalanceCommand::new(2)).unwrap();
    inner.deposit(DepositBalanceCommand::new(1, 50)).unwrap();
    let store = ReadOnlyStore {
        inner: inner.into_store(),
    };
    let mut api = BalanceApi::new(store).unwrap();
    assert!(matches!(
        api.create_balance(CreateBalanceCommand::new(3)),
        Err(BalanceError::Storage(StorageError::Unavailable))
    ));
    assert!(matches!(
        api.get_balance(BalanceQuery::new(3)),
        Err(BalanceError::BalanceNotFound(3))
    ));
    assert!(matches!(
        api.deposit(DepositBalanceCommand::new(1, 7)),
        Err(BalanceError::Storage(StorageError::Unavailable))
    ));
    assert!(matches!(
        api.withdraw(WithdrawBalanceCommand::new(1, 7)),
        Err(BalanceError::Storage(StorageError::Unavailable))
    ));
    assert!(matches!(
        api.transfer(TransferBalanceCommand::new(1, 2, 7)),
        Err(BalanceError::Storage(StorageError::Unavailable))
    ));
    assert_eq!(api.get_balance(BalanceQuery::new(1)).unwrap().amount(), 50);
    assert_eq!(api.get_balance(BalanceQuery::new(2)).unwrap().amount(), 0);
    // a refusal by the ledger comes before the store is asked
    assert!(matches!(
        api.withdraw(WithdrawBalanceCommand::new(1, 51)),
        Err(BalanceError::InsufficientFunds {
            balance: 50,
            amount: 51
        })
    ));
    assert_eq!(last_event_id(&api.store().inner), 3);
}

#[test]
fn dead_store_cannot_be_taken_over() {
    assert!(matches!(
        BalanceApi::new(DeadStore),
        Err(StorageError::Unavailable)
    ));
}

#[test]
fn corrupt_counter_turns_commands_down() {
    let mut store = MemoryStore::new();
    put(&mut store, Partition::Events, last_event_id_key(), vec![1, 2, 3]);
    let mut api = BalanceApi::new(store).unwrap();
    assert!(matches!(
        api.create_balance(CreateBalanceCommand::new(1)),
        Err(BalanceError::Storage(StorageError::CorruptCounter))
    ));
    assert!(matches!(
        api.get_balance(BalanceQuery::new(1)),
        Err(BalanceError::BalanceNotFound(1))
    ));
    assert!(api.store().scan(Partition::Balances).unwrap().is_empty());
}

#[test]
fn exhausted_counter_turns_commands_down() {
    let mut store = MemoryStore::new();
    put(
        &mut store,
        Partition::Events,
        last_event_id_key(),
        to_be_bytes(u64::MAX),
    );
    let mut api = BalanceApi::new(store).unwrap();
    assert!(matches!(
        api.create_balance(CreateBalanceCommand::new(1)),
        Err(BalanceError::Storage(StorageError::EventIdExhausted))
    ));
    assert!(api.store().scan(Partition::Balances).unwrap().is_empty());
    assert_eq!(last_event_id(api.store()), u64::MAX);
}

#[test]
fn counter_one_below_the_end_allows_one_more_event() {
    let mut store = MemoryStore::new();
    put(
        &mut store,
        Partition::Events,
        last_event_id_key(),
        to_be_bytes(u64::MAX - 1),
    );
    let mut api = BalanceApi::new(store).unwrap();
    assert!(api.create_balance(CreateBalanceCommand::new(1)).is_ok());
    assert_eq!(last_event_id(api.store()), u64::MAX);
    assert!(matches!(
        api.deposit(DepositBalanceCommand::new(1, 1)),
        Err(BalanceError::Storage(StorageError::EventIdExhausted))
    ));
    assert_eq!(amount(&api, 1), 0);
}

#[test]
fn store_with_an_unsound_account_record_is_turned_down() {
    let mut undecodable = MemoryStore::new();
    put(&mut undecodable, Partition::Balances, to_be_bytes(1), vec![]);
    assert!(matches!(
        BalanceApi::new(undecodable),
        Err(StorageError::CorruptRecord)
    ));
    let mut misplaced = MemoryStore::new();
    put(
        &mut misplaced,
        Partition::Balances,
        to_be_bytes(2),
        Balance { id: 1, amount: 5 }.bytes(),
    );
    assert!(matches!(
        BalanceApi::new(misplaced),
        Err(StorageError::CorruptRecord)
    ));
    let mut short_key = MemoryStore::new();
    put(
        &mut short_key,
        Partition::Balances,
        vec![1],
        Balance { id: 1, amount: 5 }.bytes(),
    );
    assert!(matches!(
        BalanceApi::new(short_key),
        Err(StorageError::CorruptRecord)
    ));
}

#[test]
fn repository_get_tells_absent_from_corrupt() {
    let mut store = MemoryStore::new();
    put(
        &mut store,
        Partition::Balances,
        to_be_bytes(1),
        Balance { id: 1, amount: 5 }.bytes(),
    );
    put(&mut store, Partition::Balances, to_be_bytes(2), vec![255]);
    put(
        &mut store,
        Partition::Balances,
        to_be_bytes(3),
        Balance { id: 4, amount: 5 }.bytes(),
    );
    let repository = BalanceRepository::new(&store);
    assert_eq!(repository.get(1), Ok(Some(Balance { id: 1, amount: 5 })));
    assert_eq!(repository.get(2), Err(StorageError::CorruptRecord));
    assert_eq!(repository.get(3), Err(StorageError::CorruptRecord));
    assert_eq!(repository.get(5), Ok(None));
    assert_eq!(repository.load_all(), Err(StorageError::CorruptRecord));
    assert_eq!(
        BalanceRepository::new(&DeadStore).get(1),
        Err(StorageError::Unavailable)
    );
    assert_eq!(
        BalanceRepository::new(&DeadStore).load_all(),
        Err(StorageError::Unavailable)
    );
}

#[test]
fn repository_loads_all_accounts() {
    let mut api = fresh();
    for id in [5u64, 1, 9] {
        api.create_balance(CreateBalanceCommand::new(id)).unwrap();
        api.deposit(DepositBalanceCommand::new(id, id as u128 * 10))
            .unwrap();
    }
    let mut accounts = BalanceRepository::new(api.store()).load_all().unwrap();
    accounts.sort_by_key(|b| b.id);
    assert_eq!(
        accounts,
        vec![
            Balance { id: 1, amount: 10 },
            Balance { id: 5, amount: 50 },
            Balance { id: 9, amount: 90 }
        ]
    );
    let loaded = BalanceApi::<MemoryStore>::load_balances(api.store()).unwrap();
    assert_eq!(loaded.get_balance(5).unwrap().amount(), 50);
    assert_eq!(api.balances().get_balance(9).unwrap().amount(), 90);
}

#[test]
fn each_event_tells_the_change_of_the_ledger() {
    let mut api = fresh();
    api.create_balance(CreateBalanceCommand::new(1)).unwrap();
    api.create_balance(CreateBalanceCommand::new(2)).unwrap();
    let commands: [(u8, u128); 7] = [(0, 500), (1, 120), (2, 80), (0, 0), (2, 300), (0, 7), (1, 6)];
    for (kind, value) in commands {
        let before = (amount(&api, 1), amount(&api, 2));
        let last_before = last_event_id(api.store());
        match kind {
            0 => api.deposit(DepositBalanceCommand::new(1, value)).unwrap(),
            1 => api.withdraw(WithdrawBalanceCommand::new(1, value)).unwrap(),
            _ => api
                .transfer(TransferBalanceCommand::new(1, 2, value))
                .unwrap(),
        }
        let after = (amount(&api, 1), amount(&api, 2));
        assert_eq!(last_event_id(api.store()), last_before + 1);
        let log = events(api.store());
        let event = log.last().unwrap();
        assert_eq!(event.id, last_before + 1);
        match event.event_type {
            BalanceEventType::BalanceDeposited => {
                let payload = BalanceDepositedEvent::from_bytes(&event.data).unwrap();
                assert_eq!(payload, BalanceDepositedEvent { id: 1, amount: value });
                assert_eq!(after, (before.0 + payload.amount, before.1));
            }
            BalanceEventType::BalanceWithdrawn => {
                let payload = BalanceWithdrawnEvent::from_bytes(&event.data).unwrap();
                assert_eq!(payload, BalanceWithdrawnEvent { id: 1, amount: value });
                assert_eq!(after, (before.0 - payload.amount, before.1));
            }
            BalanceEventType::BalanceTransferred => {
                let payload = BalanceTransferredEvent::from_bytes(&event.data).unwrap();
                assert_eq!(
                    payload,
                    BalanceTransferredEvent {
                        from_id: 1,
                        to_id: 2,
                        amount: value
                    }
                );
                assert_eq!(
                    after,
                    (before.0 - payload.amount, before.1 + payload.amount)
                );
            }
            BalanceEventType::BalanceCreated => unreachable!(),
        }
    }
    assert_eq!((amount(&api, 1), amount(&api, 2)), (1, 380));
}

#[test]
fn transfer_command_keeps_the_sum_of_all_amounts() {
    let mut api = fresh();
    for id in 1..=3u64 {
        api.create_balance(CreateBalanceCommand::new(id)).unwrap();
        api.deposit(DepositBalanceCommand::new(id, 1000)).unwrap();
    }
    let sum = |api: &BalanceApi<MemoryStore>| -> u128 { (1..=3u64).map(|id| amount(api, id)).sum() };
    assert_eq!(sum(&api), 3000);
    let transfers: [(u64, u64, u128); 6] = [
        (1, 2, 300),
        (2, 3, 1300),
        (3, 3, 50),
        (1, 3, 701),
        (3, 1, 2300),
        (1, 9, 1),
    ];
    for (from_id, to_id, value) in transfers {
        let _ = api.transfer(TransferBalanceCommand::new(from_id, to_id, value));
        assert_eq!(sum(&api), 3000);
    }
    assert_eq!(
        (amount(&api, 1), amount(&api, 2), amount(&api, 3)),
        (3000, 0, 0)
    );
}

#[test]
fn restart_after_refused_and_failed_commands_rebuilds_the_same_ledger() {
    let mut api = fresh();
    api.create_balance(CreateBalanceCommand::new(1)).unwrap();
    api.create_balance(CreateBalanceCommand::new(2)).unwrap();
    api.deposit(DepositBalanceCommand::new(1, 70)).unwrap();
    assert!(api.withdraw(WithdrawBalanceCommand::new(2, 1)).is_err());
    assert!(api.create_balance(CreateBalanceCommand::new(2)).is_err());
    api.transfer(TransferBalanceCommand::new(1, 2, 20)).unwrap();
    let mut failing = BalanceApi::new(ReadOnlyStore {
        inner: api.into_store(),
    })
    .unwrap();
    assert!(failing.deposit(DepositBalanceCommand::new(2, 5)).is_err());
    assert!(failing
        .transfer(TransferBalanceCommand::new(2, 1, 5))
        .is_err());
    assert!(failing.create_balance(CreateBalanceCommand::new(3)).is_err());
    let in_memory: Vec<Option<u128>> = (1..=3u64)
        .map(|id| failing.get_balance(BalanceQuery::new(id)).ok().map(|b| b.amount()))
        .collect();
    let restarted = BalanceApi::new(failing.into_store().inner).unwrap();
    let rebuilt: Vec<Option<u128>> = (1..=3u64)
        .map(|id| restarted.get_balance(BalanceQuery::new(id)).ok().map(|b| b.amount()))
        .collect();
    assert_eq!(in_memory, vec![Some(50), Some(20), None]);
    assert_eq!(rebuilt, in_memory);
    assert_eq!(last_event_id(restarted.store()), 4);
}

#[test]
fn handlers_work_on_a_ledger_and_a_store_of_their_own() {
    let mut ledger = Balances::new();
    let mut store = MemoryStore::new();
    assert!(matches!(
        CreateBalanceApi::new().create_balance(&mut ledger, &mut store, CreateBalanceCommand::new(1)),
        Ok(1)
    ));
    assert!(matches!(
        CreateBalanceApi::new().create_balance(&mut ledger, &mut store, CreateBalanceCommand::new(2)),
        Ok(2)
    ));
    assert!(DepositBalanceApi::new()
        .deposit(&mut ledger, &mut store, DepositBalanceCommand::new(1, 9))
        .is_ok());
    assert!(WithdrawBalanceApi::new()
        .withdraw(&mut ledger, &mut store, WithdrawBalanceCommand::new(1, 4))
        .is_ok());
    assert!(TransferBalanceApi::new()
        .transfer(&mut ledger, &mut store, TransferBalanceCommand::new(1, 2, 5))
        .is_ok());
    assert_eq!(ledger.get_balance(1).unwrap().amount(), 0);
    assert_eq!(ledger.get_balance(2).unwrap().amount(), 5);
    assert_eq!(last_event_id(&store), 5);
    // without an account in the ledger nothing is staged
    assert!(matches!(
        DepositBalanceApi::new().deposit_in_transaction(
            &ledger,
            &mut store,
            DepositBalanceCommand::new(7, 1)
        ),
        Err(BalanceError::BalanceNotFound(7))
    ));
    assert!(matches!(
        WithdrawBalanceApi::new().withdraw_in_transaction(
            &ledger,
            &mut store,
            WithdrawBalanceCommand::new(7, 1)
        ),
        Err(BalanceError::BalanceNotFound(7))
    ));
    assert!(matches!(
        TransferBalanceApi::new().transfer_in_transaction(
            &ledger,
            &mut store,
            TransferBalanceCommand::new(1, 7, 1)
        ),
        Err(BalanceError::BalanceNotFound(7))
    ));
    assert_eq!(last_event_id(&store), 5);
    assert!(matches!(
        CreateBalanceApi::new().create_balance_in_transaction(&mut store, CreateBalanceCommand::new(8)),
        Ok(8)
    ));
    assert_eq!(last_event_id(&store), 6);
    assert_eq!(stored(&store, 8), Some(Balance { id: 8, amount: 0 }));
}

#[test]
fn staging_functions_return_what_the_commands_return() {
    let mut ledger = Balances::new();
    let mut store = MemoryStore::new();
    assert!(matches!(
        CreateBalanceApi::new().create_balance_in_transaction(&mut store, CreateBalanceCommand::new(7)),
        Ok(7)
    ));
    assert_eq!(last_event_id(&store), 1);
    assert_eq!(stored(&store, 7), Some(Balance { id: 7, amount: 0 }));
    ledger.create_balance(7).unwrap();
    ledger.create_balance(9).unwrap();
    ledger.deposit(7, 30).unwrap();
    assert!(matches!(
        DepositBalanceApi::new().deposit_in_transaction(
            &ledger,
            &mut store,
            DepositBalanceCommand::new(7, 30)
        ),
        Ok(())
    ));
    assert_eq!(stored(&store, 7), Some(Balance { id: 7, amount: 30 }));
    ledger.withdraw(7, 10).unwrap();
    assert!(matches!(
        WithdrawBalanceApi::new().withdraw_in_transaction(
            &ledger,
            &mut store,
            WithdrawBalanceCommand::new(7, 10)
        ),
        Ok(())
    ));
    assert_eq!(stored(&store, 7), Some(Balance { id: 7, amount: 20 }));
    ledger.transfer(7, 9, 5).unwrap();
    assert!(matches!(
        TransferBalanceApi::new().transfer_in_transaction(
            &ledger,
            &mut store,
            TransferBalanceCommand::new(7, 9, 5)
        ),
        Ok(())
    ));
    assert_eq!(stored(&store, 7), Some(Balance { id: 7, amount: 15 }));
    assert_eq!(stored(&store, 9), Some(Balance { id: 9, amount: 5 }));
    assert_eq!(last_event_id(&store), 4);
    assert_eq!(
        kinds(&store),
        vec![
            BalanceEventType::BalanceCreated,
            BalanceEventType::BalanceDeposited,
            BalanceEventType::BalanceWithdrawn,
            BalanceEventType::BalanceTransferred
        ]
    );
}
