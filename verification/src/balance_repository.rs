use vstd::prelude::*;

use crate::balance::{Balance, BalanceId};
use crate::balance_error::StorageError;
use crate::codec::{be_bytes, bytes_equal, to_be_bytes};
use crate::consistency::balance_at;
use crate::layout::balance_put;
use crate::store::{Entry, KeyValueStore, Partition};
use crate::transaction::TransactionContext;

verus! {

/// A record of the balances partition is sound: it decodes to an account,
/// and its key is the big-endian form of that account's id.
pub open spec fn sound_balance_record(key: Seq<u8>, value: Seq<u8>) -> bool {
    match Balance::parse(value) {
        Some(balance) => key == be_bytes(balance.id),
        None => false,
    }
}

/// `accounts` are the accounts behind `entries`, one for one.
pub open spec fn accounts_of_entries(entries: Seq<Entry>, accounts: Seq<Balance>) -> bool {
    &&& accounts.len() == entries.len()
    &&& forall|i: int|
        #![trigger accounts[i]]
        0 <= i < entries.len() ==> Balance::parse(entries[i].value@) == Some(accounts[i])
            && entries[i].key@ == be_bytes(accounts[i].id)
}

/// What a point read of an account's record stands for: no account where
/// nothing was found, the account where the record is sound, an error
/// otherwise.
pub fn account_of_record(id: BalanceId, found: &Option<Vec<u8>>) -> (r: Result<
    Option<Balance>,
    StorageError,
>)
    ensures
        match *found {
            None => r == Ok::<Option<Balance>, StorageError>(None),
            Some(bytes) => match Balance::parse(bytes@) {
                Some(balance) if balance.id == id => r == Ok::<Option<Balance>, StorageError>(
                    Some(balance),
                ),
                _ => r == Err::<Option<Balance>, StorageError>(StorageError::CorruptRecord),
            },
        },
{
    match found {
        None => Ok(None),
        Some(bytes) => match Balance::from_bytes(bytes.as_slice()) {
            Some(balance) => {
                if balance.id == id {
                    Ok(Some(balance))
                } else {
                    Err(StorageError::CorruptRecord)
                }
            },
            None => Err(StorageError::CorruptRecord),
        },
    }
}

/// The accounts behind the records of a scan. One record that is not
/// sound makes the whole scan an error.
pub fn accounts_of_scan(entries: &Vec<Entry>) -> (r: Result<Vec<Balance>, StorageError>)
    ensures
        match r {
            Ok(accounts) => accounts_of_entries(entries@, accounts@),
            Err(e) => e == StorageError::CorruptRecord && exists|i: int|
                0 <= i < entries.len() && !sound_balance_record(
                    (#[trigger] entries[i]).key@,
                    entries[i].value@,
                ),
        },
{
    let mut accounts: Vec<Balance> = Vec::new();
    let mut i: usize = 0;
    while i < entries.len()
        invariant
            i <= entries.len(),
            accounts.len() == i,
            forall|k: int|
                #![trigger accounts[k]]
                0 <= k < i ==> Balance::parse(entries[k].value@) == Some(accounts[k])
                    && entries[k].key@ == be_bytes(accounts[k].id),
        decreases entries.len() - i,
    {
        let balance = match Balance::from_bytes(entries[i].value.as_slice()) {
            Some(balance) => balance,
            None => {
                assert(!sound_balance_record(entries[i as int].key@, entries[i as int].value@));
                return Err(StorageError::CorruptRecord);
            },
        };
        let key = to_be_bytes(balance.id);
        if !bytes_equal(entries[i].key.as_slice(), key.as_slice()) {
            assert(!sound_balance_record(entries[i as int].key@, entries[i as int].value@));
            return Err(StorageError::CorruptRecord);
        }
        accounts.push(balance);
        i = i + 1;
    }
    Ok(accounts)
}

/// Reads and stages account records.
pub struct BalanceRepository<'a, S: KeyValueStore> {
    pub store: &'a S,
}

impl<'a, S: KeyValueStore> BalanceRepository<'a, S> {
    pub fn new(store: &'a S) -> (r: Self)
        ensures
            r.store == store,
    {
        BalanceRepository { store }
    }

    /// Stages the write of an account's record in a transaction.
    pub fn persist_in_transaction(&self, balance: Balance, context: &mut TransactionContext)
        ensures
            final(context)@ == old(context)@.push(balance_put(balance)),
            Balance::parse(balance_put(balance).value) == Some(balance),
    {
        context.stage_balance(balance);
    }

    /// The account that the store holds under `id`. A record that does
    /// not decode to an account with this id is reported as corrupt.
    pub fn get(&self, id: BalanceId) -> (r: Result<Option<Balance>, StorageError>)
        requires
            self.store.valid(),
        ensures
            self.store.reliable() ==> r != Err::<Option<Balance>, StorageError>(
                StorageError::Unavailable,
            ),
            match r {
                Ok(found) => found == balance_at(self.store.contents(), id) && (found is None
                    ==> !self.store.contents().contains_key(
                    (Partition::Balances, be_bytes(id)),
                )),
                Err(StorageError::CorruptRecord) => self.store.contents().contains_key(
                    (Partition::Balances, be_bytes(id)),
                ) && balance_at(self.store.contents(), id) is None,
                Err(e) => e == StorageError::Unavailable,
            },
    {
        let key = to_be_bytes(id);
        match self.store.get(Partition::Balances, key.as_slice()) {
            Ok(found) => account_of_record(id, &found),
            Err(_) => Err(StorageError::Unavailable),
        }
    }

    /// All accounts that the store holds. One record that is not sound
    /// makes the whole load an error.
    pub fn load_all(&self) -> (r: Result<Vec<Balance>, StorageError>)
        requires
            self.store.valid(),
        ensures
            self.store.reliable() ==> !(r matches Err(StorageError::Unavailable)),
            match r {
                Ok(accounts) => {
                    &&& forall|i: int|
                        #![trigger accounts[i]]
                        0 <= i < accounts.len() ==> balance_at(
                            self.store.contents(),
                            accounts[i].id,
                        ) == Some(accounts[i])
                    &&& forall|key: Seq<u8>| #[trigger]
                        self.store.contents().contains_key((Partition::Balances, key))
                            ==> exists|i: int|
                            0 <= i < accounts.len() && be_bytes((#[trigger] accounts[i]).id)
                                == key
                },
                Err(StorageError::CorruptRecord) => exists|key: Seq<u8>| #[trigger]
                    self.store.contents().contains_key((Partition::Balances, key))
                        && !sound_balance_record(
                        key,
                        self.store.contents()[(Partition::Balances, key)],
                    ),
                Err(e) => e == StorageError::Unavailable,
            },
    {
        let entries = match self.store.scan(Partition::Balances) {
            Ok(entries) => entries,
            Err(_) => {
                return Err(StorageError::Unavailable);
            },
        };
        match accounts_of_scan(&entries) {
            Ok(accounts) => {
                proof {
                    let contents = self.store.contents();
                    assert forall|key: Seq<u8>| #[trigger]
                        contents.contains_key((Partition::Balances, key)) implies exists|i: int|
                        0 <= i < accounts.len() && be_bytes((#[trigger] accounts[i]).id)
                            == key by {
                        let i = choose|i: int|
                            0 <= i < entries.len() && (#[trigger] entries[i]).key@ == key;
                        assert(be_bytes(accounts[i].id) == key);
                    }
                    assert forall|i: int|
                        #![trigger accounts[i]]
                        0 <= i < accounts.len() implies balance_at(contents, accounts[i].id)
                        == Some(accounts[i]) by {
                        assert(contents.contains_key((Partition::Balances, entries[i].key@)));
                    }
                }
                Ok(accounts)
            },
            Err(e) => {
                proof {
                    let i = choose|i: int|
                        0 <= i < entries.len() && !sound_balance_record(
                            (#[trigger] entries[i]).key@,
                            entries[i].value@,
                        );
                    assert(self.store.contents().contains_key(
                        (Partition::Balances, entries[i].key@),
                    ));
                }
                Err(e)
            },
        }
    }
}

} // verus!
