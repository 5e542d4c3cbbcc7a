use vstd::prelude::*;

use crate::balance::Balance;
use crate::balance_error::StorageError;
use crate::balance_event::{
    parse_event_record, BalanceEvent, BalanceEventType, EventId, EventRecord,
};
use crate::codec::{from_be_bytes, spec_from_be_bytes};
use crate::layout::{
    balance_put, counter_at, counter_put, event_put, last_event_id_key, last_event_id_of,
    stage_for_balance, stage_for_counter, stage_for_event,
};
use crate::store::{apply_writes, puts_of, KeyValueStore, Partition, Put, StagedWrite};

verus! {

/// What a counter cell stands for, given what a point read of it found:
/// 0 for an absent cell, the number behind eight bytes, an error for any
/// other length.
pub fn counter_value(found: &Option<Vec<u8>>) -> (r: Result<u64, StorageError>)
    ensures
        match *found {
            None => r == Ok::<u64, StorageError>(0),
            Some(bytes) => match spec_from_be_bytes(bytes@) {
                Some(n) => r == Ok::<u64, StorageError>(n),
                None => r == Err::<u64, StorageError>(StorageError::CorruptCounter),
            },
        },
{
    match found {
        None => Ok(0),
        Some(bytes) => match from_be_bytes(bytes.as_slice()) {
            Some(n) => Ok(n),
            None => Err(StorageError::CorruptCounter),
        },
    }
}

/// Reads a counter cell. A failed read is reported as `Unavailable`, a
/// cell of the wrong length as `CorruptCounter`. A store that does not
/// fail gives the counter whenever the cell is sound.
pub fn read_counter<S: KeyValueStore>(store: &S, partition: Partition, key: &[u8]) -> (r: Result<
    u64,
    StorageError,
>)
    requires
        store.valid(),
    ensures
        store.reliable() ==> r != Err::<u64, StorageError>(StorageError::Unavailable),
        match r {
            Ok(n) => counter_at(store.contents(), partition, key@) == Some(n),
            Err(StorageError::CorruptCounter) => counter_at(store.contents(), partition, key@)
                is None,
            Err(e) => e == StorageError::Unavailable,
        },
{
    match store.get(partition, key) {
        Ok(found) => counter_value(&found),
        Err(_) => Err(StorageError::Unavailable),
    }
}

/// Reads the id of the last committed event.
pub fn read_last_event_id<S: KeyValueStore>(store: &S) -> (r: Result<u64, StorageError>)
    requires
        store.valid(),
    ensures
        store.reliable() ==> r != Err::<u64, StorageError>(StorageError::Unavailable),
        match r {
            Ok(n) => last_event_id_of(store.contents()) == Some(n),
            Err(StorageError::CorruptCounter) => last_event_id_of(store.contents()) is None,
            Err(e) => e == StorageError::Unavailable,
        },
{
    let key = last_event_id_key();
    read_counter(store, Partition::Events, key.as_slice())
}

/// Opens transactions.
#[derive(Debug, Clone, Copy, PartialEq, Eq, Structural)]
pub struct Transaction;

impl Transaction {
    pub fn new() -> (r: Self)
        ensures
            r == Transaction,
    {
        Transaction
    }

    /// Opens a transaction in which nothing is staged yet.
    pub fn start(&self) -> (context: TransactionContext)
        ensures
            context@ == Seq::<Put>::empty(),
    {
        let context = TransactionContext { writes: Vec::new() };
        assert(context@ =~= Seq::<Put>::empty());
        context
    }
}

/// The writes of one command, staged until they are committed as a whole
/// or discarded.
#[derive(Debug)]
pub struct TransactionContext {
    writes: Vec<StagedWrite>,
}

impl View for TransactionContext {
    type V = Seq<Put>;

    closed spec fn view(&self) -> Seq<Put> {
        puts_of(self.writes@)
    }
}

impl TransactionContext {
    /// Stages the write of an account record.
    pub fn stage_balance(&mut self, balance: Balance)
        ensures
            final(self)@ == old(self)@.push(balance_put(balance)),
            Balance::parse(balance_put(balance).value) == Some(balance),
    {
        self.writes.push(stage_for_balance(&balance));
        assert(self@ =~= old(self)@.push(balance_put(balance)));
    }

    /// Stages an event under the id that follows `last_event_id`, and the
    /// counter's move to that id. Stages nothing where no id follows.
    pub fn stage_event_after(
        &mut self,
        last_event_id: EventId,
        event_type: BalanceEventType,
        payload: Vec<u8>,
    ) -> (r: Result<EventId, StorageError>)
        ensures
            last_event_id < u64::MAX ==> {
                let record = EventRecord {
                    id: (last_event_id + 1) as u64,
                    event_type,
                    data: payload@,
                };
                &&& r == Ok::<EventId, StorageError>(record.id)
                &&& final(self)@ == old(self)@.push(event_put(record)).push(
                    counter_put(record.id),
                )
                &&& parse_event_record(event_put(record).value) == Some(record)
            },
            last_event_id == u64::MAX ==> r == Err::<EventId, StorageError>(
                StorageError::EventIdExhausted,
            ) && final(self)@ == old(self)@,
    {
        if last_event_id == u64::MAX {
            return Err(StorageError::EventIdExhausted);
        }
        let id = last_event_id + 1;
        let event = BalanceEvent { id, event_type, data: payload };
        self.writes.push(stage_for_event(&event));
        self.writes.push(stage_for_counter(id));
        assert(self@ =~= old(self)@.push(event_put(event@)).push(counter_put(id)));
        Ok(id)
    }

    /// Reads the event counter from the store and stages an event under
    /// the id that follows it, together with the counter's move to that
    /// id. Stages nothing where the counter cannot be read or no id
    /// follows.
    pub fn stage_event<S: KeyValueStore>(
        &mut self,
        store: &S,
        event_type: BalanceEventType,
        payload: Vec<u8>,
    ) -> (r: Result<EventId, StorageError>)
        requires
            store.valid(),
        ensures
            store.reliable() ==> r != Err::<EventId, StorageError>(StorageError::Unavailable),
            match r {
                Ok(id) => {
                    let record = EventRecord { id, event_type, data: payload@ };
                    &&& id >= 1
                    &&& last_event_id_of(store.contents()) == Some((id - 1) as u64)
                    &&& final(self)@ == old(self)@.push(event_put(record)).push(counter_put(id))
                    &&& parse_event_record(event_put(record).value) == Some(record)
                },
                Err(e) => {
                    &&& final(self)@ == old(self)@
                    &&& match e {
                        StorageError::CorruptCounter => last_event_id_of(store.contents())
                            is None,
                        StorageError::EventIdExhausted => last_event_id_of(store.contents())
                            == Some(u64::MAX),
                        _ => e == StorageError::Unavailable,
                    }
                },
            },
    {
        match read_last_event_id(store) {
            Ok(last_event_id) => self.stage_event_after(last_event_id, event_type, payload),
            Err(e) => Err(e),
        }
    }

    /// Applies the staged writes to the store, all of them or none.
    pub fn commit<S: KeyValueStore>(self, store: &mut S) -> (r: Result<(), StorageError>)
        requires
            old(store).valid(),
        ensures
            final(store).valid(),
            old(store).reliable() ==> r is Ok && final(store).reliable(),
            match r {
                Ok(()) => final(store).contents() == apply_writes(old(store).contents(), self@),
                Err(e) => e == StorageError::Unavailable && final(store).contents() == old(
                    store,
                ).contents(),
            },
    {
        match store.write(&self.writes) {
            Ok(()) => Ok(()),
            Err(_) => Err(StorageError::Unavailable),
        }
    }

    /// Discards the staged writes.
    pub fn rollback(self) {
    }
}

} // verus!
