use vstd::prelude::*;

use crate::balance_error::StorageError;
use crate::balance_event::{
    parse_event_record, payload_json, BalanceEvent, BalanceEventType, EventId, EventRecord,
};
use crate::codec::to_be_bytes;
use crate::consistency::{event_at, events_dense, holds_event};
use crate::layout::{counter_put, event_put, last_event_id_of};
use crate::store::{KeyValueStore, Partition, StoreMap};
use crate::transaction::{read_last_event_id, TransactionContext};

verus! {

/// The well-formed events that the store holds under the ids from `low`
/// up to, but not including, `high`, in ascending order of id.
pub open spec fn events_between(contents: StoreMap, low: int, high: int) -> Seq<EventRecord>
    decreases high - low,
{
    if low >= high {
        Seq::empty()
    } else {
        let id = high - 1;
        let before = events_between(contents, low, id);
        if 0 <= id <= u64::MAX && event_at(contents, id as u64) is Some {
            before.push(event_at(contents, id as u64)->Some_0)
        } else {
            before
        }
    }
}

/// The last id that a read of `limit` events from `offset` may fetch: the
/// window's end, clamped to the event counter.
pub open spec fn read_upper(last_event_id: u64, offset: u64, limit: u64) -> int {
    if offset + limit - 1 <= last_event_id {
        offset + limit - 1
    } else {
        last_event_id as int
    }
}

/// What a read of `limit` events from `offset` returns.
pub open spec fn spec_read(contents: StoreMap, last_event_id: u64, offset: u64, limit: u64) -> Seq<
    EventRecord,
> {
    events_between(contents, offset as int, read_upper(last_event_id, offset, limit) + 1)
}

/// The views of a list of events.
pub open spec fn records_of(events: Seq<BalanceEvent>) -> Seq<EventRecord> {
    events.map_values(|e: BalanceEvent| e@)
}

/// The events of a window come in strictly ascending order of id, and
/// each lies in the window and is the event that the store holds under
/// its id.
pub proof fn lemma_events_between_ascending(contents: StoreMap, low: int, high: int)
    ensures
        forall|k: int|
            #![trigger events_between(contents, low, high)[k]]
            0 <= k < events_between(contents, low, high).len() ==> {
                let record = events_between(contents, low, high)[k];
                &&& low <= record.id < high
                &&& event_at(contents, record.id) == Some(record)
            },
        forall|j: int, k: int|
            0 <= j < k < events_between(contents, low, high).len() ==> (#[trigger] events_between(
                contents,
                low,
                high,
            )[j]).id < (#[trigger] events_between(contents, low, high)[k]).id,
        events_between(contents, low, high).len() <= if high >= low {
            high - low
        } else {
            0
        },
    decreases high - low,
{
    if low < high {
        lemma_events_between_ascending(contents, low, high - 1);
    }
}

/// In a dense log, a window that lies within the committed ids holds
/// every id of the window, in order.
pub proof fn lemma_events_between_dense(contents: StoreMap, low: int, high: int)
    requires
        events_dense(contents),
        1 <= low <= high,
        high - 1 <= last_event_id_of(contents)->Some_0,
    ensures
        events_between(contents, low, high).len() == high - low,
        forall|k: int|
            0 <= k < high - low ==> (#[trigger] events_between(contents, low, high)[k]).id == low
                + k && payload_json(
                events_between(contents, low, high)[k].event_type,
                events_between(contents, low, high)[k].data,
            ) is Some,
    decreases high - low,
{
    if low < high {
        lemma_events_between_dense(contents, low, high - 1);
        assert(holds_event(contents, (high - 1) as u64));
    }
}

/// What a point read under an event id stands for: the event where the
/// record is well formed and carries this id, nothing otherwise.
pub fn event_of_record(id: EventId, found: &Option<Vec<u8>>) -> (r: Option<BalanceEvent>)
    ensures
        match *found {
            None => r is None,
            Some(bytes) => match parse_event_record(bytes@) {
                Some(record) if record.id == id => r is Some && r->Some_0@ == record,
                _ => r is None,
            },
        },
{
    match found {
        None => None,
        Some(bytes) => match BalanceEvent::from_bytes(bytes.as_slice()) {
            Some(event) => {
                if event.id == id {
                    Some(event)
                } else {
                    None
                }
            },
            None => None,
        },
    }
}

/// Appends events to the log and reads them back in order.
pub struct BalanceEventRepository<'a, S: KeyValueStore> {
    pub store: &'a S,
}

impl<'a, S: KeyValueStore> BalanceEventRepository<'a, S> {
    pub fn new(store: &'a S) -> (r: Self)
        ensures
            r.store == store,
    {
        BalanceEventRepository { store }
    }

    /// The id of the last committed event; 0 before the first.
    pub fn last_event_id(&self) -> (r: Result<u64, StorageError>)
        requires
            self.store.valid(),
        ensures
            self.store.reliable() ==> r != Err::<u64, StorageError>(StorageError::Unavailable),
            match r {
                Ok(n) => last_event_id_of(self.store.contents()) == Some(n),
                Err(StorageError::CorruptCounter) => last_event_id_of(self.store.contents())
                    is None,
                Err(e) => e == StorageError::Unavailable,
            },
    {
        read_last_event_id(self.store)
    }

    /// Stages an event in a transaction, under the id that follows the
    /// event counter, together with the counter's move to that id.
    pub fn persist_in_transaction(
        &self,
        event_type: BalanceEventType,
        event: Vec<u8>,
        context: &mut TransactionContext,
    ) -> (r: Result<EventId, StorageError>)
        requires
            self.store.valid(),
        ensures
            self.store.reliable() ==> r != Err::<EventId, StorageError>(
                StorageError::Unavailable,
            ),
            match r {
                Ok(id) => {
                    let record = EventRecord { id, event_type, data: event@ };
                    &&& id >= 1
                    &&& last_event_id_of(self.store.contents()) == Some((id - 1) as u64)
                    &&& final(context)@ == old(context)@.push(event_put(record)).push(
                        counter_put(id),
                    )
                    &&& parse_event_record(event_put(record).value) == Some(record)
                },
                Err(e) => {
                    &&& final(context)@ == old(context)@
                    &&& match e {
                        StorageError::CorruptCounter => last_event_id_of(self.store.contents())
                            is None,
                        StorageError::EventIdExhausted => last_event_id_of(
                            self.store.contents(),
                        ) == Some(u64::MAX),
                        _ => e == StorageError::Unavailable,
                    }
                },
            },
    {
        context.stage_event(self.store, event_type, event)
    }

    /// Up to `limit` events, starting with the id `offset`, in ascending
    /// order of id. No id beyond the event counter is fetched. An id
    /// whose record is missing or malformed is passed over. A store that
    /// does not fail gives the events whenever the counter is sound.
    pub fn read(&self, offset: u64, limit: u64) -> (r: Result<Vec<BalanceEvent>, StorageError>)
        requires
            self.store.valid(),
        ensures
            self.store.reliable() ==> !(r matches Err(StorageError::Unavailable)),
            match r {
                Ok(events) => last_event_id_of(self.store.contents()) is Some && records_of(
                    events@,
                ) == spec_read(
                    self.store.contents(),
                    last_event_id_of(self.store.contents())->Some_0,
                    offset,
                    limit,
                ),
                Err(StorageError::CorruptCounter) => last_event_id_of(self.store.contents())
                    is None,
                Err(e) => e == StorageError::Unavailable,
            },
    {
        let last_event_id = match self.last_event_id() {
            Ok(n) => n,
            Err(e) => {
                return Err(e);
            },
        };
        let mut events: Vec<BalanceEvent> = Vec::new();
        let ghost contents = self.store.contents();
        if limit == 0 || offset > last_event_id {
            assert(records_of(events@) =~= spec_read(contents, last_event_id, offset, limit));
            return Ok(events);
        }
        let upper = if limit - 1 > last_event_id - offset {
            last_event_id
        } else {
            offset + (limit - 1)
        };
        assert(upper == read_upper(last_event_id, offset, limit));
        let mut id = offset;
        assert(records_of(events@) =~= events_between(contents, offset as int, id as int));
        loop
            invariant_except_break
                records_of(events@) == events_between(contents, offset as int, id as int),
            invariant
                self.store.valid(),
                contents == self.store.contents(),
                offset <= id <= upper,
            ensures
                id == upper,
                records_of(events@) == events_between(contents, offset as int, upper + 1),
            decreases upper - id,
        {
            let key = to_be_bytes(id);
            let found = match self.store.get(Partition::Events, key.as_slice()) {
                Ok(found) => found,
                Err(_) => {
                    return Err(StorageError::Unavailable);
                },
            };
            let ghost before = records_of(events@);
            match event_of_record(id, &found) {
                Some(event) => {
                    let ghost record = event@;
                    events.push(event);
                    assert(records_of(events@) =~= before.push(record));
                },
                None => {},
            }
            assert(records_of(events@) == events_between(contents, offset as int, id + 1));
            if id == upper {
                break ;
            }
            id = id + 1;
        }
        Ok(events)
    }
}

} // verus!
