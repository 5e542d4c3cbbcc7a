use vstd::prelude::*;

use crate::balance_error::StorageError;
use crate::balance_event::{
    payload_json, BalanceCreatedEvent, BalanceDepositedEvent, BalanceEventType,
    BalanceTransferredEvent, BalanceWithdrawnEvent, EventId, EventRecord,
};
use crate::balance_event_repository::{records_of, spec_read, BalanceEventRepository};
use crate::encoding::{json_event, write_json_event};
use crate::layout::last_event_id_of;
use crate::store::KeyValueStore;

verus! {

/// An event as it is handed to readers, as a mathematical object: the
/// payload is JSON text.
pub struct EventData {
    pub id: u64,
    pub event_type: BalanceEventType,
    pub data: Seq<char>,
}

/// An event as it is handed to readers and to the bus.
#[derive(Debug)]
pub struct BalanceEventData {
    pub id: EventId,
    pub event_type: BalanceEventType,
    pub data: String,
}

impl View for BalanceEventData {
    type V = EventData;

    open spec fn view(&self) -> EventData {
        EventData { id: self.id, event_type: self.event_type, data: self.data@ }
    }
}

impl BalanceEventData {
    /// The wire encoding: a JSON object with the fields `id`,
    /// `event_type` and `data`.
    pub fn json(&self) -> (r: String)
        ensures
            r@ == json_event(self.id, self.event_type.spec_name(), self.data@),
    {
        write_json_event(self.id, self.event_type.name(), self.data.as_str())
    }
}

/// The events of a list whose payloads decode, each with its payload as
/// JSON text, in the order of the list.
pub open spec fn event_data_of(records: Seq<EventRecord>) -> Seq<EventData>
    decreases records.len(),
{
    if records.len() == 0 {
        Seq::empty()
    } else {
        let record = records.last();
        let before = event_data_of(records.drop_last());
        match payload_json(record.event_type, record.data) {
            Some(text) => before.push(
                EventData { id: record.id, event_type: record.event_type, data: text },
            ),
            None => before,
        }
    }
}

/// The views of a list of events for readers.
pub open spec fn event_data_views(events: Seq<BalanceEventData>) -> Seq<EventData> {
    events.map_values(|e: BalanceEventData| e@)
}

/// The events for readers keep the order of the events they were made
/// from, and each carries the id and kind of one of them.
pub proof fn lemma_event_data_keeps_order(records: Seq<EventRecord>)
    requires
        forall|j: int, k: int|
            0 <= j < k < records.len() ==> (#[trigger] records[j]).id < (#[trigger] records[k]).id,
    ensures
        event_data_of(records).len() <= records.len(),
        forall|k: int|
            0 <= k < event_data_of(records).len() ==> exists|j: int|
                k <= j < records.len() && (#[trigger] records[j]).id == (#[trigger] event_data_of(
                    records,
                )[k]).id && records[j].event_type == event_data_of(records)[k].event_type
                    && payload_json(records[j].event_type, records[j].data) == Some(
                    event_data_of(records)[k].data,
                ),
        forall|j: int, k: int|
            0 <= j < k < event_data_of(records).len() ==> (#[trigger] event_data_of(records)[j]).id
                < (#[trigger] event_data_of(records)[k]).id,
        (forall|j: int|
            0 <= j < records.len() ==> payload_json(
                (#[trigger] records[j]).event_type,
                records[j].data,
            ) is Some) ==> event_data_of(records).len() == records.len() && forall|j: int|
            0 <= j < records.len() ==> (#[trigger] event_data_of(records)[j]).id == records[j].id,
    decreases records.len(),
{
    if records.len() > 0 {
        let front = records.drop_last();
        assert(forall|j: int| 0 <= j < front.len() ==> front[j] == records[j]);
        lemma_event_data_keeps_order(front);
        let made = event_data_of(records);
        let made_front = event_data_of(front);
        assert forall|k: int| 0 <= k < made.len() implies exists|j: int|
            k <= j < records.len() && (#[trigger] records[j]).id == (#[trigger] made[k]).id
                && records[j].event_type == made[k].event_type && payload_json(
                records[j].event_type,
                records[j].data,
            ) == Some(made[k].data) by {
            if k < made_front.len() {
                let j = choose|j: int|
                    k <= j < front.len() && (#[trigger] front[j]).id
                        == (#[trigger] made_front[k]).id && front[j].event_type
                        == made_front[k].event_type && payload_json(
                        front[j].event_type,
                        front[j].data,
                    ) == Some(made_front[k].data);
                assert(records[j].id == made[k].id);
            } else {
                assert(records[records.len() - 1].id == made[k].id);
            }
        }
        assert forall|j: int, k: int| 0 <= j < k < made.len() implies (#[trigger] made[j]).id < (
        #[trigger] made[k]).id by {
            if k >= made_front.len() {
                let i = choose|i: int|
                    j <= i < front.len() && (#[trigger] front[i]).id
                        == (#[trigger] made_front[j]).id && front[i].event_type
                        == made_front[j].event_type && payload_json(
                        front[i].event_type,
                        front[i].data,
                    ) == Some(made_front[j].data);
                assert(records[i].id < records[records.len() - 1].id);
            }
        }
    }
}

/// The question for a stretch of the event log: `limit` events, the
/// first with the id `offset`.
#[derive(Debug, Clone, Copy, PartialEq, Eq, Structural)]
pub struct BalanceEventQuery {
    pub offset: u64,
    pub limit: u64,
}

/// The offset of a query that names none: the first event.
pub fn default_offset() -> (r: u64)
    ensures
        r == 1,
{
    1
}

/// The limit of a query that names none.
pub fn default_limit() -> (r: u64)
    ensures
        r == 10,
{
    10
}

impl BalanceEventQuery {
    /// The query with the defaults in the place of what is not named.
    pub fn new(offset: Option<u64>, limit: Option<u64>) -> (r: Self)
        ensures
            r.offset == (match offset {
                Some(n) => n,
                None => 1,
            }),
            r.limit == (match limit {
                Some(n) => n,
                None => 10,
            }),
    {
        BalanceEventQuery {
            offset: match offset {
                Some(n) => n,
                None => default_offset(),
            },
            limit: match limit {
                Some(n) => n,
                None => default_limit(),
            },
        }
    }
}

impl Default for BalanceEventQuery {
    fn default() -> (r: Self)
        ensures
            r == (BalanceEventQuery { offset: 1, limit: 10 }),
    {
        BalanceEventQuery { offset: default_offset(), limit: default_limit() }
    }
}

/// Hands out the event log to readers.
pub struct BalanceEventApi<'a, S: KeyValueStore> {
    pub balance_event_repository: BalanceEventRepository<'a, S>,
}

impl<'a, S: KeyValueStore> BalanceEventApi<'a, S> {
    pub fn new(balance_event_repository: BalanceEventRepository<'a, S>) -> (r: Self)
        ensures
            r.balance_event_repository == balance_event_repository,
    {
        BalanceEventApi { balance_event_repository }
    }

    /// Up to `limit` events, starting with the id `offset`, in ascending
    /// order of id, each with its payload as JSON text. An event whose
    /// record or payload is missing or malformed is passed over.
    pub fn get_balance_events(&self, offset: u64, limit: u64) -> (r: Result<
        Vec<BalanceEventData>,
        StorageError,
    >)
        requires
            self.balance_event_repository.store.valid(),
        ensures
            self.balance_event_repository.store.reliable() ==> !(r matches Err(
                StorageError::Unavailable,
            )),
            match r {
                Ok(events) => {
                    let contents = self.balance_event_repository.store.contents();
                    &&& last_event_id_of(contents) is Some
                    &&& event_data_views(events@) == event_data_of(
                        spec_read(contents, last_event_id_of(contents)->Some_0, offset, limit),
                    )
                },
                Err(StorageError::CorruptCounter) => last_event_id_of(
                    self.balance_event_repository.store.contents(),
                ) is None,
                Err(e) => e == StorageError::Unavailable,
            },
    {
        let balance_events = match self.balance_event_repository.read(offset, limit) {
            Ok(events) => events,
            Err(e) => {
                return Err(e);
            },
        };
        let ghost records = records_of(balance_events@);
        let mut events: Vec<BalanceEventData> = Vec::new();
        let mut i: usize = 0;
        assert(records.subrange(0, 0) =~= Seq::<EventRecord>::empty());
        assert(event_data_views(events@) =~= event_data_of(records.subrange(0, 0)));
        while i < balance_events.len()
            invariant
                i <= balance_events.len(),
                records == records_of(balance_events@),
                event_data_views(events@) == event_data_of(records.subrange(0, i as int)),
            decreases balance_events.len() - i,
        {
            let event = &balance_events[i];
            let ghost before = event_data_views(events@);
            proof {
                assert(records.subrange(0, i + 1).drop_last() =~= records.subrange(0, i as int));
                assert(records.subrange(0, i + 1).last() == event@);
            }
            match self.string_event(event.event_type, event.data.as_slice()) {
                Some(data) => {
                    let item = BalanceEventData {
                        id: event.id,
                        event_type: event.event_type,
                        data,
                    };
                    let ghost made = item@;
                    events.push(item);
                    assert(event_data_views(events@) =~= before.push(made));
                },
                None => {},
            }
            i = i + 1;
        }
        assert(records.subrange(0, i as int) =~= records);
        Ok(events)
    }

    /// The JSON text of an event's payload; `None` where the payload does
    /// not decode as the event's kind.
    pub fn string_event(&self, event_type: BalanceEventType, data: &[u8]) -> (r: Option<String>)
        ensures
            match r {
                Some(text) => payload_json(event_type, data@) == Some(text@),
                None => payload_json(event_type, data@) is None,
            },
    {
        match event_type {
            BalanceEventType::BalanceCreated => match BalanceCreatedEvent::from_bytes(data) {
                Some(event) => Some(event.json()),
                None => None,
            },
            BalanceEventType::BalanceDeposited => match BalanceDepositedEvent::from_bytes(data) {
                Some(event) => Some(event.json()),
                None => None,
            },
            BalanceEventType::BalanceWithdrawn => match BalanceWithdrawnEvent::from_bytes(data) {
                Some(event) => Some(event.json()),
                None => None,
            },
            BalanceEventType::BalanceTransferred => match BalanceTransferredEvent::from_bytes(
                data,
            ) {
                Some(event) => Some(event.json()),
                None => None,
            },
        }
    }
}

} // verus!
