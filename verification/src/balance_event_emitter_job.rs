use vstd::prelude::*;

use crate::balance_error::StorageError;
use crate::balance_event_api::{
    event_data_of, event_data_views, lemma_event_data_keeps_order, BalanceEventApi,
    BalanceEventData, EventData,
};
use crate::balance_event_repository::{
    lemma_events_between_ascending, lemma_events_between_dense, read_upper, spec_read,
};
use crate::codec::lemma_be_round_trip;
use crate::consistency::events_dense;
use crate::encoding::{decimal, decimal_text, json_event, parse_u64, parsed_u64};
use crate::layout::{last_event_id_of, offset_key, offset_of, offset_put, stage_for_offset};
use crate::store::{lemma_apply_push, puts_of, KeyValueStore, Partition, Put, StoreMap};
use crate::transaction::read_counter;

verus! {

/// The number that an option stands for, given what parsing its text
/// gave: the fallback where the option is not set or is no number.
pub fn number_or(parsed: Option<Option<u64>>, fallback: u64) -> (r: u64)
    ensures
        r == (match parsed {
            Some(Some(n)) => n,
            _ => fallback,
        }),
{
    match parsed {
        Some(Some(n)) => n,
        _ => fallback,
    }
}

/// The number that an option stands for: what its text parses to, the
/// fallback where the option is not set or its text is no number.
pub open spec fn spec_number_option(text: Option<String>, fallback: u64) -> u64 {
    match text {
        Some(t) => match parsed_u64(t@) {
            Some(n) => n,
            None => fallback,
        },
        None => fallback,
    }
}

/// The number that an option stands for.
pub fn number_option(text: &Option<String>, fallback: u64) -> (r: u64)
    ensures
        r == spec_number_option(*text, fallback),
{
    match text {
        Some(t) => number_or(Some(parse_u64(t.as_str())), fallback),
        None => number_or(None, fallback),
    }
}

/// The text that an option stands for: the fallback where it is not set.
pub fn text_option(text: Option<String>, fallback: &str) -> (r: String)
    ensures
        r@ == (match text {
            Some(t) => t@,
            None => fallback@,
        }),
{
    match text {
        Some(t) => t,
        None => fallback.to_owned(),
    }
}

/// The publisher's settings.
#[derive(Debug)]
pub struct BalanceEventEmitterConfig {
    /// The brokers of the bus.
    pub brokers: String,
    /// The topic that events are sent to.
    pub topic: String,
    /// The most events that one iteration takes on.
    pub pooling_size: u64,
    /// The pause between two iterations, in milliseconds.
    pub publish_interval_ms: u64,
    /// How long a send may take, in milliseconds.
    pub send_timeout_ms: u64,
    /// How many commands may wait for the single writer.
    pub mailbox_capacity: u64,
}

impl BalanceEventEmitterConfig {
    /// The settings from the texts of the options that are set, with the
    /// defaults for the others and for numbers that do not parse.
    pub fn new(
        brokers: Option<String>,
        topic: Option<String>,
        pooling_size: Option<String>,
        publish_interval_ms: Option<String>,
        send_timeout_ms: Option<String>,
        mailbox_capacity: Option<String>,
    ) -> (r: Self)
        ensures
            r.brokers@ == (match brokers {
                Some(t) => t@,
                None => "localhost:9092"@,
            }),
            r.topic@ == (match topic {
                Some(t) => t@,
                None => "balance.event"@,
            }),
            r.pooling_size == spec_number_option(pooling_size, 1000),
            r.publish_interval_ms == spec_number_option(publish_interval_ms, 100),
            r.send_timeout_ms == spec_number_option(send_timeout_ms, 1000),
            r.mailbox_capacity == spec_number_option(mailbox_capacity, 1024),
    {
        BalanceEventEmitterConfig {
            brokers: text_option(brokers, "localhost:9092"),
            topic: text_option(topic, "balance.event"),
            pooling_size: number_option(&pooling_size, 1000),
            publish_interval_ms: number_option(&publish_interval_ms, 100),
            send_timeout_ms: number_option(&send_timeout_ms, 1000),
            mailbox_capacity: number_option(&mailbox_capacity, 1024),
        }
    }
}

/// A record for the bus, as a mathematical object.
pub struct Message {
    pub key: Seq<char>,
    pub payload: Seq<char>,
}

/// A record for the bus: the event's id in decimal digits as the key, the
/// event as JSON text as the payload.
#[derive(Debug)]
pub struct BusMessage {
    pub key: String,
    pub payload: String,
}

impl View for BusMessage {
    type V = Message;

    open spec fn view(&self) -> Message {
        Message { key: self.key@, payload: self.payload@ }
    }
}

/// The record that carries an event to the bus.
pub open spec fn message_for(event: EventData) -> Message {
    Message {
        key: decimal(event.id as nat),
        payload: json_event(event.id, event.event_type.spec_name(), event.data),
    }
}

/// What happened outside since the publisher's last step.
#[derive(Debug, Clone, Copy, PartialEq, Eq, Structural)]
pub enum PublishEvent {
    /// The pause between two iterations is over.
    Tick,
    /// The bus acknowledged the record that was sent last.
    Acked,
    /// The send failed or timed out.
    Failed,
}

/// What the publisher asks for next.
#[derive(Debug)]
pub enum PublishAction {
    /// Send this record and report `Acked` or `Failed`.
    Send(BusMessage),
    /// Pause for the publish interval and report `Tick`.
    Sleep,
}

/// The publisher's state as a mathematical object: the events of the
/// running iteration, and how many of them have been acknowledged.
pub struct JobState {
    pub pending: Seq<EventData>,
    pub position: nat,
}

impl JobState {
    /// A record is on its way to the bus.
    pub open spec fn in_flight(self) -> bool {
        self.position < self.pending.len()
    }

    /// The state between two iterations.
    pub open spec fn idle() -> JobState {
        JobState { pending: Seq::empty(), position: 0 }
    }

    /// The id of the event that is on its way.
    pub open spec fn current_id(self) -> u64 {
        self.pending[self.position as int].id
    }

    /// The state after the event that was on its way has been
    /// acknowledged.
    pub open spec fn acked(self) -> JobState {
        JobState { pending: self.pending, position: self.position + 1 }
    }
}

/// The publisher's state and offset after the step that follows one
/// send: an acknowledgment moves the offset to the event that was on its
/// way and brings on the next; a failure ends the iteration and leaves
/// the offset where it is. With nothing on its way, an acknowledgment
/// changes nothing.
pub open spec fn after_send(state: JobState, offset: u64, acknowledged: bool) -> (JobState, u64) {
    if !acknowledged {
        (JobState::idle(), offset)
    } else if state.in_flight() {
        (state.acked(), state.current_id())
    } else {
        (state, offset)
    }
}

/// The publisher's state and offset after the steps that follow a run of
/// sends, which ended as `acks` tells, in order. The run is over when
/// nothing is on its way.
pub open spec fn after_sends(state: JobState, offset: u64, acks: Seq<bool>) -> (JobState, u64)
    decreases acks.len(),
{
    if acks.len() == 0 || !state.in_flight() {
        (state, offset)
    } else {
        let next = after_send(state, offset, acks[0]);
        after_sends(next.0, next.1, acks.drop_first())
    }
}

/// The events that an iteration takes on: those that follow the offset,
/// at most `pooling_size` of them, none beyond the event counter.
pub open spec fn planned(
    contents: StoreMap,
    last_event_id: u64,
    offset: u64,
    pooling_size: u64,
) -> Seq<EventData> {
    if offset == u64::MAX {
        Seq::empty()
    } else {
        event_data_of(spec_read(contents, last_event_id, (offset + 1) as u64, pooling_size))
    }
}

/// In a dense log an iteration takes on exactly the events that follow
/// the offset, in order, as many as the pool allows and the log holds.
pub proof fn lemma_planned_in_dense_log(
    contents: StoreMap,
    last_event_id: u64,
    offset: u64,
    pooling_size: u64,
)
    requires
        events_dense(contents),
        last_event_id_of(contents) == Some(last_event_id),
        offset <= last_event_id,
    ensures
        ({
            let plan = planned(contents, last_event_id, offset, pooling_size);
            &&& plan.len() == if last_event_id - offset <= pooling_size {
                last_event_id - offset
            } else {
                pooling_size as int
            }
            &&& forall|k: int| 0 <= k < plan.len() ==> (#[trigger] plan[k]).id == offset + 1 + k
        }),
{
    if offset < u64::MAX {
        let low = offset + 1;
        let high = read_upper(last_event_id, (offset + 1) as u64, pooling_size) + 1;
        if low <= high {
            lemma_events_between_dense(contents, low, high);
        }
        lemma_events_between_ascending(contents, low, high);
        lemma_event_data_keeps_order(
            spec_read(contents, last_event_id, (offset + 1) as u64, pooling_size),
        );
    }
}

/// An iteration in which every send is acknowledged ends with the offset
/// at the id of the last event that it took on.
pub proof fn lemma_all_acked_reaches_the_end(state: JobState, offset: u64, acks: Seq<bool>)
    requires
        state.position <= state.pending.len(),
        acks.len() == state.pending.len() - state.position,
        forall|k: int| 0 <= k < acks.len() ==> acks[k],
    ensures
        !after_sends(state, offset, acks).0.in_flight(),
        after_sends(state, offset, acks).1 == if state.in_flight() {
            state.pending.last().id
        } else {
            offset
        },
    decreases acks.len(),
{
    if state.in_flight() {
        lemma_all_acked_reaches_the_end(state.acked(), state.current_id(), acks.drop_first());
    }
}

/// The offset never passes an event whose send was not acknowledged:
/// after any run of sends it is where it was, or at the id of an event of
/// the iteration up to which every send was acknowledged.
pub proof fn lemma_offset_follows_acknowledgments(state: JobState, offset: u64, acks: Seq<bool>)
    requires
        state.position <= state.pending.len(),
    ensures
        ({
            let end = after_sends(state, offset, acks).1;
            end == offset || exists|k: int|
                state.position <= k < state.pending.len() && k - state.position < acks.len()
                    && end == (#[trigger] state.pending[k]).id && forall|j: int|
                    0 <= j <= k - state.position ==> acks[j]
        }),
    decreases acks.len(),
{
    if acks.len() > 0 && state.in_flight() && acks[0] {
        let rest = acks.drop_first();
        lemma_offset_follows_acknowledgments(state.acked(), state.current_id(), rest);
        let end = after_sends(state, offset, acks).1;
        if end == state.current_id() {
            assert(end == state.pending[state.position as int].id);
            assert(forall|j: int| 0 <= j <= 0 ==> acks[j]);
        } else {
            let k = choose|k: int|
                state.position + 1 <= k < state.pending.len() && k - (state.position + 1)
                    < rest.len() && end == (#[trigger] state.pending[k]).id && forall|j: int|
                    0 <= j <= k - (state.position + 1) ==> rest[j];
            assert forall|j: int| 0 <= j <= k - state.position implies acks[j] by {
                if j > 0 {
                    assert(rest[j - 1]);
                }
            }
        }
    } else if acks.len() > 0 && state.in_flight() {
        reveal_with_fuel(after_sends, 2);
        assert(!JobState::idle().in_flight());
    }
}

/// In a dense log, an iteration in which every send is acknowledged
/// moves the offset forward by the number of events that wait, and by no
/// more than the pool: when no more events wait than the pool takes on,
/// the offset ends at the last committed event.
pub proof fn lemma_iteration_catches_up(
    contents: StoreMap,
    last_event_id: u64,
    offset: u64,
    pooling_size: u64,
    acks: Seq<bool>,
)
    requires
        events_dense(contents),
        last_event_id_of(contents) == Some(last_event_id),
        offset <= last_event_id,
        acks.len() == planned(contents, last_event_id, offset, pooling_size).len(),
        forall|k: int| 0 <= k < acks.len() ==> acks[k],
    ensures
        ({
            let start = JobState {
                pending: planned(contents, last_event_id, offset, pooling_size),
                position: 0,
            };
            after_sends(start, offset, acks).1 == if last_event_id - offset <= pooling_size {
                last_event_id as int
            } else {
                offset + pooling_size
            }
        }),
{
    let start = JobState {
        pending: planned(contents, last_event_id, offset, pooling_size),
        position: 0,
    };
    lemma_planned_in_dense_log(contents, last_event_id, offset, pooling_size);
    lemma_all_acked_reaches_the_end(start, offset, acks);
}

/// Keeps the publisher's offset in the store.
#[derive(Debug, Clone, Copy, PartialEq, Eq, Structural)]
pub struct BalanceEventOffsetDB;

impl BalanceEventOffsetDB {
    /// The id of the last event whose delivery was acknowledged; 0
    /// before the first.
    pub fn get_offset<O: KeyValueStore>(offsets: &O) -> (r: Result<u64, StorageError>)
        requires
            offsets.valid(),
        ensures
            offsets.reliable() ==> r != Err::<u64, StorageError>(StorageError::Unavailable),
            match r {
                Ok(n) => offset_of(offsets.contents()) == Some(n),
                Err(StorageError::CorruptCounter) => offset_of(offsets.contents()) is None,
                Err(e) => e == StorageError::Unavailable,
            },
    {
        let key = offset_key();
        read_counter(offsets, Partition::PublisherOffset, key.as_slice())
    }

    /// Records `offset` as the id of the last acknowledged event.
    pub fn set_offset<O: KeyValueStore>(offsets: &mut O, offset: u64) -> (r: Result<
        (),
        StorageError,
    >)
        requires
            old(offsets).valid(),
        ensures
            final(offsets).valid(),
            old(offsets).reliable() ==> r is Ok && final(offsets).reliable(),
            match r {
                Ok(()) => final(offsets).contents() == old(offsets).contents().insert(
                    offset_put(offset).slot(),
                    offset_put(offset).value,
                ) && offset_of(final(offsets).contents()) == Some(offset),
                Err(e) => {
                    &&& e == StorageError::Unavailable
                    &&& final(offsets).contents() == old(offsets).contents()
                },
            },
    {
        let mut writes = Vec::new();
        writes.push(stage_for_offset(offset));
        proof {
            assert(puts_of(writes@) =~= Seq::<Put>::empty().push(offset_put(offset)));
            lemma_apply_push(old(offsets).contents(), Seq::<Put>::empty(), offset_put(offset));
            lemma_be_round_trip(offset);
        }
        match offsets.write(&writes) {
            Ok(()) => Ok(()),
            Err(_) => Err(StorageError::Unavailable),
        }
    }
}

/// The publisher of the event log: it takes on the events that follow
/// its offset, hands them out for sending one after the other, and moves
/// the offset to an event only when the bus has acknowledged it.
#[derive(Debug)]
pub struct BalanceEventEmitterJob {
    pooling_size: u64,
    pending: Vec<BalanceEventData>,
    position: usize,
}

impl View for BalanceEventEmitterJob {
    type V = JobState;

    closed spec fn view(&self) -> JobState {
        JobState { pending: event_data_views(self.pending@), position: self.position as nat }
    }
}

impl BalanceEventEmitterJob {
    /// The most events that one iteration takes on.
    pub closed spec fn spec_pooling_size(&self) -> u64 {
        self.pooling_size
    }

    /// No more events are counted as acknowledged than the iteration
    /// took on.
    pub closed spec fn wf(&self) -> bool {
        self.position <= self.pending.len()
    }

    /// A publisher between two iterations.
    pub fn new(pooling_size: u64) -> (r: Self)
        ensures
            r.wf(),
            r@ == JobState::idle(),
            r.spec_pooling_size() == pooling_size,
    {
        let r = BalanceEventEmitterJob { pooling_size, pending: Vec::new(), position: 0 };
        assert(r@.pending =~= Seq::<EventData>::empty());
        r
    }

    pub fn pooling_size(&self) -> (r: u64)
        ensures
            r == self.spec_pooling_size(),
    {
        self.pooling_size
    }

    /// The record of the event that is on its way to the bus.
    pub fn message(&self) -> (r: Option<BusMessage>)
        requires
            self.wf(),
        ensures
            match r {
                Some(message) => self@.in_flight() && message@ == message_for(
                    self@.pending[self@.position as int],
                ),
                None => !self@.in_flight(),
            },
    {
        if self.position < self.pending.len() {
            let event = &self.pending[self.position];
            Some(BusMessage { key: decimal_text(event.id), payload: event.json() })
        } else {
            None
        }
    }

    fn action(&self) -> (r: PublishAction)
        requires
            self.wf(),
        ensures
            published(self@, r),
    {
        match self.message() {
            Some(message) => PublishAction::Send(message),
            None => PublishAction::Sleep,
        }
    }

    fn halt(&mut self)
        ensures
            final(self).wf(),
            final(self)@ == JobState::idle(),
            final(self).spec_pooling_size() == old(self).spec_pooling_size(),
    {
        self.pending = Vec::new();
        self.position = 0;
        assert(self@.pending =~= Seq::<EventData>::empty());
    }

    /// One step of the publisher. On `Tick` it reads its offset and takes
    /// on the events that follow it. On `Acked` it moves the offset to the
    /// event that was on its way and goes on to the next. On `Failed` it
    /// gives the iteration up and leaves the offset where it is. It
    /// answers with the record to send next, or asks for a pause when the
    /// iteration is over. A store that fails ends the iteration; with
    /// stores that do not fail, the step fails only on a counter that
    /// cannot be read.
    pub fn publish_event<O: KeyValueStore, S: KeyValueStore>(
        &mut self,
        offsets: &mut O,
        events: &BalanceEventApi<S>,
        happened: PublishEvent,
    ) -> (r: Result<PublishAction, StorageError>)
        requires
            old(self).wf(),
            old(offsets).valid(),
            events.balance_event_repository.store.valid(),
        ensures
            final(self).wf(),
            final(offsets).valid(),
            final(self).spec_pooling_size() == old(self).spec_pooling_size(),
            old(offsets).reliable() ==> final(offsets).reliable(),
            old(offsets).reliable() && events.balance_event_repository.store.reliable() ==> !(
            r matches Err(StorageError::Unavailable)),
            match r {
                Ok(action) => published(final(self)@, action),
                Err(_) => final(self)@ == JobState::idle(),
            },
            happened != PublishEvent::Tick && r is Ok ==> match offset_of(
                old(offsets).contents(),
            ) {
                Some(offset) => {
                    let next = after_send(old(self)@, offset, happened == PublishEvent::Acked);
                    &&& final(self)@ == next.0
                    &&& offset_of(final(offsets).contents()) == Some(next.1)
                },
                None => true,
            },
            match happened {
                PublishEvent::Tick => {
                    let log = events.balance_event_repository.store.contents();
                    &&& final(offsets).contents() == old(offsets).contents()
                    &&& match r {
                        Ok(_) => {
                            &&& offset_of(old(offsets).contents()) is Some
                            &&& last_event_id_of(log) is Some
                            &&& final(self)@ == (JobState {
                                pending: planned(
                                    log,
                                    last_event_id_of(log)->Some_0,
                                    offset_of(old(offsets).contents())->Some_0,
                                    old(self).spec_pooling_size(),
                                ),
                                position: 0,
                            })
                        },
                        Err(StorageError::CorruptCounter) => offset_of(old(offsets).contents())
                            is None || last_event_id_of(log) is None,
                        Err(e) => e == StorageError::Unavailable,
                    }
                },
                PublishEvent::Acked => if old(self)@.in_flight() {
                    let id = old(self)@.current_id();
                    match r {
                        Ok(_) => {
                            &&& final(offsets).contents() == old(offsets).contents().insert(
                                offset_put(id).slot(),
                                offset_put(id).value,
                            )
                            &&& offset_of(final(offsets).contents()) == Some(id)
                            &&& final(self)@ == old(self)@.acked()
                        },
                        Err(e) => e == StorageError::Unavailable && final(offsets).contents()
                            == old(offsets).contents(),
                    }
                } else {
                    &&& r is Ok
                    &&& final(self)@ == old(self)@
                    &&& final(offsets).contents() == old(offsets).contents()
                },
                PublishEvent::Failed => {
                    &&& r is Ok
                    &&& final(self)@ == JobState::idle()
                    &&& final(offsets).contents() == old(offsets).contents()
                },
            },
    {
        match happened {
            PublishEvent::Tick => {
                self.halt();
                let latest_sent_event_id = match BalanceEventOffsetDB::get_offset(&*offsets) {
                    Ok(offset) => offset,
                    Err(e) => {
                        return Err(e);
                    },
                };
                if latest_sent_event_id < u64::MAX {
                    let next_event_id = latest_sent_event_id + 1;
                    match events.get_balance_events(next_event_id, self.pooling_size) {
                        Ok(found) => {
                            self.pending = found;
                        },
                        Err(e) => {
                            return Err(e);
                        },
                    }
                } else {
                    match events.balance_event_repository.last_event_id() {
                        Ok(_) => {},
                        Err(e) => {
                            return Err(e);
                        },
                    }
                }
                Ok(self.action())
            },
            PublishEvent::Acked => {
                if self.position < self.pending.len() {
                    let id = self.pending[self.position].id;
                    match BalanceEventOffsetDB::set_offset(offsets, id) {
                        Ok(()) => {
                            self.position = self.position + 1;
                        },
                        Err(e) => {
                            self.halt();
                            return Err(e);
                        },
                    }
                }
                Ok(self.action())
            },
            PublishEvent::Failed => {
                self.halt();
                Ok(self.action())
            },
        }
    }
}

/// What the publisher asks for in a state: the record of the event that
/// is on its way, or a pause.
pub open spec fn published(state: JobState, action: PublishAction) -> bool {
    match action {
        PublishAction::Send(message) => state.in_flight() && message@ == message_for(
            state.pending[state.position as int],
        ),
        PublishAction::Sleep => !state.in_flight(),
    }
}

} // verus!
