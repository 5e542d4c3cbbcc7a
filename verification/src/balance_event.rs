use vstd::prelude::*;

use crate::balance::{BalanceAmount, BalanceId};
use crate::encoding::{
    decode_event, decode_event_head, decode_id, decode_id_amount, decode_transfer,
    decoded_event, decoded_event_head, decoded_id, decoded_id_amount, decoded_transfer,
    encode_event, encode_id, encode_id_amount, encode_transfer, encoded_event, encoded_id,
    encoded_id_amount, encoded_transfer, json_id, json_id_amount, json_transfer,
    payload_follows_head, write_json_id, write_json_id_amount, write_json_transfer,
};

verus! {

pub type EventId = u64;

/// The kind of state change that an event records.
#[derive(Debug, Clone, Copy, PartialEq, Eq, Structural)]
pub enum BalanceEventType {
    BalanceCreated,
    BalanceDeposited,
    BalanceWithdrawn,
    BalanceTransferred,
}

impl BalanceEventType {
    /// The position of the kind in the list of kinds, which is what a
    /// stored record holds.
    pub open spec fn spec_index(self) -> u32 {
        match self {
            BalanceEventType::BalanceCreated => 0,
            BalanceEventType::BalanceDeposited => 1,
            BalanceEventType::BalanceWithdrawn => 2,
            BalanceEventType::BalanceTransferred => 3,
        }
    }

    /// The kind at a position; there are four.
    pub open spec fn spec_from_index(index: u32) -> Option<BalanceEventType> {
        if index == 0 {
            Some(BalanceEventType::BalanceCreated)
        } else if index == 1 {
            Some(BalanceEventType::BalanceDeposited)
        } else if index == 2 {
            Some(BalanceEventType::BalanceWithdrawn)
        } else if index == 3 {
            Some(BalanceEventType::BalanceTransferred)
        } else {
            None
        }
    }

    /// The kind's name as it is written on the wire.
    pub open spec fn spec_name(self) -> Seq<char> {
        match self {
            BalanceEventType::BalanceCreated => "BalanceCreated"@,
            BalanceEventType::BalanceDeposited => "BalanceDeposited"@,
            BalanceEventType::BalanceWithdrawn => "BalanceWithdrawn"@,
            BalanceEventType::BalanceTransferred => "BalanceTransferred"@,
        }
    }

    pub fn index(&self) -> (r: u32)
        ensures
            r == self.spec_index(),
            Self::spec_from_index(r) == Some(*self),
    {
        match self {
            BalanceEventType::BalanceCreated => 0,
            BalanceEventType::BalanceDeposited => 1,
            BalanceEventType::BalanceWithdrawn => 2,
            BalanceEventType::BalanceTransferred => 3,
        }
    }

    pub fn from_index(index: u32) -> (r: Option<BalanceEventType>)
        ensures
            r == Self::spec_from_index(index),
            r matches Some(kind) ==> kind.spec_index() == index,
    {
        if index == 0 {
            Some(BalanceEventType::BalanceCreated)
        } else if index == 1 {
            Some(BalanceEventType::BalanceDeposited)
        } else if index == 2 {
            Some(BalanceEventType::BalanceWithdrawn)
        } else if index == 3 {
            Some(BalanceEventType::BalanceTransferred)
        } else {
            None
        }
    }

    pub fn name(&self) -> (r: &'static str)
        ensures
            r@ == self.spec_name(),
    {
        match self {
            BalanceEventType::BalanceCreated => "BalanceCreated",
            BalanceEventType::BalanceDeposited => "BalanceDeposited",
            BalanceEventType::BalanceWithdrawn => "BalanceWithdrawn",
            BalanceEventType::BalanceTransferred => "BalanceTransferred",
        }
    }
}

/// An event as a mathematical object.
pub struct EventRecord {
    pub id: u64,
    pub event_type: BalanceEventType,
    pub data: Seq<u8>,
}

/// The stored form of an event: bincode's encoding of the id, the index
/// of the kind and the payload.
pub open spec fn event_record_bytes(record: EventRecord) -> Seq<u8> {
    encoded_event(record.id, record.event_type.spec_index(), record.data)
}

/// The event that was read as an id, the index of a kind and a payload.
/// There is none where nothing was read or the index is not one of the
/// four.
pub open spec fn event_of_parts(parts: Option<(u64, u32, Seq<u8>)>) -> Option<EventRecord> {
    match parts {
        Some((id, type_index, data)) => match BalanceEventType::spec_from_index(type_index) {
            Some(event_type) => Some(EventRecord { id, event_type, data }),
            None => None,
        },
        None => None,
    }
}

/// The event that a stored record holds. A record is malformed, and
/// holds none, where its head cannot be read, where fewer bytes follow
/// the head than it announces for the payload, where the record does not
/// decode, or where the kind's index is not one of the four. Bytes after
/// the payload are ignored.
pub open spec fn parse_event_record(bytes: Seq<u8>) -> Option<EventRecord> {
    if payload_follows_head(bytes.len(), decoded_event_head(bytes)) {
        event_of_parts(decoded_event(bytes))
    } else {
        None
    }
}

/// One entry of the event log.
#[derive(Debug)]
pub struct BalanceEvent {
    pub id: EventId,
    pub event_type: BalanceEventType,
    pub data: Vec<u8>,
}

impl View for BalanceEvent {
    type V = EventRecord;

    open spec fn view(&self) -> EventRecord {
        EventRecord { id: self.id, event_type: self.event_type, data: self.data@ }
    }
}

impl BalanceEvent {
    /// The stored form of the event. Parsing it gives the event back.
    pub fn bytes(&self) -> (r: Vec<u8>)
        ensures
            r@ == event_record_bytes(self@),
            parse_event_record(r@) == Some(self@),
    {
        encode_event(self.id, self.event_type.index(), &self.data)
    }

    /// Reads an event from its stored form; `None` for a malformed record.
    pub fn from_bytes(bytes: &[u8]) -> (r: Option<BalanceEvent>)
        ensures
            match r {
                Some(event) => parse_event_record(bytes@) == Some(event@),
                None => parse_event_record(bytes@) is None,
            },
    {
        let head = decode_event_head(bytes);
        if !Self::payload_follows(bytes.len(), &head) {
            return None;
        }
        Self::from_parts(decode_event(bytes))
    }

    /// Whether a record of `length` bytes, whose head was read as `head`,
    /// holds at least as many bytes after the head as the head announces
    /// for the payload. A head that could not be read announces nothing
    /// that follows.
    pub fn payload_follows(length: usize, head: &Option<((u64, u32, u64), usize)>) -> (r: bool)
        ensures
            r == payload_follows_head(length as nat, *head),
    {
        match head {
            Some(((_, _, announced), read)) => *read <= length && *announced <= (length
                - *read) as u64,
            None => false,
        }
    }

    /// The event that was read as an id, the index of a kind and a
    /// payload; `None` where nothing was read or the index is not one of
    /// the four.
    pub fn from_parts(parts: Option<(u64, u32, Vec<u8>)>) -> (r: Option<BalanceEvent>)
        ensures
            match r {
                Some(event) => event_of_parts(parts_view(parts)) == Some(event@),
                None => event_of_parts(parts_view(parts)) is None,
            },
    {
        match parts {
            Some((id, type_index, data)) => match BalanceEventType::from_index(type_index) {
                Some(event_type) => Some(BalanceEvent { id, event_type, data }),
                None => None,
            },
            None => None,
        }
    }
}

/// What was read of a record, with the payload as a mathematical object.
pub open spec fn parts_view(parts: Option<(u64, u32, Vec<u8>)>) -> Option<(u64, u32, Seq<u8>)> {
    match parts {
        Some((id, type_index, data)) => Some((id, type_index, data@)),
        None => None,
    }
}

/// The payload of a `BalanceCreated` event.
#[derive(Debug, Clone, Copy, PartialEq, Eq, Structural)]
pub struct BalanceCreatedEvent {
    pub id: BalanceId,
}

impl BalanceCreatedEvent {
    /// The payload that `bytes` holds, if it holds one.
    pub open spec fn parse(bytes: Seq<u8>) -> Option<BalanceCreatedEvent> {
        match decoded_id(bytes) {
            Some(id) => Some(BalanceCreatedEvent { id }),
            None => None,
        }
    }

    /// The durable encoding. Decoding it gives the payload back.
    pub fn bytes(&self) -> (r: Vec<u8>)
        ensures
            r@ == encoded_id(self.id),
            Self::parse(r@) == Some(*self),
    {
        encode_id(self.id)
    }

    /// Decodes a durable encoding; `None` where it is malformed.
    pub fn from_bytes(bytes: &[u8]) -> (r: Option<BalanceCreatedEvent>)
        ensures
            r == Self::parse(bytes@),
    {
        match decode_id(bytes) {
            Some(id) => Some(BalanceCreatedEvent { id }),
            None => None,
        }
    }

    /// The wire encoding: a JSON object with the field `id`.
    pub fn json(&self) -> (r: String)
        ensures
            r@ == json_id(self.id),
    {
        write_json_id(self.id)
    }
}

/// The payload of a `BalanceDeposited` event.
#[derive(Debug, Clone, Copy, PartialEq, Eq, Structural)]
pub struct BalanceDepositedEvent {
    pub id: BalanceId,
    pub amount: BalanceAmount,
}

impl BalanceDepositedEvent {
    /// The payload that `bytes` holds, if it holds one.
    pub open spec fn parse(bytes: Seq<u8>) -> Option<BalanceDepositedEvent> {
        match decoded_id_amount(bytes) {
            Some((id, amount)) => Some(BalanceDepositedEvent { id, amount }),
            None => None,
        }
    }

    /// The durable encoding. Decoding it gives the payload back.
    pub fn bytes(&self) -> (r: Vec<u8>)
        ensures
            r@ == encoded_id_amount(self.id, self.amount),
            Self::parse(r@) == Some(*self),
    {
        encode_id_amount(self.id, self.amount)
    }

    /// Decodes a durable encoding; `None` where it is malformed.
    pub fn from_bytes(bytes: &[u8]) -> (r: Option<BalanceDepositedEvent>)
        ensures
            r == Self::parse(bytes@),
    {
        match decode_id_amount(bytes) {
            Some((id, amount)) => Some(BalanceDepositedEvent { id, amount }),
            None => None,
        }
    }

    /// The wire encoding: a JSON object with the fields `id` and `amount`.
    pub fn json(&self) -> (r: String)
        ensures
            r@ == json_id_amount(self.id, self.amount),
    {
        write_json_id_amount(self.id, self.amount)
    }
}

/// The payload of a `BalanceWithdrawn` event.
#[derive(Debug, Clone, Copy, PartialEq, Eq, Structural)]
pub struct BalanceWithdrawnEvent {
    pub id: BalanceId,
    pub amount: BalanceAmount,
}

impl BalanceWithdrawnEvent {
    /// The payload that `bytes` holds, if it holds one.
    pub open spec fn parse(bytes: Seq<u8>) -> Option<BalanceWithdrawnEvent> {
        match decoded_id_amount(bytes) {
            Some((id, amount)) => Some(BalanceWithdrawnEvent { id, amount }),
            None => None,
        }
    }

    /// The durable encoding. Decoding it gives the payload back.
    pub fn bytes(&self) -> (r: Vec<u8>)
        ensures
            r@ == encoded_id_amount(self.id, self.amount),
            Self::parse(r@) == Some(*self),
    {
        encode_id_amount(self.id, self.amount)
    }

    /// Decodes a durable encoding; `None` where it is malformed.
    pub fn from_bytes(bytes: &[u8]) -> (r: Option<BalanceWithdrawnEvent>)
        ensures
            r == Self::parse(bytes@),
    {
        match decode_id_amount(bytes) {
            Some((id, amount)) => Some(BalanceWithdrawnEvent { id, amount }),
            None => None,
        }
    }

    /// The wire encoding: a JSON object with the fields `id` and `amount`.
    pub fn json(&self) -> (r: String)
        ensures
            r@ == json_id_amount(self.id, self.amount),
    {
        write_json_id_amount(self.id, self.amount)
    }
}

/// The payload of a `BalanceTransferred` event.
#[derive(Debug, Clone, Copy, PartialEq, Eq, Structural)]
pub struct BalanceTransferredEvent {
    pub from_id: BalanceId,
    pub to_id: BalanceId,
    pub amount: BalanceAmount,
}

impl BalanceTransferredEvent {
    /// The payload that `bytes` holds, if it holds one.
    pub open spec fn parse(bytes: Seq<u8>) -> Option<BalanceTransferredEvent> {
        match decoded_transfer(bytes) {
            Some((from_id, to_id, amount)) => Some(
                BalanceTransferredEvent { from_id, to_id, amount },
            ),
            None => None,
        }
    }

    /// The durable encoding. Decoding it gives the payload back.
    pub fn bytes(&self) -> (r: Vec<u8>)
        ensures
            r@ == encoded_transfer(self.from_id, self.to_id, self.amount),
            Self::parse(r@) == Some(*self),
    {
        encode_transfer(self.from_id, self.to_id, self.amount)
    }

    /// Decodes a durable encoding; `None` where it is malformed.
    pub fn from_bytes(bytes: &[u8]) -> (r: Option<BalanceTransferredEvent>)
        ensures
            r == Self::parse(bytes@),
    {
        match decode_transfer(bytes) {
            Some((from_id, to_id, amount)) => Some(
                BalanceTransferredEvent { from_id, to_id, amount },
            ),
            None => None,
        }
    }

    /// The wire encoding: a JSON object with the fields `from_id`, `to_id`
    /// and `amount`.
    pub fn json(&self) -> (r: String)
        ensures
            r@ == json_transfer(self.from_id, self.to_id, self.amount),
    {
        write_json_transfer(self.from_id, self.to_id, self.amount)
    }
}

/// The JSON text of a payload of the given kind; nothing where the
/// payload does not decode as that kind.
pub open spec fn payload_json(event_type: BalanceEventType, data: Seq<u8>) -> Option<Seq<char>> {
    match event_type {
        BalanceEventType::BalanceCreated => match BalanceCreatedEvent::parse(data) {
            Some(e) => Some(json_id(e.id)),
            None => None,
        },
        BalanceEventType::BalanceDeposited => match BalanceDepositedEvent::parse(data) {
            Some(e) => Some(json_id_amount(e.id, e.amount)),
            None => None,
        },
        BalanceEventType::BalanceWithdrawn => match BalanceWithdrawnEvent::parse(data) {
            Some(e) => Some(json_id_amount(e.id, e.amount)),
            None => None,
        },
        BalanceEventType::BalanceTransferred => match BalanceTransferredEvent::parse(data) {
            Some(e) => Some(json_transfer(e.from_id, e.to_id, e.amount)),
            None => None,
        },
    }
}

} // verus!
