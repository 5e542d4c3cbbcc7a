use vstd::prelude::*;

use crate::balance::Balance;
use crate::balance_event::{event_record_bytes, BalanceEvent, EventRecord};
use crate::codec::{be_bytes, spec_from_be_bytes, to_be_bytes};
use crate::encoding::{decode_id_amount, decoded_id_amount, encode_id_amount, encoded_id_amount};
use crate::store::{Partition, Put, StagedWrite, StoreMap};

verus! {

impl Partition {
    /// The partition's name in the store.
    pub open spec fn spec_name(self) -> Seq<char> {
        match self {
            Partition::Balances => "balances"@,
            Partition::Events => "events"@,
            Partition::PublisherOffset => "publisher_offset"@,
        }
    }

    pub fn name(&self) -> (r: &'static str)
        ensures
            r@ == self.spec_name(),
    {
        match self {
            Partition::Balances => "balances",
            Partition::Events => "events",
            Partition::PublisherOffset => "publisher_offset",
        }
    }
}

/// The key of the event counter: the ASCII bytes of `last_event_id`.
pub open spec fn spec_last_event_id_key() -> Seq<u8> {
    seq![108u8, 97u8, 115u8, 116u8, 95u8, 101u8, 118u8, 101u8, 110u8, 116u8, 95u8, 105u8, 100u8]
}

/// The key of the publisher's offset: the ASCII bytes of `offset`.
pub open spec fn spec_offset_key() -> Seq<u8> {
    seq![111u8, 102u8, 102u8, 115u8, 101u8, 116u8]
}

pub fn last_event_id_key() -> (r: Vec<u8>)
    ensures
        r@ == spec_last_event_id_key(),
{
    let r = vec![
        108u8,
        97u8,
        115u8,
        116u8,
        95u8,
        101u8,
        118u8,
        101u8,
        110u8,
        116u8,
        95u8,
        105u8,
        100u8,
    ];
    assert(r@ =~= spec_last_event_id_key());
    r
}

pub fn offset_key() -> (r: Vec<u8>)
    ensures
        r@ == spec_offset_key(),
{
    let r = vec![111u8, 102u8, 102u8, 115u8, 101u8, 116u8];
    assert(r@ =~= spec_offset_key());
    r
}

/// The number that a counter cell stands for: 0 where the cell is absent,
/// nothing where it does not hold eight bytes.
pub open spec fn counter_at(contents: StoreMap, partition: Partition, key: Seq<u8>) -> Option<
    u64,
> {
    if contents.contains_key((partition, key)) {
        spec_from_be_bytes(contents[(partition, key)])
    } else {
        Some(0)
    }
}

/// The id of the last committed event, as the store records it.
pub open spec fn last_event_id_of(contents: StoreMap) -> Option<u64> {
    counter_at(contents, Partition::Events, spec_last_event_id_key())
}

/// The publisher's offset, as the store records it.
pub open spec fn offset_of(contents: StoreMap) -> Option<u64> {
    counter_at(contents, Partition::PublisherOffset, spec_offset_key())
}

impl Balance {
    /// The account that `bytes` holds, if it holds one.
    pub open spec fn parse(bytes: Seq<u8>) -> Option<Balance> {
        match decoded_id_amount(bytes) {
            Some((id, amount)) => Some(Balance { id, amount }),
            None => None,
        }
    }

    /// The durable encoding. Decoding it gives the account back.
    pub fn bytes(&self) -> (r: Vec<u8>)
        ensures
            r@ == encoded_id_amount(self.id, self.amount),
            Self::parse(r@) == Some(*self),
    {
        encode_id_amount(self.id, self.amount)
    }

    /// Decodes a durable encoding; `None` where it is malformed.
    pub fn from_bytes(bytes: &[u8]) -> (r: Option<Balance>)
        ensures
            r == Self::parse(bytes@),
    {
        match decode_id_amount(bytes) {
            Some((id, amount)) => Some(Balance { id, amount }),
            None => None,
        }
    }
}

/// The write that persists an account: its encoding under the big-endian
/// bytes of its id, in the balances partition.
pub open spec fn balance_put(balance: Balance) -> Put {
    Put {
        partition: Partition::Balances,
        key: be_bytes(balance.id),
        value: encoded_id_amount(balance.id, balance.amount),
    }
}

/// The write that appends an event: its stored form under the big-endian
/// bytes of its id, in the events partition.
pub open spec fn event_put(record: EventRecord) -> Put {
    Put {
        partition: Partition::Events,
        key: be_bytes(record.id),
        value: event_record_bytes(record),
    }
}

/// The write that sets the event counter to `id`.
pub open spec fn counter_put(id: u64) -> Put {
    Put { partition: Partition::Events, key: spec_last_event_id_key(), value: be_bytes(id) }
}

/// The write that sets the publisher's offset to `id`.
pub open spec fn offset_put(id: u64) -> Put {
    Put { partition: Partition::PublisherOffset, key: spec_offset_key(), value: be_bytes(id) }
}

/// Builds the write that persists an account.
pub fn stage_for_balance(balance: &Balance) -> (r: StagedWrite)
    ensures
        r@ == balance_put(*balance),
        Balance::parse(r@.value) == Some(*balance),
{
    StagedWrite {
        partition: Partition::Balances,
        key: to_be_bytes(balance.id),
        value: balance.bytes(),
    }
}

/// Builds the write that appends an event.
pub fn stage_for_event(event: &BalanceEvent) -> (r: StagedWrite)
    ensures
        r@ == event_put(event@),
        crate::balance_event::parse_event_record(r@.value) == Some(event@),
{
    StagedWrite { partition: Partition::Events, key: to_be_bytes(event.id), value: event.bytes() }
}

/// Builds the write that sets the event counter.
pub fn stage_for_counter(id: u64) -> (r: StagedWrite)
    ensures
        r@ == counter_put(id),
{
    StagedWrite { partition: Partition::Events, key: last_event_id_key(), value: to_be_bytes(id) }
}

/// Builds the write that sets the publisher's offset.
pub fn stage_for_offset(id: u64) -> (r: StagedWrite)
    ensures
        r@ == offset_put(id),
{
    StagedWrite { partition: Partition::PublisherOffset, key: offset_key(), value: to_be_bytes(id) }
}

} // verus!
