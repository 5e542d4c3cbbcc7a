use vstd::prelude::*;

use crate::balance::{Balance, LedgerMap};
use crate::balance_error::{BalanceError, StorageError};
use crate::balance_event::{parse_event_record, payload_json, BalanceEventType, EventRecord};
use crate::codec::{be_bytes, from_be, lemma_be_injective, lemma_be_round_trip};
use crate::layout::{
    balance_put, counter_put, event_put, last_event_id_of, spec_last_event_id_key,
};
use crate::store::{apply_writes, lemma_apply_push, Partition, Put, StoreMap};

verus! {

/// The account that the store holds under `id`: the record under the
/// big-endian bytes of `id`, if it decodes to an account with this id.
pub open spec fn balance_at(contents: StoreMap, id: u64) -> Option<Balance> {
    let slot = (Partition::Balances, be_bytes(id));
    if contents.contains_key(slot) {
        match Balance::parse(contents[slot]) {
            Some(balance) => if balance.id == id {
                Some(balance)
            } else {
                None
            },
            None => None,
        }
    } else {
        None
    }
}

/// The event that the store holds under `id`: the record under the
/// big-endian bytes of `id`, if it is well formed and carries this id.
pub open spec fn event_at(contents: StoreMap, id: u64) -> Option<EventRecord> {
    let slot = (Partition::Events, be_bytes(id));
    if contents.contains_key(slot) {
        match parse_event_record(contents[slot]) {
            Some(record) => if record.id == id {
                Some(record)
            } else {
                None
            },
            None => None,
        }
    } else {
        None
    }
}

/// The store holds the ledger: every account of the ledger has a record
/// with its amount, and every record of the balances partition belongs
/// to an account of the ledger.
pub open spec fn balances_match(ledger: LedgerMap, contents: StoreMap) -> bool {
    &&& forall|id: u64| #[trigger]
        ledger.contains_key(id) ==> balance_at(contents, id) == Some(
            Balance { id, amount: ledger[id] },
        )
    &&& forall|key: Seq<u8>| #[trigger]
        contents.contains_key((Partition::Balances, key)) ==> key.len() == 8
            && ledger.contains_key(from_be(key))
}

/// The store holds a readable event under `id`: a well-formed record
/// with this id whose payload decodes as the record's kind.
pub open spec fn holds_event(contents: StoreMap, id: u64) -> bool {
    match event_at(contents, id) {
        Some(record) => payload_json(record.event_type, record.data) is Some,
        None => false,
    }
}

/// The event log is dense: the counter is readable, every id from 1 to
/// the counter holds a readable event, and the events partition holds
/// nothing else but the counter.
pub open spec fn events_dense(contents: StoreMap) -> bool {
    match last_event_id_of(contents) {
        None => false,
        Some(last) => {
            &&& forall|id: u64| 1 <= id <= last ==> #[trigger] holds_event(contents, id)
            &&& forall|key: Seq<u8>| #[trigger]
                contents.contains_key((Partition::Events, key)) && key
                    != spec_last_event_id_key() ==> key.len() == 8 && 1 <= from_be(key) <= last
        },
    }
}

/// A store that holds nothing holds the empty ledger and a dense, empty
/// event log.
pub proof fn lemma_empty_store_is_consistent()
    ensures
        balances_match(Map::empty(), Map::empty()),
        events_dense(Map::empty()),
        last_event_id_of(Map::empty()) == Some(0u64),
{
}

/// A store holds at most one ledger.
pub proof fn lemma_store_determines_ledger(a: LedgerMap, b: LedgerMap, contents: StoreMap)
    requires
        balances_match(a, contents),
        balances_match(b, contents),
    ensures
        a == b,
{
    assert forall|id: u64| a.contains_key(id) implies b.contains_key(id) && a[id] == b[id] by {
        lemma_be_round_trip(id);
        assert(contents.contains_key((Partition::Balances, be_bytes(id))));
    }
    assert forall|id: u64| b.contains_key(id) implies a.contains_key(id) by {
        lemma_be_round_trip(id);
        assert(contents.contains_key((Partition::Balances, be_bytes(id))));
    }
    assert(a =~= b);
}

/// Writing an account's record, and setting the account to the recorded
/// amount in the ledger, keeps store and ledger matched.
pub proof fn lemma_balance_write_keeps_match(
    ledger: LedgerMap,
    contents: StoreMap,
    balance: Balance,
    value: Seq<u8>,
)
    requires
        balances_match(ledger, contents),
        Balance::parse(value) == Some(balance),
    ensures
        balances_match(
            ledger.insert(balance.id, balance.amount),
            contents.insert((Partition::Balances, be_bytes(balance.id)), value),
        ),
{
    let ledger2 = ledger.insert(balance.id, balance.amount);
    let contents2 = contents.insert((Partition::Balances, be_bytes(balance.id)), value);
    assert forall|id: u64| #[trigger] ledger2.contains_key(id) implies balance_at(contents2, id)
        == Some(Balance { id, amount: ledger2[id] }) by {
        if id != balance.id {
            if be_bytes(id) == be_bytes(balance.id) {
                lemma_be_injective(id, balance.id);
            }
            assert(ledger.contains_key(id));
        }
    }
    assert forall|key: Seq<u8>| #[trigger]
        contents2.contains_key((Partition::Balances, key)) implies key.len() == 8
        && ledger2.contains_key(from_be(key)) by {
        if key == be_bytes(balance.id) {
            lemma_be_round_trip(balance.id);
        } else {
            assert(contents.contains_key((Partition::Balances, key)));
        }
    }
}

/// A write outside the balances partition keeps store and ledger matched.
pub proof fn lemma_other_write_keeps_match(
    ledger: LedgerMap,
    contents: StoreMap,
    partition: Partition,
    key: Seq<u8>,
    value: Seq<u8>,
)
    requires
        balances_match(ledger, contents),
        partition != Partition::Balances,
    ensures
        balances_match(ledger, contents.insert((partition, key), value)),
{
    let contents2 = contents.insert((partition, key), value);
    assert forall|id: u64| #[trigger] ledger.contains_key(id) implies balance_at(contents2, id)
        == Some(Balance { id, amount: ledger[id] }) by {
    }
    assert forall|k: Seq<u8>| #[trigger]
        contents2.contains_key((Partition::Balances, k)) implies k.len() == 8
        && ledger.contains_key(from_be(k)) by {
        assert(contents.contains_key((Partition::Balances, k)));
    }
}

/// A write outside the events partition keeps the event log as it is.
pub proof fn lemma_other_write_keeps_events(
    contents: StoreMap,
    partition: Partition,
    key: Seq<u8>,
    value: Seq<u8>,
)
    requires
        partition != Partition::Events,
    ensures
        last_event_id_of(contents.insert((partition, key), value)) == last_event_id_of(contents),
        forall|id: u64|
            event_at(contents.insert((partition, key), value), id) == event_at(contents, id),
        events_dense(contents) ==> events_dense(contents.insert((partition, key), value)),
{
    let contents2 = contents.insert((partition, key), value);
    assert forall|id: u64| event_at(contents2, id) == event_at(contents, id) by {
    }
    if events_dense(contents) {
        let last = last_event_id_of(contents)->Some_0;
        assert forall|id: u64| 1 <= id <= last implies #[trigger] holds_event(contents2, id) by {
            assert(holds_event(contents, id));
        }
        assert forall|k: Seq<u8>| #[trigger]
            contents2.contains_key((Partition::Events, k)) && k
                != spec_last_event_id_key() implies k.len() == 8 && 1 <= from_be(k) <= last by {
            assert(contents.contains_key((Partition::Events, k)));
        }
    }
}

/// Appending the event that follows the counter, and moving the counter
/// to it, keeps the log dense, keeps every earlier event, and makes the
/// new event the last one.
pub proof fn lemma_append_keeps_dense(contents: StoreMap, record: EventRecord, value: Seq<u8>)
    requires
        last_event_id_of(contents) is Some,
        last_event_id_of(contents)->Some_0 < u64::MAX,
        record.id == last_event_id_of(contents)->Some_0 + 1,
        parse_event_record(value) == Some(record),
        payload_json(record.event_type, record.data) is Some,
    ensures
        ({
            let after = contents.insert((Partition::Events, be_bytes(record.id)), value).insert(
                (Partition::Events, spec_last_event_id_key()),
                be_bytes(record.id),
            );
            &&& last_event_id_of(after) == Some(record.id)
            &&& event_at(after, record.id) == Some(record)
            &&& forall|id: u64| id != record.id ==> event_at(after, id) == event_at(contents, id)
            &&& events_dense(contents) ==> events_dense(after)
        }),
{
    let last = last_event_id_of(contents)->Some_0;
    let counter = (Partition::Events, spec_last_event_id_key());
    let after = contents.insert((Partition::Events, be_bytes(record.id)), value).insert(
        counter,
        be_bytes(record.id),
    );
    lemma_be_round_trip(record.id);
    assert(be_bytes(record.id).len() == 8);
    assert(spec_last_event_id_key().len() == 13);
    assert(after[counter] == be_bytes(record.id));
    assert(after.contains_key((Partition::Events, be_bytes(record.id))));
    assert(after[(Partition::Events, be_bytes(record.id))] == value);
    assert forall|id: u64| id != record.id implies event_at(after, id) == event_at(
        contents,
        id,
    ) by {
        lemma_be_round_trip(id);
        if be_bytes(id) == be_bytes(record.id) {
            lemma_be_injective(id, record.id);
        }
    }
    if events_dense(contents) {
        assert forall|id: u64| 1 <= id <= record.id implies #[trigger] holds_event(after, id) by {
            if id != record.id {
                assert(holds_event(contents, id));
            }
        }
        assert forall|k: Seq<u8>| #[trigger]
            after.contains_key((Partition::Events, k)) && k
                != spec_last_event_id_key() implies k.len() == 8 && 1 <= from_be(k)
            <= record.id by {
            if k != be_bytes(record.id) {
                assert(contents.contains_key((Partition::Events, k)));
            }
        }
    }
}

/// In a store with a dense event log, the event under the counter
/// carries the counter's value as its id, and every id from 1 to the
/// counter holds an event.
pub proof fn lemma_last_event_names_itself(contents: StoreMap)
    requires
        events_dense(contents),
    ensures
        ({
            let last = last_event_id_of(contents)->Some_0;
            &&& last_event_id_of(contents) is Some
            &&& last >= 1 ==> event_at(contents, last) is Some && event_at(
                contents,
                last,
            )->Some_0.id == last
            &&& forall|id: u64|
                1 <= id <= last ==> contents.contains_key(
                    (Partition::Events, #[trigger] be_bytes(id)),
                )
        }),
{
    let last = last_event_id_of(contents)->Some_0;
    if last >= 1 {
        assert(holds_event(contents, last));
    }
    assert forall|id: u64| 1 <= id <= last implies contents.contains_key(
        (Partition::Events, #[trigger] be_bytes(id)),
    ) by {
        assert(holds_event(contents, id));
    }
}

/// In a store that holds the ledger, reading an account's record gives
/// the amount that the ledger holds for it.
pub proof fn lemma_stored_amount_is_ledger_amount(
    ledger: LedgerMap,
    contents: StoreMap,
    id: u64,
)
    requires
        balances_match(ledger, contents),
    ensures
        ledger.contains_key(id) ==> balance_at(contents, id) is Some && balance_at(
            contents,
            id,
        )->Some_0.amount == ledger[id],
        !ledger.contains_key(id) ==> balance_at(contents, id) is None,
{
    if !ledger.contains_key(id) {
        lemma_be_round_trip(id);
        if contents.contains_key((Partition::Balances, be_bytes(id))) {
            assert(ledger.contains_key(from_be(be_bytes(id))));
        }
    }
}

/// The writes of one command: the records of the accounts it changed,
/// the event, and the counter's move to the event's id.
pub open spec fn command_writes(accounts: Seq<Balance>, record: EventRecord) -> Seq<Put> {
    accounts.map_values(|b: Balance| balance_put(b)).push(event_put(record)).push(
        counter_put(record.id),
    )
}

/// The store went from `before` to `after` by the commit of one command
/// that changed `accounts` and recorded an event of kind `event_type`
/// with `payload`: the event took the id that follows the counter, the
/// writes were applied as a whole, and the event is now the last one.
pub open spec fn committed(
    before: StoreMap,
    after: StoreMap,
    accounts: Seq<Balance>,
    event_type: BalanceEventType,
    payload: Seq<u8>,
) -> bool {
    match last_event_id_of(before) {
        None => false,
        Some(last) => {
            let record = EventRecord { id: (last + 1) as u64, event_type, data: payload };
            &&& last < u64::MAX
            &&& after == apply_writes(before, command_writes(accounts, record))
            &&& last_event_id_of(after) == Some(record.id)
            &&& event_at(after, record.id) == Some(record)
            &&& forall|id: u64| id != record.id ==> event_at(after, id) == event_at(before, id)
            &&& forall|i: int|
                0 <= i < accounts.len() ==> balance_at(after, (#[trigger] accounts[i]).id)
                    is Some
        },
    }
}

/// The event log can take one more event: the counter is readable and
/// below the largest id.
pub open spec fn has_room(contents: StoreMap) -> bool {
    match last_event_id_of(contents) {
        Some(last) => last < u64::MAX,
        None => false,
    }
}

/// A command was turned down by the store and not by the ledger: the
/// error names what the store did.
pub open spec fn refused_by_store(e: BalanceError, before: StoreMap) -> bool {
    match e {
        BalanceError::Storage(StorageError::Unavailable) => true,
        BalanceError::Storage(StorageError::CorruptCounter) => last_event_id_of(before) is None,
        BalanceError::Storage(StorageError::EventIdExhausted) => last_event_id_of(before)
            == Some(u64::MAX),
        _ => false,
    }
}

/// The commit of a command that changed one account: the event log stays
/// dense, and a store that held the ledger holds the ledger with the
/// account set to its recorded amount.
pub proof fn lemma_commit_one(
    ledger: LedgerMap,
    before: StoreMap,
    after: StoreMap,
    account: Balance,
    record: EventRecord,
    staged: Seq<Put>,
)
    requires
        staged == Seq::<Put>::empty().push(balance_put(account)).push(event_put(record)).push(
            counter_put(record.id),
        ),
        after == apply_writes(before, staged),
        Balance::parse(balance_put(account).value) == Some(account),
        parse_event_record(event_put(record).value) == Some(record),
        payload_json(record.event_type, record.data) is Some,
        record.id >= 1,
        last_event_id_of(before) == Some((record.id - 1) as u64),
    ensures
        committed(before, after, seq![account], record.event_type, record.data),
        events_dense(before) ==> events_dense(after),
        balances_match(ledger, before) ==> balances_match(
            ledger.insert(account.id, account.amount),
            after,
        ),
{
    let s0 = Seq::<Put>::empty();
    let s1 = s0.push(balance_put(account));
    let s2 = s1.push(event_put(record));
    lemma_apply_push(before, s0, balance_put(account));
    lemma_apply_push(before, s1, event_put(record));
    lemma_apply_push(before, s2, counter_put(record.id));
    let c1 = before.insert(balance_put(account).slot(), balance_put(account).value);
    let c2 = c1.insert(event_put(record).slot(), event_put(record).value);
    assert(apply_writes(before, s0) == before);
    assert(after == c2.insert(counter_put(record.id).slot(), counter_put(record.id).value));
    lemma_other_write_keeps_events(
        before,
        Partition::Balances,
        be_bytes(account.id),
        balance_put(account).value,
    );
    lemma_append_keeps_dense(c1, record, event_put(record).value);
    assert(staged =~= command_writes(seq![account], record));
    assert forall|id: u64| id != record.id implies event_at(after, id) == event_at(before, id) by {
        assert(event_at(c1, id) == event_at(before, id));
    }
    lemma_be_round_trip(account.id);
    assert(balance_at(after, account.id) == Some(account));
    if balances_match(ledger, before) {
        lemma_balance_write_keeps_match(ledger, before, account, balance_put(account).value);
        let ledger1 = ledger.insert(account.id, account.amount);
        lemma_other_write_keeps_match(
            ledger1,
            c1,
            Partition::Events,
            be_bytes(record.id),
            event_put(record).value,
        );
        lemma_other_write_keeps_match(
            ledger1,
            c2,
            Partition::Events,
            spec_last_event_id_key(),
            be_bytes(record.id),
        );
    }
}

/// The commit of a command that changed two accounts, the second
/// written after the first: the event log stays dense, and a store that
/// held the ledger holds the ledger with both accounts set to their
/// recorded amounts.
pub proof fn lemma_commit_two(
    ledger: LedgerMap,
    before: StoreMap,
    after: StoreMap,
    first: Balance,
    second: Balance,
    record: EventRecord,
    staged: Seq<Put>,
)
    requires
        staged == Seq::<Put>::empty().push(balance_put(first)).push(balance_put(second)).push(
            event_put(record),
        ).push(counter_put(record.id)),
        after == apply_writes(before, staged),
        Balance::parse(balance_put(first).value) == Some(first),
        Balance::parse(balance_put(second).value) == Some(second),
        first.id == second.id ==> first == second,
        parse_event_record(event_put(record).value) == Some(record),
        payload_json(record.event_type, record.data) is Some,
        record.id >= 1,
        last_event_id_of(before) == Some((record.id - 1) as u64),
    ensures
        committed(before, after, seq![first, second], record.event_type, record.data),
        events_dense(before) ==> events_dense(after),
        balances_match(ledger, before) ==> balances_match(
            ledger.insert(first.id, first.amount).insert(second.id, second.amount),
            after,
        ),
{
    let s0 = Seq::<Put>::empty();
    let s1 = s0.push(balance_put(first));
    let s2 = s1.push(balance_put(second));
    let s3 = s2.push(event_put(record));
    lemma_apply_push(before, s0, balance_put(first));
    lemma_apply_push(before, s1, balance_put(second));
    lemma_apply_push(before, s2, event_put(record));
    lemma_apply_push(before, s3, counter_put(record.id));
    let c1 = before.insert(balance_put(first).slot(), balance_put(first).value);
    let c2 = c1.insert(balance_put(second).slot(), balance_put(second).value);
    let c3 = c2.insert(event_put(record).slot(), event_put(record).value);
    assert(apply_writes(before, s0) == before);
    assert(after == c3.insert(counter_put(record.id).slot(), counter_put(record.id).value));
    lemma_other_write_keeps_events(
        before,
        Partition::Balances,
        be_bytes(first.id),
        balance_put(first).value,
    );
    lemma_other_write_keeps_events(
        c1,
        Partition::Balances,
        be_bytes(second.id),
        balance_put(second).value,
    );
    lemma_append_keeps_dense(c2, record, event_put(record).value);
    assert(staged =~= command_writes(seq![first, second], record));
    assert forall|id: u64| id != record.id implies event_at(after, id) == event_at(before, id) by {
        assert(event_at(c1, id) == event_at(before, id));
        assert(event_at(c2, id) == event_at(c1, id));
    }
    lemma_be_round_trip(first.id);
    lemma_be_round_trip(second.id);
    if be_bytes(first.id) == be_bytes(second.id) {
        lemma_be_injective(first.id, second.id);
    }
    assert(balance_at(after, first.id) == Some(first));
    assert(balance_at(after, second.id) == Some(second));
    if balances_match(ledger, before) {
        lemma_balance_write_keeps_match(ledger, before, first, balance_put(first).value);
        let ledger1 = ledger.insert(first.id, first.amount);
        lemma_balance_write_keeps_match(ledger1, c1, second, balance_put(second).value);
        let ledger2 = ledger1.insert(second.id, second.amount);
        lemma_other_write_keeps_match(
            ledger2,
            c2,
            Partition::Events,
            be_bytes(record.id),
            event_put(record).value,
        );
        lemma_other_write_keeps_match(
            ledger2,
            c3,
            Partition::Events,
            spec_last_event_id_key(),
            be_bytes(record.id),
        );
    }
}

} // verus!
