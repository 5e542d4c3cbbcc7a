use vstd::prelude::*;

use crate::balance_error::StoreFailure;

verus! {

/// A named keyspace of the store.
#[derive(Debug, Clone, Copy, PartialEq, Eq, Structural)]
pub enum Partition {
    /// Account records, keyed by account id.
    Balances,
    /// Event records, keyed by event id, and the event counter.
    Events,
    /// The publisher's offset.
    PublisherOffset,
}

/// A key of the store: a partition and a byte string within it.
pub type Slot = (Partition, Seq<u8>);

/// What a store holds, as a mathematical object.
pub type StoreMap = Map<Slot, Seq<u8>>;

/// One write as a mathematical object: `value` goes under `key` in
/// `partition`.
pub struct Put {
    pub partition: Partition,
    pub key: Seq<u8>,
    pub value: Seq<u8>,
}

impl Put {
    pub open spec fn slot(self) -> Slot {
        (self.partition, self.key)
    }
}

/// One write that waits in a batch.
#[derive(Debug)]
pub struct StagedWrite {
    pub partition: Partition,
    pub key: Vec<u8>,
    pub value: Vec<u8>,
}

impl View for StagedWrite {
    type V = Put;

    open spec fn view(&self) -> Put {
        Put { partition: self.partition, key: self.key@, value: self.value@ }
    }
}

/// One record that a scan of a partition found.
#[derive(Debug)]
pub struct Entry {
    pub key: Vec<u8>,
    pub value: Vec<u8>,
}

/// The writes of a batch as mathematical objects, in staging order.
pub open spec fn puts_of(writes: Seq<StagedWrite>) -> Seq<Put> {
    writes.map_values(|w: StagedWrite| w@)
}

/// The store after a sequence of writes, applied in order: a later write
/// to a key replaces an earlier one.
pub open spec fn apply_writes(contents: StoreMap, puts: Seq<Put>) -> StoreMap
    decreases puts.len(),
{
    if puts.len() == 0 {
        contents
    } else {
        apply_writes(contents, puts.drop_last()).insert(puts.last().slot(), puts.last().value)
    }
}

/// `entries` lists a partition: every entry is a record of the partition
/// with its current value, and every key of the partition has an entry.
pub open spec fn lists_partition(
    contents: StoreMap,
    partition: Partition,
    entries: Seq<Entry>,
) -> bool {
    &&& forall|i: int|
        #![trigger entries[i]]
        0 <= i < entries.len() ==> contents.contains_key((partition, entries[i].key@))
            && contents[(partition, entries[i].key@)] == entries[i].value@
    &&& forall|key: Seq<u8>| #[trigger]
        contents.contains_key((partition, key)) ==> exists|i: int|
            0 <= i < entries.len() && (#[trigger] entries[i]).key@ == key
}

/// Applying one more write after a sequence is an insertion into what the
/// sequence gave.
pub proof fn lemma_apply_push(contents: StoreMap, puts: Seq<Put>, put: Put)
    ensures
        apply_writes(contents, puts.push(put)) == apply_writes(contents, puts).insert(
            put.slot(),
            put.value,
        ),
{
    assert(puts.push(put).drop_last() =~= puts);
}

/// A key that no write of a sequence names keeps what it held.
pub proof fn lemma_apply_keeps_others(contents: StoreMap, puts: Seq<Put>, slot: Slot)
    requires
        forall|i: int| 0 <= i < puts.len() ==> (#[trigger] puts[i]).slot() != slot,
    ensures
        apply_writes(contents, puts).contains_key(slot) == contents.contains_key(slot),
        contents.contains_key(slot) ==> apply_writes(contents, puts)[slot] == contents[slot],
    decreases puts.len(),
{
    if puts.len() > 0 {
        lemma_apply_keeps_others(contents, puts.drop_last(), slot);
    }
}

/// The byte-keyed store with named partitions that the ledger persists
/// to: point reads, a scan of a partition, and a batch of writes that is
/// applied as a whole or not at all. Each operation may fail; a failed
/// write leaves the store as it was.
///
/// An implementation says what it holds by `contents`, what keeps it
/// sound by `valid`, and whether it can be counted on by `reliable`, and
/// is then held to the contracts below. One that stands for a storage
/// engine leaves the three as they are declared here, without a meaning
/// of their own: what is proved of its callers then rests on the engine
/// keeping the contracts, and nothing says that it never fails.
pub trait KeyValueStore {
    /// What the store holds.
    closed spec fn contents(&self) -> StoreMap {
        arbitrary()
    }

    /// The store's own invariant.
    closed spec fn valid(&self) -> bool {
        arbitrary()
    }

    /// The store does not fail: it serves every read and every write.
    closed spec fn reliable(&self) -> bool {
        arbitrary()
    }

    /// The value under `key` in `partition`, if there is one.
    fn get(&self, partition: Partition, key: &[u8]) -> (r: Result<Option<Vec<u8>>, StoreFailure>)
        requires
            self.valid(),
        ensures
            self.reliable() ==> r is Ok,
            r matches Ok(found) ==> match found {
                Some(value) => self.contents().contains_key((partition, key@))
                    && self.contents()[(partition, key@)] == value@,
                None => !self.contents().contains_key((partition, key@)),
            },
    ;

    /// All records of `partition`.
    fn scan(&self, partition: Partition) -> (r: Result<Vec<Entry>, StoreFailure>)
        requires
            self.valid(),
        ensures
            self.reliable() ==> r is Ok,
            r matches Ok(entries) ==> lists_partition(self.contents(), partition, entries@),
    ;

    /// Applies the writes of a batch in order, all of them or none.
    fn write(&mut self, writes: &Vec<StagedWrite>) -> (r: Result<(), StoreFailure>)
        requires
            old(self).valid(),
        ensures
            final(self).valid(),
            old(self).reliable() ==> r is Ok && final(self).reliable(),
            r is Ok ==> final(self).contents() == apply_writes(
                old(self).contents(),
                puts_of(writes@),
            ),
            r is Err ==> final(self).contents() == old(self).contents(),
    ;
}

} // verus!
