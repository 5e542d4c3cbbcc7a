use vstd::prelude::*;

use crate::balance_error::StoreFailure;
use crate::codec::{bytes_equal, copy_bytes};
use crate::store::{
    apply_writes, lemma_apply_keeps_others, lemma_apply_push, puts_of, Entry,
    KeyValueStore, Partition, Put, Slot, StagedWrite, StoreMap,
};

verus! {

/// No two writes of the sequence name the same key.
pub open spec fn distinct_slots(puts: Seq<Put>) -> bool {
    forall|i: int, j: int|
        0 <= i < j < puts.len() ==> (#[trigger] puts[i]).slot() != (#[trigger] puts[j]).slot()
}

/// Among writes to distinct keys, each key holds what its write gave it.
pub proof fn lemma_apply_distinct_lookup(contents: StoreMap, puts: Seq<Put>, i: int)
    requires
        distinct_slots(puts),
        0 <= i < puts.len(),
    ensures
        apply_writes(contents, puts).contains_key(puts[i].slot()),
        apply_writes(contents, puts)[puts[i].slot()] == puts[i].value,
    decreases puts.len(),
{
    if i < puts.len() - 1 {
        let front = puts.drop_last();
        assert(forall|k: int| 0 <= k < front.len() ==> front[k] == puts[k]);
        assert(puts[i].slot() != puts[puts.len() - 1].slot());
        lemma_apply_distinct_lookup(contents, front, i);
    }
}

/// Among writes to distinct keys, replacing the value of one of them has
/// the effect of one more write to its key.
pub proof fn lemma_apply_distinct_update(
    contents: StoreMap,
    puts: Seq<Put>,
    i: int,
    value: Seq<u8>,
)
    requires
        distinct_slots(puts),
        0 <= i < puts.len(),
    ensures
        apply_writes(
            contents,
            puts.update(i, Put { partition: puts[i].partition, key: puts[i].key, value }),
        ) == apply_writes(contents, puts).insert(puts[i].slot(), value),
    decreases puts.len(),
{
    let changed = Put { partition: puts[i].partition, key: puts[i].key, value };
    let updated = puts.update(i, changed);
    let front = puts.drop_last();
    if i == puts.len() - 1 {
        assert(updated.drop_last() =~= front);
        assert(apply_writes(contents, updated) =~= apply_writes(contents, puts).insert(
            puts[i].slot(),
            value,
        ));
    } else {
        assert(forall|k: int| 0 <= k < front.len() ==> front[k] == puts[k]);
        assert(puts[i].slot() != puts[puts.len() - 1].slot());
        lemma_apply_distinct_update(contents, front, i, value);
        assert(updated.drop_last() =~= front.update(i, changed));
        assert(updated.last() == puts.last());
        assert(apply_writes(contents, updated) =~= apply_writes(contents, puts).insert(
            puts[i].slot(),
            value,
        ));
    }
}

/// A store that keeps its records in memory, one cell for each key.
#[derive(Debug)]
pub struct MemoryStore {
    cells: Vec<StagedWrite>,
}

impl MemoryStore {
    /// A store that holds nothing.
    pub fn new() -> (r: Self)
        ensures
            r.valid(),
            r.reliable(),
            r.contents() == Map::<Slot, Seq<u8>>::empty(),
    {
        let r = MemoryStore { cells: Vec::new() };
        assert(puts_of(r.cells@) =~= Seq::<Put>::empty());
        r
    }

    fn find(&self, partition: Partition, key: &[u8]) -> (r: Option<usize>)
        ensures
            match r {
                Some(i) => i < self.cells.len() && self.cells[i as int]@.slot() == (
                    partition,
                    key@,
                ),
                None => forall|j: int|
                    0 <= j < self.cells.len() ==> (#[trigger] self.cells[j])@.slot() != (
                        partition,
                        key@,
                    ),
            },
    {
        let mut i: usize = 0;
        while i < self.cells.len()
            invariant
                i <= self.cells.len(),
                forall|j: int|
                    0 <= j < i ==> (#[trigger] self.cells[j])@.slot() != (partition, key@),
            decreases self.cells.len() - i,
        {
            if self.cells[i].partition == partition && bytes_equal(
                self.cells[i].key.as_slice(),
                key,
            ) {
                return Some(i);
            }
            i = i + 1;
        }
        None
    }

    fn put(&mut self, partition: Partition, key: &[u8], value: &[u8])
        requires
            old(self).valid(),
        ensures
            final(self).valid(),
            final(self).contents() == old(self).contents().insert((partition, key@), value@),
    {
        let cell = StagedWrite { partition, key: copy_bytes(key), value: copy_bytes(value) };
        let ghost before = puts_of(self.cells@);
        match self.find(partition, key) {
            Some(i) => {
                proof {
                    lemma_apply_distinct_update(Map::empty(), before, i as int, value@);
                }
                self.cells.set(i, cell);
                assert(puts_of(self.cells@) =~= before.update(i as int, cell@));
            },
            None => {
                proof {
                    lemma_apply_push(Map::empty(), before, cell@);
                }
                self.cells.push(cell);
                assert(puts_of(self.cells@) =~= before.push(cell@));
            },
        }
    }
}

impl KeyValueStore for MemoryStore {
    closed spec fn contents(&self) -> StoreMap {
        apply_writes(Map::empty(), puts_of(self.cells@))
    }

    closed spec fn valid(&self) -> bool {
        distinct_slots(puts_of(self.cells@))
    }

    open spec fn reliable(&self) -> bool {
        true
    }

    fn get(&self, partition: Partition, key: &[u8]) -> (r: Result<Option<Vec<u8>>, StoreFailure>)
    {
        match self.find(partition, key) {
            Some(i) => {
                proof {
                    lemma_apply_distinct_lookup(Map::empty(), puts_of(self.cells@), i as int);
                }
                Ok(Some(copy_bytes(self.cells[i].value.as_slice())))
            },
            None => {
                proof {
                    lemma_apply_keeps_others(
                        Map::empty(),
                        puts_of(self.cells@),
                        (partition, key@),
                    );
                }
                Ok(None)
            },
        }
    }

    fn scan(&self, partition: Partition) -> (r: Result<Vec<Entry>, StoreFailure>)
    {
        let mut entries: Vec<Entry> = Vec::new();
        let mut i: usize = 0;
        while i < self.cells.len()
            invariant
                i <= self.cells.len(),
                forall|k: int|
                    #![trigger entries[k]]
                    0 <= k < entries.len() ==> exists|j: int|
                        0 <= j < i && (#[trigger] self.cells[j])@ == (Put {
                            partition,
                            key: entries[k].key@,
                            value: entries[k].value@,
                        }),
                forall|j: int|
                    0 <= j < i && (#[trigger] self.cells[j]).partition == partition
                        ==> exists|k: int|
                        0 <= k < entries.len() && (#[trigger] entries[k]).key@
                            == self.cells[j].key@,
            decreases self.cells.len() - i,
        {
            if self.cells[i].partition == partition {
                let ghost before = entries@;
                let entry = Entry {
                    key: copy_bytes(self.cells[i].key.as_slice()),
                    value: copy_bytes(self.cells[i].value.as_slice()),
                };
                entries.push(entry);
                assert(forall|k: int| 0 <= k < before.len() ==> entries[k] == before[k]);
                assert(entries[entries.len() - 1].key@ == self.cells[i as int].key@);
            }
            i = i + 1;
        }
        proof {
            let puts = puts_of(self.cells@);
            assert forall|k: int|
                #![trigger entries[k]]
                0 <= k < entries.len() implies self.contents().contains_key(
                (partition, entries[k].key@),
            ) && self.contents()[(partition, entries[k].key@)] == entries[k].value@ by {
                let j = choose|j: int|
                    0 <= j < i && (#[trigger] self.cells[j])@ == (Put {
                        partition,
                        key: entries[k].key@,
                        value: entries[k].value@,
                    });
                lemma_apply_distinct_lookup(Map::empty(), puts, j);
            }
            assert forall|key: Seq<u8>| #[trigger]
                self.contents().contains_key((partition, key)) implies exists|k: int|
                0 <= k < entries.len() && (#[trigger] entries[k]).key@ == key by {
                let slot = (partition, key);
                if forall|j: int| 0 <= j < puts.len() ==> (#[trigger] puts[j]).slot() != slot {
                    lemma_apply_keeps_others(Map::empty(), puts, slot);
                }
                let j = choose|j: int| 0 <= j < puts.len() && (#[trigger] puts[j]).slot() == slot;
                assert(self.cells[j].partition == partition);
            }
        }
        Ok(entries)
    }

    fn write(&mut self, writes: &Vec<StagedWrite>) -> (r: Result<(), StoreFailure>)
    {
        let mut i: usize = 0;
        while i < writes.len()
            invariant
                i <= writes.len(),
                self.valid(),
                self.contents() == apply_writes(
                    old(self).contents(),
                    puts_of(writes@).subrange(0, i as int),
                ),
            decreases writes.len() - i,
        {
            proof {
                let done = puts_of(writes@).subrange(0, i as int);
                assert(puts_of(writes@).subrange(0, i + 1) =~= done.push(writes[i as int]@));
                lemma_apply_push(old(self).contents(), done, writes[i as int]@);
            }
            self.put(writes[i].partition, writes[i].key.as_slice(), writes[i].value.as_slice());
            i = i + 1;
        }
        assert(puts_of(writes@).subrange(0, i as int) =~= puts_of(writes@));
        Ok(())
    }
}

} // verus!
