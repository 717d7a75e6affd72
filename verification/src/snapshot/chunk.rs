//! The rows of a snapshot chunk, by key.
use vstd::hash_map::StringHashMap;
use vstd::prelude::*;

use crate::json::value::JsonValue;
use crate::source::{Change, ChangeEvent, Timestamp};

verus! {

struct Row {
    key: String,
    event: ChangeEvent,
}

/// Rows by key: each key's row stands in a slot of its own, and the slots keep the order in which
/// the keys came.
pub struct Chunk {
    index: StringHashMap<usize>,
    slots: Vec<Option<Row>>,
}

/// Whether `values` are the rows of `chunk`, each once, in the order of `keys`.
pub open spec fn lists_by(
    keys: Seq<Seq<char>>,
    values: Seq<Change>,
    chunk: Map<Seq<char>, Change>,
) -> bool {
    &&& keys.no_duplicates()
    &&& keys.len() == values.len()
    &&& forall|key: Seq<char>| #[trigger] keys.contains(key) <==> chunk.contains_key(key)
    &&& forall|i: int| 0 <= i < values.len() ==> #[trigger] values[i] == chunk[keys[i]]
}

/// Whether `values` are the rows of `chunk`, each once, in some order.
pub open spec fn lists(values: Seq<Change>, chunk: Map<Seq<char>, Change>) -> bool {
    exists|keys: Seq<Seq<char>>| lists_by(keys, values, chunk)
}

impl View for Chunk {
    type V = Map<Seq<char>, Change>;

    closed spec fn view(&self) -> Map<Seq<char>, Change> {
        self.index@.map_values(|i: usize| self.slots@[i as int]->0.event@)
    }
}

impl Chunk {
    #[verifier::type_invariant]
    spec fn valid(self) -> bool {
        indexes(self.index@, self.slots@)
    }

    /// No rows.
    pub fn new() -> (r: Chunk)
        ensures
            r@ == Map::<Seq<char>, Change>::empty(),
    {
        let r = Chunk { index: StringHashMap::new(), slots: Vec::new() };
        assert(r@ =~= Map::<Seq<char>, Change>::empty());
        r
    }

    /// Sets the row of `key`.
    pub fn insert(&mut self, key: String, event: ChangeEvent)
        ensures
            final(self)@ == old(self)@.insert(key@, event@),
    {
        let mut taken = Chunk::new();
        std::mem::swap(self, &mut taken);
        proof {
            use_type_invariant(&taken);
        }
        let Chunk { mut index, mut slots } = taken;
        match index.get(key.as_str()) {
            Some(at) => {
                let at: usize = *at;
                slots.set(at, Some(Row { key, event }));
            },
            None => {
                index.insert(key.clone(), slots.len());
                slots.push(Some(Row { key, event }));
            },
        }
        *self = Chunk { index, slots };
        assert(self@ =~= old(self)@.insert(key@, event@));
    }

    /// Whether `key` has a row.
    pub fn contains_key(&self, key: &str) -> (r: bool)
        ensures
            r == self@.contains_key(key@),
    {
        self.index.contains_key(key)
    }

    /// Removes the row of `key`, if it has one.
    pub fn remove(&mut self, key: &str)
        ensures
            final(self)@ == old(self)@.remove(key@),
    {
        let mut taken = Chunk::new();
        std::mem::swap(self, &mut taken);
        proof {
            use_type_invariant(&taken);
        }
        let Chunk { mut index, mut slots } = taken;
        let found = match index.get(key) {
            Some(at) => Some(*at),
            None => None,
        };
        if let Some(at) = found {
            index.remove(key);
            slots.set(at, None);
        }
        *self = Chunk { index, slots };
        assert(self@ =~= old(self)@.remove(key@));
    }

    /// Gives the row of `key`, if it has one, a new state and time.
    pub fn amend(&mut self, key: &str, after: Option<JsonValue>, timestamp: Timestamp)
        ensures
            final(self)@ == if old(self)@.contains_key(key@) {
                old(self)@.insert(
                    key@,
                    Change {
                        after: crate::source::json_option(after),
                        timestamp,
                        ..old(self)@[key@]
                    },
                )
            } else {
                old(self)@
            },
    {
        let mut taken = Chunk::new();
        std::mem::swap(self, &mut taken);
        proof {
            use_type_invariant(&taken);
        }
        let Chunk { index, mut slots } = taken;
        if let Some(at) = index.get(key) {
            slots.push(None);
            match slots.swap_remove(*at) {
                Some(row) => {
                    let event = ChangeEvent { after, timestamp, ..row.event };
                    slots.set(*at, Some(Row { key: row.key, event }));
                },
                None => {},
            }
        }
        *self = Chunk { index, slots };
    }

    /// Hands out all rows; none stay.
    pub fn drain(&mut self) -> (r: Vec<ChangeEvent>)
        ensures
            lists(crate::source::changes(r@), old(self)@),
            final(self)@ == Map::<Seq<char>, Change>::empty(),
    {
        let mut taken = Chunk::new();
        std::mem::swap(self, &mut taken);
        proof {
            use_type_invariant(&taken);
        }
        let ghost chunk = taken@;
        let Chunk { index, slots } = taken;
        let mut rows: Vec<ChangeEvent> = Vec::new();
        let ghost mut keys: Seq<Seq<char>> = Seq::empty();
        let ghost held = slots@;
        for slot in iter: slots
            invariant
                iter.seq() == held,
                indexes(index@, held),
                chunk == index@.map_values(|i: usize| held[i as int]->0.event@),
                keys.len() == rows@.len(),
                keys.no_duplicates(),
                forall|key: Seq<char>| #[trigger]
                    keys.contains(key) ==> index@.contains_key(key) && index@[key] < iter.index(),
                forall|i: int|
                    0 <= i < iter.index() && (#[trigger] held[i]) is Some ==> keys.contains(
                        held[i]->0.key@,
                    ),
                forall|i: int| 0 <= i < rows@.len() ==> (#[trigger] rows@[i])@ == chunk[keys[i]],
        {
            let ghost at = iter.index();
            let ghost keys_before = keys;
            match slot {
                Some(row) => {
                    proof {
                        assert(held[at] == Some(row));
                        assert(!keys.contains(row.key@));
                        keys = keys.push(row.key@);
                        assert forall|key: Seq<char>| #[trigger] keys.contains(key) implies key
                            == row.key@ || keys_before.contains(key) by {
                            let i = choose|i: int| 0 <= i < keys.len() && keys[i] == key;
                            if i < keys_before.len() {
                                assert(keys_before[i] == key);
                            }
                        }
                        assert(keys[keys.len() - 1] == row.key@);
                        assert forall|key: Seq<char>| #[trigger]
                            keys_before.contains(key) implies keys.contains(key) by {
                            let i = choose|i: int|
                                0 <= i < keys_before.len() && keys_before[i] == key;
                            assert(keys[i] == key);
                        }
                    }
                    rows.push(row.event);
                },
                None => {},
            }
        }
        proof {
            assert forall|key: Seq<char>| #[trigger] chunk.contains_key(key) implies keys.contains(
                key,
            ) by {
                let _ = held[index@[key] as int];
            }
            assert(lists_by(keys, crate::source::changes(rows@), chunk));
        }
        rows
    }
}

/// Whether every indexed key points at the slot that holds it, and every row's slot is indexed.
spec fn indexes(
    index: Map<Seq<char>, usize>,
    slots: Seq<Option<Row>>,
) -> bool {
    &&& forall|key: Seq<char>| #[trigger]
        index.contains_key(key) ==> {
            &&& index[key] < slots.len()
            &&& slots[index[key] as int] is Some
            &&& slots[index[key] as int]->0.key@ == key
        }
    &&& forall|i: int|
        0 <= i < slots.len() && (#[trigger] slots[i]) is Some ==> {
            &&& index.contains_key(slots[i]->0.key@)
            &&& index[slots[i]->0.key@] == i
        }
}

} // verus!
