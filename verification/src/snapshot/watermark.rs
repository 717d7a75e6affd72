//! Reconciling a snapshot chunk with the replication log.
//!
//! A chunk is read between a low and a high watermark, two rows that are written to a table of
//! their own and come back in the log. What the log says between them is newer than the chunk.
use vstd::prelude::*;

use crate::snapshot::chunk::Chunk;
use crate::source::{Change, ChangeEvent, Operation};
use crate::text;

verus! {

/// Holds a snapshot chunk while the replication log passes by.
pub struct WatermarkSnapshotter {
    active_chunk: Chunk,
    in_watermark_window: bool,
    active_tx: Option<String>,
}

/// What a [`WatermarkSnapshotter`] holds.
#[verifier::ext_equal]
pub struct Snapshot {
    /// The rows of the chunk, by the text of their key.
    pub chunk: Map<Seq<char>, Change>,
    /// Whether the low watermark has come and the high watermark has not.
    pub in_window: bool,
    /// The transaction of the low watermark.
    pub active_tx: Option<Seq<char>>,
}

impl View for WatermarkSnapshotter {
    type V = Snapshot;

    closed spec fn view(&self) -> Snapshot {
        Snapshot {
            chunk: self.active_chunk@,
            in_window: self.in_watermark_window,
            active_tx: crate::source::text_option(self.active_tx),
        }
    }
}

/// The text by which a row is known.
pub open spec fn key_text(change: Change) -> Seq<char> {
    crate::json::outside::json_text(change.key)
}

/// Whether the event is on the watermark table.
pub open spec fn is_watermark(change: Change) -> bool {
    change.source_table_or_collection == "caminus_watermarks"@
}

/// Whether the event marks a watermark.
pub open spec fn is_marker(change: Change) -> bool {
    is_watermark(change) && (change.operation == Operation::Create || change.operation
        == Operation::Commit)
}

/// The rows of a chunk, by the text of their key; of several rows with one key, the last.
pub open spec fn loaded(rows: Seq<Change>) -> Map<Seq<char>, Change>
    decreases rows.len(),
{
    if rows.len() == 0 {
        Map::empty()
    } else {
        loaded(rows.drop_last()).insert(key_text(rows.last()), rows.last())
    }
}

/// Whether every row of a chunk stands under the text of its own key.
pub open spec fn keyed(chunk: Map<Seq<char>, Change>) -> bool {
    forall|key: Seq<char>| #[trigger]
        chunk.contains_key(key) ==> crate::json::outside::json_text(chunk[key].key) == key
}

/// Whether what is held outside of a window belongs to no transaction.
pub open spec fn idle_without_transaction(held: Snapshot) -> bool {
    !held.in_window ==> held.active_tx is None
}

/// The row as a later event leaves it: it takes over the event's state and time.
pub open spec fn overwritten(row: Change, change: Change) -> Change {
    Change { after: change.after, timestamp: change.timestamp, ..row }
}

/// The chunk after an event of the log.
pub open spec fn reconciled(chunk: Map<Seq<char>, Change>, change: Change) -> Map<
    Seq<char>,
    Change,
> {
    let key = key_text(change);
    if !chunk.contains_key(key) {
        chunk
    } else {
        match change.operation {
            Operation::Delete => chunk.remove(key),
            Operation::Update | Operation::Create => chunk.insert(
                key,
                overwritten(chunk[key], change),
            ),
            _ => chunk,
        }
    }
}

/// What is held after an event of the log: a marker opens the window or closes it, and between two
/// markers the chunk is reconciled.
pub open spec fn step(held: Snapshot, change: Change) -> Snapshot {
    if is_marker(change) {
        if held.in_window {
            Snapshot { in_window: false, active_tx: None, ..held }
        } else {
            Snapshot { in_window: true, active_tx: change.transaction_id, ..held }
        }
    } else if !is_watermark(change) && held.in_window {
        Snapshot { chunk: reconciled(held.chunk, change), ..held }
    } else {
        held
    }
}

/// What goes downstream of an event of the log: the event itself, unless it is on the watermark
/// table.
pub open spec fn downstream(change: Change) -> Option<Change> {
    if is_watermark(change) {
        None
    } else {
        Some(change)
    }
}

/// What is held after the events of the log, one after the other.
pub open spec fn run(held: Snapshot, log: Seq<Change>) -> Snapshot
    decreases log.len(),
{
    if log.len() == 0 {
        held
    } else {
        step(run(held, log.drop_last()), log.last())
    }
}

impl WatermarkSnapshotter {
    #[verifier::type_invariant]
    spec fn valid(self) -> bool {
        keyed(self@.chunk) && idle_without_transaction(self@)
    }

    /// Holds nothing, and is outside of any window.
    pub fn new() -> (r: WatermarkSnapshotter)
        ensures
            r@ == (Snapshot {
                chunk: Map::<Seq<char>, Change>::empty(),
                in_window: false,
                active_tx: None,
            }),
    {
        WatermarkSnapshotter {
            active_chunk: Chunk::new(),
            in_watermark_window: false,
            active_tx: None,
        }
    }

    /// Loads the result of a chunk query in place of what was held.
    pub fn load_chunk(&mut self, chunk_events: Vec<ChangeEvent>)
        ensures
            final(self)@ == (Snapshot {
                chunk: loaded(crate::source::changes(chunk_events@)),
                ..old(self)@
            }),
            forall|key: Seq<char>| #[trigger]
                final(self)@.chunk.contains_key(key) <==> exists|i: int|
                    0 <= i < chunk_events@.len() && crate::json::outside::json_text(
                        (#[trigger] chunk_events@[i]).key@,
                    ) == key,
            forall|at: int|
                0 <= at < chunk_events@.len() && (forall|later: int|
                    at < later < chunk_events@.len() ==> crate::json::outside::json_text(
                        (#[trigger] chunk_events@[later]).key@,
                    ) != crate::json::outside::json_text(chunk_events@[at].key@)) ==> {
                    let key = crate::json::outside::json_text((#[trigger] chunk_events@[at]).key@);
                    final(self)@.chunk[key] == chunk_events@[at]@
                },
    {
        let ghost rows = crate::source::changes(chunk_events@);
        let mut chunk = Chunk::new();
        for event in iter: chunk_events
            invariant
                rows == crate::source::changes(iter.seq()),
                chunk@ == loaded(rows.take(iter.index() as int)),
        {
            proof {
                let i = iter.index() as int;
                assert(rows.take(i + 1).drop_last() =~= rows.take(i));
                assert(rows.take(i + 1).last() == event@);
            }
            let key = event.key.to_string();
            chunk.insert(key, event);
        }
        proof {
            assert(rows.take(rows.len() as int) =~= rows);
            crate::snapshot::laws::lemma_loaded_keyed(rows);
            use_type_invariant(&*self);
            assert(forall|i: int|
                0 <= i < rows.len() ==> #[trigger] rows[i] == chunk_events@[i]@);
            assert forall|key: Seq<char>| #[trigger] chunk@.contains_key(key) <==> exists|i: int|
                0 <= i < chunk_events@.len() && crate::json::outside::json_text(
                    (#[trigger] chunk_events@[i]).key@,
                ) == key by {
                if chunk@.contains_key(key) {
                    crate::snapshot::laws::lemma_loaded_from_rows(rows, key);
                    let i = choose|i: int|
                        0 <= i < rows.len() && crate::json::outside::json_text(
                            (#[trigger] rows[i]).key,
                        ) == key;
                    assert(crate::json::outside::json_text(chunk_events@[i].key@) == key);
                }
                if exists|i: int|
                    0 <= i < chunk_events@.len() && crate::json::outside::json_text(
                        (#[trigger] chunk_events@[i]).key@,
                    ) == key {
                    let i = choose|i: int|
                        0 <= i < chunk_events@.len() && crate::json::outside::json_text(
                            (#[trigger] chunk_events@[i]).key@,
                        ) == key;
                    crate::snapshot::laws::lemma_loaded_has_row(rows, i);
                }
            }
            assert forall|at: int|
                0 <= at < chunk_events@.len() && (forall|later: int|
                    at < later < chunk_events@.len() ==> crate::json::outside::json_text(
                        (#[trigger] chunk_events@[later]).key@,
                    ) != crate::json::outside::json_text(
                        chunk_events@[at].key@,
                    )) implies chunk@[crate::json::outside::json_text(
                (#[trigger] chunk_events@[at]).key@,
            )] == chunk_events@[at]@ by {
                assert forall|later: int|
                    at < later < rows.len() implies crate::json::outside::json_text(
                    (#[trigger] rows[later]).key,
                ) != crate::json::outside::json_text(rows[at].key) by {
                    let _ = chunk_events@[later];
                }
                crate::snapshot::laws::law_last_loaded_row_wins(rows, at);
            }
        }
        self.active_chunk = chunk;
    }

    /// Processes an event of the replication log, and returns what goes downstream of it.
    pub fn process_replication_event(&mut self, event: &ChangeEvent) -> (r: Option<ChangeEvent>)
        ensures
            final(self)@ == step(old(self)@, event@),
            match r {
                Some(sent) => downstream(event@) == Some(sent@),
                None => downstream(event@) is None,
            },
    {
        proof {
            use_type_invariant(&*self);
        }
        if text::same_text(event.source_table_or_collection.as_str(), "caminus_watermarks") {
            if event.operation == Operation::Create || event.operation == Operation::Commit {
                if !self.in_watermark_window {
                    // Low watermark.
                    self.in_watermark_window = true;
                    self.active_tx = crate::source::copy_text(&event.transaction_id);
                } else {
                    // High watermark: the reconciled chunk is ready.
                    self.active_tx = None;
                    self.in_watermark_window = false;
                }
            }
            return None;
        }
        if self.in_watermark_window {
            let key = event.key.to_string();
            let mut chunk = Chunk::new();
            std::mem::swap(&mut self.active_chunk, &mut chunk);
            if chunk.contains_key(key.as_str()) {
                match event.operation {
                    Operation::Delete => {
                        chunk.remove(key.as_str());
                    },
                    Operation::Update | Operation::Create => {
                        chunk.amend(
                            key.as_str(),
                            crate::source::copy_json(&event.after),
                            event.timestamp,
                        );
                    },
                    _ => {},
                }
            }
            self.active_chunk = chunk;
        }
        Some(event.clone())
    }

    /// Hands out the reconciled rows, each once and no two with one key, in no particular order, to
    /// be flushed downstream.
    pub fn flush_chunk(&mut self) -> (r: Vec<ChangeEvent>)
        ensures
            crate::snapshot::chunk::lists(crate::source::changes(r@), old(self)@.chunk),
            keyed(old(self)@.chunk),
            forall|i: int, j: int|
                0 <= i < j < r@.len() ==> crate::json::outside::json_text(
                    (#[trigger] r@[i]).key@,
                ) != crate::json::outside::json_text((#[trigger] r@[j]).key@),
            forall|i: int|
                0 <= i < r@.len() ==> {
                    let key = crate::json::outside::json_text((#[trigger] r@[i]).key@);
                    old(self)@.chunk.contains_key(key) && r@[i]@ == old(self)@.chunk[key]
                },
            forall|key: Seq<char>| #[trigger]
                old(self)@.chunk.contains_key(key) ==> exists|i: int|
                    0 <= i < r@.len() && (#[trigger] r@[i])@ == old(self)@.chunk[key],
            final(self)@ == (Snapshot {
                chunk: Map::<Seq<char>, Change>::empty(),
                ..old(self)@
            }),
    {
        proof {
            use_type_invariant(&*self);
        }
        let mut chunk = Chunk::new();
        std::mem::swap(&mut self.active_chunk, &mut chunk);
        let rows = chunk.drain();
        proof {
            let flushed = crate::source::changes(rows@);
            crate::snapshot::laws::law_flush_hands_out_each_row_once(flushed, old(self)@.chunk);
            assert(forall|i: int|
                0 <= i < flushed.len() ==> #[trigger] flushed[i] == rows@[i]@);
            assert forall|i: int, j: int|
                0 <= i < j < rows@.len() implies crate::json::outside::json_text(
                (#[trigger] rows@[i]).key@,
            ) != crate::json::outside::json_text((#[trigger] rows@[j]).key@) by {
                assert(flushed[i] == rows@[i]@ && flushed[j] == rows@[j]@);
            }
            assert forall|i: int| 0 <= i < rows@.len() implies ({
                let key = crate::json::outside::json_text((#[trigger] rows@[i]).key@);
                old(self)@.chunk.contains_key(key) && rows@[i]@ == old(self)@.chunk[key]
            }) by {
                assert(flushed[i] == rows@[i]@);
            }
            assert forall|key: Seq<char>| #[trigger]
                old(self)@.chunk.contains_key(key) implies exists|i: int|
                0 <= i < rows@.len() && (#[trigger] rows@[i])@ == old(self)@.chunk[key] by {
                assert(flushed.contains(old(self)@.chunk[key]));
                let i = choose|i: int|
                    0 <= i < flushed.len() && flushed[i] == old(self)@.chunk[key];
                assert(rows@[i]@ == old(self)@.chunk[key]);
            }
        }
        rows
    }

    /// Whether the low watermark has come and the high watermark has not.
    pub fn is_in_window(&self) -> (r: bool)
        ensures
            r == self@.in_window,
    {
        self.in_watermark_window
    }

    /// The transaction of the low watermark, within the window.
    pub fn active_transaction(&self) -> (r: &Option<String>)
        ensures
            crate::source::text_option(*r) == self@.active_tx,
            idle_without_transaction(self@),
    {
        proof {
            use_type_invariant(self);
        }
        &self.active_tx
    }
}

} // verus!
