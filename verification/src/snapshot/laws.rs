//! What holds of snapshots and spools as a whole.
use vstd::prelude::*;

use crate::snapshot::spooler::Spool;
use crate::snapshot::watermark::Snapshot;
use crate::source::{Change, Operation};

verus! {

/// Exactly the events on the watermark table are kept from downstream; every other event goes on
/// as it came.
pub proof fn law_only_watermarks_are_filtered(change: Change)
    ensures
        change.source_table_or_collection == "caminus_watermarks"@
            ==> crate::snapshot::watermark::downstream(change) is None,
        change.source_table_or_collection != "caminus_watermarks"@
            ==> crate::snapshot::watermark::downstream(change) == Some(change),
{
}

/// A row is known by the compact JSON text of its whole key.
pub proof fn law_rows_are_known_by_their_whole_key(change: Change)
    ensures
        crate::snapshot::watermark::key_text(change) == crate::json::outside::json_text(change.key),
{
}

/// An event on the watermark table leaves the chunk as it is, and outside of the window so does
/// every event. Within the window so does every event on a row that is not held, and every event
/// that neither creates, updates nor deletes.
pub proof fn law_chunk_changes_only_within_the_window(held: Snapshot, change: Change)
    requires
        !held.in_window || change.source_table_or_collection == "caminus_watermarks"@
            || !held.chunk.contains_key(crate::json::outside::json_text(change.key)) || (
        change.operation != Operation::Create && change.operation != Operation::Update
            && change.operation != Operation::Delete),
    ensures
        crate::snapshot::watermark::step(held, change).chunk == held.chunk,
{
}

/// A deletion within the window takes the row out of the chunk, and nothing else.
pub proof fn law_deletion_takes_the_row_out(held: Snapshot, change: Change, key: Seq<char>)
    requires
        held.in_window,
        change.source_table_or_collection != "caminus_watermarks"@,
        change.operation == Operation::Delete,
    ensures
        ({
            let next = crate::snapshot::watermark::step(held, change).chunk;
            &&& !next.contains_key(crate::json::outside::json_text(change.key))
            &&& key != crate::json::outside::json_text(change.key) ==> {
                &&& next.contains_key(key) <==> held.chunk.contains_key(key)
                &&& held.chunk.contains_key(key) ==> next[key] == held.chunk[key]
            }
        }),
{
}

/// A write within the window to a row that is held gives the row the event's new state and time,
/// whatever the event says of its state before; all else of the row, and every other row, stays,
/// and no row comes.
pub proof fn law_write_brings_the_new_state(held: Snapshot, change: Change, key: Seq<char>)
    requires
        held.in_window,
        change.source_table_or_collection != "caminus_watermarks"@,
        change.operation == Operation::Create || change.operation == Operation::Update,
        held.chunk.contains_key(crate::json::outside::json_text(change.key)),
    ensures
        ({
            let written = crate::json::outside::json_text(change.key);
            let next = crate::snapshot::watermark::step(held, change).chunk;
            &&& next.contains_key(written)
            &&& next[written].after == change.after
            &&& next[written].timestamp == change.timestamp
            &&& next[written].id == held.chunk[written].id
            &&& next[written].source_database == held.chunk[written].source_database
            &&& next[written].source_table_or_collection
                == held.chunk[written].source_table_or_collection
            &&& next[written].operation == held.chunk[written].operation
            &&& next[written].key == held.chunk[written].key
            &&& next[written].before == held.chunk[written].before
            &&& next[written].transaction_id == held.chunk[written].transaction_id
            &&& next[written].offset == held.chunk[written].offset
            &&& next.contains_key(key) <==> held.chunk.contains_key(key)
            &&& key != written && held.chunk.contains_key(key) ==> next[key] == held.chunk[key]
        }),
{
}

/// A creation or a commit on the watermark table opens a closed window for its transaction and
/// closes an open one; no other event does either.
pub proof fn law_markers_open_and_close_the_window(held: Snapshot, change: Change)
    ensures
        ({
            let next = crate::snapshot::watermark::step(held, change);
            if change.source_table_or_collection == "caminus_watermarks"@ && (change.operation
                == Operation::Create || change.operation == Operation::Commit) {
                &&& next.in_window == !held.in_window
                &&& next.active_tx == if held.in_window {
                    None
                } else {
                    change.transaction_id
                }
            } else {
                next.in_window == held.in_window && next.active_tx == held.active_tx
            }
        }),
{
}

/// Nothing changes without an event, and what a log does is what its last event does after the
/// others.
pub proof fn law_events_are_taken_one_by_one(held: Snapshot, log: Seq<Change>, last: Change)
    ensures
        crate::snapshot::watermark::run(held, Seq::empty()) == held,
        crate::snapshot::watermark::run(held, log.push(last)) == crate::snapshot::watermark::step(
            crate::snapshot::watermark::run(held, log),
            last,
        ),
{
    assert(log.push(last).drop_last() =~= log);
}

/// A low and a high watermark with nothing between them leave the chunk as it was loaded, outside
/// of any window.
pub proof fn law_empty_window_changes_nothing(held: Snapshot, low: Change, high: Change)
    requires
        !held.in_window,
        held.active_tx is None,
        low.source_table_or_collection == "caminus_watermarks"@,
        low.operation == Operation::Create || low.operation == Operation::Commit,
        high.source_table_or_collection == "caminus_watermarks"@,
        high.operation == Operation::Create || high.operation == Operation::Commit,
    ensures
        crate::snapshot::watermark::step(crate::snapshot::watermark::step(held, low), high)
            == held,
{
}

/// Every operation keeps rows under their own key and idle snapshotters without a transaction: a
/// new snapshotter is so, loading a chunk makes the rows so, and each event of the log and each
/// flush keeps it so.
pub proof fn law_snapshotter_invariant(held: Snapshot, rows: Seq<Change>, change: Change)
    requires
        crate::snapshot::watermark::keyed(held.chunk),
        crate::snapshot::watermark::idle_without_transaction(held),
    ensures
        crate::snapshot::watermark::keyed(Map::<Seq<char>, Change>::empty()),
        crate::snapshot::watermark::keyed(crate::snapshot::watermark::loaded(rows)),
        crate::snapshot::watermark::keyed(crate::snapshot::watermark::step(held, change).chunk),
        crate::snapshot::watermark::idle_without_transaction(
            Snapshot { chunk: crate::snapshot::watermark::loaded(rows), ..held },
        ),
        crate::snapshot::watermark::idle_without_transaction(crate::snapshot::watermark::step(held, change)),
{
    lemma_loaded_keyed(rows);
}

/// The rows of a loaded chunk stand under their own keys.
pub(crate) proof fn lemma_loaded_keyed(rows: Seq<Change>)
    ensures
        crate::snapshot::watermark::keyed(crate::snapshot::watermark::loaded(rows)),
    decreases rows.len(),
{
    if rows.len() > 0 {
        lemma_loaded_keyed(rows.drop_last());
    }
}

/// A loaded chunk holds a row for each key that was loaded and for no other, and of several rows
/// with one key it holds the last.
pub proof fn law_last_loaded_row_wins(rows: Seq<Change>, at: int)
    requires
        0 <= at < rows.len(),
        forall|later: int|
            at < later < rows.len() ==> crate::json::outside::json_text((#[trigger] rows[later]).key)
                != crate::json::outside::json_text(rows[at].key),
    ensures
        crate::snapshot::watermark::loaded(rows).contains_key(
            crate::json::outside::json_text(rows[at].key),
        ),
        crate::snapshot::watermark::loaded(rows)[crate::json::outside::json_text(rows[at].key)]
            == rows[at],
        forall|key: Seq<char>| #[trigger]
            crate::snapshot::watermark::loaded(rows).contains_key(key) ==> exists|i: int|
                0 <= i < rows.len() && crate::json::outside::json_text((#[trigger] rows[i]).key)
                    == key,
    decreases rows.len(),
{
    let last = rows.len() - 1;
    let before = rows.drop_last();
    assert forall|key: Seq<char>| #[trigger]
        crate::snapshot::watermark::loaded(rows).contains_key(key) implies exists|i: int|
        0 <= i < rows.len() && crate::json::outside::json_text((#[trigger] rows[i]).key)
            == key by {
        lemma_loaded_from_rows(rows, key);
    }
    if at < last {
        assert(crate::json::outside::json_text(rows[last].key)
            != crate::json::outside::json_text(rows[at].key));
        assert(forall|i: int| 0 <= i < before.len() ==> before[i] == rows[i]);
        law_last_loaded_row_wins(before, at);
    }
}

/// The rows of a loaded chunk stand under keys that were loaded.
pub(crate) proof fn lemma_loaded_from_rows(rows: Seq<Change>, key: Seq<char>)
    requires
        crate::snapshot::watermark::loaded(rows).contains_key(key),
    ensures
        exists|i: int|
            0 <= i < rows.len() && crate::json::outside::json_text((#[trigger] rows[i]).key) == key,
    decreases rows.len(),
{
    if crate::json::outside::json_text(rows.last().key) == key {
        assert(crate::json::outside::json_text(rows[rows.len() - 1].key) == key);
    } else {
        lemma_loaded_from_rows(rows.drop_last(), key);
        let i = choose|i: int|
            0 <= i < rows.drop_last().len() && crate::json::outside::json_text((#[trigger] rows.drop_last()[i]).key) == key;
        assert(rows[i] == rows.drop_last()[i]);
    }
}

/// Every loaded key has a row in the chunk.
pub(crate) proof fn lemma_loaded_has_row(rows: Seq<Change>, at: int)
    requires
        0 <= at < rows.len(),
    ensures
        crate::snapshot::watermark::loaded(rows).contains_key(
            crate::json::outside::json_text(rows[at].key),
        ),
    decreases rows.len(),
{
    if at < rows.len() - 1 {
        assert(rows.drop_last()[at] == rows[at]);
        lemma_loaded_has_row(rows.drop_last(), at);
    }
}

/// Rows with different keys are all loaded: each is in the chunk, and the chunk has as many rows as
/// were loaded.
pub proof fn law_different_rows_are_all_loaded(rows: Seq<Change>)
    requires
        forall|i: int, j: int|
            0 <= i < j < rows.len() ==> crate::json::outside::json_text((#[trigger] rows[i]).key)
                != crate::json::outside::json_text((#[trigger] rows[j]).key),
    ensures
        forall|i: int|
            0 <= i < rows.len() ==> {
                let key = crate::json::outside::json_text((#[trigger] rows[i]).key);
                let chunk = crate::snapshot::watermark::loaded(rows);
                chunk.contains_key(key) && chunk[key] == rows[i]
            },
        crate::snapshot::watermark::loaded(rows).dom().finite(),
        crate::snapshot::watermark::loaded(rows).dom().len() == rows.len(),
    decreases rows.len(),
{
    assert forall|i: int| 0 <= i < rows.len() implies ({
        let key = crate::json::outside::json_text((#[trigger] rows[i]).key);
        let chunk = crate::snapshot::watermark::loaded(rows);
        chunk.contains_key(key) && chunk[key] == rows[i]
    }) by {
        law_last_loaded_row_wins(rows, i);
    }
    if rows.len() > 0 {
        let before = rows.drop_last();
        assert(forall|i: int| 0 <= i < before.len() ==> before[i] == rows[i]);
        law_different_rows_are_all_loaded(before);
        let key = crate::json::outside::json_text(rows[rows.len() - 1].key);
        if crate::snapshot::watermark::loaded(before).contains_key(key) {
            lemma_loaded_from_rows(before, key);
            let i = choose|i: int|
                0 <= i < before.len() && crate::json::outside::json_text((#[trigger] before[i]).key)
                    == key;
            assert(rows[i] == before[i]);
        }
        assert(crate::snapshot::watermark::loaded(rows).dom()
            =~= crate::snapshot::watermark::loaded(before).dom().insert(key));
    }
}

/// Whether an event of the log is on the row `key`.
pub open spec fn is_on(change: Change, key: Seq<char>) -> bool {
    change.source_table_or_collection != "caminus_watermarks"@ && crate::json::outside::json_text(
        change.key,
    ) == key
}

/// Whether an event of the log deletes the row `key`.
pub open spec fn deletes(change: Change, key: Seq<char>) -> bool {
    is_on(change, key) && change.operation == Operation::Delete
}

/// Whether an event of the log writes the row `key`.
pub open spec fn writes(change: Change, key: Seq<char>) -> bool {
    is_on(change, key) && (change.operation == Operation::Create || change.operation
        == Operation::Update)
}

/// Whether the log holds no marker: no creation and no commit on the watermark table.
pub open spec fn without_markers(log: Seq<Change>) -> bool {
    forall|i: int|
        0 <= i < log.len() ==> (#[trigger] log[i]).source_table_or_collection
            != "caminus_watermarks"@ || (log[i].operation != Operation::Create && log[i].operation
            != Operation::Commit)
}

/// Within a window the log wins: a row that the log deletes is gone from the chunk, whatever else
/// the log says of it, and no row comes to the chunk.
pub proof fn law_deleted_rows_leave_the_chunk(held: Snapshot, log: Seq<Change>, key: Seq<char>)
    requires
        held.in_window,
        without_markers(log),
    ensures
        crate::snapshot::watermark::run(held, log).in_window,
        crate::snapshot::watermark::run(held, log).active_tx == held.active_tx,
        crate::snapshot::watermark::run(held, log).chunk.contains_key(key)
            <==> held.chunk.contains_key(key) && forall|i: int|
            0 <= i < log.len() ==> !deletes(#[trigger] log[i], key),
    decreases log.len(),
{
    if log.len() > 0 {
        let before = log.drop_last();
        assert(forall|i: int| 0 <= i < before.len() ==> before[i] == log[i]);
        assert(!crate::snapshot::watermark::is_marker(log[log.len() - 1]));
        law_deleted_rows_leave_the_chunk(held, before, key);
        assert(deletes(log.last(), key) == deletes(log[log.len() - 1], key));
    }
}

/// Within a window the log wins: a row that stays in the chunk has the state and the time of the
/// log's last write to it, and all else as it was loaded.
pub proof fn law_last_write_wins(held: Snapshot, log: Seq<Change>, key: Seq<char>, at: int)
    requires
        held.in_window,
        without_markers(log),
        crate::snapshot::watermark::run(held, log).chunk.contains_key(key),
        0 <= at < log.len(),
        writes(log[at], key),
        forall|later: int| at < later < log.len() ==> !writes(#[trigger] log[later], key),
    ensures
        crate::snapshot::watermark::run(held, log).chunk[key] == (Change {
            after: log[at].after,
            timestamp: log[at].timestamp,
            ..held.chunk[key]
        }),
    decreases log.len(),
{
    let before = log.drop_last();
    assert(forall|i: int| 0 <= i < before.len() ==> before[i] == log[i]);
    law_deleted_rows_leave_the_chunk(held, log, key);
    law_deleted_rows_leave_the_chunk(held, before, key);
    assert(!crate::snapshot::watermark::is_marker(log[log.len() - 1]));
    assert(!deletes(log[log.len() - 1], key));
    assert(crate::snapshot::watermark::run(held, before).chunk.contains_key(key));
    lemma_rest_of_row_kept(held, before, key);
    if at < log.len() - 1 {
        assert(!writes(log[log.len() - 1], key));
        law_last_write_wins(held, before, key, at);
    }
}

/// Only the state and the time of a row ever change.
proof fn lemma_rest_of_row_kept(held: Snapshot, log: Seq<Change>, key: Seq<char>)
    requires
        held.in_window,
        without_markers(log),
        crate::snapshot::watermark::run(held, log).chunk.contains_key(key),
    ensures
        ({
            let row = crate::snapshot::watermark::run(held, log).chunk[key];
            row == Change { after: row.after, timestamp: row.timestamp, ..held.chunk[key] }
        }),
    decreases log.len(),
{
    if log.len() > 0 {
        let before = log.drop_last();
        assert(forall|i: int| 0 <= i < before.len() ==> before[i] == log[i]);
        assert(!crate::snapshot::watermark::is_marker(log[log.len() - 1]));
        law_deleted_rows_leave_the_chunk(held, log, key);
        law_deleted_rows_leave_the_chunk(held, before, key);
        assert(!deletes(log[log.len() - 1], key));
        lemma_rest_of_row_kept(held, before, key);
    }
}

/// A row on which the log says nothing stays as it was loaded.
pub proof fn law_untouched_rows_stay(held: Snapshot, log: Seq<Change>, key: Seq<char>)
    requires
        held.in_window,
        without_markers(log),
        held.chunk.contains_key(key),
        forall|i: int|
            0 <= i < log.len() ==> !deletes(#[trigger] log[i], key) && !writes(log[i], key),
    ensures
        crate::snapshot::watermark::run(held, log).chunk.contains_key(key),
        crate::snapshot::watermark::run(held, log).chunk[key] == held.chunk[key],
    decreases log.len(),
{
    if log.len() > 0 {
        let before = log.drop_last();
        assert(forall|i: int| 0 <= i < before.len() ==> before[i] == log[i]);
        assert(!crate::snapshot::watermark::is_marker(log[log.len() - 1]));
        law_deleted_rows_leave_the_chunk(held, before, key);
        assert(!deletes(log[log.len() - 1], key) && !writes(log[log.len() - 1], key));
        law_untouched_rows_stay(held, before, key);
    }
}

/// The row `key` as the log leaves it, where it was `row` and the log does not delete it: with the
/// state and the time of the last write to it, if there is one.
pub open spec fn settled(row: Change, log: Seq<Change>, key: Seq<char>) -> Change
    decreases log.len(),
{
    if log.len() == 0 {
        row
    } else if writes(log.last(), key) {
        crate::snapshot::watermark::overwritten(row, log.last())
    } else {
        settled(row, log.drop_last(), key)
    }
}

/// A whole window: between a low and a high watermark exactly the rows that the log deletes leave
/// the chunk and none comes to it, and the others are as the log's last writes leave them;
/// afterwards the snapshotter is outside of any window.
pub proof fn law_window_reconciles_the_chunk(
    held: Snapshot,
    low: Change,
    log: Seq<Change>,
    high: Change,
)
    requires
        !held.in_window,
        low.source_table_or_collection == "caminus_watermarks"@,
        low.operation == Operation::Create || low.operation == Operation::Commit,
        without_markers(log),
        high.source_table_or_collection == "caminus_watermarks"@,
        high.operation == Operation::Create || high.operation == Operation::Commit,
    ensures
        ({
            let after = crate::snapshot::watermark::run(held, seq![low] + log + seq![high]);
            &&& !after.in_window
            &&& after.active_tx is None
            &&& forall|key: Seq<char>| #[trigger]
                after.chunk.contains_key(key) <==> held.chunk.contains_key(key) && forall|i: int|
                    0 <= i < log.len() ==> !deletes(#[trigger] log[i], key)
            &&& forall|key: Seq<char>| #[trigger]
                after.chunk.contains_key(key) ==> after.chunk[key] == settled(
                    held.chunk[key],
                    log,
                    key,
                )
            &&& forall|key: Seq<char>, at: int|
                #![trigger after.chunk.contains_key(key), log[at]]
                after.chunk.contains_key(key) && 0 <= at < log.len() && writes(log[at], key) && (
                forall|later: int| at < later < log.len() ==> !writes(#[trigger] log[later], key))
                    ==> after.chunk[key] == (Change {
                    after: log[at].after,
                    timestamp: log[at].timestamp,
                    ..held.chunk[key]
                })
            &&& forall|key: Seq<char>| #[trigger]
                after.chunk.contains_key(key) && (forall|i: int|
                    0 <= i < log.len() ==> !writes(#[trigger] log[i], key)) ==> after.chunk[key]
                    == held.chunk[key]
        }),
{
    let opened = crate::snapshot::watermark::step(held, low);
    let whole = seq![low] + log + seq![high];
    assert(whole.drop_last() =~= seq![low] + log);
    lemma_run_after_first(held, low, log);
    let within = crate::snapshot::watermark::run(opened, log);
    law_deleted_rows_leave_the_chunk(opened, log, Seq::empty());
    let after = crate::snapshot::watermark::run(held, whole);
    assert(after.chunk == within.chunk);
    assert forall|key: Seq<char>| #[trigger]
        after.chunk.contains_key(key) <==> held.chunk.contains_key(key) && forall|i: int|
            0 <= i < log.len() ==> !deletes(#[trigger] log[i], key) by {
        law_deleted_rows_leave_the_chunk(opened, log, key);
    }
    assert forall|key: Seq<char>| #[trigger] after.chunk.contains_key(key) implies after.chunk[key]
        == settled(held.chunk[key], log, key) by {
        lemma_settled(opened, log, key);
    }
    assert forall|key: Seq<char>, at: int|
        #![trigger after.chunk.contains_key(key), log[at]]
        after.chunk.contains_key(key) && 0 <= at < log.len() && writes(log[at], key) && (forall|
            later: int,
        |
            at < later < log.len() ==> !writes(#[trigger] log[later], key)) implies after.chunk[key]
        == (Change {
        after: log[at].after,
        timestamp: log[at].timestamp,
        ..held.chunk[key]
    }) by {
        law_last_write_wins(opened, log, key, at);
    }
    assert forall|key: Seq<char>| #[trigger]
        after.chunk.contains_key(key) && (forall|i: int|
            0 <= i < log.len() ==> !writes(#[trigger] log[i], key)) implies after.chunk[key]
        == held.chunk[key] by {
        assert forall|i: int| 0 <= i < log.len() implies !deletes(#[trigger] log[i], key) by {}
        law_untouched_rows_stay(opened, log, key);
    }
}

proof fn lemma_run_after_first(held: Snapshot, first: Change, log: Seq<Change>)
    ensures
        crate::snapshot::watermark::run(held, seq![first] + log) == crate::snapshot::watermark::run(
            crate::snapshot::watermark::step(held, first),
            log,
        ),
    decreases log.len(),
{
    let whole = seq![first] + log;
    if log.len() == 0 {
        assert(whole.drop_last() =~= Seq::empty());
        assert(crate::snapshot::watermark::run(held, whole.drop_last()) == held);
    } else {
        assert(whole.drop_last() =~= seq![first] + log.drop_last());
        lemma_run_after_first(held, first, log.drop_last());
    }
}

proof fn lemma_settled(held: Snapshot, log: Seq<Change>, key: Seq<char>)
    requires
        held.in_window,
        without_markers(log),
        crate::snapshot::watermark::run(held, log).chunk.contains_key(key),
    ensures
        crate::snapshot::watermark::run(held, log).chunk[key] == settled(
            held.chunk[key],
            log,
            key,
        ),
    decreases log.len(),
{
    if log.len() > 0 {
        let before = log.drop_last();
        let last = log.len() - 1;
        assert(forall|i: int| 0 <= i < before.len() ==> before[i] == log[i]);
        assert(!crate::snapshot::watermark::is_marker(log[last]));
        law_deleted_rows_leave_the_chunk(held, log, key);
        law_deleted_rows_leave_the_chunk(held, before, key);
        assert(!deletes(log[last], key));
        if writes(log[last], key) {
            law_last_write_wins(held, log, key, last);
        } else {
            lemma_settled(held, before, key);
        }
    }
}

/// What lists a chunk has as many rows as the chunk: every row of the chunk, and no other.
pub proof fn law_listed_rows(flushed: Seq<Change>, chunk: Map<Seq<char>, Change>)
    requires
        crate::snapshot::chunk::lists(flushed, chunk),
    ensures
        chunk.dom().finite(),
        chunk.dom().len() == flushed.len(),
        forall|key: Seq<char>| #[trigger]
            chunk.contains_key(key) ==> flushed.contains(chunk[key]),
        forall|i: int|
            0 <= i < flushed.len() ==> chunk.contains_value(#[trigger] flushed[i]),
{
    let keys = choose|keys: Seq<Seq<char>>|
        crate::snapshot::chunk::lists_by(keys, flushed, chunk);
    assert forall|key: Seq<char>| #[trigger] chunk.contains_key(key) implies flushed.contains(
        chunk[key],
    ) by {
        assert(keys.contains(key));
        let i = choose|i: int| 0 <= i < keys.len() && keys[i] == key;
        assert(flushed[i] == chunk[keys[i]]);
    }
    assert forall|i: int| 0 <= i < flushed.len() implies chunk.contains_value(
        #[trigger] flushed[i],
    ) by {
        assert(keys.contains(keys[i]));
        assert(chunk.contains_key(keys[i]));
        assert(flushed[i] == chunk[keys[i]]);
    }
    assert(keys.to_set() =~= chunk.dom()) by {
        assert forall|key: Seq<char>| #[trigger] keys.to_set().contains(key)
            == chunk.dom().contains(key) by {
            assert(keys.to_set().contains(key) == keys.contains(key));
        }
    }
    keys.unique_seq_to_set();
}

/// What a flush hands out holds every row of the chunk, and no two rows with one key.
pub proof fn law_flush_hands_out_each_row_once(
    flushed: Seq<Change>,
    chunk: Map<Seq<char>, Change>,
)
    requires
        crate::snapshot::watermark::keyed(chunk),
        crate::snapshot::chunk::lists(flushed, chunk),
    ensures
        forall|key: Seq<char>| #[trigger]
            chunk.contains_key(key) ==> flushed.contains(chunk[key]),
        forall|i: int|
            0 <= i < flushed.len() ==> {
                let key = crate::json::outside::json_text((#[trigger] flushed[i]).key);
                chunk.contains_key(key) && chunk[key] == flushed[i]
            },
        forall|i: int, j: int|
            0 <= i < j < flushed.len() ==> crate::json::outside::json_text((#[trigger] flushed[i]).key) != crate::json::outside::json_text((#[trigger] flushed[j]).key),
{
    let keys = choose|keys: Seq<Seq<char>>|
        crate::snapshot::chunk::lists_by(keys, flushed, chunk);
    assert forall|key: Seq<char>| #[trigger] chunk.contains_key(key) implies flushed.contains(
        chunk[key],
    ) by {
        assert(keys.contains(key));
        let i = choose|i: int| 0 <= i < keys.len() && keys[i] == key;
        assert(flushed[i] == chunk[keys[i]]);
    }
    assert forall|i: int| 0 <= i < flushed.len() implies ({
        let key = crate::json::outside::json_text((#[trigger] flushed[i]).key);
        chunk.contains_key(key) && chunk[key] == flushed[i] && key == keys[i]
    }) by {
        assert(keys.contains(keys[i]));
    }
}

/// A flushed snapshotter has nothing more to flush.
pub proof fn law_second_flush_is_empty(flushed: Seq<Change>)
    requires
        crate::snapshot::chunk::lists(flushed, Map::<Seq<char>, Change>::empty()),
    ensures
        flushed.len() == 0,
{
    let keys = choose|keys: Seq<Seq<char>>|
        crate::snapshot::chunk::lists_by(keys, flushed, Map::<Seq<char>, Change>::empty());
    if keys.len() > 0 {
        assert(keys.contains(keys[0]));
    }
}

/// What a spool holds after `events` were pushed.
pub open spec fn pushed(spool: Spool, events: Seq<Change>) -> Spool
    decreases events.len(),
{
    if events.len() == 0 {
        spool
    } else {
        let before = pushed(spool, events.drop_last());
        Spool { events: before.events.push(events.last()), ..before }
    }
}

/// What a spool holds after `count` pops.
pub open spec fn popped(spool: Spool, count: nat) -> Spool
    decreases count,
{
    if count == 0 {
        spool
    } else {
        let before = popped(spool, (count - 1) as nat);
        if before.events.len() == 0 {
            before
        } else {
            Spool { events: before.events.drop_first(), ..before }
        }
    }
}

/// Events leave a spool in the order in which they came: what was pushed stands behind what was
/// there, and after `count` pops the rest is left, without its first `count` events.
pub proof fn law_first_in_first_out(spool: Spool, events: Seq<Change>, count: nat)
    requires
        count <= spool.events.len() + events.len(),
    ensures
        popped(pushed(spool, events), count) == (Spool {
            events: (spool.events + events).skip(count as int),
            ..spool
        }),
{
    lemma_pushed(spool, events);
    lemma_popped(pushed(spool, events), count);
}

proof fn lemma_pushed(spool: Spool, events: Seq<Change>)
    ensures
        pushed(spool, events) == (Spool { events: spool.events + events, ..spool }),
    decreases events.len(),
{
    if events.len() == 0 {
        assert(spool.events + events =~= spool.events);
    } else {
        lemma_pushed(spool, events.drop_last());
        assert((spool.events + events.drop_last()).push(events.last()) =~= spool.events + events);
    }
}

proof fn lemma_popped(spool: Spool, count: nat)
    requires
        count <= spool.events.len(),
    ensures
        popped(spool, count) == (Spool { events: spool.events.skip(count as int), ..spool }),
    decreases count,
{
    if count == 0 {
        assert(spool.events.skip(0) =~= spool.events);
    } else {
        lemma_popped(spool, (count - 1) as nat);
        assert(spool.events.skip(count - 1).drop_first() =~= spool.events.skip(count as int));
    }
}

/// What is popped is no longer accounted for: a spool from which all events were popped counts no
/// bytes, and asks for no spooling unless its limit is zero.
pub proof fn law_drained_spool_counts_nothing(spool: Spool, events: Seq<Change>)
    ensures
        ({
            let drained = popped(
                pushed(spool, events),
                (spool.events.len() + events.len()) as nat,
            );
            &&& drained.events.len() == 0
            &&& crate::snapshot::spooler::byte_count(drained.events) == 0
            &&& drained.limit == spool.limit
            &&& crate::snapshot::spooler::byte_count(drained.events) >= drained.limit
                <==> spool.limit == 0
        }),
{
    law_first_in_first_out(spool, events, (spool.events.len() + events.len()) as nat);
    vstd::arithmetic::div_mod::lemma_small_mod(0, (usize::MAX + 1) as nat);
}

/// Every event, whatever it says, adds to the total the bytes of its identifier, those of its
/// offset, and sixteen; nothing else counts, and so events count for at least sixteen bytes each.
pub proof fn law_every_event_counts(events: Seq<Change>, event: Change)
    requires
        vstd::utf8::encode_utf8(event.id).len() <= usize::MAX,
        vstd::utf8::encode_utf8(event.offset).len() <= usize::MAX,
    ensures
        crate::snapshot::spooler::total_size(Seq::empty()) == 0,
        crate::snapshot::spooler::total_size(events.push(event))
            == crate::snapshot::spooler::total_size(events) + vstd::utf8::encode_utf8(
            event.id,
        ).len() + vstd::utf8::encode_utf8(event.offset).len() + 16,
        crate::snapshot::spooler::total_size(events) >= 16 * events.len(),
{
    assert(events.push(event).drop_last() =~= events);
    lemma_total_size_at_least(events);
}

proof fn lemma_total_size_at_least(events: Seq<Change>)
    ensures
        crate::snapshot::spooler::total_size(events) >= 16 * events.len(),
    decreases events.len(),
{
    if events.len() > 0 {
        lemma_total_size_at_least(events.drop_last());
    }
}

/// The count of bytes goes up by what an event counts for when it is pushed, and down by the same
/// when it is popped, in the arithmetic of a machine word; an empty spool counts nothing.
pub proof fn law_count_follows_pushes_and_pops(events: Seq<Change>, event: Change)
    requires
        vstd::utf8::encode_utf8(event.id).len() <= usize::MAX,
        vstd::utf8::encode_utf8(event.offset).len() <= usize::MAX,
    ensures
        ({
            let size = vstd::utf8::encode_utf8(event.id).len() + vstd::utf8::encode_utf8(
                event.offset,
            ).len() + 16;
            let word = usize::MAX + 1;
            &&& crate::snapshot::spooler::byte_count(Seq::empty()) == 0
            &&& 0 <= crate::snapshot::spooler::byte_count(events) <= usize::MAX
            &&& crate::snapshot::spooler::byte_count(events.push(event)) == (
            crate::snapshot::spooler::byte_count(events) + size) % word
            &&& crate::snapshot::spooler::byte_count(events) == (
            crate::snapshot::spooler::byte_count(seq![event] + events) - size) % word
        }),
{
    let word = usize::MAX + 1;
    let size = vstd::utf8::encode_utf8(event.id).len() + vstd::utf8::encode_utf8(
        event.offset,
    ).len() + 16;
    let total = crate::snapshot::spooler::total_size(events);
    law_every_event_counts(events, event);
    vstd::arithmetic::div_mod::lemma_small_mod(0, word as nat);
    vstd::arithmetic::div_mod::lemma_mod_bound(total, word);
    vstd::arithmetic::div_mod::lemma_add_mod_noop_right(size as int, total, word);
    let whole = seq![event] + events;
    crate::snapshot::spooler::lemma_total_size_first(whole);
    assert(whole.drop_first() =~= events);
    vstd::arithmetic::div_mod::lemma_add_mod_noop_right(-(size as int), total + size, word);
}

/// As long as the total fits into a machine word the count is the total: a push that does not
/// overflow raises it by the bytes of the event's identifier and offset and sixteen, and `n` events
/// count at least `16 * n`.
pub proof fn law_count_is_the_total(events: Seq<Change>, event: Change)
    requires
        crate::snapshot::spooler::total_size(events.push(event)) <= usize::MAX,
    ensures
        crate::snapshot::spooler::byte_count(events) == crate::snapshot::spooler::total_size(
            events,
        ),
        crate::snapshot::spooler::byte_count(events.push(event))
            == crate::snapshot::spooler::byte_count(events) + crate::snapshot::spooler::event_size(
            event,
        ),
        vstd::utf8::encode_utf8(event.id).len() <= usize::MAX && vstd::utf8::encode_utf8(
            event.offset,
        ).len() <= usize::MAX ==> crate::snapshot::spooler::byte_count(events.push(event))
            == crate::snapshot::spooler::byte_count(events) + vstd::utf8::encode_utf8(
            event.id,
        ).len() + vstd::utf8::encode_utf8(event.offset).len() + 16,
        crate::snapshot::spooler::byte_count(events) >= 16 * events.len(),
{
    assert(events.push(event).drop_last() =~= events);
    lemma_total_size_not_negative(events);
    lemma_total_size_at_least(events);
    vstd::arithmetic::div_mod::lemma_small_mod(
        crate::snapshot::spooler::total_size(events) as nat,
        (usize::MAX + 1) as nat,
    );
    vstd::arithmetic::div_mod::lemma_small_mod(
        crate::snapshot::spooler::total_size(events.push(event)) as nat,
        (usize::MAX + 1) as nat,
    );
}

proof fn lemma_total_size_not_negative(events: Seq<Change>)
    ensures
        crate::snapshot::spooler::total_size(events) >= 0,
    decreases events.len(),
{
    if events.len() > 0 {
        lemma_total_size_not_negative(events.drop_last());
    }
}

} // verus!
