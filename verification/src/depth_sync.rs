//! Keeping a local order book in step with an exchange's depth stream: what to
//! do with each diff event, and how a snapshot and the diffs buffered while it
//! was fetched are merged.
use crate::decimal::{decimal_from_str, parse_decimal, Dec};
use crate::order_book::{book_apply, BookView, OrderBook, OrderBookUpdate};
use vstd::prelude::*;

verus! {

/// Update id that marks a book whose snapshot is being fetched.
pub const SYNCING_ID: u64 = 1;

/// What a Binance diff event does to the book it is for.
#[derive(Debug, Clone, Copy, PartialEq, Eq, Structural)]
pub enum DepthAction {
    /// The book is empty (id 0): fetch a snapshot and buffer events meanwhile.
    StartSync,
    /// A snapshot is being fetched (id 1): buffer the event.
    Buffer,
    /// The event is older than the book, or lacks a field: drop it.
    Ignore,
    /// The event does not follow the book: clear it and start over.
    Resync,
    /// Apply the event and hand the book to its watchers.
    Apply,
}

/// What a Gate diff event does to the book it is for.
#[derive(Debug, Clone, Copy, PartialEq, Eq, Structural)]
pub enum GateAction {
    /// The book is empty and the event is a full book: apply it.
    ApplyFull,
    StartSync,
    Buffer,
    Resync,
    Apply,
}

pub open spec fn binance_action_spec(book_id: u64, spot: bool, first: u64, last: u64, prev: Option<u64>) -> DepthAction {
    if book_id == 0 {
        DepthAction::StartSync
    } else if book_id == SYNCING_ID {
        DepthAction::Buffer
    } else if spot {
        if last <= book_id {
            DepthAction::Ignore
        } else if first > book_id + 1 {
            DepthAction::Resync
        } else {
            DepthAction::Apply
        }
    } else {
        match prev {
            None => DepthAction::Ignore,
            Some(p) => if p != book_id {
                DepthAction::Resync
            } else {
                DepthAction::Apply
            },
        }
    }
}

/// Decides what a Binance diff event (`first`..=`last`, with the futures
/// stream's previous id `prev`) does to a book whose update id is `book_id`.
pub fn binance_depth_action(book_id: u64, spot: bool, first: u64, last: u64, prev: Option<u64>) -> (r: DepthAction)
    ensures
        r == binance_action_spec(book_id, spot, first, last, prev),
{
    if book_id == 0 {
        DepthAction::StartSync
    } else if book_id == SYNCING_ID {
        DepthAction::Buffer
    } else if spot {
        if last <= book_id {
            DepthAction::Ignore
        } else if first as u128 > book_id as u128 + 1 {
            DepthAction::Resync
        } else {
            DepthAction::Apply
        }
    } else {
        match prev {
            None => DepthAction::Ignore,
            Some(p) => if p != book_id {
                DepthAction::Resync
            } else {
                DepthAction::Apply
            },
        }
    }
}

/// The event `first..=last` does not continue a book at `id`.
pub open spec fn gate_gap(id: u64, first: u64, last: u64) -> bool {
    first > id + 1 || last < id + 1
}

pub open spec fn gate_action_spec(book_id: u64, first: u64, last: u64, full: bool) -> GateAction {
    if book_id == 0 {
        if full {
            GateAction::ApplyFull
        } else {
            GateAction::StartSync
        }
    } else if book_id == SYNCING_ID {
        GateAction::Buffer
    } else if gate_gap(book_id, first, last) {
        GateAction::Resync
    } else {
        GateAction::Apply
    }
}

fn is_gap(id: u64, first: u64, last: u64) -> (r: bool)
    ensures
        r == gate_gap(id, first, last),
{
    first as u128 > id as u128 + 1 || (last as u128) < id as u128 + 1
}

/// Decides what a Gate diff event does to a book whose update id is `book_id`.
pub fn gate_depth_action(book_id: u64, first: u64, last: u64, full: bool) -> (r: GateAction)
    ensures
        r == gate_action_spec(book_id, first, last, full),
{
    if book_id == 0 {
        if full {
            GateAction::ApplyFull
        } else {
            GateAction::StartSync
        }
    } else if book_id == SYNCING_ID {
        GateAction::Buffer
    } else if is_gap(book_id, first, last) {
        GateAction::Resync
    } else {
        GateAction::Apply
    }
}

/// `u` inserted into `s` after every element from the end whose last id is
/// not greater (a stable insertion).
pub open spec fn insert_by_id(s: Seq<OrderBookUpdate>, u: OrderBookUpdate) -> Seq<OrderBookUpdate>
    decreases s.len(),
{
    if s.len() == 0 {
        seq![u]
    } else if s.last().last_update_id <= u.last_update_id {
        s.push(u)
    } else {
        insert_by_id(s.drop_last(), u).push(s.last())
    }
}

/// The updates stably sorted by last id.
pub open spec fn sort_by_id(s: Seq<OrderBookUpdate>) -> Seq<OrderBookUpdate>
    decreases s.len(),
{
    if s.len() == 0 {
        s
    } else {
        insert_by_id(sort_by_id(s.drop_last()), s.last())
    }
}

pub open spec fn ids_sorted(s: Seq<OrderBookUpdate>) -> bool {
    forall|i: int, j: int| 0 <= i <= j < s.len() ==> (#[trigger] s[i]).last_update_id <= (#[trigger] s[j]).last_update_id
}

proof fn lemma_insert_at(s: Seq<OrderBookUpdate>, u: OrderBookUpdate, p: int)
    requires
        0 <= p <= s.len(),
        forall|i: int| p <= i < s.len() ==> (#[trigger] s[i]).last_update_id > u.last_update_id,
        p == 0 || s[p - 1].last_update_id <= u.last_update_id,
    ensures
        insert_by_id(s, u) == s.take(p).push(u) + s.skip(p),
    decreases s.len(),
{
    if s.len() == 0 {
        assert(s.take(p).push(u) + s.skip(p) =~= seq![u]);
    } else if p == s.len() {
        assert(s.take(p) =~= s);
        assert(s.take(p).push(u) + s.skip(p) =~= s.push(u));
    } else {
        let s2 = s.drop_last();
        assert(s.last() == s[s.len() - 1]);
        assert forall|i: int| p <= i < s2.len() implies (#[trigger] s2[i]).last_update_id > u.last_update_id by {
            assert(s2[i] == s[i]);
        }
        if p > 0 {
            assert(s2[p - 1] == s[p - 1]);
        }
        lemma_insert_at(s2, u, p);
        assert(s2.take(p).push(u) + s2.skip(p) + seq![s.last()] =~= s.take(p).push(u) + s.skip(p));
        assert(insert_by_id(s2, u).push(s.last()) =~= s2.take(p).push(u) + s2.skip(p) + seq![s.last()]);
    }
}

/// Buffered updates stably sorted by their last id (what `sort_by_key` does).
pub fn sort_updates(pending: Vec<OrderBookUpdate>) -> (r: Vec<OrderBookUpdate>)
    ensures
        r@ == sort_by_id(pending@),
{
    let ghost orig = pending@;
    let mut rest = pending;
    let mut out: Vec<OrderBookUpdate> = Vec::new();
    let ghost mut k: int = 0;
    while rest.len() > 0
        invariant
            0 <= k <= orig.len(),
            rest@ == orig.skip(k),
            out@ == sort_by_id(orig.take(k)),
        decreases rest@.len(),
    {
        let u = rest.remove(0);
        let mut p: usize = out.len();
        while p > 0 && out[p - 1].last_update_id > u.last_update_id
            invariant
                p <= out@.len(),
                forall|i: int| p <= i < out@.len() ==> (#[trigger] out@[i]).last_update_id
                    > u.last_update_id,
            decreases p,
        {
            p = p - 1;
        }
        proof {
            lemma_insert_at(out@, u, p as int);
            let t = orig.take(k + 1);
            assert(t.drop_last() =~= orig.take(k));
            assert(u == orig[k]);
            assert(t.last() == orig[k]);
        }
        out.insert(p, u);
        proof {
            assert(out@ =~= sort_by_id(orig.take(k)).take(p as int).push(u) + sort_by_id(
                orig.take(k),
            ).skip(p as int));
            k = k + 1;
            assert(rest@ =~= orig.skip(k));
        }
    }
    proof {
        assert(orig.take(orig.len() as int) =~= orig);
    }
    out
}

/// Buffered updates replayed on a snapshot in order; an update whose last id is
/// not past the book's id is skipped.
pub open spec fn binance_replay(v: BookView, ups: Seq<OrderBookUpdate>) -> BookView
    decreases ups.len(),
{
    if ups.len() == 0 {
        v
    } else {
        let v1 = binance_replay(v, ups.drop_last());
        if ups.last().last_update_id > v1.id {
            book_apply(v1, ups.last())
        } else {
            v1
        }
    }
}

/// The book once a Binance snapshot and the buffered updates are merged: the
/// updates are sorted by last id and replayed; a futures book then takes the
/// larger of the newest buffered id and the triggering event's id.
pub open spec fn binance_sync_spec(
    snapshot: BookView,
    pending: Seq<OrderBookUpdate>,
    event_last_id: u64,
    spot: bool,
) -> BookView {
    let sorted = sort_by_id(pending);
    let replayed = binance_replay(snapshot, sorted);
    let future_id = if sorted.len() > 0 {
        if sorted.last().last_update_id > event_last_id {
            sorted.last().last_update_id
        } else {
            event_last_id
        }
    } else {
        event_last_id
    };
    BookView { id: if spot { replayed.id } else { future_id }, ..replayed }
}

/// Merges a Binance depth snapshot with the updates buffered while it was
/// fetched.
pub fn binance_finish_sync(
    snapshot: OrderBook,
    pending: Vec<OrderBookUpdate>,
    event_last_id: u64,
    spot: bool,
) -> (r: OrderBook)
    ensures
        r.view() == binance_sync_spec(snapshot.view(), pending@, event_last_id, spot),
{
    let sorted = sort_updates(pending);
    let mut book = snapshot;
    let mut k: usize = 0;
    while k < sorted.len()
        invariant
            k <= sorted@.len(),
            book.view() == binance_replay(snapshot.view(), sorted@.take(k as int)),
        decreases sorted@.len() - k,
    {
        proof {
            let t = sorted@.take(k as int + 1);
            assert(t.drop_last() =~= sorted@.take(k as int));
            assert(t.last() == sorted@[k as int]);
        }
        if sorted[k].last_update_id > book.update_id() {
            book.apply_update(&sorted[k]);
        }
        k = k + 1;
    }
    proof {
        assert(sorted@.take(sorted@.len() as int) =~= sorted@);
    }
    let future_id = if sorted.len() > 0 {
        let l = sorted[sorted.len() - 1].last_update_id;
        if l > event_last_id {
            l
        } else {
            event_last_id
        }
    } else {
        event_last_id
    };
    if !spot {
        book.set_update_id(future_id);
    }
    book
}

/// The update that continues a snapshot with id `snapshot_id`.
pub open spec fn continues_snapshot(u: OrderBookUpdate, snapshot_id: u64) -> bool {
    u.first_update_id <= snapshot_id + 1 && u.last_update_id > snapshot_id
}

/// The first buffered update that continues the snapshot.
pub fn gate_sync_start(pending: &Vec<OrderBookUpdate>, snapshot_id: u64) -> (r: Option<usize>)
    ensures
        r matches Some(i) ==> i < pending@.len() && continues_snapshot(pending@[i as int], snapshot_id)
            && forall|j: int| 0 <= j < i ==> !continues_snapshot(#[trigger] pending@[j], snapshot_id),
        r is None ==> forall|j: int| 0 <= j < pending@.len() ==> !continues_snapshot(
            #[trigger] pending@[j],
            snapshot_id,
        ),
{
    let mut i: usize = 0;
    while i < pending.len()
        invariant
            i <= pending@.len(),
            forall|j: int| 0 <= j < i ==> !continues_snapshot(#[trigger] pending@[j], snapshot_id),
        decreases pending@.len() - i,
    {
        if pending[i].first_update_id as u128 <= snapshot_id as u128 + 1 && pending[i].last_update_id
            > snapshot_id {
            return Some(i);
        }
        i = i + 1;
    }
    None
}

/// How many snapshots a Gate book fetches, at most, before it gives up.
pub const GATE_SNAPSHOT_ATTEMPTS: u32 = 5;

/// How many times a Gate book looks for a buffered update that continues its
/// snapshot, at most, before it gives up.
pub const GATE_SYNC_ATTEMPTS: u32 = 5;

/// The next step while fetching a depth snapshot.
#[derive(Debug, Clone, Copy, PartialEq, Eq, Structural)]
pub enum SnapshotStep {
    /// The snapshot in hand is recent enough: build the book from it.
    Done,
    /// Fetch another snapshot.
    Fetch,
    /// Too many snapshots were stale: give up.
    GiveUp,
}

/// The step after `attempts` fetches, the last of which gave `snapshot_id`
/// (0 before the first): a snapshot is recent enough once its id reaches the
/// first id of the update that started the sync, so a sync started at id 0
/// is done at once with an empty book.
pub open spec fn snapshot_step_spec(snapshot_id: u64, first_update_id: u64, attempts: u32, max_attempts: Option<u32>) -> SnapshotStep {
    if snapshot_id >= first_update_id {
        SnapshotStep::Done
    } else if max_attempts matches Some(m) && attempts >= m {
        SnapshotStep::GiveUp
    } else {
        SnapshotStep::Fetch
    }
}

/// Decides, while fetching a depth snapshot, whether the last one will do,
/// another is needed, or the sync gives up (`max_attempts`: Gate allows
/// `GATE_SNAPSHOT_ATTEMPTS`, Binance has no limit).
pub fn snapshot_step(snapshot_id: u64, first_update_id: u64, attempts: u32, max_attempts: Option<u32>) -> (r: SnapshotStep)
    ensures
        r == snapshot_step_spec(snapshot_id, first_update_id, attempts, max_attempts),
{
    if snapshot_id >= first_update_id {
        SnapshotStep::Done
    } else {
        match max_attempts {
            Some(m) => if attempts >= m {
                SnapshotStep::GiveUp
            } else {
                SnapshotStep::Fetch
            },
            None => SnapshotStep::Fetch,
        }
    }
}

/// The next step of a Gate sync once its snapshot is in hand.
#[derive(Debug, Clone, Copy, PartialEq, Eq, Structural)]
pub enum GateSyncStep {
    /// Replay the buffered updates from this index on the snapshot.
    Start(usize),
    /// No buffered update continues the snapshot yet: wait and look again.
    Wait,
    /// Looked too often: give up and mark the book for a resync.
    GiveUp,
}

/// Decides a Gate sync after `attempts` looks at the buffered updates: give up
/// after `GATE_SYNC_ATTEMPTS` looks, else start from the first buffered update
/// that continues the snapshot, else wait.
pub fn gate_sync_step(pending: &Vec<OrderBookUpdate>, snapshot_id: u64, attempts: u32) -> (r: GateSyncStep)
    ensures
        attempts >= GATE_SYNC_ATTEMPTS ==> r == GateSyncStep::GiveUp,
        attempts < GATE_SYNC_ATTEMPTS ==> r != GateSyncStep::GiveUp,
        r matches GateSyncStep::Start(i) ==> i < pending@.len() && continues_snapshot(
            pending@[i as int],
            snapshot_id,
        ) && forall|j: int| 0 <= j < i ==> !continues_snapshot(#[trigger] pending@[j], snapshot_id),
        r is Wait ==> forall|j: int|
            0 <= j < pending@.len() ==> !continues_snapshot(#[trigger] pending@[j], snapshot_id),
{
    if attempts >= GATE_SYNC_ATTEMPTS {
        return GateSyncStep::GiveUp;
    }
    match gate_sync_start(pending, snapshot_id) {
        Some(i) => GateSyncStep::Start(i),
        None => GateSyncStep::Wait,
    }
}

/// Buffered Gate updates replayed on a snapshot in order; the first one that
/// does not continue the book marks it for a resync (id 0) and ends the replay.
pub open spec fn gate_replay(v: BookView, ups: Seq<OrderBookUpdate>) -> BookView
    decreases ups.len(),
{
    if ups.len() == 0 {
        v
    } else if gate_gap(v.id, ups[0].first_update_id, ups[0].last_update_id) {
        BookView { id: 0, ..v }
    } else {
        gate_replay(book_apply(v, ups[0]), ups.drop_first())
    }
}

/// Replays the buffered updates from index `start` on a Gate snapshot.
pub fn gate_finish_sync(snapshot: OrderBook, pending: &Vec<OrderBookUpdate>, start: usize) -> (r: OrderBook)
    requires
        start <= pending@.len(),
    ensures
        r.view() == gate_replay(snapshot.view(), pending@.skip(start as int)),
{
    let mut book = snapshot;
    let mut k: usize = start;
    while k < pending.len()
        invariant
            start <= k <= pending@.len(),
            gate_replay(book.view(), pending@.skip(k as int)) == gate_replay(
                snapshot.view(),
                pending@.skip(start as int),
            ),
        decreases pending@.len() - k,
    {
        let ghost rest = pending@.skip(k as int);
        assert(rest[0] == pending@[k as int]);
        assert(rest.drop_first() =~= pending@.skip(k as int + 1));
        if is_gap(book.update_id(), pending[k].first_update_id, pending[k].last_update_id) {
            book.set_update_id(0);
            assert(gate_replay(book.view(), pending@.skip(pending@.len() as int)) == book.view());
            return book;
        }
        book.apply_update(&pending[k]);
        k = k + 1;
    }
    book
}

/// A batch of Mexc diffs applied in order.
pub open spec fn apply_all(v: BookView, ups: Seq<OrderBookUpdate>) -> BookView
    decreases ups.len(),
{
    if ups.len() == 0 {
        v
    } else {
        book_apply(apply_all(v, ups.drop_last()), ups.last())
    }
}

/// Applies a batch of diffs; says whether the update id moved (only then are
/// the watchers told).
pub fn apply_batch(book: &mut OrderBook, updates: &Vec<OrderBookUpdate>) -> (changed: bool)
    ensures
        final(book).view() == apply_all(old(book).view(), updates@),
        changed == (final(book).id_spec() != old(book).id_spec()),
{
    let old_id = book.update_id();
    let mut k: usize = 0;
    while k < updates.len()
        invariant
            k <= updates@.len(),
            book.view() == apply_all(old(book).view(), updates@.take(k as int)),
            old_id == old(book).id_spec(),
        decreases updates@.len() - k,
    {
        proof {
            let t = updates@.take(k as int + 1);
            assert(t.drop_last() =~= updates@.take(k as int));
            assert(t.last() == updates@[k as int]);
        }
        book.apply_update(&updates[k]);
        k = k + 1;
    }
    proof {
        assert(updates@.take(updates@.len() as int) =~= updates@);
    }
    old_id != book.update_id()
}

proof fn lemma_insert_sorted(s: Seq<OrderBookUpdate>, u: OrderBookUpdate)
    requires
        ids_sorted(s),
    ensures
        ids_sorted(insert_by_id(s, u)),
        insert_by_id(s, u).to_multiset() == s.to_multiset().insert(u),
    decreases s.len(),
{
    broadcast use vstd::seq_lib::group_to_multiset_ensures;

    if s.len() == 0 {
        assert(seq![u] == Seq::<OrderBookUpdate>::empty().push(u));
    } else if s.last().last_update_id <= u.last_update_id {
        let r = s.push(u);
        assert forall|i: int, j: int| 0 <= i <= j < r.len() implies (#[trigger] r[i]).last_update_id
            <= (#[trigger] r[j]).last_update_id by {
            if j == s.len() {
                if i < s.len() {
                    assert(s[i].last_update_id <= s[s.len() - 1].last_update_id);
                }
            }
        }
    } else {
        let s2 = s.drop_last();
        assert forall|i: int, j: int| 0 <= i <= j < s2.len() implies (#[trigger] s2[i]).last_update_id
            <= (#[trigger] s2[j]).last_update_id by {
            assert(s2[i] == s[i] && s2[j] == s[j]);
        }
        lemma_insert_sorted(s2, u);
        let t = insert_by_id(s2, u);
        let r = t.push(s.last());
        assert(s2.to_multiset().insert(u).insert(s.last()) =~= s2.push(s.last()).to_multiset().insert(u));
        assert(s2.push(s.last()) =~= s);
        assert forall|i: int, j: int| 0 <= i <= j < r.len() implies (#[trigger] r[i]).last_update_id
            <= (#[trigger] r[j]).last_update_id by {
            if j == t.len() && i < t.len() {
                // every element of t is u or an element of s2, none above s.last()
                assert(t.to_multiset().contains(t[i]));
                assert(s2.to_multiset().insert(u).contains(t[i]));
                if t[i] != u {
                    assert(s2.to_multiset().contains(t[i]));
                    assert(s2.contains(t[i]));
                    let k = choose|k: int| 0 <= k < s2.len() && s2[k] == t[i];
                    assert(s[k].last_update_id <= s[s.len() - 1].last_update_id);
                }
            }
        }
    }
}

/// Sorting the buffered updates orders them by last id and keeps each of them
/// exactly as often as it was given.
pub proof fn law_sort_by_id_sorts_and_permutes(s: Seq<OrderBookUpdate>)
    ensures
        ids_sorted(sort_by_id(s)),
        sort_by_id(s).to_multiset() == s.to_multiset(),
    decreases s.len(),
{
    broadcast use vstd::seq_lib::group_to_multiset_ensures;

    if s.len() == 0 {
    } else {
        law_sort_by_id_sorts_and_permutes(s.drop_last());
        lemma_insert_sorted(sort_by_id(s.drop_last()), s.last());
        assert(s.drop_last().push(s.last()) =~= s);
    }
}

/// After a futures sync the book's id is the newest id seen: at least the
/// triggering event's last id and the last id of every buffered update, and
/// equal to one of them.
pub proof fn law_futures_sync_takes_newest_id(snapshot: BookView, pending: Seq<OrderBookUpdate>, event_last_id: u64)
    ensures
        binance_sync_spec(snapshot, pending, event_last_id, false).id >= event_last_id,
        forall|k: int|
            0 <= k < pending.len() ==> binance_sync_spec(snapshot, pending, event_last_id, false).id
                >= (#[trigger] pending[k]).last_update_id,
        binance_sync_spec(snapshot, pending, event_last_id, false).id == event_last_id || exists|k: int|
            0 <= k < pending.len() && binance_sync_spec(snapshot, pending, event_last_id, false).id
                == (#[trigger] pending[k]).last_update_id,
{
    broadcast use vstd::seq_lib::group_to_multiset_ensures;

    let sorted = sort_by_id(pending);
    let id = binance_sync_spec(snapshot, pending, event_last_id, false).id;
    law_sort_by_id_sorts_and_permutes(pending);
    assert forall|k: int| 0 <= k < pending.len() implies id >= (#[trigger] pending[k]).last_update_id by {
        assert(pending.contains(pending[k]));
        assert(pending.to_multiset().count(pending[k]) > 0);
        assert(sorted.contains(pending[k]));
        let i = choose|i: int| 0 <= i < sorted.len() && sorted[i] == pending[k];
        assert(sorted[i].last_update_id <= sorted[sorted.len() - 1].last_update_id);
    }
    if sorted.len() > 0 && sorted.last().last_update_id > event_last_id {
        assert(sorted.contains(sorted.last()));
        assert(sorted.to_multiset().count(sorted.last()) > 0);
        assert(pending.contains(sorted.last()));
        let k = choose|k: int| 0 <= k < pending.len() && pending[k] == sorted.last();
        assert(id == pending[k].last_update_id);
    }
}

/// A Binance diff is applied only to a synced book (id at least 2) that it
/// continues: on spot its range reaches past the book's id without leaving a
/// hole, on futures its previous id is the book's id.
pub proof fn law_binance_applies_only_continuing_events(
    book_id: u64,
    spot: bool,
    first: u64,
    last: u64,
    prev: Option<u64>,
)
    ensures
        binance_action_spec(book_id, spot, first, last, prev) == DepthAction::Apply ==> book_id >= 2 && (
        if spot {
            last > book_id && first <= book_id + 1
        } else {
            prev == Some(book_id)
        }),
{
}

/// A Gate diff is applied only to a synced book whose next id it covers.
pub proof fn law_gate_applies_only_continuing_events(book_id: u64, first: u64, last: u64, full: bool)
    ensures
        gate_action_spec(book_id, first, last, full) == GateAction::Apply ==> book_id >= 2 && first
            <= book_id + 1 <= last,
{
}


/// Each level's text parses as a decimal.
pub open spec fn levels_parse(entries: Seq<(String, String)>) -> bool {
    forall|i: int|
        0 <= i < entries.len() ==> decimal_from_str((#[trigger] entries[i]).0@) is Some
            && decimal_from_str(entries[i].1@) is Some
}

/// The parsed `(price, quantity)` of a level whose text parses.
pub open spec fn parsed_level(e: (String, String)) -> (Dec, Dec) {
    (decimal_from_str(e.0@)->0, decimal_from_str(e.1@)->0)
}

/// Depth levels given as `(price, quantity)` text, parsed as decimals; `None`
/// as soon as one of them is not a number.
pub fn parse_levels(entries: &Vec<(String, String)>) -> (r: Option<Vec<(Dec, Dec)>>)
    ensures
        r is Some <==> levels_parse(entries@),
        r matches Some(v) ==> v@ == entries@.map_values(|e: (String, String)| parsed_level(e)),
{
    let mut out: Vec<(Dec, Dec)> = Vec::new();
    let mut i: usize = 0;
    while i < entries.len()
        invariant
            i <= entries@.len(),
            out@ == entries@.take(i as int).map_values(|e: (String, String)| parsed_level(e)),
            levels_parse(entries@.take(i as int)),
        decreases entries@.len() - i,
    {
        let price = parse_decimal(entries[i].0.as_str());
        let qty = parse_decimal(entries[i].1.as_str());
        match (price, qty) {
            (Some(p), Some(q)) => {
                out.push((p, q));
                proof {
                    let t = entries@.take(i as int + 1);
                    assert(t.drop_last() =~= entries@.take(i as int));
                    assert forall|j: int| 0 <= j < t.len() implies decimal_from_str(
                        (#[trigger] t[j]).0@,
                    ) is Some && decimal_from_str(t[j].1@) is Some by {
                        if j < i {
                            assert(t[j] == entries@.take(i as int)[j]);
                        }
                    }
                    assert(out@ =~= t.map_values(|e: (String, String)| parsed_level(e)));
                }
                i = i + 1;
            },
            _ => {
                proof {
                    assert(!(decimal_from_str(entries@[i as int].0@) is Some && decimal_from_str(
                        entries@[i as int].1@,
                    ) is Some));
                }
                return None;
            },
        }
    }
    proof {
        assert(entries@.take(entries@.len() as int) =~= entries@);
    }
    Some(out)
}

/// A diff event built from its level texts and ids; `None` when a level does
/// not parse.
pub fn build_update(
    bids: &Vec<(String, String)>,
    asks: &Vec<(String, String)>,
    first_update_id: u64,
    last_update_id: u64,
    full: bool,
) -> (r: Option<OrderBookUpdate>)
    ensures
        r is Some <==> (levels_parse(bids@) && levels_parse(asks@)),
        r matches Some(u) ==> {
            &&& u.bids@ == bids@.map_values(|e: (String, String)| parsed_level(e))
            &&& u.asks@ == asks@.map_values(|e: (String, String)| parsed_level(e))
            &&& u.first_update_id == first_update_id
            &&& u.last_update_id == last_update_id
            &&& u.full == full
        },
{
    let asks = parse_levels(asks);
    match asks {
        None => None,
        Some(asks) => {
            let bids = parse_levels(bids);
            match bids {
                None => None,
                Some(bids) => Some(OrderBookUpdate { bids, asks, first_update_id, last_update_id, full }),
            }
        },
    }
}

} // verus!
