//! What holds of the download queue across its operations.

use vstd::prelude::*;
use bitcoin::BlockHash;
use crate::block_queue::{run_len, height_range, AdvanceKind, DownloadRequest, QueueState};

verus! {

/// Every height below `start + run_len(..)` from `start` is queued, and a
/// run never takes more than it may.
pub proof fn lemma_run_len_covers(
    filters: Map<u32, DownloadRequest>,
    start: int,
    cap: nat,
)
    ensures
        run_len(filters, start, cap) <= cap,
        run_len(filters, start, cap) > 0 ==> 0 <= start && start + run_len(filters, start, cap)
            <= u32::MAX + 1,
        forall|i: int|
            0 <= i < run_len(filters, start, cap) ==> #[trigger] filters.contains_key(
                (start + i) as u32,
            ),
    decreases cap,
{
    if cap > 0 && 0 <= start <= u32::MAX && filters.contains_key(start as u32) {
        let n = run_len(filters, start + 1, (cap - 1) as nat);
        lemma_run_len_covers(filters, start + 1, (cap - 1) as nat);
        assert forall|i: int| 0 <= i < n + 1 implies #[trigger] filters.contains_key(
            (start + i) as u32,
        ) by {
            if i > 0 {
                assert(filters.contains_key((start + 1 + (i - 1)) as u32));
            }
        }
    }
}

/// A queue that holds any filter has a lowest filter height.
pub proof fn lemma_first_height_exists(q: QueueState, k: u32)
    requires
        q.filters.contains_key(k),
    ensures
        q.filters.contains_key(q.first_height()),
        forall|j: u32| #[trigger] q.filters.contains_key(j) ==> q.first_height() <= j,
    decreases k,
{
    if exists|j: u32| #[trigger] q.filters.contains_key(j) && j < k {
        let j = choose|j: u32| #[trigger] q.filters.contains_key(j) && j < k;
        lemma_first_height_exists(q, j);
    } else {
        assert(q.filters.contains_key(k) && forall|j: u32|
            #[trigger] q.filters.contains_key(j) ==> k <= j);
    }
}

/// A new queue is complete.
pub proof fn lemma_new_queue_complete()
    ensures
        (QueueState {
            blocks: Seq::<DownloadRequest>::empty(),
            filters: Map::<u32, DownloadRequest>::empty(),
            in_flight: Seq::<BlockHash>::empty(),
        }).is_complete(),
{
}

/// `pop` hands out a batch exactly when some request is queued and the
/// capacity is not zero.
pub proof fn lemma_pop_some_iff(q: QueueState, cap: nat)
    ensures
        q.batch(cap).len() > 0 <==> q.has_queued() && cap > 0,
{
    if q.serves_filters() {
        let k = q.filters.dom().choose();
        lemma_first_height_exists(q, k);
        lemma_run_len_covers(q.filters, q.first_height() as int, cap);
    }
}

/// While any filter is queued, a batch holds only filters, at the
/// consecutive heights from the lowest queued one, each of them taken off
/// the queue, and the queued blocks stay as they are.
pub proof fn lemma_filter_batch_is_lowest_run(q: QueueState, cap: nat)
    requires
        q.wf(),
        q.serves_filters(),
    ensures
        q.batch(cap).len() <= cap,
        forall|i: int|
            0 <= i < q.batch(cap).len() ==> {
                &&& (#[trigger] q.batch(cap)[i]).height == q.first_height() + i
                &&& q.batch(cap)[i].kind == AdvanceKind::Filters
                &&& q.filters.contains_key(q.batch(cap)[i].height)
                &&& q.filters[q.batch(cap)[i].height] == q.batch(cap)[i]
                &&& !q.after_pop(cap).filters.contains_key(q.batch(cap)[i].height)
            },
        forall|k: u32| #[trigger]
            q.filters.contains_key(k) && k < q.first_height() + q.batch(cap).len() ==> q.first_height()
                <= k,
        q.after_pop(cap).blocks == q.blocks,
{
    let k = q.filters.dom().choose();
    lemma_first_height_exists(q, k);
    lemma_run_len_covers(q.filters, q.first_height() as int, cap);
    let first = q.first_height();
    let n = q.batch_len(cap);
    assert forall|i: int| 0 <= i < q.batch(cap).len() implies {
        &&& (#[trigger] q.batch(cap)[i]).height == q.first_height() + i
        &&& q.batch(cap)[i].kind == AdvanceKind::Filters
        &&& q.filters.contains_key(q.batch(cap)[i].height)
        &&& q.filters[q.batch(cap)[i].height] == q.batch(cap)[i]
        &&& !q.after_pop(cap).filters.contains_key(q.batch(cap)[i].height)
    } by {
        let h = (first + i) as u32;
        assert(q.filters.contains_key(h));
        assert(q.batch(cap)[i] == q.filters[h]);
        assert(height_range(first as int, n).contains(h));
    }
}

/// A request that `pop` leaves on the queue was queued before, and a
/// request that was queued is either in the batch or still queued.
pub proof fn lemma_pop_loses_nothing(q: QueueState, cap: nat)
    requires
        q.wf(),
    ensures
        !q.serves_filters() ==> q.blocks == q.batch(cap) + q.after_pop(cap).blocks,
        q.serves_filters() ==> forall|k: u32| #[trigger]
            q.filters.contains_key(k) ==> q.after_pop(cap).filters.contains_key(k) && q.after_pop(
                cap,
            ).filters[k] == q.filters[k] || exists|i: int|
                0 <= i < q.batch(cap).len() && #[trigger] q.batch(cap)[i] == q.filters[k],
        q.serves_filters() ==> forall|k: u32| #[trigger]
            q.after_pop(cap).filters.contains_key(k) ==> q.filters.contains_key(k)
                && q.after_pop(cap).filters[k] == q.filters[k],
{
    if q.serves_filters() {
        let c = q.filters.dom().choose();
        lemma_first_height_exists(q, c);
        lemma_run_len_covers(q.filters, q.first_height() as int, cap);
        let first = q.first_height();
        let n = q.batch_len(cap);
        assert forall|k: u32| #[trigger] q.filters.contains_key(k) implies q.after_pop(
            cap,
        ).filters.contains_key(k) && q.after_pop(cap).filters[k] == q.filters[k] || exists|i: int|
            0 <= i < q.batch(cap).len() && #[trigger] q.batch(cap)[i] == q.filters[k] by {
            if height_range(first as int, n).contains(k) {
                let i = k - first;
                assert((first + i) as u32 == k);
                assert(q.batch(cap)[i] == q.filters[k]);
            }
        }
    } else {
        let n = q.batch_len(cap) as int;
        assert(q.blocks =~= q.blocks.take(n) + q.blocks.skip(n));
    }
}

/// Blocks leave the queue in the order they were queued: a block batch is
/// the oldest queued blocks, at most `cap` of them.
pub proof fn lemma_block_batch_is_oldest(q: QueueState, cap: nat)
    requires
        q.wf(),
        !q.serves_filters(),
    ensures
        q.batch(cap).len() == (if cap < q.blocks.len() { cap } else { q.blocks.len() }),
        forall|i: int| 0 <= i < q.batch(cap).len() ==> #[trigger] q.batch(cap)[i] == q.blocks[i],
        q.after_pop(cap).filters == q.filters,
{
}

/// Adding a request twice is the same as adding it once.
pub proof fn lemma_add_idempotent(q: QueueState, r: DownloadRequest)
    requires
        q.wf(),
    ensures
        q.after_add(r).after_add(r) == q.after_add(r),
{
    let p = q.after_add(r);
    match r.kind {
        AdvanceKind::Blocks => {
            if !q.has_block(r.hash) {
                assert(p.blocks[p.blocks.len() - 1] == r);
            }
        },
        AdvanceKind::Filters => {
            if !(q.filters.contains_key(r.height) && q.has_filter_hash(r.hash)) {
                assert(p.filters.contains_key(r.height) && p.filters[r.height] == r);
            }
        },
    }
}

/// Once added, a block request is queued, and a filter request's height is
/// taken.
pub proof fn lemma_add_then_queued(q: QueueState, r: DownloadRequest)
    requires
        q.wf(),
    ensures
        r.kind == AdvanceKind::Blocks ==> q.after_add(r).has_block(r.hash),
        r.kind == AdvanceKind::Filters ==> q.after_add(r).filters.contains_key(r.height),
        r.kind == AdvanceKind::Filters && !q.filters.contains_key(r.height) ==> q.after_add(
            r,
        ).filters[r.height] == r,
{
    if r.kind == AdvanceKind::Blocks && !q.has_block(r.hash) {
        let p = q.after_add(r);
        assert(p.blocks[p.blocks.len() - 1] == r);
    }
}

/// Adding keeps the queue well-formed.
pub proof fn lemma_add_keeps_wf(q: QueueState, r: DownloadRequest)
    requires
        q.wf(),
    ensures
        r.kind == AdvanceKind::Blocks ==> q.after_add(r).wf(),
        r.kind == AdvanceKind::Filters ==> q.after_add(r).wf(),
{
}

/// After `remove`, no queued request has a listed hash; every request
/// whose hash is not listed stays queued.
pub proof fn lemma_remove_drops_exactly_listed(q: QueueState, hashes: Seq<BlockHash>)
    ensures
        forall|h: BlockHash| hashes.contains(h) ==> !q.after_remove(hashes).has_block(h),
        forall|h: BlockHash| hashes.contains(h) ==> !q.after_remove(hashes).has_filter_hash(h),
        forall|i: int|
            0 <= i < q.blocks.len() && !hashes.contains(q.blocks[i].hash) ==> q.after_remove(
                hashes,
            ).blocks.contains(#[trigger] q.blocks[i]),
        forall|k: u32|
            #[trigger] q.filters.contains_key(k) && !hashes.contains(q.filters[k].hash)
                ==> q.after_remove(hashes).filters.contains_key(k) && q.after_remove(
                hashes,
            ).filters[k] == q.filters[k],
{
    let keep = |r: DownloadRequest| !hashes.contains(r.hash);
    let b = q.blocks.filter(keep);
    broadcast use vstd::seq_lib::group_filter_ensures;

    assert forall|h: BlockHash| hashes.contains(h) implies !q.after_remove(hashes).has_block(h) by {
        if q.after_remove(hashes).has_block(h) {
            let i = choose|i: int| 0 <= i < b.len() && #[trigger] b[i].hash == h;
            assert(keep(b[i]));
        }
    }
    assert forall|i: int|
        0 <= i < q.blocks.len() && !hashes.contains(q.blocks[i].hash) implies q.after_remove(
        hashes,
    ).blocks.contains(#[trigger] q.blocks[i]) by {
        assert(keep(q.blocks[i]));
    }
}

/// A batch holds at least one request when any is queued and the capacity
/// allows, and never more than the capacity.
pub proof fn lemma_batch_size(q: QueueState, cap: nat)
    ensures
        q.batch(cap).len() <= cap,
        q.has_queued() && cap > 0 ==> q.batch(cap).len() >= 1,
{
    lemma_pop_some_iff(q, cap);
    if q.serves_filters() {
        lemma_run_len_covers(q.filters, q.first_height() as int, cap);
    }
}

/// Removing the heights `start .. start + n`, all of them keys of a finite
/// map, takes exactly `n` keys away.
proof fn lemma_remove_run_len(filters: Map<u32, DownloadRequest>, start: int, n: nat)
    requires
        filters.dom().finite(),
        forall|i: int| 0 <= i < n ==> #[trigger] filters.contains_key((start + i) as u32),
        n > 0 ==> 0 <= start && start + n <= u32::MAX + 1,
    ensures
        filters.remove_keys(height_range(start, n)).dom().finite(),
        filters.remove_keys(height_range(start, n)).dom().len() + n == filters.dom().len(),
    decreases n,
{
    if n == 0 {
        assert(filters.remove_keys(height_range(start, 0)) =~= filters);
    } else {
        let m = (n - 1) as nat;
        lemma_remove_run_len(filters, start, m);
        let last = (start + m) as u32;
        let before = filters.remove_keys(height_range(start, m));
        assert(filters.contains_key((start + m) as u32));
        assert(before.contains_key(last));
        assert(filters.remove_keys(height_range(start, n)) =~= before.remove(last));
        assert(before.remove(last).dom() =~= before.dom().remove(last));
    }
}

/// `pop` neither loses, duplicates nor alters a request: what stays queued
/// and what is handed out make up what was queued, as many as before, and
/// the hashes handed out join those in flight.
pub proof fn lemma_pop_conserves(q: QueueState, cap: nat)
    requires
        q.wf(),
    ensures
        q.after_pop(cap).queued_len() + q.batch(cap).len() == q.queued_len(),
        q.after_pop(cap).in_flight == q.in_flight + q.batch_hashes(cap),
        !q.serves_filters() ==> q.blocks == q.batch(cap) + q.after_pop(cap).blocks,
        !q.serves_filters() ==> q.blocks.to_multiset() == q.batch(cap).to_multiset().add(
            q.after_pop(cap).blocks.to_multiset(),
        ),
        q.serves_filters() ==> q.filters == q.after_pop(cap).filters.union_prefer_right(
            q.filters.restrict(height_range(q.first_height() as int, q.batch(cap).len())),
        ),
        q.serves_filters() ==> q.after_pop(cap).filters.dom().disjoint(
            height_range(q.first_height() as int, q.batch(cap).len()),
        ),
        q.serves_filters() ==> forall|i: int|
            0 <= i < q.batch(cap).len() ==> #[trigger] q.batch(cap)[i] == q.filters[(
            q.first_height() + i) as u32],
{
    if q.serves_filters() {
        let c = q.filters.dom().choose();
        lemma_first_height_exists(q, c);
        lemma_run_len_covers(q.filters, q.first_height() as int, cap);
        let first = q.first_height() as int;
        let n = q.batch_len(cap);
        lemma_remove_run_len(q.filters, first, n);
        let range = height_range(first, n);
        assert(q.filters =~= q.after_pop(cap).filters.union_prefer_right(q.filters.restrict(range)));
    } else {
        let n = q.batch_len(cap) as int;
        assert(q.blocks =~= q.blocks.take(n) + q.blocks.skip(n));
        vstd::seq_lib::lemma_multiset_commutative(q.blocks.take(n), q.blocks.skip(n));
    }
}

/// Taking a batch keeps the queue well-formed.
pub proof fn lemma_pop_keeps_wf(q: QueueState, cap: nat)
    requires
        q.wf(),
    ensures
        q.after_pop(cap).wf(),
{
    if q.serves_filters() {
        let c = q.filters.dom().choose();
        lemma_first_height_exists(q, c);
        lemma_run_len_covers(q.filters, q.first_height() as int, cap);
        lemma_remove_run_len(q.filters, q.first_height() as int, q.batch_len(cap));
    } else {
        let k = q.batch_len(cap) as int;
        let p = q.after_pop(cap);
        assert forall|i: int, j: int|
            0 <= i < j < p.blocks.len() implies #[trigger] p.blocks[i].hash
            != #[trigger] p.blocks[j].hash by {
            assert(p.blocks[i] == q.blocks[i + k]);
            assert(p.blocks[j] == q.blocks[j + k]);
        }
        assert forall|i: int| 0 <= i < p.blocks.len() implies #[trigger] p.blocks[i].kind
            == AdvanceKind::Blocks by {
            assert(p.blocks[i] == q.blocks[i + k]);
        }
    }
}

/// The queue after `k` pops of at most `cap` requests each.
pub open spec fn after_pops(q: QueueState, cap: nat, k: nat) -> QueueState
    decreases k,
{
    if k == 0 {
        q
    } else {
        after_pops(q.after_pop(cap), cap, (k - 1) as nat)
    }
}

/// Repeated pops hand out the whole queue: with a capacity of at least
/// one, after as many pops as requests were queued nothing is queued any
/// more, so the next `pop` returns nothing.
pub proof fn lemma_pops_drain(q: QueueState, cap: nat, k: nat)
    requires
        q.wf(),
        cap >= 1,
        k >= q.queued_len(),
    ensures
        !after_pops(q, cap, k).has_queued(),
        after_pops(q, cap, k).batch(cap).len() == 0,
    decreases k,
{
    if k == 0 {
        lemma_nothing_queued(q);
        lemma_pop_some_iff(q, cap);
    } else {
        let p = q.after_pop(cap);
        lemma_pop_conserves(q, cap);
        lemma_pop_keeps_wf(q, cap);
        lemma_batch_size(q, cap);
        if !q.has_queued() {
            assert(q.filters.dom() =~= Set::<u32>::empty());
        }
        assert(p.queued_len() <= k - 1);
        lemma_pops_drain(p, cap, (k - 1) as nat);
    }
}

/// A queue that holds no request has nothing queued.
proof fn lemma_nothing_queued(q: QueueState)
    requires
        q.wf(),
        q.queued_len() == 0,
    ensures
        !q.has_queued(),
{
    vstd::set_lib::lemma_set_empty_equivalency_len(q.filters.dom());
}

/// A batch stays in flight until its hashes are removed: taking a batch
/// leaves the queue incomplete; `remove` takes the listed hashes out of
/// flight; once nothing is queued and every hash in flight is listed, the
/// queue is complete.
pub proof fn lemma_in_flight_until_received(q: QueueState, cap: nat, hashes: Seq<BlockHash>)
    ensures
        q.batch(cap).len() > 0 ==> !q.after_pop(cap).is_complete(),
        forall|i: int|
            0 <= i < q.after_remove(hashes).in_flight.len() ==> !hashes.contains(
                #[trigger] q.after_remove(hashes).in_flight[i],
            ),
        forall|i: int|
            0 <= i < q.in_flight.len() && !hashes.contains(q.in_flight[i]) ==> q.after_remove(
                hashes,
            ).in_flight.contains(#[trigger] q.in_flight[i]),
        !q.has_queued() && (forall|i: int|
            0 <= i < q.in_flight.len() ==> hashes.contains(#[trigger] q.in_flight[i]))
            ==> q.after_remove(hashes).is_complete(),
{
    let keep = |h: BlockHash| !hashes.contains(h);
    broadcast use vstd::seq_lib::group_filter_ensures;

    if q.batch(cap).len() > 0 {
        assert(q.after_pop(cap).in_flight.len() > 0);
    }
    assert forall|i: int|
        0 <= i < q.after_remove(hashes).in_flight.len() implies !hashes.contains(
        #[trigger] q.after_remove(hashes).in_flight[i],
    ) by {
        assert(keep(q.in_flight.filter(keep)[i]));
    }
    assert forall|i: int|
        0 <= i < q.in_flight.len() && !hashes.contains(q.in_flight[i]) implies q.after_remove(
        hashes,
    ).in_flight.contains(#[trigger] q.in_flight[i]) by {
        assert(keep(q.in_flight[i]));
    }
    if !q.has_queued() && (forall|i: int|
        0 <= i < q.in_flight.len() ==> hashes.contains(#[trigger] q.in_flight[i])) {
        let p = q.after_remove(hashes);
        lemma_filter_none_kept(q.in_flight, keep);
        assert(p.blocks.len() == 0) by {
            q.blocks.lemma_filter_len(|r: DownloadRequest| !hashes.contains(r.hash));
        }
        assert(p.filters.dom() =~= Set::<u32>::empty());
    }
}

/// Removing the same hashes twice is the same as removing them once.
pub proof fn lemma_remove_idempotent(q: QueueState, hashes: Seq<BlockHash>)
    ensures
        q.after_remove(hashes).after_remove(hashes) == q.after_remove(hashes),
{
    let keep = |r: DownloadRequest| !hashes.contains(r.hash);
    let b = q.blocks.filter(keep);
    broadcast use vstd::seq_lib::group_filter_ensures;

    lemma_filter_all_kept(b, keep);
    let keep_hash = |h: BlockHash| !hashes.contains(h);
    lemma_filter_all_kept(q.in_flight.filter(keep_hash), keep_hash);
    let p = q.after_remove(hashes);
    assert(p.after_remove(hashes).filters =~= p.filters);
}

/// Filtering a sequence none of whose elements pass leaves nothing.
proof fn lemma_filter_none_kept<A>(s: Seq<A>, keep: spec_fn(A) -> bool)
    requires
        forall|i: int| 0 <= i < s.len() ==> !keep(#[trigger] s[i]),
    ensures
        s.filter(keep).len() == 0,
    decreases s.len(),
{
    reveal_with_fuel(Seq::filter, 1);
    if s.len() > 0 {
        lemma_filter_none_kept(s.drop_last(), keep);
    }
}

/// Filtering a sequence whose elements all pass changes nothing.
proof fn lemma_filter_all_kept<A>(s: Seq<A>, keep: spec_fn(A) -> bool)
    requires
        forall|i: int| 0 <= i < s.len() ==> keep(#[trigger] s[i]),
    ensures
        s.filter(keep) == s,
    decreases s.len(),
{
    reveal_with_fuel(Seq::filter, 1);
    if s.len() > 0 {
        lemma_filter_all_kept(s.drop_last(), keep);
        assert(s.drop_last().push(s.last()) =~= s);
    }
}

} // verus!

verus! {

/// While any filter request is queued, whatever is in flight and however
/// many blocks wait, a batch holds filters only: at least one when the
/// capacity allows, starting with the filter at the lowest queued height,
/// and the queued blocks are left as they are.
pub proof fn lemma_filters_served_first(q: QueueState, cap: nat)
    requires
        q.wf(),
        !q.filters.dom().is_empty(),
    ensures
        cap > 0 ==> q.batch(cap).len() >= 1,
        forall|i: int|
            0 <= i < q.batch(cap).len() ==> (#[trigger] q.batch(cap)[i]).kind == AdvanceKind::Filters,
        q.batch(cap).len() >= 1 ==> q.filters.contains_key(q.batch(cap)[0].height) && forall|k: u32|
            #[trigger] q.filters.contains_key(k) ==> q.batch(cap)[0].height <= k,
        q.after_pop(cap).blocks == q.blocks,
{
    let c = q.filters.dom().choose();
    lemma_first_height_exists(q, c);
    lemma_filter_batch_is_lowest_run(q, cap);
    lemma_batch_size(q, cap);
    if q.batch(cap).len() >= 1 {
        assert(q.batch(cap)[0].height == q.first_height() + 0);
    }
}

/// A block is queued exactly when one of the queued block requests has its
/// hash; what is in flight does not count. So a block whose hash no queued
/// request has is appended by `add`, even when it is in flight.
pub proof fn lemma_block_queued_iff_in_blocks(q: QueueState, r: DownloadRequest)
    ensures
        q.has_block(r.hash) <==> exists|i: int|
            0 <= i < q.blocks.len() && #[trigger] q.blocks[i].hash == r.hash,
        r.kind == AdvanceKind::Blocks && (forall|i: int|
            0 <= i < q.blocks.len() ==> #[trigger] q.blocks[i].hash != r.hash) ==> q.after_add(
            r,
        ).blocks == q.blocks.push(r),
{
}

/// Blocks handed out in a batch are no longer queued, so adding one of
/// them again queues it anew.
pub proof fn lemma_popped_blocks_not_queued(q: QueueState, cap: nat)
    requires
        q.wf(),
        q.filters.dom().is_empty(),
    ensures
        forall|i: int|
            0 <= i < q.batch(cap).len() ==> !q.after_pop(cap).has_block(
                #[trigger] q.batch(cap)[i].hash,
            ),
{
    let n = q.batch_len(cap) as int;
    let p = q.after_pop(cap);
    assert forall|i: int| 0 <= i < q.batch(cap).len() implies !p.has_block(
        #[trigger] q.batch(cap)[i].hash,
    ) by {
        if p.has_block(q.batch(cap)[i].hash) {
            let j = choose|j: int|
                0 <= j < p.blocks.len() && #[trigger] p.blocks[j].hash == q.batch(cap)[i].hash;
            assert(p.blocks[j] == q.blocks[j + n]);
            assert(q.batch(cap)[i] == q.blocks[i]);
        }
    }
}

/// A complete queue holds nothing, queued or in flight; and a queue that
/// was just added to is never complete.
pub proof fn lemma_complete_means_empty(q: QueueState, r: DownloadRequest)
    ensures
        q.is_complete() ==> q.blocks.len() == 0 && q.filters.dom().is_empty() && q.in_flight.len()
            == 0,
        !q.after_add(r).is_complete(),
{
    let p = q.after_add(r);
    match r.kind {
        AdvanceKind::Blocks => {
            if q.has_block(r.hash) {
                assert(p.blocks.len() > 0);
            } else {
                assert(p.blocks.len() == q.blocks.len() + 1);
            }
        },
        AdvanceKind::Filters => {
            if q.filters.contains_key(r.height) && q.has_filter_hash(r.hash) {
                assert(p.filters.dom().contains(r.height));
            } else {
                assert(p.filters.dom().contains(r.height));
            }
        },
    }
}

} // verus!
