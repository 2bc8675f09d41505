//! The queue of block and compact-filter downloads that still have to be
//! handed to a peer.

use vstd::prelude::*;
use std::collections::{BTreeMap, VecDeque};
use bitcoin::BlockHash;
use vstd::std_specs::iter::IteratorSpec;
use tokio::time::Instant;
use crate::outside::{block_hash_eq, DownloadSender};
use crate::first_key::{first_key, heights_ordered};

verus! {

broadcast use vstd::std_specs::btree::group_btree_axioms, vstd::std_specs::vecdeque::group_vec_dequeue_axioms;

/// What a download request asks a peer for.
#[derive(Debug, Clone, Copy, PartialEq, Eq, Structural)]
pub enum AdvanceKind {
    /// A full block.
    Blocks,
    /// The compact block filter of a block.
    Filters,
}

/// A block or filter that has to be downloaded.
#[derive(Debug)]
pub struct DownloadRequest {
    pub hash: BlockHash,
    pub kind: AdvanceKind,
    pub height: u32,
    pub sender: Option<DownloadSender>,
    pub downloading_since: Option<Instant>,
}

/// The range of filters that one `getcfilters` message asks for.
pub struct FilterRange {
    pub filter_type: u8,
    pub start_height: u32,
    pub stop_hash: BlockHash,
}

/// What a batch of requests asks the peer for.
pub enum QueueBatchKind {
    /// The blocks with these hashes, in this order.
    Block(Vec<BlockHash>),
    /// A range of consecutive filters.
    Filter(FilterRange),
}

/// Requests taken off the queue together, to be sent to one peer.
pub struct QueueBatch {
    pub requests: Vec<DownloadRequest>,
    pub kind: QueueBatchKind,
}

/// Pending downloads: blocks in the order they were asked for, and
/// filters keyed by the height of their block; and the hashes of the
/// requests handed out in batches that have not been received yet.
#[derive(Debug)]
pub struct DownloadQueue {
    blocks: VecDeque<DownloadRequest>,
    filters: BTreeMap<u32, DownloadRequest>,
    in_flight: Vec<BlockHash>,
}

/// The contents of a [`DownloadQueue`].
pub struct QueueState {
    pub blocks: Seq<DownloadRequest>,
    pub filters: Map<u32, DownloadRequest>,
    /// Hashes of the requests of the batches in flight: popped, and not
    /// yet removed as received.
    pub in_flight: Seq<BlockHash>,
}

/// The number of filters that a batch starting at height `start` takes:
/// the heights `start, start + 1, ...` that `filters` holds without a gap,
/// at most `cap` of them.
pub open spec fn run_len(filters: Map<u32, DownloadRequest>, start: int, cap: nat) -> nat
    decreases cap,
{
    if cap == 0 || start < 0 || start > u32::MAX || !filters.contains_key(start as u32) {
        0
    } else {
        1 + run_len(filters, start + 1, (cap - 1) as nat)
    }
}

/// The heights `start .. start + n`.
pub open spec fn height_range(start: int, n: nat) -> Set<u32> {
    Set::new(|k: u32| start <= k < start + n)
}

impl QueueState {
    /// Every queued block is a block request and no hash is queued twice;
    /// every filter request is a filter request filed under its own height.
    pub open spec fn wf(self) -> bool {
        &&& forall|i: int, j: int|
            0 <= i < j < self.blocks.len() ==> #[trigger] self.blocks[i].hash
                != #[trigger] self.blocks[j].hash
        &&& forall|i: int| 0 <= i < self.blocks.len() ==> #[trigger] self.blocks[i].kind == AdvanceKind::Blocks
        &&& forall|k: u32| #[trigger]
            self.filters.contains_key(k) ==> self.filters[k].height == k && self.filters[k].kind
                == AdvanceKind::Filters
        &&& self.filters.dom().finite()
    }

    /// Some request is queued, not yet handed out.
    pub open spec fn has_queued(self) -> bool {
        self.blocks.len() > 0 || !self.filters.dom().is_empty()
    }

    /// No batch is in flight and nothing is queued.
    pub open spec fn is_complete(self) -> bool {
        !self.has_queued() && self.in_flight.len() == 0
    }

    /// The number of queued requests.
    pub open spec fn queued_len(self) -> nat {
        self.blocks.len() + self.filters.dom().len()
    }

    /// A block request with this hash is queued.
    pub open spec fn has_block(self, hash: BlockHash) -> bool {
        exists|i: int| 0 <= i < self.blocks.len() && #[trigger] self.blocks[i].hash == hash
    }

    /// A filter request with this hash is queued, at any height.
    pub open spec fn has_filter_hash(self, hash: BlockHash) -> bool {
        exists|k: u32| #[trigger] self.filters.contains_key(k) && self.filters[k].hash == hash
    }

    /// The queue after `r` was added: a block is appended unless one with
    /// its hash is queued; a filter is filed under its height (replacing
    /// what was there) unless its height is taken while some queued filter
    /// has its hash.
    pub open spec fn after_add(self, r: DownloadRequest) -> QueueState {
        match r.kind {
            AdvanceKind::Blocks => if self.has_block(r.hash) {
                self
            } else {
                QueueState { blocks: self.blocks.push(r), ..self }
            },
            AdvanceKind::Filters => if self.filters.contains_key(r.height) && self.has_filter_hash(
                r.hash,
            ) {
                self
            } else {
                QueueState { filters: self.filters.insert(r.height, r), ..self }
            },
        }
    }

    /// The lowest height that a queued filter has.
    pub open spec fn first_height(self) -> u32 {
        choose|k: u32|
            #[trigger] self.filters.contains_key(k) && forall|j: u32|
                #[trigger] self.filters.contains_key(j) ==> k <= j
    }

    /// Filters go first: while any is queued a batch holds filters only.
    pub open spec fn serves_filters(self) -> bool {
        !self.filters.dom().is_empty()
    }

    /// How many requests a batch of at most `cap` takes.
    pub open spec fn batch_len(self, cap: nat) -> nat {
        if self.serves_filters() {
            run_len(self.filters, self.first_height() as int, cap)
        } else if cap < self.blocks.len() {
            cap
        } else {
            self.blocks.len()
        }
    }

    /// The requests of the next batch of at most `cap`: the filters at the
    /// consecutive heights from the lowest one, or else the oldest blocks.
    pub open spec fn batch(self, cap: nat) -> Seq<DownloadRequest> {
        if self.serves_filters() {
            Seq::new(
                self.batch_len(cap),
                |i: int| self.filters[(self.first_height() + i) as u32],
            )
        } else {
            self.blocks.take(self.batch_len(cap) as int)
        }
    }

    /// The hashes of the requests of the next batch of at most `cap`.
    pub open spec fn batch_hashes(self, cap: nat) -> Seq<BlockHash> {
        self.batch(cap).map_values(|r: DownloadRequest| r.hash)
    }

    /// The queue once the next batch of at most `cap` was taken: its
    /// requests leave the queue and their hashes join those in flight.
    pub open spec fn after_pop(self, cap: nat) -> QueueState {
        if self.serves_filters() {
            QueueState {
                blocks: self.blocks,
                filters: self.filters.remove_keys(
                    height_range(self.first_height() as int, self.batch_len(cap)),
                ),
                in_flight: self.in_flight + self.batch_hashes(cap),
            }
        } else {
            QueueState {
                blocks: self.blocks.skip(self.batch_len(cap) as int),
                filters: self.filters,
                in_flight: self.in_flight + self.batch_hashes(cap),
            }
        }
    }

    /// The queue without the requests, queued or in flight, whose hash is
    /// one of `hashes`.
    pub open spec fn after_remove(self, hashes: Seq<BlockHash>) -> QueueState {
        QueueState {
            blocks: self.blocks.filter(|r: DownloadRequest| !hashes.contains(r.hash)),
            filters: self.filters.restrict(
                self.filters.dom().filter(|k: u32| !hashes.contains(self.filters[k].hash)),
            ),
            in_flight: self.in_flight.filter(|h: BlockHash| !hashes.contains(h)),
        }
    }
}

impl View for DownloadQueue {
    type V = QueueState;

    closed spec fn view(&self) -> QueueState {
        QueueState { blocks: self.blocks@, filters: self.filters@, in_flight: self.in_flight@ }
    }
}

/// Whether `hash` is one of `hashes`.
fn hash_listed(hashes: &[BlockHash], hash: &BlockHash) -> (r: bool)
    ensures
        r == hashes@.contains(*hash),
{
    let mut i: usize = 0;
    while i < hashes.len()
        invariant
            i <= hashes@.len(),
            forall|j: int| 0 <= j < i ==> hashes@[j] != *hash,
        decreases hashes@.len() - i,
    {
        if block_hash_eq(&hashes[i], hash) {
            return true;
        }
        i = i + 1;
    }
    false
}

impl DownloadQueue {
    /// The well-formedness that every operation keeps.
    pub open spec fn wf(&self) -> bool {
        self@.wf()
    }

    /// An empty queue.
    pub fn new() -> (q: Self)
        ensures
            q.wf(),
            q@.blocks == Seq::<DownloadRequest>::empty(),
            q@.filters == Map::<u32, DownloadRequest>::empty(),
            q@.in_flight == Seq::<BlockHash>::empty(),
    {
        DownloadQueue { blocks: VecDeque::new(), filters: BTreeMap::new(), in_flight: Vec::new() }
    }

    /// Whether a block request with this hash is queued.
    pub fn contains_block(&self, block: &BlockHash) -> (r: bool)
        ensures
            r == self@.has_block(*block),
            r == exists|i: int|
                0 <= i < self@.blocks.len() && #[trigger] self@.blocks[i].hash == *block,
    {
        let n = self.blocks.len();
        let mut i: usize = 0;
        while i < n
            invariant
                n == self.blocks@.len(),
                i <= n,
                forall|j: int| 0 <= j < i ==> self.blocks@[j].hash != *block,
            decreases n - i,
        {
            if block_hash_eq(&self.blocks[i].hash, block) {
                return true;
            }
            i = i + 1;
        }
        false
    }

    /// Whether a queued filter request, at any height, has this hash.
    fn contains_filter_hash(&self, hash: &BlockHash) -> (r: bool)
        ensures
            r == self@.has_filter_hash(*hash),
    {
        proof {
            heights_ordered();
        }

        let ghost entries = self.filters.iter().remaining();
        for entry in it: self.filters.iter()
            invariant
                entries == self.filters.iter().remaining(),
                forall|j: int| 0 <= j < it.index() ==> (#[trigger] entries[j]).1.hash != *hash,
        {
            let (_, req) = entry;
            if block_hash_eq(&req.hash, hash) {
                proof {
                    let k = *entries[it.index() as int].0;
                    assert(self.filters@.contains_key(k));
                }
                return true;
            }
        }
        assert forall|k: u32| #[trigger] self.filters@.contains_key(k) implies self.filters@[k].hash
            != *hash by {
            assert(entries.contains((&k, &self.filters@[k])));
        }
        false
    }

    /// Queues a request, unless it is already queued (see
    /// [`QueueState::after_add`]).
    pub fn add(&mut self, request: DownloadRequest)
        requires
            old(self).wf(),
        ensures
            final(self).wf(),
            final(self)@ == old(self)@.after_add(request),
    {
        proof {
            heights_ordered();
        }

        match request.kind {
            AdvanceKind::Blocks => {
                if self.contains_block(&request.hash) {
                    return ;
                }
                self.blocks.push_back(request);
            },
            AdvanceKind::Filters => {
                if self.filters.contains_key(&request.height) && self.contains_filter_hash(
                    &request.hash,
                ) {
                    return ;
                }
                self.filters.insert(request.height, request);
            },
        }
    }

    /// Takes the filters at heights `first`, `first + 1`, ... for as long as
    /// they are queued, at most `capacity` of them, and the hash of the last.
    fn take_filter_run(&mut self, first: u32, capacity: usize) -> (r: (
        Vec<DownloadRequest>,
        Option<BlockHash>,
    ))
        requires
            old(self)@.wf(),
        ensures
            final(self)@.wf(),
            r.0.len() == run_len(old(self)@.filters, first as int, capacity as nat),
            r.0@ == Seq::new(r.0.len() as nat, |i: int| old(self)@.filters[(first + i) as u32]),
            final(self)@.filters == old(self)@.filters.remove_keys(
                height_range(first as int, r.0.len() as nat),
            ),
            final(self)@.blocks == old(self)@.blocks,
            final(self)@.in_flight == old(self)@.in_flight,
            r.0.len() > 0 ==> r.1 == Some(r.0@.last().hash),
    {
        proof {
            heights_ordered();
        }
        let ghost old_f = self@.filters;
        let mut requests: Vec<DownloadRequest> = Vec::with_capacity(capacity);
        let mut stop_hash: Option<BlockHash> = None;
        let mut next: u32 = first;
        let mut more = true;
        proof {
            assert(old_f.remove_keys(height_range(first as int, 0)) =~= old_f);
        }
        while more && requests.len() < capacity
            invariant
                self@.wf(),
                self.blocks@ == old(self)@.blocks,
                self.in_flight@ == old(self)@.in_flight,
                old_f == old(self)@.filters,
                requests.len() <= capacity,
                self.filters@ == old_f.remove_keys(height_range(first as int, requests.len() as nat)),
                requests@ == Seq::new(requests.len() as nat, |i: int| old_f[(first + i) as u32]),
                more ==> next == first + requests.len(),
                run_len(old_f, first as int, capacity as nat) == requests.len() + run_len(
                    old_f,
                    first + requests.len(),
                    (capacity - requests.len()) as nat,
                ),
                !more ==> run_len(
                    old_f,
                    first + requests.len(),
                    (capacity - requests.len()) as nat,
                ) == 0,
                requests.len() > 0 ==> stop_hash == Some(requests@.last().hash),
            decreases capacity - requests.len(), if more { 1int } else { 0int },
        {
            let ghost n = requests.len();
            let ghost pre = self.filters@;
            match self.filters.remove(&next) {
                Some(request) => {
                    proof {
                        assert(old_f.contains_key(next));
                        assert(old_f[next] == request);
                    }
                    stop_hash = Some(request.hash);
                    requests.push(request);
                    proof {
                        assert(height_range(first as int, (n + 1) as nat) =~= height_range(
                            first as int,
                            n as nat,
                        ).insert(next));
                        assert(self.filters@ =~= old_f.remove_keys(
                            height_range(first as int, requests.len() as nat),
                        ));
                        assert(requests@ =~= Seq::new(
                            requests.len() as nat,
                            |i: int| old_f[(first + i) as u32],
                        ));
                    }
                    if next == u32::MAX {
                        more = false;
                    } else {
                        next = next + 1;
                    }
                },
                None => {
                    proof {
                        assert(!old_f.contains_key(next));
                        assert(self.filters@ == pre);
                    }
                    more = false;
                },
            }
        }
        (requests, stop_hash)
    }

    /// Takes the oldest blocks, at most `capacity` of them, with their hashes.
    fn take_blocks(&mut self, capacity: usize) -> (r: (Vec<DownloadRequest>, Vec<BlockHash>))
        requires
            old(self)@.wf(),
        ensures
            final(self)@.wf(),
            r.0.len() == (if capacity < old(self)@.blocks.len() {
                capacity as int
            } else {
                old(self)@.blocks.len() as int
            }),
            r.0@ == old(self)@.blocks.take(r.0.len() as int),
            final(self)@.blocks == old(self)@.blocks.skip(r.0.len() as int),
            final(self)@.filters == old(self)@.filters,
            final(self)@.in_flight == old(self)@.in_flight,
            r.1@ == r.0@.map_values(|q: DownloadRequest| q.hash),
    {
        let ghost old_b = self@.blocks;
        let mut block_reqs: Vec<DownloadRequest> = Vec::with_capacity(capacity);
        let mut hashes: Vec<BlockHash> = Vec::with_capacity(capacity);
        let mut more = true;
        proof {
            assert(old_b.skip(0) =~= old_b);
            assert(old_b.take(0) =~= Seq::<DownloadRequest>::empty());
        }
        while more && block_reqs.len() < capacity
            invariant
                old_b == old(self)@.blocks,
                old(self)@.wf(),
                self.filters@ == old(self)@.filters,
                self.in_flight@ == old(self)@.in_flight,
                block_reqs.len() <= capacity,
                block_reqs.len() <= old_b.len(),
                block_reqs@ == old_b.take(block_reqs.len() as int),
                self.blocks@ == old_b.skip(block_reqs.len() as int),
                hashes@ == block_reqs@.map_values(|q: DownloadRequest| q.hash),
                !more ==> block_reqs.len() == old_b.len(),
            decreases capacity - block_reqs.len(), if more { 1int } else { 0int },
        {
            let ghost n = block_reqs.len();
            match self.blocks.pop_front() {
                Some(request) => {
                    hashes.push(request.hash);
                    block_reqs.push(request);
                    proof {
                        assert(block_reqs@ =~= old_b.take(block_reqs.len() as int));
                        assert(self.blocks@ =~= old_b.skip(block_reqs.len() as int));
                        assert(hashes@ =~= block_reqs@.map_values(|q: DownloadRequest| q.hash));
                    }
                },
                None => {
                    more = false;
                },
            }
        }
        proof {
            let k = block_reqs.len() as int;
            assert forall|i: int, j: int|
                0 <= i < j < self@.blocks.len() implies #[trigger] self@.blocks[i].hash
                != #[trigger] self@.blocks[j].hash by {
                assert(self@.blocks[i] == old_b[i + k]);
                assert(self@.blocks[j] == old_b[j + k]);
            }
            assert forall|i: int|
                0 <= i < self@.blocks.len() implies #[trigger] self@.blocks[i].kind
                == AdvanceKind::Blocks by {
                assert(self@.blocks[i] == old_b[i + k]);
            }
        }
        (block_reqs, hashes)
    }

    /// Records the hashes of a batch handed out as in flight.
    fn mark_in_flight(&mut self, requests: &Vec<DownloadRequest>)
        ensures
            final(self)@.in_flight == old(self)@.in_flight + requests@.map_values(
                |q: DownloadRequest| q.hash,
            ),
            final(self)@.blocks == old(self)@.blocks,
            final(self)@.filters == old(self)@.filters,
    {
        let ghost before = self.in_flight@;
        let mut i: usize = 0;
        while i < requests.len()
            invariant
                i <= requests@.len(),
                self.in_flight@ == before + requests@.take(i as int).map_values(
                    |q: DownloadRequest| q.hash,
                ),
                self.blocks@ == old(self)@.blocks,
                self.filters@ == old(self)@.filters,
            decreases requests@.len() - i,
        {
            self.in_flight.push(requests[i].hash);
            proof {
                assert(requests@.take(i + 1).map_values(|q: DownloadRequest| q.hash)
                    =~= requests@.take(i as int).map_values(|q: DownloadRequest| q.hash).push(
                    requests@[i as int].hash,
                ));
            }
            i = i + 1;
        }
        proof {
            assert(requests@.take(requests@.len() as int) =~= requests@);
        }
    }

    /// Pops the next batch of at most `capacity` requests. Filters go
    /// first: while any is queued, the batch is the run of filters at
    /// consecutive heights from the lowest one. Otherwise it is the oldest
    /// blocks, in the order they were queued. The batch stays in flight
    /// until its hashes are removed.
    pub fn pop(&mut self, capacity: usize) -> (r: Option<QueueBatch>)
        requires
            old(self).wf(),
        ensures
            final(self).wf(),
            final(self)@ == old(self)@.after_pop(capacity as nat),
            r is Some <==> old(self)@.batch(capacity as nat).len() > 0,
            r matches Some(b) ==> {
                &&& b.requests@ == old(self)@.batch(capacity as nat)
                &&& match b.kind {
                    QueueBatchKind::Filter(f) => {
                        &&& !old(self)@.filters.dom().is_empty()
                        &&& f.filter_type == 0
                        &&& f.start_height == old(self)@.first_height()
                        &&& f.stop_hash == b.requests@.last().hash
                    },
                    QueueBatchKind::Block(hashes) => {
                        &&& old(self)@.filters.dom().is_empty()
                        &&& hashes@ == b.requests@.map_values(|q: DownloadRequest| q.hash)
                    },
                }
            },
    {
        let ghost old_q = self@;
        if self.complete() {
            proof {
                assert(old_q.blocks.skip(0) =~= old_q.blocks);
                assert(old_q.in_flight + old_q.batch_hashes(capacity as nat) =~= old_q.in_flight);
            }
            return None;
        }
        // 1) Filters: the run of consecutive heights from the lowest one.
        if let Some(first) = first_key(&self.filters) {
            proof {
                assert(old_q.first_height() == first);
            }
            let (requests, stop_hash) = self.take_filter_run(first, capacity);
            if requests.len() > 0 {
                self.mark_in_flight(&requests);
                let kind = QueueBatchKind::Filter(
                    FilterRange { filter_type: 0, start_height: first, stop_hash: stop_hash.unwrap() },
                );
                return Some(QueueBatch { requests, kind });
            }
            proof {
                assert(capacity == 0);
                assert(self@.filters =~= old_q.filters);
                assert(old_q.blocks.skip(0) =~= old_q.blocks);
                assert(old_q.in_flight + old_q.batch_hashes(capacity as nat) =~= old_q.in_flight);
            }
            return None;
        }
        // 2) Otherwise the oldest blocks, at most `capacity` of them.
        let (block_reqs, hashes) = self.take_blocks(capacity);
        self.mark_in_flight(&block_reqs);
        if block_reqs.len() > 0 {
            let kind = QueueBatchKind::Block(hashes);
            return Some(QueueBatch { requests: block_reqs, kind });
        }
        None
    }

    /// Removes every request, queued or in a batch in flight, whose hash is
    /// one of `hashes`: a received download is removed this way. The
    /// blocks and in-flight hashes that stay keep their order.
    pub fn remove(&mut self, hashes: &[BlockHash])
        requires
            old(self).wf(),
        ensures
            final(self).wf(),
            final(self)@ == old(self)@.after_remove(hashes@),
    {
        proof {
            heights_ordered();
        }
        let ghost old_q = self@;
        let ghost keep = |q: DownloadRequest| !hashes@.contains(q.hash);

        // Blocks: keep those not listed, in order.
        let mut kept: VecDeque<DownloadRequest> = VecDeque::new();
        let ghost mut taken: int = 0;
        proof {
            reveal_with_fuel(Seq::filter, 1);
            assert(old_q.blocks.skip(0) =~= old_q.blocks);
            assert(old_q.blocks.take(0).filter(keep) =~= Seq::<DownloadRequest>::empty());
        }
        while self.blocks.len() > 0
            invariant
                0 <= taken <= old_q.blocks.len(),
                self.blocks@ == old_q.blocks.skip(taken),
                kept@ == old_q.blocks.take(taken).filter(keep),
                self.filters@ == old_q.filters,
                self.in_flight@ == old_q.in_flight,
                keep == (|q: DownloadRequest| !hashes@.contains(q.hash)),
                old_q.wf(),
                forall|a: int|
                    0 <= a < kept@.len() ==> exists|b: int|
                        0 <= b < taken && #[trigger] kept@[a] == #[trigger] old_q.blocks[b],
                forall|a: int, b: int|
                    0 <= a < b < kept@.len() ==> #[trigger] kept@[a].hash
                        != #[trigger] kept@[b].hash,
                forall|a: int| 0 <= a < kept@.len() ==> #[trigger] kept@[a].kind == AdvanceKind::Blocks,
            decreases self.blocks@.len(),
        {
            let request = self.blocks.pop_front().unwrap();
            proof {
                assert(request == old_q.blocks[taken]);
                reveal_with_fuel(Seq::filter, 1);
                assert(old_q.blocks.take(taken + 1).drop_last() =~= old_q.blocks.take(taken));
                assert(old_q.blocks.take(taken + 1).last() == request);
            }
            let ghost before = kept@;
            if !hash_listed(hashes, &request.hash) {
                kept.push_back(request);
                proof {
                    assert forall|a: int| 0 <= a < before.len() implies #[trigger] before[a].hash
                        != request.hash by {
                        let b = choose|b: int| 0 <= b < taken && before[a] == old_q.blocks[b];
                    }
                    assert forall|a: int|
                        0 <= a < kept@.len() implies exists|b: int|
                            0 <= b < taken + 1 && #[trigger] kept@[a] == #[trigger] old_q.blocks[b] by {
                        if a < before.len() {
                            let b = choose|b: int| 0 <= b < taken && before[a] == old_q.blocks[b];
                            assert(kept@[a] == old_q.blocks[b]);
                        } else {
                            assert(kept@[a] == old_q.blocks[taken]);
                        }
                    }
                }
            }
            proof {
                taken = taken + 1;
                assert(self.blocks@ =~= old_q.blocks.skip(taken));
            }
        }
        proof {
            assert(old_q.blocks.take(taken) =~= old_q.blocks);
        }
        self.blocks = kept;

        // Filters: collect the listed heights, then remove them.
        let mut listed: Vec<u32> = Vec::new();
        let ghost entries = self.filters.iter().remaining();
        for entry in it: self.filters.iter()
            invariant
                entries == self.filters.iter().remaining(),
                self.filters@ == old_q.filters,
                self.in_flight@ == old_q.in_flight,
                forall|j: int|
                    0 <= j < listed@.len() ==> #[trigger] self.filters@.contains_key(listed@[j])
                        && hashes@.contains(self.filters@[listed@[j]].hash),
                forall|j: int|
                    0 <= j < it.index() && hashes@.contains((#[trigger] entries[j]).1.hash)
                        ==> listed@.contains(*entries[j].0),
        {
            let (height, request) = entry;
            let ghost before = listed@;
            if hash_listed(hashes, &request.hash) {
                listed.push(*height);
            }
            proof {
                assert(self.filters@.contains_key(*height) && self.filters@[*height] == *request);
                assert forall|j: int|
                    0 <= j < it.index() + 1 && hashes@.contains((#[trigger] entries[j]).1.hash)
                        implies listed@.contains(*entries[j].0) by {
                    if j < it.index() {
                        let w = choose|w: int| 0 <= w < before.len() && before[w] == *entries[j].0;
                        assert(listed@[w] == before[w]);
                    } else {
                        assert(listed@[listed@.len() - 1] == *height);
                    }
                }
            }
        }
        let ghost drop = old_q.filters.dom().filter(
            |k: u32| hashes@.contains(old_q.filters[k].hash),
        );
        proof {
            assert forall|k: u32| drop.contains(k) implies listed@.contains(k) by {
                assert(entries.contains((&k, &old_q.filters[k])));
                let j = choose|j: int| 0 <= j < entries.len() && entries[j] == (&k, &old_q.filters[k]);
                assert(hashes@.contains(entries[j].1.hash));
            }
            assert(old_q.filters.remove_keys(Set::new(|k: u32| listed@.take(0).contains(k)))
                =~= old_q.filters);
            assert(self.filters@ == old_q.filters);
            assert forall|j: int| 0 <= j < listed@.len() implies #[trigger] old_q.filters.contains_key(listed@[j])
                        && hashes@.contains(old_q.filters[listed@[j]].hash) by {
                assert(self.filters@.contains_key(listed@[j]));
            }
        }
        let mut i: usize = 0;
        while i < listed.len()
            invariant
                i <= listed@.len(),
                forall|j: int|
                    0 <= j < listed@.len() ==> old_q.filters.contains_key(#[trigger] listed@[j]),
                self.filters@ == old_q.filters.remove_keys(
                    Set::new(|k: u32| listed@.take(i as int).contains(k)),
                ),
                self.blocks@ == old_q.blocks.filter(keep),
                self.in_flight@ == old_q.in_flight,
            decreases listed@.len() - i,
        {
            let height = listed[i];
            self.filters.remove(&height);
            proof {
                assert(listed@.take(i + 1) =~= listed@.take(i as int).push(height));
                let a = listed@.take(i as int);
                let b = listed@.take(i + 1);
                assert forall|k: u32| b.contains(k) <==> (a.contains(k) || k == height) by {
                    if a.contains(k) {
                        let j = choose|j: int| 0 <= j < a.len() && a[j] == k;
                        assert(b[j] == k);
                    }
                    if k == height {
                        assert(b[i as int] == k);
                    }
                    if b.contains(k) {
                        let j = choose|j: int| 0 <= j < b.len() && b[j] == k;
                        if j < i {
                            assert(a[j] == k);
                        }
                    }
                }
                assert(Set::new(|k: u32| listed@.take(i + 1).contains(k)) =~= Set::new(
                    |k: u32| listed@.take(i as int).contains(k),
                ).insert(height));
                assert(self.filters@ =~= old_q.filters.remove_keys(
                    Set::new(|k: u32| listed@.take(i + 1).contains(k)),
                ));
            }
            i = i + 1;
        }
        proof {
            assert(listed@.take(listed@.len() as int) =~= listed@);
            assert(self.filters@ =~= old_q.after_remove(hashes@).filters);
        }

        // In flight: keep the hashes not listed, in order.
        let ghost keep_hash = |h: BlockHash| !hashes@.contains(h);
        let ghost done_filters = self.filters@;
        let mut still: Vec<BlockHash> = Vec::new();
        let mut j: usize = 0;
        proof {
            reveal_with_fuel(Seq::filter, 1);
            assert(old_q.in_flight.take(0).filter(keep_hash) =~= Seq::<BlockHash>::empty());
        }
        while j < self.in_flight.len()
            invariant
                j <= old_q.in_flight.len(),
                self.in_flight@ == old_q.in_flight,
                still@ == old_q.in_flight.take(j as int).filter(keep_hash),
                keep_hash == (|h: BlockHash| !hashes@.contains(h)),
                self.blocks@ == old_q.blocks.filter(keep),
                self.filters@ == done_filters,
            decreases old_q.in_flight.len() - j,
        {
            let h = self.in_flight[j];
            proof {
                reveal_with_fuel(Seq::filter, 1);
                assert(old_q.in_flight.take(j + 1).drop_last() =~= old_q.in_flight.take(j as int));
                assert(old_q.in_flight.take(j + 1).last() == h);
            }
            if !hash_listed(hashes, &h) {
                still.push(h);
            }
            j = j + 1;
        }
        proof {
            assert(old_q.in_flight.take(j as int) =~= old_q.in_flight);
        }
        self.in_flight = still;
    }

    /// Returns true when the queue is empty.
    pub fn complete(&self) -> (r: bool)
        ensures
            r == self@.is_complete(),
            r == (self@.blocks.len() == 0 && self@.filters.dom().is_empty()
                && self@.in_flight.len() == 0),
    {
        proof {
            heights_ordered();
        }

        self.blocks.len() == 0 && self.filters.is_empty() && self.in_flight.len() == 0
    }
}

} // verus!
