use bitcoin::BlockHash;

use yuki::block_queue::{AdvanceKind, DownloadQueue, DownloadRequest, QueueBatch, QueueBatchKind};

fn hash(n: u8) -> BlockHash {
    <BlockHash as bitcoin::hashes::Hash>::from_byte_array([n; 32])
}

fn block(n: u8) -> DownloadRequest {
    DownloadRequest {
        hash: hash(n),
        kind: AdvanceKind::Blocks,
        height: n as u32,
        sender: None,
        downloading_since: None,
    }
}

fn filter(height: u32, n: u8) -> DownloadRequest {
    DownloadRequest {
        hash: hash(n),
        kind: AdvanceKind::Filters,
        height,
        sender: None,
        downloading_since: None,
    }
}

fn hashes_of(batch: &QueueBatch) -> Vec<BlockHash> {
    batch.requests.iter().map(|r| r.hash).collect()
}

fn heights_of(batch: &QueueBatch) -> Vec<u32> {
    batch.requests.iter().map(|r| r.height).collect()
}

#[test]
fn new_queue_is_complete_and_pops_nothing() {
    let mut q = DownloadQueue::new();
    assert!(q.complete());
    assert!(q.pop(10).is_none());
    assert!(q.complete());
}

#[test]
fn blocks_are_deduplicated_by_hash() {
    let mut q = DownloadQueue::new();
    q.add(block(1));
    q.add(block(1));
    q.add(block(2));
    assert!(q.contains_block(&hash(1)));
    assert!(q.contains_block(&hash(2)));
    assert!(!q.contains_block(&hash(3)));
    let batch = q.pop(10).unwrap();
    assert_eq!(hashes_of(&batch), vec![hash(1), hash(2)]);
    assert!(!q.complete());
}

#[test]
fn blocks_pop_in_order_up_to_capacity() {
    let mut q = DownloadQueue::new();
    for n in 1..=5 {
        q.add(block(n));
    }
    let first = q.pop(2).unwrap();
    assert_eq!(hashes_of(&first), vec![hash(1), hash(2)]);
    match &first.kind {
        QueueBatchKind::Block(hashes) => assert_eq!(hashes, &vec![hash(1), hash(2)]),
        QueueBatchKind::Filter(_) => panic!("expected a block batch"),
    }
    let second = q.pop(2).unwrap();
    assert_eq!(hashes_of(&second), vec![hash(3), hash(4)]);
    let third = q.pop(2).unwrap();
    assert_eq!(hashes_of(&third), vec![hash(5)]);
    assert!(q.pop(2).is_none());
    assert!(!q.complete());
}

#[test]
fn zero_capacity_pops_nothing() {
    let mut q = DownloadQueue::new();
    q.add(block(1));
    q.add(filter(7, 7));
    assert!(q.pop(0).is_none());
    assert!(!q.complete());
    assert!(q.contains_block(&hash(1)));
    let batch = q.pop(1).unwrap();
    assert_eq!(heights_of(&batch), vec![7]);
}

#[test]
fn filters_go_before_blocks() {
    let mut q = DownloadQueue::new();
    q.add(block(1));
    q.add(filter(10, 10));
    let batch = q.pop(5).unwrap();
    match &batch.kind {
        QueueBatchKind::Filter(range) => {
            assert_eq!(range.filter_type, 0);
            assert_eq!(range.start_height, 10);
            assert_eq!(range.stop_hash, hash(10));
        }
        QueueBatchKind::Block(_) => panic!("expected a filter batch"),
    }
    let batch = q.pop(5).unwrap();
    assert!(matches!(batch.kind, QueueBatchKind::Block(_)));
    assert_eq!(hashes_of(&batch), vec![hash(1)]);
}

#[test]
fn filter_batch_is_the_lowest_consecutive_run() {
    let mut q = DownloadQueue::new();
    // Added out of order, with a gap at 103.
    q.add(filter(102, 2));
    q.add(filter(100, 0));
    q.add(filter(104, 4));
    q.add(filter(101, 1));
    let batch = q.pop(10).unwrap();
    assert_eq!(heights_of(&batch), vec![100, 101, 102]);
    match &batch.kind {
        QueueBatchKind::Filter(range) => {
            assert_eq!(range.start_height, 100);
            assert_eq!(range.stop_hash, hash(2));
        }
        QueueBatchKind::Block(_) => panic!("expected a filter batch"),
    }
    let batch = q.pop(10).unwrap();
    assert_eq!(heights_of(&batch), vec![104]);
    assert!(!q.complete());
}

#[test]
fn filter_batch_respects_capacity() {
    let mut q = DownloadQueue::new();
    for h in 0..5u32 {
        q.add(filter(h, h as u8));
    }
    let batch = q.pop(3).unwrap();
    assert_eq!(heights_of(&batch), vec![0, 1, 2]);
    match &batch.kind {
        QueueBatchKind::Filter(range) => assert_eq!(range.stop_hash, hash(2)),
        QueueBatchKind::Block(_) => panic!("expected a filter batch"),
    }
    let batch = q.pop(3).unwrap();
    assert_eq!(heights_of(&batch), vec![3, 4]);
}

#[test]
fn filter_run_ends_at_the_highest_height() {
    let mut q = DownloadQueue::new();
    q.add(filter(u32::MAX - 1, 1));
    q.add(filter(u32::MAX, 2));
    let batch = q.pop(10).unwrap();
    assert_eq!(heights_of(&batch), vec![u32::MAX - 1, u32::MAX]);
    assert!(!q.complete());
}

#[test]
fn filter_add_keeps_or_replaces_by_height() {
    let mut q = DownloadQueue::new();
    q.add(filter(5, 1));
    // Same height, same hash: kept as is.
    q.add(filter(5, 1));
    // Same height, another hash: replaces.
    q.add(filter(5, 2));
    let batch = q.pop(10).unwrap();
    assert_eq!(hashes_of(&batch), vec![hash(2)]);

    let mut q = DownloadQueue::new();
    q.add(filter(5, 1));
    q.add(filter(6, 9));
    // Height 6 is taken and hash 1 is queued (at height 5): ignored.
    q.add(filter(6, 1));
    let batch = q.pop(10).unwrap();
    assert_eq!(hashes_of(&batch), vec![hash(1), hash(9)]);

    let mut q = DownloadQueue::new();
    q.add(filter(5, 1));
    // Height 7 is free: added even though hash 1 is queued.
    q.add(filter(7, 1));
    let batch = q.pop(10).unwrap();
    assert_eq!(heights_of(&batch), vec![5]);
    let batch = q.pop(10).unwrap();
    assert_eq!(heights_of(&batch), vec![7]);
}

#[test]
fn remove_drops_listed_hashes_everywhere() {
    let mut q = DownloadQueue::new();
    q.add(block(1));
    q.add(block(2));
    q.add(block(3));
    q.add(filter(10, 2));
    q.add(filter(11, 4));
    q.remove(&[hash(2), hash(8)]);
    assert!(q.contains_block(&hash(1)));
    assert!(!q.contains_block(&hash(2)));
    assert!(q.contains_block(&hash(3)));
    let batch = q.pop(10).unwrap();
    assert_eq!(heights_of(&batch), vec![11]);
    let batch = q.pop(10).unwrap();
    assert_eq!(hashes_of(&batch), vec![hash(1), hash(3)]);
    assert!(!q.complete());
}

#[test]
fn remove_everything_completes_the_queue() {
    let mut q = DownloadQueue::new();
    q.add(block(1));
    q.add(filter(3, 3));
    q.remove(&[hash(1), hash(3)]);
    assert!(q.complete());
    q.remove(&[hash(1), hash(3)]);
    assert!(q.complete());
}

#[test]
fn popped_batch_stays_in_flight_until_removed() {
    let mut q = DownloadQueue::new();
    q.add(filter(5, 5));
    let batch = q.pop(1).unwrap();
    assert_eq!(heights_of(&batch), vec![5]);
    // The batch is in flight: nothing queued, yet not complete.
    assert!(!q.complete());
    assert!(q.pop(1).is_none());
    // Another hash does not finish it.
    q.remove(&[hash(6)]);
    assert!(!q.complete());
    // Receiving its hash does.
    q.remove(&[hash(5)]);
    assert!(q.complete());
}

#[test]
fn every_popped_request_must_be_received() {
    let mut q = DownloadQueue::new();
    q.add(block(1));
    q.add(block(2));
    q.add(filter(9, 9));
    let first = q.pop(10).unwrap();
    let second = q.pop(10).unwrap();
    assert!(q.pop(10).is_none());
    let mut received = hashes_of(&first);
    received.extend(hashes_of(&second));
    q.remove(&received[..2]);
    assert!(!q.complete());
    q.remove(&received[2..]);
    assert!(q.complete());
}
