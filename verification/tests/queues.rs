//! Queues ordered by time, bounded queues and statistics.

use cacophony::connection::frames::FrameReceives;
use cacophony::connection::waits::MediaReadyWaits;
use cacophony::connection::ReadyFrameQueue;
use cacophony::dave::DaveMediaStatus;
use cacophony::errors::Error;
use cacophony::media::NoRawPackets;
use cacophony::queue::{BoundedDeque, DeadlineQueue, DeadlineSet, PendingRequestQueue};
use cacophony::state::{DaveMlsState, DavePendingMlsState};
use cacophony::stats::{DurationStats, SlidingStats};
use cacophony::time::{Duration, Instant};

fn at(millis: u64) -> Instant {
    Instant::from_nanos(1_000_000_000).plus(Duration::from_millis(millis))
}

#[test]
fn deadline_queue_preserves_duplicate_entries() {
    let now = at(0);
    let mut queue = DeadlineQueue::new();

    queue.push(7, now);
    queue.push(7, now);

    assert_eq!(queue.pop_expired(now), Some(7));
    assert_eq!(queue.pop_expired(now), Some(7));
    assert_eq!(queue.pop_expired(now), None);
}

#[test]
fn deadline_set_replaces_existing_key_deadline() {
    let mut set = DeadlineSet::new();

    set.insert(7, at(10));
    set.insert(7, at(20));

    assert_eq!(set.next_deadline(), Some(at(20)));
    assert_eq!(set.pop_expired(at(10)), None);
    assert_eq!(set.pop_expired(at(20)), Some(7));
    assert_eq!(set.pop_expired(at(20)), None);
}

#[test]
fn first_due_comes_first() {
    let mut queue = DeadlineQueue::new();
    queue.push(1, at(30));
    queue.push(2, at(10));
    queue.push(3, at(20));
    queue.push(4, at(10));
    assert_eq!(queue.len(), 4);
    assert_eq!(queue.next_deadline(), Some(at(10)));
    assert_eq!(queue.drain_expired(at(20)), vec![2, 4, 3]);
    assert_eq!(queue.pop_expired(at(29)), None);
    assert_eq!(queue.drain_all(), vec![1]);
    assert_eq!(queue.next_deadline(), None);
}

#[test]
fn deadline_set_forgets_removed_keys() {
    let mut set = DeadlineSet::new();
    set.insert(1, at(10));
    set.insert(2, at(5));
    assert!(set.remove(2));
    assert!(!set.remove(2));
    assert_eq!(set.next_deadline(), Some(at(10)));
    set.clear();
    assert_eq!(set.next_deadline(), None);
}

#[test]
fn requests_keep_their_order_and_deadlines() {
    let mut queue = PendingRequestQueue::new();
    queue.push_back(1, Some(at(30)));
    queue.push_back(2, None);
    queue.push_front(3, Some(at(10)));
    queue.push_back(4, Some(at(20)));
    assert_eq!(queue.next_deadline(), Some(at(10)));
    queue.discard(2);
    assert_eq!(queue.pop_expired(at(15)), Some(3));
    assert_eq!(queue.pop_expired(at(15)), None);
    assert_eq!(queue.pop_front(), Some(1));
    assert_eq!(queue.next_deadline(), Some(at(20)));
    assert_eq!(queue.take_all(), vec![4]);
    assert!(queue.is_empty());
    assert_eq!(queue.next_deadline(), None);
}

#[test]
fn bounded_queue_drops_the_oldest_item() {
    let mut queue = BoundedDeque::new(2);
    assert_eq!(queue.push_back(1), None);
    assert!(queue.has_capacity());
    assert_eq!(queue.push_back(2), None);
    assert!(!queue.has_capacity());
    assert_eq!(queue.push_back(3), Some(1));
    assert_eq!(queue.len(), 2);
    assert_eq!(queue.pop_front(), Some(2));
}

#[test]
fn percentiles_are_samples() {
    let mut stats = SlidingStats::new(4);
    assert!(stats.is_empty());
    assert_eq!(stats.percentile(95), None);
    for value in [9, 1, 5, 3, 7] {
        stats.observe(value);
    }
    // The oldest sample has left: 1, 5, 3 and 7 are kept.
    assert_eq!(stats.len(), 4);
    assert_eq!(stats.percentile(0), Some(1));
    assert_eq!(stats.percentile(50), Some(3));
    assert_eq!(stats.percentile(95), Some(5));
    assert_eq!(stats.percentile(100), Some(7));
    assert_eq!(stats.max(), Some(7));
}

#[test]
fn durations_are_summed_up() {
    let mut stats = DurationStats::new();
    for millis in [10, 20, 60] {
        stats.observe(Duration::from_millis(millis));
    }
    let distribution = stats.finish();
    assert_eq!(distribution.count, 3);
    assert_eq!(distribution.min, Some(Duration::from_millis(10)));
    assert_eq!(distribution.avg, Some(Duration::from_millis(30)));
    assert_eq!(distribution.p95, Some(Duration::from_millis(20)));
    assert_eq!(distribution.max, Some(Duration::from_millis(60)));
    let empty = DurationStats::new().finish();
    assert_eq!((empty.count, empty.min, empty.avg), (0, None, None));
}

fn status(media_ready: bool) -> DaveMediaStatus {
    DaveMediaStatus {
        requires_dave: true,
        active_send_protocol_version: None,
        active_receive_protocol_version: None,
        media_ready,
        session_ready: media_ready,
        send_ready: media_ready,
        transition_ready: None,
        protocol_version: Some(1),
        transition_id: None,
        mls: DaveMlsState {
            external_sender: false,
            pending: DavePendingMlsState {
                proposals: 0,
                commit: false,
                welcome: false,
            },
        },
    }
}

#[test]
fn nobody_waits_for_the_session_too_long() {
    let mut waits = MediaReadyWaits::new();
    waits.push(1, Duration::from_millis(10), at(0));
    waits.push(2, Duration::from_millis(30), at(0));
    assert_eq!(waits.next_deadline(), Some(at(10)));
    assert!(waits.resolve(status(false), at(9)).is_empty());
    let late = waits.resolve(status(false), at(10));
    assert_eq!(late.len(), 1);
    assert_eq!(late[0].0, 1);
    assert!(matches!(
        late[0].1,
        Err(Error::Timeout { stage: None, duration }) if duration == Duration::from_millis(10)
    ));
    let ready = waits.resolve(status(true), at(11));
    assert_eq!(ready.len(), 1);
    assert_eq!(ready[0].0, 2);
    assert_eq!(ready[0].1.as_ref().unwrap(), &status(true));
    waits.push(3, Duration::from_millis(10), at(20));
    assert_eq!(waits.take_closed(), vec![3]);
    assert_eq!(waits.next_deadline(), None);
}

#[test]
fn frame_receives_expire_in_order_of_their_deadlines() {
    let mut receives = FrameReceives::new();
    let mut ready = ReadyFrameQueue::<NoRawPackets>::new(4);
    receives.push(1, 1200, None, at(0));
    receives.push(2, 1200, Some(Duration::from_millis(5)), at(0));
    receives.push(3, 1200, Some(Duration::from_millis(9)), at(0));
    assert_eq!(receives.next_deadline(), Some(at(5)));
    assert!(receives.give(&mut ready).is_none());
    let (id, error) = receives.pop_expired(at(6)).unwrap();
    assert_eq!(id, 2);
    assert!(matches!(
        error,
        Error::Timeout { stage: None, duration } if duration == Duration::from_millis(5)
    ));
    assert!(receives.pop_expired(at(6)).is_none());
    ready.push(Err(Error::Closed), false);
    let (id, result) = receives.give(&mut ready).unwrap();
    assert_eq!(id, 1);
    assert!(matches!(result, Err(Error::Closed)));
    receives.discard(3);
    assert!(receives.is_empty());
    receives.push(4, 1, None, at(0));
    assert_eq!(receives.take_closed(), vec![4]);
}
