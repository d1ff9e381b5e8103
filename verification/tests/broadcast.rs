use p2p_rt::shared::SharedBuffer;
use p2p_rt::shared::SharedStream;
use p2p_rt::shared::WaiterSet;
use p2p_rt::shared::DEFAULT_CAPACITY;

#[test]
fn single_reader_sees_all_in_order() {
    let mut buf: SharedBuffer<u64> = SharedBuffer::new(8);
    let mut reader = SharedStream::new(&buf);
    for item in [3u64, 1, 4, 1, 5] {
        buf.publish(item);
    }
    let mut seen: Vec<u64> = Vec::new();
    while let Some(item) = buf.poll_receive(&mut reader) {
        seen.push(*item);
    }
    assert_eq!(seen, vec![3, 1, 4, 1, 5]);
    assert!(buf.poll_receive(&mut reader).is_none());
}

#[test]
fn batch_commit_matches_item_by_item() {
    let mut buf: SharedBuffer<u32> = SharedBuffer::new(DEFAULT_CAPACITY);
    let mut reader = SharedStream::new(&buf);
    buf.publish_all(vec![10, 20, 30]);
    assert_eq!(buf.poll_receive(&mut reader).copied(), Some(10));
    assert_eq!(buf.poll_receive(&mut reader).copied(), Some(20));
    assert_eq!(buf.poll_receive(&mut reader).copied(), Some(30));
    assert!(buf.poll_receive(&mut reader).is_none());
}

#[test]
fn two_early_readers_agree() {
    let mut buf: SharedBuffer<i32> = SharedBuffer::new(16);
    let mut a = SharedStream::new(&buf);
    let mut b = SharedStream::new(&buf);
    for item in [7, -2, 9, 0] {
        buf.publish(item);
    }
    let mut seen_a: Vec<i32> = Vec::new();
    let mut seen_b: Vec<i32> = Vec::new();
    while let Some(item) = buf.poll_receive(&mut a) {
        seen_a.push(*item);
    }
    while let Some(item) = buf.poll_receive(&mut b) {
        seen_b.push(*item);
    }
    assert_eq!(seen_a, seen_b);
    assert_eq!(seen_a, vec![7, -2, 9, 0]);
}

#[test]
fn late_reader_starts_at_attach_point() {
    let mut buf: SharedBuffer<u64> = SharedBuffer::new(8);
    buf.publish(100);
    buf.publish(200);
    let mut late = SharedStream::attach(&buf);
    assert!(buf.poll_receive(&mut late).is_none());
    buf.publish(300);
    assert_eq!(buf.poll_receive(&mut late).copied(), Some(300));
    assert!(buf.poll_receive(&mut late).is_none());
}

#[test]
fn repair_injects_like_a_pulled_item() {
    let mut buf: SharedBuffer<u8> = SharedBuffer::new(4);
    let mut reader = SharedStream::new(&buf);
    buf.publish(1);
    buf.repair(2);
    assert_eq!(buf.poll_receive(&mut reader).copied(), Some(1));
    assert_eq!(buf.poll_receive(&mut reader).copied(), Some(2));
}

#[test]
fn lagging_past_capacity_is_silently_overwritten() {
    let mut buf: SharedBuffer<u64> = SharedBuffer::new(2);
    let mut reader = SharedStream::new(&buf);
    buf.publish(1);
    buf.publish(2);
    buf.publish(3);
    // The reader lagged three items behind a two-slot ring: its slot now
    // holds the third item and the first two are gone, with no signal.
    assert_eq!(buf.poll_receive(&mut reader).copied(), Some(3));
}

#[test]
fn lag_of_exactly_capacity_looks_caught_up() {
    let mut buf: SharedBuffer<u64> = SharedBuffer::new(2);
    let mut reader = SharedStream::new(&buf);
    buf.publish(1);
    buf.publish(2);
    // Cursor positions coincide after exactly one full ring, so the fast
    // path reports not-ready even though both slots hold items.
    assert!(buf.poll_receive(&mut reader).is_none());
}

#[test]
fn parked_readers_are_all_taken_for_waking() {
    let mut waiters: WaiterSet<u32> = WaiterSet::new();
    waiters.push_waker(1);
    waiters.push_waker(2);
    assert_eq!(waiters.take_all(), vec![1, 2]);
    assert_eq!(waiters.take_all(), Vec::<u32>::new());
}
