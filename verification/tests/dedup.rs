use midair_proto::dedup::{RepeatQueue, SeenTable, REPEAT_SLOTS, SEEN_SLOTS};
use midair_proto::lora::FRAME_MAX;

#[test]
fn a_frame_is_new_once_and_seen_until_the_ttl() {
    let mut t: SeenTable<SEEN_SLOTS> = SeenTable::new(3_000);
    assert!(!t.mark(1, 7, 1_000));
    assert!(t.mark(1, 7, 1_500));
    assert!(t.contains(1, 7, 1_500));
    // Seen again at 1500, so the TTL runs from there.
    assert!(t.mark(1, 7, 4_400));
    assert!(!t.mark(1, 7, 7_400));
    // Another id from the same node is another frame.
    assert!(!t.mark(1, 8, 7_400));
    assert_eq!(t.len(), 2);
}

#[test]
fn a_full_table_gives_up_the_oldest() {
    let mut t: SeenTable<SEEN_SLOTS> = SeenTable::new(60_000);
    for i in 0..SEEN_SLOTS as u8 {
        assert!(!t.mark(i, 0, u64::from(i) * 100));
    }
    assert_eq!(t.len(), SEEN_SLOTS);
    // Node 0 at t=0 is the oldest and makes way.
    assert!(!t.mark(200, 0, 10_000));
    assert!(!t.contains(0, 0, 10_000));
    assert!(t.contains(1, 0, 10_000));
    assert!(t.contains(200, 0, 10_000));
}

#[test]
fn a_reset_forgets_everything() {
    let mut t: SeenTable<SEEN_SLOTS> = SeenTable::new(3_000);
    t.mark(1, 1, 0);
    t.reset(5_000);
    assert!(t.is_empty());
    assert_eq!(t.ttl_ms(), 5_000);
    assert!(!t.mark(1, 1, 0));
}

#[test]
fn repeats_come_out_earliest_due_first_and_only_when_due() {
    let mut q: RepeatQueue<REPEAT_SLOTS> = RepeatQueue::new();
    assert!(q.push(&[1, 2, 3], 500));
    assert!(q.push(&[4, 5], 200));
    assert!(!q.due(100));
    assert!(q.due(200));
    let (buf, len) = q.take_due(300).unwrap();
    assert_eq!(&buf[..len], &[4, 5]);
    assert!(q.take_due(300).is_none());
    let (buf, len) = q.take_due(500).unwrap();
    assert_eq!(&buf[..len], &[1, 2, 3]);
    assert!(q.is_empty());
}

#[test]
fn a_full_queue_drops_rather_than_overwrites() {
    let mut q: RepeatQueue<REPEAT_SLOTS> = RepeatQueue::new();
    for i in 0..REPEAT_SLOTS as u8 {
        assert!(q.push(&[i], 0));
    }
    assert!(!q.push(&[99], 0));
    assert_eq!(q.len(), REPEAT_SLOTS);
    assert!(!q.push(&[], 0), "an empty frame is not a frame");
    assert!(!q.push(&[0; FRAME_MAX + 1], 0), "nor is one too long");
    q.clear();
    assert!(q.is_empty());
}

/// With room to spare a mark pushes nothing out, and an expired slot is room.
#[test]
fn a_mark_with_room_forgets_nothing() {
    let mut t: SeenTable<2> = SeenTable::new(1_000);
    assert!(!t.mark(1, 1, 0));
    assert!(!t.mark(2, 2, 500));
    // The first has expired by now, so the third takes its slot.
    assert!(!t.mark(3, 3, 1_200));
    assert!(t.contains(2, 2, 1_200));
    assert!(t.contains(3, 3, 2_199));
    assert!(!t.contains(3, 3, 2_200));
    assert!(!t.contains(1, 1, 1_200));
}

/// Two frames due at the same moment leave in slot order, and a frame is not
/// held back by one that is not due.
#[test]
fn frames_due_together_leave_in_slot_order() {
    let mut q: RepeatQueue<3> = RepeatQueue::new();
    assert!(q.push(&[1], 100));
    assert!(q.push(&[2], 100));
    assert!(q.push(&[3], 900));
    let (buf, len) = q.take_due(100).unwrap();
    assert_eq!(&buf[..len], &[1]);
    let (buf, len) = q.take_due(100).unwrap();
    assert_eq!(&buf[..len], &[2]);
    assert!(q.take_due(899).is_none());
    assert_eq!(q.len(), 1);
}
