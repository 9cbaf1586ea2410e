use omnirec::queue::{TranscriptionQueue, WorkerAction, MAX_QUEUE_SIZE};

struct QueuedSegment {
    samples: Vec<f32>,
    timestamp_secs: f64,
}

#[test]
fn test_queue_creation() {
    let queue: TranscriptionQueue<QueuedSegment> = TranscriptionQueue::new();
    assert_eq!(queue.queue_depth(), 0);
    assert!(!queue.is_worker_active());
}

#[test]
fn test_enqueue() {
    let mut queue = TranscriptionQueue::new();
    let segment = QueuedSegment { samples: vec![0.0; 1000], timestamp_secs: 0.0 };
    assert!(queue.enqueue(segment));
    assert_eq!(queue.queue_depth(), 1);
}

#[test]
fn test_queue_limit() {
    let mut queue = TranscriptionQueue::new();
    for i in 0..MAX_QUEUE_SIZE {
        let segment = QueuedSegment { samples: vec![0.0; 100], timestamp_secs: i as f64 };
        assert!(queue.enqueue(segment));
    }
    let segment = QueuedSegment { samples: vec![0.0; 100], timestamp_secs: 999.0 };
    assert!(!queue.enqueue(segment));
}

#[test]
fn segments_come_out_in_order() {
    let mut queue = TranscriptionQueue::new();
    queue.enqueue(QueuedSegment { samples: vec![1.0], timestamp_secs: 1.0 });
    queue.enqueue(QueuedSegment { samples: vec![2.0], timestamp_secs: 2.0 });
    let a = queue.dequeue().unwrap();
    let b = queue.dequeue().unwrap();
    assert_eq!(a.timestamp_secs, 1.0);
    assert_eq!(b.timestamp_secs, 2.0);
    assert_eq!(b.samples, vec![2.0]);
    assert!(queue.dequeue().is_none());
}

#[test]
fn worker_drains_before_exiting() {
    let mut queue = TranscriptionQueue::new();
    assert!(queue.start_worker());
    assert!(!queue.start_worker());
    assert!(matches!(queue.next_action(), WorkerAction::Wait));
    queue.enqueue(7u32);
    queue.stop_worker();
    match queue.next_action() {
        WorkerAction::Process(v) => assert_eq!(v, 7),
        _ => panic!("expected a segment"),
    }
    queue.record_processed();
    assert_eq!(queue.segments_processed(), 1);
    assert!(matches!(queue.next_action(), WorkerAction::Exit));
}

#[test]
fn clear_discards_pending_segments() {
    let mut queue = TranscriptionQueue::new();
    queue.enqueue(1u8);
    queue.enqueue(2u8);
    queue.clear();
    assert_eq!(queue.queue_depth(), 0);
}
