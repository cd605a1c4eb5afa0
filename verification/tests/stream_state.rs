use aili::tui::stream_state::StreamState;

#[test]
fn drain_all_flushes_tokens_before_ready_threshold() {
    let mut stream = StreamState::new();
    stream.enqueue("你的吗".to_string(), 1_000);
    assert!(!stream.ready(1_000));
    assert_eq!(stream.drain_all(), "你的吗");
    assert!(!stream.has_pending());
}

#[test]
fn many_tokens_are_due_at_once() {
    let mut stream = StreamState::new();
    for i in 0..15 {
        stream.enqueue(format!("{i},"), i);
    }
    assert!(!stream.ready(14));
    assert!(stream.ready(80_000_000));
    assert!(!stream.ready(79_999_999));
    stream.enqueue("15".to_string(), 15);
    assert!(stream.ready(15) && stream.ready(0));
    assert_eq!(stream.drain_pending(), "0,1,2,3,4,5,6,7,8,9,10,11,12,13,14,15");
    assert!(!stream.ready(15) && !stream.ready(u64::MAX));
    assert_eq!(stream.drain_all(), "");
}

#[test]
fn an_old_token_is_due() {
    let mut stream = StreamState::new();
    stream.enqueue("x".to_string(), 500);
    stream.enqueue("y".to_string(), 80_000_499);
    assert!(!stream.ready(80_000_499));
    assert!(stream.ready(80_000_500));
    assert!(stream.has_pending());
    assert_eq!(stream.drain_all(), "xy");
}

#[test]
fn a_token_from_later_is_not_due() {
    let mut stream = StreamState::new();
    stream.enqueue("x".to_string(), 100_000_000);
    assert!(!stream.ready(0));
}

#[test]
fn batches_keep_the_order() {
    let mut stream = StreamState::new();
    stream.enqueue("a".to_string(), 0);
    stream.enqueue("b".to_string(), 0);
    let first = stream.drain_all();
    stream.enqueue("c".to_string(), 1);
    assert_eq!(first + &stream.drain_all(), "abc");
}
