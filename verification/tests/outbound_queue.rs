use yewchat::error::Backpressure;
use yewchat::queue::OutboundQueue;
use yewchat::websocket::{WebsocketService, OUTBOUND_CAPACITY, SERVER_ADDRESS};

#[test]
fn a_new_queue_is_empty() {
    let q = OutboundQueue::new(3);
    assert_eq!(q.len(), 0);
    assert_eq!(q.capacity(), 3);
    assert!(q.is_empty());
    assert!(!q.is_full());
    assert_eq!(q.front(), None);
}

#[test]
fn texts_leave_in_the_order_they_came() {
    let mut q = OutboundQueue::new(4);
    for text in ["a", "b", "c"] {
        assert_eq!(q.try_send(text.to_string()), Ok(()));
    }
    assert_eq!(q.len(), 3);
    assert_eq!(q.front(), Some(&"a".to_string()));
    assert_eq!(q.pop(), Some("a".to_string()));
    assert_eq!(q.pop(), Some("b".to_string()));
    assert_eq!(q.try_send("d".to_string()), Ok(()));
    assert_eq!(q.pop(), Some("c".to_string()));
    assert_eq!(q.pop(), Some("d".to_string()));
    assert_eq!(q.pop(), None);
    assert_eq!(q.pop(), None);
}

#[test]
fn a_full_queue_turns_the_next_text_away_and_keeps_its_own() {
    let mut q = OutboundQueue::new(3);
    for text in ["1", "2", "3"] {
        assert_eq!(q.try_send(text.to_string()), Ok(()));
    }
    assert!(q.is_full());
    assert_eq!(q.try_send("4".to_string()), Err(Backpressure));
    assert_eq!(q.try_send("5".to_string()), Err(Backpressure));
    assert_eq!(q.len(), 3);
    assert_eq!(q.pop(), Some("1".to_string()));
    assert_eq!(q.pop(), Some("2".to_string()));
    assert_eq!(q.pop(), Some("3".to_string()));
    assert_eq!(q.pop(), None);
}

#[test]
fn room_comes_back_when_a_text_leaves() {
    let mut q = OutboundQueue::new(1);
    assert_eq!(q.try_send("a".to_string()), Ok(()));
    assert_eq!(q.try_send("b".to_string()), Err(Backpressure));
    assert_eq!(q.pop(), Some("a".to_string()));
    assert_eq!(q.try_send("c".to_string()), Ok(()));
    assert_eq!(q.pop(), Some("c".to_string()));
}

#[test]
fn a_queue_without_room_takes_nothing() {
    let mut q = OutboundQueue::new(0);
    assert!(q.is_full());
    assert_eq!(q.try_send("a".to_string()), Err(Backpressure));
    assert_eq!(q.len(), 0);
}

#[test]
fn the_connection_queues_a_thousand_texts() {
    assert_eq!(OUTBOUND_CAPACITY, 1000);
    assert_eq!(SERVER_ADDRESS, "ws://[::1]:8080");
    let mut wss = WebsocketService::new();
    assert_eq!(wss.tx.capacity(), 1000);
    for i in 0..1000 {
        assert_eq!(wss.send(format!("text {}", i)), Ok(()));
    }
    assert_eq!(wss.send("one too many".to_string()), Err(Backpressure));
    assert_eq!(wss.tx.len(), 1000);
    for i in 0..1000 {
        assert_eq!(wss.next_outbound(), Some(format!("text {}", i)));
    }
    assert_eq!(wss.next_outbound(), None);
}
