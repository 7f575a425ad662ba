use yewchat::event_bus::{Delivery, EventBus};

#[test]
fn a_new_bus_has_no_subscribers() {
    let bus = EventBus::new();
    assert_eq!(bus.len(), 0);
    assert_eq!(bus.publish("text"), Vec::<Delivery>::new());
}

#[test]
fn every_subscriber_is_told_in_the_order_of_signing_up() {
    let mut bus = EventBus::new();
    let a = bus.subscribe().expect("a handle");
    let b = bus.subscribe().expect("a handle");
    let c = bus.subscribe().expect("a handle");
    assert!(a != b && b != c && a != c);
    assert_eq!(
        bus.publish("hello"),
        vec![
            Delivery { to: a, text: "hello".to_string() },
            Delivery { to: b, text: "hello".to_string() },
            Delivery { to: c, text: "hello".to_string() },
        ]
    );
}

#[test]
fn each_publish_is_delivered_once_to_each() {
    let mut bus = EventBus::new();
    let a = bus.subscribe().expect("a handle");
    for text in ["one", "two"] {
        assert_eq!(bus.publish(text), vec![Delivery { to: a, text: text.to_string() }]);
    }
}

#[test]
fn a_subscriber_that_signed_off_is_told_no_more() {
    let mut bus = EventBus::new();
    let a = bus.subscribe().expect("a handle");
    let b = bus.subscribe().expect("a handle");
    let c = bus.subscribe().expect("a handle");
    assert!(bus.unsubscribe(b));
    assert!(!bus.is_subscribed(b));
    assert!(bus.is_subscribed(a));
    assert!(bus.is_subscribed(c));
    assert_eq!(bus.len(), 2);
    assert_eq!(
        bus.publish("x"),
        vec![
            Delivery { to: a, text: "x".to_string() },
            Delivery { to: c, text: "x".to_string() },
        ]
    );
}

#[test]
fn signing_off_twice_changes_nothing_more() {
    let mut bus = EventBus::new();
    let a = bus.subscribe().expect("a handle");
    let b = bus.subscribe().expect("a handle");
    assert!(bus.unsubscribe(a));
    assert!(!bus.unsubscribe(a));
    assert_eq!(bus.publish("x"), vec![Delivery { to: b, text: "x".to_string() }]);
}

#[test]
fn a_handle_is_not_given_out_again() {
    let mut bus = EventBus::new();
    let a = bus.subscribe().expect("a handle");
    assert!(bus.unsubscribe(a));
    let b = bus.subscribe().expect("a handle");
    assert!(a != b);
    assert!(!bus.is_subscribed(a));
    assert!(bus.is_subscribed(b));
}

#[test]
fn a_late_subscriber_joins_at_the_end() {
    let mut bus = EventBus::new();
    let a = bus.subscribe().expect("a handle");
    let b = bus.subscribe().expect("a handle");
    assert!(bus.unsubscribe(a));
    let c = bus.subscribe().expect("a handle");
    assert_eq!(
        bus.publish("x"),
        vec![
            Delivery { to: b, text: "x".to_string() },
            Delivery { to: c, text: "x".to_string() },
        ]
    );
}
