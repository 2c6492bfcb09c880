use busbridge::hub::Hub;
use busbridge::message::Message;

fn msg(subject: &str, payload: &str) -> Message {
    Message { subject: subject.to_string(), payload: payload.to_string() }
}

#[test]
fn fan_out_reaches_every_handle_exactly_once() {
    let mut hub = Hub::new(100);
    let a = hub.subscribe();
    let b = hub.subscribe();
    let c = hub.subscribe();
    hub.publish(msg("foo.bar", "hi"));
    for h in [a, b, c] {
        let got = hub.recv(h).expect("handle missed the publish");
        assert_eq!(got.subject, "foo.bar");
        assert_eq!(got.payload, "hi");
        assert!(hub.recv(h).is_none(), "handle yielded the message twice");
    }
}

#[test]
fn per_handle_order_is_publish_order() {
    let mut hub = Hub::new(100);
    let h = hub.subscribe();
    for i in 0..10 {
        hub.publish(msg("seq", &format!("{}", i)));
    }
    for i in 0..10 {
        let got = hub.recv(h).unwrap();
        assert_eq!(got.payload, format!("{}", i));
    }
    assert!(hub.recv(h).is_none());
}

#[test]
fn subscribe_does_not_replay_history() {
    let mut hub = Hub::new(100);
    hub.publish(msg("early", "gone"));
    let h = hub.subscribe();
    assert!(hub.recv(h).is_none());
    hub.publish(msg("late", "seen"));
    assert_eq!(hub.recv(h).unwrap().subject, "late");
}

#[test]
fn publish_with_zero_subscribers_is_a_no_op() {
    let mut hub = Hub::new(100);
    hub.publish(msg("nobody", "home"));
    let h = hub.subscribe();
    assert!(hub.recv(h).is_none());
}

#[test]
fn slow_consumer_does_not_block_other_handles() {
    let mut hub = Hub::new(100);
    let slow = hub.subscribe();
    let fast = hub.subscribe();
    for i in 0..150 {
        hub.publish(msg("s", &format!("{}", i)));
        // The fast handle keeps up and sees every message.
        assert_eq!(hub.recv(fast).unwrap().payload, format!("{}", i));
    }
    // The slow handle's buffer capped at 100 and evicted the oldest.
    assert_eq!(hub.recv(slow).unwrap().payload, "50");
}

#[test]
fn full_buffer_retains_the_most_recent_hundred_in_order() {
    let mut hub = Hub::new(100);
    let h = hub.subscribe();
    for i in 0..150 {
        hub.publish(msg("s", &format!("{}", i)));
    }
    let mut received = Vec::new();
    while let Some(m) = hub.recv(h) {
        received.push(m.payload);
    }
    assert_eq!(received.len(), 100);
    for (k, payload) in received.iter().enumerate() {
        assert_eq!(payload, &format!("{}", 50 + k));
    }
}

#[test]
fn eviction_is_per_handle_not_global() {
    let mut hub = Hub::new(2);
    let lagging = hub.subscribe();
    let current = hub.subscribe();
    hub.publish(msg("a", "1"));
    hub.publish(msg("b", "2"));
    assert_eq!(hub.recv(current).unwrap().subject, "a");
    assert_eq!(hub.recv(current).unwrap().subject, "b");
    hub.publish(msg("c", "3"));
    // `lagging` lost "a" to eviction; `current` still sees "c".
    assert_eq!(hub.recv(lagging).unwrap().subject, "b");
    assert_eq!(hub.recv(lagging).unwrap().subject, "c");
    assert_eq!(hub.recv(current).unwrap().subject, "c");
}
