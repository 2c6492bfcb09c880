use busbridge::hub::Hub;
use busbridge::message::Message;
use busbridge::session::{format_frame, session_frame};

fn msg(subject: &str, payload: &str) -> Message {
    Message { subject: subject.to_string(), payload: payload.to_string() }
}

#[test]
fn wire_format_is_the_exact_literal_shape() {
    let m = msg("foo.bar", "hi");
    assert_eq!(format_frame(&m), "Subject: foo.bar, Payload: hi");
}

#[test]
fn wire_format_does_not_escape_commas_or_colons() {
    let m = msg("a.b", "x: 1, y: 2");
    assert_eq!(format_frame(&m), "Subject: a.b, Payload: x: 1, y: 2");
}

#[test]
fn end_to_end_two_handles_and_two_filters() {
    let mut hub = Hub::new(100);
    let a = hub.subscribe();
    let b = hub.subscribe();
    hub.publish(msg("foo.bar", "hi"));

    let got_a = hub.recv(a).expect("handle A missed the publish");
    let got_b = hub.recv(b).expect("handle B missed the publish");
    assert_eq!(got_a.subject, "foo.bar");
    assert_eq!(got_a.payload, "hi");
    assert_eq!(got_b.subject, "foo.bar");
    assert_eq!(got_b.payload, "hi");

    assert_eq!(
        session_frame("foo.*", &got_a),
        Some("Subject: foo.bar, Payload: hi".to_string())
    );
    assert_eq!(session_frame("baz.>", &got_b), None);
}

#[test]
fn catch_all_session_forwards_everything() {
    let m = msg("any.subject.at.all", "p");
    assert_eq!(
        session_frame(">", &m),
        Some("Subject: any.subject.at.all, Payload: p".to_string())
    );
}

#[test]
fn non_matching_filter_forwards_nothing() {
    let m = msg("foo.bar", "hi");
    assert_eq!(session_frame("foo", &m), None);
    assert_eq!(session_frame("foo.bar.baz", &m), None);
}
