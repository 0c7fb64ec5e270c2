use sse_chat::keep_alive_frame;
use sse_chat::Encoder;
use sse_chat::Event;

#[test]
fn announcement_then_replies() {
    let mut enc = Encoder::new();
    let frame = enc.encode(&Event::Identity(7)).expect("the first event is announced");
    assert_eq!(frame, "event: user\ndata: 7\n\n");
    let frame = enc.encode(&Event::Reply(String::from("<User#2>: yo"))).expect("replies stream");
    assert_eq!(frame, "data: <User#2>: yo\n\n");
    let frame = enc.encode(&Event::Reply(String::from("<User#3>: hi"))).expect("replies stream");
    assert_eq!(frame, "data: <User#3>: hi\n\n");
}

#[test]
fn out_of_order_events_are_refused() {
    let mut enc = Encoder::new();
    assert!(enc.encode(&Event::Reply(String::from("early"))).is_none());
    assert!(enc.encode(&Event::Identity(1)).is_some());
    assert!(enc.encode(&Event::Identity(1)).is_none());
    assert!(enc.encode(&Event::Reply(String::from("late"))).is_some());
}

#[test]
fn keep_alive_is_a_comment_frame() {
    assert_eq!(keep_alive_frame(), ":\n\n");
}
