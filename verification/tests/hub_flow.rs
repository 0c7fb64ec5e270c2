use sse_chat::Event;
use sse_chat::IdAllocator;
use sse_chat::Registry;
use sse_chat::Subscription;

fn connect(reg: &mut Registry, alloc: &mut IdAllocator) -> Subscription {
    reg.subscribe(alloc).expect("a fresh channel accepts its identity event")
}

fn expect_identity(sub: &mut Subscription, want: u64) {
    match sub.rx.try_recv() {
        Ok(Event::Identity(id)) => assert_eq!(id, want),
        other => panic!("expected the identity announcement, got {:?}", other),
    }
}

fn expect_reply(sub: &mut Subscription, want: &str) {
    match sub.rx.try_recv() {
        Ok(Event::Reply(text)) => assert_eq!(text, want),
        other => panic!("expected a reply, got {:?}", other),
    }
}

fn expect_nothing(sub: &mut Subscription) {
    assert!(sub.rx.try_recv().is_err());
}

#[test]
fn identity_is_first_and_distinct() {
    let mut reg = Registry::new();
    let mut alloc = IdAllocator::new();
    let mut a = connect(&mut reg, &mut alloc);
    let mut b = connect(&mut reg, &mut alloc);
    let mut c = connect(&mut reg, &mut alloc);
    assert_eq!(a.id, 1);
    assert_eq!(b.id, 2);
    assert_eq!(c.id, 3);
    expect_identity(&mut a, 1);
    expect_identity(&mut b, 2);
    expect_identity(&mut c, 3);
    expect_nothing(&mut a);
    assert_eq!(reg.len(), 3);
}

#[test]
fn publish_reaches_everyone_but_the_publisher() {
    let mut reg = Registry::new();
    let mut alloc = IdAllocator::new();
    let mut a = connect(&mut reg, &mut alloc);
    let mut b = connect(&mut reg, &mut alloc);
    let mut c = connect(&mut reg, &mut alloc);
    reg.publish(a.id, "hello");
    expect_identity(&mut a, 1);
    expect_nothing(&mut a);
    expect_identity(&mut b, 2);
    expect_reply(&mut b, "<User#1>: hello");
    expect_nothing(&mut b);
    expect_identity(&mut c, 3);
    expect_reply(&mut c, "<User#1>: hello");
    expect_nothing(&mut c);
}

#[test]
fn publish_with_only_the_publisher_has_no_effect() {
    let mut reg = Registry::new();
    let mut alloc = IdAllocator::new();
    let mut a = connect(&mut reg, &mut alloc);
    reg.publish(a.id, "anyone there?");
    assert_eq!(reg.len(), 1);
    assert!(reg.contains(a.id));
    expect_identity(&mut a, 1);
    expect_nothing(&mut a);
}

#[test]
fn publish_with_nobody_registered_is_harmless() {
    let mut reg = Registry::new();
    reg.publish(99, "void");
    assert_eq!(reg.len(), 0);
}

#[test]
fn dead_subscriber_is_evicted_on_next_publish() {
    let mut reg = Registry::new();
    let mut alloc = IdAllocator::new();
    let mut a = connect(&mut reg, &mut alloc);
    let b = connect(&mut reg, &mut alloc);
    let b_id = b.id;
    drop(b);
    assert!(reg.contains(b_id));
    reg.publish(a.id, "ping");
    assert!(!reg.contains(b_id));
    assert_eq!(reg.len(), 1);
    reg.publish(a.id, "ping again");
    assert_eq!(reg.len(), 1);
    expect_identity(&mut a, 1);
    expect_nothing(&mut a);
}

#[test]
fn each_publisher_reaches_all_others_exactly_once() {
    let mut reg = Registry::new();
    let mut alloc = IdAllocator::new();
    let mut subs = Vec::new();
    for _ in 0..4 {
        subs.push(connect(&mut reg, &mut alloc));
    }
    for p in 1u64..=4 {
        reg.publish(p, "round");
    }
    for sub in subs.iter_mut() {
        let own = sub.id;
        expect_identity(sub, own);
        for p in 1u64..=4 {
            if p != own {
                let want = format!("<User#{}>: round", p);
                expect_reply(sub, &want);
            }
        }
        expect_nothing(sub);
    }
}

#[test]
fn end_to_end_chat_session() {
    let mut reg = Registry::new();
    let mut alloc = IdAllocator::new();

    let mut a = connect(&mut reg, &mut alloc);
    expect_identity(&mut a, 1);

    let mut b = connect(&mut reg, &mut alloc);
    expect_identity(&mut b, 2);

    reg.publish(a.id, "hi");
    expect_reply(&mut b, "<User#1>: hi");
    expect_nothing(&mut b);
    expect_nothing(&mut a);

    let b_id = b.id;
    drop(b);
    reg.publish(a.id, "still here");
    assert!(!reg.contains(b_id));
    assert!(reg.contains(a.id));
    expect_nothing(&mut a);
}
