use ddbstream::event::{EventKind, OutboundEvent};
use ddbstream::registry::Registry;

fn data_event(text: &str) -> OutboundEvent {
    OutboundEvent::broadcast(text.to_string())
}

#[test]
fn subscriber_receives_every_event_in_order() {
    let mut reg = Registry::new();
    let mut rx = reg.subscribe();
    for i in 0..5 {
        let outcome = reg.broadcast(&data_event(&format!("e{}", i)));
        assert_eq!(outcome, vec![true]);
    }
    for i in 0..5 {
        let ev = rx.try_recv().unwrap();
        assert_eq!(ev.kind, EventKind::Broadcast);
        assert_eq!(ev.data, format!("e{}", i));
    }
    assert!(rx.try_recv().is_err());
    assert_eq!(reg.len(), 1);
}

#[test]
fn closed_subscriber_is_removed_after_one_pass() {
    let mut reg = Registry::new();
    let mut live = reg.subscribe();
    let gone = reg.subscribe();
    let mut last = reg.subscribe();
    drop(gone);
    assert_eq!(reg.len(), 3);
    let outcome = reg.broadcast(&data_event("x"));
    assert_eq!(outcome, vec![true, false, true]);
    assert_eq!(reg.len(), 2);
    let outcome = reg.broadcast(&data_event("y"));
    assert_eq!(outcome, vec![true, true]);
    assert_eq!(live.try_recv().unwrap().data, "x");
    assert_eq!(live.try_recv().unwrap().data, "y");
    assert_eq!(last.try_recv().unwrap().data, "x");
    assert_eq!(last.try_recv().unwrap().data, "y");
}

#[test]
fn full_subscriber_is_removed_and_gets_nothing_more() {
    let mut reg = Registry::new();
    let mut slow = reg.subscribe();
    let mut fast = reg.subscribe();
    for i in 0..128 {
        let outcome = reg.broadcast(&data_event(&format!("{}", i)));
        assert_eq!(outcome, vec![true, true]);
        assert_eq!(fast.try_recv().unwrap().data, format!("{}", i));
    }
    let outcome = reg.broadcast(&data_event("overflow"));
    assert_eq!(outcome, vec![false, true]);
    assert_eq!(reg.len(), 1);
    assert_eq!(reg.broadcast(&data_event("after")), vec![true]);
    for i in 0..128 {
        assert_eq!(slow.try_recv().unwrap().data, format!("{}", i));
    }
    assert!(slow.try_recv().is_err());
    assert_eq!(fast.try_recv().unwrap().data, "overflow");
    assert_eq!(fast.try_recv().unwrap().data, "after");
}

#[test]
fn broadcast_on_empty_registry_does_nothing() {
    let mut reg = Registry::new();
    assert_eq!(reg.len(), 0);
    assert!(reg.broadcast(&data_event("x")).is_empty());
    assert_eq!(reg.len(), 0);
}

#[test]
fn subscriber_registered_after_a_pass_gets_none_of_it() {
    let mut reg = Registry::new();
    let mut first = reg.subscribe();
    reg.broadcast(&data_event("before"));
    let mut second = reg.subscribe();
    assert!(second.try_recv().is_err());
    reg.broadcast(&data_event("after"));
    assert_eq!(first.try_recv().unwrap().data, "before");
    assert_eq!(first.try_recv().unwrap().data, "after");
    assert_eq!(second.try_recv().unwrap().data, "after");
    assert!(second.try_recv().is_err());
}

#[test]
fn heartbeat_sends_ping_and_prunes() {
    let mut reg = Registry::new();
    let mut rx = reg.subscribe();
    let dead = reg.subscribe();
    drop(dead);
    assert_eq!(reg.heartbeat(), vec![true, false]);
    assert_eq!(reg.len(), 1);
    let ev = rx.try_recv().unwrap();
    assert_eq!(ev.kind, EventKind::Ping);
    assert_eq!(ev.data, "");
    assert_eq!(ev.kind_name(), "ping");
}

#[test]
fn heartbeats_do_not_disturb_data_delivery() {
    let mut reg = Registry::new();
    let mut rx = reg.subscribe();
    reg.broadcast(&data_event("a"));
    reg.heartbeat();
    reg.broadcast(&data_event("b"));
    let kinds: Vec<(EventKind, String)> = (0..3)
        .map(|_| {
            let e = rx.try_recv().unwrap();
            (e.kind, e.data)
        })
        .collect();
    assert_eq!(
        kinds,
        vec![
            (EventKind::Broadcast, "a".to_string()),
            (EventKind::Ping, String::new()),
            (EventKind::Broadcast, "b".to_string()),
        ]
    );
}

#[test]
fn registered_sender_is_used() {
    let mut reg = Registry::new();
    let (tx, mut rx) = tokio::sync::mpsc::channel(4);
    reg.register(tx);
    assert_eq!(reg.len(), 1);
    reg.broadcast(&data_event("z"));
    assert_eq!(rx.try_recv().unwrap().data, "z");
}

#[test]
fn event_helpers() {
    let e = OutboundEvent::broadcast("d".to_string());
    assert_eq!(e.kind_name(), "broadcast");
    let c = e.duplicate();
    assert_eq!(c.kind, EventKind::Broadcast);
    assert_eq!(c.data, "d");
    let p = OutboundEvent::ping();
    assert_eq!(p.data, "");
}
