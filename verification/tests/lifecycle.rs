use ws_core::message::Message;
use ws_core::receive::{ReadAction, ReadEvent};
use ws_core::send::{SendAction, SendPhase};
use ws_core::server::ServerCore;

fn text(s: &str) -> Message {
    Message::Text(s.to_string())
}

#[test]
fn rejected_connection_is_not_routed() {
    let mut core: ServerCore<String> = ServerCore::new();
    let slot = core.accept(None);
    assert!(!core.is_routed(slot));
}

#[test]
fn approved_connection_keeps_its_identity() {
    let mut core: ServerCore<String> = ServerCore::new();
    let slot = core.accept(Some("alpha".to_string()));
    assert!(core.is_routed(slot));
    assert_eq!(core.identity(slot), "alpha");
    core.reader_event(slot, ReadEvent::Frame(text("m")));
    core.outbound(slot, text("o"));
    core.write_result(slot, true);
    assert_eq!(core.identity(slot), "alpha");
}

#[test]
fn failures_on_one_connection_leave_others_untouched() {
    let mut core: ServerCore<String> = ServerCore::new();
    let a = core.accept(Some("a".to_string()));
    let b = core.accept(Some("b".to_string()));

    // A write failure on connection A: its one disconnect is reported.
    core.outbound(a, text("oa"));
    let act = core.write_result(a, false);
    assert!(matches!(act, SendAction::Disconnect));

    // A read failure on connection A ends its receive unit too.
    let act = core.reader_event(a, ReadEvent::Failed);
    assert!(matches!(act, ReadAction::Disconnect));

    // Connection B still delivers, in order, under its own identity.
    assert_eq!(core.identity(b), "b");
    let act = core.reader_event(b, ReadEvent::Frame(text("m1")));
    match act {
        ReadAction::Deliver(Message::Text(s)) => assert_eq!(s, "m1"),
        _ => panic!("expected delivery on connection B"),
    }
    core.outbound(b, text("ob"));
    let act = core.write_result(b, true);
    assert!(matches!(act, SendAction::Proceed));
    assert_eq!(core.identity(b), "b");
}

#[test]
fn end_to_end_scenario() {
    // One server; one connection; the connect callback approves it as "c1".
    let mut core: ServerCore<String> = ServerCore::new();
    let slot = core.accept(Some("c1".to_string()));
    assert!(core.is_routed(slot));

    let mut messages: Vec<(String, String)> = Vec::new();
    let mut disconnects: Vec<String> = Vec::new();

    // The peer sends the text message "hello".
    match core.reader_event(slot, ReadEvent::Frame(text("hello"))) {
        ReadAction::Deliver(Message::Text(s)) => {
            messages.push((core.identity(slot).clone(), s));
        },
        _ => panic!("expected delivery"),
    }
    assert_eq!(messages, vec![("c1".to_string(), "hello".to_string())]);

    // The application pushes "world" for the peer; the write succeeds.
    let act = core.outbound(slot, text("world"));
    let wire: String = match act {
        SendAction::Write(Message::Text(s)) => s,
        _ => panic!("expected a write order"),
    };
    assert_eq!(wire, "world");
    assert!(matches!(core.write_result(slot, true), SendAction::Proceed));

    // The peer sends a close frame: one disconnect, then nothing further.
    match core.reader_event(slot, ReadEvent::Frame(Message::Close)) {
        ReadAction::Disconnect => disconnects.push(core.identity(slot).clone()),
        _ => panic!("expected a disconnect"),
    }
    // The application stops using the outbound channel; the send unit ends
    // quietly, with no second disconnect.
    core.outbound_closed(slot);

    assert_eq!(disconnects, vec!["c1".to_string()]);
    assert_eq!(messages.len(), 1);
    assert_eq!(core.identity(slot), "c1");
}
