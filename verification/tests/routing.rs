use ws_core::bind::build_server;
use ws_core::message::Message;
use ws_core::receive::{drain_reader, ReadAction, ReadEvent, ReceiveUnit};
use ws_core::send::{drain_outbound, SendAction, SendPhase, SendUnit};

fn text(s: &str) -> Message {
    Message::Text(s.to_string())
}

fn deliver_payload(act: &ReadAction) -> Option<&str> {
    match act {
        ReadAction::Deliver(Message::Text(s)) => Some(s.as_str()),
        _ => None,
    }
}

#[test]
fn close_variant_is_detected() {
    assert!(Message::Close.is_close());
    assert!(!text("hello").is_close());
    assert!(!Message::Binary(vec![1, 2, 3]).is_close());
    assert!(!Message::Ping(vec![]).is_close());
    assert!(!Message::Pong(vec![]).is_close());
}

#[test]
fn build_server_formats_address() {
    assert_eq!(build_server("127.0.0.1", 8080), b"127.0.0.1:8080".to_vec());
    assert_eq!(build_server("localhost", 0), b"localhost:0".to_vec());
    assert_eq!(build_server("0.0.0.0", 65535), b"0.0.0.0:65535".to_vec());
}

#[test]
fn frames_before_close_are_delivered_in_order() {
    let events = vec![
        ReadEvent::Frame(text("m1")),
        ReadEvent::Frame(text("m2")),
        ReadEvent::Frame(text("m3")),
        ReadEvent::Frame(Message::Close),
        ReadEvent::Frame(text("after")),
    ];
    let acts = drain_reader(events);
    assert_eq!(acts.len(), 4);
    assert_eq!(deliver_payload(&acts[0]), Some("m1"));
    assert_eq!(deliver_payload(&acts[1]), Some("m2"));
    assert_eq!(deliver_payload(&acts[2]), Some("m3"));
    assert!(matches!(acts[3], ReadAction::Disconnect));
}

#[test]
fn close_disconnects_exactly_once() {
    let events = vec![
        ReadEvent::Frame(Message::Close),
        ReadEvent::Frame(Message::Close),
        ReadEvent::Frame(text("late")),
    ];
    let acts = drain_reader(events);
    let disconnects = acts
        .iter()
        .filter(|a| matches!(a, ReadAction::Disconnect))
        .count();
    assert_eq!(acts.len(), 1);
    assert_eq!(disconnects, 1);
}

#[test]
fn read_error_reports_disconnect() {
    let events = vec![ReadEvent::Frame(text("m1")), ReadEvent::Failed];
    let acts = drain_reader(events);
    assert_eq!(acts.len(), 2);
    assert_eq!(deliver_payload(&acts[0]), Some("m1"));
    assert!(matches!(acts[1], ReadAction::Disconnect));
}

#[test]
fn stream_without_close_delivers_everything() {
    let events = vec![
        ReadEvent::Frame(text("a")),
        ReadEvent::Frame(Message::Binary(vec![9])),
        ReadEvent::Frame(Message::Ping(vec![1])),
    ];
    let acts = drain_reader(events);
    assert_eq!(acts.len(), 3);
    assert!(acts.iter().all(|a| matches!(a, ReadAction::Deliver(_))));
}

#[test]
fn receive_unit_ends_on_close() {
    let mut unit = ReceiveUnit::new();
    assert!(unit.live());
    let act = unit.on_event(ReadEvent::Frame(text("m")));
    assert!(matches!(act, ReadAction::Deliver(_)));
    assert!(unit.live());
    let act = unit.on_event(ReadEvent::Frame(Message::Close));
    assert!(matches!(act, ReadAction::Disconnect));
    assert!(!unit.live());
}

#[test]
fn writes_happen_in_enqueue_order() {
    let msgs = vec![text("o1"), text("o2"), text("o3")];
    let oks = vec![true, true, true];
    let out = drain_outbound(msgs, &oks);
    assert!(!out.disconnected);
    let payloads: Vec<&str> = out
        .written
        .iter()
        .map(|m| match m {
            Message::Text(s) => s.as_str(),
            _ => panic!("unexpected variant"),
        })
        .collect();
    assert_eq!(payloads, vec!["o1", "o2", "o3"]);
}

#[test]
fn write_failure_disconnects_and_stops() {
    let msgs = vec![text("o1"), text("o2"), text("o3")];
    let oks = vec![true, false, true];
    let out = drain_outbound(msgs, &oks);
    assert!(out.disconnected);
    assert_eq!(out.written.len(), 1);
    match &out.written[0] {
        Message::Text(s) => assert_eq!(s, "o1"),
        _ => panic!("unexpected variant"),
    }
}

#[test]
fn empty_outbound_queue_writes_nothing() {
    let out = drain_outbound(Vec::new(), &Vec::new());
    assert!(!out.disconnected);
    assert!(out.written.is_empty());
}

#[test]
fn send_unit_walks_the_write_protocol() {
    let mut unit = SendUnit::new();
    assert_eq!(unit.current_phase(), SendPhase::Awaiting);
    let act = unit.on_outbound(text("w"));
    match act {
        SendAction::Write(Message::Text(s)) => assert_eq!(s, "w"),
        _ => panic!("expected a write order"),
    }
    assert_eq!(unit.current_phase(), SendPhase::Writing);
    let act = unit.on_write_result(true);
    assert!(matches!(act, SendAction::Proceed));
    assert_eq!(unit.current_phase(), SendPhase::Awaiting);
    let act = unit.on_outbound(text("x"));
    assert!(matches!(act, SendAction::Write(_)));
    let act = unit.on_write_result(false);
    assert!(matches!(act, SendAction::Disconnect));
    assert_eq!(unit.current_phase(), SendPhase::Done);
}

#[test]
fn send_unit_ends_quietly_on_channel_close() {
    let mut unit = SendUnit::new();
    unit.on_channel_closed();
    assert_eq!(unit.current_phase(), SendPhase::Done);
}
