use collab_client::client::{egress_line, event_of_line, link_failure, Action, Client, Event};
use collab_client::message::{Change, ControlMessage, ErrorKind};

fn insert(index: usize, text: &str) -> ControlMessage {
    ControlMessage::Change { change: Change::Insert { index, text: text.to_string() } }
}

fn delete(index: usize, len: usize) -> ControlMessage {
    ControlMessage::Change { change: Change::Delete { index, len } }
}

fn told(change: Change) -> Action {
    Action::Emit { message: ControlMessage::Change { change } }
}

fn broadcast_of(actions: &[Action]) -> Vec<u8> {
    assert_eq!(actions.len(), 1);
    match &actions[0] {
        Action::Broadcast { data } => data.clone(),
        other => panic!("no broadcast: {:?}", other),
    }
}

#[test]
fn a_new_client_holds_an_empty_document() {
    assert_eq!(Client::new().contents(), "");
}

#[test]
fn insert_then_delete_round_trip() {
    let mut client = Client::new();
    broadcast_of(&client.handle_stdin_message(insert(0, "hi")));
    assert_eq!(client.contents(), "hi");
    broadcast_of(&client.handle_stdin_message(delete(0, 2)));
    assert_eq!(client.contents(), "");
}

#[test]
fn a_local_change_is_broadcast_and_not_echoed() {
    let mut client = Client::new();
    let actions = client.handle_stdin_message(insert(0, "hello"));
    assert_eq!(actions.len(), 1);
    assert!(matches!(actions[0], Action::Broadcast { .. }));
    let actions = client.handle_stdin_message(delete(1, 3));
    assert_eq!(actions.len(), 1);
    assert!(matches!(actions[0], Action::Broadcast { .. }));
    assert_eq!(client.contents(), "ho");
}

#[test]
fn an_imported_change_is_told_to_the_application() {
    let mut a = Client::new();
    let mut b = Client::new();
    let update = broadcast_of(&a.handle_stdin_message(insert(0, "hello world")));
    assert_eq!(
        b.handle_update(&update),
        vec![told(Change::Insert { index: 0, text: "hello world".to_string() })]
    );
    let update = broadcast_of(&a.handle_stdin_message(insert(5, ",")));
    assert_eq!(b.handle_update(&update), vec![told(Change::Insert { index: 5, text: ",".to_string() })]);
    let update = broadcast_of(&a.handle_stdin_message(delete(6, 6)));
    assert_eq!(b.handle_update(&update), vec![told(Change::Delete { index: 6, len: 6 })]);
    assert_eq!(a.contents(), "hello,");
    assert_eq!(b.contents(), "hello,");
}

#[test]
fn local_edits_are_not_told_when_an_update_arrives() {
    let mut a = Client::new();
    let mut b = Client::new();
    let from_a = broadcast_of(&a.handle_stdin_message(insert(0, "foo")));
    b.handle_update(&from_a);
    broadcast_of(&b.handle_stdin_message(insert(3, "!")));
    let from_a = broadcast_of(&a.handle_stdin_message(insert(0, ">")));
    assert_eq!(b.handle_update(&from_a), vec![told(Change::Insert { index: 0, text: ">".to_string() })]);
    assert_eq!(b.contents(), ">foo!");
}

#[test]
fn an_update_seen_before_tells_nothing() {
    let mut a = Client::new();
    let mut b = Client::new();
    let update = broadcast_of(&a.handle_stdin_message(insert(0, "x")));
    assert_eq!(b.handle_update(&update).len(), 1);
    assert_eq!(b.handle_update(&update), vec![]);
    assert_eq!(b.contents(), "x");
}

#[test]
fn peers_converge_after_concurrent_inserts() {
    let mut a = Client::new();
    let mut b = Client::new();
    let first = broadcast_of(&a.handle_stdin_message(insert(0, "foo")));
    b.handle_update(&first);
    let from_b = broadcast_of(&b.handle_stdin_message(insert(0, "bar")));
    let from_a = broadcast_of(&a.handle_stdin_message(insert(0, "baz")));
    a.handle_update(&from_b);
    b.handle_update(&from_a);
    assert_eq!(a.contents(), b.contents());
    assert_eq!(a.contents().len(), 9);
}

#[test]
fn create_document_replaces_the_text_and_broadcasts() {
    let mut a = Client::new();
    broadcast_of(&a.handle_stdin_message(insert(0, "old text")));
    let update = broadcast_of(&a.handle_stdin_message(ControlMessage::CreateDocument {
        initial_content: "new".to_string(),
    }));
    assert_eq!(a.contents(), "new");
    let mut b = Client::new();
    b.handle_update(&update);
    assert_eq!(b.contents(), "new");
}

#[test]
fn add_peer_asks_for_a_dial() {
    let mut client = Client::new();
    assert_eq!(
        client.handle_stdin_message(ControlMessage::AddPeer { address: "host:4000".to_string() }),
        vec![Action::Dial { address: "host:4000".to_string() }]
    );
    assert_eq!(client.contents(), "");
}

#[test]
fn peer_added_from_the_application_is_reported() {
    let mut client = Client::new();
    assert_eq!(
        client.handle_stdin_message(ControlMessage::PeerAdded { address: "h:1".to_string() }),
        vec![Action::Report {
            kind: ErrorKind::Parse,
            detail: r#"{"type":"peer_added","address":"h:1"}"#.to_string(),
        }]
    );
}

#[test]
fn a_refused_edit_is_reported_and_changes_nothing() {
    let mut client = Client::new();
    broadcast_of(&client.handle_stdin_message(insert(0, "abc")));
    assert_eq!(
        client.handle_stdin_message(insert(7, "x")),
        vec![Action::Report {
            kind: ErrorKind::DocumentOperation,
            detail: r#"{"type":"insert","index":7,"text":"x"}"#.to_string(),
        }]
    );
    assert_eq!(
        client.handle_stdin_message(delete(1, 9)),
        vec![Action::Report {
            kind: ErrorKind::DocumentOperation,
            detail: r#"{"type":"delete","index":1,"len":9}"#.to_string(),
        }]
    );
    assert_eq!(client.contents(), "abc");
    broadcast_of(&client.handle_stdin_message(insert(3, "d")));
    assert_eq!(client.contents(), "abcd");
}

#[test]
fn a_connection_is_registered_before_it_is_announced() {
    let mut client = Client::new();
    assert_eq!(
        client.accept_new_connection("10.0.0.2:5000".to_string()),
        vec![
            Action::Register { peer: 0 },
            Action::Emit { message: ControlMessage::PeerAdded { address: "10.0.0.2:5000".to_string() } },
        ]
    );
    assert_eq!(
        client.step(Event::Dialed { address: "10.0.0.3:5000".to_string() }),
        vec![
            Action::Register { peer: 1 },
            Action::Emit { message: ControlMessage::PeerAdded { address: "10.0.0.3:5000".to_string() } },
        ]
    );
    assert_eq!(
        client.step(Event::Accepted { address: "10.0.0.4:5000".to_string() }),
        vec![
            Action::Register { peer: 2 },
            Action::Emit { message: ControlMessage::PeerAdded { address: "10.0.0.4:5000".to_string() } },
        ]
    );
}

#[test]
fn an_unreachable_peer_is_reported_and_the_loop_goes_on() {
    let mut client = Client::new();
    assert_eq!(
        client.step(Event::Command {
            message: ControlMessage::AddPeer { address: "unreachable:9999".to_string() },
        }),
        vec![Action::Dial { address: "unreachable:9999".to_string() }]
    );
    assert_eq!(
        client.step(Event::ConnectionFailed { address: "unreachable:9999".to_string() }),
        vec![Action::Report {
            kind: ErrorKind::PeerConnection,
            detail: "unreachable:9999".to_string(),
        }]
    );
    let actions = client.step(Event::Command { message: insert(0, "still here") });
    assert!(matches!(actions[..], [Action::Broadcast { .. }]));
    assert_eq!(client.contents(), "still here");
    assert_eq!(
        client.step(Event::Accepted { address: "1.2.3.4:1".to_string() })[0],
        Action::Register { peer: 0 }
    );
}

#[test]
fn bytes_that_are_no_update_are_reported() {
    let mut client = Client::new();
    broadcast_of(&client.handle_stdin_message(insert(0, "kept")));
    assert_eq!(
        client.step(Event::UpdateRefused),
        vec![Action::Report { kind: ErrorKind::DocumentOperation, detail: String::new() }]
    );
    assert_eq!(
        client.update_refused(),
        vec![Action::Report { kind: ErrorKind::DocumentOperation, detail: String::new() }]
    );
    assert_eq!(client.contents(), "kept");
    broadcast_of(&client.handle_stdin_message(insert(4, "!")));
    assert_eq!(client.contents(), "kept!");
}

#[test]
fn an_update_is_never_sent_on() {
    let mut a = Client::new();
    let mut b = Client::new();
    let update = broadcast_of(&a.handle_stdin_message(insert(0, "abc")));
    let actions = b.step(Event::Update { data: update });
    assert!(!actions.is_empty());
    for action in actions {
        assert!(matches!(action, Action::Emit { message: ControlMessage::Change { .. } }));
    }
}

#[test]
fn a_line_with_a_command_becomes_an_event() {
    assert_eq!(
        event_of_line(r#"{"type":"change","change":{"type":"insert","index":0,"text":"hi"}}"#),
        Ok(Event::Command { message: insert(0, "hi") })
    );
}

#[test]
fn a_line_without_a_command_becomes_a_report() {
    assert_eq!(
        event_of_line("{\"type\":"),
        Err(Action::Report { kind: ErrorKind::Parse, detail: "{\"type\":".to_string() })
    );
    assert_eq!(
        event_of_line(""),
        Err(Action::Report { kind: ErrorKind::Parse, detail: String::new() })
    );
}

#[test]
fn events_and_failures_go_out_as_lines() {
    assert_eq!(
        egress_line(&told(Change::Delete { index: 2, len: 1 })),
        Some("{\"type\":\"change\",\"change\":{\"type\":\"delete\",\"index\":2,\"len\":1}}\n".to_string())
    );
    assert_eq!(
        egress_line(&Action::Emit { message: ControlMessage::PeerAdded { address: "a:1".to_string() } }),
        Some("{\"type\":\"peer_added\",\"address\":\"a:1\"}\n".to_string())
    );
    assert_eq!(
        egress_line(&Action::Report { kind: ErrorKind::PeerConnection, detail: "unreachable:9999".to_string() }),
        Some("{\"type\":\"error\",\"error\":\"peer_connection_error\",\"detail\":\"unreachable:9999\"}\n".to_string())
    );
}

#[test]
fn actions_for_the_peers_give_no_line() {
    assert_eq!(egress_line(&Action::Dial { address: "a:1".to_string() }), None);
    assert_eq!(egress_line(&Action::Register { peer: 3 }), None);
    assert_eq!(egress_line(&Action::Broadcast { data: vec![1] }), None);
}

#[test]
fn a_bad_line_does_not_stop_the_commands_after_it() {
    let mut client = Client::new();
    let mut reports = Vec::new();
    for line in [
        r#"{"type":"create_document","initial_content":"abc"}"#,
        "garbage",
        r#"{"type":"change","change":{"type":"insert","index":3,"text":"d"}}"#,
    ] {
        match event_of_line(line) {
            Ok(event) => {
                client.step(event);
            }
            Err(report) => reports.push(report),
        }
    }
    assert_eq!(client.contents(), "abcd");
    assert_eq!(
        reports,
        vec![Action::Report { kind: ErrorKind::Parse, detail: "garbage".to_string() }]
    );
}

#[test]
fn the_broadcast_is_the_export_of_the_edited_document() {
    let mut a = Client::new();
    broadcast_of(&a.handle_stdin_message(insert(0, "first")));
    let update = broadcast_of(&a.handle_stdin_message(insert(5, " second")));
    let mut b = Client::new();
    b.handle_update(&update);
    assert_eq!(b.contents(), "first second");
    let update = broadcast_of(&a.handle_stdin_message(ControlMessage::CreateDocument {
        initial_content: "third".to_string(),
    }));
    b.handle_update(&update);
    assert_eq!(b.contents(), "third");
    assert_eq!(a.contents(), "third");
}

#[test]
fn failures_on_the_links_name_the_peer() {
    assert_eq!(
        link_failure(ErrorKind::MessageFormat, Some(12)),
        Action::Report { kind: ErrorKind::MessageFormat, detail: "peer 12".to_string() }
    );
    assert_eq!(
        link_failure(ErrorKind::Framing, Some(0)),
        Action::Report { kind: ErrorKind::Framing, detail: "peer 0".to_string() }
    );
    assert_eq!(
        link_failure(ErrorKind::Framing, None),
        Action::Report { kind: ErrorKind::Framing, detail: String::new() }
    );
}

#[test]
fn a_coordinator_takes_over_what_another_holds() {
    let mut a = Client::new();
    let mut b = Client::new();
    broadcast_of(&a.handle_stdin_message(insert(0, "abc")));
    broadcast_of(&b.handle_stdin_message(insert(0, "xyz")));
    assert_eq!(b.merge_from(&mut a).len(), 1);
    assert_eq!(a.merge_from(&mut b).len(), 1);
    assert_eq!(a.contents(), b.contents());
    assert_eq!(a.contents().len(), 6);
    assert_eq!(b.merge_from(&mut a), vec![]);
}
