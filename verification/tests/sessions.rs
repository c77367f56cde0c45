use p2p_chat::chat::{Chat, Member, Message};
use p2p_chat::handler::Shown;
use p2p_chat::packet::Packet;
use p2p_chat::session::{get_packet, Phase, Received, Role, Session, Step};

fn node(name: &str) -> Member {
    Member::new(name.to_string(), "127.0.0.1".to_string(), 9000, format!("id-{}", name))
}

fn store_of(members: &[Member]) -> Chat {
    let mut chat = Chat::new();
    for m in members {
        chat.add_member(m.clone());
    }
    chat
}

#[test]
fn zero_length_read_means_closed() {
    assert!(matches!(get_packet(Some(0), ""), Received::Closed));
    assert!(matches!(get_packet(Some(0), "\"InitSyncRequest\"\n"), Received::Closed));
}

#[test]
fn failed_read_means_closed() {
    assert!(matches!(get_packet(None, "\"InitSyncRequest\"\n"), Received::Closed));
}

#[test]
fn a_line_with_a_packet_is_decoded() {
    let line = "\"InitSyncRequest\"\n";
    assert!(matches!(get_packet(Some(line.len()), line), Received::Packet(Packet::InitSyncRequest)));
    let line = "\"InitSyncRequest\"\r\n";
    assert!(matches!(get_packet(Some(line.len()), line), Received::Packet(Packet::InitSyncRequest)));
}

#[test]
fn a_line_is_trimmed_before_it_is_decoded() {
    let line = "\u{a0}\u{2003}\"InitSyncRequest\"\u{c}\n";
    assert!(matches!(get_packet(Some(line.len()), line), Received::Packet(Packet::InitSyncRequest)));
}

#[test]
fn a_line_that_is_no_packet_is_malformed() {
    assert!(matches!(get_packet(Some(6), "hello\n"), Received::Malformed));
    assert!(matches!(get_packet(Some(1), "\n"), Received::Malformed));
    assert!(matches!(get_packet(Some(3), "{}\n"), Received::Malformed));
}

#[test]
fn accepted_session_is_open_and_sends_nothing_first() {
    let mut session = Session::new(Role::Accepted);
    assert_eq!(session.phase(), Phase::Open);
    assert_eq!(session.role(), Role::Accepted);
    assert_eq!(session.remote_id(), None);
    assert!(session.open(&node("a")).is_empty());
    assert_eq!(session.phase(), Phase::Open);
}

#[test]
fn dialed_session_opens_with_identity_then_sync_request() {
    let me = node("a");
    let mut session = Session::new(Role::Dialed);
    assert_eq!(session.phase(), Phase::Connecting);
    let packets = session.open(&me);
    assert_eq!(session.phase(), Phase::Open);
    assert_eq!(packets.len(), 2);
    match &packets[0] {
        Packet::Identity(who, request_back) => {
            assert_eq!(*who, me);
            assert!(*request_back);
        }
        _ => panic!("the first packet is not an identity"),
    }
    assert!(matches!(packets[1], Packet::InitSyncRequest));
    assert!(session.open(&me).is_empty());
}

#[test]
fn repair_session_opens_with_identity_that_asks_nothing_back() {
    let me = node("a");
    let mut session = Session::new(Role::Repair);
    let packets = session.open(&me);
    assert_eq!(packets.len(), 1);
    match &packets[0] {
        Packet::Identity(who, request_back) => {
            assert_eq!(*who, me);
            assert!(!*request_back);
        }
        _ => panic!("not an identity"),
    }
}

#[test]
fn end_of_stream_removes_the_known_peer() {
    let a = node("a");
    let b = node("b");
    let c = node("c");
    let mut chat = store_of(&[a.clone(), c.clone()]);
    let mut session = Session::new(Role::Accepted);
    let step = session.receive(Received::Packet(Packet::Identity(b.clone(), false)), &mut chat, &a);
    assert!(matches!(step, Step::Handled(_)));
    assert_eq!(session.remote_id(), Some(b.id.clone()));
    assert_eq!(chat.get_all_local_members(), vec![a.clone(), c.clone(), b]);
    let step = session.receive(get_packet(Some(0), ""), &mut chat, &a);
    assert!(matches!(step, Step::Stop));
    assert_eq!(session.phase(), Phase::Closed);
    assert_eq!(chat.get_all_local_members(), vec![a, c]);
}

#[test]
fn end_of_stream_without_identity_leaves_the_roster() {
    let a = node("a");
    let b = node("b");
    let mut chat = store_of(&[a.clone(), b.clone()]);
    let mut session = Session::new(Role::Accepted);
    let step = session.receive(Received::Closed, &mut chat, &a);
    assert!(matches!(step, Step::Stop));
    assert_eq!(session.phase(), Phase::Closed);
    assert_eq!(chat.get_all_local_members(), vec![a, b]);
}

#[test]
fn malformed_line_is_dropped_and_the_session_stays_open() {
    let a = node("a");
    let mut chat = store_of(&[a.clone()]);
    let mut session = Session::new(Role::Accepted);
    let step = session.receive(get_packet(Some(9), "not json\n"), &mut chat, &a);
    assert!(matches!(step, Step::Dropped));
    assert_eq!(session.phase(), Phase::Open);
    assert_eq!(chat.get_all_local_members(), vec![a.clone()]);
    let step = session.receive(Received::Packet(Packet::InitSyncRequest), &mut chat, &a);
    match step {
        Step::Handled(reaction) => assert_eq!(reaction.replies.len(), 1),
        _ => panic!("the packet after the malformed line was not handled"),
    }
}

#[test]
fn packets_are_handled_in_arrival_order() {
    let a = node("a");
    let b = node("b");
    let mut chat = store_of(&[a.clone()]);
    let mut session = Session::new(Role::Accepted);
    for text in ["one", "two", "three"] {
        let message = Message::new(b.clone(), text.to_string(), 1);
        let step = session.receive(Received::Packet(Packet::UserMessage(message)), &mut chat, &a);
        match step {
            Step::Handled(reaction) => match reaction.shown {
                Shown::Message(shown) => assert_eq!(shown.text, text),
                _ => panic!("not shown"),
            },
            _ => panic!("not handled"),
        }
    }
    let texts: Vec<String> = chat.get_all_local_messages().into_iter().map(|m| m.text).collect();
    assert_eq!(texts, vec!["one", "two", "three"]);
    assert_eq!(session.remote_id(), None);
}

#[test]
fn closed_session_takes_nothing_more() {
    let a = node("a");
    let b = node("b");
    let mut chat = store_of(&[a.clone()]);
    let mut session = Session::new(Role::Accepted);
    session.receive(Received::Closed, &mut chat, &a);
    let step = session.receive(Received::Packet(Packet::Identity(b, true)), &mut chat, &a);
    assert!(matches!(step, Step::Stop));
    assert_eq!(chat.get_all_local_members(), vec![a]);
    assert_eq!(session.remote_id(), None);
}

#[test]
fn a_later_identity_replaces_the_remote_id() {
    let a = node("a");
    let mut chat = store_of(&[a.clone()]);
    let mut session = Session::new(Role::Accepted);
    session.receive(Received::Packet(Packet::Identity(node("b"), false)), &mut chat, &a);
    session.receive(Received::Packet(Packet::Identity(node("c"), false)), &mut chat, &a);
    assert_eq!(session.remote_id(), Some("id-c".to_string()));
    session.receive(Received::Closed, &mut chat, &a);
    assert_eq!(chat.get_all_local_members(), vec![a, node("b")]);
}
