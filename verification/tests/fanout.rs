use p2p_chat::chat::{Chat, Member, Message};
use p2p_chat::packet::Packet;
use p2p_chat::registry::{broadcast_local, post_local, send_replies, Connections, Delivery};
use tokio::sync::mpsc::unbounded_channel;

fn me() -> Member {
    Member::new("me".to_string(), "127.0.0.1".to_string(), 9001, "id-me".to_string())
}

#[test]
fn new_registry_is_empty() {
    let connections = Connections::new();
    assert_eq!(connections.len(), 0);
    let outcome = connections.broadcast(&Packet::InitSyncRequest);
    assert_eq!(outcome, Delivery { delivered: 0, refused: 0 });
}

#[test]
fn scenario_broadcast_skips_the_dead_queue() {
    let (tx1, mut rx1) = unbounded_channel::<Packet>();
    let (tx2, rx2) = unbounded_channel::<Packet>();
    let (tx3, mut rx3) = unbounded_channel::<Packet>();
    let mut connections = Connections::new();
    connections.register(tx1);
    connections.register(tx2);
    connections.register(tx3);
    assert_eq!(connections.len(), 3);
    drop(rx2);

    let mut chat = Chat::new();
    chat.add_member(me());
    let message = Message::new(me(), "hi".to_string(), 42);
    let outcome = broadcast_local(&mut chat, &connections, message.clone());

    assert_eq!(outcome, Delivery { delivered: 2, refused: 1 });
    assert_eq!(chat.get_all_local_messages(), vec![message.clone()]);
    for rx in [&mut rx1, &mut rx3] {
        match rx.try_recv() {
            Ok(Packet::UserMessage(got)) => assert_eq!(got, message),
            _ => panic!("a live queue did not get the message"),
        }
        assert!(rx.try_recv().is_err());
    }
    assert_eq!(connections.len(), 3);
}

#[test]
fn broadcast_reaches_every_queue_in_order_of_send() {
    let (tx, mut rx) = unbounded_channel::<Packet>();
    let mut connections = Connections::new();
    connections.register(tx);
    let mut chat = Chat::new();
    for text in ["one", "two"] {
        let outcome = broadcast_local(&mut chat, &connections, Message::new(me(), text.to_string(), 1));
        assert_eq!(outcome, Delivery { delivered: 1, refused: 0 });
    }
    for text in ["one", "two"] {
        match rx.try_recv() {
            Ok(Packet::UserMessage(got)) => assert_eq!(got.text, text),
            _ => panic!("missing message"),
        }
    }
    assert_eq!(chat.get_all_local_messages().len(), 2);
}

#[test]
fn replies_go_to_the_session_queue_in_order() {
    let (tx, mut rx) = unbounded_channel::<Packet>();
    let replies = vec![Packet::Identity(me(), false), Packet::InitSyncRequest];
    let outcome = send_replies(&tx, replies);
    assert_eq!(outcome, Delivery { delivered: 2, refused: 0 });
    assert!(matches!(rx.try_recv(), Ok(Packet::Identity(_, false))));
    assert!(matches!(rx.try_recv(), Ok(Packet::InitSyncRequest)));
    assert!(rx.try_recv().is_err());
}

#[test]
fn replies_to_a_dead_queue_are_counted_not_raised() {
    let (tx, rx) = unbounded_channel::<Packet>();
    drop(rx);
    let outcome = send_replies(&tx, vec![Packet::InitSyncRequest, Packet::InitSyncRequest]);
    assert_eq!(outcome, Delivery { delivered: 0, refused: 2 });
    assert_eq!(send_replies(&tx, Vec::new()), Delivery { delivered: 0, refused: 0 });
}

#[test]
fn post_local_appends_and_wraps_the_message() {
    let mut chat = Chat::new();
    let message = Message::new(me(), "hi".to_string(), 42);
    match post_local(&mut chat, message.clone()) {
        Packet::UserMessage(carried) => assert_eq!(carried, message),
        _ => panic!("not a user message"),
    }
    assert_eq!(chat.get_all_local_messages(), vec![message]);
}

#[test]
fn record_counts_one_send() {
    let tally = Delivery { delivered: 1, refused: 2 };
    assert_eq!(tally.record(true), Delivery { delivered: 2, refused: 2 });
    assert_eq!(tally.record(false), Delivery { delivered: 1, refused: 3 });
}
