use p2p_chat::dialer::CandidateSearch;
use p2p_chat::discovery::{
    handle_packet_discovery, receive_datagram, Broadcaster, DiscoveryAction, DiscoveryPacket,
    DISCOVERY_PORT, MAX_DATAGRAM, MULTICAST_GROUP, PROBE_COUNT, PROBE_INTERVAL_SECS,
};

fn s(text: &str) -> String {
    text.to_string()
}

#[test]
fn discovery_constants() {
    assert_eq!(MULTICAST_GROUP, [239, 255, 42, 99]);
    assert_eq!(DISCOVERY_PORT, 9000);
    assert_eq!(MAX_DATAGRAM, 1024);
    assert_eq!(PROBE_COUNT, 3);
    assert_eq!(PROBE_INTERVAL_SECS, 1);
}

#[test]
fn probe_of_another_node_is_answered_with_own_address() {
    let action = handle_packet_discovery(DiscoveryPacket::Discovery(s("d")), s("10.0.0.5"), 9005, s("e"));
    assert_eq!(
        action,
        DiscoveryAction::Reply(DiscoveryPacket::DiscoveryRes(s("10.0.0.5"), 9005, s("e"), s("d")))
    );
}

#[test]
fn own_probe_is_not_answered() {
    let action = handle_packet_discovery(DiscoveryPacket::Discovery(s("e")), s("10.0.0.5"), 9005, s("e"));
    assert_eq!(action, DiscoveryAction::Ignore);
}

#[test]
fn answer_for_this_node_is_a_candidate() {
    let answer = DiscoveryPacket::DiscoveryRes(s("10.0.0.7"), 9007, s("e"), s("d"));
    let action = handle_packet_discovery(answer, s("10.0.0.4"), 9004, s("d"));
    assert_eq!(action, DiscoveryAction::Candidate(s("10.0.0.7"), 9007));
}

#[test]
fn answer_for_another_node_is_ignored() {
    let answer = DiscoveryPacket::DiscoveryRes(s("10.0.0.7"), 9007, s("e"), s("d"));
    assert_eq!(handle_packet_discovery(answer, s("10.0.0.9"), 9009, s("f")), DiscoveryAction::Ignore);
}

#[test]
fn own_answer_is_ignored() {
    let answer = DiscoveryPacket::DiscoveryRes(s("10.0.0.7"), 9007, s("e"), s("d"));
    assert_eq!(handle_packet_discovery(answer, s("10.0.0.7"), 9007, s("e")), DiscoveryAction::Ignore);
    let to_self = DiscoveryPacket::DiscoveryRes(s("10.0.0.7"), 9007, s("e"), s("e"));
    assert_eq!(handle_packet_discovery(to_self, s("10.0.0.7"), 9007, s("e")), DiscoveryAction::Ignore);
}

#[test]
fn probe_is_written_as_json() {
    assert_eq!(DiscoveryPacket::Discovery(s("d")).encode(), b"{\"Discovery\":\"d\"}".to_vec());
}

#[test]
fn answer_is_written_as_json() {
    let answer = DiscoveryPacket::DiscoveryRes(s("10.0.0.7"), 9007, s("e"), s("d"));
    assert_eq!(answer.encode(), b"{\"DiscoveryRes\":[\"10.0.0.7\",9007,\"e\",\"d\"]}".to_vec());
}

#[test]
fn datagrams_round_trip() {
    for packet in [
        DiscoveryPacket::Discovery(s("id \"quoted\" \u{fc}")),
        DiscoveryPacket::DiscoveryRes(s("10.0.0.7"), 65535, s("e"), s("d")),
        DiscoveryPacket::DiscoveryRes(s(""), 0, s(""), s("")),
    ] {
        let bytes = packet.encode();
        assert!(bytes.len() <= MAX_DATAGRAM);
        assert_eq!(DiscoveryPacket::decode(&bytes), Some(packet));
    }
}

#[test]
fn malformed_datagrams_are_dropped() {
    for bytes in [
        &b""[..],
        &b"hello"[..],
        &b"{\"Discovery\":7}"[..],
        &b"{\"DiscoveryRes\":[\"ip\",70000,\"e\",\"d\"]}"[..],
        &b"{\"DiscoveryRes\":[\"ip\",1,\"e\"]}"[..],
        &b"{\"Discovery\":\"d\",\"DiscoveryRes\":[\"ip\",1,\"e\",\"d\"]}"[..],
        &b"\"Discovery\""[..],
        &[0xff, 0xfe, 0x00][..],
    ] {
        assert_eq!(DiscoveryPacket::decode(bytes), None);
        assert_eq!(receive_datagram(bytes, s("10.0.0.5"), 9005, s("e")), DiscoveryAction::Ignore);
    }
}

#[test]
fn broadcaster_sends_three_probes_and_stops() {
    let mut broadcaster = Broadcaster::new(s("d"));
    for _ in 0..3 {
        assert_eq!(broadcaster.next_probe(), Some(b"{\"Discovery\":\"d\"}".to_vec()));
    }
    assert_eq!(broadcaster.next_probe(), None);
    assert_eq!(broadcaster.next_probe(), None);
}

#[test]
fn scenario_listener_answers_each_probe_once_and_never_its_own() {
    let mut probing = Broadcaster::new(s("d"));
    let mut answers = Vec::new();
    let mut own = 0;
    while let Some(probe) = probing.next_probe() {
        match receive_datagram(&probe, s("10.0.0.5"), 9005, s("e")) {
            DiscoveryAction::Reply(answer) => answers.push(answer),
            other => panic!("the listener did not answer: {:?}", other),
        }
        if receive_datagram(&probe, s("10.0.0.4"), 9004, s("d")) != DiscoveryAction::Ignore {
            own += 1;
        }
    }
    assert_eq!(answers.len(), 3);
    assert_eq!(own, 0);
    for answer in answers {
        assert_eq!(answer, DiscoveryPacket::DiscoveryRes(s("10.0.0.5"), 9005, s("e"), s("d")));
        let heard = receive_datagram(&answer.encode(), s("10.0.0.4"), 9004, s("d"));
        assert_eq!(heard, DiscoveryAction::Candidate(s("10.0.0.5"), 9005));
        let heard_by_sender = receive_datagram(&answer.encode(), s("10.0.0.5"), 9005, s("e"));
        assert_eq!(heard_by_sender, DiscoveryAction::Ignore);
    }
}

#[test]
fn candidate_search_stops_at_the_first_success() {
    let mut search = CandidateSearch::new();
    assert!(search.wants_candidate());
    search.record_dial(false);
    assert!(search.wants_candidate());
    search.record_dial(false);
    assert!(search.wants_candidate());
    search.record_dial(true);
    assert!(!search.wants_candidate());
    search.record_dial(false);
    assert!(!search.wants_candidate());
}
