//! Discovery of peers on the local network: the two datagrams that nodes
//! exchange over multicast, the probes that a node sends, and what a node
//! does with each datagram that it hears.

use vstd::prelude::*;
use vstd::utf8::encode_utf8;
use crate::json::{
    items_view, lemma_array_view, lemma_object_view, members_view, parsed_bytes, put_member,
    rendered, tree_items, tree_number, tree_text, tree_variant, writable, Json, JsonView,
    MAX_NESTING,
};

verus! {

/// The multicast group that discovery uses, as the four parts of its
/// address.
pub const MULTICAST_GROUP: [u8; 4] = [239, 255, 42, 99];

/// The port that discovery uses.
pub const DISCOVERY_PORT: u16 = 9000;

/// The largest datagram that a listener takes, in bytes.
pub const MAX_DATAGRAM: usize = 1024;

/// How many probes a node sends when it looks for peers.
pub const PROBE_COUNT: u8 = 3;

/// The pause after each probe, in seconds.
pub const PROBE_INTERVAL_SECS: u64 = 1;

/// One datagram of the discovery protocol.
#[derive(Debug, PartialEq, Eq)]
pub enum DiscoveryPacket {
    /// A probe, with the id of the node that looks for peers.
    Discovery(String),
    /// The answer to a probe: the address and port at which the answering
    /// node listens, its id, and the id of the node that probed.
    DiscoveryRes(String, u16, String, String),
}

/// Mathematical model of a [`DiscoveryPacket`].
pub enum DiscoveryPacketView {
    Discovery(Seq<char>),
    DiscoveryRes(Seq<char>, u16, Seq<char>, Seq<char>),
}

impl View for DiscoveryPacket {
    type V = DiscoveryPacketView;

    open spec fn view(&self) -> DiscoveryPacketView {
        match self {
            DiscoveryPacket::Discovery(sender) => DiscoveryPacketView::Discovery(sender@),
            DiscoveryPacket::DiscoveryRes(ip, port, sender, target) => DiscoveryPacketView::DiscoveryRes(
                ip@,
                *port,
                sender@,
                target@,
            ),
        }
    }
}

impl Clone for DiscoveryPacket {
    fn clone(&self) -> (res: Self)
        ensures
            res@ == self@,
    {
        match self {
            DiscoveryPacket::Discovery(sender) => DiscoveryPacket::Discovery(sender.clone()),
            DiscoveryPacket::DiscoveryRes(ip, port, sender, target) => DiscoveryPacket::DiscoveryRes(
                ip.clone(),
                *port,
                sender.clone(),
                target.clone(),
            ),
        }
    }
}

/// What a node does with a datagram that it heard.
#[derive(Debug, PartialEq, Eq)]
pub enum DiscoveryAction {
    /// Nothing.
    Ignore,
    /// Send this datagram to the multicast group.
    Reply(DiscoveryPacket),
    /// Hand this address and port to the dialer as a candidate.
    Candidate(String, u16),
}

/// Mathematical model of a [`DiscoveryAction`].
pub enum DiscoveryActionView {
    Ignore,
    Reply(DiscoveryPacketView),
    Candidate(Seq<char>, u16),
}

impl View for DiscoveryAction {
    type V = DiscoveryActionView;

    open spec fn view(&self) -> DiscoveryActionView {
        match self {
            DiscoveryAction::Ignore => DiscoveryActionView::Ignore,
            DiscoveryAction::Reply(packet) => DiscoveryActionView::Reply(packet@),
            DiscoveryAction::Candidate(ip, port) => DiscoveryActionView::Candidate(ip@, *port),
        }
    }
}

/// What the node `my_id`, which listens at `ip` and `port`, does with a
/// datagram. It answers the probe of another node with its own address, and
/// never its own probe. It takes an answer as a candidate where another
/// node sent it and it is addressed to this node.
pub open spec fn discovery_action(
    packet: DiscoveryPacketView,
    ip: Seq<char>,
    port: u16,
    my_id: Seq<char>,
) -> DiscoveryActionView {
    match packet {
        DiscoveryPacketView::Discovery(sender) => if sender != my_id {
            DiscoveryActionView::Reply(DiscoveryPacketView::DiscoveryRes(ip, port, my_id, sender))
        } else {
            DiscoveryActionView::Ignore
        },
        DiscoveryPacketView::DiscoveryRes(peer_ip, peer_port, sender, target) => if sender != my_id
            && target == my_id {
            DiscoveryActionView::Candidate(peer_ip, peer_port)
        } else {
            DiscoveryActionView::Ignore
        },
    }
}

/// Probe and answer: a node answers the probe of another node with its own
/// address, for the prober; the prober takes that answer as a candidate;
/// the node that answered and every third node pass the answer over; and no
/// node answers its own probe.
pub proof fn lemma_probe_and_answer(
    prober: Seq<char>,
    prober_ip: Seq<char>,
    prober_port: u16,
    listener: Seq<char>,
    listener_ip: Seq<char>,
    listener_port: u16,
    third: Seq<char>,
    third_ip: Seq<char>,
    third_port: u16,
)
    requires
        prober != listener,
        third != prober,
    ensures
        ({
            let probe = DiscoveryPacketView::Discovery(prober);
            let answer = DiscoveryPacketView::DiscoveryRes(
                listener_ip,
                listener_port,
                listener,
                prober,
            );
            &&& discovery_action(probe, listener_ip, listener_port, listener)
                == DiscoveryActionView::Reply(answer)
            &&& discovery_action(probe, prober_ip, prober_port, prober)
                == DiscoveryActionView::Ignore
            &&& discovery_action(answer, prober_ip, prober_port, prober)
                == DiscoveryActionView::Candidate(listener_ip, listener_port)
            &&& discovery_action(answer, listener_ip, listener_port, listener)
                == DiscoveryActionView::Ignore
            &&& discovery_action(answer, third_ip, third_port, third) == DiscoveryActionView::Ignore
        }),
{
}

/// Decides what to do with a datagram of the discovery protocol.
pub fn handle_packet_discovery(
    packet_rec: DiscoveryPacket,
    ip: String,
    port: u16,
    my_id: String,
) -> (action: DiscoveryAction)
    ensures
        action@ == discovery_action(packet_rec@, ip@, port, my_id@),
{
    match packet_rec {
        DiscoveryPacket::Discovery(id) => {
            if id != my_id {
                DiscoveryAction::Reply(DiscoveryPacket::DiscoveryRes(ip, port, my_id, id))
            } else {
                DiscoveryAction::Ignore
            }
        },
        DiscoveryPacket::DiscoveryRes(ip_res, port_res, id_sender, rec_id) => {
            if id_sender != my_id && rec_id == my_id {
                DiscoveryAction::Candidate(ip_res, port_res)
            } else {
                DiscoveryAction::Ignore
            }
        },
    }
}

/// The JSON value that stands for a datagram: an object whose only member is
/// named after the variant; the four parts of an answer are an array.
pub open spec fn discovery_json(packet: DiscoveryPacketView) -> JsonView {
    match packet {
        DiscoveryPacketView::Discovery(sender) => JsonView::Object(
            Map::empty().insert("Discovery"@, JsonView::Str(sender)),
        ),
        DiscoveryPacketView::DiscoveryRes(ip, port, sender, target) => JsonView::Object(
            Map::empty().insert(
                "DiscoveryRes"@,
                JsonView::Array(
                    seq![
                        JsonView::Str(ip),
                        JsonView::Number(Some(port as u64)),
                        JsonView::Str(sender),
                        JsonView::Str(target),
                    ],
                ),
            ),
        ),
    }
}

/// The datagram that a JSON value stands for.
pub open spec fn json_discovery(tree: JsonView) -> Option<DiscoveryPacketView> {
    if tree_variant(tree, "Discovery"@) is Some {
        match tree_text(tree_variant(tree, "Discovery"@)->0) {
            Some(sender) => Some(DiscoveryPacketView::Discovery(sender)),
            None => None,
        }
    } else if tree_variant(tree, "DiscoveryRes"@) is Some {
        match tree_items(tree_variant(tree, "DiscoveryRes"@)->0) {
            Some(items) => if items.len() == 4 {
                match (
                    tree_text(items[0]),
                    tree_number(items[1]),
                    tree_text(items[2]),
                    tree_text(items[3]),
                ) {
                    (Some(ip), Some(port), Some(sender), Some(target)) => if port <= u16::MAX {
                        Some(DiscoveryPacketView::DiscoveryRes(ip, port as u16, sender, target))
                    } else {
                        None
                    },
                    _ => None,
                }
            } else {
                None
            },
            None => None,
        }
    } else {
        None
    }
}

/// The datagram that bytes stand for: `None` where they are not JSON or the
/// JSON value stands for no datagram.
pub open spec fn bytes_discovery(bytes: Seq<u8>) -> Option<DiscoveryPacketView> {
    match parsed_bytes(bytes) {
        Some(tree) => json_discovery(tree),
        None => None,
    }
}

/// Round trip: the JSON value that is written for a datagram is read back
/// as that datagram, equal in every part, and it can be written as text.
pub proof fn lemma_discovery_round_trip(packet: DiscoveryPacketView)
    ensures
        json_discovery(discovery_json(packet)) == Some(packet),
        writable(discovery_json(packet), MAX_NESTING as nat),
{
    reveal_strlit("Discovery");
    reveal_strlit("DiscoveryRes");
    assert("Discovery"@.len() == 9 && "DiscoveryRes"@.len() == 12);
    reveal_with_fuel(writable, 3);
    if packet is DiscoveryRes {
        assert(set!["DiscoveryRes"@].contains("DiscoveryRes"@));
    }
}

impl DiscoveryPacket {
    /// The datagram as a JSON value.
    pub fn to_json(&self) -> (json: Json)
        ensures
            json@ == discovery_json(self@),
    {
        let mut members: Vec<(String, Json)> = Vec::new();
        match self {
            DiscoveryPacket::Discovery(sender) => {
                put_member(&mut members, "Discovery", Json::Str(sender.clone()));
            },
            DiscoveryPacket::DiscoveryRes(ip, port, sender, target) => {
                let mut parts: Vec<Json> = Vec::new();
                parts.push(Json::Str(ip.clone()));
                parts.push(Json::Number(Some(*port as u64)));
                parts.push(Json::Str(sender.clone()));
                parts.push(Json::Str(target.clone()));
                proof {
                    lemma_array_view(parts);
                    assert(items_view(parts@) =~= seq![
                        JsonView::Str(ip@),
                        JsonView::Number(Some(*port as u64)),
                        JsonView::Str(sender@),
                        JsonView::Str(target@),
                    ]);
                }
                put_member(&mut members, "DiscoveryRes", Json::Array(parts));
            },
        }
        proof {
            lemma_object_view(members);
        }
        Json::Object(members)
    }

    /// The datagram that `json` stands for, if it stands for one.
    pub fn from_json(json: &Json) -> (packet: Option<DiscoveryPacket>)
        ensures
            match packet {
                Some(p) => json_discovery(json@) == Some(p@),
                None => json_discovery(json@) is None,
            },
    {
        if let Some(body) = json.variant("Discovery") {
            return match body.text() {
                Some(sender) => Some(DiscoveryPacket::Discovery(sender)),
                None => None,
            };
        }
        if let Some(body) = json.variant("DiscoveryRes") {
            return match body.items() {
                Some(items) => {
                    if items.len() == 4 {
                        match (
                            items[0].text(),
                            items[1].number(),
                            items[2].text(),
                            items[3].text(),
                        ) {
                            (Some(ip), Some(port), Some(sender), Some(target)) => {
                                if port <= 65535 {
                                    Some(
                                        DiscoveryPacket::DiscoveryRes(
                                            ip,
                                            port as u16,
                                            sender,
                                            target,
                                        ),
                                    )
                                } else {
                                    None
                                }
                            },
                            _ => None,
                        }
                    } else {
                        None
                    }
                },
                None => None,
            };
        }
        None
    }

    /// The datagram as it goes on the wire: its JSON text in UTF-8.
    pub fn encode(&self) -> (bytes: Vec<u8>)
        ensures
            bytes@ == encode_utf8(rendered(discovery_json(self@))),
    {
        proof {
            lemma_discovery_round_trip(self@);
        }
        let text = self.to_json().render();
        text.as_str().as_bytes_vec()
    }

    /// The datagram that `bytes` stand for: `None` where they are not JSON
    /// or stand for no datagram.
    pub fn decode(bytes: &[u8]) -> (packet: Option<DiscoveryPacket>)
        ensures
            match packet {
                Some(p) => bytes_discovery(bytes@) == Some(p@),
                None => bytes_discovery(bytes@) is None,
            },
    {
        match Json::parse_bytes(bytes) {
            Some(json) => DiscoveryPacket::from_json(&json),
            None => None,
        }
    }
}

/// What the node does with the bytes of a datagram: what
/// [`discovery_action`] says of the datagram that they stand for, and
/// nothing where they stand for none.
pub open spec fn datagram_action(
    bytes: Seq<u8>,
    ip: Seq<char>,
    port: u16,
    my_id: Seq<char>,
) -> DiscoveryActionView {
    match bytes_discovery(bytes) {
        Some(packet) => discovery_action(packet, ip, port, my_id),
        None => DiscoveryActionView::Ignore,
    }
}

/// Decides what to do with the bytes of a datagram that the listener heard.
/// Bytes that stand for no datagram are dropped.
pub fn receive_datagram(bytes: &[u8], ip: String, port: u16, my_id: String) -> (action:
    DiscoveryAction)
    ensures
        action@ == datagram_action(bytes@, ip@, port, my_id@),
{
    match DiscoveryPacket::decode(bytes) {
        Some(packet) => handle_packet_discovery(packet, ip, port, my_id),
        None => DiscoveryAction::Ignore,
    }
}

/// The sender of probes: it sends the same probe [`PROBE_COUNT`] times.
pub struct Broadcaster {
    id: String,
    sent: u8,
}

impl Broadcaster {
    /// The probes that are still to be sent.
    pub closed spec fn remaining(&self) -> nat {
        (PROBE_COUNT - self.sent) as nat
    }

    /// The id that the probes carry.
    pub closed spec fn id(&self) -> Seq<char> {
        self.id@
    }

    #[verifier::type_invariant]
    spec fn well_formed(&self) -> bool {
        self.sent <= PROBE_COUNT
    }

    /// A sender for the node `id` that has sent nothing yet.
    pub fn new(id: String) -> (broadcaster: Self)
        ensures
            broadcaster.id() == id@,
            broadcaster.remaining() == PROBE_COUNT,
    {
        Broadcaster { id, sent: 0 }
    }

    /// The next probe to send to the multicast group, as bytes, or `None`
    /// once all probes are out. After each probe the sender pauses for
    /// [`PROBE_INTERVAL_SECS`].
    pub fn next_probe(&mut self) -> (probe: Option<Vec<u8>>)
        ensures
            final(self).id() == old(self).id(),
            match probe {
                Some(bytes) => old(self).remaining() > 0 && final(self).remaining() == old(
                    self,
                ).remaining() - 1 && bytes@ == encode_utf8(
                    rendered(discovery_json(DiscoveryPacketView::Discovery(old(self).id()))),
                ),
                None => old(self).remaining() == 0 && final(self).remaining() == 0,
            },
    {
        proof {
            use_type_invariant(&*self);
        }
        if self.sent < PROBE_COUNT {
            self.sent = self.sent + 1;
            Some(DiscoveryPacket::Discovery(self.id.clone()).encode())
        } else {
            None
        }
    }
}

} // verus!
