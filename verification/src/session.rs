//! One connection to a peer: what it sends when it opens, what it does with
//! each line that it reads, and what it leaves behind when the peer is gone.

use vstd::prelude::*;
use crate::chat::{Chat, ChatView, Member, MemberView};
use crate::handler::{
    chat_after, handle_packet, lemma_sync_learns_every_member, reaction_to, Reaction, ReactionView,
};
use crate::packet::{packets_view, Packet, PacketView};
use crate::roster::{lemma_removed_member_is_gone, roster_add, roster_has, roster_remove};
use crate::wire::text_packet;

verus! {

/// The line without the white space at its two ends, as `str::trim` gives it.
pub uninterp spec fn trimmed(line: Seq<char>) -> Seq<char>;

/// `str::trim` of std: the part of the line between the white space at its
/// two ends. The result is a function of the line: it is named by
/// [`trimmed`].
pub assume_specification[ str::trim ](line: &str) -> (inner: &str)
    ensures
        inner@ == trimmed(line@),
;

/// What one read from the stream of a session brought.
#[derive(Debug)]
pub enum Received {
    /// The peer closed the stream, or the read failed.
    Closed,
    /// A line that stands for no packet.
    Malformed,
    /// A packet.
    Packet(Packet),
}

/// Mathematical model of a [`Received`].
pub enum ReceivedView {
    Closed,
    Malformed,
    Packet(PacketView),
}

impl View for Received {
    type V = ReceivedView;

    open spec fn view(&self) -> ReceivedView {
        match self {
            Received::Closed => ReceivedView::Closed,
            Received::Malformed => ReceivedView::Malformed,
            Received::Packet(packet) => ReceivedView::Packet(packet@),
        }
    }
}

/// What a read stands for. `read` is the number of bytes that the read
/// brought, `None` where it failed, and `line` is what it brought.
///
/// A failed read and a read of nothing mean that the stream is closed. Every
/// other read brought one line, which is a packet or is malformed.
pub open spec fn received_of(read: Option<usize>, line: Seq<char>) -> ReceivedView {
    match read {
        None => ReceivedView::Closed,
        Some(count) => if count == 0 {
            ReceivedView::Closed
        } else {
            match text_packet(trimmed(line)) {
                Some(packet) => ReceivedView::Packet(packet),
                None => ReceivedView::Malformed,
            }
        },
    }
}

/// Turns the outcome of reading one line into what the session received.
pub fn get_packet(read: Option<usize>, line: &str) -> (received: Received)
    ensures
        received@ == received_of(read, line@),
{
    match read {
        None => Received::Closed,
        Some(count) => {
            if count == 0 {
                Received::Closed
            } else {
                match Packet::decode(line.trim()) {
                    Some(packet) => Received::Packet(packet),
                    None => Received::Malformed,
                }
            }
        },
    }
}

/// How a session came to be.
#[derive(Clone, Copy, Debug, PartialEq, Eq, Structural)]
pub enum Role {
    /// This node dialed the peer, by request or after discovery.
    Dialed,
    /// This node dialed the peer because a snapshot named it.
    Repair,
    /// The peer dialed this node.
    Accepted,
}

/// Where a session stands.
#[derive(Clone, Copy, Debug, PartialEq, Eq, Structural)]
pub enum Phase {
    /// Connected, the opening packets not yet sent.
    Connecting,
    /// Reading packets.
    Open,
    /// The peer is gone.
    Closed,
}

/// The state of one session.
#[derive(Debug)]
pub struct Session {
    role: Role,
    phase: Phase,
    remote_id: Option<String>,
}

/// Mathematical model of a [`Session`].
pub struct SessionView {
    pub role: Role,
    pub phase: Phase,
    pub remote_id: Option<Seq<char>>,
}

impl View for Session {
    type V = SessionView;

    closed spec fn view(&self) -> SessionView {
        SessionView {
            role: self.role,
            phase: self.phase,
            remote_id: match self.remote_id {
                Some(id) => Some(id@),
                None => None,
            },
        }
    }
}

/// What a session was told to do with what it received.
#[derive(Debug)]
pub enum Step {
    /// The session has ended: stop reading.
    Stop,
    /// The line was dropped: read on.
    Dropped,
    /// The packet was handled: act on the reaction and read on.
    Handled(Reaction),
}

/// Mathematical model of a [`Step`].
pub enum StepView {
    Stop,
    Dropped,
    Handled(ReactionView),
}

impl View for Step {
    type V = StepView;

    open spec fn view(&self) -> StepView {
        match self {
            Step::Stop => StepView::Stop,
            Step::Dropped => StepView::Dropped,
            Step::Handled(reaction) => StepView::Handled(reaction@),
        }
    }
}

/// The packets that a session sends when it opens: a dialed one introduces
/// the node, asks for the peer's identity and for a snapshot; one dialed for
/// repair only introduces the node; an accepted one sends nothing.
pub open spec fn opening_packets(role: Role, myself: MemberView) -> Seq<PacketView> {
    match role {
        Role::Dialed => seq![PacketView::Identity(myself, true), PacketView::InitSyncRequest],
        Role::Repair => seq![PacketView::Identity(myself, false)],
        Role::Accepted => Seq::empty(),
    }
}

/// The session after it received something. A closed session stays as it
/// is. The end of the stream closes it. An identity sets the id of the peer.
pub open spec fn session_after(session: SessionView, received: ReceivedView) -> SessionView {
    if session.phase is Closed {
        session
    } else {
        match received {
            ReceivedView::Closed => SessionView { phase: Phase::Closed, ..session },
            ReceivedView::Malformed => session,
            ReceivedView::Packet(packet) => match packet {
                PacketView::Identity(member, _) => SessionView {
                    remote_id: Some(member.id),
                    ..session
                },
                _ => session,
            },
        }
    }
}

/// The store after a session received something. At the end of the stream
/// the peer leaves the roster, where its id is known. A malformed line
/// changes nothing. A packet changes what the handler says.
pub open spec fn store_after(session: SessionView, received: ReceivedView, chat: ChatView) -> ChatView {
    if session.phase is Closed {
        chat
    } else {
        match received {
            ReceivedView::Closed => match session.remote_id {
                Some(id) => ChatView {
                    all_messages: chat.all_messages,
                    members: roster_remove(chat.members, id),
                },
                None => chat,
            },
            ReceivedView::Malformed => chat,
            ReceivedView::Packet(packet) => chat_after(packet, chat),
        }
    }
}

/// What a session is told to do with what it received.
pub open spec fn step_after(
    session: SessionView,
    received: ReceivedView,
    chat: ChatView,
    myself: MemberView,
) -> StepView {
    if session.phase is Closed {
        StepView::Stop
    } else {
        match received {
            ReceivedView::Closed => StepView::Stop,
            ReceivedView::Malformed => StepView::Dropped,
            ReceivedView::Packet(packet) => StepView::Handled(reaction_to(packet, chat, myself)),
        }
    }
}

/// End of stream: a session that reads nothing more stops and is closed.
/// Where the id of its peer was known, no member with that id is left in
/// the roster, and every other member is still there; where it was not
/// known, the roster is as it was. The log stays either way.
pub proof fn lemma_end_of_stream(session: SessionView, chat: ChatView, myself: MemberView)
    requires
        !(session.phase is Closed),
    ensures
        session_after(session, ReceivedView::Closed).phase is Closed,
        step_after(session, ReceivedView::Closed, chat, myself) is Stop,
        store_after(session, ReceivedView::Closed, chat).all_messages == chat.all_messages,
        session.remote_id is None ==> store_after(session, ReceivedView::Closed, chat) == chat,
        session.remote_id matches Some(id) ==> {
            let roster = store_after(session, ReceivedView::Closed, chat).members;
            &&& !roster_has(roster, id)
            &&& forall|other: Seq<char>|
                other != id ==> (#[trigger] roster_has(roster, other)) == roster_has(
                    chat.members,
                    other,
                )
        },
{
    if let Some(id) = session.remote_id {
        lemma_removed_member_is_gone(chat.members, id);
    }
}

/// First contact: a node dials a peer and sends what a dialed session opens
/// with; the peer handles both packets, and the node handles the two
/// answers. Then the peer has answered with its identity, asking nothing
/// back, and with a snapshot; the peer knows the node; and the node has the
/// log of the peer and knows every member that the peer knows.
pub proof fn lemma_first_contact(
    node: MemberView,
    node_chat: ChatView,
    peer: MemberView,
    peer_chat: ChatView,
)
    ensures
        ({
            let opening = opening_packets(Role::Dialed, node);
            let peer_first = chat_after(opening[0], peer_chat);
            let first_answers = reaction_to(opening[0], peer_chat, peer).replies;
            let peer_second = chat_after(opening[1], peer_first);
            let second_answers = reaction_to(opening[1], peer_first, peer).replies;
            let node_first = chat_after(first_answers[0], node_chat);
            let node_second = chat_after(second_answers[0], node_first);
            &&& opening.len() == 2
            &&& first_answers == seq![PacketView::Identity(peer, false)]
            &&& second_answers == seq![PacketView::Sync(peer_second)]
            &&& peer_second.all_messages == peer_chat.all_messages
            &&& roster_has(peer_second.members, node.id)
            &&& node_second.all_messages == peer_second.all_messages
            &&& forall|id: Seq<char>|
                roster_has(peer_second.members, id) ==> #[trigger] roster_has(
                    node_second.members,
                    id,
                )
        }),
{
    let joined = roster_add(peer_chat.members, node);
    if !roster_has(peer_chat.members, node.id) {
        assert(joined[peer_chat.members.len() as int].id == node.id);
    }
    let peer_second = ChatView { all_messages: peer_chat.all_messages, members: joined };
    let node_first = chat_after(PacketView::Identity(peer, false), node_chat);
    lemma_sync_learns_every_member(peer_second, node_first, node);
}

impl Session {
    /// A new session: open at once where the peer dialed, else still to be
    /// opened. The id of the peer is not known.
    pub fn new(role: Role) -> (session: Self)
        ensures
            session@.role == role,
            session@.phase == if role is Accepted {
                Phase::Open
            } else {
                Phase::Connecting
            },
            session@.remote_id is None,
    {
        let phase = match role {
            Role::Accepted => Phase::Open,
            _ => Phase::Connecting,
        };
        Session { role, phase, remote_id: None }
    }

    /// How the session came to be.
    pub fn role(&self) -> (role: Role)
        ensures
            role == self@.role,
    {
        self.role
    }

    /// Where the session stands.
    pub fn phase(&self) -> (phase: Phase)
        ensures
            phase == self@.phase,
    {
        self.phase
    }

    /// The id of the peer, once an identity has come from it.
    pub fn remote_id(&self) -> (id: Option<String>)
        ensures
            match id {
                Some(id) => self@.remote_id == Some(id@),
                None => self@.remote_id is None,
            },
    {
        match &self.remote_id {
            Some(id) => Some(id.clone()),
            None => None,
        }
    }

    /// Opens a session that is still connecting and returns the packets to
    /// write first, in order. On any other session it changes nothing and
    /// returns none.
    pub fn open(&mut self, myself: &Member) -> (packets: Vec<Packet>)
        ensures
            packets_view(packets@) == if old(self)@.phase is Connecting {
                opening_packets(old(self)@.role, myself@)
            } else {
                Seq::empty()
            },
            final(self)@ == if old(self)@.phase is Connecting {
                SessionView { phase: Phase::Open, ..old(self)@ }
            } else {
                old(self)@
            },
    {
        let mut packets: Vec<Packet> = Vec::new();
        if let Phase::Connecting = self.phase {
            match self.role {
                Role::Dialed => {
                    packets.push(Packet::Identity(myself.clone(), true));
                    packets.push(Packet::InitSyncRequest);
                },
                Role::Repair => {
                    packets.push(Packet::Identity(myself.clone(), false));
                },
                Role::Accepted => {},
            }
            self.phase = Phase::Open;
        }
        packets
    }

    /// Takes what the session received and says what to do next.
    ///
    /// At the end of the stream the session closes and its peer, where its
    /// id is known, leaves the roster. A malformed line is dropped and the
    /// session stays open. A packet is handled; an identity sets the id of
    /// the peer first.
    pub fn receive(&mut self, received: Received, chat: &mut Chat, myself: &Member) -> (step: Step)
        ensures
            final(self)@ == session_after(old(self)@, received@),
            final(chat)@ == store_after(old(self)@, received@, old(chat)@),
            step@ == step_after(old(self)@, received@, old(chat)@, myself@),
    {
        if let Phase::Closed = self.phase {
            return Step::Stop;
        }
        match received {
            Received::Closed => {
                if let Some(id) = &self.remote_id {
                    chat.remove_member(id);
                }
                self.phase = Phase::Closed;
                Step::Stop
            },
            Received::Malformed => Step::Dropped,
            Received::Packet(packet) => {
                if let Packet::Identity(member, _) = &packet {
                    self.remote_id = Some(member.id.clone());
                }
                Step::Handled(handle_packet(packet, chat, myself))
            },
        }
    }
}

} // verus!
