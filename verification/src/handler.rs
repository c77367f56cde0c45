//! The packet handler: what one received packet does to the store, and what
//! the node answers, shows and dials because of it.

use vstd::prelude::*;
use crate::chat::{log_view, Chat, ChatView, Member, MemberView, Message, MessageView};
use crate::roster::{
    lemma_add_member_idempotent, lemma_diff_is_new_and_unique, lemma_filter_members, roster_add,
    roster_diff, roster_has, roster_unique, roster_view,
};
use crate::packet::{packets_view, Packet, PacketView};

verus! {

/// What a handled packet surfaces for display.
#[derive(Debug)]
pub enum Shown {
    /// Nothing is shown.
    Nothing,
    /// One message that just arrived.
    Message(Message),
    /// The whole log, after it was replaced.
    History(Vec<Message>),
}

/// Mathematical model of a [`Shown`].
pub enum ShownView {
    Nothing,
    Message(MessageView),
    History(Seq<MessageView>),
}

impl View for Shown {
    type V = ShownView;

    open spec fn view(&self) -> ShownView {
        match self {
            Shown::Nothing => ShownView::Nothing,
            Shown::Message(message) => ShownView::Message(message@),
            Shown::History(messages) => ShownView::History(log_view(messages@)),
        }
    }
}

/// What the node does after a packet was handled: the packets to enqueue on
/// the queue of the session that received it, the peers to dial, and what to
/// show.
#[derive(Debug)]
pub struct Reaction {
    pub replies: Vec<Packet>,
    pub dials: Vec<Member>,
    pub shown: Shown,
}

/// Mathematical model of a [`Reaction`].
pub struct ReactionView {
    pub replies: Seq<PacketView>,
    pub dials: Seq<MemberView>,
    pub shown: ShownView,
}

impl View for Reaction {
    type V = ReactionView;

    open spec fn view(&self) -> ReactionView {
        ReactionView {
            replies: packets_view(self.replies@),
            dials: roster_view(self.dials@),
            shown: self.shown@,
        }
    }
}

/// The store after `packet` was handled.
///
/// A user message is appended to the log. A snapshot replaces the log as a
/// whole and adds the members that were not known. An identity adds its
/// member unless the id is known. A request for a snapshot changes nothing.
pub open spec fn chat_after(packet: PacketView, chat: ChatView) -> ChatView {
    match packet {
        PacketView::UserMessage(message) => ChatView {
            all_messages: chat.all_messages.push(message),
            members: chat.members,
        },
        PacketView::InitSyncRequest => chat,
        PacketView::Sync(remote) => ChatView {
            all_messages: remote.all_messages,
            members: chat.members + roster_diff(chat.members, remote.members),
        },
        PacketView::Identity(member, _) => ChatView {
            all_messages: chat.all_messages,
            members: roster_add(chat.members, member),
        },
    }
}

/// What the node does because of `packet`, given the store before it.
///
/// A user message is shown and neither answered nor forwarded. A request
/// for a snapshot is answered with the store as it is. A snapshot shows the
/// new log and has every member that was not known dialed. An identity is
/// answered with the node's own, flagged so that it is not answered again,
/// where the sender asked for it.
pub open spec fn reaction_to(packet: PacketView, chat: ChatView, myself: MemberView) -> ReactionView {
    match packet {
        PacketView::UserMessage(message) => ReactionView {
            replies: Seq::empty(),
            dials: Seq::empty(),
            shown: ShownView::Message(message),
        },
        PacketView::InitSyncRequest => ReactionView {
            replies: seq![PacketView::Sync(chat)],
            dials: Seq::empty(),
            shown: ShownView::Nothing,
        },
        PacketView::Sync(remote) => ReactionView {
            replies: Seq::empty(),
            dials: roster_diff(chat.members, remote.members),
            shown: ShownView::History(remote.all_messages),
        },
        PacketView::Identity(_, request_back) => ReactionView {
            replies: if request_back {
                seq![PacketView::Identity(myself, false)]
            } else {
                Seq::empty()
            },
            dials: Seq::empty(),
            shown: ShownView::Nothing,
        },
    }
}

/// The roster holds each id once in every state: handling a packet keeps it
/// so. The roster of a snapshot holds each id once, as it does in every
/// store.
pub proof fn lemma_handling_keeps_roster_unique(packet: PacketView, chat: ChatView)
    requires
        roster_unique(chat.members),
        packet matches PacketView::Sync(remote) ==> roster_unique(remote.members),
    ensures
        roster_unique(chat_after(packet, chat).members),
{
    match packet {
        PacketView::Sync(remote) => {
            let added = roster_diff(chat.members, remote.members);
            let after = chat.members + added;
            lemma_diff_is_new_and_unique(chat.members, remote.members);
            assert forall|i: int, j: int| 0 <= i < j < after.len() implies (#[trigger] after[i]).id
                != (#[trigger] after[j]).id by {
                if chat.members.len() <= j {
                    assert(after[j] == added[j - chat.members.len()]);
                }
            }
        },
        PacketView::Identity(member, _) => {
            lemma_add_member_idempotent(chat.members, member, member);
        },
        _ => {},
    }
}

/// A snapshot teaches the whole roster of its sender: after it was handled,
/// the store holds the log of the snapshot and knows every member that the
/// snapshot names, and the members that it did not know before are the ones
/// to dial.
pub proof fn lemma_sync_learns_every_member(remote: ChatView, chat: ChatView, myself: MemberView)
    ensures
        chat_after(PacketView::Sync(remote), chat).all_messages == remote.all_messages,
        forall|id: Seq<char>|
            roster_has(remote.members, id) || roster_has(chat.members, id) ==> #[trigger] roster_has(
                chat_after(PacketView::Sync(remote), chat).members,
                id,
            ),
        forall|id: Seq<char>|
            #[trigger] roster_has(reaction_to(PacketView::Sync(remote), chat, myself).dials, id) <==> (
            roster_has(remote.members, id) && !roster_has(chat.members, id)),
{
    let is_new = |m: MemberView| !roster_has(chat.members, m.id);
    let added = roster_diff(chat.members, remote.members);
    let after = chat.members + added;
    lemma_filter_members(remote.members, is_new);
    assert forall|id: Seq<char>| #[trigger] roster_has(added, id) <==> (roster_has(
        remote.members,
        id,
    ) && !roster_has(chat.members, id)) by {
        if roster_has(added, id) {
            let j = choose|j: int| 0 <= j < added.len() && (#[trigger] added[j]).id == id;
            let k = choose|k: int| 0 <= k < remote.members.len() && remote.members[k] == added[j];
            assert(remote.members[k].id == id);
        }
        if roster_has(remote.members, id) && !roster_has(chat.members, id) {
            let k = choose|k: int|
                0 <= k < remote.members.len() && (#[trigger] remote.members[k]).id == id;
            assert(is_new(remote.members[k]));
            let j = choose|j: int| 0 <= j < added.len() && added[j] == remote.members[k];
            assert(added[j].id == id);
        }
    }
    assert forall|id: Seq<char>|
        roster_has(remote.members, id) || roster_has(chat.members, id) implies #[trigger] roster_has(
        after,
        id,
    ) by {
        if roster_has(chat.members, id) {
            let i = choose|i: int| 0 <= i < chat.members.len() && (#[trigger] chat.members[i]).id == id;
            assert(after[i].id == id);
        } else {
            let j = choose|j: int| 0 <= j < added.len() && (#[trigger] added[j]).id == id;
            assert(after[chat.members.len() + j].id == id);
        }
    }
}

/// The exchange of identities ends after one answer: whatever a node
/// answers to an identity is itself answered with nothing.
pub proof fn lemma_identity_exchange_ends(
    member: MemberView,
    request_back: bool,
    chat: ChatView,
    myself: MemberView,
    peer_chat: ChatView,
    peer: MemberView,
)
    ensures
        forall|i: int|
            0 <= i < reaction_to(
                PacketView::Identity(member, request_back),
                chat,
                myself,
            ).replies.len() ==> reaction_to(
                #[trigger] reaction_to(
                    PacketView::Identity(member, request_back),
                    chat,
                    myself,
                ).replies[i],
                peer_chat,
                peer,
            ).replies.len() == 0,
{
}

/// Adds every member of `new_members` to the roster of `chat`.
fn add_new_members(chat: &mut Chat, new_members: &Vec<Member>)
    requires
        roster_unique(roster_view(new_members@)),
        forall|j: int|
            0 <= j < new_members@.len() ==> !roster_has(
                old(chat)@.members,
                (#[trigger] roster_view(new_members@)[j]).id,
            ),
    ensures
        final(chat)@.members == old(chat)@.members + roster_view(new_members@),
        final(chat)@.all_messages == old(chat)@.all_messages,
{
    let ghost added = roster_view(new_members@);
    let ghost before = chat@.members;
    let mut i: usize = 0;
    while i < new_members.len()
        invariant
            i <= new_members.len(),
            added == roster_view(new_members@),
            roster_unique(added),
            forall|j: int| 0 <= j < added.len() ==> !roster_has(before, (#[trigger] added[j]).id),
            chat@.members == before + added.take(i as int),
            chat@.all_messages == old(chat)@.all_messages,
        decreases new_members.len() - i,
    {
        let ghost roster = chat@.members;
        assert(!roster_has(roster, added[i as int].id)) by {
            if roster_has(roster, added[i as int].id) {
                let k = choose|k: int|
                    0 <= k < roster.len() && (#[trigger] roster[k]).id == added[i as int].id;
                assert(k < before.len() ==> roster[k] == before[k]);
            }
        }
        chat.add_member(new_members[i].clone());
        i += 1;
    }
}

/// Handles one packet that a session received: changes the store as
/// [`chat_after`] says and returns what [`reaction_to`] says.
///
/// It sends nothing itself: the replies are for the queue of the session
/// that received the packet, and each dialed peer is greeted on its new link.
pub fn handle_packet(packet: Packet, chat: &mut Chat, myself: &Member) -> (reaction: Reaction)
    ensures
        final(chat)@ == chat_after(packet@, old(chat)@),
        reaction@ == reaction_to(packet@, old(chat)@, myself@),
{
    match packet {
        Packet::UserMessage(message) => {
            let shown = Shown::Message(message.clone());
            chat.add_message(message);
            let reaction = Reaction { replies: Vec::new(), dials: Vec::new(), shown };
            assert(reaction@.replies =~= Seq::<PacketView>::empty());
            assert(reaction@.dials =~= Seq::<MemberView>::empty());
            reaction
        },
        Packet::InitSyncRequest => {
            let mut replies: Vec<Packet> = Vec::new();
            replies.push(Packet::Sync(chat.clone()));
            let reaction = Reaction { replies, dials: Vec::new(), shown: Shown::Nothing };
            assert(reaction@.replies =~= seq![PacketView::Sync(chat@)]);
            assert(reaction@.dials =~= Seq::<MemberView>::empty());
            reaction
        },
        Packet::Sync(remote) => {
            let (history, remote_members) = remote.into_parts();
            proof {
                lemma_diff_is_new_and_unique(chat@.members, roster_view(remote_members@));
            }
            let dials = chat.members_diff(&remote_members);
            let log = history.clone();
            assert(log_view(log@) =~= log_view(history@));
            chat.set_all_messages(log);
            add_new_members(chat, &dials);
            let reaction = Reaction { replies: Vec::new(), dials, shown: Shown::History(history) };
            assert(reaction@.replies =~= Seq::<PacketView>::empty());
            reaction
        },
        Packet::Identity(member, request_back) => {
            chat.add_member(member);
            let mut replies: Vec<Packet> = Vec::new();
            if request_back {
                replies.push(Packet::Identity(myself.clone(), false));
            }
            let reaction = Reaction { replies, dials: Vec::new(), shown: Shown::Nothing };
            assert(reaction@.replies =~= if request_back {
                seq![PacketView::Identity(myself@, false)]
            } else {
                Seq::<PacketView>::empty()
            });
            assert(reaction@.dials =~= Seq::<MemberView>::empty());
            reaction
        },
    }
}

} // verus!
