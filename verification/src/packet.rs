//! The wire messages that two connected nodes exchange.

use vstd::prelude::*;
use crate::chat::{Chat, ChatView, Member, MemberView, Message, MessageView};

verus! {

/// One message of the protocol between two connected nodes.
#[derive(Debug)]
pub enum Packet {
    /// A chat line written by the user of the sending node.
    UserMessage(Message),
    /// Asks the receiver for a snapshot of its store.
    InitSyncRequest,
    /// A snapshot of the sender's store.
    Sync(Chat),
    /// The sender's identity; the flag asks the receiver to answer with its own.
    Identity(Member, bool),
}

/// Mathematical model of a [`Packet`].
pub enum PacketView {
    UserMessage(MessageView),
    InitSyncRequest,
    Sync(ChatView),
    Identity(MemberView, bool),
}

impl View for Packet {
    type V = PacketView;

    open spec fn view(&self) -> PacketView {
        match self {
            Packet::UserMessage(message) => PacketView::UserMessage(message@),
            Packet::InitSyncRequest => PacketView::InitSyncRequest,
            Packet::Sync(chat) => PacketView::Sync(chat@),
            Packet::Identity(member, request_back) => PacketView::Identity(member@, *request_back),
        }
    }
}

impl Clone for Packet {
    fn clone(&self) -> (res: Self)
        ensures
            res@ == self@,
    {
        match self {
            Packet::UserMessage(message) => Packet::UserMessage(message.clone()),
            Packet::InitSyncRequest => Packet::InitSyncRequest,
            Packet::Sync(chat) => Packet::Sync(chat.clone()),
            Packet::Identity(member, request_back) => Packet::Identity(member.clone(), *request_back),
        }
    }
}

/// The models of a sequence of packets, in order.
pub open spec fn packets_view(packets: Seq<Packet>) -> Seq<PacketView> {
    packets.map_values(|p: Packet| p@)
}

} // verus!
