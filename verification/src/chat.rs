//! The chat store: members, messages, and the roster and log that a node keeps.

use vstd::prelude::*;
use crate::clock::get_timestamp;
use crate::roster::{
    lemma_filter_of_unique_roster, lemma_filter_take_step, roster_add, roster_diff, roster_from,
    roster_has, roster_remove, roster_unique, roster_view,
};

verus! {

/// Identity record of one participant.
///
/// The `id` alone decides whether two records name the same participant.
#[derive(Debug, PartialEq, Eq)]
pub struct Member {
    pub ip: String,
    pub port: u16,
    pub username: String,
    pub id: String,
}

/// Mathematical model of a [`Member`].
pub struct MemberView {
    pub ip: Seq<char>,
    pub port: u16,
    pub username: Seq<char>,
    pub id: Seq<char>,
}

impl View for Member {
    type V = MemberView;

    open spec fn view(&self) -> MemberView {
        MemberView { ip: self.ip@, port: self.port, username: self.username@, id: self.id@ }
    }
}

impl Clone for Member {
    fn clone(&self) -> (res: Self)
        ensures
            res@ == self@,
    {
        Member {
            ip: self.ip.clone(),
            port: self.port,
            username: self.username.clone(),
            id: self.id.clone(),
        }
    }
}

impl Member {
    /// Builds the record from its four fields.
    pub fn new(username: String, ip: String, port: u16, id: String) -> (member: Self)
        ensures
            member.username == username,
            member.ip == ip,
            member.port == port,
            member.id == id,
    {
        Member { username, ip, port, id }
    }
}

/// One chat line: who wrote it, what it says, and when (seconds since the Unix epoch).
#[derive(Debug, PartialEq, Eq)]
pub struct Message {
    pub sender: Member,
    pub text: String,
    pub timestamp: u64,
}

/// Mathematical model of a [`Message`].
pub struct MessageView {
    pub sender: MemberView,
    pub text: Seq<char>,
    pub timestamp: u64,
}

impl View for Message {
    type V = MessageView;

    open spec fn view(&self) -> MessageView {
        MessageView { sender: self.sender@, text: self.text@, timestamp: self.timestamp }
    }
}

impl Clone for Message {
    fn clone(&self) -> (res: Self)
        ensures
            res@ == self@,
    {
        Message { sender: self.sender.clone(), text: self.text.clone(), timestamp: self.timestamp }
    }
}

impl Message {
    /// Builds the message from its three fields.
    pub fn new(sender: Member, text: String, timestamp: u64) -> (message: Self)
        ensures
            message.sender == sender,
            message.text == text,
            message.timestamp == timestamp,
    {
        Message { sender, text, timestamp }
    }
}

/// The models of a sequence of messages, in order.
pub open spec fn log_view(messages: Seq<Message>) -> Seq<MessageView> {
    messages.map_values(|m: Message| m@)
}

/// Whether some element of `members` carries the id `id`.
pub fn has_member(members: &Vec<Member>, id: &String) -> (found: bool)
    ensures
        found == roster_has(roster_view(members@), id@),
{
    let mut i: usize = 0;
    while i < members.len()
        invariant
            i <= members.len(),
            forall|k: int| 0 <= k < i ==> (#[trigger] roster_view(members@)[k]).id != id@,
        decreases members.len() - i,
    {
        if members[i].id == *id {
            assert(roster_view(members@)[i as int].id == id@);
            return true;
        }
        i += 1;
    }
    false
}

/// The members of `m_rec` whose id no member of `m_loc` carries, in the
/// order in which `m_rec` lists them.
pub fn get_members_diff(m_loc: &Vec<Member>, m_rec: &Vec<Member>) -> (diff: Vec<Member>)
    ensures
        roster_view(diff@) == roster_diff(roster_view(m_loc@), roster_view(m_rec@)),
{
    let ghost local = roster_view(m_loc@);
    let ghost remote = roster_view(m_rec@);
    let ghost is_new = |m: MemberView| !roster_has(local, m.id);
    let mut diff: Vec<Member> = Vec::new();
    let mut i: usize = 0;
    proof {
        reveal(Seq::filter);
    }
    while i < m_rec.len()
        invariant
            i <= m_rec.len(),
            local == roster_view(m_loc@),
            remote == roster_view(m_rec@),
            is_new == |m: MemberView| !roster_has(local, m.id),
            roster_view(diff@) == remote.take(i as int).filter(is_new),
        decreases m_rec.len() - i,
    {
        let known = has_member(m_loc, &m_rec[i].id);
        proof {
            lemma_filter_take_step(remote, i as int, is_new);
        }
        if !known {
            diff.push(m_rec[i].clone());
        }
        i += 1;
    }
    assert(remote.take(m_rec.len() as int) =~= remote);
    diff
}

/// The roster and the message log of one node.
///
/// No two members of the roster carry the same id.
#[derive(Debug)]
pub struct Chat {
    all_messages: Vec<Message>,
    members: Vec<Member>,
}

/// Mathematical model of a [`Chat`]: the log and the roster, both in order.
pub struct ChatView {
    pub all_messages: Seq<MessageView>,
    pub members: Seq<MemberView>,
}

impl View for Chat {
    type V = ChatView;

    closed spec fn view(&self) -> ChatView {
        ChatView {
            all_messages: log_view(self.all_messages@),
            members: roster_view(self.members@),
        }
    }
}

impl Chat {
    /// The roster holds each id at most once.
    #[verifier::type_invariant]
    pub open spec fn well_formed(&self) -> bool {
        roster_unique(self@.members)
    }

    /// An empty store: no message, no member.
    pub fn new() -> (chat: Self)
        ensures
            chat@.all_messages == Seq::<MessageView>::empty(),
            chat@.members == Seq::<MemberView>::empty(),
    {
        Chat { all_messages: Vec::new(), members: Vec::new() }
    }

    /// The store with the log `all_messages` and with the roster that
    /// results from offering the entries of `members` one after the other.
    pub fn from_parts(all_messages: Vec<Message>, members: Vec<Member>) -> (chat: Self)
        ensures
            chat@.all_messages == log_view(all_messages@),
            chat@.members == roster_from(roster_view(members@)),
    {
        let ghost offered = roster_view(members@);
        let mut chat = Chat::new();
        chat.set_all_messages(all_messages);
        let mut i: usize = 0;
        while i < members.len()
            invariant
                i <= members.len(),
                offered == roster_view(members@),
                chat@.all_messages == log_view(all_messages@),
                chat@.members == roster_from(offered.take(i as int)),
            decreases members.len() - i,
        {
            assert(offered.take(i as int + 1).drop_last() =~= offered.take(i as int));
            chat.add_member(members[i].clone());
            i += 1;
        }
        assert(offered.take(members.len() as int) =~= offered);
        chat
    }

    /// Takes the store apart into its log and its roster.
    pub fn into_parts(self) -> (parts: (Vec<Message>, Vec<Member>))
        ensures
            log_view(parts.0@) == self@.all_messages,
            roster_view(parts.1@) == self@.members,
            roster_unique(roster_view(parts.1@)),
    {
        proof {
            use_type_invariant(&self);
        }
        (self.all_messages, self.members)
    }

    /// The log, in order.
    pub fn messages(&self) -> (messages: &Vec<Message>)
        ensures
            log_view(messages@) == self@.all_messages,
    {
        &self.all_messages
    }

    /// The roster, in order.
    pub fn members(&self) -> (members: &Vec<Member>)
        ensures
            roster_view(members@) == self@.members,
    {
        &self.members
    }

    /// Replaces the whole log by `messages`; the roster stays.
    pub fn set_all_messages(&mut self, messages: Vec<Message>)
        ensures
            final(self)@.all_messages == log_view(messages@),
            final(self)@.members == old(self)@.members,
    {
        proof {
            use_type_invariant(&*self);
        }
        self.all_messages = messages;
    }

    /// Appends `message` to the log; the roster stays.
    pub fn add_message(&mut self, message: Message)
        ensures
            final(self)@.all_messages == old(self)@.all_messages.push(message@),
            final(self)@.members == old(self)@.members,
    {
        proof {
            use_type_invariant(&*self);
        }
        let mut log: Vec<Message> = Vec::new();
        std::mem::swap(&mut log, &mut self.all_messages);
        log.push(message);
        self.all_messages = log;
    }

    /// Appends a message of `sender` with the text `text`, stamped with the
    /// current time, and returns that time; the roster stays.
    pub fn store_messages(&mut self, sender: Member, text: String) -> (timestamp: u64)
        ensures
            final(self)@.all_messages == old(self)@.all_messages.push(
                MessageView { sender: sender@, text: text@, timestamp },
            ),
            final(self)@.members == old(self)@.members,
    {
        let timestamp = get_timestamp();
        self.add_message(Message::new(sender, text, timestamp));
        timestamp
    }

    /// Adds `member` at the end of the roster unless its id is already
    /// there; the log stays.
    pub fn add_member(&mut self, member: Member)
        ensures
            final(self)@.members == roster_add(old(self)@.members, member@),
            final(self)@.all_messages == old(self)@.all_messages,
    {
        proof {
            use_type_invariant(&*self);
        }
        if !has_member(&self.members, &member.id) {
            let mut roster: Vec<Member> = Vec::new();
            std::mem::swap(&mut roster, &mut self.members);
            roster.push(member);
            assert(roster_view(roster@) =~= old(self)@.members.push(member@));
            self.members = roster;
        }
    }

    /// Whether the roster holds a member with the id `id`.
    pub fn has_member(&self, id: &String) -> (found: bool)
        ensures
            found == roster_has(self@.members, id@),
    {
        has_member(&self.members, id)
    }

    /// The members of `remote_members` that the roster does not know by id:
    /// the peers that are still to be dialed.
    pub fn members_diff(&self, remote_members: &Vec<Member>) -> (new_members: Vec<Member>)
        ensures
            roster_view(new_members@) == roster_diff(self@.members, roster_view(remote_members@)),
    {
        get_members_diff(&self.members, remote_members)
    }

    /// Removes the member with the id `id` from the roster, if there is one;
    /// the log stays.
    pub fn remove_member(&mut self, id: &String)
        ensures
            final(self)@.members == roster_remove(old(self)@.members, id@),
            final(self)@.all_messages == old(self)@.all_messages,
    {
        proof {
            use_type_invariant(&*self);
        }
        let ghost roster = roster_view(self.members@);
        let ghost stays = |m: MemberView| m.id != id@;
        let mut kept: Vec<Member> = Vec::new();
        let mut i: usize = 0;
        proof {
            reveal(Seq::filter);
        }
        while i < self.members.len()
            invariant
                i <= self.members.len(),
                roster == roster_view(self.members@),
                stays == |m: MemberView| m.id != id@,
                roster_view(kept@) == roster.take(i as int).filter(stays),
            decreases self.members.len() - i,
        {
            proof {
                lemma_filter_take_step(roster, i as int, stays);
            }
            if self.members[i].id != *id {
                kept.push(self.members[i].clone());
            }
            i += 1;
        }
        proof {
            assert(roster.take(self.members.len() as int) =~= roster);
            lemma_filter_of_unique_roster(roster, stays);
        }
        self.members = kept;
    }

    /// A copy of the log, in order.
    pub fn get_all_local_messages(&self) -> (messages: Vec<Message>)
        ensures
            log_view(messages@) == self@.all_messages,
    {
        self.all_messages.clone()
    }

    /// A copy of the roster, in order.
    pub fn get_all_local_members(&self) -> (members: Vec<Member>)
        ensures
            roster_view(members@) == self@.members,
    {
        self.members.clone()
    }
}

impl Clone for Chat {
    fn clone(&self) -> (res: Self)
        ensures
            res@ == self@,
    {
        proof {
            use_type_invariant(self);
        }
        let all_messages = self.all_messages.clone();
        let members = self.members.clone();
        assert(log_view(all_messages@) =~= log_view(self.all_messages@));
        assert(roster_view(members@) =~= roster_view(self.members@));
        Chat { all_messages, members }
    }
}

} // verus!
