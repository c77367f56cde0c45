//! The wire format: how members, messages, snapshots and packets are written
//! as JSON, and how they are read back.

use vstd::prelude::*;
use crate::chat::{log_view, Chat, ChatView, Member, MemberView, Message, MessageView};
use crate::json::{
    items_view, lemma_array_view, lemma_object_view, lemma_writable_deeper, members_view,
    parsed_text, put_member, rendered, tree_flag, tree_items, tree_member, tree_number,
    tree_text, tree_variant, writable, Json, JsonView, MAX_NESTING,
};
use crate::packet::{Packet, PacketView};
use crate::roster::{lemma_roster_from_unique, roster_from, roster_unique, roster_view};
use vstd::utf8::encode_utf8;

verus! {

/// The JSON object that stands for a member: its four fields by name.
pub open spec fn member_json(member: MemberView) -> JsonView {
    JsonView::Object(
        Map::empty().insert("ip"@, JsonView::Str(member.ip)).insert(
            "port"@,
            JsonView::Number(Some(member.port as u64)),
        ).insert("username"@, JsonView::Str(member.username)).insert(
            "id"@,
            JsonView::Str(member.id),
        ),
    )
}

/// The member that a JSON value stands for: an object with the strings `ip`,
/// `username` and `id` and a number `port` below 65536. Other members of the
/// object are passed over.
pub open spec fn json_member(tree: JsonView) -> Option<MemberView> {
    match (
        tree_member(tree, "ip"@),
        tree_member(tree, "port"@),
        tree_member(tree, "username"@),
        tree_member(tree, "id"@),
    ) {
        (Some(ip), Some(port), Some(username), Some(id)) => match (
            tree_text(ip),
            tree_number(port),
            tree_text(username),
            tree_text(id),
        ) {
            (Some(ip), Some(port), Some(username), Some(id)) => if port <= u16::MAX {
                Some(MemberView { ip, port: port as u16, username, id })
            } else {
                None
            },
            _ => None,
        },
        _ => None,
    }
}

/// The names of a member's fields differ from each other.
proof fn lemma_member_names()
    ensures
        "ip"@ != "port"@,
        "ip"@ != "username"@,
        "ip"@ != "id"@,
        "port"@ != "username"@,
        "port"@ != "id"@,
        "username"@ != "id"@,
{
    reveal_strlit("ip");
    reveal_strlit("port");
    reveal_strlit("username");
    reveal_strlit("id");
    assert("ip"@.len() == 2 && "port"@.len() == 4 && "username"@.len() == 8);
    assert("ip"@[1] != "id"@[1]);
}

/// The JSON value that is written for a member is read back as that member,
/// and it can be written as text.
pub proof fn lemma_member_round_trip(member: MemberView)
    ensures
        json_member(member_json(member)) == Some(member),
        writable(member_json(member), 1),
{
    lemma_member_names();
    reveal_with_fuel(writable, 2);
}

impl Member {
    /// The member as a JSON value.
    pub fn to_json(&self) -> (json: Json)
        ensures
            json@ == member_json(self@),
    {
        let mut members: Vec<(String, Json)> = Vec::new();
        put_member(&mut members, "ip", Json::Str(self.ip.clone()));
        put_member(&mut members, "port", Json::Number(Some(self.port as u64)));
        put_member(&mut members, "username", Json::Str(self.username.clone()));
        put_member(&mut members, "id", Json::Str(self.id.clone()));
        proof {
            lemma_object_view(members);
        }
        Json::Object(members)
    }

    /// The member that `json` stands for, if it stands for one.
    pub fn from_json(json: &Json) -> (member: Option<Member>)
        ensures
            match member {
                Some(m) => json_member(json@) == Some(m@),
                None => json_member(json@) is None,
            },
    {
        let ip = match json.member("ip") {
            Some(value) => value.text(),
            None => None,
        };
        let port = match json.member("port") {
            Some(value) => value.number(),
            None => None,
        };
        let username = match json.member("username") {
            Some(value) => value.text(),
            None => None,
        };
        let id = match json.member("id") {
            Some(value) => value.text(),
            None => None,
        };
        match (ip, port, username, id) {
            (Some(ip), Some(port), Some(username), Some(id)) => {
                if port <= 65535 {
                    Some(Member { ip, port: port as u16, username, id })
                } else {
                    None
                }
            },
            _ => None,
        }
    }
}

/// The JSON object that stands for a message: its three fields by name.
pub open spec fn message_json(message: MessageView) -> JsonView {
    JsonView::Object(
        Map::empty().insert("sender"@, member_json(message.sender)).insert(
            "text"@,
            JsonView::Str(message.text),
        ).insert("timestamp"@, JsonView::Number(Some(message.timestamp))),
    )
}

/// The message that a JSON value stands for: an object with a member
/// `sender`, a string `text` and a number `timestamp` within 64 bits.
pub open spec fn json_message(tree: JsonView) -> Option<MessageView> {
    match (
        tree_member(tree, "sender"@),
        tree_member(tree, "text"@),
        tree_member(tree, "timestamp"@),
    ) {
        (Some(sender), Some(text), Some(timestamp)) => match (
            json_member(sender),
            tree_text(text),
            tree_number(timestamp),
        ) {
            (Some(sender), Some(text), Some(timestamp)) => Some(
                MessageView { sender, text, timestamp },
            ),
            _ => None,
        },
        _ => None,
    }
}

/// The names of a message's fields differ from each other.
proof fn lemma_message_names()
    ensures
        "sender"@ != "text"@,
        "sender"@ != "timestamp"@,
        "text"@ != "timestamp"@,
{
    reveal_strlit("sender");
    reveal_strlit("text");
    reveal_strlit("timestamp");
    assert("sender"@.len() == 6 && "text"@.len() == 4 && "timestamp"@.len() == 9);
}

/// The JSON value that is written for a message is read back as that
/// message, and it can be written as text.
pub proof fn lemma_message_round_trip(message: MessageView)
    ensures
        json_message(message_json(message)) == Some(message),
        writable(message_json(message), 2),
{
    lemma_message_names();
    lemma_member_round_trip(message.sender);
    reveal_with_fuel(writable, 2);
}

impl Message {
    /// The message as a JSON value.
    pub fn to_json(&self) -> (json: Json)
        ensures
            json@ == message_json(self@),
    {
        let mut members: Vec<(String, Json)> = Vec::new();
        put_member(&mut members, "sender", self.sender.to_json());
        put_member(&mut members, "text", Json::Str(self.text.clone()));
        put_member(&mut members, "timestamp", Json::Number(Some(self.timestamp)));
        proof {
            lemma_object_view(members);
        }
        Json::Object(members)
    }

    /// The message that `json` stands for, if it stands for one.
    pub fn from_json(json: &Json) -> (message: Option<Message>)
        ensures
            match message {
                Some(m) => json_message(json@) == Some(m@),
                None => json_message(json@) is None,
            },
    {
        let sender = match json.member("sender") {
            Some(value) => Member::from_json(value),
            None => None,
        };
        let text = match json.member("text") {
            Some(value) => value.text(),
            None => None,
        };
        let timestamp = match json.member("timestamp") {
            Some(value) => value.number(),
            None => None,
        };
        match (sender, text, timestamp) {
            (Some(sender), Some(text), Some(timestamp)) => Some(
                Message { sender, text, timestamp },
            ),
            _ => None,
        }
    }
}

/// The JSON values that stand for the messages of a log, in order.
pub open spec fn log_json(log: Seq<MessageView>) -> Seq<JsonView> {
    Seq::new(log.len(), |i: int| message_json(log[i]))
}

/// The JSON values that stand for the members of a roster, in order.
pub open spec fn roster_json(roster: Seq<MemberView>) -> Seq<JsonView> {
    Seq::new(roster.len(), |i: int| member_json(roster[i]))
}

/// The log that a list of JSON values stands for: `None` unless every one of
/// them stands for a message.
pub open spec fn json_log(items: Seq<JsonView>) -> Option<Seq<MessageView>> {
    if forall|i: int| 0 <= i < items.len() ==> json_message(#[trigger] items[i]) is Some {
        Some(Seq::new(items.len(), |i: int| json_message(items[i])->0))
    } else {
        None
    }
}

/// The members that a list of JSON values stands for, in order: `None`
/// unless every one of them stands for a member.
pub open spec fn json_roster(items: Seq<JsonView>) -> Option<Seq<MemberView>> {
    if forall|i: int| 0 <= i < items.len() ==> json_member(#[trigger] items[i]) is Some {
        Some(Seq::new(items.len(), |i: int| json_member(items[i])->0))
    } else {
        None
    }
}

/// The messages of `log` as JSON values, in order.
fn log_to_json(log: &Vec<Message>) -> (items: Vec<Json>)
    ensures
        items_view(items@) == log_json(log_view(log@)),
{
    let mut items: Vec<Json> = Vec::new();
    let mut i: usize = 0;
    while i < log.len()
        invariant
            i <= log.len(),
            items@.len() == i,
            forall|k: int| 0 <= k < i ==> (#[trigger] items@[k])@ == message_json(log@[k]@),
        decreases log.len() - i,
    {
        items.push(log[i].to_json());
        i += 1;
    }
    items
}

/// The members of `roster` as JSON values, in order.
fn roster_to_json(roster: &Vec<Member>) -> (items: Vec<Json>)
    ensures
        items_view(items@) == roster_json(roster_view(roster@)),
{
    let mut items: Vec<Json> = Vec::new();
    let mut i: usize = 0;
    while i < roster.len()
        invariant
            i <= roster.len(),
            items@.len() == i,
            forall|k: int| 0 <= k < i ==> (#[trigger] items@[k])@ == member_json(roster@[k]@),
        decreases roster.len() - i,
    {
        items.push(roster[i].to_json());
        i += 1;
    }
    items
}

/// The messages that `items` stand for, if each of them stands for one.
fn log_from_json(items: &Vec<Json>) -> (log: Option<Vec<Message>>)
    ensures
        match log {
            Some(l) => json_log(items_view(items@)) == Some(log_view(l@)),
            None => json_log(items_view(items@)) is None,
        },
{
    let ghost trees = items_view(items@);
    let mut log: Vec<Message> = Vec::new();
    let mut i: usize = 0;
    while i < items.len()
        invariant
            i <= items.len(),
            trees == items_view(items@),
            log@.len() == i,
            forall|k: int| 0 <= k < i ==> json_message(#[trigger] trees[k]) == Some(log@[k]@),
        decreases items.len() - i,
    {
        match Message::from_json(&items[i]) {
            Some(message) => {
                log.push(message);
            },
            None => {
                assert(json_message(trees[i as int]) is None);
                return None;
            },
        }
        i += 1;
    }
    Some(log)
}

/// The members that `items` stand for, if each of them stands for one.
fn roster_from_json(items: &Vec<Json>) -> (roster: Option<Vec<Member>>)
    ensures
        match roster {
            Some(r) => json_roster(items_view(items@)) == Some(roster_view(r@)),
            None => json_roster(items_view(items@)) is None,
        },
{
    let ghost trees = items_view(items@);
    let mut roster: Vec<Member> = Vec::new();
    let mut i: usize = 0;
    while i < items.len()
        invariant
            i <= items.len(),
            trees == items_view(items@),
            roster@.len() == i,
            forall|k: int| 0 <= k < i ==> json_member(#[trigger] trees[k]) == Some(roster@[k]@),
        decreases items.len() - i,
    {
        match Member::from_json(&items[i]) {
            Some(member) => {
                roster.push(member);
            },
            None => {
                assert(json_member(trees[i as int]) is None);
                return None;
            },
        }
        i += 1;
    }
    Some(roster)
}

/// The JSON object that stands for a snapshot of a store: the log and the
/// roster as arrays.
pub open spec fn chat_json(chat: ChatView) -> JsonView {
    JsonView::Object(
        Map::empty().insert("all_messages"@, JsonView::Array(log_json(chat.all_messages))).insert(
            "members"@,
            JsonView::Array(roster_json(chat.members)),
        ),
    )
}

/// The snapshot that a JSON value stands for: an object with an array
/// `all_messages` of messages and an array `members` of members. Of members
/// with the same id the first stays.
pub open spec fn json_chat(tree: JsonView) -> Option<ChatView> {
    match (tree_member(tree, "all_messages"@), tree_member(tree, "members"@)) {
        (Some(all_messages), Some(members)) => match (
            tree_items(all_messages),
            tree_items(members),
        ) {
            (Some(all_messages), Some(members)) => match (
                json_log(all_messages),
                json_roster(members),
            ) {
                (Some(all_messages), Some(members)) => Some(
                    ChatView { all_messages, members: roster_from(members) },
                ),
                _ => None,
            },
            _ => None,
        },
        _ => None,
    }
}

/// The JSON value that is written for a snapshot is read back as that
/// snapshot, and it can be written as text.
pub proof fn lemma_chat_round_trip(chat: ChatView)
    requires
        roster_unique(chat.members),
    ensures
        json_chat(chat_json(chat)) == Some(chat),
        writable(chat_json(chat), 4),
{
    reveal_strlit("all_messages");
    reveal_strlit("members");
    assert("all_messages"@.len() == 12 && "members"@.len() == 7);
    let log = log_json(chat.all_messages);
    let roster = roster_json(chat.members);
    assert forall|i: int| 0 <= i < log.len() implies json_message(#[trigger] log[i]) == Some(
        chat.all_messages[i],
    ) && writable(log[i], 2) by {
        lemma_message_round_trip(chat.all_messages[i]);
    }
    assert forall|i: int| 0 <= i < roster.len() implies json_member(#[trigger] roster[i]) == Some(
        chat.members[i],
    ) && writable(roster[i], 2) by {
        lemma_member_round_trip(chat.members[i]);
        lemma_writable_deeper(roster[i], 1, 2);
    }
    assert(json_log(log)->0 =~= chat.all_messages);
    assert(json_roster(roster)->0 =~= chat.members);
    lemma_roster_from_unique(chat.members);
    reveal_with_fuel(writable, 2);
}

impl Chat {
    /// The snapshot of the store as a JSON value.
    pub fn to_json(&self) -> (json: Json)
        ensures
            json@ == chat_json(self@),
    {
        let all_messages = log_to_json(self.messages());
        let roster = roster_to_json(self.members());
        let mut members: Vec<(String, Json)> = Vec::new();
        proof {
            lemma_array_view(all_messages);
            lemma_array_view(roster);
        }
        put_member(&mut members, "all_messages", Json::Array(all_messages));
        put_member(&mut members, "members", Json::Array(roster));
        proof {
            lemma_object_view(members);
        }
        Json::Object(members)
    }

    /// The snapshot that `json` stands for, if it stands for one.
    pub fn from_json(json: &Json) -> (chat: Option<Chat>)
        ensures
            match chat {
                Some(c) => json_chat(json@) == Some(c@),
                None => json_chat(json@) is None,
            },
    {
        let all_messages = match json.member("all_messages") {
            Some(value) => match value.items() {
                Some(items) => log_from_json(items),
                None => { return None; },
            },
            None => { return None; },
        };
        let members = match json.member("members") {
            Some(value) => match value.items() {
                Some(items) => roster_from_json(items),
                None => { return None; },
            },
            None => { return None; },
        };
        match (all_messages, members) {
            (Some(all_messages), Some(members)) => Some(Chat::from_parts(all_messages, members)),
            _ => None,
        }
    }
}

/// The JSON value that stands for a packet: the name of the variant alone
/// where it carries nothing, else an object whose only member is named
/// after the variant and holds what it carries; two things are carried as
/// an array.
pub open spec fn packet_json(packet: PacketView) -> JsonView {
    match packet {
        PacketView::UserMessage(message) => JsonView::Object(
            Map::empty().insert("UserMessage"@, message_json(message)),
        ),
        PacketView::InitSyncRequest => JsonView::Str("InitSyncRequest"@),
        PacketView::Sync(chat) => JsonView::Object(Map::empty().insert("Sync"@, chat_json(chat))),
        PacketView::Identity(member, request_back) => JsonView::Object(
            Map::empty().insert(
                "Identity"@,
                JsonView::Array(seq![member_json(member), JsonView::Bool(request_back)]),
            ),
        ),
    }
}

/// The packet that a JSON value stands for. A variant that carries nothing
/// may also be written as an object whose only member holds `null`.
pub open spec fn json_packet(tree: JsonView) -> Option<PacketView> {
    if tree_text(tree) == Some("InitSyncRequest"@) {
        Some(PacketView::InitSyncRequest)
    } else if tree_variant(tree, "InitSyncRequest"@) is Some {
        if tree_variant(tree, "InitSyncRequest"@)->0 is Null {
            Some(PacketView::InitSyncRequest)
        } else {
            None
        }
    } else if tree_variant(tree, "UserMessage"@) is Some {
        match json_message(tree_variant(tree, "UserMessage"@)->0) {
            Some(message) => Some(PacketView::UserMessage(message)),
            None => None,
        }
    } else if tree_variant(tree, "Sync"@) is Some {
        match json_chat(tree_variant(tree, "Sync"@)->0) {
            Some(chat) => Some(PacketView::Sync(chat)),
            None => None,
        }
    } else if tree_variant(tree, "Identity"@) is Some {
        match tree_items(tree_variant(tree, "Identity"@)->0) {
            Some(items) => if items.len() == 2 {
                match (json_member(items[0]), tree_flag(items[1])) {
                    (Some(member), Some(request_back)) => Some(
                        PacketView::Identity(member, request_back),
                    ),
                    _ => None,
                }
            } else {
                None
            },
            None => None,
        }
    } else {
        None
    }
}

/// The packet that a line of text stands for: `None` where the line is not
/// JSON or the JSON value stands for no packet.
pub open spec fn text_packet(text: Seq<char>) -> Option<PacketView> {
    match parsed_text(text) {
        Some(tree) => json_packet(tree),
        None => None,
    }
}

/// The names of the variants differ from each other.
proof fn lemma_packet_names()
    ensures
        "UserMessage"@ != "InitSyncRequest"@,
        "UserMessage"@ != "Sync"@,
        "UserMessage"@ != "Identity"@,
        "InitSyncRequest"@ != "Sync"@,
        "InitSyncRequest"@ != "Identity"@,
        "Sync"@ != "Identity"@,
{
    reveal_strlit("UserMessage");
    reveal_strlit("InitSyncRequest");
    reveal_strlit("Sync");
    reveal_strlit("Identity");
    assert("UserMessage"@.len() == 11 && "InitSyncRequest"@.len() == 15 && "Sync"@.len() == 4
        && "Identity"@.len() == 8);
}

/// An object with one member has that member's name as its only name.
proof fn lemma_single_member(name: Seq<char>, value: JsonView)
    ensures
        tree_variant(JsonView::Object(Map::empty().insert(name, value)), name) == Some(value),
        forall|other: Seq<char>|
            other != name ==> (#[trigger] tree_variant(
                JsonView::Object(Map::empty().insert(name, value)),
                other,
            )) is None,
{
    let members = Map::<Seq<char>, JsonView>::empty().insert(name, value);
    assert forall|other: Seq<char>| other != name implies members.dom() != set![other] by {
        assert(set![other].contains(other));
    }
}

/// Round trip: the JSON value that is written for a packet is read back as
/// that packet, equal in every field, and it is a value that can be written
/// as text. The roster of a snapshot holds each id once, as it does in every
/// store.
pub proof fn lemma_packet_round_trip(packet: PacketView)
    requires
        packet matches PacketView::Sync(chat) ==> roster_unique(chat.members),
    ensures
        json_packet(packet_json(packet)) == Some(packet),
        writable(packet_json(packet), MAX_NESTING as nat),
{
    lemma_packet_names();
    reveal_with_fuel(writable, 3);
    match packet {
        PacketView::UserMessage(message) => {
            lemma_message_round_trip(message);
            lemma_single_member("UserMessage"@, message_json(message));
            lemma_writable_deeper(message_json(message), 2, (MAX_NESTING - 1) as nat);
        },
        PacketView::InitSyncRequest => {},
        PacketView::Sync(chat) => {
            lemma_chat_round_trip(chat);
            lemma_single_member("Sync"@, chat_json(chat));
            lemma_writable_deeper(chat_json(chat), 4, (MAX_NESTING - 1) as nat);
        },
        PacketView::Identity(member, request_back) => {
            lemma_member_round_trip(member);
            let pair = JsonView::Array(seq![member_json(member), JsonView::Bool(request_back)]);
            lemma_single_member("Identity"@, pair);
            lemma_writable_deeper(member_json(member), 1, (MAX_NESTING - 2) as nat);
        },
    }
}

impl Packet {
    /// The packet as a JSON value.
    pub fn to_json(&self) -> (json: Json)
        ensures
            json@ == packet_json(self@),
    {
        let mut members: Vec<(String, Json)> = Vec::new();
        match self {
            Packet::UserMessage(message) => {
                put_member(&mut members, "UserMessage", message.to_json());
            },
            Packet::InitSyncRequest => {
                return Json::Str("InitSyncRequest".to_owned());
            },
            Packet::Sync(chat) => {
                put_member(&mut members, "Sync", chat.to_json());
            },
            Packet::Identity(member, request_back) => {
                let mut pair: Vec<Json> = Vec::new();
                pair.push(member.to_json());
                pair.push(Json::Bool(*request_back));
                proof {
                    lemma_array_view(pair);
                    assert(items_view(pair@) =~= seq![
                        member_json(member@),
                        JsonView::Bool(*request_back),
                    ]);
                }
                put_member(&mut members, "Identity", Json::Array(pair));
            },
        }
        proof {
            lemma_object_view(members);
        }
        Json::Object(members)
    }

    /// The packet that `json` stands for, if it stands for one.
    pub fn from_json(json: &Json) -> (packet: Option<Packet>)
        ensures
            match packet {
                Some(p) => json_packet(json@) == Some(p@),
                None => json_packet(json@) is None,
            },
    {
        if let Json::Str(name) = json {
            if *name == "InitSyncRequest".to_owned() {
                return Some(Packet::InitSyncRequest);
            }
        }
        if let Some(body) = json.variant("InitSyncRequest") {
            return match body {
                Json::Null => Some(Packet::InitSyncRequest),
                _ => None,
            };
        }
        if let Some(body) = json.variant("UserMessage") {
            return match Message::from_json(body) {
                Some(message) => Some(Packet::UserMessage(message)),
                None => None,
            };
        }
        if let Some(body) = json.variant("Sync") {
            return match Chat::from_json(body) {
                Some(chat) => Some(Packet::Sync(chat)),
                None => None,
            };
        }
        if let Some(body) = json.variant("Identity") {
            return match body.items() {
                Some(items) => {
                    if items.len() == 2 {
                        match (Member::from_json(&items[0]), items[1].flag()) {
                            (Some(member), Some(request_back)) => Some(
                                Packet::Identity(member, request_back),
                            ),
                            _ => None,
                        }
                    } else {
                        None
                    }
                },
                None => None,
            };
        }
        None
    }

    /// The packet as one line of JSON text, without the line break.
    pub fn encode(&self) -> (text: String)
        ensures
            text@ == rendered(packet_json(self@)),
    {
        proof {
            if let Packet::Sync(chat) = self {
                use_type_invariant(chat);
            }
            lemma_packet_round_trip(self@);
        }
        self.to_json().render()
    }

    /// The packet as it goes on the wire: its JSON text in UTF-8, then one
    /// line feed.
    pub fn frame(&self) -> (bytes: Vec<u8>)
        ensures
            bytes@ == encode_utf8(rendered(packet_json(self@))).push(10u8),
    {
        let text = self.encode();
        let mut bytes = text.as_str().as_bytes_vec();
        bytes.push(10u8);
        bytes
    }

    /// The packet that `text` stands for: `None` where `text` is not JSON or
    /// stands for no packet.
    pub fn decode(text: &str) -> (packet: Option<Packet>)
        ensures
            match packet {
                Some(p) => text_packet(text@) == Some(p@),
                None => text_packet(text@) is None,
            },
    {
        match Json::parse(text) {
            Some(json) => Packet::from_json(&json),
            None => None,
        }
    }
}

} // verus!
