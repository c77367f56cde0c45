use p2p_chat::chat::{get_members_diff, has_member, Chat, Member, Message};

fn member(name: &str, id: &str, port: u16) -> Member {
    Member::new(name.to_string(), "192.168.1.10".to_string(), port, id.to_string())
}

#[test]
fn new_store_is_empty() {
    let chat = Chat::new();
    assert!(chat.get_all_local_members().is_empty());
    assert!(chat.get_all_local_messages().is_empty());
}

#[test]
fn member_new_takes_username_ip_port_id_in_that_order() {
    let m = Member::new("ann".to_string(), "10.1.2.3".to_string(), 4242, "uuid-1".to_string());
    assert_eq!(m.username, "ann");
    assert_eq!(m.ip, "10.1.2.3");
    assert_eq!(m.port, 4242);
    assert_eq!(m.id, "uuid-1");
}

#[test]
fn message_new_keeps_its_fields() {
    let m = Message::new(member("ann", "a", 1), "hi".to_string(), 77);
    assert_eq!(m.sender, member("ann", "a", 1));
    assert_eq!(m.text, "hi");
    assert_eq!(m.timestamp, 77);
}

#[test]
fn adding_the_same_member_twice_leaves_one_entry() {
    let mut chat = Chat::new();
    chat.add_member(member("ann", "a", 1));
    chat.add_member(member("ann", "a", 1));
    let members = chat.get_all_local_members();
    assert_eq!(members.len(), 1);
    assert_eq!(members.iter().filter(|m| m.id == "a").count(), 1);
}

#[test]
fn add_member_keys_on_the_id_alone() {
    let mut chat = Chat::new();
    chat.add_member(member("ann", "a", 1));
    chat.add_member(Member::new("renamed".to_string(), "10.9.9.9".to_string(), 2, "a".to_string()));
    chat.add_member(member("ann", "b", 1));
    let members = chat.get_all_local_members();
    assert_eq!(members.len(), 2);
    assert_eq!(members[0], member("ann", "a", 1));
    assert_eq!(members[1], member("ann", "b", 1));
}

#[test]
fn add_message_appends_without_dedup() {
    let mut chat = Chat::new();
    let m = Message::new(member("ann", "a", 1), "same".to_string(), 5);
    chat.add_message(m.clone());
    chat.add_message(m.clone());
    assert_eq!(chat.get_all_local_messages(), vec![m.clone(), m]);
}

#[test]
fn set_all_messages_replaces_the_log_and_keeps_the_roster() {
    let mut chat = Chat::new();
    chat.add_member(member("ann", "a", 1));
    chat.add_message(Message::new(member("ann", "a", 1), "old".to_string(), 1));
    let new_log = vec![
        Message::new(member("bob", "b", 2), "new one".to_string(), 2),
        Message::new(member("bob", "b", 2), "new two".to_string(), 3),
    ];
    chat.set_all_messages(new_log.clone());
    assert_eq!(chat.get_all_local_messages(), new_log);
    assert_eq!(chat.get_all_local_members(), vec![member("ann", "a", 1)]);
    chat.set_all_messages(Vec::new());
    assert!(chat.messages().is_empty());
}

#[test]
fn diff_of_disjoint_rosters_is_the_remote_roster() {
    let local = vec![member("ann", "a", 1), member("bob", "b", 2)];
    let remote = vec![member("cat", "c", 3), member("dan", "d", 4)];
    assert_eq!(get_members_diff(&local, &remote), remote);
}

#[test]
fn diff_of_overlapping_rosters_is_empty() {
    let local = vec![member("ann", "a", 1), member("bob", "b", 2)];
    let remote = vec![member("bob2", "b", 9), member("ann2", "a", 8)];
    assert!(get_members_diff(&local, &remote).is_empty());
}

#[test]
fn diff_keeps_the_remote_order_of_the_new_members() {
    let mut chat = Chat::new();
    chat.add_member(member("bob", "b", 2));
    let remote = vec![member("dan", "d", 4), member("bob", "b", 2), member("cat", "c", 3)];
    assert_eq!(chat.members_diff(&remote), vec![member("dan", "d", 4), member("cat", "c", 3)]);
    assert_eq!(chat.members_diff(&Vec::new()), Vec::new());
}

#[test]
fn diff_against_an_empty_roster_is_everything() {
    let remote = vec![member("dan", "d", 4)];
    assert_eq!(get_members_diff(&Vec::new(), &remote), remote);
}

#[test]
fn has_member_looks_at_ids() {
    let roster = vec![member("ann", "a", 1)];
    assert!(has_member(&roster, &"a".to_string()));
    assert!(!has_member(&roster, &"ann".to_string()));
    let mut chat = Chat::new();
    chat.add_member(member("ann", "a", 1));
    assert!(chat.has_member(&"a".to_string()));
    assert!(!chat.has_member(&"b".to_string()));
}

#[test]
fn remove_member_takes_out_that_id_only() {
    let mut chat = Chat::new();
    chat.add_member(member("ann", "a", 1));
    chat.add_member(member("bob", "b", 2));
    chat.add_member(member("cat", "c", 3));
    chat.add_message(Message::new(member("bob", "b", 2), "bye".to_string(), 1));
    chat.remove_member(&"b".to_string());
    assert_eq!(chat.get_all_local_members(), vec![member("ann", "a", 1), member("cat", "c", 3)]);
    assert_eq!(chat.get_all_local_messages().len(), 1);
    chat.remove_member(&"zzz".to_string());
    assert_eq!(chat.members().len(), 2);
}

#[test]
fn from_parts_keeps_the_first_of_each_id() {
    let chat = Chat::from_parts(
        vec![Message::new(member("ann", "a", 1), "x".to_string(), 1)],
        vec![member("ann", "a", 1), member("bob", "b", 2), member("late", "a", 3)],
    );
    assert_eq!(chat.get_all_local_members(), vec![member("ann", "a", 1), member("bob", "b", 2)]);
    assert_eq!(chat.get_all_local_messages().len(), 1);
}

#[test]
fn store_messages_stamps_and_appends() {
    let mut chat = Chat::new();
    let stamp = chat.store_messages(member("ann", "a", 1), "now".to_string());
    let log = chat.get_all_local_messages();
    assert_eq!(log, vec![Message::new(member("ann", "a", 1), "now".to_string(), stamp)]);
    assert!(stamp > 1_600_000_000);
}

#[test]
fn clone_of_a_store_is_a_snapshot() {
    let mut chat = Chat::new();
    chat.add_member(member("ann", "a", 1));
    let snapshot = chat.clone();
    chat.add_member(member("bob", "b", 2));
    assert_eq!(snapshot.get_all_local_members(), vec![member("ann", "a", 1)]);
    assert_eq!(chat.get_all_local_members().len(), 2);
}

#[test]
fn into_parts_hands_out_log_and_roster() {
    let mut chat = Chat::new();
    chat.add_member(member("ann", "a", 1));
    chat.add_message(Message::new(member("ann", "a", 1), "x".to_string(), 1));
    let (log, roster) = chat.into_parts();
    assert_eq!(log, vec![Message::new(member("ann", "a", 1), "x".to_string(), 1)]);
    assert_eq!(roster, vec![member("ann", "a", 1)]);
}
