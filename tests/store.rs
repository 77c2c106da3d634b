use torchat::error::AppError;
use torchat::store::{ChatStore, MemberRole, MessageType, RoomType};

const ALICE: u128 = 1;
const BOB: u128 = 2;
const CAROL: u128 = 3;
const ROOM_R: u128 = 100;
const ROOM_Q: u128 = 101;

fn s(x: &str) -> String {
    x.to_string()
}

fn register(store: &mut ChatStore, id: u128, name: &str, now: i64) -> Result<usize, AppError> {
    store.register(id, s(name), None, s("$2b$12$hash"), None, None, now)
}

fn three_users() -> ChatStore {
    let mut store = ChatStore::new();
    register(&mut store, ALICE, "alice", 10).unwrap();
    register(&mut store, BOB, "bob", 11).unwrap();
    register(&mut store, CAROL, "carol", 12).unwrap();
    store
}

fn public_room(store: &mut ChatStore, id: u128, max: Option<i32>) {
    store
        .create_room(ALICE, id, s("R"), None, RoomType::Public, max, None, s("key"), 20)
        .unwrap();
}

#[test]
fn first_registration_is_admin() {
    let mut store = ChatStore::new();
    assert_eq!(register(&mut store, ALICE, "alice", 5), Ok(0));
    assert_eq!(register(&mut store, BOB, "bob", 6), Ok(1));
    assert!(store.users[0].is_admin);
    assert!(!store.users[1].is_admin);
    assert_eq!(store.users[1].display_name.as_deref(), Some("bob"));
}

#[test]
fn creation_instants_strictly_increase() {
    let mut store = ChatStore::new();
    register(&mut store, ALICE, "alice", 5).unwrap();
    register(&mut store, BOB, "bob", 5).unwrap();
    register(&mut store, CAROL, "carol", 3).unwrap();
    assert_eq!(store.users[0].created_at, 5);
    assert_eq!(store.users[1].created_at, 6);
    assert_eq!(store.users[2].created_at, 7);
}

#[test]
fn duplicate_username_or_email_conflicts() {
    let mut store = ChatStore::new();
    register(&mut store, ALICE, "alice", 5).unwrap();
    assert_eq!(register(&mut store, BOB, "alice", 6), Err(AppError::Conflict));
    store
        .register(BOB, s("bob"), Some(s("b@x.org")), s("h"), None, None, 7)
        .unwrap();
    assert_eq!(
        store.register(CAROL, s("carol"), Some(s("b@x.org")), s("h"), None, None, 8),
        Err(AppError::Conflict)
    );
    assert_eq!(store.users.len(), 2);
}

#[test]
fn public_and_private_room_creation() {
    let mut store = three_users();
    assert_eq!(
        store.create_room(BOB, ROOM_R, s("R"), None, RoomType::Public, None, None, s("k"), 20),
        Err(AppError::Authorization)
    );
    assert_eq!(
        store.create_room(ALICE, ROOM_R, s("R"), None, RoomType::Public, None, None, s("k"), 20),
        Ok(0)
    );
    assert_eq!(store.rooms[0].encryption_key, "k");
    assert_eq!(store.rooms[0].max_members, 100);
    assert_eq!(
        store.create_room(BOB, ROOM_Q, s("Q"), None, RoomType::Private, None, None, s("k2"), 21),
        Ok(1)
    );
    let i = store.find_member(ROOM_Q, BOB).unwrap();
    assert_eq!(store.members[i].role, MemberRole::Admin);
}

#[test]
fn max_members_bounds() {
    let mut store = three_users();
    let mk = |store: &mut ChatStore, id: u128, m: i32| {
        store.create_room(ALICE, id, s("R"), None, RoomType::Private, Some(m), None, s("k"), 20)
    };
    assert_eq!(mk(&mut store, 200, 1), Err(AppError::Validation));
    assert_eq!(mk(&mut store, 201, 2), Ok(0));
    assert_eq!(mk(&mut store, 202, 1000), Ok(1));
    assert_eq!(mk(&mut store, 203, 1001), Err(AppError::Validation));
    assert_eq!(AppError::Validation.status_code(), 400);
}

#[test]
fn room_name_rules() {
    let mut store = three_users();
    assert_eq!(
        store.create_room(ALICE, 300, s(""), None, RoomType::Private, None, None, s("k"), 20),
        Err(AppError::Validation)
    );
    assert_eq!(
        store.create_room(ALICE, 300, "n".repeat(101), None, RoomType::Private, None, None, s("k"), 20),
        Err(AppError::Validation)
    );
    assert_eq!(
        store.create_room(ALICE, 300, s("n"), Some("d".repeat(501)), RoomType::Private, None, None, s("k"), 20),
        Err(AppError::Validation)
    );
    public_room(&mut store, ROOM_R, None);
    assert_eq!(
        store.create_room(ALICE, ROOM_R, s("again"), None, RoomType::Private, None, None, s("k"), 20),
        Err(AppError::Conflict)
    );
}

#[test]
fn join_twice_is_refused() {
    let mut store = three_users();
    public_room(&mut store, ROOM_R, None);
    assert_eq!(store.join_room(BOB, ROOM_R, 30), Ok(0));
    assert_eq!(store.join_room(BOB, ROOM_R, 31), Err(AppError::BadRequest));
    assert_eq!(store.member_count(ROOM_R), 2);
    assert_eq!(store.join_room(BOB, 999, 31), Err(AppError::NotFound));
}

#[test]
fn join_at_capacity_is_refused() {
    let mut store = three_users();
    public_room(&mut store, ROOM_R, Some(2));
    assert_eq!(store.join_room(BOB, ROOM_R, 30), Ok(0));
    assert_eq!(store.member_count(ROOM_R), 2);
    assert_eq!(store.join_room(CAROL, ROOM_R, 31), Err(AppError::BadRequest));
    assert_eq!(store.member_count(ROOM_R), 2);
}

#[test]
fn join_then_leave_restores_count() {
    let mut store = three_users();
    public_room(&mut store, ROOM_R, None);
    let before = store.member_count(ROOM_R);
    store.join_room(BOB, ROOM_R, 30).unwrap();
    assert_eq!(store.member_count(ROOM_R), before + 1);
    store.leave_room(BOB, ROOM_R).unwrap();
    assert_eq!(store.member_count(ROOM_R), before);
    assert_eq!(store.leave_room(BOB, ROOM_R), Err(AppError::NotFound));
    assert_eq!(store.leave_room(ALICE, ROOM_R), Err(AppError::BadRequest));
}

#[test]
fn viewing_rooms() {
    let mut store = three_users();
    public_room(&mut store, ROOM_R, None);
    store
        .create_room(BOB, ROOM_Q, s("Q"), None, RoomType::Private, None, None, s("k"), 20)
        .unwrap();
    assert_eq!(store.get_room(CAROL, ROOM_R, 40), Ok(0));
    assert!(store.is_member(ROOM_R, CAROL));
    assert_eq!(store.get_room(CAROL, ROOM_Q, 40), Err(AppError::Authorization));
    assert_eq!(store.get_room(CAROL, 7, 40), Err(AppError::NotFound));
    assert_eq!(store.get_room(99, ROOM_R, 40), Err(AppError::Authentication));
}

#[test]
fn public_view_of_full_room_is_refused() {
    let mut store = three_users();
    public_room(&mut store, ROOM_R, Some(2));
    store.join_room(BOB, ROOM_R, 30).unwrap();
    assert_eq!(store.get_room(CAROL, ROOM_R, 40), Err(AppError::BadRequest));
}

#[test]
fn send_then_history_shows_message() {
    let mut store = three_users();
    public_room(&mut store, ROOM_R, None);
    store.join_room(BOB, ROOM_R, 30).unwrap();
    store
        .send_message(ALICE, ROOM_R, 500, s("first"), MessageType::Text, None, None, 40)
        .unwrap();
    let i = store
        .send_message(BOB, ROOM_R, 501, s("c1ph3r=="), MessageType::Text, None, None, 41)
        .unwrap();
    let page = store.get_messages(ALICE, ROOM_R, 1, 0).unwrap();
    assert_eq!(page, vec![i]);
    assert_eq!(store.messages[i].content, "c1ph3r==");
    assert_eq!(store.messages[i].sender_id, BOB);
    assert_eq!(store.get_messages(ALICE, ROOM_R, 50, 0).unwrap(), vec![1, 0]);
    assert_eq!(store.get_messages(ALICE, ROOM_R, 50, 1).unwrap(), vec![0]);
    assert_eq!(store.get_messages(ALICE, ROOM_R, 50, 5).unwrap(), Vec::<usize>::new());
    assert_eq!(store.get_messages(CAROL, ROOM_R, 50, 0), Err(AppError::Authorization));
}

#[test]
fn send_requires_membership() {
    let mut store = three_users();
    public_room(&mut store, ROOM_R, None);
    assert_eq!(
        store.send_message(CAROL, ROOM_R, 500, s("x"), MessageType::Text, None, None, 40),
        Err(AppError::Authorization)
    );
    store.send_message(ALICE, ROOM_R, 500, s("x"), MessageType::Text, None, None, 40).unwrap();
    assert_eq!(
        store.send_message(ALICE, ROOM_R, 500, s("y"), MessageType::Text, None, None, 41),
        Err(AppError::Conflict)
    );
}

#[test]
fn only_sender_edits() {
    let mut store = three_users();
    public_room(&mut store, ROOM_R, None);
    store.join_room(BOB, ROOM_R, 30).unwrap();
    store.join_room(CAROL, ROOM_R, 30).unwrap();
    let m = store.send_message(BOB, ROOM_R, 500, s("orig"), MessageType::Text, None, None, 40).unwrap();
    assert_eq!(store.edit_message(CAROL, 500, s("x"), 50), Err(AppError::Authorization));
    assert_eq!(store.messages[m].content, "orig");
    assert_eq!(store.edit_message(BOB, 500, s("x"), 51), Ok(m));
    assert!(store.messages[m].is_edited);
    assert_eq!(store.messages[m].edited_at, Some(51));
    assert_eq!(store.messages[m].content, "x");
}

#[test]
fn delete_leaves_tombstone() {
    let mut store = three_users();
    public_room(&mut store, ROOM_R, None);
    store.join_room(BOB, ROOM_R, 30).unwrap();
    store.join_room(CAROL, ROOM_R, 30).unwrap();
    let m = store.send_message(BOB, ROOM_R, 500, s("secret"), MessageType::Text, None, None, 40).unwrap();
    assert_eq!(store.delete_message(CAROL, 500, 60), Err(AppError::Authorization));
    assert_eq!(store.delete_message(ALICE, 500, 61), Ok(m));
    assert!(store.messages[m].is_deleted);
    assert_eq!(store.messages[m].content, "");
    assert_eq!(store.messages[m].deleted_at, Some(61));
    assert_eq!(store.delete_message(BOB, 500, 62), Err(AppError::NotFound));
    assert_eq!(store.edit_message(BOB, 500, s("z"), 62), Err(AppError::NotFound));
}

#[test]
fn reaction_added_twice_counts_once() {
    let mut store = three_users();
    public_room(&mut store, ROOM_R, None);
    let m = store.send_message(ALICE, ROOM_R, 500, s("x"), MessageType::Text, None, None, 40).unwrap();
    store.add_reaction(ALICE, 500, s("👍")).unwrap();
    store.add_reaction(ALICE, 500, s("👍")).unwrap();
    assert_eq!(store.messages[m].reactions.len(), 1);
    assert_eq!(store.messages[m].reactions[0].users, vec![ALICE]);
    assert_eq!(store.add_reaction(CAROL, 500, s("👍")), Err(AppError::Authorization));
    store.remove_reaction(ALICE, 500, s("👍")).unwrap();
    assert!(store.messages[m].reactions.is_empty());
    assert_eq!(store.remove_reaction(ALICE, 500, s("👍")), Ok(m));
}

#[test]
fn forward_copies_into_target() {
    let mut store = three_users();
    public_room(&mut store, ROOM_R, None);
    store
        .create_room(ALICE, ROOM_Q, s("Q"), None, RoomType::Private, None, None, s("k"), 20)
        .unwrap();
    store.join_room(BOB, ROOM_R, 30).unwrap();
    store.send_message(ALICE, ROOM_R, 500, s("body"), MessageType::Image, None, None, 40).unwrap();
    assert_eq!(store.forward_message(BOB, 500, ROOM_Q, 501, 41), Err(AppError::Authorization));
    let f = store.forward_message(ALICE, 500, ROOM_Q, 501, 42).unwrap();
    assert_eq!(store.messages[f].room_id, ROOM_Q);
    assert_eq!(store.messages[f].content, "body");
    assert_eq!(store.messages[f].parent_id, Some(500));
    assert_eq!(store.messages[f].message_type, MessageType::Image);
}

#[test]
fn mark_read_updates_membership() {
    let mut store = three_users();
    public_room(&mut store, ROOM_R, None);
    store.send_message(ALICE, ROOM_R, 500, s("x"), MessageType::Text, None, None, 40).unwrap();
    assert_eq!(store.mark_read(ALICE, ROOM_R, 500, 70), Ok(()));
    let i = store.find_member(ROOM_R, ALICE).unwrap();
    assert_eq!(store.members[i].last_read_message_id, Some(500));
    assert_eq!(store.members[i].last_read_at, Some(70));
    assert_eq!(store.mark_read(ALICE, ROOM_R, 999, 70), Err(AppError::NotFound));
    assert_eq!(store.mark_read(BOB, ROOM_R, 500, 70), Err(AppError::Authorization));
}

#[test]
fn room_delete_cascades() {
    let mut store = three_users();
    public_room(&mut store, ROOM_R, None);
    store
        .create_room(BOB, ROOM_Q, s("Q"), None, RoomType::Private, None, None, s("k"), 20)
        .unwrap();
    store.join_room(BOB, ROOM_R, 30).unwrap();
    store.send_message(BOB, ROOM_R, 500, s("x"), MessageType::Text, None, None, 40).unwrap();
    store.send_message(BOB, ROOM_Q, 501, s("y"), MessageType::Text, None, None, 41).unwrap();
    assert_eq!(store.delete_room(BOB, ROOM_R), Err(AppError::Authorization));
    assert_eq!(store.delete_room(ALICE, ROOM_R), Ok(()));
    assert!(store.find_room(ROOM_R).is_none());
    assert!(store.members.iter().all(|m| m.room_id != ROOM_R));
    assert!(store.messages.iter().all(|m| m.room_id != ROOM_R));
    assert_eq!(store.messages.len(), 1);
    assert_eq!(store.member_count(ROOM_Q), 1);
    assert_eq!(store.delete_room(ALICE, ROOM_R), Err(AppError::NotFound));
}

#[test]
fn member_management() {
    let mut store = three_users();
    store
        .create_room(BOB, ROOM_Q, s("Q"), None, RoomType::Private, Some(2), None, s("k"), 20)
        .unwrap();
    assert_eq!(store.add_member(CAROL, ROOM_Q, ALICE, 30), Err(AppError::Authorization));
    assert_eq!(store.add_member(BOB, ROOM_Q, 77, 30), Err(AppError::NotFound));
    assert_eq!(store.add_member(BOB, ROOM_Q, CAROL, 30), Ok(()));
    assert_eq!(store.add_member(BOB, ROOM_Q, ALICE, 31), Err(AppError::BadRequest));
    assert_eq!(store.get_members(BOB, ROOM_Q).unwrap().len(), 2);
    assert_eq!(store.get_members(ALICE, ROOM_Q), Err(AppError::Authorization));
    assert_eq!(store.remove_member(CAROL, ROOM_Q, BOB), Err(AppError::Authorization));
    assert_eq!(store.remove_member(BOB, ROOM_Q, BOB), Err(AppError::BadRequest));
    assert_eq!(store.remove_member(BOB, ROOM_Q, CAROL), Ok(()));
    assert_eq!(store.remove_member(BOB, ROOM_Q, CAROL), Err(AppError::NotFound));
}

#[test]
fn public_rooms_listed_newest_first() {
    let mut store = three_users();
    public_room(&mut store, ROOM_R, None);
    store
        .create_room(BOB, ROOM_Q, s("Q"), None, RoomType::Private, None, None, s("k"), 20)
        .unwrap();
    public_room(&mut store, 102, None);
    assert_eq!(store.list_public_rooms(), vec![2, 0]);
}

#[test]
fn admin_operations() {
    let mut store = three_users();
    assert_eq!(store.promote_user(BOB, CAROL), Err(AppError::Authorization));
    assert_eq!(store.promote_user(ALICE, BOB), Ok(()));
    assert_eq!(store.promote_user(ALICE, BOB), Err(AppError::BadRequest));
    assert_eq!(store.demote_user(ALICE, ALICE), Err(AppError::BadRequest));
    assert_eq!(store.demote_user(ALICE, BOB), Ok(()));
    assert_eq!(store.demote_user(ALICE, BOB), Err(AppError::BadRequest));
    assert_eq!(store.ban_user(ALICE, CAROL), Ok(()));
    assert_eq!(store.ban_user(ALICE, CAROL), Err(AppError::BadRequest));
    assert_eq!(store.require_active(CAROL), Err(AppError::Authorization));
    assert_eq!(store.record_login(CAROL, true, 90), Err(AppError::Authorization));
    assert_eq!(store.unban_user(ALICE, CAROL), Ok(()));
    assert_eq!(store.unban_user(ALICE, CAROL), Err(AppError::BadRequest));
    assert_eq!(store.record_login(CAROL, false, 90), Err(AppError::Authentication));
    assert_eq!(store.record_login(CAROL, true, 91), Ok(2));
    assert_eq!(store.users[2].last_seen, Some(91));
}

#[test]
fn delete_user_rules() {
    let mut store = three_users();
    store
        .create_room(BOB, ROOM_Q, s("Q"), None, RoomType::Private, None, None, s("k"), 20)
        .unwrap();
    assert_eq!(store.delete_user(ALICE, BOB), Err(AppError::BadRequest));
    assert_eq!(store.delete_user(ALICE, ALICE), Err(AppError::BadRequest));
    store.add_member(BOB, ROOM_Q, CAROL, 30).unwrap();
    assert_eq!(store.delete_user(ALICE, CAROL), Ok(()));
    assert!(store.find_user(CAROL).is_none());
    assert!(!store.is_member(ROOM_Q, CAROL));
    assert_eq!(store.delete_user(ALICE, CAROL), Err(AppError::NotFound));
}

#[test]
fn online_flag_and_last_seen() {
    let mut store = three_users();
    assert_eq!(store.set_online(BOB, true, 50), Ok(()));
    assert!(store.users[1].is_online);
    assert_eq!(store.set_online(BOB, false, 55), Ok(()));
    assert!(!store.users[1].is_online);
    assert_eq!(store.users[1].last_seen, Some(55));
    assert_eq!(store.set_online(42, false, 55), Err(AppError::NotFound));
}

#[test]
fn error_statuses() {
    assert_eq!(AppError::Authentication.status_code(), 401);
    assert_eq!(AppError::Authorization.status_code(), 403);
    assert_eq!(AppError::NotFound.status_code(), 404);
    assert_eq!(AppError::Conflict.status_code(), 409);
    assert_eq!(AppError::Upload.status_code(), 400);
    assert_eq!(AppError::Tor.status_code(), 503);
    assert_eq!(AppError::Database.status_code(), 500);
    assert_eq!(AppError::Encryption.kind_name(), "encryption_error");
    assert!(AppError::Internal.is_internal());
    assert!(!AppError::BadRequest.is_internal());
}

#[test]
fn dashboard_counters() {
    let mut store = three_users();
    public_room(&mut store, ROOM_R, None);
    store
        .create_room(BOB, ROOM_Q, s("Q"), None, RoomType::Private, None, None, s("k"), 20)
        .unwrap();
    store.send_message(ALICE, ROOM_R, 500, s("x"), MessageType::Text, None, None, 40).unwrap();
    store.set_online(BOB, true, 41).unwrap();
    store.ban_user(ALICE, CAROL).unwrap();
    assert_eq!(store.get_stats(BOB, 0).err(), Some(AppError::Authorization));
    let st = store.get_stats(ALICE, 11).unwrap();
    assert_eq!(st.total_users, 3);
    assert_eq!(st.online_users, 1);
    assert_eq!(st.banned_users, 1);
    assert_eq!(st.admin_users, 1);
    assert_eq!(st.recent_registrations, 2);
    assert_eq!(st.total_rooms, 2);
    assert_eq!(st.public_rooms, 1);
    assert_eq!(st.total_messages, 1);
    assert_eq!(store.message_count(ROOM_R), 1);
    assert_eq!(store.message_count(ROOM_Q), 0);
}

#[test]
fn search_returns_whole_history() {
    let mut store = three_users();
    public_room(&mut store, ROOM_R, None);
    for k in 0..5u128 {
        store.send_message(ALICE, ROOM_R, 500 + k, s("x"), MessageType::Text, None, None, 40).unwrap();
    }
    assert_eq!(store.search_messages(ALICE, ROOM_R).unwrap(), vec![4, 3, 2, 1, 0]);
    assert_eq!(store.search_messages(BOB, ROOM_R), Err(AppError::Authorization));
}

#[test]
fn projections_hide_key_from_non_members() {
    let mut store = three_users();
    public_room(&mut store, ROOM_R, None);
    let public = store.rooms[0].to_public_json();
    assert!(public.room_key.is_none());
    assert_eq!(public.name, "R");
    assert!(public.is_public);
    let member = store.rooms[0].to_member_json();
    assert_eq!(member.room_key.as_deref(), Some("key"));
    assert_eq!(member.max_members, 100);
}

#[test]
fn message_instants_never_go_back() {
    let mut store = three_users();
    public_room(&mut store, ROOM_R, None);
    let a = store.send_message(ALICE, ROOM_R, 500, s("a"), MessageType::Text, None, None, 50).unwrap();
    let b = store.send_message(ALICE, ROOM_R, 501, s("b"), MessageType::Text, None, None, 40).unwrap();
    assert_eq!(store.messages[a].created_at, 50);
    assert_eq!(store.messages[b].created_at, 50);
    let page = store.get_messages(ALICE, ROOM_R, 10, 0).unwrap();
    assert_eq!(page, vec![b, a]);
    assert!(store.messages[page[0]].created_at >= store.messages[page[1]].created_at);
}

#[test]
fn error_details_are_fixed_texts() {
    assert_eq!(AppError::Authentication.details(), "Authentication failed");
    assert_eq!(AppError::Database.details(), "Database error");
    assert_eq!(AppError::Upload.details(), "File upload error");
}
