use torchat::broker::{
    authenticate, delete_message, disconnect, edit_message, forward_message, join_room, leave_room, mark_read, react, send_message,
    typing,
};
use torchat::error::AppError;
use torchat::presence::Presence;
use torchat::store::{ChatStore, MessageType, RoomType};

const ALICE: u128 = 1;
const BOB: u128 = 2;
const CAROL: u128 = 3;
const ROOM: u128 = 100;

fn s(x: &str) -> String {
    x.to_string()
}

fn setup() -> (ChatStore, Presence) {
    let mut store = ChatStore::new();
    for (id, name) in [(ALICE, "alice"), (BOB, "bob"), (CAROL, "carol")] {
        store.register(id, s(name), None, s("h"), None, None, id as i64).unwrap();
    }
    store
        .create_room(ALICE, ROOM, s("R"), None, RoomType::Public, None, None, s("k"), 5)
        .unwrap();
    store.join_room(BOB, ROOM, 6).unwrap();
    (store, Presence::new())
}

#[test]
fn fan_out_reaches_listening_members_only() {
    let (mut store, mut p) = setup();
    authenticate(&mut store, &mut p, s("a1"), Ok(ALICE), 10).unwrap();
    authenticate(&mut store, &mut p, s("b1"), Ok(BOB), 10).unwrap();
    authenticate(&mut store, &mut p, s("c1"), Ok(CAROL), 10).unwrap();
    join_room(&store, &mut p, &s("a1"), ROOM).unwrap();
    join_room(&store, &mut p, &s("b1"), ROOM).unwrap();
    assert_eq!(join_room(&store, &mut p, &s("c1"), ROOM), Err(AppError::Authorization));
    let d = send_message(&mut store, &p, &s("a1"), ROOM, 500, s("hi"), MessageType::Text, None, None, 11).unwrap();
    assert_eq!(store.messages[d.index].content, "hi");
    let mut r = d.recipients.clone();
    r.sort();
    assert_eq!(r, vec![s("a1"), s("b1")]);
    let t = typing(&store, &p, &s("a1"), ROOM).unwrap();
    assert_eq!(t, vec![s("b1")]);
}

#[test]
fn joining_twice_listens_once() {
    let (mut store, mut p) = setup();
    authenticate(&mut store, &mut p, s("b1"), Ok(BOB), 10).unwrap();
    join_room(&store, &mut p, &s("b1"), ROOM).unwrap();
    join_room(&store, &mut p, &s("b1"), ROOM).unwrap();
    assert_eq!(p.recipients(ROOM, None), vec![s("b1")]);
    leave_room(&mut p, &s("b1"), ROOM);
    assert!(p.recipients(ROOM, None).is_empty());
    assert!(store.is_member(ROOM, BOB));
}

#[test]
fn unauthenticated_socket_is_refused() {
    let (mut store, mut p) = setup();
    assert_eq!(join_room(&store, &mut p, &s("x"), ROOM), Err(AppError::Authentication));
    let r = send_message(&mut store, &p, &s("x"), ROOM, 500, s("hi"), MessageType::Text, None, None, 11);
    assert!(r.is_err());
    assert!(store.messages.is_empty());
    assert_eq!(authenticate(&mut store, &mut p, s("x"), Err(AppError::Authentication), 10), Err(AppError::Authentication));
    assert_eq!(authenticate(&mut store, &mut p, s("y"), Ok(99), 10), Err(AppError::Authentication));
    assert!(p.sessions.is_empty());
}

#[test]
fn presence_follows_last_socket() {
    let (mut store, mut p) = setup();
    authenticate(&mut store, &mut p, s("b1"), Ok(BOB), 10).unwrap();
    authenticate(&mut store, &mut p, s("b2"), Ok(BOB), 11).unwrap();
    assert!(store.users[1].is_online);
    assert_eq!(authenticate(&mut store, &mut p, s("b2"), Ok(BOB), 11), Err(AppError::BadRequest));
    assert_eq!(disconnect(&mut store, &mut p, &s("b1"), 20), Some((BOB, false)));
    assert!(store.users[1].is_online);
    assert!(p.is_online(BOB));
    assert_eq!(disconnect(&mut store, &mut p, &s("b2"), 21), Some((BOB, true)));
    assert!(!store.users[1].is_online);
    assert_eq!(store.users[1].last_seen, Some(21));
    assert!(!p.is_online(BOB));
    assert_eq!(disconnect(&mut store, &mut p, &s("b2"), 22), None);
}

#[test]
fn bind_reports_first_socket() {
    let mut p = Presence::new();
    assert_eq!(p.bind(s("a"), ALICE), Ok(true));
    assert_eq!(p.bind(s("b"), ALICE), Ok(false));
    assert_eq!(p.bind(s("a"), BOB), Err(AppError::BadRequest));
    assert_eq!(p.session_user(&s("b")), Ok(ALICE));
    assert_eq!(p.unbind(&s("a")), Some((ALICE, false)));
    assert_eq!(p.unbind(&s("b")), Some((ALICE, true)));
    assert_eq!(p.session_user(&s("b")), Err(AppError::Authentication));
}

#[test]
fn message_verbs_fan_out() {
    let (mut store, mut p) = setup();
    store.create_room(BOB, 101, s("Q"), None, RoomType::Private, None, None, s("k"), 5).unwrap();
    authenticate(&mut store, &mut p, s("a1"), Ok(ALICE), 10).unwrap();
    authenticate(&mut store, &mut p, s("b1"), Ok(BOB), 10).unwrap();
    join_room(&store, &mut p, &s("a1"), ROOM).unwrap();
    join_room(&store, &mut p, &s("b1"), ROOM).unwrap();
    join_room(&store, &mut p, &s("b1"), 101).unwrap();
    send_message(&mut store, &p, &s("b1"), ROOM, 500, s("orig"), MessageType::Text, None, None, 11).unwrap();
    assert_eq!(edit_message(&mut store, &p, &s("a1"), 500, s("x"), 12).err(), Some(AppError::Authorization));
    let d = edit_message(&mut store, &p, &s("b1"), 500, s("x"), 12).unwrap();
    assert_eq!(store.messages[d.index].content, "x");
    assert_eq!(d.recipients.len(), 2);
    let d = react(&mut store, &p, &s("a1"), 500, s("🔥"), true).unwrap();
    assert_eq!(store.messages[d.index].reactions[0].users, vec![ALICE]);
    let readers = mark_read(&mut store, &p, &s("a1"), ROOM, 500, 13).unwrap();
    assert_eq!(readers, vec![s("b1")]);
    let f = forward_message(&mut store, &p, &s("b1"), 500, 101, 501, 14).unwrap();
    assert_eq!(store.messages[f.index].room_id, 101);
    assert_eq!(f.recipients, vec![s("b1")]);
    let d = delete_message(&mut store, &p, &s("a1"), 500, 15).unwrap();
    assert!(store.messages[d.index].is_deleted);
}
