//! The chat data model: users, rooms, memberships and messages, with the
//! schema's invariants and the operations of the REST surface and the event
//! verbs that change them.

use vstd::prelude::*;
use crate::error::AppError;

mod accounts;
mod messages;
mod rooms;

pub use self::accounts::{next_created_at, registered, user_counted, Stats};
pub use self::messages::{
    history, history_before, page, same_but_reactions, tombstone_of,
};
pub use self::rooms::{projects, room_public, RoomResponse};

verus! {

broadcast use vstd::seq_lib::group_seq_properties;

/// Whether a room is listed to everyone or only visible to its members.
#[derive(Clone, Copy, Debug, PartialEq, Eq, Structural)]
pub enum RoomType {
    Public,
    Private,
}

/// Role of a user inside one room.
#[derive(Clone, Copy, Debug, PartialEq, Eq, Structural)]
pub enum MemberRole {
    Admin,
    Member,
}

/// Kind of a message body.
#[derive(Clone, Copy, Debug, PartialEq, Eq, Structural)]
pub enum MessageType {
    Text,
    File,
    Image,
    Video,
    System,
}

/// A registered account. Timestamps are milliseconds since the Unix epoch.
pub struct User {
    pub id: u128,
    pub username: String,
    pub email: Option<String>,
    pub password_hash: String,
    pub public_key: Option<String>,
    pub display_name: Option<String>,
    pub avatar: Option<String>,
    pub is_online: bool,
    pub last_seen: Option<i64>,
    pub is_admin: bool,
    pub is_banned: bool,
    pub created_at: i64,
}

/// A chat room. `encryption_key` is the opaque symmetric key its members share.
pub struct Room {
    pub id: u128,
    pub name: String,
    pub description: Option<String>,
    pub room_type: RoomType,
    pub encryption_key: String,
    pub creator_id: Option<u128>,
    pub max_members: u32,
    pub avatar: Option<String>,
    pub created_at: i64,
}

/// The membership of one user in one room.
#[derive(Clone, Copy)]
pub struct RoomMember {
    pub room_id: u128,
    pub user_id: u128,
    pub role: MemberRole,
    pub joined_at: i64,
    pub last_read_message_id: Option<u128>,
    pub last_read_at: Option<i64>,
}

/// The users who reacted to a message with one emoji.
pub struct Reaction {
    pub emoji: String,
    pub users: Vec<u128>,
}

/// A message. `content` is ciphertext written by the client and never read here.
pub struct Message {
    pub id: u128,
    pub room_id: u128,
    pub sender_id: u128,
    pub content: String,
    pub message_type: MessageType,
    pub metadata: Option<String>,
    pub parent_id: Option<u128>,
    pub reactions: Vec<Reaction>,
    pub is_edited: bool,
    pub edited_at: Option<i64>,
    pub is_deleted: bool,
    pub deleted_at: Option<i64>,
    pub created_at: i64,
}

/// The four tables of the store.
pub struct ChatStore {
    pub users: Vec<User>,
    pub rooms: Vec<Room>,
    pub members: Vec<RoomMember>,
    pub messages: Vec<Message>,
}

/// The store's tables as sequences of rows.
pub ghost struct ChatView {
    pub users: Seq<User>,
    pub rooms: Seq<Room>,
    pub members: Seq<RoomMember>,
    pub messages: Seq<Message>,
}

impl View for ChatStore {
    type V = ChatView;

    open spec fn view(&self) -> ChatView {
        ChatView {
            users: self.users@,
            rooms: self.rooms@,
            members: self.members@,
            messages: self.messages@,
        }
    }
}

impl Room {
    pub open spec fn spec_is_public(&self) -> bool {
        self.room_type == RoomType::Public
    }

    /// Whether the room is public.
    #[verifier::when_used_as_spec(spec_is_public)]
    pub fn is_public(&self) -> (r: bool)
        ensures
            r == self.spec_is_public(),
    {
        match self.room_type {
            RoomType::Public => true,
            RoomType::Private => false,
        }
    }
}

/// Whether a membership belongs to a room.
pub open spec fn in_room(room: u128) -> spec_fn(RoomMember) -> bool {
    |m: RoomMember| m.room_id == room
}

/// Same value in two optional strings.
pub open spec fn same_opt(a: Option<String>, b: Option<String>) -> bool {
    match (a, b) {
        (Some(x), Some(y)) => x@ == y@,
        _ => false,
    }
}

pub open spec fn seq_has_user(users: Seq<User>, id: u128) -> bool {
    exists|i: int| 0 <= i < users.len() && #[trigger] users[i].id == id
}

pub open spec fn seq_has_room(rooms: Seq<Room>, id: u128) -> bool {
    exists|i: int| 0 <= i < rooms.len() && #[trigger] rooms[i].id == id
}

pub open spec fn seq_has_message(messages: Seq<Message>, id: u128) -> bool {
    exists|i: int| 0 <= i < messages.len() && #[trigger] messages[i].id == id
}

pub open spec fn seq_has_member(members: Seq<RoomMember>, room: u128, user: u128) -> bool {
    exists|i: int| 0 <= i < members.len() && #[trigger] members[i].room_id == room && members[i].user_id == user
}

/// The room and the user a membership names both exist.
pub open spec fn member_refs_ok(v: ChatView, m: RoomMember) -> bool {
    v.has_room(m.room_id) && v.has_user(m.user_id)
}

/// The room and the sender a message names both exist, and its reactions are well formed.
pub open spec fn message_ok(v: ChatView, m: Message) -> bool {
    v.has_room(m.room_id) && v.has_user(m.sender_id) && reactions_wf(m.reactions@)
}

/// Each emoji has one entry, listing each reacting user once, and no entry is empty.
pub open spec fn reactions_wf(rs: Seq<Reaction>) -> bool {
    &&& forall|i: int, j: int| 0 <= i < j < rs.len() ==> #[trigger] rs[i].emoji@ != #[trigger] rs[j].emoji@
    &&& forall|i: int| 0 <= i < rs.len() ==> (#[trigger] rs[i]).users@.no_duplicates() && rs[i].users@.len() > 0
}

/// The users who reacted with `emoji`.
pub open spec fn reaction_set(rs: Seq<Reaction>, emoji: Seq<char>) -> Set<u128> {
    if exists|k: int| 0 <= k < rs.len() && #[trigger] rs[k].emoji@ == emoji {
        rs[choose|k: int| 0 <= k < rs.len() && #[trigger] rs[k].emoji@ == emoji].users@.to_set()
    } else {
        Set::empty()
    }
}

/// A room's creator, if any, exists.
pub open spec fn creator_ok(v: ChatView, r: Room) -> bool {
    match r.creator_id {
        Some(c) => v.has_user(c),
        None => true,
    }
}

impl ChatView {
    pub open spec fn has_user(self, id: u128) -> bool {
        seq_has_user(self.users, id)
    }

    pub open spec fn has_room(self, id: u128) -> bool {
        seq_has_room(self.rooms, id)
    }

    pub open spec fn has_message(self, id: u128) -> bool {
        seq_has_message(self.messages, id)
    }

    pub open spec fn is_member(self, room: u128, user: u128) -> bool {
        seq_has_member(self.members, room, user)
    }

    pub open spec fn username_taken(self, name: Seq<char>) -> bool {
        exists|i: int| 0 <= i < self.users.len() && #[trigger] self.users[i].username@ == name
    }

    pub open spec fn email_taken(self, email: Option<String>) -> bool {
        exists|i: int| 0 <= i < self.users.len() && same_opt(#[trigger] self.users[i].email, email)
    }

    /// The memberships of a room, in the order they were made.
    pub open spec fn room_members(self, room: u128) -> Seq<RoomMember> {
        self.members.filter(in_room(room))
    }

    pub open spec fn member_count(self, room: u128) -> nat {
        self.room_members(room).len()
    }

    pub open spec fn user_idx(self, id: u128) -> int {
        choose|i: int| 0 <= i < self.users.len() && #[trigger] self.users[i].id == id
    }

    /// The account with this id (meaningful when it exists).
    pub open spec fn user(self, id: u128) -> User {
        self.users[self.user_idx(id)]
    }

    pub open spec fn room_idx(self, id: u128) -> int {
        choose|i: int| 0 <= i < self.rooms.len() && #[trigger] self.rooms[i].id == id
    }

    /// The room with this id (meaningful when it exists).
    pub open spec fn room(self, id: u128) -> Room {
        self.rooms[self.room_idx(id)]
    }

    pub open spec fn member_idx(self, room: u128, user: u128) -> int {
        choose|i: int|
            0 <= i < self.members.len() && #[trigger] self.members[i].room_id == room
                && self.members[i].user_id == user
    }

    /// The membership of `user` in `room` (meaningful when it exists).
    pub open spec fn member(self, room: u128, user: u128) -> RoomMember {
        self.members[self.member_idx(room, user)]
    }

    pub open spec fn msg_idx(self, id: u128) -> int {
        choose|i: int| 0 <= i < self.messages.len() && #[trigger] self.messages[i].id == id
    }

    /// The message with this id (meaningful when it exists).
    pub open spec fn message(self, id: u128) -> Message {
        self.messages[self.msg_idx(id)]
    }

    /// Why a request by `actor` is refused before any other check: unknown
    /// account (401) or banned account (403).
    pub open spec fn actor_error(self, actor: u128) -> Option<AppError> {
        if !self.has_user(actor) {
            Some(AppError::Authentication)
        } else if self.user(actor).is_banned {
            Some(AppError::Authorization)
        } else {
            None
        }
    }

    /// Whether `user` may administer `room`: a room admin, or a global admin.
    pub open spec fn can_manage(self, room: u128, user: u128) -> bool {
        self.member(room, user).role == MemberRole::Admin || self.user(user).is_admin
    }

    /// Whether a room has reached its capacity.
    pub open spec fn is_full(self, room: u128) -> bool {
        self.member_count(room) >= self.room(room).max_members
    }

    pub open spec fn users_wf(self) -> bool {
        &&& forall|i: int, j: int|
            0 <= i < j < self.users.len() ==> #[trigger] self.users[i].id != #[trigger] self.users[j].id
        &&& forall|i: int, j: int|
            0 <= i < j < self.users.len() ==> #[trigger] self.users[i].username@
                != #[trigger] self.users[j].username@
        &&& forall|i: int, j: int|
            0 <= i < j < self.users.len() ==> #[trigger] self.users[i].created_at
                < #[trigger] self.users[j].created_at
        &&& self.users.len() > 0 ==> exists|i: int|
            0 <= i < self.users.len() && #[trigger] self.users[i].is_admin
    }

    pub open spec fn rooms_wf(self) -> bool {
        &&& forall|i: int, j: int|
            0 <= i < j < self.rooms.len() ==> #[trigger] self.rooms[i].id != #[trigger] self.rooms[j].id
        &&& forall|i: int|
            0 <= i < self.rooms.len() ==> #[trigger] creator_ok(self, self.rooms[i])
    }

    pub open spec fn members_wf(self) -> bool {
        &&& keys_unique(self.members)
        &&& forall|i: int|
            0 <= i < self.members.len() ==> #[trigger] member_refs_ok(self, self.members[i])
    }

    pub open spec fn messages_wf(self) -> bool {
        &&& message_ids_unique(self.messages)
        &&& messages_sorted(self.messages)
        &&& forall|i: int|
            0 <= i < self.messages.len() ==> #[trigger] message_ok(self, self.messages[i])
    }

    /// The schema's invariants.
    pub open spec fn wf(self) -> bool {
        &&& self.users_wf()
        &&& self.rooms_wf()
        &&& self.members_wf()
        &&& self.messages_wf()
    }
}

/// When no row disappears, every row that referred to live rows still does.
proof fn lemma_refs_grow(pre: ChatView, post: ChatView)
    requires
        pre.wf(),
        post.members == pre.members,
        post.messages == pre.messages,
        post.rooms == pre.rooms,
        forall|id: u128| pre.has_user(id) ==> post.has_user(id),
    ensures
        post.rooms_wf(),
        post.members_wf(),
        post.messages_wf(),
{
    assert forall|i: int| 0 <= i < post.members.len() implies #[trigger] member_refs_ok(post, post.members[i]) by {
        assert(member_refs_ok(pre, pre.members[i]));
    }
    assert forall|i: int| 0 <= i < post.messages.len() implies #[trigger] message_ok(post, post.messages[i]) by {
        assert(message_ok(pre, pre.messages[i]));
    }
    assert forall|i: int| 0 <= i < post.rooms.len() implies #[trigger] creator_ok(post, post.rooms[i]) by {
        assert(creator_ok(pre, pre.rooms[i]));
    }
}

/// A new membership row.
pub open spec fn new_member(room: u128, user: u128, role: MemberRole, now: i64) -> RoomMember {
    RoomMember {
        room_id: room,
        user_id: user,
        role,
        joined_at: now,
        last_read_message_id: None,
        last_read_at: None,
    }
}

/// Keeps the memberships that are not of `key`: a room when `by_room`, else a user.
pub open spec fn member_keep(key: u128, by_room: bool) -> spec_fn(RoomMember) -> bool {
    |m: RoomMember| if by_room { m.room_id != key } else { m.user_id != key }
}

/// No two memberships share a room and a user.
pub open spec fn keys_unique(s: Seq<RoomMember>) -> bool {
    forall|i: int, j: int|
        0 <= i < j < s.len() ==> !(#[trigger] s[i].room_id == #[trigger] s[j].room_id && s[i].user_id == s[j].user_id)
}

/// Messages are kept in order of their creation instants.
pub open spec fn messages_sorted(s: Seq<Message>) -> bool {
    forall|i: int, j: int| 0 <= i < j < s.len() ==> #[trigger] s[i].created_at <= #[trigger] s[j].created_at
}

/// No two messages share an id.
pub open spec fn message_ids_unique(s: Seq<Message>) -> bool {
    forall|i: int, j: int| 0 <= i < j < s.len() ==> #[trigger] s[i].id != #[trigger] s[j].id
}

pub open spec fn message_not_in_room(room: u128) -> spec_fn(Message) -> bool {
    |m: Message| m.room_id != room
}

/// Drops the memberships of `key` (a room when `by_room`, else a user),
/// keeping the others in order.
#[verifier::rlimit(50)]
fn retain_members(ms: &mut Vec<RoomMember>, key: u128, by_room: bool)
    requires
        keys_unique(old(ms)@),
    ensures
        final(ms)@ == old(ms)@.filter(member_keep(key, by_room)),
        keys_unique(final(ms)@),
        forall|a: int| 0 <= a < final(ms)@.len() ==> old(ms)@.contains(#[trigger] final(ms)@[a]),
{
    let ghost pre = ms@;
    let ghost p = member_keep(key, by_room);
    let mut i: usize = 0;
    let ghost mut j: int = 0;
    while i < ms.len()
        invariant
            0 <= i <= j <= pre.len(),
            i <= ms@.len(),
            ms@.len() - i == pre.len() - j,
            p == member_keep(key, by_room),
            ms@.take(i as int) == pre.take(j).filter(p),
            ms@.skip(i as int) == pre.skip(j),
            keys_unique(ms@),
            forall|a: int| 0 <= a < ms@.len() ==> pre.contains(#[trigger] ms@[a]),
        decreases ms@.len() - i,
    {
        let ghost old_ms = ms@;
        proof {
            assert(old_ms.skip(i as int)[0] == pre.skip(j)[0]);
            assert(old_ms[i as int] == pre[j]);
            pre.lemma_take_succ_push(j);
            pre.take(j).lemma_filter_push(pre[j], p);
        }
        let drop = if by_room {
            ms[i].room_id == key
        } else {
            ms[i].user_id == key
        };
        if drop {
            ms.remove(i);
            proof {
                let cur = ms@;
                assert(cur.take(i as int) =~= old_ms.take(i as int));
                assert(cur.skip(i as int) =~= old_ms.skip(i as int + 1));
                assert(old_ms.skip(i as int + 1) =~= old_ms.skip(i as int).skip(1));
                assert(pre.skip(j + 1) =~= pre.skip(j).skip(1));
                assert forall|a: int, b: int| 0 <= a < b < cur.len() implies !(#[trigger] cur[a].room_id
                    == #[trigger] cur[b].room_id && cur[a].user_id == cur[b].user_id) by {
                    let x = if a < i { a } else { a + 1 };
                    let y = if b < i { b } else { b + 1 };
                    assert(cur[a] == old_ms[x]);
                    assert(cur[b] == old_ms[y]);
                }
                assert forall|a: int| 0 <= a < cur.len() implies pre.contains(#[trigger] cur[a]) by {
                    let x = if a < i { a } else { a + 1 };
                    assert(cur[a] == old_ms[x]);
                }
                j = j + 1;
            }
        } else {
            proof {
                assert(old_ms.take(i as int + 1) =~= old_ms.take(i as int).push(old_ms[i as int]));
                assert(old_ms.skip(i as int + 1) =~= old_ms.skip(i as int).skip(1));
                assert(pre.skip(j + 1) =~= pre.skip(j).skip(1));
                j = j + 1;
            }
            i += 1;
        }
    }
    proof {
        assert(pre.skip(j).len() == 0);
        assert(ms@.take(i as int) =~= ms@);
        assert(pre.take(j) =~= pre);
    }
}

/// Removing one message keeps ids unique and creation instants in order.
proof fn lemma_messages_remove(s: Seq<Message>, k: int)
    requires
        message_ids_unique(s),
        messages_sorted(s),
        0 <= k < s.len(),
    ensures
        message_ids_unique(s.remove(k)),
        messages_sorted(s.remove(k)),
{
    let t = s.remove(k);
    assert forall|a: int, b: int| 0 <= a < b < t.len() implies #[trigger] t[a].id != #[trigger] t[b].id by {
        let x = if a < k { a } else { a + 1 };
        let y = if b < k { b } else { b + 1 };
        assert(t[a] == s[x]);
        assert(t[b] == s[y]);
    }
    assert forall|a: int, b: int| 0 <= a < b < t.len() implies #[trigger] t[a].created_at <= #[trigger] t[b].created_at by {
        let x = if a < k { a } else { a + 1 };
        let y = if b < k { b } else { b + 1 };
        assert(t[a] == s[x]);
        assert(t[b] == s[y]);
    }
}

/// Drops the messages of `room`, keeping the others in order.
#[verifier::rlimit(50)]
fn retain_messages(ms: &mut Vec<Message>, room: u128)
    requires
        message_ids_unique(old(ms)@),
        messages_sorted(old(ms)@),
    ensures
        final(ms)@ == old(ms)@.filter(message_not_in_room(room)),
        message_ids_unique(final(ms)@),
        messages_sorted(final(ms)@),
        forall|a: int| 0 <= a < final(ms)@.len() ==> old(ms)@.contains(#[trigger] final(ms)@[a]),
{
    let ghost pre = ms@;
    let ghost p = message_not_in_room(room);
    let mut i: usize = 0;
    let ghost mut j: int = 0;
    while i < ms.len()
        invariant
            0 <= i <= j <= pre.len(),
            i <= ms@.len(),
            ms@.len() - i == pre.len() - j,
            p == message_not_in_room(room),
            ms@.take(i as int) == pre.take(j).filter(p),
            ms@.skip(i as int) == pre.skip(j),
            message_ids_unique(ms@),
            messages_sorted(ms@),
            forall|a: int| 0 <= a < ms@.len() ==> pre.contains(#[trigger] ms@[a]),
        decreases ms@.len() - i,
    {
        let ghost old_ms = ms@;
        proof {
            assert(old_ms.skip(i as int)[0] == pre.skip(j)[0]);
            assert(old_ms[i as int] == pre[j]);
            pre.lemma_take_succ_push(j);
            pre.take(j).lemma_filter_push(pre[j], p);
        }
        if ms[i].room_id == room {
            ms.remove(i);
            proof {
                let cur = ms@;
                assert(cur.take(i as int) =~= old_ms.take(i as int));
                assert(cur.skip(i as int) =~= old_ms.skip(i as int + 1));
                assert(old_ms.skip(i as int + 1) =~= old_ms.skip(i as int).skip(1));
                assert(pre.skip(j + 1) =~= pre.skip(j).skip(1));
                lemma_messages_remove(old_ms, i as int);
                assert forall|a: int| 0 <= a < cur.len() implies pre.contains(#[trigger] cur[a]) by {
                    let x = if a < i { a } else { a + 1 };
                    assert(cur[a] == old_ms[x]);
                }
                j = j + 1;
            }
        } else {
            proof {
                assert(old_ms.take(i as int + 1) =~= old_ms.take(i as int).push(old_ms[i as int]));
                assert(old_ms.skip(i as int + 1) =~= old_ms.skip(i as int).skip(1));
                assert(pre.skip(j + 1) =~= pre.skip(j).skip(1));
                j = j + 1;
            }
            i += 1;
        }
    }
    proof {
        assert(pre.skip(j).len() == 0);
        assert(ms@.take(i as int) =~= ms@);
        assert(pre.take(j) =~= pre);
    }
}

/// In a well-formed store the row found for an id is the row the id names.
pub proof fn lemma_idx(v: ChatView)
    requires
        v.wf(),
    ensures
        forall|i: int| 0 <= i < v.users.len() ==> v.user_idx(#[trigger] v.users[i].id) == i,
        forall|i: int| 0 <= i < v.rooms.len() ==> v.room_idx(#[trigger] v.rooms[i].id) == i,
        forall|i: int| 0 <= i < v.messages.len() ==> v.msg_idx(#[trigger] v.messages[i].id) == i,
        forall|i: int|
            0 <= i < v.members.len() ==> v.member_idx(#[trigger] v.members[i].room_id, v.members[i].user_id) == i,
{
    assert forall|i: int| 0 <= i < v.users.len() implies v.user_idx(#[trigger] v.users[i].id) == i by {
        let id = v.users[i].id;
        let j = v.user_idx(id);
        assert(v.has_user(id));
        if j < i { assert(v.users[j].id != v.users[i].id); }
        if i < j { assert(v.users[i].id != v.users[j].id); }
    }
    assert forall|i: int| 0 <= i < v.rooms.len() implies v.room_idx(#[trigger] v.rooms[i].id) == i by {
        let id = v.rooms[i].id;
        let j = v.room_idx(id);
        assert(v.has_room(id));
        if j < i { assert(v.rooms[j].id != v.rooms[i].id); }
        if i < j { assert(v.rooms[i].id != v.rooms[j].id); }
    }
    assert forall|i: int| 0 <= i < v.messages.len() implies v.msg_idx(#[trigger] v.messages[i].id) == i by {
        let id = v.messages[i].id;
        let j = v.msg_idx(id);
        assert(v.has_message(id));
        if j < i { assert(v.messages[j].id != v.messages[i].id); }
        if i < j { assert(v.messages[i].id != v.messages[j].id); }
    }
    assert forall|i: int|
        0 <= i < v.members.len() implies v.member_idx(#[trigger] v.members[i].room_id, v.members[i].user_id) == i by {
        let r = v.members[i].room_id;
        let u = v.members[i].user_id;
        let j = v.member_idx(r, u);
        assert(v.is_member(r, u));
        if j < i { assert(v.members[j].room_id == v.members[i].room_id); }
        if i < j { assert(v.members[i].room_id == v.members[j].room_id); }
    }
}

/// Removing one membership keeps the store well formed.
proof fn lemma_members_remove(pre: ChatView, post: ChatView, k: int)
    requires
        pre.wf(),
        0 <= k < pre.members.len(),
        post.members == pre.members.remove(k),
        post.users == pre.users,
        post.rooms == pre.rooms,
        post.messages == pre.messages,
    ensures
        post.wf(),
{
    assert forall|i: int, j: int| 0 <= i < j < post.members.len() implies !(#[trigger] post.members[i].room_id
        == #[trigger] post.members[j].room_id && post.members[i].user_id == post.members[j].user_id) by {
        let a = if i < k { i } else { i + 1 };
        let b = if j < k { j } else { j + 1 };
        assert(post.members[i] == pre.members[a]);
        assert(post.members[j] == pre.members[b]);
    }
    assert forall|i: int| 0 <= i < post.members.len() implies #[trigger] member_refs_ok(post, post.members[i]) by {
        let a = if i < k { i } else { i + 1 };
        assert(post.members[i] == pre.members[a]);
        assert(member_refs_ok(pre, pre.members[a]));
    }
    assert forall|i: int| 0 <= i < post.messages.len() implies #[trigger] message_ok(post, post.messages[i]) by {
        assert(message_ok(pre, pre.messages[i]));
    }
    assert forall|i: int| 0 <= i < post.rooms.len() implies #[trigger] creator_ok(post, post.rooms[i]) by {
        assert(creator_ok(pre, pre.rooms[i]));
    }
}

impl ChatStore {
    /// An empty store.
    pub fn new() -> (r: ChatStore)
        ensures
            r@.wf(),
            r@.users.len() == 0,
            r@.rooms.len() == 0,
            r@.members.len() == 0,
            r@.messages.len() == 0,
    {
        ChatStore { users: Vec::new(), rooms: Vec::new(), members: Vec::new(), messages: Vec::new() }
    }

    /// Position of the user with this id.
    pub fn find_user(&self, id: u128) -> (r: Option<usize>)
        ensures
            match r {
                Some(i) => i < self@.users.len() && self@.users[i as int].id == id,
                None => !self@.has_user(id),
            },
    {
        let mut i: usize = 0;
        while i < self.users.len()
            invariant
                i <= self@.users.len(),
                forall|j: int| 0 <= j < i ==> #[trigger] self@.users[j].id != id,
            decreases self@.users.len() - i,
        {
            if self.users[i].id == id {
                return Some(i);
            }
            i += 1;
        }
        None
    }

    /// Position of the user with this username.
    pub fn find_username(&self, name: &String) -> (r: Option<usize>)
        ensures
            match r {
                Some(i) => i < self@.users.len() && self@.users[i as int].username@ == name@,
                None => !self@.username_taken(name@),
            },
    {
        let mut i: usize = 0;
        while i < self.users.len()
            invariant
                i <= self@.users.len(),
                forall|j: int| 0 <= j < i ==> #[trigger] self@.users[j].username@ != name@,
            decreases self@.users.len() - i,
        {
            if self.users[i].username == *name {
                return Some(i);
            }
            i += 1;
        }
        None
    }

    /// Position of the room with this id.
    pub fn find_room(&self, id: u128) -> (r: Option<usize>)
        ensures
            match r {
                Some(i) => i < self@.rooms.len() && self@.rooms[i as int].id == id,
                None => !self@.has_room(id),
            },
    {
        let mut i: usize = 0;
        while i < self.rooms.len()
            invariant
                i <= self@.rooms.len(),
                forall|j: int| 0 <= j < i ==> #[trigger] self@.rooms[j].id != id,
            decreases self@.rooms.len() - i,
        {
            if self.rooms[i].id == id {
                return Some(i);
            }
            i += 1;
        }
        None
    }

    /// Position of the message with this id.
    pub fn find_message(&self, id: u128) -> (r: Option<usize>)
        ensures
            match r {
                Some(i) => i < self@.messages.len() && self@.messages[i as int].id == id,
                None => !self@.has_message(id),
            },
    {
        let mut i: usize = 0;
        while i < self.messages.len()
            invariant
                i <= self@.messages.len(),
                forall|j: int| 0 <= j < i ==> #[trigger] self@.messages[j].id != id,
            decreases self@.messages.len() - i,
        {
            if self.messages[i].id == id {
                return Some(i);
            }
            i += 1;
        }
        None
    }

    /// Position of the membership of `user` in `room`.
    pub fn find_member(&self, room: u128, user: u128) -> (r: Option<usize>)
        ensures
            match r {
                Some(i) => i < self@.members.len() && self@.members[i as int].room_id == room
                    && self@.members[i as int].user_id == user,
                None => !self@.is_member(room, user),
            },
    {
        let mut i: usize = 0;
        while i < self.members.len()
            invariant
                i <= self@.members.len(),
                forall|j: int|
                    0 <= j < i ==> !(#[trigger] self@.members[j].room_id == room
                        && self@.members[j].user_id == user),
            decreases self@.members.len() - i,
        {
            if self.members[i].room_id == room && self.members[i].user_id == user {
                return Some(i);
            }
            i += 1;
        }
        None
    }

    /// Whether `user` belongs to `room`.
    pub fn is_member(&self, room: u128, user: u128) -> (r: bool)
        ensures
            r == self@.is_member(room, user),
    {
        self.find_member(room, user).is_some()
    }

    /// Number of members of a room.
    pub fn member_count(&self, room: u128) -> (r: usize)
        ensures
            r == self@.member_count(room),
    {
        let mut n: usize = 0;
        let mut i: usize = 0;
        while i < self.members.len()
            invariant
                i <= self@.members.len(),
                n == self@.members.take(i as int).filter(in_room(room)).len(),
                n <= i,
            decreases self@.members.len() - i,
        {
            proof {
                self@.members.lemma_take_succ_push(i as int);
                self@.members.take(i as int).lemma_filter_push(self@.members[i as int], in_room(room));
                assert(self@.members.take(i + 1) == self@.members.take(i as int).push(self@.members[i as int]));
                assert(in_room(room)(self@.members[i as int]) == (self@.members[i as int].room_id == room));
            }
            if self.members[i].room_id == room {
                n += 1;
            }
            i += 1;
        }
        proof {
            assert(self@.members.take(i as int) =~= self@.members);
        }
        n
    }

    /// Whether another user already has this email address.
    pub fn email_taken(&self, email: &Option<String>) -> (r: bool)
        ensures
            r == self@.email_taken(*email),
    {
        match email {
            None => {
                assert(!self@.email_taken(*email));
                false
            },
            Some(e) => {
                let mut i: usize = 0;
                while i < self.users.len()
                    invariant
                        i <= self@.users.len(),
                        *email == Some(*e),
                        forall|j: int| 0 <= j < i ==> !same_opt(#[trigger] self@.users[j].email, *email),
                    decreases self@.users.len() - i,
                {
                    match &self.users[i].email {
                        Some(x) => {
                            if *x == *e {
                                return true;
                            }
                        },
                        None => {},
                    }
                    i += 1;
                }
                false
            },
        }
    }

    /// The acting account's position, refused when unknown (401) or banned (403).
    pub fn require_active(&self, actor: u128) -> (r: Result<usize, AppError>)
        requires
            self@.wf(),
        ensures
            match self@.actor_error(actor) {
                Some(e) => r == Err::<usize, AppError>(e),
                None => r matches Ok(i) && i == self@.user_idx(actor) && 0 <= i < self@.users.len(),
            },
    {
        proof {
            lemma_idx(self@);
        }
        match self.find_user(actor) {
            None => Err(AppError::Authentication),
            Some(i) => {
                if self.users[i].is_banned {
                    Err(AppError::Authorization)
                } else {
                    Ok(i)
                }
            },
        }
    }
}

} // verus!
