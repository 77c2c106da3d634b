//! Rooms and memberships: creation, viewing, joining, leaving, member
//! management and deletion with its cascade.

use vstd::prelude::*;
use crate::error::AppError;
use super::{
    creator_ok, lemma_idx, lemma_members_remove, member_keep, member_refs_ok, message_not_in_room,
    message_ok, new_member, retain_members, retain_messages, ChatStore, ChatView, MemberRole, Room,
    RoomMember, RoomType,
};
use crate::validation::{valid_max_members, valid_room_name};

verus! {

broadcast use vstd::seq_lib::group_seq_properties;

impl ChatView {
    /// This store with `user` added to `room`.
    pub open spec fn with_member(self, room: u128, user: u128, role: MemberRole, now: i64) -> ChatView {
        ChatView { members: self.members.push(new_member(room, user, role, now)), ..self }
    }

    /// The first failing check of creating a room.
    pub open spec fn create_room_error(
        self,
        actor: u128,
        id: u128,
        name: Seq<char>,
        description: Option<String>,
        room_type: RoomType,
        max_members: Option<i32>,
    ) -> Option<AppError> {
        if self.actor_error(actor) is Some {
            self.actor_error(actor)
        } else if !valid_room_name(name) || !valid_max_members(max_members) || (match description {
            Some(d) => d@.len() > 500,
            None => false,
        }) {
            Some(AppError::Validation)
        } else if room_type == RoomType::Public && !self.user(actor).is_admin {
            Some(AppError::Authorization)
        } else if self.has_room(id) {
            Some(AppError::Conflict)
        } else {
            None
        }
    }

    /// The first failing check of viewing a room.
    pub open spec fn view_room_error(self, actor: u128, room: u128) -> Option<AppError> {
        if self.actor_error(actor) is Some {
            self.actor_error(actor)
        } else if !self.has_room(room) {
            Some(AppError::NotFound)
        } else if self.is_member(room, actor) {
            None
        } else if !self.room(room).spec_is_public() {
            Some(AppError::Authorization)
        } else if self.is_full(room) {
            Some(AppError::BadRequest)
        } else {
            None
        }
    }

    /// The first failing check of joining a room.
    pub open spec fn join_error(self, actor: u128, room: u128) -> Option<AppError> {
        if self.actor_error(actor) is Some {
            self.actor_error(actor)
        } else if !self.has_room(room) {
            Some(AppError::NotFound)
        } else if self.is_member(room, actor) {
            Some(AppError::BadRequest)
        } else if self.is_full(room) {
            Some(AppError::BadRequest)
        } else {
            None
        }
    }

    /// The first failing check of leaving a room.
    pub open spec fn leave_error(self, actor: u128, room: u128) -> Option<AppError> {
        if self.actor_error(actor) is Some {
            self.actor_error(actor)
        } else if !self.has_room(room) {
            Some(AppError::NotFound)
        } else if self.room(room).creator_id == Some(actor) {
            Some(AppError::BadRequest)
        } else if !self.is_member(room, actor) {
            Some(AppError::NotFound)
        } else {
            None
        }
    }

    /// The first failing check of adding `target` to a room.
    pub open spec fn add_member_error(self, actor: u128, room: u128, target: u128) -> Option<AppError> {
        if self.actor_error(actor) is Some {
            self.actor_error(actor)
        } else if !self.is_member(room, actor) {
            Some(AppError::Authorization)
        } else if !self.can_manage(room, actor) {
            Some(AppError::Authorization)
        } else if !self.has_user(target) {
            Some(AppError::NotFound)
        } else if self.is_full(room) {
            Some(AppError::BadRequest)
        } else {
            None
        }
    }

    /// The first failing check of removing `target` from a room.
    pub open spec fn remove_member_error(self, actor: u128, room: u128, target: u128) -> Option<AppError> {
        if self.actor_error(actor) is Some {
            self.actor_error(actor)
        } else if !self.has_room(room) {
            Some(AppError::NotFound)
        } else if !self.is_member(room, actor) {
            Some(AppError::Authorization)
        } else if !self.can_manage(room, actor) {
            Some(AppError::Authorization)
        } else if self.room(room).creator_id == Some(target) {
            Some(AppError::BadRequest)
        } else if !self.is_member(room, target) {
            Some(AppError::NotFound)
        } else {
            None
        }
    }

    /// The first failing check of deleting a room.
    pub open spec fn delete_room_error(self, actor: u128, room: u128) -> Option<AppError> {
        if self.actor_error(actor) is Some {
            self.actor_error(actor)
        } else if !self.has_room(room) {
            Some(AppError::NotFound)
        } else if self.room(room).creator_id != Some(actor) && !self.user(actor).is_admin {
            Some(AppError::Authorization)
        } else {
            None
        }
    }

    /// `post` is `pre` without `room`, its memberships and its messages.
    pub open spec fn room_deleted(self, post: ChatView, room: u128) -> bool {
        &&& post.users == self.users
        &&& post.rooms == self.rooms.remove(self.room_idx(room))
        &&& post.members == self.members.filter(member_keep(room, true))
        &&& post.messages == self.messages.filter(message_not_in_room(room))
    }

    /// `post` is `pre` with a room appended, its creator as its admin member.
    pub open spec fn room_created(
        self,
        post: ChatView,
        actor: u128,
        id: u128,
        name: Seq<char>,
        room_type: RoomType,
        max_members: Option<i32>,
        now: i64,
    ) -> bool {
        &&& post.users == self.users
        &&& post.messages == self.messages
        &&& post.rooms.len() == self.rooms.len() + 1
        &&& post.rooms.drop_last() == self.rooms
        &&& post.rooms.last().id == id
        &&& post.rooms.last().name@ == name
        &&& post.rooms.last().room_type == room_type
        &&& post.rooms.last().creator_id == Some(actor)
        &&& post.rooms.last().max_members == match max_members {
            Some(k) => k as u32,
            None => crate::validation::DEFAULT_MAX_MEMBERS,
        }
        &&& post.rooms.last().created_at == now
        &&& post.members == self.members.push(new_member(id, actor, MemberRole::Admin, now))
    }
}

pub open spec fn room_public() -> spec_fn(Room) -> bool {
    |r: Room| r.spec_is_public()
}

/// What a room looks like on the wire: the public projection leaves the
/// encryption key out, the member projection carries it.
pub struct RoomResponse {
    pub id: u128,
    pub name: String,
    pub description: Option<String>,
    pub room_type: RoomType,
    pub room_key: Option<String>,
    pub creator_id: Option<u128>,
    pub max_members: u32,
    pub is_public: bool,
    pub avatar: Option<String>,
    pub created_at: i64,
}

/// Two optional texts hold the same text, or both none.
pub open spec fn opt_text_eq(a: Option<String>, b: Option<String>) -> bool {
    match (a, b) {
        (Some(x), Some(y)) => x@ == y@,
        (None, None) => true,
        _ => false,
    }
}

/// A copy of an optional text.
fn copy_opt(s: &Option<String>) -> (r: Option<String>)
    ensures
        opt_text_eq(r, *s),
{
    match s {
        Some(t) => Some(t.clone()),
        None => None,
    }
}

/// `r` shows every attribute of `room` but its key.
pub open spec fn projects(r: RoomResponse, room: Room) -> bool {
    &&& r.id == room.id
    &&& r.name@ == room.name@
    &&& r.room_type == room.room_type
    &&& r.creator_id == room.creator_id
    &&& r.max_members == room.max_members
    &&& r.is_public == room.spec_is_public()
    &&& r.created_at == room.created_at
    &&& opt_text_eq(r.description, room.description)
    &&& opt_text_eq(r.avatar, room.avatar)
}

impl Room {
    fn project(&self, room_key: Option<String>) -> (r: RoomResponse)
        ensures
            projects(r, *self),
            r.room_key == room_key,
    {
        RoomResponse {
            id: self.id,
            name: self.name.clone(),
            description: copy_opt(&self.description),
            room_type: self.room_type,
            room_key,
            creator_id: self.creator_id,
            max_members: self.max_members,
            is_public: self.is_public(),
            avatar: copy_opt(&self.avatar),
            created_at: self.created_at,
        }
    }

    /// The projection shown to everyone: no encryption key.
    pub fn to_public_json(&self) -> (r: RoomResponse)
        ensures
            projects(r, *self),
            r.room_key is None,
    {
        self.project(None)
    }

    /// The projection shown to members: with the encryption key.
    pub fn to_member_json(&self) -> (r: RoomResponse)
        ensures
            projects(r, *self),
            r.room_key matches Some(k) && k@ == self.encryption_key@,
    {
        self.project(Some(self.encryption_key.clone()))
    }
}

impl ChatStore {
    /// Whether a room (at position `k`) has reached its capacity.
    fn room_is_full(&self, k: usize) -> (r: bool)
        requires
            self@.wf(),
            k < self@.rooms.len(),
        ensures
            r == self@.is_full(self@.rooms[k as int].id),
    {
        proof {
            lemma_idx(self@);
        }
        self.member_count(self.rooms[k].id) >= self.rooms[k].max_members as usize
    }

    fn push_member(&mut self, room: u128, user: u128, role: MemberRole, now: i64)
        requires
            old(self)@.wf(),
            old(self)@.has_room(room),
            old(self)@.has_user(user),
            !old(self)@.is_member(room, user),
        ensures
            final(self)@.wf(),
            final(self)@ == old(self)@.with_member(room, user, role, now),
    {
        let ghost pre = self@;
        let m = RoomMember {
            room_id: room,
            user_id: user,
            role,
            joined_at: now,
            last_read_message_id: None,
            last_read_at: None,
        };
        self.members.push(m);
        proof {
            let post = self@;
            assert(post == pre.with_member(room, user, role, now));
            assert forall|i: int| 0 <= i < post.members.len() implies #[trigger] member_refs_ok(post, post.members[i]) by {
                if i < pre.members.len() {
                    assert(member_refs_ok(pre, pre.members[i]));
                }
            }
            assert forall|i: int, j: int| 0 <= i < j < post.members.len() implies !(#[trigger] post.members[i].room_id
                == #[trigger] post.members[j].room_id && post.members[i].user_id == post.members[j].user_id) by {
                if j == pre.members.len() {
                    assert(pre.members[i] == post.members[i]);
                }
            }
            assert forall|i: int| 0 <= i < post.messages.len() implies #[trigger] message_ok(post, post.messages[i]) by {
                assert(message_ok(pre, pre.messages[i]));
            }
            assert forall|i: int| 0 <= i < post.rooms.len() implies #[trigger] creator_ok(post, post.rooms[i]) by {
                assert(creator_ok(pre, pre.rooms[i]));
            }
        }
    }

    /// Creates a room; its creator becomes its admin member. Public rooms are
    /// created by administrators only.
    pub fn create_room(
        &mut self,
        actor: u128,
        id: u128,
        name: String,
        description: Option<String>,
        room_type: RoomType,
        max_members: Option<i32>,
        avatar: Option<String>,
        encryption_key: String,
        now: i64,
    ) -> (r: Result<usize, AppError>)
        requires
            old(self)@.wf(),
        ensures
            final(self)@.wf(),
            match old(self)@.create_room_error(actor, id, name@, description, room_type, max_members) {
                Some(e) => r == Err::<usize, AppError>(e) && final(self)@ == old(self)@,
                None => r == Ok::<usize, AppError>(old(self)@.rooms.len() as usize) && old(self)@.room_created(
                    final(self)@,
                    actor,
                    id,
                    name@,
                    room_type,
                    max_members,
                    now,
                ) && final(self)@.rooms.last().encryption_key@ == encryption_key@,
            },
    {
        let a = match self.require_active(actor) {
            Ok(a) => a,
            Err(e) => return Err(e),
        };
        if crate::validation::validate_room_name(name.as_str()).is_err() {
            return Err(AppError::Validation);
        }
        let cap = match crate::validation::validate_max_members(max_members) {
            Ok(c) => c,
            Err(e) => return Err(e),
        };
        if crate::validation::validate_optional_len(&description, 500).is_err() {
            return Err(AppError::Validation);
        }
        if room_type == RoomType::Public && !self.users[a].is_admin {
            return Err(AppError::Authorization);
        }
        if self.find_room(id).is_some() {
            return Err(AppError::Conflict);
        }
        let ghost pre = self@;
        let n = self.rooms.len();
        let room = Room {
            id,
            name,
            description,
            room_type,
            encryption_key,
            creator_id: Some(actor),
            max_members: cap,
            avatar,
            created_at: now,
        };
        self.rooms.push(room);
        proof {
            let mid = self@;
            assert(mid.rooms.drop_last() =~= pre.rooms);
            assert forall|i: int, j: int| 0 <= i < j < mid.rooms.len() implies #[trigger] mid.rooms[i].id
                != #[trigger] mid.rooms[j].id by {
                if j == n {
                    assert(pre.rooms[i].id != id);
                }
            }
            assert forall|i: int| 0 <= i < mid.rooms.len() implies #[trigger] creator_ok(mid, mid.rooms[i]) by {
                if i < n {
                    assert(creator_ok(pre, pre.rooms[i]));
                }
            }
            assert forall|i: int| 0 <= i < mid.members.len() implies #[trigger] member_refs_ok(mid, mid.members[i]) by {
                assert(member_refs_ok(pre, pre.members[i]));
                let r = pre.members[i].room_id;
                let w = choose|w: int| 0 <= w < pre.rooms.len() && #[trigger] pre.rooms[w].id == r;
                assert(mid.rooms[w].id == r);
            }
            assert forall|i: int| 0 <= i < mid.messages.len() implies #[trigger] message_ok(mid, mid.messages[i]) by {
                assert(message_ok(pre, pre.messages[i]));
                let r = pre.messages[i].room_id;
                let w = choose|w: int| 0 <= w < pre.rooms.len() && #[trigger] pre.rooms[w].id == r;
                assert(mid.rooms[w].id == r);
            }
            assert(mid.rooms[n as int].id == id);
            assert(mid.is_member(id, actor) ==> pre.has_room(id)) by {
                if mid.is_member(id, actor) {
                    let w = choose|w: int| 0 <= w < mid.members.len() && #[trigger] mid.members[w].room_id == id
                        && mid.members[w].user_id == actor;
                    assert(member_refs_ok(pre, pre.members[w]));
                }
            }
        }
        self.push_member(id, actor, MemberRole::Admin, now);
        Ok(n)
    }

    /// Opens a room for `actor`: members see it; a public room with room
    /// left is joined on first view; a private room is refused to others.
    pub fn get_room(&mut self, actor: u128, room: u128, now: i64) -> (r: Result<usize, AppError>)
        requires
            old(self)@.wf(),
        ensures
            final(self)@.wf(),
            match old(self)@.view_room_error(actor, room) {
                Some(e) => r == Err::<usize, AppError>(e) && final(self)@ == old(self)@,
                None => r == Ok::<usize, AppError>(old(self)@.room_idx(room) as usize) && final(self)@ == if old(
                    self,
                )@.is_member(room, actor) {
                    old(self)@
                } else {
                    old(self)@.with_member(room, actor, MemberRole::Member, now)
                },
            },
    {
        proof {
            lemma_idx(self@);
        }
        match self.require_active(actor) {
            Ok(_) => {},
            Err(e) => return Err(e),
        }
        let k = match self.find_room(room) {
            Some(k) => k,
            None => return Err(AppError::NotFound),
        };
        if self.is_member(room, actor) {
            return Ok(k);
        }
        if !self.rooms[k].is_public() {
            return Err(AppError::Authorization);
        }
        if self.room_is_full(k) {
            return Err(AppError::BadRequest);
        }
        self.push_member(room, actor, MemberRole::Member, now);
        Ok(k)
    }

    /// Joins a room. Refused when the room is unknown (404), when `actor`
    /// already belongs to it or it is full (400).
    pub fn join_room(&mut self, actor: u128, room: u128, now: i64) -> (r: Result<usize, AppError>)
        requires
            old(self)@.wf(),
        ensures
            final(self)@.wf(),
            match old(self)@.join_error(actor, room) {
                Some(e) => r == Err::<usize, AppError>(e) && final(self)@ == old(self)@,
                None => r == Ok::<usize, AppError>(old(self)@.room_idx(room) as usize) && final(self)@ == old(
                    self,
                )@.with_member(room, actor, MemberRole::Member, now),
            },
    {
        proof {
            lemma_idx(self@);
        }
        match self.require_active(actor) {
            Ok(_) => {},
            Err(e) => return Err(e),
        }
        let k = match self.find_room(room) {
            Some(k) => k,
            None => return Err(AppError::NotFound),
        };
        if self.is_member(room, actor) {
            return Err(AppError::BadRequest);
        }
        if self.room_is_full(k) {
            return Err(AppError::BadRequest);
        }
        self.push_member(room, actor, MemberRole::Member, now);
        Ok(k)
    }

    /// Leaves a room. Its creator cannot leave it (400).
    pub fn leave_room(&mut self, actor: u128, room: u128) -> (r: Result<(), AppError>)
        requires
            old(self)@.wf(),
        ensures
            final(self)@.wf(),
            match old(self)@.leave_error(actor, room) {
                Some(e) => r == Err::<(), AppError>(e) && final(self)@ == old(self)@,
                None => r is Ok && final(self)@ == (ChatView {
                    members: old(self)@.members.remove(old(self)@.member_idx(room, actor)),
                    ..old(self)@
                }),
            },
    {
        proof {
            lemma_idx(self@);
        }
        match self.require_active(actor) {
            Ok(_) => {},
            Err(e) => return Err(e),
        }
        let k = match self.find_room(room) {
            Some(k) => k,
            None => return Err(AppError::NotFound),
        };
        if self.rooms[k].creator_id == Some(actor) {
            return Err(AppError::BadRequest);
        }
        let i = match self.find_member(room, actor) {
            Some(i) => i,
            None => return Err(AppError::NotFound),
        };
        let ghost pre = self@;
        self.members.remove(i);
        proof {
            lemma_members_remove(pre, self@, i as int);
        }
        Ok(())
    }

    /// Adds `target` to a room; `actor` must be a room admin or a global
    /// admin. Adding a current member changes nothing.
    pub fn add_member(&mut self, actor: u128, room: u128, target: u128, now: i64) -> (r: Result<(), AppError>)
        requires
            old(self)@.wf(),
        ensures
            final(self)@.wf(),
            match old(self)@.add_member_error(actor, room, target) {
                Some(e) => r == Err::<(), AppError>(e) && final(self)@ == old(self)@,
                None => r is Ok && final(self)@ == if old(self)@.is_member(room, target) {
                    old(self)@
                } else {
                    old(self)@.with_member(room, target, MemberRole::Member, now)
                },
            },
    {
        proof {
            lemma_idx(self@);
        }
        let a = match self.require_active(actor) {
            Ok(a) => a,
            Err(e) => return Err(e),
        };
        let mi = match self.find_member(room, actor) {
            Some(mi) => mi,
            None => return Err(AppError::Authorization),
        };
        if self.members[mi].role != MemberRole::Admin && !self.users[a].is_admin {
            return Err(AppError::Authorization);
        }
        if self.find_user(target).is_none() {
            return Err(AppError::NotFound);
        }
        proof {
            assert(member_refs_ok(self@, self@.members[mi as int]));
        }
        let k = match self.find_room(room) {
            Some(k) => k,
            None => return Err(AppError::NotFound),
        };
        if self.room_is_full(k) {
            return Err(AppError::BadRequest);
        }
        if self.is_member(room, target) {
            return Ok(());
        }
        self.push_member(room, target, MemberRole::Member, now);
        Ok(())
    }

    /// Removes `target` from a room; `actor` must be a room admin or a global
    /// admin, and the creator cannot be removed.
    pub fn remove_member(&mut self, actor: u128, room: u128, target: u128) -> (r: Result<(), AppError>)
        requires
            old(self)@.wf(),
        ensures
            final(self)@.wf(),
            match old(self)@.remove_member_error(actor, room, target) {
                Some(e) => r == Err::<(), AppError>(e) && final(self)@ == old(self)@,
                None => r is Ok && final(self)@ == (ChatView {
                    members: old(self)@.members.remove(old(self)@.member_idx(room, target)),
                    ..old(self)@
                }),
            },
    {
        proof {
            lemma_idx(self@);
        }
        let a = match self.require_active(actor) {
            Ok(a) => a,
            Err(e) => return Err(e),
        };
        let k = match self.find_room(room) {
            Some(k) => k,
            None => return Err(AppError::NotFound),
        };
        let mi = match self.find_member(room, actor) {
            Some(mi) => mi,
            None => return Err(AppError::Authorization),
        };
        if self.members[mi].role != MemberRole::Admin && !self.users[a].is_admin {
            return Err(AppError::Authorization);
        }
        if self.rooms[k].creator_id == Some(target) {
            return Err(AppError::BadRequest);
        }
        let i = match self.find_member(room, target) {
            Some(i) => i,
            None => return Err(AppError::NotFound),
        };
        let ghost pre = self@;
        self.members.remove(i);
        proof {
            lemma_members_remove(pre, self@, i as int);
        }
        Ok(())
    }

    /// Deletes a room with its memberships and messages; only its creator or
    /// an administrator may.
    pub fn delete_room(&mut self, actor: u128, room: u128) -> (r: Result<(), AppError>)
        requires
            old(self)@.wf(),
        ensures
            final(self)@.wf(),
            match old(self)@.delete_room_error(actor, room) {
                Some(e) => r == Err::<(), AppError>(e) && final(self)@ == old(self)@,
                None => r is Ok && old(self)@.room_deleted(final(self)@, room),
            },
    {
        proof {
            lemma_idx(self@);
        }
        let a = match self.require_active(actor) {
            Ok(a) => a,
            Err(e) => return Err(e),
        };
        let k = match self.find_room(room) {
            Some(k) => k,
            None => return Err(AppError::NotFound),
        };
        if self.rooms[k].creator_id != Some(actor) && !self.users[a].is_admin {
            return Err(AppError::Authorization);
        }
        let ghost pre = self@;
        retain_members(&mut self.members, room, true);
        retain_messages(&mut self.messages, room);
        self.rooms.remove(k);
        proof {
            let post = self@;
            assert(post.rooms == pre.rooms.remove(k as int));
            assert forall|i: int, j: int| 0 <= i < j < post.rooms.len() implies #[trigger] post.rooms[i].id
                != #[trigger] post.rooms[j].id by {
                let x = if i < k { i } else { i + 1 };
                let y = if j < k { j } else { j + 1 };
                assert(post.rooms[i] == pre.rooms[x]);
                assert(post.rooms[j] == pre.rooms[y]);
            }
            assert forall|i: int| 0 <= i < post.rooms.len() implies #[trigger] creator_ok(post, post.rooms[i]) by {
                let x = if i < k { i } else { i + 1 };
                assert(post.rooms[i] == pre.rooms[x]);
                assert(creator_ok(pre, pre.rooms[x]));
            }
            assert forall|id: u128| id != room && pre.has_room(id) implies post.has_room(id) by {
                let w = choose|w: int| 0 <= w < pre.rooms.len() && #[trigger] pre.rooms[w].id == id;
                assert(w != k);
                let x = if w < k { w } else { w - 1 };
                assert(post.rooms[x] == pre.rooms[w]);
            }
            assert forall|i: int| 0 <= i < post.members.len() implies #[trigger] member_refs_ok(post, post.members[i]) by {
                let w = choose|w: int| 0 <= w < pre.members.len() && pre.members[w] == post.members[i];
                assert(member_refs_ok(pre, pre.members[w]));
                pre.members.lemma_filter_pred(member_keep(room, true), i);
            }
            assert forall|i: int| 0 <= i < post.messages.len() implies #[trigger] message_ok(post, post.messages[i]) by {
                let w = choose|w: int| 0 <= w < pre.messages.len() && pre.messages[w] == post.messages[i];
                assert(message_ok(pre, pre.messages[w]));
                pre.messages.lemma_filter_pred(message_not_in_room(room), i);
            }
        }
        Ok(())
    }

    /// Positions of the public rooms, newest first.
    pub fn list_public_rooms(&self) -> (r: Vec<usize>)
        ensures
            forall|a: int| 0 <= a < r@.len() ==> #[trigger] r@[a] < self@.rooms.len() && self@.rooms[r@[a] as int].spec_is_public(),
            forall|a: int, b: int| 0 <= a < b < r@.len() ==> #[trigger] r@[a] > #[trigger] r@[b],
            forall|p: int| 0 <= p < self@.rooms.len() && #[trigger] self@.rooms[p].spec_is_public() ==> r@.contains(p as usize),
    {
        let mut out: Vec<usize> = Vec::new();
        let mut j: usize = self.rooms.len();
        while j > 0
            invariant
                j <= self@.rooms.len(),
                forall|a: int| 0 <= a < out@.len() ==> #[trigger] out@[a] < self@.rooms.len() && out@[a] >= j
                    && self@.rooms[out@[a] as int].spec_is_public(),
                forall|a: int, b: int| 0 <= a < b < out@.len() ==> #[trigger] out@[a] > #[trigger] out@[b],
                forall|p: int| j <= p < self@.rooms.len() && #[trigger] self@.rooms[p].spec_is_public() ==> out@.contains(p as usize),
            decreases j,
        {
            j -= 1;
            if self.rooms[j].is_public() {
                let ghost before = out@;
                out.push(j);
                proof {
                    assert forall|p: int| j <= p < self@.rooms.len() && #[trigger] self@.rooms[p].spec_is_public() implies out@.contains(p as usize) by {
                        if p == j {
                            assert(out@[out@.len() - 1] == j);
                        } else {
                            let w = choose|w: int| 0 <= w < before.len() && before[w] == p as usize;
                            assert(out@[w] == p as usize);
                        }
                    }
                }
            }
        }
        out
    }

    /// Positions of the memberships of a room, oldest first; only a member may list them.
    pub fn get_members(&self, actor: u128, room: u128) -> (r: Result<Vec<usize>, AppError>)
        requires
            self@.wf(),
        ensures
            match self@.read_error(actor, room) {
                Some(e) => r == Err::<Vec<usize>, AppError>(e),
                None => r matches Ok(v) && (forall|a: int|
                    0 <= a < v@.len() ==> #[trigger] v@[a] < self@.members.len() && self@.members[v@[a] as int].room_id == room)
                    && (forall|a: int, b: int| 0 <= a < b < v@.len() ==> #[trigger] v@[a] < #[trigger] v@[b])
                    && (forall|p: int|
                    0 <= p < self@.members.len() && #[trigger] self@.members[p].room_id == room ==> v@.contains(p as usize)),
            },
    {
        match self.require_active(actor) {
            Ok(_) => {},
            Err(e) => return Err(e),
        }
        if !self.is_member(room, actor) {
            return Err(AppError::Authorization);
        }
        let mut out: Vec<usize> = Vec::new();
        let mut j: usize = 0;
        while j < self.members.len()
            invariant
                j <= self@.members.len(),
                forall|a: int| 0 <= a < out@.len() ==> #[trigger] out@[a] < j && self@.members[out@[a] as int].room_id == room,
                forall|a: int, b: int| 0 <= a < b < out@.len() ==> #[trigger] out@[a] < #[trigger] out@[b],
                forall|p: int| 0 <= p < j && #[trigger] self@.members[p].room_id == room ==> out@.contains(p as usize),
            decreases self@.members.len() - j,
        {
            if self.members[j].room_id == room {
                let ghost before = out@;
                out.push(j);
                proof {
                    assert forall|p: int| 0 <= p < j + 1 && #[trigger] self@.members[p].room_id == room implies out@.contains(p as usize) by {
                        if p == j {
                            assert(out@[out@.len() - 1] == j);
                        } else {
                            let w = choose|w: int| 0 <= w < before.len() && before[w] == p as usize;
                            assert(out@[w] == p as usize);
                        }
                    }
                }
            }
            j += 1;
        }
        Ok(out)
    }

    /// Number of public rooms.
    pub fn public_room_count(&self) -> (r: usize)
        ensures
            r == self@.rooms.filter(room_public()).len(),
    {
        let mut n: usize = 0;
        let mut i: usize = 0;
        while i < self.rooms.len()
            invariant
                i <= self@.rooms.len(),
                n == self@.rooms.take(i as int).filter(room_public()).len(),
                n <= i,
            decreases self@.rooms.len() - i,
        {
            proof {
                self@.rooms.lemma_take_succ_push(i as int);
                self@.rooms.take(i as int).lemma_filter_push(self@.rooms[i as int], room_public());
                assert(self@.rooms.take(i + 1) == self@.rooms.take(i as int).push(self@.rooms[i as int]));
            }
            if self.rooms[i].is_public() {
                n += 1;
            }
            i += 1;
        }
        proof {
            assert(self@.rooms.take(i as int) =~= self@.rooms);
        }
        n
    }
}

} // verus!
