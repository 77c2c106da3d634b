//! Messages: publishing, editing, tombstones, reactions, read marks,
//! forwarding and history pages.

use vstd::prelude::*;
use crate::error::AppError;
use super::{
    creator_ok, lemma_idx, member_refs_ok, message_ok, reaction_set, reactions_wf, ChatStore, ChatView,
    Message, MessageType, Reaction, RoomMember,
};

verus! {

broadcast use vstd::seq_lib::group_seq_properties;

/// The creation instant of the next message: `now`, or the newest
/// message's instant when `now` lies before it, so that history stays in
/// order.
pub open spec fn next_message_at(msgs: Seq<Message>, now: i64) -> i64 {
    if msgs.len() == 0 || now >= msgs.last().created_at {
        now
    } else {
        msgs.last().created_at
    }
}

impl ChatView {
    /// A message that exists and is not deleted.
    pub open spec fn is_live_message(self, id: u128) -> bool {
        self.has_message(id) && !self.message(id).is_deleted
    }

    /// This store with message `id` replaced by `m`.
    pub open spec fn with_message(self, id: u128, m: Message) -> ChatView {
        ChatView { messages: self.messages.update(self.msg_idx(id), m), ..self }
    }

    /// The first failing check of publishing a message.
    pub open spec fn send_error(self, actor: u128, room: u128, id: u128) -> Option<AppError> {
        if self.actor_error(actor) is Some {
            self.actor_error(actor)
        } else if !self.is_member(room, actor) {
            Some(AppError::Authorization)
        } else if self.has_message(id) {
            Some(AppError::Conflict)
        } else {
            None
        }
    }

    /// `post` is `pre` with one message appended, as publishing makes it.
    pub open spec fn message_sent(
        self,
        post: ChatView,
        actor: u128,
        room: u128,
        id: u128,
        content: Seq<char>,
        message_type: MessageType,
        parent_id: Option<u128>,
        now: i64,
    ) -> bool {
        &&& post.users == self.users
        &&& post.rooms == self.rooms
        &&& post.members == self.members
        &&& post.messages.len() == self.messages.len() + 1
        &&& post.messages.drop_last() == self.messages
        &&& post.messages.last().id == id
        &&& post.messages.last().room_id == room
        &&& post.messages.last().sender_id == actor
        &&& post.messages.last().content@ == content
        &&& post.messages.last().message_type == message_type
        &&& post.messages.last().parent_id == parent_id
        &&& post.messages.last().reactions@.len() == 0
        &&& !post.messages.last().is_edited
        &&& !post.messages.last().is_deleted
        &&& post.messages.last().created_at == next_message_at(self.messages, now)
    }

    /// The first failing check of editing a message: only its sender may.
    pub open spec fn edit_error(self, actor: u128, id: u128) -> Option<AppError> {
        if self.actor_error(actor) is Some {
            self.actor_error(actor)
        } else if !self.is_live_message(id) {
            Some(AppError::NotFound)
        } else if self.message(id).sender_id != actor {
            Some(AppError::Authorization)
        } else {
            None
        }
    }

    /// The first failing check of deleting a message: its sender or an administrator may.
    pub open spec fn delete_message_error(self, actor: u128, id: u128) -> Option<AppError> {
        if self.actor_error(actor) is Some {
            self.actor_error(actor)
        } else if !self.is_live_message(id) {
            Some(AppError::NotFound)
        } else if self.message(id).sender_id != actor && !self.user(actor).is_admin {
            Some(AppError::Authorization)
        } else {
            None
        }
    }

    /// The first failing check of a reaction: the reacting user must belong to the message's room.
    pub open spec fn react_error(self, actor: u128, id: u128) -> Option<AppError> {
        if self.actor_error(actor) is Some {
            self.actor_error(actor)
        } else if !self.is_live_message(id) {
            Some(AppError::NotFound)
        } else if !self.is_member(self.message(id).room_id, actor) {
            Some(AppError::Authorization)
        } else {
            None
        }
    }

    /// The first failing check of forwarding: the user must belong to both rooms.
    pub open spec fn forward_error(self, actor: u128, id: u128, target: u128, new_id: u128) -> Option<AppError> {
        if self.actor_error(actor) is Some {
            self.actor_error(actor)
        } else if !self.is_live_message(id) {
            Some(AppError::NotFound)
        } else if !self.is_member(self.message(id).room_id, actor) {
            Some(AppError::Authorization)
        } else if !self.is_member(target, actor) {
            Some(AppError::Authorization)
        } else if self.has_message(new_id) {
            Some(AppError::Conflict)
        } else {
            None
        }
    }

    /// The first failing check of a read mark.
    pub open spec fn mark_read_error(self, actor: u128, room: u128, id: u128) -> Option<AppError> {
        if self.actor_error(actor) is Some {
            self.actor_error(actor)
        } else if !self.is_member(room, actor) {
            Some(AppError::Authorization)
        } else if !self.has_message(id) || self.message(id).room_id != room {
            Some(AppError::NotFound)
        } else {
            None
        }
    }
}

/// `m` is the tombstone of `old`: same row, blank content, marked deleted at `now`.
pub open spec fn tombstone_of(old: Message, m: Message, now: i64) -> bool {
    &&& m.id == old.id
    &&& m.room_id == old.room_id
    &&& m.sender_id == old.sender_id
    &&& m.message_type == old.message_type
    &&& m.parent_id == old.parent_id
    &&& m.reactions == old.reactions
    &&& m.is_edited == old.is_edited
    &&& m.edited_at == old.edited_at
    &&& m.created_at == old.created_at
    &&& m.content@.len() == 0
    &&& m.metadata is None
    &&& m.is_deleted
    &&& m.deleted_at == Some(now)
}

/// Replacing one message by a row with the same id that is itself well formed
/// keeps the store well formed.
proof fn lemma_message_update(pre: ChatView, post: ChatView, k: int)
    requires
        pre.wf(),
        0 <= k < pre.messages.len(),
        post.users == pre.users,
        post.rooms == pre.rooms,
        post.members == pre.members,
        post.messages.len() == pre.messages.len(),
        forall|j: int| 0 <= j < pre.messages.len() && j != k ==> post.messages[j] == pre.messages[j],
        post.messages[k].id == pre.messages[k].id,
        post.messages[k].created_at == pre.messages[k].created_at,
        message_ok(pre, post.messages[k]),
    ensures
        post.wf(),
{
    assert forall|i: int, j: int| 0 <= i < j < post.messages.len() implies #[trigger] post.messages[i].created_at
        <= #[trigger] post.messages[j].created_at by {
        assert(pre.messages[i].created_at <= pre.messages[j].created_at);
    }
    assert forall|i: int, j: int| 0 <= i < j < post.messages.len() implies #[trigger] post.messages[i].id
        != #[trigger] post.messages[j].id by {
        assert(pre.messages[i].id != pre.messages[j].id);
    }
    assert forall|i: int| 0 <= i < post.messages.len() implies #[trigger] message_ok(post, post.messages[i]) by {
        if i != k {
            assert(message_ok(pre, pre.messages[i]));
        }
    }
    assert forall|i: int| 0 <= i < post.members.len() implies #[trigger] member_refs_ok(post, post.members[i]) by {
        assert(member_refs_ok(pre, pre.members[i]));
    }
    assert forall|i: int| 0 <= i < post.rooms.len() implies #[trigger] creator_ok(post, post.rooms[i]) by {
        assert(creator_ok(pre, pre.rooms[i]));
    }
}

/// `n` is `o` with only its reactions changed.
pub open spec fn same_but_reactions(o: Message, n: Message) -> bool {
    &&& n.id == o.id
    &&& n.room_id == o.room_id
    &&& n.sender_id == o.sender_id
    &&& n.content == o.content
    &&& n.message_type == o.message_type
    &&& n.metadata == o.metadata
    &&& n.parent_id == o.parent_id
    &&& n.is_edited == o.is_edited
    &&& n.edited_at == o.edited_at
    &&& n.is_deleted == o.is_deleted
    &&& n.deleted_at == o.deleted_at
    &&& n.created_at == o.created_at
}

impl ChatView {
    /// `post` is `pre` where the users who reacted to message `id` with
    /// `emoji` are now `users`, and nothing else changed.
    pub open spec fn reactions_set_to(self, post: ChatView, id: u128, emoji: Seq<char>, users: Set<u128>) -> bool {
        &&& post.users == self.users
        &&& post.rooms == self.rooms
        &&& post.members == self.members
        &&& post.messages.len() == self.messages.len()
        &&& forall|j: int|
            0 <= j < self.messages.len() && j != self.msg_idx(id) ==> post.messages[j] == self.messages[j]
        &&& same_but_reactions(self.message(id), post.messages[self.msg_idx(id)])
        &&& reaction_set(post.messages[self.msg_idx(id)].reactions@, emoji) == users
        &&& forall|e: Seq<char>|
            e != emoji ==> #[trigger] reaction_set(post.messages[self.msg_idx(id)].reactions@, e) == reaction_set(
                self.message(id).reactions@,
                e,
            )
    }
}

/// In well-formed reactions the entry of an emoji is the one that holds it.
proof fn lemma_reaction_set_at(rs: Seq<Reaction>, k: int)
    requires
        reactions_wf(rs),
        0 <= k < rs.len(),
    ensures
        reaction_set(rs, rs[k].emoji@) == rs[k].users@.to_set(),
{
    let e = rs[k].emoji@;
    assert(exists|j: int| 0 <= j < rs.len() && #[trigger] rs[j].emoji@ == e);
    let c = choose|j: int| 0 <= j < rs.len() && #[trigger] rs[j].emoji@ == e;
    if c < k {
        assert(rs[c].emoji@ != rs[k].emoji@);
    }
    if k < c {
        assert(rs[k].emoji@ != rs[c].emoji@);
    }
}

/// Dropping one element of a sequence without duplicates drops it from its set.
proof fn lemma_remove_to_set(s: Seq<u128>, p: int)
    requires
        s.no_duplicates(),
        0 <= p < s.len(),
    ensures
        s.remove(p).to_set() == s.to_set().remove(s[p]),
        s.remove(p).no_duplicates(),
{
    let t = s.remove(p);
    assert forall|y: u128| t.to_set().contains(y) <==> s.to_set().remove(s[p]).contains(y) by {
        if t.to_set().contains(y) {
            let a = choose|a: int| 0 <= a < t.len() && t[a] == y;
            let x = if a < p { a } else { a + 1 };
            assert(t[a] == s[x]);
            assert(s.contains(y));
            assert(x != p);
        }
        if s.to_set().remove(s[p]).contains(y) {
            let x = choose|x: int| 0 <= x < s.len() && s[x] == y;
            assert(x != p);
            let a = if x < p { x } else { x - 1 };
            assert(t[a] == y);
            assert(t.contains(y));
        }
    }
    assert(t.to_set() =~= s.to_set().remove(s[p]));
    assert forall|a: int, b: int| 0 <= a < t.len() && 0 <= b < t.len() && a != b implies t[a] != t[b] by {
        let x = if a < p { a } else { a + 1 };
        let y = if b < p { b } else { b + 1 };
    }
}

/// Position of an emoji's entry.
fn find_emoji(rs: &Vec<Reaction>, emoji: &String) -> (r: Option<usize>)
    ensures
        match r {
            Some(k) => k < rs@.len() && rs@[k as int].emoji@ == emoji@,
            None => forall|k: int| 0 <= k < rs@.len() ==> #[trigger] rs@[k].emoji@ != emoji@,
        },
{
    let mut k: usize = 0;
    while k < rs.len()
        invariant
            k <= rs@.len(),
            forall|j: int| 0 <= j < k ==> #[trigger] rs@[j].emoji@ != emoji@,
        decreases rs@.len() - k,
    {
        if rs[k].emoji == *emoji {
            return Some(k);
        }
        k += 1;
    }
    None
}

/// Position of a user in a list.
fn find_user_in(us: &Vec<u128>, u: u128) -> (r: Option<usize>)
    ensures
        match r {
            Some(p) => p < us@.len() && us@[p as int] == u,
            None => !us@.contains(u),
        },
{
    let mut p: usize = 0;
    while p < us.len()
        invariant
            p <= us@.len(),
            forall|j: int| 0 <= j < p ==> us@[j] != u,
        decreases us@.len() - p,
    {
        if us[p] == u {
            return Some(p);
        }
        p += 1;
    }
    None
}

/// Positions below `j` of the messages of `room`, newest first.
pub open spec fn history_before(msgs: Seq<Message>, room: u128, j: int) -> Seq<int>
    decreases j,
{
    if j <= 0 {
        Seq::empty()
    } else if msgs[j - 1].room_id == room {
        seq![j - 1] + history_before(msgs, room, j - 1)
    } else {
        history_before(msgs, room, j - 1)
    }
}

/// Positions of all messages of `room`, newest first.
pub open spec fn history(msgs: Seq<Message>, room: u128) -> Seq<int> {
    history_before(msgs, room, msgs.len() as int)
}

/// The window of `s` that starts at `offset` and holds at most `limit` items.
pub open spec fn page(s: Seq<int>, offset: int, limit: int) -> Seq<int> {
    let lo = if offset < s.len() { offset } else { s.len() as int };
    let hi = if offset + limit < s.len() { offset + limit } else { s.len() as int };
    s.subrange(lo, hi)
}

impl ChatView {
    /// The first failing check of reading a room's history or member list.
    pub open spec fn read_error(self, actor: u128, room: u128) -> Option<AppError> {
        if self.actor_error(actor) is Some {
            self.actor_error(actor)
        } else if !self.is_member(room, actor) {
            Some(AppError::Authorization)
        } else {
            None
        }
    }
}


pub open spec fn message_in_room(room: u128) -> spec_fn(Message) -> bool {
    |m: Message| m.room_id == room
}

/// The history below `j` lists at most `j` positions.
proof fn lemma_history_len(msgs: Seq<Message>, room: u128, j: int)
    ensures
        history_before(msgs, room, j).len() <= if j < 0 { 0 } else { j },
    decreases j,
{
    if j > 0 {
        lemma_history_len(msgs, room, j - 1);
    }
}

/// The history below `j` lists positions below `j` of messages of the room, newest first.
pub proof fn lemma_history_props(msgs: Seq<Message>, room: u128, j: int)
    requires
        0 <= j <= msgs.len(),
    ensures
        forall|a: int| 0 <= a < history_before(msgs, room, j).len() ==> 0 <= #[trigger] history_before(msgs, room, j)[a] < j
            && msgs[history_before(msgs, room, j)[a]].room_id == room,
        forall|a: int, b: int| 0 <= a < b < history_before(msgs, room, j).len() ==> #[trigger] history_before(msgs, room, j)[a]
            > #[trigger] history_before(msgs, room, j)[b],
    decreases j,
{
    if j > 0 {
        lemma_history_props(msgs, room, j - 1);
        let t = history_before(msgs, room, j - 1);
        if msgs[j - 1].room_id == room {
            let h = history_before(msgs, room, j);
            assert(h == seq![j - 1] + t);
            assert forall|a: int| 0 <= a < h.len() implies 0 <= #[trigger] h[a] < j && msgs[h[a]].room_id == room by {
                if a > 0 {
                    assert(h[a] == t[a - 1]);
                }
            }
            assert forall|a: int, b: int| 0 <= a < b < h.len() implies #[trigger] h[a] > #[trigger] h[b] by {
                assert(h[b] == t[b - 1]);
                if a > 0 {
                    assert(h[a] == t[a - 1]);
                }
            }
        }
    }
}

impl ChatStore {
    /// The creation instant a message published at `now` gets.
    fn next_message_time(&self, now: i64) -> (r: i64)
        ensures
            r == next_message_at(self@.messages, now),
    {
        let n = self.messages.len();
        if n == 0 || now >= self.messages[n - 1].created_at {
            now
        } else {
            self.messages[n - 1].created_at
        }
    }

    /// Publishes a message to a room `actor` belongs to. The ciphertext is
    /// stored exactly as given.
    pub fn send_message(
        &mut self,
        actor: u128,
        room: u128,
        id: u128,
        content: String,
        message_type: MessageType,
        parent_id: Option<u128>,
        metadata: Option<String>,
        now: i64,
    ) -> (r: Result<usize, AppError>)
        requires
            old(self)@.wf(),
        ensures
            final(self)@.wf(),
            match old(self)@.send_error(actor, room, id) {
                Some(e) => r == Err::<usize, AppError>(e) && final(self)@ == old(self)@,
                None => r == Ok::<usize, AppError>(old(self)@.messages.len() as usize) && old(self)@.message_sent(
                    final(self)@,
                    actor,
                    room,
                    id,
                    content@,
                    message_type,
                    parent_id,
                    now,
                ) && final(self)@.messages.last().metadata == metadata,
            },
    {
        proof {
            lemma_idx(self@);
        }
        match self.require_active(actor) {
            Ok(_) => {},
            Err(e) => return Err(e),
        }
        let mi = match self.find_member(room, actor) {
            Some(mi) => mi,
            None => return Err(AppError::Authorization),
        };
        if self.find_message(id).is_some() {
            return Err(AppError::Conflict);
        }
        proof {
            assert(member_refs_ok(self@, self@.members[mi as int]));
        }
        let at = self.next_message_time(now);
        let ghost pre = self@;
        self.push_message(Message {
            id,
            room_id: room,
            sender_id: actor,
            content,
            message_type,
            metadata,
            parent_id,
            reactions: Vec::new(),
            is_edited: false,
            edited_at: None,
            is_deleted: false,
            deleted_at: None,
            created_at: at,
        });
        proof {
            assert(self@.messages.drop_last() =~= pre.messages);
        }
        Ok(self.messages.len() - 1)
    }

    fn push_message(&mut self, m: Message)
        requires
            old(self)@.wf(),
            !old(self)@.has_message(m.id),
            old(self)@.has_room(m.room_id),
            old(self)@.has_user(m.sender_id),
            m.reactions@.len() == 0,
            old(self)@.messages.len() == 0 || m.created_at >= old(self)@.messages.last().created_at,
        ensures
            final(self)@.wf(),
            final(self)@ == (ChatView { messages: old(self)@.messages.push(m), ..old(self)@ }),
    {
        let ghost pre = self@;
        self.messages.push(m);
        proof {
            let post = self@;
            assert forall|i: int, j: int| 0 <= i < j < post.messages.len() implies #[trigger] post.messages[i].id
                != #[trigger] post.messages[j].id by {
                if j == pre.messages.len() {
                    assert(pre.messages[i].id != m.id);
                }
            }
            assert forall|i: int, j: int| 0 <= i < j < post.messages.len() implies #[trigger] post.messages[i].created_at
                <= #[trigger] post.messages[j].created_at by {
                if j == pre.messages.len() && i < pre.messages.len() - 1 {
                    assert(pre.messages[i].created_at <= pre.messages[pre.messages.len() - 1].created_at);
                }
            }
            assert forall|i: int| 0 <= i < post.messages.len() implies #[trigger] message_ok(post, post.messages[i]) by {
                if i < pre.messages.len() {
                    assert(message_ok(pre, pre.messages[i]));
                }
            }
            assert forall|i: int| 0 <= i < post.members.len() implies #[trigger] member_refs_ok(post, post.members[i]) by {
                assert(member_refs_ok(pre, pre.members[i]));
            }
            assert forall|i: int| 0 <= i < post.rooms.len() implies #[trigger] creator_ok(post, post.rooms[i]) by {
                assert(creator_ok(pre, pre.rooms[i]));
            }
        }
    }

    /// Position of a live message, or `NotFound`.
    fn find_live_message(&self, id: u128) -> (r: Result<usize, AppError>)
        requires
            self@.wf(),
        ensures
            self@.is_live_message(id) ==> r == Ok::<usize, AppError>(self@.msg_idx(id) as usize),
            !self@.is_live_message(id) ==> r == Err::<usize, AppError>(AppError::NotFound),
            r matches Ok(i) ==> i < self@.messages.len() && i as int == self@.msg_idx(id)
                && self@.messages[i as int].id == id && !self@.messages[i as int].is_deleted,
    {
        proof {
            lemma_idx(self@);
        }
        match self.find_message(id) {
            Some(i) => {
                if self.messages[i].is_deleted {
                    Err(AppError::NotFound)
                } else {
                    Ok(i)
                }
            },
            None => Err(AppError::NotFound),
        }
    }

    /// Replaces the content of a message by its sender.
    pub fn edit_message(&mut self, actor: u128, id: u128, content: String, now: i64) -> (r: Result<usize, AppError>)
        requires
            old(self)@.wf(),
        ensures
            r matches Ok(i) ==> i as int == old(self)@.msg_idx(id) && i < old(self)@.messages.len(),
            final(self)@.wf(),
            match old(self)@.edit_error(actor, id) {
                Some(e) => r == Err::<usize, AppError>(e) && final(self)@ == old(self)@,
                None => r == Ok::<usize, AppError>(old(self)@.msg_idx(id) as usize) && final(self)@ == old(
                    self,
                )@.with_message(
                    id,
                    Message { content, is_edited: true, edited_at: Some(now), ..old(self)@.message(id) },
                ),
            },
    {
        proof {
            lemma_idx(self@);
        }
        match self.require_active(actor) {
            Ok(_) => {},
            Err(e) => return Err(e),
        }
        let i = match self.find_live_message(id) {
            Ok(i) => i,
            Err(e) => return Err(e),
        };
        if self.messages[i].sender_id != actor {
            return Err(AppError::Authorization);
        }
        let ghost pre = self@;
        proof {
            assert(message_ok(pre, pre.messages[i as int]));
        }
        self.messages[i].content = content;
        self.messages[i].is_edited = true;
        self.messages[i].edited_at = Some(now);
        proof {
            assert(self@.messages =~= pre.messages.update(i as int, Message { content, is_edited: true, edited_at: Some(now), ..pre.messages[i as int] }));
            lemma_message_update(pre, self@, i as int);
        }
        Ok(i)
    }

    /// Deletes a message, leaving a tombstone: its sender or an
    /// administrator may.
    pub fn delete_message(&mut self, actor: u128, id: u128, now: i64) -> (r: Result<usize, AppError>)
        requires
            old(self)@.wf(),
        ensures
            r matches Ok(i) ==> i as int == old(self)@.msg_idx(id) && i < old(self)@.messages.len(),
            final(self)@.wf(),
            match old(self)@.delete_message_error(actor, id) {
                Some(e) => r == Err::<usize, AppError>(e) && final(self)@ == old(self)@,
                None => r == Ok::<usize, AppError>(old(self)@.msg_idx(id) as usize) && final(self)@.users
                    == old(self)@.users && final(self)@.rooms == old(self)@.rooms && final(self)@.members
                    == old(self)@.members && final(self)@.messages.len() == old(self)@.messages.len()
                    && (forall|j: int|
                    0 <= j < old(self)@.messages.len() && j != old(self)@.msg_idx(id)
                        ==> final(self)@.messages[j] == old(self)@.messages[j]) && tombstone_of(
                    old(self)@.message(id),
                    final(self)@.messages[old(self)@.msg_idx(id)],
                    now,
                ),
            },
    {
        proof {
            lemma_idx(self@);
        }
        let a = match self.require_active(actor) {
            Ok(a) => a,
            Err(e) => return Err(e),
        };
        let i = match self.find_live_message(id) {
            Ok(i) => i,
            Err(e) => return Err(e),
        };
        if self.messages[i].sender_id != actor && !self.users[a].is_admin {
            return Err(AppError::Authorization);
        }
        let ghost pre = self@;
        proof {
            assert(message_ok(pre, pre.messages[i as int]));
        }
        self.messages[i].content = String::new();
        self.messages[i].metadata = None;
        self.messages[i].is_deleted = true;
        self.messages[i].deleted_at = Some(now);
        proof {
            lemma_message_update(pre, self@, i as int);
        }
        Ok(i)
    }

    /// Copies a message into another room; both rooms must count `actor` as
    /// a member. The copy names the original as its parent.
    pub fn forward_message(&mut self, actor: u128, id: u128, target: u128, new_id: u128, now: i64) -> (r: Result<
        usize,
        AppError,
    >)
        requires
            old(self)@.wf(),
        ensures
            final(self)@.wf(),
            match old(self)@.forward_error(actor, id, target, new_id) {
                Some(e) => r == Err::<usize, AppError>(e) && final(self)@ == old(self)@,
                None => r == Ok::<usize, AppError>(old(self)@.messages.len() as usize) && old(self)@.message_sent(
                    final(self)@,
                    actor,
                    target,
                    new_id,
                    old(self)@.message(id).content@,
                    old(self)@.message(id).message_type,
                    Some(id),
                    now,
                ),
            },
    {
        proof {
            lemma_idx(self@);
        }
        match self.require_active(actor) {
            Ok(_) => {},
            Err(e) => return Err(e),
        }
        let i = match self.find_live_message(id) {
            Ok(i) => i,
            Err(e) => return Err(e),
        };
        if !self.is_member(self.messages[i].room_id, actor) {
            return Err(AppError::Authorization);
        }
        let mi = match self.find_member(target, actor) {
            Some(mi) => mi,
            None => return Err(AppError::Authorization),
        };
        if self.find_message(new_id).is_some() {
            return Err(AppError::Conflict);
        }
        proof {
            assert(member_refs_ok(self@, self@.members[mi as int]));
        }
        let at = self.next_message_time(now);
        let ghost pre = self@;
        let content = self.messages[i].content.clone();
        let metadata = match &self.messages[i].metadata {
            Some(m) => Some(m.clone()),
            None => None,
        };
        let message_type = self.messages[i].message_type;
        self.push_message(Message {
            id: new_id,
            room_id: target,
            sender_id: actor,
            content,
            message_type,
            metadata,
            parent_id: Some(id),
            reactions: Vec::new(),
            is_edited: false,
            edited_at: None,
            is_deleted: false,
            deleted_at: None,
            created_at: at,
        });
        proof {
            assert(self@.messages.drop_last() =~= pre.messages);
        }
        Ok(self.messages.len() - 1)
    }

    /// Records that `actor` has read `room` up to message `id`.
    pub fn mark_read(&mut self, actor: u128, room: u128, id: u128, now: i64) -> (r: Result<(), AppError>)
        requires
            old(self)@.wf(),
        ensures
            final(self)@.wf(),
            match old(self)@.mark_read_error(actor, room, id) {
                Some(e) => r == Err::<(), AppError>(e) && final(self)@ == old(self)@,
                None => r is Ok && final(self)@ == (ChatView {
                    members: old(self)@.members.update(
                        old(self)@.member_idx(room, actor),
                        RoomMember {
                            last_read_message_id: Some(id),
                            last_read_at: Some(now),
                            ..old(self)@.member(room, actor)
                        },
                    ),
                    ..old(self)@
                }),
            },
    {
        proof {
            lemma_idx(self@);
        }
        match self.require_active(actor) {
            Ok(_) => {},
            Err(e) => return Err(e),
        }
        let mi = match self.find_member(room, actor) {
            Some(mi) => mi,
            None => return Err(AppError::Authorization),
        };
        match self.find_message(id) {
            Some(k) => {
                if self.messages[k].room_id != room {
                    return Err(AppError::NotFound);
                }
            },
            None => return Err(AppError::NotFound),
        }
        let ghost pre = self@;
        self.members[mi].last_read_message_id = Some(id);
        self.members[mi].last_read_at = Some(now);
        proof {
            let post = self@;
            assert(post.members =~= pre.members.update(mi as int, RoomMember {
                last_read_message_id: Some(id),
                last_read_at: Some(now),
                ..pre.members[mi as int]
            }));
            assert forall|i: int, j: int| 0 <= i < j < post.members.len() implies !(#[trigger] post.members[i].room_id
                == #[trigger] post.members[j].room_id && post.members[i].user_id == post.members[j].user_id) by {
                assert(!(pre.members[i].room_id == pre.members[j].room_id && pre.members[i].user_id == pre.members[j].user_id));
            }
            assert forall|i: int| 0 <= i < post.members.len() implies #[trigger] member_refs_ok(post, post.members[i]) by {
                assert(member_refs_ok(pre, pre.members[i]));
            }
            assert forall|i: int| 0 <= i < post.messages.len() implies #[trigger] message_ok(post, post.messages[i]) by {
                assert(message_ok(pre, pre.messages[i]));
            }
            assert forall|i: int| 0 <= i < post.rooms.len() implies #[trigger] creator_ok(post, post.rooms[i]) by {
                assert(creator_ok(pre, pre.rooms[i]));
            }
        }
        Ok(())
    }

    /// Adds `actor` to the users who reacted to a message with `emoji`;
    /// adding an existing reaction changes nothing.
    pub fn add_reaction(&mut self, actor: u128, id: u128, emoji: String) -> (r: Result<usize, AppError>)
        requires
            old(self)@.wf(),
        ensures
            r matches Ok(i) ==> i as int == old(self)@.msg_idx(id) && i < old(self)@.messages.len(),
            final(self)@.wf(),
            match old(self)@.react_error(actor, id) {
                Some(e) => r == Err::<usize, AppError>(e) && final(self)@ == old(self)@,
                None => r == Ok::<usize, AppError>(old(self)@.msg_idx(id) as usize) && old(self)@.reactions_set_to(
                    final(self)@,
                    id,
                    emoji@,
                    reaction_set(old(self)@.message(id).reactions@, emoji@).insert(actor),
                ),
            },
    {
        proof {
            lemma_idx(self@);
        }
        match self.require_active(actor) {
            Ok(_) => {},
            Err(e) => return Err(e),
        }
        let i = match self.find_live_message(id) {
            Ok(i) => i,
            Err(e) => return Err(e),
        };
        if !self.is_member(self.messages[i].room_id, actor) {
            return Err(AppError::Authorization);
        }
        let ghost pre = self@;
        let ghost rs = pre.messages[i as int].reactions@;
        proof {
            assert(message_ok(pre, pre.messages[i as int]));
        }
        match find_emoji(&self.messages[i].reactions, &emoji) {
            Some(k) => {
                proof {
                    lemma_reaction_set_at(rs, k as int);
                }
                match find_user_in(&self.messages[i].reactions[k].users, actor) {
                    Some(_) => {
                        proof {
                            assert(rs[k as int].users@.to_set().insert(actor) =~= rs[k as int].users@.to_set());
                        }
                    },
                    None => {
                        self.messages[i].reactions[k].users.push(actor);
                        proof {
                            let rs2 = self@.messages[i as int].reactions@;
                            assert(rs2[k as int].users@ == rs[k as int].users@.push(actor));
                            assert(rs2[k as int].users@.to_set() =~= rs[k as int].users@.to_set().insert(actor)) by {
                                rs[k as int].users@.lemma_push_to_set_commute(actor);
                            }
                            assert(reactions_wf(rs2)) by {
                                assert forall|a: int, b: int| 0 <= a < b < rs2.len() implies #[trigger] rs2[a].emoji@
                                    != #[trigger] rs2[b].emoji@ by {
                                    assert(rs[a].emoji@ != rs[b].emoji@);
                                }
                                assert forall|a: int| 0 <= a < rs2.len() implies (#[trigger] rs2[a]).users@.no_duplicates()
                                    && rs2[a].users@.len() > 0 by {
                                    assert(rs[a].users@.no_duplicates());
                                }
                            }
                            lemma_reaction_set_at(rs2, k as int);
                            assert forall|e: Seq<char>| e != emoji@ implies #[trigger] reaction_set(rs2, e) == reaction_set(rs, e) by {
                                if exists|j: int| 0 <= j < rs.len() && #[trigger] rs[j].emoji@ == e {
                                    let j = choose|j: int| 0 <= j < rs.len() && #[trigger] rs[j].emoji@ == e;
                                    lemma_reaction_set_at(rs, j);
                                    lemma_reaction_set_at(rs2, j);
                                } else {
                                    assert forall|j: int| 0 <= j < rs2.len() implies #[trigger] rs2[j].emoji@ != e by {
                                        assert(rs[j].emoji@ != e);
                                    }
                                }
                            }
                            lemma_message_update(pre, self@, i as int);
                        }
                    },
                }
            },
            None => {
                let mut us: Vec<u128> = Vec::new();
                us.push(actor);
                self.messages[i].reactions.push(Reaction { emoji, users: us });
                proof {
                    let rs2 = self@.messages[i as int].reactions@;
                    let n = rs.len();
                    assert(rs2 == rs.push(rs2[n as int]));
                    assert(rs2[n as int].users@ == seq![actor]);
                    assert(reactions_wf(rs2)) by {
                        assert forall|a: int, b: int| 0 <= a < b < rs2.len() implies #[trigger] rs2[a].emoji@
                            != #[trigger] rs2[b].emoji@ by {
                            if b < n {
                                assert(rs[a].emoji@ != rs[b].emoji@);
                            } else {
                                assert(rs[a].emoji@ != emoji@);
                            }
                        }
                        assert forall|a: int| 0 <= a < rs2.len() implies (#[trigger] rs2[a]).users@.no_duplicates()
                            && rs2[a].users@.len() > 0 by {
                            if a < n {
                                assert(rs[a].users@.no_duplicates());
                            }
                        }
                    }
                    lemma_reaction_set_at(rs2, n as int);
                    assert(seq![actor].to_set() =~= Set::<u128>::empty().insert(actor)) by {
                        assert(seq![actor].contains(actor));
                    }
                    assert(!(exists|j: int| 0 <= j < rs.len() && #[trigger] rs[j].emoji@ == emoji@));
                    assert forall|e: Seq<char>| e != emoji@ implies #[trigger] reaction_set(rs2, e) == reaction_set(rs, e) by {
                        if exists|j: int| 0 <= j < rs.len() && #[trigger] rs[j].emoji@ == e {
                            let j = choose|j: int| 0 <= j < rs.len() && #[trigger] rs[j].emoji@ == e;
                            lemma_reaction_set_at(rs, j);
                            lemma_reaction_set_at(rs2, j);
                        } else {
                            assert forall|j: int| 0 <= j < rs2.len() implies #[trigger] rs2[j].emoji@ != e by {
                                if j < n {
                                    assert(rs[j].emoji@ != e);
                                }
                            }
                        }
                    }
                    lemma_message_update(pre, self@, i as int);
                }
            },
        }
        Ok(i)
    }

    /// Removes `actor` from the users who reacted to a message with `emoji`;
    /// an emoji nobody reacts with any more disappears.
    pub fn remove_reaction(&mut self, actor: u128, id: u128, emoji: String) -> (r: Result<usize, AppError>)
        requires
            old(self)@.wf(),
        ensures
            r matches Ok(i) ==> i as int == old(self)@.msg_idx(id) && i < old(self)@.messages.len(),
            final(self)@.wf(),
            match old(self)@.react_error(actor, id) {
                Some(e) => r == Err::<usize, AppError>(e) && final(self)@ == old(self)@,
                None => r == Ok::<usize, AppError>(old(self)@.msg_idx(id) as usize) && old(self)@.reactions_set_to(
                    final(self)@,
                    id,
                    emoji@,
                    reaction_set(old(self)@.message(id).reactions@, emoji@).remove(actor),
                ),
            },
    {
        proof {
            lemma_idx(self@);
        }
        match self.require_active(actor) {
            Ok(_) => {},
            Err(e) => return Err(e),
        }
        let i = match self.find_live_message(id) {
            Ok(i) => i,
            Err(e) => return Err(e),
        };
        if !self.is_member(self.messages[i].room_id, actor) {
            return Err(AppError::Authorization);
        }
        let ghost pre = self@;
        let ghost rs = pre.messages[i as int].reactions@;
        proof {
            assert(message_ok(pre, pre.messages[i as int]));
        }
        let k = match find_emoji(&self.messages[i].reactions, &emoji) {
            Some(k) => k,
            None => {
                proof {
                    assert(!(exists|j: int| 0 <= j < rs.len() && #[trigger] rs[j].emoji@ == emoji@));
                    assert(Set::<u128>::empty().remove(actor) =~= Set::<u128>::empty());
                }
                return Ok(i);
            },
        };
        proof {
            lemma_reaction_set_at(rs, k as int);
        }
        let p = match find_user_in(&self.messages[i].reactions[k].users, actor) {
            Some(p) => p,
            None => {
                proof {
                    assert(rs[k as int].users@.to_set().remove(actor) =~= rs[k as int].users@.to_set());
                }
                return Ok(i);
            },
        };
        self.messages[i].reactions[k].users.remove(p);
        proof {
            lemma_remove_to_set(rs[k as int].users@, p as int);
        }
        if self.messages[i].reactions[k].users.len() == 0 {
            self.messages[i].reactions.remove(k);
            proof {
                let rs2 = self@.messages[i as int].reactions@;
                assert(rs2 == rs.remove(k as int));
                assert(rs[k as int].users@.remove(p as int).to_set() =~= Set::<u128>::empty());
                assert(reactions_wf(rs2)) by {
                    assert forall|a: int, b: int| 0 <= a < b < rs2.len() implies #[trigger] rs2[a].emoji@
                        != #[trigger] rs2[b].emoji@ by {
                        let x = if a < k { a } else { a + 1 };
                        let y = if b < k { b } else { b + 1 };
                        assert(rs[x].emoji@ != rs[y].emoji@);
                    }
                    assert forall|a: int| 0 <= a < rs2.len() implies (#[trigger] rs2[a]).users@.no_duplicates()
                        && rs2[a].users@.len() > 0 by {
                        let x = if a < k { a } else { a + 1 };
                        assert(rs2[a] == rs[x]);
                        assert(rs[x].users@.no_duplicates());
                    }
                }
                assert forall|j: int| 0 <= j < rs2.len() implies #[trigger] rs2[j].emoji@ != emoji@ by {
                    let x = if j < k { j } else { j + 1 };
                    assert(rs2[j] == rs[x]);
                    assert(rs[x].emoji@ != rs[k as int].emoji@);
                }
                assert forall|e: Seq<char>| e != emoji@ implies #[trigger] reaction_set(rs2, e) == reaction_set(rs, e) by {
                    if exists|j: int| 0 <= j < rs.len() && #[trigger] rs[j].emoji@ == e {
                        let j = choose|j: int| 0 <= j < rs.len() && #[trigger] rs[j].emoji@ == e;
                        assert(j != k);
                        let a = if j < k { j } else { j - 1 };
                        assert(rs2[a] == rs[j]);
                        lemma_reaction_set_at(rs, j);
                        lemma_reaction_set_at(rs2, a);
                    } else {
                        assert forall|j: int| 0 <= j < rs2.len() implies #[trigger] rs2[j].emoji@ != e by {
                            let x = if j < k { j } else { j + 1 };
                            assert(rs2[j] == rs[x]);
                        }
                    }
                }
                lemma_message_update(pre, self@, i as int);
            }
        } else {
            proof {
                let rs2 = self@.messages[i as int].reactions@;
                assert(reactions_wf(rs2)) by {
                    assert forall|a: int, b: int| 0 <= a < b < rs2.len() implies #[trigger] rs2[a].emoji@
                        != #[trigger] rs2[b].emoji@ by {
                        assert(rs[a].emoji@ != rs[b].emoji@);
                    }
                    assert forall|a: int| 0 <= a < rs2.len() implies (#[trigger] rs2[a]).users@.no_duplicates()
                        && rs2[a].users@.len() > 0 by {
                        assert(rs[a].users@.no_duplicates());
                    }
                }
                lemma_reaction_set_at(rs2, k as int);
                assert forall|e: Seq<char>| e != emoji@ implies #[trigger] reaction_set(rs2, e) == reaction_set(rs, e) by {
                    if exists|j: int| 0 <= j < rs.len() && #[trigger] rs[j].emoji@ == e {
                        let j = choose|j: int| 0 <= j < rs.len() && #[trigger] rs[j].emoji@ == e;
                        lemma_reaction_set_at(rs, j);
                        lemma_reaction_set_at(rs2, j);
                    } else {
                        assert forall|j: int| 0 <= j < rs2.len() implies #[trigger] rs2[j].emoji@ != e by {
                            assert(rs[j].emoji@ != e);
                        }
                    }
                }
                lemma_message_update(pre, self@, i as int);
            }
        }
        Ok(i)
    }

    /// One page of a room's history, newest first, as positions in `messages`.
    pub fn get_messages(&self, actor: u128, room: u128, limit: usize, offset: usize) -> (r: Result<Vec<usize>, AppError>)
        requires
            self@.wf(),
        ensures
            match self@.read_error(actor, room) {
                Some(e) => r == Err::<Vec<usize>, AppError>(e),
                None => r matches Ok(v) && v@.map_values(|p: usize| p as int) == page(
                    history(self@.messages, room),
                    offset as int,
                    limit as int,
                ) && v@.len() <= limit && (forall|a: int|
                    0 <= a < v@.len() ==> #[trigger] v@[a] < self@.messages.len() && self@.messages[v@[a] as int].room_id
                        == room) && (forall|a: int, b: int|
                    0 <= a < b < v@.len() ==> self@.messages[#[trigger] v@[a] as int].created_at
                        >= self@.messages[#[trigger] v@[b] as int].created_at),
            },
    {
        match self.require_active(actor) {
            Ok(_) => {},
            Err(e) => return Err(e),
        }
        if !self.is_member(room, actor) {
            return Err(AppError::Authorization);
        }
        let ghost msgs = self@.messages;
        let mut out: Vec<usize> = Vec::new();
        let mut count: usize = 0;
        let n: usize = self.messages.len();
        let mut j: usize = n;
        let ghost mut seen: Seq<int> = Seq::empty();
        while j > 0
            invariant
                n == msgs.len(),
                j <= msgs.len(),
                msgs == self@.messages,
                seen.len() == count,
                count <= msgs.len() - j,
                history(msgs, room) == seen + history_before(msgs, room, j as int),
                out@.map_values(|p: usize| p as int) == page(seen, offset as int, limit as int),
            decreases j,
        {
            j -= 1;
            if self.messages[j].room_id == room {
                proof {
                    assert(history_before(msgs, room, j + 1) == seq![j as int] + history_before(msgs, room, j as int));
                    assert(seen + (seq![j as int] + history_before(msgs, room, j as int)) =~= seen.push(j as int)
                        + history_before(msgs, room, j as int));
                }
                if count >= offset && count - offset < limit {
                    out.push(j);
                    proof {
                        assert(page(seen.push(j as int), offset as int, limit as int) =~= page(seen, offset as int, limit as int).push(j as int));
                        assert(out@.map_values(|p: usize| p as int) =~= page(seen, offset as int, limit as int).push(j as int));
                    }
                } else {
                    proof {
                        assert(page(seen.push(j as int), offset as int, limit as int) =~= page(seen, offset as int, limit as int));
                    }
                }
                proof {
                    seen = seen.push(j as int);
                }
                count += 1;
            }
        }
        proof {
            assert(seen + history_before(msgs, room, 0) =~= seen);
            let h = history(msgs, room);
            lemma_history_props(msgs, room, msgs.len() as int);
            let pg = page(h, offset as int, limit as int);
            let lo = if (offset as int) < h.len() { offset as int } else { h.len() as int };
            assert forall|a: int| 0 <= a < out@.len() implies out@[a] as int == h[lo + a] by {
                assert(out@.map_values(|p: usize| p as int)[a] == pg[a]);
            }
            assert forall|a: int| 0 <= a < out@.len() implies #[trigger] out@[a] < msgs.len() && msgs[out@[a] as int].room_id
                == room by {
                assert(out@[a] as int == h[lo + a]);
            }
            assert forall|a: int, b: int| 0 <= a < b < out@.len() implies msgs[#[trigger] out@[a] as int].created_at
                >= msgs[#[trigger] out@[b] as int].created_at by {
                assert(out@[a] as int == h[lo + a]);
                assert(out@[b] as int == h[lo + b]);
                assert(h[lo + a] > h[lo + b]);
            }
            assert(out@.len() == pg.len());
        }
        Ok(out)
    }

    /// Number of messages of a room, tombstones included.
    pub fn message_count(&self, room: u128) -> (r: usize)
        ensures
            r == self@.messages.filter(message_in_room(room)).len(),
    {
        let mut n: usize = 0;
        let mut i: usize = 0;
        while i < self.messages.len()
            invariant
                i <= self@.messages.len(),
                n == self@.messages.take(i as int).filter(message_in_room(room)).len(),
                n <= i,
            decreases self@.messages.len() - i,
        {
            proof {
                self@.messages.lemma_take_succ_push(i as int);
                self@.messages.take(i as int).lemma_filter_push(self@.messages[i as int], message_in_room(room));
                assert(self@.messages.take(i + 1) == self@.messages.take(i as int).push(self@.messages[i as int]));
            }
            if self.messages[i].room_id == room {
                n += 1;
            }
            i += 1;
        }
        proof {
            assert(self@.messages.take(i as int) =~= self@.messages);
        }
        n
    }

    /// The whole history of a room, newest first: bodies are ciphertext, so
    /// searching happens on the client.
    pub fn search_messages(&self, actor: u128, room: u128) -> (r: Result<Vec<usize>, AppError>)
        requires
            self@.wf(),
        ensures
            match self@.read_error(actor, room) {
                Some(e) => r == Err::<Vec<usize>, AppError>(e),
                None => r matches Ok(v) && v@.map_values(|p: usize| p as int) == history(self@.messages, room),
            },
    {
        let n = self.messages.len();
        let r = self.get_messages(actor, room, n, 0);
        proof {
            let h = history(self@.messages, room);
            lemma_history_len(self@.messages, room, self@.messages.len() as int);
            assert(page(h, 0, n as int) =~= h);
        }
        r
    }
}

} // verus!
