//! Properties that hold across operations of the library.

use vstd::prelude::*;
use crate::auth::{claims_user, token_expired};
use crate::bridge::{bootstrap_step, BootstrapStep, TorStatus};
use crate::broker::synced;
use crate::error::{status_of, AppError};
use crate::ids::{dashed, uuid_parse_of};
use crate::presence::{online, sockets_of, Session};
use crate::store::{
    history, history_before, lemma_idx, member_keep, member_refs_ok, message_not_in_room, message_ok, page, reaction_set,
    registered, ChatView, MemberRole, Message, MessageType, User,
};

verus! {

/// Exactly one account has the earliest creation instant: the first one.
pub proof fn lemma_unique_earliest(v: ChatView, i: int)
    requires
        v.wf(),
        0 <= i < v.users.len(),
        forall|j: int| 0 <= j < v.users.len() ==> v.users[i].created_at <= #[trigger] v.users[j].created_at,
    ensures
        i == 0,
{
    if i > 0 {
        assert(v.users[0].created_at < v.users[i].created_at);
    }
}

/// The first registration in an empty store makes an administrator, and
/// it stays the single earliest account.
pub proof fn lemma_first_user_is_admin(
    pre: ChatView,
    post: ChatView,
    id: u128,
    username: Seq<char>,
    email: Option<String>,
    password_hash: Seq<char>,
    now: i64,
)
    requires
        pre.wf(),
        post.wf(),
        pre.users.len() == 0,
        registered(pre, post, id, username, email, password_hash, now),
    ensures
        post.users.len() == 1,
        post.users[0].id == id,
        post.users[0].is_admin,
{
}

/// Every membership names a live room and a live user.
pub proof fn lemma_members_reference_live_rows(v: ChatView)
    requires
        v.wf(),
    ensures
        forall|i: int| #![trigger v.members[i]] 0 <= i < v.members.len() ==> v.has_room(v.members[i].room_id) && v.has_user(v.members[i].user_id),
{
    assert forall|i: int| #![trigger v.members[i]] 0 <= i < v.members.len() implies v.has_room(v.members[i].room_id) && v.has_user(v.members[i].user_id) by {
        assert(member_refs_ok(v, v.members[i]));
    }
}

/// Every message names a live sender and a live room.
pub proof fn lemma_messages_reference_live_rows(v: ChatView)
    requires
        v.wf(),
    ensures
        forall|i: int| #![trigger v.messages[i]] 0 <= i < v.messages.len() ==> v.has_room(v.messages[i].room_id) && v.has_user(v.messages[i].sender_id),
{
    assert forall|i: int| #![trigger v.messages[i]] 0 <= i < v.messages.len() implies v.has_room(v.messages[i].room_id) && v.has_user(v.messages[i].sender_id) by {
        assert(message_ok(v, v.messages[i]));
    }
}

/// Deleting a room leaves none of its memberships and messages, and no room with its id.
pub proof fn lemma_room_delete_cascades(pre: ChatView, post: ChatView, room: u128)
    requires
        pre.wf(),
        pre.has_room(room),
        pre.room_deleted(post, room),
    ensures
        !post.has_room(room),
        forall|i: int| 0 <= i < post.members.len() ==> #[trigger] post.members[i].room_id != room,
        forall|i: int| 0 <= i < post.messages.len() ==> #[trigger] post.messages[i].room_id != room,
{
    lemma_idx(pre);
    let k = pre.room_idx(room);
    assert(pre.rooms[k].id == room);
    if post.has_room(room) {
        let w = choose|w: int| 0 <= w < post.rooms.len() && #[trigger] post.rooms[w].id == room;
        let x = if w < k { w } else { w + 1 };
        assert(post.rooms[w] == pre.rooms[x]);
        assert(pre.rooms[x].id != pre.rooms[k].id);
    }
    assert forall|i: int| 0 <= i < post.members.len() implies #[trigger] post.members[i].room_id != room by {
        pre.members.lemma_filter_pred(member_keep(room, true), i);
    }
    assert forall|i: int| 0 <= i < post.messages.len() implies #[trigger] post.messages[i].room_id != room by {
        pre.messages.lemma_filter_pred(message_not_in_room(room), i);
    }
}

/// A user has a bound socket exactly when the registry lists sockets for them.
pub proof fn lemma_sockets_listed_iff_online(ss: Seq<Session>, user: u128)
    ensures
        sockets_of(ss, user).len() > 0 <==> online(ss, user),
    decreases ss.len(),
{
    if ss.len() > 0 {
        let init = ss.drop_last();
        lemma_sockets_listed_iff_online(init, user);
        if online(init, user) {
            let w = choose|w: int| 0 <= w < init.len() && #[trigger] init[w].user_id == user;
            assert(ss[w].user_id == user);
        }
        if online(ss, user) && ss.last().user_id != user {
            let w = choose|w: int| 0 <= w < ss.len() && #[trigger] ss[w].user_id == user;
            assert(w < init.len());
            assert(init[w].user_id == user);
        }
    }
}

/// While the durable flag follows the registry, an account is marked online
/// exactly when sockets are listed for it.
pub proof fn lemma_online_flag_matches_sockets(v: ChatView, p: &crate::presence::Presence, user: u128)
    requires
        v.wf(),
        synced(v, p),
        v.has_user(user),
    ensures
        v.user(user).is_online <==> sockets_of(p.sessions@, user).len() > 0,
{
    lemma_sockets_listed_iff_online(p.sessions@, user);
    let k = v.user_idx(user);
    assert(v.users[k].is_online == online(p.sessions@, v.users[k].id));
}

/// A published message holds exactly the ciphertext the client sent.
pub proof fn lemma_ciphertext_stored_verbatim(
    pre: ChatView,
    post: ChatView,
    actor: u128,
    room: u128,
    id: u128,
    content: Seq<char>,
    message_type: MessageType,
    parent_id: Option<u128>,
    now: i64,
)
    requires
        pre.message_sent(post, actor, room, id, content, message_type, parent_id, now),
    ensures
        post.messages[pre.messages.len() as int].content@ == content,
        post.messages[pre.messages.len() as int].sender_id == actor,
{
}

/// A request whose token has expired is refused with 401.
pub proof fn lemma_expired_token_refused(sub: Seq<char>, iat: i64, exp: i64, now: i64)
    requires
        token_expired(exp, now),
    ensures
        claims_user(Some((sub, iat, exp)), now) == Err::<u128, AppError>(AppError::Authentication),
        status_of(AppError::Authentication) == 401,
{
}

/// After registering `username` and logging in with the right password, the
/// account is found by its name, the login succeeds, and a token issued for
/// it at `now` and read back before it expires names the same account.
pub proof fn lemma_register_login_me(
    pre: ChatView,
    mid: ChatView,
    post: ChatView,
    id: u128,
    username: Seq<char>,
    email: Option<String>,
    password_hash: Seq<char>,
    now: i64,
    exp: i64,
    later: i64,
)
    requires
        pre.wf(),
        mid.wf(),
        registered(pre, mid, id, username, email, password_hash, now),
        post == mid.with_user(id, User { last_seen: Some(now), ..mid.user(id) }),
        uuid_parse_of(dashed(id)) == Some(id),
        later < exp,
    ensures
        mid.username_taken(username),
        forall|i: int| 0 <= i < mid.users.len() && #[trigger] mid.users[i].username@ == username ==> mid.users[i].id == id,
        mid.login_error(id, true) is None,
        post.actor_error(id) is None,
        post.user(id).id == id,
        claims_user(Some((dashed(id), now, exp)), later) == Ok::<u128, AppError>(id),
{
    lemma_idx(mid);
    let n = pre.users.len() as int;
    assert(mid.users[n].id == id);
    assert(mid.users[n].username@ == username);
    assert(mid.user_idx(id) == n);
    assert forall|i: int| 0 <= i < mid.users.len() && #[trigger] mid.users[i].username@ == username implies mid.users[i].id == id by {
        if i < n {
            assert(mid.users[i].username@ != mid.users[n].username@);
        }
    }
    assert(post.users[n].id == id);
    assert(post.has_user(id));
    let k = post.user_idx(id);
    if k != n {
        assert(post.users[k] == mid.users[k]);
        assert(mid.users[k].id != mid.users[n].id);
    }
}

/// A message just published heads its room's history: any page from the
/// start with room for one item shows it, with its ciphertext and sender.
pub proof fn lemma_sent_message_heads_history(
    pre: ChatView,
    post: ChatView,
    actor: u128,
    room: u128,
    id: u128,
    content: Seq<char>,
    message_type: MessageType,
    parent_id: Option<u128>,
    now: i64,
    limit: int,
)
    requires
        pre.message_sent(post, actor, room, id, content, message_type, parent_id, now),
        limit >= 1,
    ensures
        page(history(post.messages, room), 0, limit).len() >= 1,
        page(history(post.messages, room), 0, limit)[0] == pre.messages.len(),
        post.messages[pre.messages.len() as int].content@ == content,
        post.messages[pre.messages.len() as int].sender_id == actor,
{
    let n = pre.messages.len() as int;
    assert(post.messages[n] == post.messages.last());
    assert(history(post.messages, room) == seq![n] + history_before(post.messages, room, n));
}

/// Joining a room and leaving it again restores its memberships, and so its member count.
pub proof fn lemma_join_leave_restores(pre: ChatView, mid: ChatView, post: ChatView, room: u128, user: u128, now: i64)
    requires
        pre.wf(),
        mid.wf(),
        !pre.is_member(room, user),
        mid == pre.with_member(room, user, MemberRole::Member, now),
        post == (ChatView { members: mid.members.remove(mid.member_idx(room, user)), ..mid }),
    ensures
        post == pre,
        post.member_count(room) == pre.member_count(room),
{
    lemma_idx(mid);
    let n = pre.members.len() as int;
    assert(mid.members[n].room_id == room && mid.members[n].user_id == user);
    assert(mid.member_idx(room, user) == n);
    assert(post.members =~= pre.members);
}

/// Reacting twice with the same emoji is reacting once: the second time
/// leaves the reacting users as the first left them, the user among them.
pub proof fn lemma_add_reaction_idempotent(pre: ChatView, mid: ChatView, post: ChatView, id: u128, emoji: Seq<char>, user: u128)
    requires
        pre.wf(),
        mid.wf(),
        pre.has_message(id),
        pre.reactions_set_to(mid, id, emoji, reaction_set(pre.message(id).reactions@, emoji).insert(user)),
        mid.reactions_set_to(post, id, emoji, reaction_set(mid.message(id).reactions@, emoji).insert(user)),
    ensures
        reaction_set(post.messages[pre.msg_idx(id)].reactions@, emoji) == reaction_set(mid.messages[pre.msg_idx(id)].reactions@, emoji),
        reaction_set(post.messages[pre.msg_idx(id)].reactions@, emoji).contains(user),
{
    lemma_idx(pre);
    lemma_idx(mid);
    let k = pre.msg_idx(id);
    assert(pre.messages[k].id == id);
    assert(mid.messages[k].id == id);
    assert(mid.msg_idx(id) == k);
    let s = reaction_set(mid.messages[k].reactions@, emoji);
    assert(s.contains(user));
    assert(s.insert(user) =~= s);
}

/// Joining a room one already belongs to is refused with 400.
pub proof fn lemma_join_twice_refused(v: ChatView, user: u128, room: u128)
    requires
        v.actor_error(user) is None,
        v.has_room(room),
        v.is_member(room, user),
    ensures
        v.join_error(user, room) == Some(AppError::BadRequest),
        status_of(AppError::BadRequest) == 400,
{
}

/// Asking a connected bridge to bootstrap, once or twice, answers its port.
pub proof fn lemma_bootstrap_twice_same_port(port: u16)
    ensures
        bootstrap_step(TorStatus::Connected { socks_port: port }).0 == BootstrapStep::AlreadyConnected(port),
        bootstrap_step(bootstrap_step(TorStatus::Connected { socks_port: port }).1).0
            == BootstrapStep::AlreadyConnected(port),
{
}

/// A registration in a non-empty store makes no administrator, and the
/// earliest account stays the same, still the single earliest one.
pub proof fn lemma_later_registration_keeps_first(
    pre: ChatView,
    post: ChatView,
    id: u128,
    username: Seq<char>,
    email: Option<String>,
    password_hash: Seq<char>,
    now: i64,
)
    requires
        pre.wf(),
        post.wf(),
        pre.users.len() > 0,
        registered(pre, post, id, username, email, password_hash, now),
    ensures
        !post.users.last().is_admin,
        post.users[0] == pre.users[0],
        post.users.last().created_at > post.users[0].created_at,
        forall|j: int| 0 < j < post.users.len() ==> post.users[0].created_at < #[trigger] post.users[j].created_at,
{
    let n = pre.users.len() as int;
    assert(post.users[0] == post.users.drop_last()[0]);
    if n > 1 {
        assert(pre.users[0].created_at < pre.users[n - 1].created_at);
    }
    assert(post.users[n] == post.users.last());
}

/// Joining a room that does not exist is refused with 404, so no membership
/// names a room that is not there.
pub proof fn lemma_join_unknown_room_refused(v: ChatView, user: u128, room: u128)
    requires
        v.actor_error(user) is None,
        !v.has_room(room),
    ensures
        v.join_error(user, room) == Some(AppError::NotFound),
        status_of(AppError::NotFound) == 404,
{
}

/// Adding an account that does not exist is refused with 404, so no
/// membership names a user who is not there.
pub proof fn lemma_add_unknown_user_refused(v: ChatView, actor: u128, room: u128, target: u128)
    requires
        v.actor_error(actor) is None,
        v.is_member(room, actor),
        v.can_manage(room, actor),
        !v.has_user(target),
    ensures
        v.add_member_error(actor, room, target) == Some(AppError::NotFound),
{
}

/// The creator of a room, or an administrator, may delete it.
pub proof fn lemma_owner_may_delete_room(v: ChatView, actor: u128, room: u128)
    requires
        v.actor_error(actor) is None,
        v.has_room(room),
        v.room(room).creator_id == Some(actor) || v.user(actor).is_admin,
    ensures
        v.delete_room_error(actor, room) is None,
{
}

/// A published message is one new row naming a live room and a live sender;
/// no other message changes.
pub proof fn lemma_sent_message_names_live_rows(
    pre: ChatView,
    post: ChatView,
    actor: u128,
    room: u128,
    id: u128,
    content: Seq<char>,
    message_type: MessageType,
    parent_id: Option<u128>,
    now: i64,
)
    requires
        post.wf(),
        pre.message_sent(post, actor, room, id, content, message_type, parent_id, now),
    ensures
        post.messages.len() == pre.messages.len() + 1,
        forall|i: int| 0 <= i < pre.messages.len() ==> post.messages[i] == pre.messages[i],
        post.has_room(room),
        post.has_user(actor),
{
    let n = pre.messages.len() as int;
    assert(post.messages[n] == post.messages.last());
    assert(message_ok(post, post.messages[n]));
    assert forall|i: int| 0 <= i < pre.messages.len() implies post.messages[i] == pre.messages[i] by {
        assert(post.messages.drop_last()[i] == post.messages[i]);
    }
}

/// Binding a socket brings its user online and leaves everyone else as they were.
pub proof fn lemma_bind_brings_online(pre: Seq<Session>, post: Seq<Session>, user: u128)
    requires
        post.len() == pre.len() + 1,
        post.drop_last() == pre,
        post.last().user_id == user,
    ensures
        online(post, user),
        forall|v: u128| v != user ==> (online(post, v) <==> online(pre, v)),
{
    assert(post[pre.len() as int].user_id == user);
    assert forall|v: u128| v != user implies (online(post, v) <==> online(pre, v)) by {
        if online(post, v) {
            let w = choose|w: int| 0 <= w < post.len() && #[trigger] post[w].user_id == v;
            assert(pre[w] == post[w]);
        }
        if online(pre, v) {
            let w = choose|w: int| 0 <= w < pre.len() && #[trigger] pre[w].user_id == v;
            assert(post.drop_last()[w] == post[w]);
        }
    }
}

/// An edit stores the new ciphertext exactly as sent and marks the message edited.
pub proof fn lemma_edit_stored_verbatim(pre: ChatView, post: ChatView, id: u128, content: String, now: i64)
    requires
        pre.wf(),
        post.wf(),
        pre.has_message(id),
        post == pre.with_message(id, Message { content, is_edited: true, edited_at: Some(now), ..pre.message(id) }),
    ensures
        post.message(id).content@ == content@,
        post.message(id).is_edited,
        post.message(id).edited_at == Some(now),
{
    lemma_idx(pre);
    lemma_idx(post);
    let k = pre.msg_idx(id);
    assert(pre.messages[k].id == id);
    assert(post.messages[k].id == id);
}

} // verus!
