//! The event broker: binds sockets to accounts, checks every verb against
//! the store, applies it, and names the sockets that must receive the
//! resulting event.

use vstd::prelude::*;
use crate::error::AppError;
use crate::presence::{hears, names_socket, online, opt_view, Presence, is_bound};
use crate::store::{lemma_idx, reaction_set, tombstone_of, ChatStore, ChatView, Message, MessageType, RoomMember, User};

verus! {

/// The durable online flag of every account agrees with the registry.
pub open spec fn synced(v: ChatView, p: &Presence) -> bool {
    forall|i: int| 0 <= i < v.users.len() ==> (#[trigger] v.users[i]).is_online == online(p.sessions@, v.users[i].id)
}

/// The sockets listed are exactly those bound and listening to `room`,
/// `exclude` left out, each once.
pub open spec fn fan_out(r: Seq<String>, p: &Presence, room: u128, exclude: Option<Seq<char>>) -> bool {
    &&& forall|a: int, b: int| 0 <= a < b < r.len() ==> #[trigger] r[a]@ != #[trigger] r[b]@
    &&& forall|s: Seq<char>|
        #![trigger names_socket(r, s)]
        #![trigger hears(p.sessions@, room, exclude, s)]
        names_socket(r, s) <==> hears(p.sessions@, room, exclude, s)
}

/// The result of a verb that changed a message: its position in the store
/// and the sockets that receive the event.
pub struct Delivery {
    pub index: usize,
    pub recipients: Vec<String>,
}

/// Binds `socket` to the account a token authenticated (`token_user`, as
/// `AuthService::verify_token` answered). The first socket of an account
/// brings it online. On failure the transport reports the error and closes
/// the socket.
pub fn authenticate(
    store: &mut ChatStore,
    presence: &mut Presence,
    socket: String,
    token_user: Result<u128, AppError>,
    now: i64,
) -> (r: Result<u128, AppError>)
    requires
        old(store)@.wf(),
        old(presence).wf(),
    ensures
        final(store)@.wf(),
        final(presence).wf(),
        token_user is Err ==> r == Err::<u128, AppError>(AppError::Authentication),
        token_user matches Ok(u) ==> (old(store)@.actor_error(u) is None && !is_bound(old(presence).sessions@, socket@)
            ==> r == Ok::<u128, AppError>(u)),
        r is Err ==> final(store)@ == old(store)@ && final(presence).sessions@ == old(presence).sessions@,
        token_user matches Ok(u) ==> match old(store)@.actor_error(u) {
            Some(e) => r == Err::<u128, AppError>(e),
            None => is_bound(old(presence).sessions@, socket@) ==> r == Err::<u128, AppError>(AppError::BadRequest),
        },
        r matches Ok(u) ==> token_user == Ok::<u128, AppError>(u) && old(store)@.actor_error(u) is None
            && !is_bound(old(presence).sessions@, socket@)
            && final(presence).sessions@.len() == old(presence).sessions@.len() + 1
            && final(presence).sessions@.drop_last() == old(presence).sessions@
            && final(presence).sessions@.last().socket@ == socket@
            && final(presence).sessions@.last().user_id == u
            && final(store)@ == old(store)@.with_user(u, User { is_online: true, ..old(store)@.user(u) })
            && final(store)@.user(u).is_online
            && (synced(old(store)@, old(presence)) ==> synced(final(store)@, final(presence))),
{
    let u = match token_user {
        Ok(u) => u,
        Err(_) => return Err(AppError::Authentication),
    };
    let k = match store.require_active(u) {
        Ok(k) => k,
        Err(e) => return Err(e),
    };
    let ghost pre_p = presence.sessions@;
    let ghost pre_s = store@;
    match presence.bind(socket, u) {
        Ok(_) => {},
        Err(e) => return Err(e),
    }
    let _ = store.set_online(u, true, now);
    proof {
        lemma_idx(pre_s);
        lemma_idx(store@);
        let kk = pre_s.user_idx(u);
        assert(pre_s.users[kk].id == u);
        assert(store@.users[kk].id == u);
        assert(store@.user_idx(u) == kk);
        assert(store@.user(u).is_online);
        let ss = presence.sessions@;
        assert(ss[ss.len() - 1].user_id == u);
        assert forall|v: u128| v != u implies online(ss, v) == online(pre_p, v) by {
            if online(ss, v) {
                let w = choose|w: int| 0 <= w < ss.len() && #[trigger] ss[w].user_id == v;
                assert(w < pre_p.len());
                assert(pre_p[w].user_id == v);
            }
            if online(pre_p, v) {
                let w = choose|w: int| 0 <= w < pre_p.len() && #[trigger] pre_p[w].user_id == v;
                assert(ss[w].user_id == v);
            }
        }
        assert(online(ss, u));
        if synced(pre_s, old(presence)) {
            assert forall|i: int| 0 <= i < store@.users.len() implies (#[trigger] store@.users[i]).is_online
                == online(ss, store@.users[i].id) by {
                if store@.users[i].id != u {
                    assert(store@.users[i] == pre_s.users[i]);
                }
            }
        }
    }
    Ok(u)
}

/// Closes a socket. When it was its account's last one, the account goes
/// offline with `last_seen = now`. Answers the account and whether it went
/// offline (then everyone is told).
pub fn disconnect(store: &mut ChatStore, presence: &mut Presence, socket: &String, now: i64) -> (r: Option<(u128, bool)>)
    requires
        old(store)@.wf(),
        old(presence).wf(),
    ensures
        final(store)@.wf(),
        final(presence).wf(),
        !is_bound(old(presence).sessions@, socket@) ==> r is None && final(store)@ == old(store)@
            && final(presence).sessions@ == old(presence).sessions@,
        is_bound(old(presence).sessions@, socket@) ==> r == Some((old(presence).user_of(socket@), !online(final(presence).sessions@, old(presence).user_of(socket@))))
            && final(presence).sessions@ == old(presence).sessions@.remove(old(presence).session_idx(socket@)),
        r matches Some((u, gone)) ==> (gone && old(store)@.has_user(u) ==> !final(store)@.user(u).is_online
            && final(store)@.user(u).last_seen == Some(now)),
        r matches Some((u, gone)) ==> final(store)@ == if gone && old(store)@.has_user(u) {
            old(store)@.with_user(u, User { is_online: false, last_seen: Some(now), ..old(store)@.user(u) })
        } else {
            old(store)@
        },
        synced(old(store)@, old(presence)) ==> synced(final(store)@, final(presence)),
{
    let ghost pre_p = presence.sessions@;
    let ghost pre_s = store@;
    let ghost idx = presence.session_idx(socket@);
    let r = presence.unbind(socket);
    match r {
        Some((u, gone)) => {
            if gone {
                let _ = store.set_online(u, false, now);
            }
            proof {
                lemma_idx(pre_s);
                lemma_idx(store@);
                if gone && pre_s.has_user(u) {
                    let kk = pre_s.user_idx(u);
                    assert(pre_s.users[kk].id == u);
                    assert(store@.users[kk].id == u);
                    assert(store@.user_idx(u) == kk);
                }
                let ss = presence.sessions@;
                assert forall|v: u128| v != u implies online(ss, v) == online(pre_p, v) by {
                    if online(ss, v) {
                        let w = choose|w: int| 0 <= w < ss.len() && #[trigger] ss[w].user_id == v;
                        let x = if w < idx { w } else { w + 1 };
                        assert(pre_p[x].user_id == v);
                    }
                    if online(pre_p, v) {
                        let w = choose|w: int| 0 <= w < pre_p.len() && #[trigger] pre_p[w].user_id == v;
                        assert(pre_p[idx].user_id == u);
                        assert(w != idx);
                        let x = if w < idx { w } else { w - 1 };
                        assert(ss[x].user_id == v);
                    }
                }
                assert(online(pre_p, u)) by {
                    assert(pre_p[idx].user_id == u);
                }
                if synced(pre_s, old(presence)) {
                    assert forall|i: int| 0 <= i < store@.users.len() implies (#[trigger] store@.users[i]).is_online
                        == online(ss, store@.users[i].id) by {
                        if store@.users[i].id != u {
                            assert(store@.users[i] == pre_s.users[i]);
                        } else if !gone {
                            assert(pre_s.users[i].is_online == online(pre_p, u));
                        }
                    }
                }
            }
        },
        None => {},
    }
    r
}

/// Makes a bound socket receive a room's events; its account must belong to the room.
pub fn join_room(store: &ChatStore, presence: &mut Presence, socket: &String, room: u128) -> (r: Result<(), AppError>)
    requires
        store@.wf(),
        old(presence).wf(),
    ensures
        final(presence).wf(),
        !is_bound(old(presence).sessions@, socket@) ==> r == Err::<(), AppError>(AppError::Authentication),
        is_bound(old(presence).sessions@, socket@) ==> match store@.read_error(old(presence).user_of(socket@), room) {
            Some(e) => r == Err::<(), AppError>(e),
            None => r is Ok && final(presence).sessions@[old(presence).session_idx(socket@)].rooms@.contains(room)
                && final(presence).sessions@.len() == old(presence).sessions@.len()
                && (forall|j: int| 0 <= j < old(presence).sessions@.len() && j != old(presence).session_idx(socket@)
                    ==> final(presence).sessions@[j] == old(presence).sessions@[j])
                && final(presence).sessions@[old(presence).session_idx(socket@)].socket@ == socket@
                && final(presence).sessions@[old(presence).session_idx(socket@)].user_id == old(presence).user_of(socket@)
                && final(presence).sessions@[old(presence).session_idx(socket@)].rooms@.to_set()
                    == old(presence).sessions@[old(presence).session_idx(socket@)].rooms@.to_set().insert(room),
        },
        r is Err ==> final(presence).sessions@ == old(presence).sessions@,
{
    let u = match presence.session_user(socket) {
        Ok(u) => u,
        Err(e) => return Err(e),
    };
    match store.require_active(u) {
        Ok(_) => {},
        Err(e) => return Err(e),
    }
    if !store.is_member(room, u) {
        return Err(AppError::Authorization);
    }
    let r = presence.subscribe(socket, room);
    proof {
        let i = old(presence).session_idx(socket@);
        assert(presence.sessions@[i].rooms@.to_set().contains(room));
    }
    r
}

/// Stops a socket from receiving a room's events; memberships are unchanged.
pub fn leave_room(presence: &mut Presence, socket: &String, room: u128)
    requires
        old(presence).wf(),
    ensures
        final(presence).wf(),
        is_bound(old(presence).sessions@, socket@) ==> !final(presence).sessions@[old(presence).session_idx(socket@)].rooms@.contains(room),
        !is_bound(old(presence).sessions@, socket@) ==> final(presence).sessions@ == old(presence).sessions@,
        is_bound(old(presence).sessions@, socket@) ==> final(presence).sessions@.len() == old(presence).sessions@.len()
            && (forall|j: int| 0 <= j < old(presence).sessions@.len() && j != old(presence).session_idx(socket@)
                ==> final(presence).sessions@[j] == old(presence).sessions@[j])
            && final(presence).sessions@[old(presence).session_idx(socket@)].socket@ == socket@
            && final(presence).sessions@[old(presence).session_idx(socket@)].user_id == old(presence).user_of(socket@)
            && final(presence).sessions@[old(presence).session_idx(socket@)].rooms@.to_set()
                == old(presence).sessions@[old(presence).session_idx(socket@)].rooms@.to_set().remove(room),
{
    presence.unsubscribe(socket, room);
    proof {
        if is_bound(old(presence).sessions@, socket@) {
            let i = old(presence).session_idx(socket@);
            assert(!presence.sessions@[i].rooms@.to_set().contains(room));
        }
    }
}

/// Publishes a message from the account bound to `socket`; every socket
/// listening to the room, the sender's included, receives it.
pub fn send_message(
    store: &mut ChatStore,
    presence: &Presence,
    socket: &String,
    room: u128,
    id: u128,
    content: String,
    message_type: MessageType,
    parent_id: Option<u128>,
    metadata: Option<String>,
    now: i64,
) -> (r: Result<Delivery, AppError>)
    requires
        old(store)@.wf(),
        presence.wf(),
    ensures
        final(store)@.wf(),
        !is_bound(presence.sessions@, socket@) ==> r is Err && final(store)@ == old(store)@,
        is_bound(presence.sessions@, socket@) ==> match old(store)@.send_error(presence.user_of(socket@), room, id) {
            Some(e) => r == Err::<Delivery, AppError>(e) && final(store)@ == old(store)@,
            None => r matches Ok(d) && d.index == old(store)@.messages.len() as usize && old(store)@.message_sent(
                final(store)@,
                presence.user_of(socket@),
                room,
                id,
                content@,
                message_type,
                parent_id,
                now,
            ) && fan_out(d.recipients@, presence, room, None),
        },
{
    let u = match presence.session_user(socket) {
        Ok(u) => u,
        Err(e) => return Err(e),
    };
    let index = match store.send_message(u, room, id, content, message_type, parent_id, metadata, now) {
        Ok(i) => i,
        Err(e) => return Err(e),
    };
    let recipients = presence.recipients(room, None);
    proof {
        assert(opt_view(None::<&String>) == None::<Seq<char>>);
        assert(fan_out(recipients@, presence, room, None));
    }
    Ok(Delivery { index, recipients })
}

/// The sockets told that the account bound to `socket` is typing in `room`:
/// the room's listeners but the originator.
pub fn typing(store: &ChatStore, presence: &Presence, socket: &String, room: u128) -> (r: Result<Vec<String>, AppError>)
    requires
        store@.wf(),
        presence.wf(),
    ensures
        !is_bound(presence.sessions@, socket@) ==> r == Err::<Vec<String>, AppError>(AppError::Authentication),
        is_bound(presence.sessions@, socket@) ==> match store@.read_error(presence.user_of(socket@), room) {
            Some(e) => r == Err::<Vec<String>, AppError>(e),
            None => r matches Ok(v) && fan_out(v@, presence, room, Some(socket@)),
        },
{
    let u = match presence.session_user(socket) {
        Ok(u) => u,
        Err(e) => return Err(e),
    };
    match store.require_active(u) {
        Ok(_) => {},
        Err(e) => return Err(e),
    }
    if !store.is_member(room, u) {
        return Err(AppError::Authorization);
    }
    Ok(presence.recipients(room, Some(socket)))
}

/// Room of a message, for fan-out.
fn room_of_message(store: &ChatStore, i: usize) -> (r: u128)
    requires
        i < store@.messages.len(),
    ensures
        r == store@.messages[i as int].room_id,
{
    store.messages[i].room_id
}

/// Edits a message of the account bound to `socket`; the room's listeners
/// receive the edit.
pub fn edit_message(store: &mut ChatStore, presence: &Presence, socket: &String, id: u128, content: String, now: i64) -> (r: Result<
    Delivery,
    AppError,
>)
    requires
        old(store)@.wf(),
        presence.wf(),
    ensures
        final(store)@.wf(),
        !is_bound(presence.sessions@, socket@) ==> r is Err && final(store)@ == old(store)@,
        is_bound(presence.sessions@, socket@) ==> match old(store)@.edit_error(presence.user_of(socket@), id) {
            Some(e) => r == Err::<Delivery, AppError>(e) && final(store)@ == old(store)@,
            None => r matches Ok(d) && d.index == old(store)@.msg_idx(id) && final(store)@ == old(store)@.with_message(
                id,
                Message { content, is_edited: true, edited_at: Some(now), ..old(store)@.message(id) },
            ) && fan_out(d.recipients@, presence, old(store)@.message(id).room_id, None),
        },
{
    let u = match presence.session_user(socket) {
        Ok(u) => u,
        Err(e) => return Err(e),
    };
    let index = match store.edit_message(u, id, content, now) {
        Ok(i) => i,
        Err(e) => return Err(e),
    };
    let room = room_of_message(store, index);
    proof {
        let k = old(store)@.msg_idx(id);
        assert(old(store)@.has_message(id));
        assert(index as int == k);
        assert(room == old(store)@.message(id).room_id);
        assert(opt_view(None::<&String>) == None::<Seq<char>>);
    }
    let recipients = presence.recipients(room, None);
    Ok(Delivery { index, recipients })
}

/// Deletes a message (a tombstone stays); its sender or an administrator may.
pub fn delete_message(store: &mut ChatStore, presence: &Presence, socket: &String, id: u128, now: i64) -> (r: Result<
    Delivery,
    AppError,
>)
    requires
        old(store)@.wf(),
        presence.wf(),
    ensures
        final(store)@.wf(),
        !is_bound(presence.sessions@, socket@) ==> r is Err && final(store)@ == old(store)@,
        is_bound(presence.sessions@, socket@) ==> match old(store)@.delete_message_error(presence.user_of(socket@), id) {
            Some(e) => r == Err::<Delivery, AppError>(e) && final(store)@ == old(store)@,
            None => r matches Ok(d) && d.index == old(store)@.msg_idx(id) && final(store)@.users == old(store)@.users
                && final(store)@.rooms == old(store)@.rooms && final(store)@.members == old(store)@.members
                && final(store)@.messages.len() == old(store)@.messages.len() && (forall|j: int|
                0 <= j < old(store)@.messages.len() && j != old(store)@.msg_idx(id) ==> final(store)@.messages[j]
                    == old(store)@.messages[j]) && tombstone_of(
                old(store)@.message(id),
                final(store)@.messages[d.index as int],
                now,
            ) && fan_out(d.recipients@, presence, old(store)@.message(id).room_id, None),
        },
{
    let u = match presence.session_user(socket) {
        Ok(u) => u,
        Err(e) => return Err(e),
    };
    let index = match store.delete_message(u, id, now) {
        Ok(i) => i,
        Err(e) => return Err(e),
    };
    let room = room_of_message(store, index);
    proof {
        let k = old(store)@.msg_idx(id);
        assert(old(store)@.has_message(id));
        assert(index as int == k);
        assert(room == old(store)@.message(id).room_id);
        assert(opt_view(None::<&String>) == None::<Seq<char>>);
    }
    let recipients = presence.recipients(room, None);
    Ok(Delivery { index, recipients })
}

/// Adds (`adding`) or removes a reaction of the account bound to `socket`;
/// the room's listeners receive the change.
pub fn react(store: &mut ChatStore, presence: &Presence, socket: &String, id: u128, emoji: String, adding: bool) -> (r: Result<
    Delivery,
    AppError,
>)
    requires
        old(store)@.wf(),
        presence.wf(),
    ensures
        final(store)@.wf(),
        !is_bound(presence.sessions@, socket@) ==> r is Err && final(store)@ == old(store)@,
        is_bound(presence.sessions@, socket@) ==> match old(store)@.react_error(presence.user_of(socket@), id) {
            Some(e) => r == Err::<Delivery, AppError>(e) && final(store)@ == old(store)@,
            None => r matches Ok(d) && d.index == old(store)@.msg_idx(id) && old(store)@.reactions_set_to(
                final(store)@,
                id,
                emoji@,
                if adding {
                    reaction_set(old(store)@.message(id).reactions@, emoji@).insert(presence.user_of(socket@))
                } else {
                    reaction_set(old(store)@.message(id).reactions@, emoji@).remove(presence.user_of(socket@))
                },
            ) && fan_out(d.recipients@, presence, old(store)@.message(id).room_id, None),
        },
{
    let u = match presence.session_user(socket) {
        Ok(u) => u,
        Err(e) => return Err(e),
    };
    let changed = if adding {
        store.add_reaction(u, id, emoji)
    } else {
        store.remove_reaction(u, id, emoji)
    };
    let index = match changed {
        Ok(i) => i,
        Err(e) => return Err(e),
    };
    let room = room_of_message(store, index);
    proof {
        let k = old(store)@.msg_idx(id);
        assert(old(store)@.has_message(id));
        assert(index as int == k);
        assert(room == old(store)@.message(id).room_id);
        assert(opt_view(None::<&String>) == None::<Seq<char>>);
    }
    let recipients = presence.recipients(room, None);
    Ok(Delivery { index, recipients })
}

/// Records a read mark of the account bound to `socket`; the room's other
/// listeners are told.
pub fn mark_read(store: &mut ChatStore, presence: &Presence, socket: &String, room: u128, id: u128, now: i64) -> (r: Result<
    Vec<String>,
    AppError,
>)
    requires
        old(store)@.wf(),
        presence.wf(),
    ensures
        final(store)@.wf(),
        !is_bound(presence.sessions@, socket@) ==> r is Err && final(store)@ == old(store)@,
        is_bound(presence.sessions@, socket@) ==> match old(store)@.mark_read_error(presence.user_of(socket@), room, id) {
            Some(e) => r == Err::<Vec<String>, AppError>(e) && final(store)@ == old(store)@,
            None => r matches Ok(v) && fan_out(v@, presence, room, Some(socket@)) && final(store)@ == (ChatView {
                members: old(store)@.members.update(
                    old(store)@.member_idx(room, presence.user_of(socket@)),
                    RoomMember {
                        last_read_message_id: Some(id),
                        last_read_at: Some(now),
                        ..old(store)@.member(room, presence.user_of(socket@))
                    },
                ),
                ..old(store)@
            }),
        },
{
    let u = match presence.session_user(socket) {
        Ok(u) => u,
        Err(e) => return Err(e),
    };
    match store.mark_read(u, room, id, now) {
        Ok(()) => {},
        Err(e) => return Err(e),
    }
    Ok(presence.recipients(room, Some(socket)))
}

/// Forwards a message into another room of the account bound to `socket`;
/// the target room's listeners receive it.
pub fn forward_message(
    store: &mut ChatStore,
    presence: &Presence,
    socket: &String,
    id: u128,
    target: u128,
    new_id: u128,
    now: i64,
) -> (r: Result<Delivery, AppError>)
    requires
        old(store)@.wf(),
        presence.wf(),
    ensures
        final(store)@.wf(),
        !is_bound(presence.sessions@, socket@) ==> r is Err && final(store)@ == old(store)@,
        is_bound(presence.sessions@, socket@) ==> match old(store)@.forward_error(presence.user_of(socket@), id, target, new_id) {
            Some(e) => r == Err::<Delivery, AppError>(e) && final(store)@ == old(store)@,
            None => r matches Ok(d) && d.index == old(store)@.messages.len() as usize && old(store)@.message_sent(
                final(store)@,
                presence.user_of(socket@),
                target,
                new_id,
                old(store)@.message(id).content@,
                old(store)@.message(id).message_type,
                Some(id),
                now,
            ) && fan_out(d.recipients@, presence, target, None),
        },
{
    let u = match presence.session_user(socket) {
        Ok(u) => u,
        Err(e) => return Err(e),
    };
    let index = match store.forward_message(u, id, target, new_id, now) {
        Ok(i) => i,
        Err(e) => return Err(e),
    };
    proof {
        assert(opt_view(None::<&String>) == None::<Seq<char>>);
    }
    let recipients = presence.recipients(target, None);
    Ok(Delivery { index, recipients })
}

} // verus!
