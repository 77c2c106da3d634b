//! Accounts: registration, login bookkeeping, presence flag, administration
//! and the dashboard counters.

use vstd::prelude::*;
use crate::error::AppError;
use super::{
    creator_ok, lemma_idx, lemma_refs_grow, member_keep, member_refs_ok, message_ok, retain_members,
    room_public, ChatStore, ChatView, User,
};

verus! {

broadcast use vstd::seq_lib::group_seq_properties;

/// The creation instant of the next user: `now`, moved just past the newest
/// account so that creation instants stay strictly increasing.
pub open spec fn next_created_at(users: Seq<User>, now: i64) -> Option<i64> {
    if users.len() == 0 || now > users.last().created_at {
        Some(now)
    } else if users.last().created_at < i64::MAX {
        Some((users.last().created_at + 1) as i64)
    } else {
        None
    }
}

/// `post` is `pre` with one account appended, as registration makes it.
pub open spec fn registered(
    pre: ChatView,
    post: ChatView,
    id: u128,
    username: Seq<char>,
    email: Option<String>,
    password_hash: Seq<char>,
    now: i64,
) -> bool {
    &&& post.users.len() == pre.users.len() + 1
    &&& post.users.drop_last() == pre.users
    &&& post.rooms == pre.rooms
    &&& post.members == pre.members
    &&& post.messages == pre.messages
    &&& post.users.last().id == id
    &&& post.users.last().username@ == username
    &&& post.users.last().email == email
    &&& post.users.last().password_hash@ == password_hash
    &&& Some(post.users.last().created_at) == next_created_at(pre.users, now)
    &&& post.users.last().is_admin == (pre.users.len() == 0)
    &&& !post.users.last().is_banned
    &&& !post.users.last().is_online
}

/// Appending a user keeps every reference to the old users valid.
proof fn lemma_users_push_keeps_refs(pre: ChatView, post: ChatView)
    requires
        post.users.len() == pre.users.len() + 1,
        forall|i: int| 0 <= i < pre.users.len() ==> post.users[i] == pre.users[i],
    ensures
        forall|id: u128| pre.has_user(id) ==> post.has_user(id),
{
    assert forall|id: u128| pre.has_user(id) implies post.has_user(id) by {
        let i = choose|i: int| 0 <= i < pre.users.len() && #[trigger] pre.users[i].id == id;
        assert(post.users[i].id == id);
    }
}

impl ChatView {
    /// This store with the account at `id` replaced by `u`.
    pub open spec fn with_user(self, id: u128, u: User) -> ChatView {
        ChatView { users: self.users.update(self.user_idx(id), u), ..self }
    }

    /// Why an administrative request by `actor` is refused.
    pub open spec fn admin_error(self, actor: u128) -> Option<AppError> {
        if self.actor_error(actor) is Some {
            self.actor_error(actor)
        } else if !self.user(actor).is_admin {
            Some(AppError::Authorization)
        } else {
            None
        }
    }

    pub open spec fn promote_error(self, actor: u128, target: u128) -> Option<AppError> {
        if self.admin_error(actor) is Some {
            self.admin_error(actor)
        } else if !self.has_user(target) {
            Some(AppError::NotFound)
        } else if self.user(target).is_admin {
            Some(AppError::BadRequest)
        } else {
            None
        }
    }

    pub open spec fn demote_error(self, actor: u128, target: u128) -> Option<AppError> {
        if self.admin_error(actor) is Some {
            self.admin_error(actor)
        } else if target == actor {
            Some(AppError::BadRequest)
        } else if !self.has_user(target) {
            Some(AppError::NotFound)
        } else if !self.user(target).is_admin {
            Some(AppError::BadRequest)
        } else {
            None
        }
    }

    pub open spec fn ban_error(self, actor: u128, target: u128) -> Option<AppError> {
        if self.admin_error(actor) is Some {
            self.admin_error(actor)
        } else if target == actor {
            Some(AppError::BadRequest)
        } else if !self.has_user(target) {
            Some(AppError::NotFound)
        } else if self.user(target).is_admin {
            Some(AppError::BadRequest)
        } else if self.user(target).is_banned {
            Some(AppError::BadRequest)
        } else {
            None
        }
    }

    pub open spec fn unban_error(self, actor: u128, target: u128) -> Option<AppError> {
        if self.admin_error(actor) is Some {
            self.admin_error(actor)
        } else if !self.has_user(target) {
            Some(AppError::NotFound)
        } else if !self.user(target).is_banned {
            Some(AppError::BadRequest)
        } else {
            None
        }
    }

    pub open spec fn owns_room(self, user: u128) -> bool {
        exists|i: int| 0 <= i < self.rooms.len() && #[trigger] self.rooms[i].creator_id == Some(user)
    }

    pub open spec fn has_sent(self, user: u128) -> bool {
        exists|i: int| 0 <= i < self.messages.len() && #[trigger] self.messages[i].sender_id == user
    }

    /// A user is deleted only when no room names them as creator and no
    /// message as sender.
    pub open spec fn delete_user_error(self, actor: u128, target: u128) -> Option<AppError> {
        if self.admin_error(actor) is Some {
            self.admin_error(actor)
        } else if target == actor {
            Some(AppError::BadRequest)
        } else if !self.has_user(target) {
            Some(AppError::NotFound)
        } else if self.owns_room(target) || self.has_sent(target) {
            Some(AppError::BadRequest)
        } else {
            None
        }
    }

    /// Why a login for account `id` is refused after its password was checked.
    pub open spec fn login_error(self, id: u128, password_ok: bool) -> Option<AppError> {
        if !self.has_user(id) || !password_ok {
            Some(AppError::Authentication)
        } else if self.user(id).is_banned {
            Some(AppError::Authorization)
        } else {
            None
        }
    }
}

/// Changing flags of one account keeps the store well formed as long as an
/// administrator remains.
proof fn lemma_user_update(pre: ChatView, post: ChatView, k: int)
    requires
        pre.wf(),
        0 <= k < pre.users.len(),
        post.rooms == pre.rooms,
        post.members == pre.members,
        post.messages == pre.messages,
        post.users.len() == pre.users.len(),
        forall|j: int| 0 <= j < pre.users.len() && j != k ==> post.users[j] == pre.users[j],
        post.users[k].id == pre.users[k].id,
        post.users[k].username@ == pre.users[k].username@,
        post.users[k].created_at == pre.users[k].created_at,
        exists|j: int| 0 <= j < post.users.len() && #[trigger] post.users[j].is_admin,
    ensures
        post.wf(),
{
    assert forall|i: int, j: int| 0 <= i < j < post.users.len() implies #[trigger] post.users[i].id != #[trigger] post.users[j].id
        && post.users[i].username@ != post.users[j].username@ && post.users[i].created_at < post.users[j].created_at by {
        assert(pre.users[i].id != pre.users[j].id);
        assert(pre.users[i].username@ != pre.users[j].username@);
        assert(pre.users[i].created_at < pre.users[j].created_at);
    }
    assert forall|id: u128| pre.has_user(id) implies post.has_user(id) by {
        let w = choose|w: int| 0 <= w < pre.users.len() && #[trigger] pre.users[w].id == id;
        assert(post.users[w].id == id);
    }
    lemma_refs_grow(pre, post);
}

/// Counters of the admin dashboard.
pub struct Stats {
    pub total_users: usize,
    pub online_users: usize,
    pub banned_users: usize,
    pub admin_users: usize,
    pub recent_registrations: usize,
    pub total_rooms: usize,
    pub public_rooms: usize,
    pub total_messages: usize,
}

/// Which accounts a counter counts.
pub open spec fn user_counted(kind: int, since: i64) -> spec_fn(User) -> bool {
    |u: User|
        if kind == 0 {
            u.is_online
        } else if kind == 1 {
            u.is_banned
        } else if kind == 2 {
            u.is_admin
        } else {
            u.created_at >= since
        }
}

impl ChatStore {
    /// The acting administrator's position.
    fn require_admin(&self, actor: u128) -> (r: Result<usize, AppError>)
        requires
            self@.wf(),
        ensures
            match self@.admin_error(actor) {
                Some(e) => r == Err::<usize, AppError>(e),
                None => r matches Ok(i) && i == self@.user_idx(actor) && 0 <= i < self@.users.len(),
            },
    {
        let a = match self.require_active(actor) {
            Ok(a) => a,
            Err(e) => return Err(e),
        };
        if !self.users[a].is_admin {
            return Err(AppError::Authorization);
        }
        Ok(a)
    }

    /// Registers an account. The first account of an empty store is an administrator.
    #[verifier::rlimit(60)]
    pub fn register(
        &mut self,
        id: u128,
        username: String,
        email: Option<String>,
        password_hash: String,
        public_key: Option<String>,
        display_name: Option<String>,
        now: i64,
    ) -> (r: Result<usize, AppError>)
        requires
            old(self)@.wf(),
        ensures
            final(self)@.wf(),
            (old(self)@.username_taken(username@) || old(self)@.email_taken(email)
                || old(self)@.has_user(id)) ==> r == Err::<usize, AppError>(AppError::Conflict),
            r is Err ==> final(self)@ == old(self)@,
            r == Err::<usize, AppError>(AppError::Conflict) ==> old(self)@.username_taken(username@)
                || old(self)@.email_taken(email) || old(self)@.has_user(id),
            r is Err ==> r == Err::<usize, AppError>(AppError::Conflict) || (r == Err::<
                usize,
                AppError,
            >(AppError::Internal) && next_created_at(old(self)@.users, now) is None),
            next_created_at(old(self)@.users, now) is Some && !old(self)@.username_taken(username@)
                && !old(self)@.email_taken(email) && !old(self)@.has_user(id) ==> r is Ok,
            r matches Ok(i) ==> i == old(self)@.users.len() && registered(
                old(self)@,
                final(self)@,
                id,
                username@,
                email,
                password_hash@,
                now,
            ),
    {
        let taken = match self.find_username(&username) {
            Some(_) => true,
            None => false,
        };
        if taken || self.email_taken(&email) || self.find_user(id).is_some() {
            return Err(AppError::Conflict);
        }
        let n = self.users.len();
        let created_at: i64 = if n == 0 || now > self.users[n - 1].created_at {
            now
        } else if self.users[n - 1].created_at < i64::MAX {
            self.users[n - 1].created_at + 1
        } else {
            return Err(AppError::Internal);
        };
        let shown = match display_name {
            Some(d) => Some(d),
            None => Some(username.clone()),
        };
        let user = User {
            id,
            username,
            email,
            password_hash,
            public_key,
            display_name: shown,
            avatar: None,
            is_online: false,
            last_seen: None,
            is_admin: n == 0,
            is_banned: false,
            created_at,
        };
        let ghost pre = self@;
        self.users.push(user);
        proof {
            lemma_users_push_keeps_refs(pre, self@);
            assert(self@.users.drop_last() =~= pre.users);
            assert forall|i: int, j: int| 0 <= i < j < self@.users.len() implies
                #[trigger] self@.users[i].created_at < #[trigger] self@.users[j].created_at && self@.users[i].id != self@.users[j].id
                && self@.users[i].username@ != self@.users[j].username@ by {
                if j == n {
                    assert(pre.users[i].id != id);
                    if i < n - 1 {
                        assert(pre.users[i].created_at < pre.users[n - 1].created_at);
                    }
                }
            }
            assert(self@.users[n as int].is_admin || exists|i: int|
                0 <= i < pre.users.len() && #[trigger] pre.users[i].is_admin);
            lemma_refs_grow(pre, self@);
            if !self@.users[n as int].is_admin {
                let i = choose|i: int| 0 <= i < pre.users.len() && #[trigger] pre.users[i].is_admin;
                assert(self@.users[i].is_admin);
            }
        }
        Ok(n)
    }
    /// Records a login attempt for account `id` whose password check gave
    /// `password_ok`: a successful one updates `last_seen`.
    pub fn record_login(&mut self, id: u128, password_ok: bool, now: i64) -> (r: Result<usize, AppError>)
        requires
            old(self)@.wf(),
        ensures
            final(self)@.wf(),
            match old(self)@.login_error(id, password_ok) {
                Some(e) => r == Err::<usize, AppError>(e) && final(self)@ == old(self)@,
                None => r == Ok::<usize, AppError>(old(self)@.user_idx(id) as usize) && final(self)@ == old(self)@.with_user(
                    id,
                    User { last_seen: Some(now), ..old(self)@.user(id) },
                ),
            },
    {
        proof {
            lemma_idx(self@);
        }
        let k = match self.find_user(id) {
            Some(k) => k,
            None => return Err(AppError::Authentication),
        };
        if !password_ok {
            return Err(AppError::Authentication);
        }
        if self.users[k].is_banned {
            return Err(AppError::Authorization);
        }
        let ghost pre = self@;
        self.users[k].last_seen = Some(now);
        proof {
            assert(self@.users =~= pre.users.update(k as int, User { last_seen: Some(now), ..pre.users[k as int] }));
            let w = choose|w: int| 0 <= w < pre.users.len() && #[trigger] pre.users[w].is_admin;
            assert(self@.users[w].is_admin);
            lemma_user_update(pre, self@, k as int);
        }
        Ok(k)
    }

    /// Sets the durable online flag of an account; going offline records
    /// `last_seen`.
    pub fn set_online(&mut self, id: u128, online: bool, now: i64) -> (r: Result<(), AppError>)
        requires
            old(self)@.wf(),
        ensures
            final(self)@.wf(),
            !old(self)@.has_user(id) ==> r == Err::<(), AppError>(AppError::NotFound) && final(self)@ == old(self)@,
            old(self)@.has_user(id) ==> r is Ok && final(self)@ == old(self)@.with_user(
                id,
                if online {
                    User { is_online: true, ..old(self)@.user(id) }
                } else {
                    User { is_online: false, last_seen: Some(now), ..old(self)@.user(id) }
                },
            ),
    {
        proof {
            lemma_idx(self@);
        }
        let k = match self.find_user(id) {
            Some(k) => k,
            None => return Err(AppError::NotFound),
        };
        let ghost pre = self@;
        self.users[k].is_online = online;
        if !online {
            self.users[k].last_seen = Some(now);
        }
        proof {
            if online {
                assert(self@.users =~= pre.users.update(k as int, User { is_online: true, ..pre.users[k as int] }));
            } else {
                assert(self@.users =~= pre.users.update(k as int, User { is_online: false, last_seen: Some(now), ..pre.users[k as int] }));
            }
            let w = choose|w: int| 0 <= w < pre.users.len() && #[trigger] pre.users[w].is_admin;
            assert(self@.users[w].is_admin);
            lemma_user_update(pre, self@, k as int);
        }
        Ok(())
    }

    /// Grants administrator rights.
    pub fn promote_user(&mut self, actor: u128, target: u128) -> (r: Result<(), AppError>)
        requires
            old(self)@.wf(),
        ensures
            final(self)@.wf(),
            match old(self)@.promote_error(actor, target) {
                Some(e) => r == Err::<(), AppError>(e) && final(self)@ == old(self)@,
                None => r is Ok && final(self)@ == old(self)@.with_user(
                    target,
                    User { is_admin: true, ..old(self)@.user(target) },
                ),
            },
    {
        proof {
            lemma_idx(self@);
        }
        match self.require_admin(actor) {
            Ok(_) => {},
            Err(e) => return Err(e),
        }
        let k = match self.find_user(target) {
            Some(k) => k,
            None => return Err(AppError::NotFound),
        };
        if self.users[k].is_admin {
            return Err(AppError::BadRequest);
        }
        let ghost pre = self@;
        self.users[k].is_admin = true;
        proof {
            assert(self@.users =~= pre.users.update(k as int, User { is_admin: true, ..pre.users[k as int] }));
            assert(self@.users[k as int].is_admin);
            lemma_user_update(pre, self@, k as int);
        }
        Ok(())
    }

    /// Withdraws administrator rights; nobody demotes themselves, so an
    /// administrator always remains.
    pub fn demote_user(&mut self, actor: u128, target: u128) -> (r: Result<(), AppError>)
        requires
            old(self)@.wf(),
        ensures
            final(self)@.wf(),
            match old(self)@.demote_error(actor, target) {
                Some(e) => r == Err::<(), AppError>(e) && final(self)@ == old(self)@,
                None => r is Ok && final(self)@ == old(self)@.with_user(
                    target,
                    User { is_admin: false, ..old(self)@.user(target) },
                ),
            },
    {
        proof {
            lemma_idx(self@);
        }
        let a = match self.require_admin(actor) {
            Ok(a) => a,
            Err(e) => return Err(e),
        };
        if target == actor {
            return Err(AppError::BadRequest);
        }
        let k = match self.find_user(target) {
            Some(k) => k,
            None => return Err(AppError::NotFound),
        };
        if !self.users[k].is_admin {
            return Err(AppError::BadRequest);
        }
        let ghost pre = self@;
        self.users[k].is_admin = false;
        proof {
            assert(self@.users =~= pre.users.update(k as int, User { is_admin: false, ..pre.users[k as int] }));
            assert(self@.users[a as int].is_admin);
            lemma_user_update(pre, self@, k as int);
        }
        Ok(())
    }

    /// Bans a user who is not an administrator; a banned user is offline.
    pub fn ban_user(&mut self, actor: u128, target: u128) -> (r: Result<(), AppError>)
        requires
            old(self)@.wf(),
        ensures
            final(self)@.wf(),
            match old(self)@.ban_error(actor, target) {
                Some(e) => r == Err::<(), AppError>(e) && final(self)@ == old(self)@,
                None => r is Ok && final(self)@ == old(self)@.with_user(
                    target,
                    User { is_banned: true, is_online: false, ..old(self)@.user(target) },
                ),
            },
    {
        proof {
            lemma_idx(self@);
        }
        let a = match self.require_admin(actor) {
            Ok(a) => a,
            Err(e) => return Err(e),
        };
        if target == actor {
            return Err(AppError::BadRequest);
        }
        let k = match self.find_user(target) {
            Some(k) => k,
            None => return Err(AppError::NotFound),
        };
        if self.users[k].is_admin || self.users[k].is_banned {
            return Err(AppError::BadRequest);
        }
        let ghost pre = self@;
        self.users[k].is_banned = true;
        self.users[k].is_online = false;
        proof {
            assert(self@.users =~= pre.users.update(k as int, User { is_banned: true, is_online: false, ..pre.users[k as int] }));
            assert(self@.users[a as int].is_admin);
            lemma_user_update(pre, self@, k as int);
        }
        Ok(())
    }

    /// Lifts a ban.
    pub fn unban_user(&mut self, actor: u128, target: u128) -> (r: Result<(), AppError>)
        requires
            old(self)@.wf(),
        ensures
            final(self)@.wf(),
            match old(self)@.unban_error(actor, target) {
                Some(e) => r == Err::<(), AppError>(e) && final(self)@ == old(self)@,
                None => r is Ok && final(self)@ == old(self)@.with_user(
                    target,
                    User { is_banned: false, ..old(self)@.user(target) },
                ),
            },
    {
        proof {
            lemma_idx(self@);
        }
        let a = match self.require_admin(actor) {
            Ok(a) => a,
            Err(e) => return Err(e),
        };
        let k = match self.find_user(target) {
            Some(k) => k,
            None => return Err(AppError::NotFound),
        };
        if !self.users[k].is_banned {
            return Err(AppError::BadRequest);
        }
        let ghost pre = self@;
        self.users[k].is_banned = false;
        proof {
            assert(self@.users =~= pre.users.update(k as int, User { is_banned: false, ..pre.users[k as int] }));
            assert(self@.users[a as int].is_admin);
            lemma_user_update(pre, self@, k as int);
        }
        Ok(())
    }

    /// Whether a room names `user` as its creator.
    fn owns_room(&self, user: u128) -> (r: bool)
        ensures
            r == self@.owns_room(user),
    {
        let mut i: usize = 0;
        while i < self.rooms.len()
            invariant
                i <= self@.rooms.len(),
                forall|j: int| 0 <= j < i ==> #[trigger] self@.rooms[j].creator_id != Some(user),
            decreases self@.rooms.len() - i,
        {
            if self.rooms[i].creator_id == Some(user) {
                return true;
            }
            i += 1;
        }
        false
    }

    /// Whether a message names `user` as its sender.
    fn has_sent(&self, user: u128) -> (r: bool)
        ensures
            r == self@.has_sent(user),
    {
        let mut i: usize = 0;
        while i < self.messages.len()
            invariant
                i <= self@.messages.len(),
                forall|j: int| 0 <= j < i ==> #[trigger] self@.messages[j].sender_id != user,
            decreases self@.messages.len() - i,
        {
            if self.messages[i].sender_id == user {
                return true;
            }
            i += 1;
        }
        false
    }

    /// Deletes an account and its memberships.
    pub fn delete_user(&mut self, actor: u128, target: u128) -> (r: Result<(), AppError>)
        requires
            old(self)@.wf(),
        ensures
            final(self)@.wf(),
            match old(self)@.delete_user_error(actor, target) {
                Some(e) => r == Err::<(), AppError>(e) && final(self)@ == old(self)@,
                None => r is Ok && final(self)@ == (ChatView {
                    users: old(self)@.users.remove(old(self)@.user_idx(target)),
                    members: old(self)@.members.filter(member_keep(target, false)),
                    ..old(self)@
                }),
            },
    {
        proof {
            lemma_idx(self@);
        }
        let a = match self.require_admin(actor) {
            Ok(a) => a,
            Err(e) => return Err(e),
        };
        if target == actor {
            return Err(AppError::BadRequest);
        }
        let k = match self.find_user(target) {
            Some(k) => k,
            None => return Err(AppError::NotFound),
        };
        if self.owns_room(target) || self.has_sent(target) {
            return Err(AppError::BadRequest);
        }
        let ghost pre = self@;
        retain_members(&mut self.members, target, false);
        self.users.remove(k);
        proof {
            let post = self@;
            assert(post.users == pre.users.remove(k as int));
            assert forall|i: int, j: int| 0 <= i < j < post.users.len() implies #[trigger] post.users[i].id
                != #[trigger] post.users[j].id && post.users[i].username@ != post.users[j].username@
                && post.users[i].created_at < post.users[j].created_at by {
                let x = if i < k { i } else { i + 1 };
                let y = if j < k { j } else { j + 1 };
                assert(post.users[i] == pre.users[x]);
                assert(post.users[j] == pre.users[y]);
                assert(pre.users[x].id != pre.users[y].id);
                assert(pre.users[x].username@ != pre.users[y].username@);
                assert(pre.users[x].created_at < pre.users[y].created_at);
            }
            assert forall|id: u128| id != target && pre.has_user(id) implies post.has_user(id) by {
                let w = choose|w: int| 0 <= w < pre.users.len() && #[trigger] pre.users[w].id == id;
                assert(w != k);
                let x = if w < k { w } else { w - 1 };
                assert(post.users[x] == pre.users[w]);
            }
            let x = if (a as int) < k { a as int } else { a - 1 };
            assert(post.users[x] == pre.users[a as int]);
            assert(post.users[x].is_admin);
            assert forall|i: int| 0 <= i < post.members.len() implies #[trigger] member_refs_ok(post, post.members[i]) by {
                let w = choose|w: int| 0 <= w < pre.members.len() && pre.members[w] == post.members[i];
                assert(member_refs_ok(pre, pre.members[w]));
                pre.members.lemma_filter_pred(member_keep(target, false), i);
            }
            assert forall|i: int| 0 <= i < post.messages.len() implies #[trigger] message_ok(post, post.messages[i]) by {
                assert(message_ok(pre, pre.messages[i]));
                assert(pre.messages[i].sender_id != target);
            }
            assert forall|i: int| 0 <= i < post.rooms.len() implies #[trigger] creator_ok(post, post.rooms[i]) by {
                assert(creator_ok(pre, pre.rooms[i]));
                assert(pre.rooms[i].creator_id != Some(target));
            }
        }
        Ok(())
    }

    fn count_users(&self, kind: u8, since: i64) -> (r: usize)
        ensures
            r == self@.users.filter(user_counted(kind as int, since)).len(),
    {
        let mut n: usize = 0;
        let mut i: usize = 0;
        while i < self.users.len()
            invariant
                i <= self@.users.len(),
                n == self@.users.take(i as int).filter(user_counted(kind as int, since)).len(),
                n <= i,
            decreases self@.users.len() - i,
        {
            proof {
                self@.users.lemma_take_succ_push(i as int);
                self@.users.take(i as int).lemma_filter_push(self@.users[i as int], user_counted(kind as int, since));
                assert(self@.users.take(i + 1) == self@.users.take(i as int).push(self@.users[i as int]));
            }
            let u = &self.users[i];
            let counted = if kind == 0 {
                u.is_online
            } else if kind == 1 {
                u.is_banned
            } else if kind == 2 {
                u.is_admin
            } else {
                u.created_at >= since
            };
            if counted {
                n += 1;
            }
            i += 1;
        }
        proof {
            assert(self@.users.take(i as int) =~= self@.users);
        }
        n
    }

    /// The dashboard counters; accounts created at or after `since` are
    /// recent. Administrators only.
    pub fn get_stats(&self, actor: u128, since: i64) -> (r: Result<Stats, AppError>)
        requires
            self@.wf(),
        ensures
            match self@.admin_error(actor) {
                Some(e) => r is Err && r->Err_0 == e,
                None => r matches Ok(s) && s.total_users == self@.users.len() && s.online_users
                    == self@.users.filter(user_counted(0, since)).len() && s.banned_users == self@.users.filter(
                    user_counted(1, since),
                ).len() && s.admin_users == self@.users.filter(user_counted(2, since)).len()
                    && s.recent_registrations == self@.users.filter(user_counted(3, since)).len()
                    && s.total_rooms == self@.rooms.len() && s.public_rooms == self@.rooms.filter(
                    room_public(),
                ).len() && s.total_messages == self@.messages.len(),
            },
    {
        match self.require_admin(actor) {
            Ok(_) => {},
            Err(e) => return Err(e),
        }
        Ok(Stats {
            total_users: self.users.len(),
            online_users: self.count_users(0, since),
            banned_users: self.count_users(1, since),
            admin_users: self.count_users(2, since),
            recent_registrations: self.count_users(3, since),
            total_rooms: self.rooms.len(),
            public_rooms: self.public_room_count(),
            total_messages: self.messages.len(),
        })
    }
}

} // verus!
