//! The presence registry: which live sockets are bound to which user, and
//! which rooms each socket listens to.

use vstd::prelude::*;
use crate::error::AppError;

verus! {

/// A socket bound to a user, with the rooms whose events it receives.
pub struct Session {
    pub socket: String,
    pub user_id: u128,
    pub rooms: Vec<u128>,
}

/// All bound sockets, in the order they were bound.
pub struct Presence {
    pub sessions: Vec<Session>,
}

/// Each socket is bound once and lists each room once.
pub open spec fn sessions_wf(ss: Seq<Session>) -> bool {
    &&& forall|i: int, j: int| 0 <= i < j < ss.len() ==> #[trigger] ss[i].socket@ != #[trigger] ss[j].socket@
    &&& forall|i: int| 0 <= i < ss.len() ==> (#[trigger] ss[i]).rooms@.no_duplicates()
}

pub open spec fn is_bound(ss: Seq<Session>, socket: Seq<char>) -> bool {
    exists|i: int| 0 <= i < ss.len() && #[trigger] ss[i].socket@ == socket
}

/// A user is online while some socket is bound to them.
pub open spec fn online(ss: Seq<Session>, user: u128) -> bool {
    exists|i: int| 0 <= i < ss.len() && #[trigger] ss[i].user_id == user
}

/// The sockets bound to `user`, oldest first.
pub open spec fn sockets_of(ss: Seq<Session>, user: u128) -> Seq<Seq<char>>
    decreases ss.len(),
{
    if ss.len() == 0 {
        Seq::empty()
    } else if ss.last().user_id == user {
        sockets_of(ss.drop_last(), user).push(ss.last().socket@)
    } else {
        sockets_of(ss.drop_last(), user)
    }
}

/// Whether the socket of session `s` receives the events of `room` sent by `origin`.
pub open spec fn receives(s: Session, room: u128, exclude: Option<Seq<char>>) -> bool {
    s.rooms@.contains(room) && exclude != Some(s.socket@)
}

/// The text of an optional socket id.
pub open spec fn opt_view(e: Option<&String>) -> Option<Seq<char>> {
    match e {
        Some(x) => Some(x@),
        None => None,
    }
}

/// Whether a list of sockets names `s`.
pub open spec fn names_socket(r: Seq<String>, s: Seq<char>) -> bool {
    exists|a: int| 0 <= a < r.len() && #[trigger] r[a]@ == s
}

/// Whether socket `s` is bound and receives the events of `room`, `exclude` left out.
pub open spec fn hears(ss: Seq<Session>, room: u128, exclude: Option<Seq<char>>, s: Seq<char>) -> bool {
    exists|i: int| 0 <= i < ss.len() && #[trigger] ss[i].socket@ == s && receives(ss[i], room, exclude)
}

impl Presence {
    pub open spec fn wf(&self) -> bool {
        sessions_wf(self.sessions@)
    }

    pub open spec fn session_idx(&self, socket: Seq<char>) -> int {
        choose|i: int| 0 <= i < self.sessions@.len() && #[trigger] self.sessions@[i].socket@ == socket
    }

    /// The user a bound socket belongs to.
    pub open spec fn user_of(&self, socket: Seq<char>) -> u128 {
        self.sessions@[self.session_idx(socket)].user_id
    }

    pub fn new() -> (r: Presence)
        ensures
            r.wf(),
            r.sessions@.len() == 0,
    {
        Presence { sessions: Vec::new() }
    }

    /// Position of a socket's session.
    pub fn find_session(&self, socket: &String) -> (r: Option<usize>)
        requires
            self.wf(),
        ensures
            match r {
                Some(i) => i < self.sessions@.len() && self.sessions@[i as int].socket@ == socket@ && i as int
                    == self.session_idx(socket@),
                None => !is_bound(self.sessions@, socket@),
            },
    {
        let mut i: usize = 0;
        while i < self.sessions.len()
            invariant
                self.wf(),
                i <= self.sessions@.len(),
                forall|j: int| 0 <= j < i ==> #[trigger] self.sessions@[j].socket@ != socket@,
            decreases self.sessions@.len() - i,
        {
            if self.sessions[i].socket == *socket {
                proof {
                    let c = self.session_idx(socket@);
                    if c < i {
                        assert(self.sessions@[c].socket@ != self.sessions@[i as int].socket@);
                    }
                    if (i as int) < c {
                        assert(self.sessions@[i as int].socket@ != self.sessions@[c].socket@);
                    }
                }
                return Some(i);
            }
            i += 1;
        }
        None
    }

    /// Whether a user has a bound socket.
    pub fn is_online(&self, user: u128) -> (r: bool)
        ensures
            r == online(self.sessions@, user),
    {
        let mut i: usize = 0;
        while i < self.sessions.len()
            invariant
                i <= self.sessions@.len(),
                forall|j: int| 0 <= j < i ==> #[trigger] self.sessions@[j].user_id != user,
            decreases self.sessions@.len() - i,
        {
            if self.sessions[i].user_id == user {
                return true;
            }
            i += 1;
        }
        false
    }

    /// Binds a fresh socket to a user. Answers whether the user was offline
    /// before, that is whether this bind brings them online.
    pub fn bind(&mut self, socket: String, user: u128) -> (r: Result<bool, AppError>)
        requires
            old(self).wf(),
        ensures
            final(self).wf(),
            is_bound(old(self).sessions@, socket@) ==> r == Err::<bool, AppError>(AppError::BadRequest)
                && final(self).sessions@ == old(self).sessions@,
            !is_bound(old(self).sessions@, socket@) ==> r == Ok::<bool, AppError>(!online(old(self).sessions@, user))
                && final(self).sessions@.len() == old(self).sessions@.len() + 1
                && final(self).sessions@.drop_last() == old(self).sessions@
                && final(self).sessions@.last().socket@ == socket@
                && final(self).sessions@.last().user_id == user
                && final(self).sessions@.last().rooms@.len() == 0,
    {
        if self.find_session(&socket).is_some() {
            return Err(AppError::BadRequest);
        }
        let was_online = self.is_online(user);
        let ghost pre = self.sessions@;
        self.sessions.push(Session { socket, user_id: user, rooms: Vec::new() });
        proof {
            let ss = self.sessions@;
            assert(ss.drop_last() =~= pre);
            assert forall|i: int, j: int| 0 <= i < j < ss.len() implies #[trigger] ss[i].socket@ != #[trigger] ss[j].socket@ by {
                if j == pre.len() {
                    assert(pre[i].socket@ != socket@);
                }
            }
            assert forall|i: int| 0 <= i < ss.len() implies (#[trigger] ss[i]).rooms@.no_duplicates() by {
                if i < pre.len() {
                    assert(pre[i].rooms@.no_duplicates());
                }
            }
        }
        Ok(!was_online)
    }

    /// Unbinds a socket. Answers its user and whether that user has no
    /// socket left, that is whether this unbind takes them offline.
    pub fn unbind(&mut self, socket: &String) -> (r: Option<(u128, bool)>)
        requires
            old(self).wf(),
        ensures
            final(self).wf(),
            !is_bound(old(self).sessions@, socket@) ==> r is None && final(self).sessions@ == old(self).sessions@,
            is_bound(old(self).sessions@, socket@) ==> r == Some((old(self).user_of(socket@), !online(final(self).sessions@, old(self).user_of(socket@))))
                && final(self).sessions@ == old(self).sessions@.remove(old(self).session_idx(socket@)),
    {
        let i = match self.find_session(socket) {
            Some(i) => i,
            None => return None,
        };
        let user = self.sessions[i].user_id;
        let ghost pre = self.sessions@;
        self.sessions.remove(i);
        proof {
            let ss = self.sessions@;
            assert forall|a: int, b: int| 0 <= a < b < ss.len() implies #[trigger] ss[a].socket@ != #[trigger] ss[b].socket@ by {
                let x = if a < i { a } else { a + 1 };
                let y = if b < i { b } else { b + 1 };
                assert(pre[x].socket@ != pre[y].socket@);
            }
            assert forall|a: int| 0 <= a < ss.len() implies (#[trigger] ss[a]).rooms@.no_duplicates() by {
                let x = if a < i { a } else { a + 1 };
                assert(pre[x].rooms@.no_duplicates());
            }
        }
        let still = self.is_online(user);
        Some((user, !still))
    }

    /// The user a bound socket belongs to; `Authentication` for an unbound one.
    pub fn session_user(&self, socket: &String) -> (r: Result<u128, AppError>)
        requires
            self.wf(),
        ensures
            is_bound(self.sessions@, socket@) ==> r == Ok::<u128, AppError>(self.user_of(socket@)),
            !is_bound(self.sessions@, socket@) ==> r == Err::<u128, AppError>(AppError::Authentication),
    {
        match self.find_session(socket) {
            Some(i) => Ok(self.sessions[i].user_id),
            None => Err(AppError::Authentication),
        }
    }

    /// Makes a bound socket receive the events of `room`; listening twice is
    /// listening once.
    pub fn subscribe(&mut self, socket: &String, room: u128) -> (r: Result<(), AppError>)
        requires
            old(self).wf(),
        ensures
            final(self).wf(),
            !is_bound(old(self).sessions@, socket@) ==> r == Err::<(), AppError>(AppError::Authentication)
                && final(self).sessions@ == old(self).sessions@,
            is_bound(old(self).sessions@, socket@) ==> r is Ok && final(self).sessions@.len() == old(self).sessions@.len()
                && (forall|j: int| 0 <= j < old(self).sessions@.len() && j != old(self).session_idx(socket@)
                    ==> final(self).sessions@[j] == old(self).sessions@[j])
                && final(self).sessions@[old(self).session_idx(socket@)].socket@ == socket@
                && final(self).sessions@[old(self).session_idx(socket@)].user_id == old(self).user_of(socket@)
                && final(self).sessions@[old(self).session_idx(socket@)].rooms@.to_set()
                    == old(self).sessions@[old(self).session_idx(socket@)].rooms@.to_set().insert(room),
    {
        let i = match self.find_session(socket) {
            Some(i) => i,
            None => return Err(AppError::Authentication),
        };
        let ghost pre = self.sessions@;
        let mut k: usize = 0;
        let mut present = false;
        while k < self.sessions[i].rooms.len()
            invariant
                self.sessions@ == pre,
                pre == old(self).sessions@,
                sessions_wf(pre),
                i < pre.len(),
                i as int == old(self).session_idx(socket@),
                pre[i as int].socket@ == socket@,
                k <= pre[i as int].rooms@.len(),
                present ==> pre[i as int].rooms@.contains(room),
                !present ==> forall|j: int| 0 <= j < k ==> #[trigger] pre[i as int].rooms@[j] != room,
            decreases pre[i as int].rooms@.len() - k,
        {
            if self.sessions[i].rooms[k] == room {
                present = true;
            }
            k += 1;
        }
        if present {
            proof {
                assert(pre[i as int].rooms@.to_set().insert(room) =~= pre[i as int].rooms@.to_set());
            }
            return Ok(());
        }
        self.sessions[i].rooms.push(room);
        proof {
            let ss = self.sessions@;
            pre[i as int].rooms@.lemma_push_to_set_commute(room);
            assert(ss[i as int].rooms@ == pre[i as int].rooms@.push(room));
            assert forall|a: int, b: int| 0 <= a < b < ss.len() implies #[trigger] ss[a].socket@ != #[trigger] ss[b].socket@ by {
                assert(pre[a].socket@ != pre[b].socket@);
            }
            assert forall|a: int| 0 <= a < ss.len() implies (#[trigger] ss[a]).rooms@.no_duplicates() by {
                assert(pre[a].rooms@.no_duplicates());
            }
        }
        Ok(())
    }

    /// Stops a socket from receiving the events of `room`.
    pub fn unsubscribe(&mut self, socket: &String, room: u128)
        requires
            old(self).wf(),
        ensures
            final(self).wf(),
            !is_bound(old(self).sessions@, socket@) ==> final(self).sessions@ == old(self).sessions@,
            is_bound(old(self).sessions@, socket@) ==> final(self).sessions@.len() == old(self).sessions@.len()
                && (forall|j: int| 0 <= j < old(self).sessions@.len() && j != old(self).session_idx(socket@)
                    ==> final(self).sessions@[j] == old(self).sessions@[j])
                && final(self).sessions@[old(self).session_idx(socket@)].socket@ == socket@
                && final(self).sessions@[old(self).session_idx(socket@)].user_id == old(self).user_of(socket@)
                && final(self).sessions@[old(self).session_idx(socket@)].rooms@.to_set()
                    == old(self).sessions@[old(self).session_idx(socket@)].rooms@.to_set().remove(room),
    {
        let i = match self.find_session(socket) {
            Some(i) => i,
            None => return,
        };
        let ghost pre = self.sessions@;
        let mut k: usize = 0;
        while k < self.sessions[i].rooms.len()
            invariant
                self.sessions@ == pre,
                pre == old(self).sessions@,
                sessions_wf(pre),
                i < pre.len(),
                i as int == old(self).session_idx(socket@),
                pre[i as int].socket@ == socket@,
                k <= pre[i as int].rooms@.len(),
                forall|j: int| 0 <= j < k ==> #[trigger] pre[i as int].rooms@[j] != room,
            decreases pre[i as int].rooms@.len() - k,
        {
            if self.sessions[i].rooms[k] == room {
                self.sessions[i].rooms.remove(k);
                proof {
                    let ss = self.sessions@;
                    let rs = pre[i as int].rooms@;
                    assert(ss[i as int].rooms@ == rs.remove(k as int));
                    assert(rs.no_duplicates());
                    assert forall|y: u128| ss[i as int].rooms@.to_set().contains(y) <==> rs.to_set().remove(room).contains(y) by {
                        let t = rs.remove(k as int);
                        if t.contains(y) {
                            let a = choose|a: int| 0 <= a < t.len() && t[a] == y;
                            let x = if a < k { a } else { a + 1 };
                            assert(t[a] == rs[x]);
                            assert(x != k);
                        }
                        if rs.to_set().remove(room).contains(y) {
                            let x = choose|x: int| 0 <= x < rs.len() && rs[x] == y;
                            let a = if x < k { x } else { x - 1 };
                            assert(t[a] == y);
                        }
                    }
                    assert(ss[i as int].rooms@.to_set() =~= rs.to_set().remove(room));
                    assert forall|a: int, b: int| 0 <= a < b < ss.len() implies #[trigger] ss[a].socket@ != #[trigger] ss[b].socket@ by {
                        assert(pre[a].socket@ != pre[b].socket@);
                    }
                    assert forall|a: int| 0 <= a < ss.len() implies (#[trigger] ss[a]).rooms@.no_duplicates() by {
                        if a != i {
                            assert(pre[a].rooms@.no_duplicates());
                        } else {
                            let t = rs.remove(k as int);
                            assert forall|p: int, q: int| 0 <= p < t.len() && 0 <= q < t.len() && p != q implies t[p] != t[q] by {
                                let x = if p < k { p } else { p + 1 };
                                let y = if q < k { q } else { q + 1 };
                            }
                        }
                    }
                }
                return;
            }
            k += 1;
        }
        proof {
            assert(pre[i as int].rooms@.to_set().remove(room) =~= pre[i as int].rooms@.to_set());
        }
    }

    /// The sockets that receive an event of `room`, leaving out `exclude`
    /// (the originator, for events it does not get back). Each appears once.
    pub fn recipients(&self, room: u128, exclude: Option<&String>) -> (r: Vec<String>)
        requires
            self.wf(),
        ensures
            r@.len() <= self.sessions@.len(),
            forall|a: int, b: int| 0 <= a < b < r@.len() ==> #[trigger] r@[a]@ != #[trigger] r@[b]@,
            forall|s: Seq<char>|
                #![trigger names_socket(r@, s)]
                #![trigger hears(self.sessions@, room, opt_view(exclude), s)]
                names_socket(r@, s) <==> hears(self.sessions@, room, opt_view(exclude), s),
    {
        let ghost ex = opt_view(exclude);
        let mut out: Vec<String> = Vec::new();
        let ghost mut from: Seq<int> = Seq::empty();
        let mut i: usize = 0;
        while i < self.sessions.len()
            invariant
                i <= self.sessions@.len(),
                sessions_wf(self.sessions@),
                ex == opt_view(exclude),
                out@.len() == from.len(),
                out@.len() <= i,
                forall|a: int| 0 <= a < from.len() ==> 0 <= #[trigger] from[a] < i && out@[a]@
                    == self.sessions@[from[a]].socket@ && receives(self.sessions@[from[a]], room, ex),
                forall|a: int, b: int| 0 <= a < b < from.len() ==> #[trigger] from[a] < #[trigger] from[b],
                forall|j: int|
                    0 <= j < i && receives(#[trigger] self.sessions@[j], room, ex) ==> exists|a: int|
                        0 <= a < from.len() && from[a] == j,
            decreases self.sessions@.len() - i,
        {
            let mut listens = false;
            let mut k: usize = 0;
            while k < self.sessions[i].rooms.len()
                invariant
                    i < self.sessions@.len(),
                    k <= self.sessions@[i as int].rooms@.len(),
                    listens == exists|j: int| 0 <= j < k && self.sessions@[i as int].rooms@[j] == room,
                decreases self.sessions@[i as int].rooms@.len() - k,
            {
                if self.sessions[i].rooms[k] == room {
                    listens = true;
                }
                k += 1;
            }
            let excluded = match exclude {
                Some(e) => self.sessions[i].socket == *e,
                None => false,
            };
            let ghost old_from = from;
            proof {
                assert(listens == self.sessions@[i as int].rooms@.contains(room));
            }
            if listens && !excluded {
                out.push(self.sessions[i].socket.clone());
                proof {
                    from = from.push(i as int);
                }
            }
            proof {
                assert forall|j: int| 0 <= j < i + 1 && receives(#[trigger] self.sessions@[j], room, ex) implies exists|a: int|
                    0 <= a < from.len() && from[a] == j by {
                    if j == i {
                        assert(from[from.len() - 1] == j);
                    } else {
                        let a = choose|a: int| 0 <= a < old_from.len() && old_from[a] == j;
                        assert(from[a] == j);
                    }
                }
            }
            i += 1;
        }
        proof {
            assert forall|a: int, b: int| 0 <= a < b < out@.len() implies #[trigger] out@[a]@ != #[trigger] out@[b]@ by {
                assert(from[a] < from[b]);
                assert(self.sessions@[from[a]].socket@ != self.sessions@[from[b]].socket@);
            }
            assert forall|s: Seq<char>| names_socket(out@, s) implies hears(self.sessions@, room, ex, s) by {
                let a = choose|a: int| 0 <= a < out@.len() && #[trigger] out@[a]@ == s;
                assert(self.sessions@[from[a]].socket@ == s);
            }
            assert forall|s: Seq<char>| hears(self.sessions@, room, ex, s) implies names_socket(out@, s) by {
                let j = choose|j: int| 0 <= j < self.sessions@.len() && #[trigger] self.sessions@[j].socket@ == s && receives(self.sessions@[j], room, ex);
                let a = choose|a: int| 0 <= a < from.len() && from[a] == j;
                assert(out@[a]@ == s);
            }
        }
        out
    }
}

} // verus!
