//! Account flows of the REST surface: registration, login and bearer-token
//! authentication, combining the store with the credential service.

use vstd::prelude::*;
use crate::auth::{claims_user, expiry_of, jwt_claims_of, jwt_encode_of, password_check_of, AuthService};
use crate::error::AppError;
use crate::ids::dashed;
use crate::requests::{email_acceptable, short_enough, LoginRequest, RegisterRequest};
use crate::store::{lemma_idx, registered, ChatStore, ChatView, User};
use crate::validation::{valid_password, valid_username};

verus! {

/// Whether a registration request passes validation.
pub open spec fn register_valid(req: &RegisterRequest) -> bool {
    valid_username(req.username@) && email_acceptable(req.email) && valid_password(req.password@)
        && short_enough(req.display_name, 100)
}

/// The token issued for `id` at `now_s` with the service's lifetime and secret, if any.
pub open spec fn issued_token(auth: &AuthService, id: u128, now_s: i64) -> Option<Seq<char>> {
    match expiry_of(now_s, auth.config.jwt_expires_in) {
        Some(exp) => jwt_encode_of(dashed(id), now_s, exp, auth.config.jwt_secret@),
        None => None,
    }
}

/// Registers an account and issues its first token. `now_ms` stamps the
/// account, `now_s` the token. The first account is an administrator.
pub fn register(
    store: &mut ChatStore,
    auth: &AuthService,
    req: RegisterRequest,
    id: u128,
    now_ms: i64,
    now_s: i64,
) -> (r: Result<(usize, String), AppError>)
    requires
        old(store)@.wf(),
    ensures
        final(store)@.wf(),
        r is Err ==> final(store)@ == old(store)@,
        !register_valid(&req) ==> r == Err::<(usize, String), AppError>(AppError::Validation),
        register_valid(&req) && (old(store)@.username_taken(req.username@) || old(store)@.email_taken(req.email)
            || old(store)@.has_user(id)) ==> r == Err::<(usize, String), AppError>(AppError::Conflict),
        register_valid(&req) && issued_token(auth, id, now_s) is None ==> r is Err,
        register_valid(&req) && !old(store)@.username_taken(req.username@) && !old(store)@.email_taken(req.email)
            && !old(store)@.has_user(id) && issued_token(auth, id, now_s) is Some ==> (r is Ok || r == Err::<
            (usize, String),
            AppError,
        >(AppError::Internal)),
        r matches Ok(_) ==> password_check_of(req.password@, final(store)@.users.last().password_hash@) == Some(true),
        r matches Ok((i, t)) ==> i == old(store)@.users.len() && Some(t@) == issued_token(auth, id, now_s)
            && registered(
            old(store)@,
            final(store)@,
            id,
            req.username@,
            req.email,
            final(store)@.users.last().password_hash@,
            now_ms,
        ),
{
    if req.validate().is_err() {
        return Err(AppError::Validation);
    }
    let taken = match store.find_username(&req.username) {
        Some(_) => true,
        None => false,
    };
    if taken || store.email_taken(&req.email) || store.find_user(id).is_some() {
        return Err(AppError::Conflict);
    }
    let token = match auth.generate_token(id, now_s) {
        Ok(t) => t,
        Err(e) => return Err(e),
    };
    let hash = match auth.hash_password(req.password.as_str()) {
        Ok(h) => h,
        Err(e) => return Err(e),
    };
    let RegisterRequest { username, email, password: _, display_name, public_key } = req;
    match store.register(id, username, email, hash, public_key, display_name, now_ms) {
        Ok(i) => Ok((i, token)),
        Err(e) => Err(e),
    }
}

/// The first failing check of a login for the account at position `k`,
/// whose password check answered `check`.
pub open spec fn login_outcome(v: ChatView, k: int, check: Option<bool>) -> Option<AppError> {
    match check {
        None => Some(AppError::Internal),
        Some(false) => Some(AppError::Authentication),
        Some(true) => if v.users[k].is_banned {
            Some(AppError::Authorization)
        } else {
            None
        },
    }
}

/// Logs in by username and password and issues a token. An unknown
/// username and a wrong password are both `Authentication` (401).
pub fn login(store: &mut ChatStore, auth: &AuthService, req: &LoginRequest, now_ms: i64, now_s: i64) -> (r: Result<
    (usize, String),
    AppError,
>)
    requires
        old(store)@.wf(),
    ensures
        final(store)@.wf(),
        r is Err ==> final(store)@ == old(store)@,
        !old(store)@.username_taken(req.username@) ==> r == Err::<(usize, String), AppError>(AppError::Authentication),
        r matches Ok((k, t)) ==> k < old(store)@.users.len() && old(store)@.users[k as int].username@ == req.username@
            && login_outcome(
            old(store)@,
            k as int,
            password_check_of(req.password@, old(store)@.users[k as int].password_hash@),
        ) is None && Some(t@) == issued_token(auth, old(store)@.users[k as int].id, now_s) && final(store)@
            == old(store)@.with_user(
            old(store)@.users[k as int].id,
            User { last_seen: Some(now_ms), ..old(store)@.users[k as int] },
        ),
        forall|k: int|
            0 <= k < old(store)@.users.len() && #[trigger] old(store)@.users[k].username@ == req.username@ ==> match login_outcome(
                old(store)@,
                k,
                password_check_of(req.password@, old(store)@.users[k].password_hash@),
            ) {
                Some(e) => r == Err::<(usize, String), AppError>(e),
                None => issued_token(auth, old(store)@.users[k].id, now_s) is Some ==> r is Ok,
            },
{
    proof {
        lemma_idx(store@);
    }
    let k = match store.find_username(&req.username) {
        Some(k) => k,
        None => return Err(AppError::Authentication),
    };
    proof {
        assert forall|j: int| 0 <= j < store@.users.len() && #[trigger] store@.users[j].username@ == req.username@ implies j == k by {
            if j < k {
                assert(store@.users[j].username@ != store@.users[k as int].username@);
            }
            if k < j {
                assert(store@.users[k as int].username@ != store@.users[j].username@);
            }
        }
    }
    let ok = match auth.verify_password(req.password.as_str(), store.users[k].password_hash.as_str()) {
        Ok(b) => b,
        Err(e) => return Err(e),
    };
    if !ok {
        return Err(AppError::Authentication);
    }
    if store.users[k].is_banned {
        return Err(AppError::Authorization);
    }
    let id = store.users[k].id;
    let token = match auth.generate_token(id, now_s) {
        Ok(t) => t,
        Err(e) => return Err(e),
    };
    match store.record_login(id, true, now_ms) {
        Ok(_) => {},
        Err(e) => return Err(e),
    }
    Ok((k, token))
}

/// The account a bearer token authenticates, once checked against the
/// store: 401 for a bad or expired token or an unknown account, 403 for a
/// banned one. It changes nothing.
pub fn authenticate_request(store: &ChatStore, auth: &AuthService, token: &str, now_s: i64) -> (r: Result<usize, AppError>)
    requires
        store@.wf(),
    ensures
        r == match claims_user(jwt_claims_of(token@, auth.config.jwt_secret@), now_s) {
            Err(e) => Err::<usize, AppError>(e),
            Ok(u) => match store@.actor_error(u) {
                Some(e) => Err(e),
                None => Ok(store@.user_idx(u) as usize),
            },
        },
{
    let u = match auth.verify_token(token, now_s) {
        Ok(u) => u,
        Err(e) => return Err(e),
    };
    store.require_active(u)
}

} // verus!
