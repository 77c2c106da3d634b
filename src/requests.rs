//! Request bodies of the REST surface and payloads of the event verbs, with
//! their validation.

use vstd::prelude::*;
use crate::error::AppError;
use crate::ids::{parse_id, uuid_parse_of};
use crate::validation::{
    email_ok_of, valid_max_members, valid_password, valid_room_name, valid_username, validate_email,
    validate_max_members, validate_optional_len, validate_password, validate_room_name, validate_username,
};

verus! {

/// `POST /api/auth/register`.
pub struct RegisterRequest {
    pub username: String,
    pub email: Option<String>,
    pub password: String,
    pub display_name: Option<String>,
    pub public_key: Option<String>,
}

/// The account form of the first schema, with an encrypted private key.
pub struct CreateUserRequest {
    pub username: String,
    pub email: Option<String>,
    pub password: String,
    pub public_key: Option<String>,
    pub private_key_encrypted: Option<String>,
    pub display_name: Option<String>,
}

/// `POST /api/auth/login`.
pub struct LoginRequest {
    pub username: String,
    pub password: String,
}

/// `POST /api/rooms`. `room_type` is `public` or `private`.
pub struct CreateRoomRequest {
    pub name: String,
    pub description: Option<String>,
    pub room_type: Option<String>,
    pub max_members: Option<i32>,
    pub is_public: Option<bool>,
    pub avatar: Option<String>,
}

/// New ciphertext for a message.
pub struct EditMessageRequest {
    pub encrypted_content: String,
}

/// A reaction to add.
pub struct AddReactionRequest {
    pub emoji: String,
}

/// `?limit&offset` of a history request.
pub struct PaginationQuery {
    pub limit: i64,
    pub offset: i64,
}

/// `?q` of a search request.
pub struct SearchQuery {
    pub q: String,
}

/// `authenticate {token}`.
pub struct AuthData {
    pub token: String,
}

/// `join_room {roomId}`.
pub struct JoinRoomData {
    pub room_id: String,
}

/// `leave_room {roomId}`.
pub struct LeaveRoomData {
    pub room_id: String,
}

/// `typing {roomId, typing}`.
pub struct TypingData {
    pub room_id: String,
    pub typing: bool,
}

/// `add_reaction` / `remove_reaction {messageId, emoji}`.
pub struct ReactionData {
    pub message_id: String,
    pub emoji: String,
}

/// `edit_message {messageId, content}`.
pub struct EditMessageData {
    pub message_id: String,
    pub content: String,
}

/// `delete_message {messageId}`.
pub struct DeleteMessageData {
    pub message_id: String,
}

/// `mark_read {roomId, messageId}`.
pub struct MarkReadData {
    pub room_id: String,
    pub message_id: String,
}

/// `forward_message {messageId, targetRoomId}`.
pub struct ForwardMessageData {
    pub message_id: String,
    pub target_room_id: String,
}

/// `error {error}`, sent to the originator of a refused verb.
pub struct ErrorResponse {
    pub error: String,
}

/// Page size used when a request names none.
pub fn default_limit() -> (r: i64)
    ensures
        r == 50,
{
    50
}

/// Largest page a history request may ask for.
pub const MAX_PAGE_LIMIT: i64 = 200;

/// Optional text no longer than `max` characters.
pub open spec fn short_enough(s: Option<String>, max: nat) -> bool {
    match s {
        Some(t) => t@.len() <= max,
        None => true,
    }
}

/// Optional e-mail address that passes the e-mail rule.
pub open spec fn email_acceptable(s: Option<String>) -> bool {
    match s {
        Some(t) => email_ok_of(t@),
        None => true,
    }
}

impl RegisterRequest {
    /// Username, e-mail, password and display name rules; any failure is `Validation` (400).
    pub fn validate(&self) -> (r: Result<(), AppError>)
        ensures
            r is Ok <==> valid_username(self.username@) && email_acceptable(self.email) && valid_password(
                self.password@,
            ) && short_enough(self.display_name, 100),
            r is Err ==> r == Err::<(), AppError>(AppError::Validation),
    {
        if validate_username(self.username.as_str()).is_err() {
            return Err(AppError::Validation);
        }
        if validate_email(&self.email).is_err() {
            return Err(AppError::Validation);
        }
        if validate_password(self.password.as_str()).is_err() {
            return Err(AppError::Validation);
        }
        validate_optional_len(&self.display_name, 100)
    }
}

impl CreateUserRequest {
    /// Username, e-mail and password rules; any failure is `Validation` (400).
    pub fn validate(&self) -> (r: Result<(), AppError>)
        ensures
            r is Ok <==> valid_username(self.username@) && email_acceptable(self.email) && valid_password(
                self.password@,
            ),
            r is Err ==> r == Err::<(), AppError>(AppError::Validation),
    {
        if validate_username(self.username.as_str()).is_err() {
            return Err(AppError::Validation);
        }
        if validate_email(&self.email).is_err() {
            return Err(AppError::Validation);
        }
        validate_password(self.password.as_str())
    }
}

impl CreateRoomRequest {
    /// Name, description and capacity rules; any failure is `Validation` (400).
    pub fn validate(&self) -> (r: Result<(), AppError>)
        ensures
            r is Ok <==> valid_room_name(self.name@) && short_enough(self.description, 500) && valid_max_members(
                self.max_members,
            ),
            r is Err ==> r == Err::<(), AppError>(AppError::Validation),
    {
        if validate_room_name(self.name.as_str()).is_err() {
            return Err(AppError::Validation);
        }
        if validate_optional_len(&self.description, 500).is_err() {
            return Err(AppError::Validation);
        }
        match validate_max_members(self.max_members) {
            Ok(_) => Ok(()),
            Err(e) => Err(e),
        }
    }
}

impl EditMessageRequest {
    /// The new ciphertext is not empty.
    pub fn validate(&self) -> (r: Result<(), AppError>)
        ensures
            r is Ok <==> self.encrypted_content@.len() >= 1,
            r is Err ==> r == Err::<(), AppError>(AppError::Validation),
    {
        if self.encrypted_content.as_str().unicode_len() == 0 {
            Err(AppError::Validation)
        } else {
            Ok(())
        }
    }
}

/// The bounds of a page: `limit` within `[0, MAX_PAGE_LIMIT]`, `offset` at least 0.
pub open spec fn page_bounds_of(limit: i64, offset: i64) -> (usize, usize) {
    (
        (if limit < 0 { 0 } else if limit > MAX_PAGE_LIMIT { MAX_PAGE_LIMIT } else { limit }) as usize,
        (if offset < 0 { 0 } else { offset }) as usize,
    )
}

impl PaginationQuery {
    /// The page a request asks for, once its bounds are applied.
    pub fn bounds(&self) -> (r: (usize, usize))
        ensures
            r == page_bounds_of(self.limit, self.offset),
    {
        let limit: i64 = if self.limit < 0 {
            0
        } else if self.limit > MAX_PAGE_LIMIT {
            MAX_PAGE_LIMIT
        } else {
            self.limit
        };
        let offset: i64 = if self.offset < 0 {
            0
        } else {
            self.offset
        };
        (limit as usize, offset as usize)
    }
}

/// Reads an identifier carried by an event payload; a malformed one is `BadRequest`.
pub fn payload_id(s: &String) -> (r: Result<u128, AppError>)
    ensures
        r == match uuid_parse_of(s@) {
            Some(id) => Ok::<u128, AppError>(id),
            None => Err(AppError::BadRequest),
        },
{
    match parse_id(s.as_str()) {
        Some(id) => Ok(id),
        None => Err(AppError::BadRequest),
    }
}

} // verus!
