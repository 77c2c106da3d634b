//! Input rules of the request bodies: usernames, passwords, room settings,
//! message kinds and uploads.

use vstd::prelude::*;
use vstd::string::*;
use crate::error::AppError;
use crate::store::{MessageType, RoomType};

verus! {

/// Room capacity used when a request names none.
pub const DEFAULT_MAX_MEMBERS: u32 = 100;

/// Smallest and largest capacity a room may be created with.
pub const MIN_MEMBERS: i64 = 2;
pub const MAX_MEMBERS: i64 = 1000;

/// Longest extension kept on a stored upload.
pub const MAX_EXTENSION_LEN: usize = 10;

pub open spec fn is_word_char(c: char) -> bool {
    ('a' <= c && c <= 'z') || ('A' <= c && c <= 'Z') || ('0' <= c && c <= '9') || c == '_'
}

pub open spec fn is_alphanumeric(c: char) -> bool {
    ('a' <= c && c <= 'z') || ('A' <= c && c <= 'Z') || ('0' <= c && c <= '9')
}

/// 3 to 50 characters, each an ASCII letter, digit or underscore.
pub open spec fn valid_username(s: Seq<char>) -> bool {
    3 <= s.len() <= 50 && forall|i: int| 0 <= i < s.len() ==> is_word_char(#[trigger] s[i])
}

/// 8 to 100 characters.
pub open spec fn valid_password(s: Seq<char>) -> bool {
    8 <= s.len() <= 100
}

/// 1 to 100 characters.
pub open spec fn valid_room_name(s: Seq<char>) -> bool {
    1 <= s.len() <= 100
}

pub open spec fn valid_max_members(n: Option<i32>) -> bool {
    match n {
        Some(k) => MIN_MEMBERS <= k <= MAX_MEMBERS,
        None => true,
    }
}

/// Whether `validator`'s HTML5 e-mail rule accepts a text.
pub uninterp spec fn email_ok_of(s: Seq<char>) -> bool;

/// Relies on `validator::ValidateEmail::validate_email` on a `&str`: the
/// answer depends on the text alone, and a text that is empty or holds no `@`
/// is refused.
#[verifier::external_body]
fn email_ok(s: &str) -> (r: bool)
    ensures
        r == email_ok_of(s@),
        (s@.len() == 0 || !s@.contains('@')) ==> !r,
{
    validator::ValidateEmail::validate_email(&s)
}

fn is_word_char_exec(c: char) -> (r: bool)
    ensures
        r == is_word_char(c),
{
    ('a' <= c && c <= 'z') || ('A' <= c && c <= 'Z') || ('0' <= c && c <= '9') || c == '_'
}

/// Checks a username.
pub fn validate_username(s: &str) -> (r: Result<(), AppError>)
    ensures
        r is Ok <==> valid_username(s@),
        r is Err ==> r == Err::<(), AppError>(AppError::Validation),
{
    let n = s.unicode_len();
    if n < 3 || n > 50 {
        return Err(AppError::Validation);
    }
    let mut i: usize = 0;
    while i < n
        invariant
            n == s@.len(),
            i <= n,
            forall|j: int| 0 <= j < i ==> is_word_char(#[trigger] s@[j]),
        decreases n - i,
    {
        if !is_word_char_exec(s.get_char(i)) {
            return Err(AppError::Validation);
        }
        i += 1;
    }
    Ok(())
}

/// Checks a password's length.
pub fn validate_password(s: &str) -> (r: Result<(), AppError>)
    ensures
        r is Ok <==> valid_password(s@),
        r is Err ==> r == Err::<(), AppError>(AppError::Validation),
{
    let n = s.unicode_len();
    if n < 8 || n > 100 {
        Err(AppError::Validation)
    } else {
        Ok(())
    }
}

/// Checks an optional text against a largest length.
pub fn validate_optional_len(s: &Option<String>, max: usize) -> (r: Result<(), AppError>)
    ensures
        r is Ok <==> match s {
            Some(t) => t@.len() <= max,
            None => true,
        },
        r is Err ==> r == Err::<(), AppError>(AppError::Validation),
{
    match s {
        Some(t) => {
            if t.as_str().unicode_len() > max {
                Err(AppError::Validation)
            } else {
                Ok(())
            }
        },
        None => Ok(()),
    }
}

/// Checks an optional e-mail address.
pub fn validate_email(s: &Option<String>) -> (r: Result<(), AppError>)
    ensures
        r is Ok <==> match s {
            Some(t) => email_ok_of(t@),
            None => true,
        },
        r is Err ==> r == Err::<(), AppError>(AppError::Validation),
{
    match s {
        Some(t) => {
            if email_ok(t.as_str()) {
                Ok(())
            } else {
                Err(AppError::Validation)
            }
        },
        None => Ok(()),
    }
}

/// Checks a room name.
pub fn validate_room_name(s: &str) -> (r: Result<(), AppError>)
    ensures
        r is Ok <==> valid_room_name(s@),
        r is Err ==> r == Err::<(), AppError>(AppError::Validation),
{
    let n = s.unicode_len();
    if n < 1 || n > 100 {
        Err(AppError::Validation)
    } else {
        Ok(())
    }
}

/// The capacity of a new room: the requested one if it lies in `[2, 1000]`,
/// the default when none is requested.
pub fn validate_max_members(n: Option<i32>) -> (r: Result<u32, AppError>)
    ensures
        r is Ok <==> valid_max_members(n),
        r is Err ==> r == Err::<u32, AppError>(AppError::Validation),
        r matches Ok(k) ==> match n {
            Some(m) => k == m,
            None => k == DEFAULT_MAX_MEMBERS,
        },
{
    match n {
        Some(k) => {
            if (k as i64) < MIN_MEMBERS || (k as i64) > MAX_MEMBERS {
                Err(AppError::Validation)
            } else {
                Ok(k as u32)
            }
        },
        None => Ok(DEFAULT_MAX_MEMBERS),
    }
}

/// The room type a text names.
pub open spec fn room_type_of(s: Seq<char>) -> Option<RoomType> {
    if s == "public"@ {
        Some(RoomType::Public)
    } else if s == "private"@ {
        Some(RoomType::Private)
    } else {
        None
    }
}

/// The message type a text names.
pub open spec fn message_type_of(s: Seq<char>) -> Option<MessageType> {
    if s == "text"@ {
        Some(MessageType::Text)
    } else if s == "file"@ {
        Some(MessageType::File)
    } else if s == "image"@ {
        Some(MessageType::Image)
    } else if s == "video"@ {
        Some(MessageType::Video)
    } else if s == "system"@ {
        Some(MessageType::System)
    } else {
        None
    }
}

/// Reads a room type: `public` or `private`.
pub fn parse_room_type(s: &str) -> (r: Result<RoomType, AppError>)
    ensures
        r == match room_type_of(s@) {
            Some(t) => Ok::<RoomType, AppError>(t),
            None => Err(AppError::Validation),
        },
{
    let t = String::from_str(s);
    if t == String::from_str("public") {
        Ok(RoomType::Public)
    } else if t == String::from_str("private") {
        Ok(RoomType::Private)
    } else {
        Err(AppError::Validation)
    }
}

/// Reads a message type; an absent one is `text`.
pub fn parse_message_type(s: &Option<String>) -> (r: Result<MessageType, AppError>)
    ensures
        r == match s {
            None => Ok::<MessageType, AppError>(MessageType::Text),
            Some(t) => match message_type_of(t@) {
                Some(k) => Ok(k),
                None => Err(AppError::Validation),
            },
        },
{
    match s {
        None => Ok(MessageType::Text),
        Some(t) => {
            if *t == String::from_str("text") {
                Ok(MessageType::Text)
            } else if *t == String::from_str("file") {
                Ok(MessageType::File)
            } else if *t == String::from_str("image") {
                Ok(MessageType::Image)
            } else if *t == String::from_str("video") {
                Ok(MessageType::Video)
            } else if *t == String::from_str("system") {
                Ok(MessageType::System)
            } else {
                Err(AppError::Validation)
            }
        },
    }
}

} // verus!
