//! Upload rules: accepted content types, the size limit, the stored file
//! name and its extension.

use vstd::prelude::*;
use vstd::string::*;
use crate::error::AppError;
use crate::ids::{dashed, hex_digit, id_text};
use crate::text::{decimal, digit_char, push_decimal};
use crate::validation::is_alphanumeric;

verus! {

/// Longest extension kept on a stored upload.
pub const MAX_EXTENSION_LEN: usize = 10;

/// The accepted content types.
pub open spec fn allowed_mime(s: Seq<char>) -> bool {
    s == "image/jpeg"@ || s == "image/png"@ || s == "image/gif"@ || s == "image/webp"@ || s
        == "video/mp4"@ || s == "video/webm"@ || s == "video/ogg"@ || s == "application/pdf"@ || s
        == "application/msword"@ || s
        == "application/vnd.openxmlformats-officedocument.wordprocessingml.document"@ || s
        == "application/vnd.ms-excel"@ || s
        == "application/vnd.openxmlformats-officedocument.spreadsheetml.sheet"@ || s == "text/plain"@
}

/// Whether a content type may be uploaded.
pub fn is_allowed_mime(s: &String) -> (r: bool)
    ensures
        r == allowed_mime(s@),
{
    *s == String::from_str("image/jpeg") || *s == String::from_str("image/png") || *s == String::from_str(
        "image/gif",
    ) || *s == String::from_str("image/webp") || *s == String::from_str("video/mp4") || *s
        == String::from_str("video/webm") || *s == String::from_str("video/ogg") || *s
        == String::from_str("application/pdf") || *s == String::from_str("application/msword") || *s
        == String::from_str("application/vnd.openxmlformats-officedocument.wordprocessingml.document")
        || *s == String::from_str("application/vnd.ms-excel") || *s == String::from_str(
        "application/vnd.openxmlformats-officedocument.spreadsheetml.sheet",
    ) || *s == String::from_str("text/plain")
}

/// Refuses a body larger than the configured limit; one of exactly the limit passes.
pub fn check_size(len: usize, max: usize) -> (r: Result<(), AppError>)
    ensures
        r is Ok <==> len <= max,
        r is Err ==> r == Err::<(), AppError>(AppError::Upload),
{
    if len > max {
        Err(AppError::Upload)
    } else {
        Ok(())
    }
}

/// What `Path::extension` gives for a file name, as text.
pub uninterp spec fn extension_of(name: Seq<char>) -> Option<Seq<char>>;

/// Relies on `std::path::Path::extension`: the extension of the name's last
/// component, which depends on the text alone.
#[verifier::external_body]
fn path_extension(name: &str) -> (r: Option<String>)
    ensures
        match r {
            Some(e) => extension_of(name@) == Some(e@),
            None => extension_of(name@) is None,
        },
{
    std::path::Path::new(name).extension().map(|e| e.to_string_lossy().into_owned())
}

/// The extension a stored upload gets from the requested one: `bin` when
/// there is none, the first ten characters otherwise; `None` when it holds
/// anything but ASCII letters and digits.
pub open spec fn stored_extension(ext: Option<Seq<char>>) -> Option<Seq<char>> {
    match ext {
        None => Some("bin"@),
        Some(e) => if e.len() == 0 {
            Some("bin"@)
        } else if exists|i: int| 0 <= i < e.len() && !is_alphanumeric(#[trigger] e[i]) {
            None
        } else if e.len() > MAX_EXTENSION_LEN {
            Some(e.subrange(0, MAX_EXTENSION_LEN as int))
        } else {
            Some(e)
        },
    }
}

/// Applies the extension rule.
pub fn sanitize_extension(ext: Option<String>) -> (r: Result<String, AppError>)
    ensures
        match stored_extension(
            match ext {
                Some(e) => Some(e@),
                None => None,
            },
        ) {
            Some(s) => r matches Ok(x) && x@ == s,
            None => r == Err::<String, AppError>(AppError::Upload),
        },
{
    proof {
        reveal_strlit("bin");
    }
    let e = match ext {
        None => return Ok(String::from_str("bin")),
        Some(e) => e,
    };
    let n = e.as_str().unicode_len();
    if n == 0 {
        return Ok(String::from_str("bin"));
    }
    let mut i: usize = 0;
    while i < n
        invariant
            n == e@.len(),
            n > 0,
            ext matches Some(x) && x@ == e@,
            i <= n,
            forall|j: int| 0 <= j < i ==> is_alphanumeric(#[trigger] e@[j]),
        decreases n - i,
    {
        let c = e.as_str().get_char(i);
        if !(('a' <= c && c <= 'z') || ('A' <= c && c <= 'Z') || ('0' <= c && c <= '9')) {
            proof {
                assert(!is_alphanumeric(e@[i as int]));
                assert(exists|j: int| 0 <= j < e@.len() && !is_alphanumeric(#[trigger] e@[j]));
                assert(stored_extension(Some(e@)) is None);
            }
            return Err(AppError::Upload);
        }
        i += 1;
    }
    if n > MAX_EXTENSION_LEN {
        Ok(String::from_str(e.as_str().substring_char(0, MAX_EXTENSION_LEN)))
    } else {
        Ok(e)
    }
}

/// Characters a stored file name is made of.
pub open spec fn name_char(c: char) -> bool {
    is_alphanumeric(c) || c == '-' || c == '.'
}

/// The stored name of an upload: `{ms}-{id}.{ext}`.
pub open spec fn stored_name(ms: u64, id: u128, ext: Seq<char>) -> Seq<char> {
    decimal(ms as nat) + seq!['-'] + dashed(id) + seq!['.'] + ext
}

proof fn lemma_decimal_chars(n: nat)
    ensures
        forall|i: int| 0 <= i < decimal(n).len() ==> #[trigger] is_alphanumeric(decimal(n)[i]),
    decreases n,
{
    lemma_digit_chars();
    if n >= 10 {
        lemma_decimal_chars(n / 10);
        let p = decimal(n / 10);
        assert forall|i: int| 0 <= i < decimal(n).len() implies #[trigger] is_alphanumeric(decimal(n)[i]) by {
            if i < p.len() {
                assert(decimal(n)[i] == p[i]);
            } else {
                assert(decimal(n)[i] == digit_char(n % 10));
            }
        }
    } else {
        assert(decimal(n)[0] == digit_char(n));
    }
}

proof fn lemma_digit_chars()
    ensures
        forall|d: nat| d < 10 ==> #[trigger] is_alphanumeric(digit_char(d)),
{
    assert forall|d: nat| d < 10 implies #[trigger] is_alphanumeric(digit_char(d)) by {
        if d == 0 {} else if d == 1 {} else if d == 2 {} else if d == 3 {} else if d == 4 {}
        else if d == 5 {} else if d == 6 {} else if d == 7 {} else if d == 8 {} else {}
    }
}

proof fn lemma_hex_chars()
    ensures
        forall|d: int| 0 <= d < 16 ==> #[trigger] is_alphanumeric(hex_digit(d)),
{
    assert forall|d: int| 0 <= d < 16 implies #[trigger] is_alphanumeric(hex_digit(d)) by {
        if d == 0 {} else if d == 1 {} else if d == 2 {} else if d == 3 {} else if d == 4 {}
        else if d == 5 {} else if d == 6 {} else if d == 7 {} else if d == 8 {} else if d == 9 {}
        else if d == 10 {} else if d == 11 {} else if d == 12 {} else if d == 13 {} else if d == 14 {}
        else {}
    }
}

proof fn lemma_dashed_chars(v: u128)
    ensures
        forall|i: int| 0 <= i < dashed(v).len() ==> #[trigger] name_char(dashed(v)[i]),
{
    lemma_hex_chars();
    assert forall|i: int| 0 <= i < dashed(v).len() implies #[trigger] name_char(dashed(v)[i]) by {
        let j = crate::ids::digit_index(i);
        let sh = (124 - 4 * j) as u128;
        assert((v >> sh) & 15u128 <= 15u128) by (bit_vector);
        let d = crate::ids::nibble(v, j);
        assert(0 <= d < 16);
    }
}

/// Builds the stored name of an upload. It is made of letters, digits, `-`
/// and `.`, and starts with a digit, so joined to the upload directory it
/// names a file directly inside it.
pub fn stored_file_name(ms: u64, id: u128, ext: &String) -> (r: String)
    requires
        forall|i: int| 0 <= i < ext@.len() ==> is_alphanumeric(#[trigger] ext@[i]),
    ensures
        r@ == stored_name(ms, id, ext@),
        forall|i: int| 0 <= i < r@.len() ==> #[trigger] name_char(r@[i]),
        r@.len() > 0 && r@[0] != '.',
{
    proof {
        reveal_strlit("-");
        reveal_strlit(".");
    }
    let mut r = String::new();
    push_decimal(&mut r, ms);
    r.append("-");
    r.append(id_text(id).as_str());
    r.append(".");
    r.append(ext.as_str());
    proof {
        let s = stored_name(ms, id, ext@);
        assert(r@ =~= s);
        lemma_decimal_chars(ms as nat);
        lemma_dashed_chars(id);
        let a = decimal(ms as nat).len();
        assert(a > 0);
        assert forall|i: int| 0 <= i < s.len() implies #[trigger] name_char(s[i]) by {
            if i < a {
                assert(s[i] == decimal(ms as nat)[i]);
            } else if i == a {
            } else if i < a + 1 + 36 {
                assert(s[i] == dashed(id)[i - a - 1]);
            } else if i == a + 37 {
            } else {
                assert(s[i] == ext@[i - a - 38]);
            }
        }
        assert(is_alphanumeric(s[0]));
    }
    r
}

/// The checks of an upload with the given content type, original file name
/// and size: the name to store it under, or `Upload` (400).
pub fn upload_file(
    content_type: &String,
    filename: &str,
    size: usize,
    max_file_size: usize,
    ms: u64,
    id: u128,
) -> (r: Result<String, AppError>)
    ensures
        !allowed_mime(content_type@) ==> r == Err::<String, AppError>(AppError::Upload),
        allowed_mime(content_type@) && size > max_file_size ==> r == Err::<String, AppError>(AppError::Upload),
        allowed_mime(content_type@) && size <= max_file_size ==> match stored_extension(extension_of(filename@)) {
            Some(e) => r matches Ok(x) && x@ == stored_name(ms, id, e),
            None => r == Err::<String, AppError>(AppError::Upload),
        },
{
    if !is_allowed_mime(content_type) {
        return Err(AppError::Upload);
    }
    match check_size(size, max_file_size) {
        Ok(()) => {},
        Err(e) => return Err(e),
    }
    let ext = match sanitize_extension(path_extension(filename)) {
        Ok(e) => e,
        Err(e) => return Err(e),
    };
    proof {
        let x = extension_of(filename@);
        if let Some(e) = stored_extension(x) {
            reveal_strlit("bin");
            assert forall|i: int| 0 <= i < e.len() implies is_alphanumeric(#[trigger] e[i]) by {
                match x {
                    None => {},
                    Some(q) => {
                        if q.len() > 0 && q.len() > MAX_EXTENSION_LEN {
                            assert(e[i] == q[i]);
                        }
                    },
                }
            }
        }
    }
    Ok(stored_file_name(ms, id, &ext))
}

} // verus!
