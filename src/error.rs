//! Error kinds shared by every request path, with their HTTP mapping.

use vstd::prelude::*;

verus! {

/// The kind of failure of a request or an event verb.
#[derive(Clone, Copy, Debug, PartialEq, Eq, Structural)]
pub enum AppError {
    Database,
    Authentication,
    Authorization,
    Validation,
    NotFound,
    Conflict,
    Internal,
    BadRequest,
    Tor,
    Encryption,
    Upload,
}

/// The HTTP status that answers an error kind.
pub open spec fn status_of(e: AppError) -> u16 {
    match e {
        AppError::Authentication => 401,
        AppError::Authorization => 403,
        AppError::Validation | AppError::BadRequest | AppError::Upload => 400,
        AppError::NotFound => 404,
        AppError::Conflict => 409,
        AppError::Tor => 503,
        AppError::Database | AppError::Encryption | AppError::Internal => 500,
    }
}

/// The `error` field of the JSON error body for an error kind.
pub open spec fn kind_name_of(e: AppError) -> Seq<char> {
    match e {
        AppError::Database => "database_error"@,
        AppError::Authentication => "authentication_failed"@,
        AppError::Authorization => "access_denied"@,
        AppError::Validation => "validation_error"@,
        AppError::NotFound => "not_found"@,
        AppError::Conflict => "conflict"@,
        AppError::Internal => "internal_error"@,
        AppError::BadRequest => "bad_request"@,
        AppError::Tor => "tor_unavailable"@,
        AppError::Encryption => "encryption_error"@,
        AppError::Upload => "upload_error"@,
    }
}

/// The `details` field of the JSON error body: a fixed, safe text per kind,
/// never the text of an underlying fault.
pub open spec fn details_of(e: AppError) -> Seq<char> {
    match e {
        AppError::Database => "Database error"@,
        AppError::Authentication => "Authentication failed"@,
        AppError::Authorization => "Access denied"@,
        AppError::Validation => "Validation error"@,
        AppError::NotFound => "Not found"@,
        AppError::Conflict => "Conflict"@,
        AppError::Internal => "Internal server error"@,
        AppError::BadRequest => "Bad request"@,
        AppError::Tor => "TOR error"@,
        AppError::Encryption => "Encryption failed"@,
        AppError::Upload => "File upload error"@,
    }
}

impl AppError {
    /// The `details` field of the JSON error body.
    pub fn details(&self) -> (r: &'static str)
        ensures
            r@ == details_of(*self),
    {
        proof {
            reveal_strlit("Database error");
            reveal_strlit("Authentication failed");
            reveal_strlit("Access denied");
            reveal_strlit("Validation error");
            reveal_strlit("Not found");
            reveal_strlit("Conflict");
            reveal_strlit("Internal server error");
            reveal_strlit("Bad request");
            reveal_strlit("TOR error");
            reveal_strlit("Encryption failed");
            reveal_strlit("File upload error");
        }
        match self {
            AppError::Database => "Database error",
            AppError::Authentication => "Authentication failed",
            AppError::Authorization => "Access denied",
            AppError::Validation => "Validation error",
            AppError::NotFound => "Not found",
            AppError::Conflict => "Conflict",
            AppError::Internal => "Internal server error",
            AppError::BadRequest => "Bad request",
            AppError::Tor => "TOR error",
            AppError::Encryption => "Encryption failed",
            AppError::Upload => "File upload error",
        }
    }

    /// HTTP status code of this error.
    pub fn status_code(&self) -> (r: u16)
        ensures
            r == status_of(*self),
    {
        match self {
            AppError::Authentication => 401,
            AppError::Authorization => 403,
            AppError::Validation | AppError::BadRequest | AppError::Upload => 400,
            AppError::NotFound => 404,
            AppError::Conflict => 409,
            AppError::Tor => 503,
            AppError::Database | AppError::Encryption | AppError::Internal => 500,
        }
    }

    /// The `error` field of the JSON error body.
    pub fn kind_name(&self) -> (r: &'static str)
        ensures
            r@ == kind_name_of(*self),
            r@.len() > 0,
    {
        let r = match self {
            AppError::Database => "database_error",
            AppError::Authentication => "authentication_failed",
            AppError::Authorization => "access_denied",
            AppError::Validation => "validation_error",
            AppError::NotFound => "not_found",
            AppError::Conflict => "conflict",
            AppError::Internal => "internal_error",
            AppError::BadRequest => "bad_request",
            AppError::Tor => "tor_unavailable",
            AppError::Encryption => "encryption_error",
            AppError::Upload => "upload_error",
        };
        proof {
            reveal_strlit("database_error");
            reveal_strlit("authentication_failed");
            reveal_strlit("access_denied");
            reveal_strlit("validation_error");
            reveal_strlit("not_found");
            reveal_strlit("conflict");
            reveal_strlit("internal_error");
            reveal_strlit("bad_request");
            reveal_strlit("tor_unavailable");
            reveal_strlit("encryption_error");
            reveal_strlit("upload_error");
        }
        r
    }

    /// Whether this error is an internal fault whose details are kept from the client.
    pub fn is_internal(&self) -> (r: bool)
        ensures
            r == (status_of(*self) == 500),
    {
        matches!(self, AppError::Database | AppError::Encryption | AppError::Internal)
    }
}

} // verus!
